//! Verified core of a Matrix chat bot.
use vstd::prelude::*;

pub mod basic;
pub mod chars;
pub mod cleaning;
pub mod command;
pub mod commandless;
pub mod config;
pub mod dice;
pub mod help;
pub mod ids;
pub mod laws;
pub mod listener;
pub mod logging;
pub mod mentions;
pub mod messages;
pub mod quantity;
pub mod response;
pub mod spelling;
pub mod storage;
pub mod text;
pub mod webhook;

verus! {
} // verus!
