#![allow(unused_imports)]
use matrix_bot::command::{no_bang_is_match, unit_conversion_command, unit_conversion_command_is_match};
use matrix_bot::quantity::unit_conversion_is_match;

#[test]
fn test_bang_at_front() {
    assert_eq!(false, no_bang_is_match("!convert"));
}

#[test]
fn test_bang_at_end() {
    assert_eq!(true, no_bang_is_match("convert!"));
}

#[test]
fn test_bang_after_starting_space() {
    assert_eq!(true, no_bang_is_match(" !convert"));
}

#[test]
fn test_no_bang() {
    assert_eq!(true, no_bang_is_match("hoogaboogawooga"));
}
