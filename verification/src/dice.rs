//! The `!roll` command of the basic listener: `!roll N-` rolls a number
//! from 1 up to, but not including, `N`.
use vstd::prelude::*;
use crate::cleaning::{first_occurrence, first_occurrence_exec, lemma_first_occurrence};
use crate::commandless::{decimal_value, parse_number, parses_as_i64};
use crate::help::{ascii_lowercase, to_ascii_lowercase};
use crate::storage::{decimal_string, decimal_text};
use crate::text::{str_eq, substring, to_chars, trim, trimmed};

verus! {

/// Calls `rand::random_range` on `lo..hi`. The number is drawn at random;
/// all that is stated of it is that it lies in the range, which
/// `random_range` documents and asserts on.
#[verifier::external_body]
fn random_in(lo: i64, hi: i64) -> (r: i64)
    requires
        lo < hi,
    ensures
        lo <= r < hi,
{
    rand::random_range(lo..hi)
}

/// A number written as digits, with an optional `+` before them.
pub open spec fn plain_number(b: Seq<char>) -> Option<int> {
    let d = if b.len() > 0 && b[0] == '+' {
        b.skip(1)
    } else {
        b
    };
    if parses_as_i64(d) {
        Some(decimal_value(d))
    } else {
        None
    }
}

/// The upper limit that a roll command names: the message starts with
/// `!roll ` (in any ASCII case) and what follows holds a `-`; the limit is
/// the number written before that `-`, white space around it ignored.
pub open spec fn roll_limit(body: Seq<char>) -> Option<int> {
    if body.len() < 6 || ascii_lowercase(body.take(6)) != "!roll "@ {
        None
    } else {
        let m = body.skip(6);
        let k = first_occurrence(m, 0, seq!['-']);
        if k < 0 {
            None
        } else {
            plain_number(trimmed(m.take(k)))
        }
    }
}

/// Reads a number written as digits with an optional `+` before them.
fn plain_number_exec(b: &str) -> (r: Option<i64>)
    ensures
        match plain_number(b@) {
            Some(n) => r matches Some(v) && v == n,
            None => r is None,
        },
{
    let v = to_chars(b);
    if v.len() > 0 && v[0] == '+' {
        let d = substring(v.as_slice(), 1, v.len());
        assert(v@.subrange(1, v@.len() as int) =~= v@.skip(1));
        parse_number(d.as_str())
    } else {
        parse_number(b)
    }
}

/// The limit named by a roll command.
pub fn roll_limit_exec(body: &str) -> (r: Option<i64>)
    ensures
        match roll_limit(body@) {
            Some(n) => r matches Some(v) && v == n,
            None => r is None,
        },
{
    let v = to_chars(body);
    if v.len() < 6 {
        return None;
    }
    let head = substring(v.as_slice(), 0, 6);
    let low = to_ascii_lowercase(head.as_str());
    assert(v@.subrange(0, 6) =~= v@.take(6));
    if !str_eq(low.as_str(), "!roll ") {
        return None;
    }
    let rest = substring(v.as_slice(), 6, v.len());
    assert(v@.subrange(6, v@.len() as int) =~= v@.skip(6));
    let m = to_chars(rest.as_str());
    let dash: [char; 1] = ['-'];
    assert(dash@ =~= seq!['-']);
    match first_occurrence_exec(m.as_slice(), dash.as_slice()) {
        None => None,
        Some(k) => {
            proof {
                lemma_first_occurrence(m@, 0, dash@);
            }
            let before = substring(m.as_slice(), 0, k);
            assert(m@.subrange(0, k as int) =~= m@.take(k as int));
            let bv = to_chars(before.as_str());
            let t = trim(bv.as_slice());
            plain_number_exec(t.as_str())
        },
    }
}

/// Answers a roll command that replies to no other message and is not
/// formatted: a number drawn at random from 1 up to the limit, excluded.
/// A command without a limit is not answered.
pub fn roll(body: &str, replies_to_other: bool, formatted: bool) -> (r: Option<String>)
    requires
        !replies_to_other && !formatted && roll_limit(body@) is Some ==> roll_limit(body@)->0 > 1,
    ensures
        replies_to_other || formatted ==> r is None,
        !replies_to_other && !formatted ==> match roll_limit(body@) {
            None => r is None,
            Some(n) => r matches Some(t) && exists|v: nat| 1 <= v < n && t@ == #[trigger] decimal_text(v),
        },
{
    if replies_to_other || formatted {
        return None;
    }
    match roll_limit_exec(body) {
        None => None,
        Some(n) => {
            let v = random_in(1, n);
            let t = decimal_string(v as u64);
            assert(1 <= v < n && t@ == decimal_text((v as u64) as nat));
            Some(t)
        },
    }
}

} // verus!
