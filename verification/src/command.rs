//! The grammar of commands: messages that start with `!`, and the
//! `!convert <number> <unit>` command.
use vstd::prelude::*;
use crate::chars::{at_class, char_at_class, lemma_run_end, run_end, scan_run, CharClass};
use crate::quantity::UnitConversionCapture;
use crate::text::{substring, to_chars};

verus! {

/// Whether `text` is not a command: it has a first character and that
/// character is not `!`.
pub open spec fn spec_no_bang(s: Seq<char>) -> bool {
    s.len() > 0 && s[0] != '!'
}

/// Whether `text` is not a command: it has a first character and that
/// character is not `!`.
pub fn no_bang_is_match(text: &str) -> (b: bool)
    ensures
        b == spec_no_bang(text@),
{
    let s = to_chars(text);
    s.len() > 0 && s[0] != '!'
}

pub open spec fn convert_tag() -> Seq<char> {
    seq!['!', 'c', 'o', 'n', 'v', 'e', 'r', 't']
}

pub open spec fn has_prefix(s: Seq<char>, p: Seq<char>) -> bool {
    p.len() <= s.len() && s.subrange(0, p.len() as int) == p
}

/// The first position in `[i, end)` that holds a character of class `k`,
/// or `end` if there is none.
pub open spec fn first_of_class(s: Seq<char>, i: int, end: int, k: CharClass) -> int
    decreases end - i,
{
    if i >= end {
        end
    } else if at_class(s, i, k) {
        i
    } else {
        first_of_class(s, i + 1, end, k)
    }
}

/// Whether a unit of the command starts at `u`: a letter, or `°` and a letter.
pub open spec fn command_unit_start(s: Seq<char>, u: int) -> bool {
    at_class(s, u, CharClass::Alpha) || (0 <= u < s.len() && s[u] == '°' && at_class(
        s,
        u + 1,
        CharClass::Alpha,
    ))
}

/// The first position in `[i, end)` where a unit of the command starts, or
/// `end` if there is none.
pub open spec fn first_command_unit(s: Seq<char>, i: int, end: int) -> int
    decreases end - i,
{
    if i >= end {
        end
    } else if command_unit_start(s, i) {
        i
    } else {
        first_command_unit(s, i + 1, end)
    }
}

/// The `!convert` command: the text starts with `!convert`; on its first
/// line, after anything, comes a number (digits, optionally `.` and
/// digits) and, after anything, a unit (an optional `°`, letters, and
/// optionally `/` and letters). The number is the first on the line, taken
/// whole, and the unit is the first that follows it. The result holds the
/// start and end of the number and of the unit.
pub open spec fn command_conversion(s: Seq<char>) -> Option<(int, int, int, int)> {
    if !has_prefix(s, convert_tag()) {
        None
    } else {
        let le = run_end(s, 8, CharClass::NotNewline);
        let d = first_of_class(s, 8, le, CharClass::Digit);
        if d >= le {
            None
        } else {
            let j = run_end(s, d, CharClass::Digit);
            let ne = if 0 <= j < s.len() && s[j] == '.' && at_class(s, j + 1, CharClass::Digit) {
                run_end(s, j + 1, CharClass::Digit)
            } else {
                j
            };
            let u = first_command_unit(s, ne, le);
            if u >= le {
                None
            } else {
                let a = if s[u] == '°' {
                    u + 1
                } else {
                    u
                };
                let e = run_end(s, a, CharClass::Alpha);
                let ue = if 0 <= e < s.len() && s[e] == '/' {
                    run_end(s, e + 1, CharClass::Alpha)
                } else {
                    e
                };
                Some((d, ne, u, ue))
            }
        }
    }
}

/// The capture of the `!convert` command, as whole match, number and unit.
pub open spec fn command_capture(s: Seq<char>) -> Option<(Seq<char>, Seq<char>, Seq<char>)> {
    match command_conversion(s) {
        Some((d, ne, u, ue)) => Some((s.subrange(0, ue), s.subrange(d, ne), s.subrange(u, ue))),
        None => None,
    }
}

proof fn lemma_first_of_class(s: Seq<char>, i: int, end: int, k: CharClass)
    requires
        i <= end,
    ensures
        i <= first_of_class(s, i, end, k) <= end,
        first_of_class(s, i, end, k) < end ==> at_class(s, first_of_class(s, i, end, k), k),
    decreases end - i,
{
    if i < end && !at_class(s, i, k) {
        lemma_first_of_class(s, i + 1, end, k);
    }
}

proof fn lemma_first_command_unit(s: Seq<char>, i: int, end: int)
    requires
        i <= end,
    ensures
        i <= first_command_unit(s, i, end) <= end,
        first_command_unit(s, i, end) < end ==> command_unit_start(
            s,
            first_command_unit(s, i, end),
        ),
    decreases end - i,
{
    if i < end && !command_unit_start(s, i) {
        lemma_first_command_unit(s, i + 1, end);
    }
}

fn first_of_class_exec(s: &[char], i: usize, end: usize, k: CharClass) -> (r: usize)
    requires
        i <= end <= s@.len(),
    ensures
        r as int == first_of_class(s@, i as int, end as int, k),
{
    let mut j = i;
    while j < end && !char_at_class(s, j, k)
        invariant
            i <= j <= end,
            first_of_class(s@, j as int, end as int, k) == first_of_class(
                s@,
                i as int,
                end as int,
                k,
            ),
        decreases end - j,
    {
        j = j + 1;
    }
    j
}

fn first_command_unit_exec(s: &[char], i: usize, end: usize) -> (r: usize)
    requires
        i <= end <= s@.len(),
    ensures
        r as int == first_command_unit(s@, i as int, end as int),
{
    let mut j = i;
    while j < end && !(char_at_class(s, j, CharClass::Alpha) || (s[j] == '°' && char_at_class(
        s,
        j + 1,
        CharClass::Alpha,
    )))
        invariant
            i <= j <= end <= s@.len(),
            first_command_unit(s@, j as int, end as int) == first_command_unit(
                s@,
                i as int,
                end as int,
            ),
        decreases end - j,
    {
        j = j + 1;
    }
    j
}

/// The `!convert` command's number and unit, if `text` is such a command.
pub fn unit_conversion_command(text: &str) -> (r: Option<UnitConversionCapture>)
    ensures
        r matches Some(c) ==> command_capture(text@) == Some(c.view()),
        r is None ==> command_capture(text@) is None,
{
    let v = to_chars(text);
    let s = v.as_slice();
    if s.len() < 8 || s[0] != '!' || s[1] != 'c' || s[2] != 'o' || s[3] != 'n' || s[4] != 'v'
        || s[5] != 'e' || s[6] != 'r' || s[7] != 't' {
        proof {
            if has_prefix(s@, convert_tag()) {
                assert(s@.subrange(0, 8)[0] == '!');
                assert(s@.subrange(0, 8)[7] == 't');
            }
        }
        return None;
    }
    assert(s@.subrange(0, 8) =~= convert_tag());
    let le = scan_run(s, 8, CharClass::NotNewline);
    let d = first_of_class_exec(s, 8, le, CharClass::Digit);
    proof {
        lemma_first_of_class(s@, 8, le as int, CharClass::Digit);
    }
    if d >= le {
        return None;
    }
    let j = scan_run(s, d, CharClass::Digit);
    proof {
        lemma_run_end(s@, d as int, CharClass::Digit);
        lemma_run_end(s@, 8, CharClass::NotNewline);
        if j + 1 <= s.len() {
            lemma_run_end(s@, (j + 1) as int, CharClass::Digit);
        }
    }
    let ne = if j < s.len() && s[j] == '.' && char_at_class(s, j + 1, CharClass::Digit) {
        scan_run(s, j + 1, CharClass::Digit)
    } else {
        j
    };
    if ne > le {
        return None;
    }
    let u = first_command_unit_exec(s, ne, le);
    proof {
        lemma_first_command_unit(s@, ne as int, le as int);
    }
    if u >= le {
        return None;
    }
    let a = if s[u] == '°' {
        u + 1
    } else {
        u
    };
    let e = scan_run(s, a, CharClass::Alpha);
    let ue = if e < s.len() && s[e] == '/' {
        scan_run(s, e + 1, CharClass::Alpha)
    } else {
        e
    };
    proof {
        lemma_run_end(s@, a as int, CharClass::Alpha);
        if e + 1 <= s.len() {
            lemma_run_end(s@, (e + 1) as int, CharClass::Alpha);
        }
    }
    Some(
        UnitConversionCapture {
            whole: substring(s, 0, ue),
            quantity: substring(s, d, ne),
            unit: substring(s, u, ue),
        },
    )
}

/// Whether `text` is a `!convert` command with a number and a unit.
pub fn unit_conversion_command_is_match(text: &str) -> (b: bool)
    ensures
        b == (command_conversion(text@) is Some),
{
    unit_conversion_command(text).is_some()
}

} // verus!
