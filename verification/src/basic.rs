//! The basic listener's handling of messages without a command: quantities
//! written as digits, an optional fraction, optional blanks and a unit
//! (`22km`, `22.5 km/h`, `°c`), and a fixed list of misspellings.
use vstd::prelude::*;
use crate::chars::{at_class, char_at_class, lemma_run_end, run_end, scan_run, CharClass};
use crate::cleaning::{code_close, code_open, pre_close, pre_open, strip_block, strip_block_exec};
use crate::ids::{localpart_of, UserId};
use crate::spelling::{
    correct_spelling, interjection_closing, interjection_middle, interjection_opening,
};
use crate::text::{
    contains_str, has_substring, lowercased, str_eq, substring, to_chars, to_lowercase,
};

verus! {

// ---------------------------------------------------------------------------
// The grammar
/// The end of the unit that starts at `u`: an optional `°`, letters, and an
/// optional `/` followed by any number of letters.
pub open spec fn basic_unit_end(s: Seq<char>, u: int) -> Option<int> {
    let a = if 0 <= u < s.len() && s[u] == '°' && at_class(s, u + 1, CharClass::Alpha) {
        u + 1
    } else if at_class(s, u, CharClass::Alpha) {
        u
    } else {
        -1
    };
    if a < 0 {
        None
    } else {
        let e = run_end(s, a, CharClass::Alpha);
        if 0 <= e < s.len() && s[e] == '/' {
            Some(run_end(s, e + 1, CharClass::Alpha))
        } else {
            Some(e)
        }
    }
}

/// The unit after a number that ends at `q`, after optional blanks.
pub open spec fn basic_unit_after(s: Seq<char>, q: int) -> Option<(int, int)> {
    match basic_unit_end(s, q) {
        Some(e) => Some((q, e)),
        None => {
            let w = run_end(s, q, CharClass::Blank);
            match basic_unit_end(s, w) {
                Some(e) => Some((w, e)),
                None => None,
            }
        },
    }
}

/// A match that starts at the digit at `p`: the end of the number (digits,
/// then `.` and digits if they follow), and the start and end of the unit.
pub open spec fn basic_match_at(s: Seq<char>, p: int) -> Option<(int, int, int)> {
    if !at_class(s, p, CharClass::Digit) {
        None
    } else {
        let j = run_end(s, p, CharClass::Digit);
        let q = if 0 <= j < s.len() && s[j] == '.' && at_class(s, j + 1, CharClass::Digit) {
            run_end(s, j + 1, CharClass::Digit)
        } else {
            j
        };
        match basic_unit_after(s, q) {
            Some((us, ue)) => Some((q, us, ue)),
            None => None,
        }
    }
}

/// The leftmost match at or after `p`, with its start.
pub open spec fn find_basic(s: Seq<char>, p: int) -> Option<(int, (int, int, int))>
    decreases s.len() + 1 - p,
{
    if p < 0 || p > s.len() {
        None
    } else {
        match basic_match_at(s, p) {
            Some(b) => Some((p, b)),
            None => find_basic(s, p + 1),
        }
    }
}

pub proof fn lemma_basic_unit_end(s: Seq<char>, u: int)
    requires
        0 <= u <= s.len(),
    ensures
        basic_unit_end(s, u) matches Some(e) ==> u < e <= s.len(),
{
    if u + 1 <= s.len() {
        lemma_run_end(s, u + 1, CharClass::Alpha);
    }
    lemma_run_end(s, u, CharClass::Alpha);
    if let Some(e) = basic_unit_end(s, u) {
        let a = if 0 <= u < s.len() && s[u] == '°' && at_class(s, u + 1, CharClass::Alpha) {
            u + 1
        } else {
            u
        };
        let e0 = run_end(s, a, CharClass::Alpha);
        lemma_run_end(s, a, CharClass::Alpha);
        if 0 <= e0 < s.len() && s[e0] == '/' {
            lemma_run_end(s, e0 + 1, CharClass::Alpha);
        }
    }
}

pub proof fn lemma_basic_unit_after(s: Seq<char>, q: int)
    requires
        0 <= q <= s.len(),
    ensures
        basic_unit_after(s, q) matches Some((us, ue)) ==> q <= us < ue <= s.len(),
{
    lemma_basic_unit_end(s, q);
    lemma_run_end(s, q, CharClass::Blank);
    lemma_basic_unit_end(s, run_end(s, q, CharClass::Blank));
}

pub proof fn lemma_basic_match_at(s: Seq<char>, p: int)
    requires
        0 <= p <= s.len(),
    ensures
        basic_match_at(s, p) matches Some((ne, us, ue)) ==> p < ne <= us < ue <= s.len(),
{
    if at_class(s, p, CharClass::Digit) {
        lemma_run_end(s, p, CharClass::Digit);
        let j = run_end(s, p, CharClass::Digit);
        lemma_basic_unit_after(s, j);
        if j + 1 <= s.len() {
            lemma_run_end(s, j + 1, CharClass::Digit);
            lemma_basic_unit_after(s, run_end(s, j + 1, CharClass::Digit));
        }
    }
}

pub proof fn lemma_find_basic(s: Seq<char>, p: int)
    requires
        0 <= p <= s.len(),
    ensures
        find_basic(s, p) matches Some((m, (ne, us, ue))) ==> {
            &&& p <= m < ne <= us < ue <= s.len()
            &&& basic_match_at(s, m) == Some((ne, us, ue))
        },
    decreases s.len() + 1 - p,
{
    if basic_match_at(s, p) is None {
        if p < s.len() {
            lemma_find_basic(s, p + 1);
        }
    } else {
        lemma_basic_match_at(s, p);
    }
}

/// Every match from `p` on, left to right without overlap, as (number,
/// unit).
pub open spec fn basic_from(s: Seq<char>, p: int) -> Seq<(Seq<char>, Seq<char>)>
    decreases s.len() + 1 - p,
{
    if 0 <= p <= s.len() {
        match find_basic(s, p) {
            Some((m, (ne, us, ue))) => {
                proof {
                    lemma_find_basic(s, p);
                }
                seq![(s.subrange(m, ne), s.subrange(us, ue))] + basic_from(s, ue)
            },
            None => seq![],
        }
    } else {
        seq![]
    }
}

/// Every match in `s`.
pub open spec fn basic_quantities(s: Seq<char>) -> Seq<(Seq<char>, Seq<char>)> {
    basic_from(s, 0)
}

fn basic_unit_end_exec(s: &[char], u: usize) -> (r: Option<usize>)
    requires
        u <= s@.len(),
    ensures
        r matches Some(e) ==> basic_unit_end(s@, u as int) == Some(e as int),
        r is None ==> basic_unit_end(s@, u as int) is None,
{
    proof {
        lemma_basic_unit_end(s@, u as int);
    }
    let a;
    if u < s.len() && s[u] == '°' && char_at_class(s, u + 1, CharClass::Alpha) {
        a = u + 1;
    } else if char_at_class(s, u, CharClass::Alpha) {
        a = u;
    } else {
        return None;
    }
    let e = scan_run(s, a, CharClass::Alpha);
    if e < s.len() && s[e] == '/' {
        Some(scan_run(s, e + 1, CharClass::Alpha))
    } else {
        Some(e)
    }
}

fn basic_unit_after_exec(s: &[char], q: usize) -> (r: Option<(usize, usize)>)
    requires
        q <= s@.len(),
    ensures
        r matches Some((us, ue)) ==> basic_unit_after(s@, q as int) == Some((us as int, ue as int)),
        r is None ==> basic_unit_after(s@, q as int) is None,
{
    match basic_unit_end_exec(s, q) {
        Some(e) => Some((q, e)),
        None => {
            let w = scan_run(s, q, CharClass::Blank);
            match basic_unit_end_exec(s, w) {
                Some(e) => Some((w, e)),
                None => None,
            }
        },
    }
}

fn basic_match_at_exec(s: &[char], p: usize) -> (r: Option<(usize, usize, usize)>)
    requires
        p <= s@.len(),
    ensures
        r matches Some((ne, us, ue)) ==> basic_match_at(s@, p as int) == Some(
            (ne as int, us as int, ue as int),
        ),
        r is None ==> basic_match_at(s@, p as int) is None,
{
    if !char_at_class(s, p, CharClass::Digit) {
        return None;
    }
    let j = scan_run(s, p, CharClass::Digit);
    let q = if j < s.len() && s[j] == '.' && char_at_class(s, j + 1, CharClass::Digit) {
        scan_run(s, j + 1, CharClass::Digit)
    } else {
        j
    };
    match basic_unit_after_exec(s, q) {
        Some((us, ue)) => Some((q, us, ue)),
        None => None,
    }
}

fn find_basic_exec(s: &[char], p: usize) -> (r: Option<(usize, usize, usize, usize)>)
    requires
        p <= s@.len(),
    ensures
        r matches Some((m, ne, us, ue)) ==> find_basic(s@, p as int) == Some(
            (m as int, (ne as int, us as int, ue as int)),
        ),
        r is None ==> find_basic(s@, p as int) is None,
{
    let mut m = p;
    loop
        invariant
            p <= m <= s@.len(),
            find_basic(s@, p as int) == find_basic(s@, m as int),
        decreases s@.len() - m,
    {
        match basic_match_at_exec(s, m) {
            Some((ne, us, ue)) => {
                return Some((m, ne, us, ue));
            },
            None => {},
        }
        if m == s.len() {
            assert(find_basic(s@, (m + 1) as int) is None);
            return None;
        }
        m = m + 1;
    }
}

/// Whether the grammar matches anywhere in `text`.
pub fn basic_is_match(text: &str) -> (b: bool)
    ensures
        b == (find_basic(text@, 0) is Some),
{
    let s = to_chars(text);
    find_basic_exec(s.as_slice(), 0).is_some()
}

/// Every match of the grammar in `text`, as (number, unit).
pub fn basic_captures(text: &str) -> (caps: Vec<(String, String)>)
    ensures
        caps@.map_values(|c: (String, String)| (c.0@, c.1@)) == basic_quantities(text@),
{
    let v = to_chars(text);
    let s = v.as_slice();
    let mut caps: Vec<(String, String)> = Vec::new();
    let mut p: usize = 0;
    loop
        invariant
            p <= s@.len(),
            s@ == text@,
            caps@.map_values(|c: (String, String)| (c.0@, c.1@)) + basic_from(s@, p as int)
                == basic_quantities(s@),
        decreases s@.len() - p,
    {
        proof {
            lemma_find_basic(s@, p as int);
        }
        match find_basic_exec(s, p) {
            Some((m, ne, us, ue)) => {
                let cap = (substring(s, m, ne), substring(s, us, ue));
                let ghost old_caps = caps@;
                caps.push(cap);
                proof {
                    assert(caps@.map_values(|c: (String, String)| (c.0@, c.1@)) == old_caps.map_values(
                        |c: (String, String)| (c.0@, c.1@),
                    ).push((cap.0@, cap.1@)));
                    assert(basic_from(s@, p as int) == seq![(cap.0@, cap.1@)] + basic_from(
                        s@,
                        ue as int,
                    ));
                }
                p = ue;
            },
            None => {
                assert(basic_from(s@, p as int) == Seq::<(Seq<char>, Seq<char>)>::empty());
                assert(caps@.map_values(|c: (String, String)| (c.0@, c.1@)) + basic_from(
                    s@,
                    p as int,
                ) =~= caps@.map_values(|c: (String, String)| (c.0@, c.1@)));
                return caps;
            },
        }
    }
}

// ---------------------------------------------------------------------------
// Units and misspellings
/// The unit a unit converts to, for the units of this listener.
pub open spec fn basic_target(unit: Seq<char>) -> Option<Seq<char>> {
    if unit == "cm"@ {
        Some("in"@)
    } else if unit == "m"@ {
        Some("ft"@)
    } else if unit == "km"@ {
        Some("mi"@)
    } else if unit == "in"@ {
        Some("cm"@)
    } else if unit == "ft"@ {
        Some("m"@)
    } else if unit == "mi"@ || unit == "mile"@ || unit == "miles"@ {
        Some("km"@)
    } else if unit == "c"@ {
        Some("f"@)
    } else if unit == "f"@ {
        Some("c"@)
    } else if unit == "kg"@ {
        Some("lbs"@)
    } else if unit == "lbs"@ {
        Some("kg"@)
    } else if unit == "km/h"@ || unit == "kmh"@ || unit == "kph"@ || unit == "kmph"@ {
        Some("mph"@)
    } else if unit == "mph"@ {
        Some("km/h"@)
    } else {
        None
    }
}

fn basic_target_exec(unit: &str) -> (r: Option<String>)
    ensures
        match basic_target(unit@) {
            Some(t) => r matches Some(s) && s@ == t,
            None => r is None,
        },
{
    if str_eq(unit, "cm") {
        Some(String::from_str("in"))
    } else if str_eq(unit, "m") {
        Some(String::from_str("ft"))
    } else if str_eq(unit, "km") {
        Some(String::from_str("mi"))
    } else if str_eq(unit, "in") {
        Some(String::from_str("cm"))
    } else if str_eq(unit, "ft") {
        Some(String::from_str("m"))
    } else if str_eq(unit, "mi") || str_eq(unit, "mile") || str_eq(unit, "miles") {
        Some(String::from_str("km"))
    } else if str_eq(unit, "c") {
        Some(String::from_str("f"))
    } else if str_eq(unit, "f") {
        Some(String::from_str("c"))
    } else if str_eq(unit, "kg") {
        Some(String::from_str("lbs"))
    } else if str_eq(unit, "lbs") {
        Some(String::from_str("kg"))
    } else if str_eq(unit, "km/h") || str_eq(unit, "kmh") || str_eq(unit, "kph") || str_eq(unit, "kmph") {
        Some(String::from_str("mph"))
    } else if str_eq(unit, "mph") {
        Some(String::from_str("km/h"))
    } else {
        None
    }
}

/// The fixed misspellings: whether each is matched without regard to case,
/// and its spelling.
pub open spec fn fixed_spellings() -> Seq<(bool, Seq<char>)> {
    seq![(true, "Jellyfish"@), (true, "Jelly Fin"@), (false, "JellyFin"@), (false, "jellyFin"@)]
}

/// Whether `body` holds the misspelling: a case insensitive one is looked
/// for in lower case in the lower case body.
pub open spec fn fixed_found(body: Seq<char>, k: (bool, Seq<char>)) -> bool {
    if k.0 {
        has_substring(lowercased(body), lowercased(k.1))
    } else {
        has_substring(body, k.1)
    }
}

/// The first fixed misspelling from position `i` on that `body` holds.
pub open spec fn first_fixed_found(body: Seq<char>, i: int) -> Option<Seq<char>>
    decreases 4 - i,
{
    if i < 0 || i >= 4 {
        None
    } else if fixed_found(body, fixed_spellings()[i]) {
        Some(fixed_spellings()[i].1)
    } else {
        first_fixed_found(body, i + 1)
    }
}

// ---------------------------------------------------------------------------
// The decision
/// What the listener does with a message without a command.
#[derive(Debug)]
pub enum NoCommandAction {
    /// Nothing is sent.
    Nothing,
    /// A notice with the conversion of each (quantity, unit, target unit).
    Convert(Vec<(String, String, String)>),
    /// A spelling correction.
    Correct(String),
}

/// The text this listener reads for quantities: the lower case body, or
/// the lower case formatted body without inline code and code blocks;
/// none where that formatted body holds no quantity.
pub open spec fn basic_source(body: Seq<char>, formatted: Option<Seq<char>>) -> Option<Seq<char>> {
    match formatted {
        Some(f) => {
            let c = strip_block(strip_block(f, code_open(), code_close()), pre_open(), pre_close());
            if find_basic(c, 0) is Some {
                Some(lowercased(c))
            } else {
                None
            }
        },
        None => Some(lowercased(body)),
    }
}

/// The conversions asked for, with each target unit, from match `i` on;
/// none as soon as one unit is not known.
pub open spec fn basic_conversions(qs: Seq<(Seq<char>, Seq<char>)>) -> Option<Seq<(Seq<char>, Seq<char>, Seq<char>)>>
    decreases qs.len(),
{
    if qs.len() == 0 {
        Some(seq![])
    } else {
        match basic_conversions(qs.drop_last()) {
            None => None,
            Some(rest) => match basic_target(qs.last().1) {
                None => None,
                Some(t) => Some(rest.push((qs.last().0, qs.last().1, t))),
            },
        }
    }
}

/// The characters of each conversion.
pub open spec fn triples_view(v: Seq<(String, String, String)>) -> Seq<(Seq<char>, Seq<char>, Seq<char>)> {
    v.map_values(|t: (String, String, String)| (t.0@, t.1@, t.2@))
}

pub open spec fn html_format() -> Seq<char> {
    "org.matrix.custom.html"@
}

/// What this listener does with a message without a command from `sender`:
/// nothing for its own messages; conversions where the body holds
/// quantities (nothing for an unsupported format, for a formatted body
/// without quantities once code is taken out, or where a unit is unknown);
/// otherwise, while the cooldown allows it and the message replies to no
/// other, a correction of the first fixed misspelling found.
pub fn no_command_check(
    body: &str,
    format: Option<&str>,
    formatted_body: Option<&str>,
    sender: &UserId,
    own_username: &str,
    cooldown_allows: bool,
    replies_to_other: bool,
) -> (r: NoCommandAction)
    ensures
        localpart_of(sender@) == own_username@ ==> r is Nothing,
        localpart_of(sender@) != own_username@ && find_basic(body@, 0) is Some ==> {
            if format matches Some(f) && f@ != html_format() {
                r is Nothing
            } else {
                match basic_source(body@, match formatted_body {
                    Some(f) => Some(f@),
                    None => None,
                }) {
                    None => r is Nothing,
                    Some(t) => match basic_conversions(basic_quantities(t)) {
                        None => r is Nothing,
                        Some(cs) => r matches NoCommandAction::Convert(v) && triples_view(v@) == cs,
                    },
                }
            }
        },
        localpart_of(sender@) != own_username@ && find_basic(body@, 0) is None ==> {
            if cooldown_allows && !replies_to_other && first_fixed_found(body@, 0) is Some {
                r matches NoCommandAction::Correct(c) && c@ == interjection_opening() + localpart_of(
                    sender@,
                ) + interjection_middle() + first_fixed_found(body@, 0)->0 + interjection_closing()
            } else {
                r is Nothing
            }
        },
{
    let user = sender.localpart();
    if str_eq(user.as_str(), own_username) {
        return NoCommandAction::Nothing;
    }
    if basic_is_match(body) {
        if let Some(f) = format {
            if !str_eq(f, "org.matrix.custom.html") {
                return NoCommandAction::Nothing;
            }
        }
        let source = match formatted_body {
            Some(f) => {
                let open_code = vec!['<', 'c', 'o', 'd', 'e', '>'];
                let close_code = vec!['<', '/', 'c', 'o', 'd', 'e', '>'];
                let open_pre = vec!['<', 'p', 'r', 'e', '>'];
                let close_pre = vec!['<', '/', 'p', 'r', 'e', '>'];
                assert(open_code@ =~= code_open());
                assert(close_code@ =~= code_close());
                assert(open_pre@ =~= pre_open());
                assert(close_pre@ =~= pre_close());
                let c = strip_block_exec(to_chars(f), open_code.as_slice(), close_code.as_slice());
                let c = strip_block_exec(c, open_pre.as_slice(), close_pre.as_slice());
                let c = crate::text::from_chars(c.as_slice());
                if basic_is_match(c.as_str()) {
                    Some(to_lowercase(c.as_str()))
                } else {
                    None
                }
            },
            None => Some(to_lowercase(body)),
        };
        let t = match source {
            None => {
                return NoCommandAction::Nothing;
            },
            Some(t) => t,
        };
        let caps = basic_captures(t.as_str());
        let ghost cv = caps@.map_values(|c: (String, String)| (c.0@, c.1@));
        let ghost fv = match formatted_body {
            Some(f) => Some(f@),
            None => None,
        };
        assert(basic_source(body@, fv) == Some(t@));
        let mut out: Vec<(String, String, String)> = Vec::new();
        let mut i: usize = 0;
        while i < caps.len()
            invariant
                i <= caps@.len(),
                cv == caps@.map_values(|c: (String, String)| (c.0@, c.1@)),
                cv == basic_quantities(t@),
                localpart_of(sender@) != own_username@,
                find_basic(body@, 0) is Some,
                !(format matches Some(f) && f@ != html_format()),
                fv == (match formatted_body {
                    Some(f) => Some(f@),
                    None => None,
                }),
                basic_source(body@, fv) == Some(t@),
                basic_conversions(cv.take(i as int)) == Some(triples_view(out@)),
            decreases caps@.len() - i,
        {
            proof {
                assert(cv.take(i + 1).drop_last() =~= cv.take(i as int));
                assert(cv.take(i + 1).last() == (caps@[i as int].0@, caps@[i as int].1@));
            }
            match basic_target_exec(caps[i].1.as_str()) {
                None => {
                    proof {
                        assert(basic_conversions(cv.take(i + 1)) is None);
                        lemma_conversions_stay_none(cv, (i + 1) as int);
                    }
                    return NoCommandAction::Nothing;
                },
                Some(target) => {
                    let item = (caps[i].0.clone(), caps[i].1.clone(), target);
                    let ghost prev = out@;
                    out.push(item);
                    proof {
                        assert(out@ =~= prev.push(item));
                        assert(triples_view(out@) =~= triples_view(prev).push((item.0@, item.1@, item.2@)));
                    }
                },
            }
            i = i + 1;
        }
        assert(cv.take(i as int) =~= cv);
        return NoCommandAction::Convert(out);
    }
    if !(cooldown_allows && !replies_to_other) {
        return NoCommandAction::Nothing;
    }
    match fixed_correction(body, user.as_str()) {
        Some(c) => NoCommandAction::Correct(c),
        None => NoCommandAction::Nothing,
    }
}

/// The correction of the first fixed misspelling that `body` holds,
/// addressed to `user`.
fn fixed_correction(body: &str, user: &str) -> (r: Option<String>)
    ensures
        match first_fixed_found(body@, 0) {
            Some(sp) => r matches Some(c) && c@ == interjection_opening() + user@ + interjection_middle()
                + sp + interjection_closing(),
            None => r is None,
        },
{
    let low = to_lowercase(body);
    let fixed: [(&str, bool); 4] = [("Jellyfish", true), ("Jelly Fin", true), ("JellyFin", false), ("jellyFin", false)];
    proof {
        reveal_strlit("Jellyfish");
        reveal_strlit("Jelly Fin");
        reveal_strlit("JellyFin");
        reveal_strlit("jellyFin");
    }
    let mut i: usize = 0;
    while i < 4
        invariant
            i <= 4,
            low@ == lowercased(body@),
            fixed@ == seq![("Jellyfish", true), ("Jelly Fin", true), ("JellyFin", false), ("jellyFin", false)],
            first_fixed_found(body@, 0) == first_fixed_found(body@, i as int),
        decreases 4 - i,
    {
        let (spelling, insensitive) = fixed[i];
        assert(fixed_spellings()[i as int] == (insensitive, spelling@));
        let found = if insensitive {
            let l = to_lowercase(spelling);
            contains_str(low.as_str(), l.as_str())
        } else {
            contains_str(body, spelling)
        };
        if found {
            return Some(correct_spelling(user, spelling));
        }
        i = i + 1;
    }
    None
}

/// The basic listener's spelling check: where the message is from someone
/// other than the bot, the cooldown allows it and the message replies to
/// no other, the correction of the first fixed misspelling it holds.
pub fn correct_spelling_check(
    body: &str,
    sender: &UserId,
    own_username: &str,
    cooldown_allows: bool,
    replies_to_other: bool,
) -> (r: Option<String>)
    ensures
        (localpart_of(sender@) == own_username@ || !cooldown_allows || replies_to_other) ==> r is None,
        (localpart_of(sender@) != own_username@ && cooldown_allows && !replies_to_other) ==> match first_fixed_found(body@, 0) {
            Some(sp) => r matches Some(c) && c@ == interjection_opening() + localpart_of(sender@)
                + interjection_middle() + sp + interjection_closing(),
            None => r is None,
        },
{
    let user = sender.localpart();
    if str_eq(user.as_str(), own_username) || !cooldown_allows || replies_to_other {
        return None;
    }
    fixed_correction(body, user.as_str())
}

/// Once a unit is unknown, no longer prefix has conversions.
proof fn lemma_conversions_stay_none(cv: Seq<(Seq<char>, Seq<char>)>, k: int)
    requires
        0 <= k <= cv.len(),
        basic_conversions(cv.take(k)) is None,
    ensures
        basic_conversions(cv) is None,
    decreases cv.len() - k,
{
    if k < cv.len() {
        assert(cv.take(k + 1).drop_last() =~= cv.take(k));
        lemma_conversions_stay_none(cv, k + 1);
    } else {
        assert(cv.take(k) =~= cv);
    }
}

// ---------------------------------------------------------------------------
// The first `!convert` and the first spelling check
/// The conversion a `!convert` command asks for in this listener: the
/// first quantity after `!convert` in the lower case body, with its target
/// unit. A command that replies to another message, is formatted, or names
/// an unknown unit is not answered.
pub fn convert_command_request(body: &str, replies_to_other: bool, formatted: bool) -> (r: Option<(String, String, String)>)
    ensures
        replies_to_other || formatted ==> r is None,
        !replies_to_other && !formatted ==> match crate::command::command_capture(lowercased(body@)) {
            None => r is None,
            Some((_, q, u)) => match basic_target(u) {
                None => r is None,
                Some(t) => r matches Some(x) && x.0@ == q && x.1@ == u && x.2@ == t,
            },
        },
{
    if replies_to_other || formatted {
        return None;
    }
    let low = to_lowercase(body);
    match crate::command::unit_conversion_command(low.as_str()) {
        None => None,
        Some(c) => match basic_target_exec(c.unit.as_str()) {
            None => None,
            Some(t) => Some((c.quantity, c.unit, t)),
        },
    }
}

/// The basic listener's answer to a message without a command: a message
/// that holds `jellyfish`, from someone other than the bot and replying to
/// no other message, is repeated.
pub fn handle_text_message(body: &str, sender: &UserId, own_username: &str, replies_to_other: bool) -> (r: Option<String>)
    ensures
        r is Some <==> (!crate::text::starts_with_char(body@, '!') && has_substring(body@, "jellyfish"@)
            && localpart_of(sender@) != own_username@ && !replies_to_other),
        r matches Some(t) ==> t@ == body@,
{
    if crate::text::first_char_is(body, '!') {
        return None;
    }
    if !contains_str(body, "jellyfish") {
        return None;
    }
    let user = sender.localpart();
    if str_eq(user.as_str(), own_username) || replies_to_other {
        return None;
    }
    Some(String::from_str(body))
}

} // verus!
