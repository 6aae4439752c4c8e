//! The grammar of quantities with units in free text ("22 km", "22.2km/h",
//! "-4°c") that the commandless unit conversion looks for.
//!
//! A match starts at the beginning of the text or at a run of white space,
//! then holds a number (an optional sign, digits, and optionally one more
//! character followed by digits), optionally horizontal blanks, and a unit
//! (an optional leading non-space character, letters, and optionally `/` or
//! `.` followed by letters). Where several readings exist, the one found by
//! trying the longest number first and the fewest blanks first is taken, and
//! matches are taken left to right without overlap.
use vstd::prelude::*;
use crate::chars::{
    at_class, char_at_class, is_space, is_space_char, lemma_run_end, run_end, scan_run, CharClass,
};
use crate::text::{substring, to_chars};

verus! {

/// The end of the unit that starts at `u`, if one does.
pub open spec fn unit_end_at(s: Seq<char>, u: int) -> Option<int> {
    let a = if 0 <= u < s.len() && !is_space(s[u]) && at_class(s, u + 1, CharClass::Alpha) {
        u + 1
    } else if at_class(s, u, CharClass::Alpha) {
        u
    } else {
        -1
    };
    if a < 0 {
        None
    } else {
        let e = run_end(s, a, CharClass::Alpha);
        if 0 <= e < s.len() && (s[e] == '/' || s[e] == '.') && at_class(s, e + 1, CharClass::Alpha) {
            Some(run_end(s, e + 1, CharClass::Alpha))
        } else {
            Some(e)
        }
    }
}

/// The unit that follows a number ending at `q`, after optional blanks:
/// its start and end.
pub open spec fn unit_after(s: Seq<char>, q: int) -> Option<(int, int)> {
    match unit_end_at(s, q) {
        Some(e) => Some((q, e)),
        None => {
            let w = run_end(s, q, CharClass::Blank);
            match unit_end_at(s, w) {
                Some(e) => Some((w, e)),
                None => None,
            }
        },
    }
}

/// A number and its unit starting at `t`: the end of the number, and the
/// start and end of the unit.
pub open spec fn quantity_at(s: Seq<char>, t: int) -> Option<(int, int, int)> {
    let i = if 0 <= t < s.len() && (s[t] == '+' || s[t] == '-') {
        t + 1
    } else {
        t
    };
    if !at_class(s, i, CharClass::Digit) {
        None
    } else {
        let j = run_end(s, i, CharClass::Digit);
        let q = run_end(s, j + 1, CharClass::Digit);
        if 0 <= j < s.len() && s[j] != '\n' && at_class(s, j + 1, CharClass::Digit) && unit_after(
            s,
            q,
        ) is Some {
            let (us, ue) = unit_after(s, q)->0;
            Some((q, us, ue))
        } else {
            match unit_after(s, j) {
                Some((us, ue)) => Some((j, us, ue)),
                None => None,
            }
        }
    }
}

/// A match that starts exactly at `m`: the start and end of the number,
/// and the start and end of the unit.
pub open spec fn conversion_at(s: Seq<char>, m: int) -> Option<(int, int, int, int)> {
    if m == 0 && quantity_at(s, 0) is Some {
        let (ne, us, ue) = quantity_at(s, 0)->0;
        Some((0, ne, us, ue))
    } else if at_class(s, m, CharClass::Space) {
        let t = run_end(s, m, CharClass::Space);
        match quantity_at(s, t) {
            Some((ne, us, ue)) => Some((t, ne, us, ue)),
            None => None,
        }
    } else {
        None
    }
}

/// The leftmost match that starts at or after `p`, with its start.
pub open spec fn find_conversion(s: Seq<char>, p: int) -> Option<(int, (int, int, int, int))>
    decreases s.len() + 1 - p,
{
    if p < 0 || p > s.len() {
        None
    } else {
        match conversion_at(s, p) {
            Some(b) => Some((p, b)),
            None => find_conversion(s, p + 1),
        }
    }
}

/// The facts about a found match that the scanners rely on.
pub proof fn lemma_find_conversion(s: Seq<char>, p: int)
    requires
        0 <= p <= s.len(),
    ensures
        find_conversion(s, p) matches Some((m, (t, ne, us, ue))) ==> {
            &&& p <= m <= t < ne <= us < ue <= s.len()
            &&& conversion_at(s, m) == Some((t, ne, us, ue))
        },
    decreases s.len() + 1 - p,
{
    if conversion_at(s, p) is None {
        if p < s.len() {
            lemma_find_conversion(s, p + 1);
        }
    } else {
        lemma_conversion_at(s, p);
    }
}

pub proof fn lemma_unit_end_at(s: Seq<char>, u: int)
    requires
        0 <= u <= s.len(),
    ensures
        unit_end_at(s, u) matches Some(e) ==> u < e <= s.len(),
{
    if u + 1 < s.len() {
        lemma_run_end(s, u + 1, CharClass::Alpha);
    }
    if u < s.len() {
        lemma_run_end(s, u, CharClass::Alpha);
    }
    if let Some(e) = unit_end_at(s, u) {
        let a = if 0 <= u < s.len() && !is_space(s[u]) && at_class(s, u + 1, CharClass::Alpha) {
            u + 1
        } else {
            u
        };
        let e0 = run_end(s, a, CharClass::Alpha);
        lemma_run_end(s, a, CharClass::Alpha);
        if 0 <= e0 < s.len() && (s[e0] == '/' || s[e0] == '.') && at_class(
            s,
            e0 + 1,
            CharClass::Alpha,
        ) {
            lemma_run_end(s, e0 + 1, CharClass::Alpha);
        }
    }
}

pub proof fn lemma_unit_after(s: Seq<char>, q: int)
    requires
        0 <= q <= s.len(),
    ensures
        unit_after(s, q) matches Some((us, ue)) ==> q <= us < ue <= s.len(),
{
    lemma_unit_end_at(s, q);
    lemma_run_end(s, q, CharClass::Blank);
    lemma_unit_end_at(s, run_end(s, q, CharClass::Blank));
}

pub proof fn lemma_quantity_at(s: Seq<char>, t: int)
    requires
        0 <= t <= s.len(),
    ensures
        quantity_at(s, t) matches Some((ne, us, ue)) ==> t < ne <= us < ue <= s.len(),
{
    let i = if 0 <= t < s.len() && (s[t] == '+' || s[t] == '-') {
        t + 1
    } else {
        t
    };
    if at_class(s, i, CharClass::Digit) {
        lemma_run_end(s, i, CharClass::Digit);
        let j = run_end(s, i, CharClass::Digit);
        lemma_unit_after(s, j);
        if j + 1 <= s.len() {
            lemma_run_end(s, j + 1, CharClass::Digit);
            lemma_unit_after(s, run_end(s, j + 1, CharClass::Digit));
        }
    }
}

pub proof fn lemma_conversion_at(s: Seq<char>, m: int)
    requires
        0 <= m <= s.len(),
    ensures
        conversion_at(s, m) matches Some((t, ne, us, ue)) ==> m <= t < ne <= us < ue <= s.len(),
{
    lemma_quantity_at(s, 0);
    lemma_run_end(s, m, CharClass::Space);
    lemma_quantity_at(s, run_end(s, m, CharClass::Space));
}

/// All matches of the grammar from position `p` on, left to right and
/// without overlap: for each, the whole match, the number and the unit.
pub open spec fn conversions_from(s: Seq<char>, p: int) -> Seq<(Seq<char>, Seq<char>, Seq<char>)>
    decreases s.len() + 1 - p,
{
    if 0 <= p <= s.len() {
        match find_conversion(s, p) {
            Some((m, (t, ne, us, ue))) => {
                proof {
                    lemma_find_conversion(s, p);
                }
                seq![(s.subrange(m, ue), s.subrange(t, ne), s.subrange(us, ue))]
                    + conversions_from(s, ue)
            },
            None => seq![],
        }
    } else {
        seq![]
    }
}

/// All matches of the grammar in `s`.
pub open spec fn conversions(s: Seq<char>) -> Seq<(Seq<char>, Seq<char>, Seq<char>)> {
    conversions_from(s, 0)
}

/// One match of the quantity grammar.
#[derive(Clone, Debug, PartialEq, Eq)]
pub struct UnitConversionCapture {
    /// The whole match, including the white space before the number.
    pub whole: String,
    /// The number.
    pub quantity: String,
    /// The unit.
    pub unit: String,
}

impl UnitConversionCapture {
    pub open spec fn view(&self) -> (Seq<char>, Seq<char>, Seq<char>) {
        (self.whole@, self.quantity@, self.unit@)
    }
}

fn unit_end_at_exec(s: &[char], u: usize) -> (r: Option<usize>)
    requires
        u <= s@.len(),
    ensures
        r matches Some(e) ==> unit_end_at(s@, u as int) == Some(e as int),
        r is None ==> unit_end_at(s@, u as int) is None,
{
    proof {
        lemma_unit_end_at(s@, u as int);
    }
    let a;
    if u < s.len() && !is_space_char(s[u]) && char_at_class(s, u + 1, CharClass::Alpha) {
        a = u + 1;
    } else if char_at_class(s, u, CharClass::Alpha) {
        a = u;
    } else {
        return None;
    }
    let e = scan_run(s, a, CharClass::Alpha);
    if e < s.len() && (s[e] == '/' || s[e] == '.') && char_at_class(s, e + 1, CharClass::Alpha) {
        Some(scan_run(s, e + 1, CharClass::Alpha))
    } else {
        Some(e)
    }
}

fn unit_after_exec(s: &[char], q: usize) -> (r: Option<(usize, usize)>)
    requires
        q <= s@.len(),
    ensures
        r matches Some((us, ue)) ==> unit_after(s@, q as int) == Some((us as int, ue as int)),
        r is None ==> unit_after(s@, q as int) is None,
{
    match unit_end_at_exec(s, q) {
        Some(e) => Some((q, e)),
        None => {
            let w = scan_run(s, q, CharClass::Blank);
            match unit_end_at_exec(s, w) {
                Some(e) => Some((w, e)),
                None => None,
            }
        },
    }
}

fn quantity_at_exec(s: &[char], t: usize) -> (r: Option<(usize, usize, usize)>)
    requires
        t <= s@.len(),
    ensures
        r matches Some((ne, us, ue)) ==> quantity_at(s@, t as int) == Some(
            (ne as int, us as int, ue as int),
        ),
        r is None ==> quantity_at(s@, t as int) is None,
{
    let i = if t < s.len() && (s[t] == '+' || s[t] == '-') {
        t + 1
    } else {
        t
    };
    if !char_at_class(s, i, CharClass::Digit) {
        return None;
    }
    let j = scan_run(s, i, CharClass::Digit);
    if j < s.len() && s[j] != '\n' && char_at_class(s, j + 1, CharClass::Digit) {
        let q = scan_run(s, j + 1, CharClass::Digit);
        match unit_after_exec(s, q) {
            Some((us, ue)) => {
                return Some((q, us, ue));
            },
            None => {},
        }
    }
    match unit_after_exec(s, j) {
        Some((us, ue)) => Some((j, us, ue)),
        None => None,
    }
}

fn conversion_at_exec(s: &[char], m: usize) -> (r: Option<(usize, usize, usize, usize)>)
    requires
        m <= s@.len(),
    ensures
        r matches Some((t, ne, us, ue)) ==> conversion_at(s@, m as int) == Some(
            (t as int, ne as int, us as int, ue as int),
        ),
        r is None ==> conversion_at(s@, m as int) is None,
{
    if m == 0 {
        match quantity_at_exec(s, 0) {
            Some((ne, us, ue)) => {
                return Some((0, ne, us, ue));
            },
            None => {},
        }
    }
    if char_at_class(s, m, CharClass::Space) {
        let t = scan_run(s, m, CharClass::Space);
        match quantity_at_exec(s, t) {
            Some((ne, us, ue)) => Some((t, ne, us, ue)),
            None => None,
        }
    } else {
        None
    }
}

fn find_conversion_exec(s: &[char], p: usize) -> (r: Option<(usize, usize, usize, usize, usize)>)
    requires
        p <= s@.len(),
    ensures
        r matches Some((m, t, ne, us, ue)) ==> find_conversion(s@, p as int) == Some(
            (m as int, (t as int, ne as int, us as int, ue as int)),
        ),
        r is None ==> find_conversion(s@, p as int) is None,
{
    let mut m = p;
    loop
        invariant
            p <= m <= s@.len(),
            find_conversion(s@, p as int) == find_conversion(s@, m as int),
        decreases s@.len() - m,
    {
        match conversion_at_exec(s, m) {
            Some((t, ne, us, ue)) => {
                return Some((m, t, ne, us, ue));
            },
            None => {},
        }
        if m == s.len() {
            assert(find_conversion(s@, (m + 1) as int) is None);
            return None;
        }
        m = m + 1;
    }
}

/// Whether the quantity grammar matches anywhere in `text`.
pub fn unit_conversion_is_match(text: &str) -> (b: bool)
    ensures
        b == (find_conversion(text@, 0) is Some),
{
    let s = to_chars(text);
    find_conversion_exec(s.as_slice(), 0).is_some()
}

/// All matches of the quantity grammar in `text`, left to right.
pub fn unit_conversion_captures(text: &str) -> (caps: Vec<UnitConversionCapture>)
    ensures
        caps@.map_values(|c: UnitConversionCapture| c.view()) == conversions(text@),
{
    let v = to_chars(text);
    let s = v.as_slice();
    let mut caps: Vec<UnitConversionCapture> = Vec::new();
    let mut p: usize = 0;
    loop
        invariant
            p <= s@.len(),
            s@ == text@,
            caps@.map_values(|c: UnitConversionCapture| c.view()) + conversions_from(s@, p as int)
                == conversions(s@),
        decreases s@.len() - p,
    {
        proof {
            lemma_find_conversion(s@, p as int);
        }
        match find_conversion_exec(s, p) {
            Some((m, t, ne, us, ue)) => {
                let cap = UnitConversionCapture {
                    whole: substring(s, m, ue),
                    quantity: substring(s, t, ne),
                    unit: substring(s, us, ue),
                };
                let ghost old_caps = caps@;
                caps.push(cap);
                proof {
                    assert(caps@.map_values(|c: UnitConversionCapture| c.view()) == old_caps.map_values(
                        |c: UnitConversionCapture| c.view(),
                    ).push(cap.view()));
                    assert(conversions_from(s@, p as int) == seq![cap.view()] + conversions_from(
                        s@,
                        ue as int,
                    ));
                }
                p = ue;
            },
            None => {
                assert(conversions_from(s@, p as int) == Seq::<(Seq<char>, Seq<char>, Seq<char>)>::empty());
                assert(caps@.map_values(|c: UnitConversionCapture| c.view()) + conversions_from(
                    s@,
                    p as int,
                ) =~= caps@.map_values(|c: UnitConversionCapture| c.view()));
                return caps;
            },
        }
    }
}

} // verus!
