//! Character classes of the message grammars and the runs of characters
//! they delimit.
use vstd::prelude::*;

verus! {

/// The character classes that the message grammars are written with.
#[derive(Clone, Copy, PartialEq, Eq, Debug)]
pub enum CharClass {
    /// ASCII decimal digits `0-9`.
    Digit,
    /// ASCII letters `A-Z` and `a-z`.
    Alpha,
    /// ASCII letters and digits.
    Alnum,
    /// ASCII letters and the hyphen.
    AlphaHyphen,
    /// The horizontal blanks: space, tab, vertical tab, form feed, carriage return.
    Blank,
    /// Unicode white space.
    Space,
    /// Every character except the line feed.
    NotNewline,
    /// Every character except the line feed, `"` and `<`: what a user
    /// mention inside an HTML attribute or element can hold.
    MentionPart,
}

pub open spec fn is_digit(c: char) -> bool {
    '0' <= c && c <= '9'
}

pub open spec fn is_alpha(c: char) -> bool {
    ('a' <= c && c <= 'z') || ('A' <= c && c <= 'Z')
}

pub open spec fn is_blank(c: char) -> bool {
    c == ' ' || c == '\t' || c == '\x0B' || c == '\x0C' || c == '\r'
}

/// Unicode `White_Space`.
pub open spec fn is_space(c: char) -> bool {
    ||| c == '\t' || c == '\n' || c == '\x0B' || c == '\x0C' || c == '\r' || c == ' '
    ||| c == '\u{85}' || c == '\u{A0}' || c == '\u{1680}'
    ||| ('\u{2000}' <= c && c <= '\u{200A}')
    ||| c == '\u{2028}' || c == '\u{2029}' || c == '\u{202F}' || c == '\u{205F}'
    ||| c == '\u{3000}'
}

pub open spec fn in_class(k: CharClass, c: char) -> bool {
    match k {
        CharClass::Digit => is_digit(c),
        CharClass::Alpha => is_alpha(c),
        CharClass::Alnum => is_alpha(c) || is_digit(c),
        CharClass::AlphaHyphen => is_alpha(c) || c == '-',
        CharClass::Blank => is_blank(c),
        CharClass::Space => is_space(c),
        CharClass::NotNewline => c != '\n',
        CharClass::MentionPart => c != '\n' && c != '"' && c != '<',
    }
}

/// Whether position `i` of `s` holds a character of class `k`.
pub open spec fn at_class(s: Seq<char>, i: int, k: CharClass) -> bool {
    0 <= i < s.len() && in_class(k, s[i])
}

/// The end of the run of characters of class `k` that starts at `i`.
pub open spec fn run_end(s: Seq<char>, i: int, k: CharClass) -> int
    decreases s.len() - i,
{
    if 0 <= i < s.len() && in_class(k, s[i]) {
        run_end(s, i + 1, k)
    } else {
        i
    }
}

/// What `run_end` is: the first position at or after `i` that does not hold
/// a character of class `k`.
pub proof fn lemma_run_end(s: Seq<char>, i: int, k: CharClass)
    requires
        0 <= i <= s.len(),
    ensures
        i <= run_end(s, i, k) <= s.len(),
        forall|j: int| i <= j < run_end(s, i, k) ==> #[trigger] in_class(k, s[j]),
        run_end(s, i, k) == s.len() || !in_class(k, s[run_end(s, i, k)]),
    decreases s.len() - i,
{
    if i < s.len() && in_class(k, s[i]) {
        lemma_run_end(s, i + 1, k);
    }
}

/// The run end seen from a position inside the run is the same.
pub proof fn lemma_run_end_inner(s: Seq<char>, i: int, j: int, k: CharClass)
    requires
        0 <= i <= j <= run_end(s, i, k),
        i <= s.len(),
    ensures
        run_end(s, j, k) == run_end(s, i, k),
    decreases j - i,
{
    if i < j {
        lemma_run_end(s, i, k);
        assert(in_class(k, s[i]));
        lemma_run_end_inner(s, i + 1, j, k);
    }
}

pub fn is_space_char(c: char) -> (b: bool)
    ensures
        b == is_space(c),
{
    c == '\t' || c == '\n' || c == '\x0B' || c == '\x0C' || c == '\r' || c == ' ' || c == '\u{85}'
        || c == '\u{A0}' || c == '\u{1680}' || ('\u{2000}' <= c && c <= '\u{200A}') || c
        == '\u{2028}' || c == '\u{2029}' || c == '\u{202F}' || c == '\u{205F}' || c == '\u{3000}'
}

pub fn class_contains(k: CharClass, c: char) -> (b: bool)
    ensures
        b == in_class(k, c),
{
    match k {
        CharClass::Digit => '0' <= c && c <= '9',
        CharClass::Alpha => ('a' <= c && c <= 'z') || ('A' <= c && c <= 'Z'),
        CharClass::Alnum => ('a' <= c && c <= 'z') || ('A' <= c && c <= 'Z') || ('0' <= c && c
            <= '9'),
        CharClass::AlphaHyphen => ('a' <= c && c <= 'z') || ('A' <= c && c <= 'Z') || c == '-',
        CharClass::Blank => c == ' ' || c == '\t' || c == '\x0B' || c == '\x0C' || c == '\r',
        CharClass::Space => is_space_char(c),
        CharClass::NotNewline => c != '\n',
        CharClass::MentionPart => c != '\n' && c != '"' && c != '<',
    }
}

/// Whether position `i` holds a character of class `k`.
pub fn char_at_class(s: &[char], i: usize, k: CharClass) -> (b: bool)
    ensures
        b == at_class(s@, i as int, k),
{
    i < s.len() && class_contains(k, s[i])
}

/// Scans the run of characters of class `k` that starts at `i`.
pub fn scan_run(s: &[char], i: usize, k: CharClass) -> (e: usize)
    requires
        i <= s@.len(),
    ensures
        e as int == run_end(s@, i as int, k),
        i <= e <= s@.len(),
{
    let mut e = i;
    while e < s.len() && class_contains(k, s[e])
        invariant
            i <= e <= s@.len(),
            run_end(s@, e as int, k) == run_end(s@, i as int, k),
        decreases s@.len() - e,
    {
        e = e + 1;
    }
    e
}

} // verus!
