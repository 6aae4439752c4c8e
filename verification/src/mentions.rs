//! The grammars of in-text references that trigger commandless actions:
//! `repo#123` (issue search), `keyword@item` (links), `%group` (group
//! pings), `$keyword` (text expansion), and `@user:server` (user mentions in
//! formatted bodies).
use vstd::prelude::*;
use crate::chars::{at_class, char_at_class, lemma_run_end, run_end, scan_run, CharClass};
use crate::text::{substring, to_chars};

verus! {

// ---------------------------------------------------------------------------
// `name <blanks> sigil target`: issue searches and links
/// A reference starting exactly at `m`: a run of `k1` characters taken
/// whole, optional blanks, the `sigil`, and a run of `k2` characters taken
/// whole. The result holds the end of the name and the start and end of the
/// target.
pub open spec fn reference_at(s: Seq<char>, m: int, k1: CharClass, sigil: char, k2: CharClass) -> Option<(int, int, int)> {
    if !at_class(s, m, k1) {
        None
    } else {
        let e = run_end(s, m, k1);
        let h = run_end(s, e, CharClass::Blank);
        if 0 <= h < s.len() && s[h] == sigil && at_class(s, h + 1, k2) {
            Some((e, h + 1, run_end(s, h + 1, k2)))
        } else {
            None
        }
    }
}

/// The leftmost reference at or after `p`, with its start.
pub open spec fn find_reference(s: Seq<char>, p: int, k1: CharClass, sigil: char, k2: CharClass) -> Option<(int, (int, int, int))>
    decreases s.len() + 1 - p,
{
    if p < 0 || p > s.len() {
        None
    } else {
        match reference_at(s, p, k1, sigil, k2) {
            Some(r) => Some((p, r)),
            None => find_reference(s, p + 1, k1, sigil, k2),
        }
    }
}

pub proof fn lemma_find_reference(s: Seq<char>, p: int, k1: CharClass, sigil: char, k2: CharClass)
    requires
        0 <= p <= s.len(),
    ensures
        find_reference(s, p, k1, sigil, k2) matches Some((m, (e, ts, te))) ==> {
            &&& p <= m < e < ts < te <= s.len()
            &&& reference_at(s, m, k1, sigil, k2) == Some((e, ts, te))
        },
    decreases s.len() + 1 - p,
{
    if reference_at(s, p, k1, sigil, k2) is None {
        if p < s.len() {
            lemma_find_reference(s, p + 1, k1, sigil, k2);
        }
    } else {
        lemma_run_end(s, p, k1);
        let e = run_end(s, p, k1);
        lemma_run_end(s, e, CharClass::Blank);
        let h = run_end(s, e, CharClass::Blank);
        lemma_run_end(s, h + 1, k2);
    }
}

/// All references from `p` on, left to right and without overlap, as
/// (name, target).
pub open spec fn references_from(s: Seq<char>, p: int, k1: CharClass, sigil: char, k2: CharClass) -> Seq<(Seq<char>, Seq<char>)>
    decreases s.len() + 1 - p,
{
    if 0 <= p <= s.len() {
        match find_reference(s, p, k1, sigil, k2) {
            Some((m, (e, ts, te))) => {
                proof {
                    lemma_find_reference(s, p, k1, sigil, k2);
                }
                seq![(s.subrange(m, e), s.subrange(ts, te))] + references_from(s, te, k1, sigil, k2)
            },
            None => seq![],
        }
    } else {
        seq![]
    }
}

/// `repo#1234`: a repository short name (letters and hyphens), optional
/// blanks, `#`, and the issue or pull request number.
pub open spec fn github_searches(s: Seq<char>) -> Seq<(Seq<char>, Seq<char>)> {
    references_from(s, 0, CharClass::AlphaHyphen, '#', CharClass::Digit)
}

/// `keyword@item`: a link keyword (letters), optional blanks, `@`, and
/// the item to link (letters).
pub open spec fn link_requests(s: Seq<char>) -> Seq<(Seq<char>, Seq<char>)> {
    references_from(s, 0, CharClass::Alpha, '@', CharClass::Alpha)
}

/// A pair of captured texts.
#[derive(Clone, Debug, PartialEq, Eq)]
pub struct PairCapture {
    /// The first group: the repository name, or the link keyword.
    pub first: String,
    /// The second group: the number, or the item to link.
    pub second: String,
}

impl PairCapture {
    pub open spec fn view(&self) -> (Seq<char>, Seq<char>) {
        (self.first@, self.second@)
    }
}

fn reference_at_exec(s: &[char], m: usize, k1: CharClass, sigil: char, k2: CharClass) -> (r: Option<(usize, usize, usize)>)
    requires
        m <= s@.len(),
    ensures
        r matches Some((e, ts, te)) ==> reference_at(s@, m as int, k1, sigil, k2) == Some(
            (e as int, ts as int, te as int),
        ),
        r is None ==> reference_at(s@, m as int, k1, sigil, k2) is None,
{
    if !char_at_class(s, m, k1) {
        return None;
    }
    let e = scan_run(s, m, k1);
    let h = scan_run(s, e, CharClass::Blank);
    if h < s.len() && s[h] == sigil && char_at_class(s, h + 1, k2) {
        Some((e, h + 1, scan_run(s, h + 1, k2)))
    } else {
        None
    }
}

fn find_reference_exec(s: &[char], p: usize, k1: CharClass, sigil: char, k2: CharClass) -> (r: Option<(usize, usize, usize, usize)>)
    requires
        p <= s@.len(),
    ensures
        r matches Some((m, e, ts, te)) ==> find_reference(s@, p as int, k1, sigil, k2) == Some(
            (m as int, (e as int, ts as int, te as int)),
        ),
        r is None ==> find_reference(s@, p as int, k1, sigil, k2) is None,
{
    let mut m = p;
    loop
        invariant
            p <= m <= s@.len(),
            find_reference(s@, p as int, k1, sigil, k2) == find_reference(s@, m as int, k1, sigil, k2),
        decreases s@.len() - m,
    {
        match reference_at_exec(s, m, k1, sigil, k2) {
            Some((e, ts, te)) => {
                return Some((m, e, ts, te));
            },
            None => {},
        }
        if m == s.len() {
            assert(find_reference(s@, (m + 1) as int, k1, sigil, k2) is None);
            return None;
        }
        m = m + 1;
    }
}

fn references_exec(text: &str, k1: CharClass, sigil: char, k2: CharClass) -> (caps: Vec<PairCapture>)
    ensures
        caps@.map_values(|c: PairCapture| c.view()) == references_from(text@, 0, k1, sigil, k2),
{
    let v = to_chars(text);
    let s = v.as_slice();
    let mut caps: Vec<PairCapture> = Vec::new();
    let mut p: usize = 0;
    loop
        invariant
            p <= s@.len(),
            s@ == text@,
            caps@.map_values(|c: PairCapture| c.view()) + references_from(s@, p as int, k1, sigil, k2)
                == references_from(s@, 0, k1, sigil, k2),
        decreases s@.len() - p,
    {
        proof {
            lemma_find_reference(s@, p as int, k1, sigil, k2);
        }
        match find_reference_exec(s, p, k1, sigil, k2) {
            Some((m, e, ts, te)) => {
                let cap = PairCapture { first: substring(s, m, e), second: substring(s, ts, te) };
                let ghost old_caps = caps@;
                caps.push(cap);
                proof {
                    assert(caps@.map_values(|c: PairCapture| c.view()) == old_caps.map_values(
                        |c: PairCapture| c.view(),
                    ).push(cap.view()));
                    assert(references_from(s@, p as int, k1, sigil, k2) == seq![cap.view()]
                        + references_from(s@, te as int, k1, sigil, k2));
                }
                p = te;
            },
            None => {
                assert(caps@.map_values(|c: PairCapture| c.view()) + references_from(
                    s@,
                    p as int,
                    k1,
                    sigil,
                    k2,
                ) =~= caps@.map_values(|c: PairCapture| c.view()));
                return caps;
            },
        }
    }
}

/// All `repo#1234` references in `text`, as (repository, number).
pub fn github_search_captures(text: &str) -> (caps: Vec<PairCapture>)
    ensures
        caps@.map_values(|c: PairCapture| c.view()) == github_searches(text@),
{
    references_exec(text, CharClass::AlphaHyphen, '#', CharClass::Digit)
}

/// Whether `text` holds a `repo#1234` reference.
pub fn github_search_is_match(text: &str) -> (b: bool)
    ensures
        b == (github_searches(text@).len() > 0),
{
    github_search_captures(text).len() > 0
}

/// All `keyword@item` references in `text`, as (keyword, item).
pub fn link_url_captures(text: &str) -> (caps: Vec<PairCapture>)
    ensures
        caps@.map_values(|c: PairCapture| c.view()) == link_requests(text@),
{
    references_exec(text, CharClass::Alpha, '@', CharClass::Alpha)
}

/// Whether `text` holds a `keyword@item` reference.
pub fn link_url_is_match(text: &str) -> (b: bool)
    ensures
        b == (link_requests(text@).len() > 0),
{
    link_url_captures(text).len() > 0
}

// ---------------------------------------------------------------------------
// `<start or white space> sigil <blanks> word`: group pings and expansions
/// The word after a `sigil` at `t`, after optional blanks: its start and end.
pub open spec fn sigil_word_body(s: Seq<char>, t: int, sigil: char) -> Option<(int, int)> {
    if 0 <= t < s.len() && s[t] == sigil {
        let g = run_end(s, t + 1, CharClass::Blank);
        if at_class(s, g, CharClass::Alnum) {
            Some((g, run_end(s, g, CharClass::Alnum)))
        } else {
            None
        }
    } else {
        None
    }
}

/// A sigil word whose match starts exactly at `m`: at the start of the text,
/// or at white space, which the match takes whole.
pub open spec fn sigil_word_at(s: Seq<char>, m: int, sigil: char) -> Option<(int, int)> {
    if m == 0 && sigil_word_body(s, 0, sigil) is Some {
        sigil_word_body(s, 0, sigil)
    } else if at_class(s, m, CharClass::Space) {
        sigil_word_body(s, run_end(s, m, CharClass::Space), sigil)
    } else {
        None
    }
}

pub open spec fn find_sigil_word(s: Seq<char>, p: int, sigil: char) -> Option<(int, (int, int))>
    decreases s.len() + 1 - p,
{
    if p < 0 || p > s.len() {
        None
    } else {
        match sigil_word_at(s, p, sigil) {
            Some(r) => Some((p, r)),
            None => find_sigil_word(s, p + 1, sigil),
        }
    }
}

proof fn lemma_sigil_word_body(s: Seq<char>, t: int, sigil: char)
    requires
        0 <= t <= s.len(),
    ensures
        sigil_word_body(s, t, sigil) matches Some((ws, we)) ==> t < ws < we <= s.len(),
{
    if 0 <= t < s.len() && s[t] == sigil {
        lemma_run_end(s, t + 1, CharClass::Blank);
        let g = run_end(s, t + 1, CharClass::Blank);
        lemma_run_end(s, g, CharClass::Alnum);
    }
}

pub proof fn lemma_find_sigil_word(s: Seq<char>, p: int, sigil: char)
    requires
        0 <= p <= s.len(),
    ensures
        find_sigil_word(s, p, sigil) matches Some((m, (ws, we))) ==> {
            &&& p <= m < ws < we <= s.len()
            &&& sigil_word_at(s, m, sigil) == Some((ws, we))
        },
    decreases s.len() + 1 - p,
{
    if sigil_word_at(s, p, sigil) is None {
        if p < s.len() {
            lemma_find_sigil_word(s, p + 1, sigil);
        }
    } else {
        lemma_sigil_word_body(s, 0, sigil);
        lemma_run_end(s, p, CharClass::Space);
        lemma_sigil_word_body(s, run_end(s, p, CharClass::Space), sigil);
    }
}

/// All sigil words from `p` on, left to right and without overlap.
pub open spec fn sigil_words_from(s: Seq<char>, p: int, sigil: char) -> Seq<Seq<char>>
    decreases s.len() + 1 - p,
{
    if 0 <= p <= s.len() {
        match find_sigil_word(s, p, sigil) {
            Some((m, (ws, we))) => {
                proof {
                    lemma_find_sigil_word(s, p, sigil);
                }
                seq![s.subrange(ws, we)] + sigil_words_from(s, we, sigil)
            },
            None => seq![],
        }
    } else {
        seq![]
    }
}

/// `%group`: the groups pinged in a text.
pub open spec fn group_pings(s: Seq<char>) -> Seq<Seq<char>> {
    sigil_words_from(s, 0, '%')
}

/// `$keyword`: the text expansions requested in a text.
pub open spec fn text_expansions(s: Seq<char>) -> Seq<Seq<char>> {
    sigil_words_from(s, 0, '$')
}

fn sigil_word_body_exec(s: &[char], t: usize, sigil: char) -> (r: Option<(usize, usize)>)
    requires
        t <= s@.len(),
    ensures
        r matches Some((ws, we)) ==> sigil_word_body(s@, t as int, sigil) == Some(
            (ws as int, we as int),
        ),
        r is None ==> sigil_word_body(s@, t as int, sigil) is None,
{
    if t < s.len() && s[t] == sigil {
        let g = scan_run(s, t + 1, CharClass::Blank);
        if char_at_class(s, g, CharClass::Alnum) {
            Some((g, scan_run(s, g, CharClass::Alnum)))
        } else {
            None
        }
    } else {
        None
    }
}

fn sigil_word_at_exec(s: &[char], m: usize, sigil: char) -> (r: Option<(usize, usize)>)
    requires
        m <= s@.len(),
    ensures
        r matches Some((ws, we)) ==> sigil_word_at(s@, m as int, sigil) == Some(
            (ws as int, we as int),
        ),
        r is None ==> sigil_word_at(s@, m as int, sigil) is None,
{
    if m == 0 {
        let b = sigil_word_body_exec(s, 0, sigil);
        if b.is_some() {
            return b;
        }
    }
    if char_at_class(s, m, CharClass::Space) {
        let t = scan_run(s, m, CharClass::Space);
        sigil_word_body_exec(s, t, sigil)
    } else {
        None
    }
}

fn find_sigil_word_exec(s: &[char], p: usize, sigil: char) -> (r: Option<(usize, usize, usize)>)
    requires
        p <= s@.len(),
    ensures
        r matches Some((m, ws, we)) ==> find_sigil_word(s@, p as int, sigil) == Some(
            (m as int, (ws as int, we as int)),
        ),
        r is None ==> find_sigil_word(s@, p as int, sigil) is None,
{
    let mut m = p;
    loop
        invariant
            p <= m <= s@.len(),
            find_sigil_word(s@, p as int, sigil) == find_sigil_word(s@, m as int, sigil),
        decreases s@.len() - m,
    {
        match sigil_word_at_exec(s, m, sigil) {
            Some((ws, we)) => {
                return Some((m, ws, we));
            },
            None => {},
        }
        if m == s.len() {
            assert(find_sigil_word(s@, (m + 1) as int, sigil) is None);
            return None;
        }
        m = m + 1;
    }
}

fn sigil_words_exec(text: &str, sigil: char) -> (words: Vec<String>)
    ensures
        words@.map_values(|w: String| w@) == sigil_words_from(text@, 0, sigil),
{
    let v = to_chars(text);
    let s = v.as_slice();
    let mut words: Vec<String> = Vec::new();
    let mut p: usize = 0;
    loop
        invariant
            p <= s@.len(),
            s@ == text@,
            words@.map_values(|w: String| w@) + sigil_words_from(s@, p as int, sigil)
                == sigil_words_from(s@, 0, sigil),
        decreases s@.len() - p,
    {
        proof {
            lemma_find_sigil_word(s@, p as int, sigil);
        }
        match find_sigil_word_exec(s, p, sigil) {
            Some((m, ws, we)) => {
                let w = substring(s, ws, we);
                let ghost old_words = words@;
                let ghost wv = w@;
                words.push(w);
                proof {
                    assert(words@.map_values(|w: String| w@) == old_words.map_values(
                        |w: String| w@,
                    ).push(wv));
                    assert(sigil_words_from(s@, p as int, sigil) == seq![wv] + sigil_words_from(
                        s@,
                        we as int,
                        sigil,
                    ));
                }
                p = we;
            },
            None => {
                assert(words@.map_values(|w: String| w@) + sigil_words_from(s@, p as int, sigil)
                    =~= words@.map_values(|w: String| w@));
                return words;
            },
        }
    }
}

/// The groups pinged with `%group` in `text`, left to right.
pub fn group_ping_captures(text: &str) -> (groups: Vec<String>)
    ensures
        groups@.map_values(|w: String| w@) == group_pings(text@),
{
    sigil_words_exec(text, '%')
}

/// Whether `text` pings a group with `%group`.
pub fn group_ping_is_match(text: &str) -> (b: bool)
    ensures
        b == (group_pings(text@).len() > 0),
{
    group_ping_captures(text).len() > 0
}

/// The keywords requested with `$keyword` in `text`, left to right.
pub fn text_expansion_captures(text: &str) -> (keywords: Vec<String>)
    ensures
        keywords@.map_values(|w: String| w@) == text_expansions(text@),
{
    sigil_words_exec(text, '$')
}

/// Whether `text` requests a text expansion with `$keyword`.
pub fn text_expansion_is_match(text: &str) -> (b: bool)
    ensures
        b == (text_expansions(text@).len() > 0),
{
    text_expansion_captures(text).len() > 0
}

// ---------------------------------------------------------------------------
// `@user:server`: user mentions in formatted bodies
/// Whether `s` has a `:` at some position in `[a, b)`.
pub open spec fn has_colon_in(s: Seq<char>, a: int, b: int) -> bool {
    exists|c: int| a <= c < b && #[trigger] s[c] == ':'
}

/// A mention starting exactly at `m`: `@`, at least one character, `:`, and
/// at least one character, none of them a line feed, `"` or `<`. The match
/// runs as far as such characters do; the result is its end.
pub open spec fn mention_at(s: Seq<char>, m: int) -> Option<int> {
    if 0 <= m < s.len() && s[m] == '@' {
        let le = run_end(s, m, CharClass::MentionPart);
        if has_colon_in(s, m + 2, le - 1) {
            Some(le)
        } else {
            None
        }
    } else {
        None
    }
}

/// The leftmost mention at or after `p`: its start and end.
pub open spec fn find_mention(s: Seq<char>, p: int) -> Option<(int, int)>
    decreases s.len() + 1 - p,
{
    if p < 0 || p > s.len() {
        None
    } else {
        match mention_at(s, p) {
            Some(e) => Some((p, e)),
            None => find_mention(s, p + 1),
        }
    }
}

proof fn lemma_find_mention(s: Seq<char>, p: int)
    requires
        0 <= p <= s.len(),
    ensures
        find_mention(s, p) matches Some((m, e)) ==> p <= m < e <= s.len() && mention_at(s, m)
            == Some(e),
    decreases s.len() + 1 - p,
{
    if mention_at(s, p) is None {
        if p < s.len() {
            lemma_find_mention(s, p + 1);
        }
    } else {
        lemma_run_end(s, p, CharClass::MentionPart);
    }
}

/// The first user mention in `s`, as the whole match.
pub open spec fn first_mention(s: Seq<char>) -> Option<Seq<char>> {
    match find_mention(s, 0) {
        Some((m, e)) => Some(s.subrange(m, e)),
        None => None,
    }
}

fn mention_at_exec(s: &[char], m: usize) -> (r: Option<usize>)
    requires
        m <= s@.len(),
    ensures
        r matches Some(e) ==> mention_at(s@, m as int) == Some(e as int),
        r is None ==> mention_at(s@, m as int) is None,
{
    if m < s.len() && s[m] == '@' {
        let le = scan_run(s, m, CharClass::MentionPart);
        proof {
            lemma_run_end(s@, m as int, CharClass::MentionPart);
        }
        proof {
            lemma_run_end(s@, (m + 1) as int, CharClass::MentionPart);
        }
        let mut c = m + 1;
        while le - c > 2
            invariant
                m + 1 <= c <= le,
                le <= s@.len(),
                m < s@.len(),
                s@[m as int] == '@',
                le as int == run_end(s@, m as int, CharClass::MentionPart),
                forall|x: int| m + 2 <= x <= c ==> s@[x] != ':',
            decreases le - c,
        {
            let x = c + 1;
            if s[x] == ':' {
                assert(m + 2 <= x < le - 1 && s@[x as int] == ':');
                assert(has_colon_in(s@, m + 2, le - 1));
                return Some(le);
            }
            c = x;
        }
        None
    } else {
        None
    }
}

/// The first user mention in `text`: `@user:server`, up to the end of its
/// line or the first `"` or `<`.
pub fn formatted_username_first(text: &str) -> (r: Option<String>)
    ensures
        r matches Some(u) ==> first_mention(text@) == Some(u@),
        r is None ==> first_mention(text@) is None,
{
    let v = to_chars(text);
    let s = v.as_slice();
    let mut m: usize = 0;
    loop
        invariant
            m <= s@.len(),
            s@ == text@,
            find_mention(s@, 0) == find_mention(s@, m as int),
        decreases s@.len() - m,
    {
        match mention_at_exec(s, m) {
            Some(e) => {
                proof {
                    lemma_find_mention(s@, m as int);
                }
                return Some(substring(s, m, e));
            },
            None => {},
        }
        if m == s.len() {
            assert(find_mention(s@, (m + 1) as int) is None);
            return None;
        }
        m = m + 1;
    }
}

} // verus!
