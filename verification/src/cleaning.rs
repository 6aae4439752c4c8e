//! Removal of the parts of an HTML formatted body that the commandless
//! actions must not look at: replies, inline code, code blocks, and
//! paragraph tags.
use vstd::prelude::*;
use crate::text::{from_chars, to_chars};

verus! {

/// Whether `pat` occurs in `s` at position `i`.
pub open spec fn occurs_at(s: Seq<char>, i: int, pat: Seq<char>) -> bool {
    0 <= i && i + pat.len() <= s.len() && s.subrange(i, i + pat.len()) == pat
}

/// The first position at or after `i` where `pat` occurs, or -1.
pub open spec fn first_occurrence(s: Seq<char>, i: int, pat: Seq<char>) -> int
    decreases s.len() + 1 - i,
{
    if i < 0 || i > s.len() {
        -1
    } else if occurs_at(s, i, pat) {
        i
    } else {
        first_occurrence(s, i + 1, pat)
    }
}

/// `s` from position `i` on without its blocks: each block runs from an
/// `open` to the first `close` after it, and the search for the next block
/// starts after that `close`. An `open` with no `close` after it stays.
pub open spec fn strip_blocks_from(s: Seq<char>, i: int, open: Seq<char>, close: Seq<char>) -> Seq<char>
    decreases s.len() + 1 - i,
{
    if i < 0 || i > s.len() {
        seq![]
    } else {
        let a = first_occurrence(s, i, open);
        if a < 0 || open.len() + close.len() == 0 {
            s.subrange(i, s.len() as int)
        } else {
            proof {
                lemma_first_occurrence(s, i, open);
            }
            let b = first_occurrence(s, a + open.len(), close);
            if b < 0 {
                s.subrange(i, s.len() as int)
            } else {
                proof {
                    lemma_first_occurrence(s, a + open.len(), close);
                }
                s.subrange(i, a) + strip_blocks_from(s, b + close.len(), open, close)
            }
        }
    }
}

/// `s` without its blocks, each from an `open` to the first `close` after it.
pub open spec fn strip_block(s: Seq<char>, open: Seq<char>, close: Seq<char>) -> Seq<char> {
    strip_blocks_from(s, 0, open, close)
}

/// The end of a paragraph tag (`<p>`, `</p>`, or `<` with any number of
/// `/` before `p>`) that starts at `i`, if one does.
pub open spec fn paragraph_tag_end(s: Seq<char>, i: int) -> Option<int> {
    if 0 <= i < s.len() && s[i] == '<' {
        let j = slash_run_end(s, i + 1);
        if j + 1 < s.len() && s[j] == 'p' && s[j + 1] == '>' {
            Some(j + 2)
        } else {
            None
        }
    } else {
        None
    }
}

pub open spec fn slash_run_end(s: Seq<char>, i: int) -> int
    decreases s.len() - i,
{
    if 0 <= i < s.len() && s[i] == '/' {
        slash_run_end(s, i + 1)
    } else {
        i
    }
}

pub proof fn lemma_slash_run_end(s: Seq<char>, i: int)
    requires
        0 <= i <= s.len(),
    ensures
        i <= slash_run_end(s, i) <= s.len(),
    decreases s.len() - i,
{
    if i < s.len() && s[i] == '/' {
        lemma_slash_run_end(s, i + 1);
    }
}

/// `s` from position `i` on, without its paragraph tags.
pub open spec fn strip_paragraphs_from(s: Seq<char>, i: int) -> Seq<char>
    decreases s.len() - i,
{
    if i < 0 || i >= s.len() {
        seq![]
    } else {
        match paragraph_tag_end(s, i) {
            Some(e) => {
                proof {
                    lemma_slash_run_end(s, i + 1);
                }
                strip_paragraphs_from(s, e)
            },
            None => seq![s[i]] + strip_paragraphs_from(s, i + 1),
        }
    }
}

pub open spec fn mx_reply_open() -> Seq<char> {
    seq!['<', 'm', 'x', '-', 'r', 'e', 'p', 'l', 'y', '>']
}

pub open spec fn mx_reply_close() -> Seq<char> {
    seq!['<', '/', 'm', 'x', '-', 'r', 'e', 'p', 'l', 'y', '>']
}

pub open spec fn code_open() -> Seq<char> {
    seq!['<', 'c', 'o', 'd', 'e', '>']
}

pub open spec fn code_close() -> Seq<char> {
    seq!['<', '/', 'c', 'o', 'd', 'e', '>']
}

pub open spec fn pre_open() -> Seq<char> {
    seq!['<', 'p', 'r', 'e', '>']
}

pub open spec fn pre_close() -> Seq<char> {
    seq!['<', '/', 'p', 'r', 'e', '>']
}

/// A formatted body without its reply, its inline code and code blocks,
/// and its paragraph tags, removed in that order.
pub open spec fn cleaned(s: Seq<char>) -> Seq<char> {
    let r = strip_block(s, mx_reply_open(), mx_reply_close());
    let c = strip_block(r, code_open(), code_close());
    let p = strip_block(c, pre_open(), pre_close());
    strip_paragraphs_from(p, 0)
}

pub(crate) fn occurs_at_exec(s: &[char], i: usize, pat: &[char]) -> (b: bool)
    requires
        i <= s@.len(),
    ensures
        b == occurs_at(s@, i as int, pat@),
{
    if pat.len() > s.len() - i {
        return false;
    }
    let n = s.len();
    let mut k: usize = 0;
    while k < pat.len()
        invariant
            n == s@.len(),
            k <= pat@.len(),
            i <= s@.len(),
            i + pat@.len() <= s@.len(),
            forall|x: int| 0 <= x < k ==> s@[i + x] == pat@[x],
        decreases pat@.len() - k,
    {
        if s[i + k] != pat[k] {
            assert(s@.subrange(i as int, i + pat@.len())[k as int] != pat@[k as int]);
            return false;
        }
        k = k + 1;
    }
    assert(s@.subrange(i as int, i + pat@.len()) =~= pat@);
    true
}

pub(crate) fn first_occurrence_exec(s: &[char], pat: &[char]) -> (r: Option<usize>)
    ensures
        r matches Some(a) ==> first_occurrence(s@, 0, pat@) == a as int,
        r is None ==> first_occurrence(s@, 0, pat@) == -1,
{
    first_occurrence_from_exec(s, 0, pat)
}

fn first_occurrence_from_exec(s: &[char], from: usize, pat: &[char]) -> (r: Option<usize>)
    requires
        from <= s@.len(),
    ensures
        r matches Some(a) ==> first_occurrence(s@, from as int, pat@) == a as int,
        r is None ==> first_occurrence(s@, from as int, pat@) == -1,
{
    let mut i: usize = from;
    loop
        invariant
            from <= i <= s@.len(),
            first_occurrence(s@, from as int, pat@) == first_occurrence(s@, i as int, pat@),
        decreases s@.len() - i,
    {
        if occurs_at_exec(s, i, pat) {
            return Some(i);
        }
        if i == s.len() {
            assert(first_occurrence(s@, (i + 1) as int, pat@) == -1);
            return None;
        }
        i = i + 1;
    }
}

/// Appends `s[from..to]` to `out`.
fn push_range(out: &mut Vec<char>, s: &[char], from: usize, to: usize)
    requires
        from <= to <= s@.len(),
    ensures
        final(out)@ == old(out)@ + s@.subrange(from as int, to as int),
{
    let ghost start = out@;
    let mut k: usize = from;
    while k < to
        invariant
            from <= k <= to <= s@.len(),
            out@ == start + s@.subrange(from as int, k as int),
        decreases to - k,
    {
        out.push(s[k]);
        k = k + 1;
        assert(out@ =~= start + s@.subrange(from as int, k as int));
    }
}

pub(crate) fn strip_block_exec(s: Vec<char>, open: &[char], close: &[char]) -> (r: Vec<char>)
    ensures
        r@ == strip_block(s@, open@, close@),
{
    let n = s.len();
    let mut out: Vec<char> = Vec::new();
    let mut i: usize = 0;
    loop
        invariant
            i <= n == s@.len(),
            out@ + strip_blocks_from(s@, i as int, open@, close@) == strip_block(s@, open@, close@),
        decreases n - i,
    {
        let rest_kept = match first_occurrence_from_exec(s.as_slice(), i, open) {
            None => true,
            Some(a) => {
                proof {
                    lemma_first_occurrence(s@, i as int, open@);
                }
                if open.len() == 0 && close.len() == 0 {
                    true
                } else {
                    match first_occurrence_from_exec(s.as_slice(), a + open.len(), close) {
                        None => true,
                        Some(b) => {
                            proof {
                                lemma_first_occurrence(s@, a + open@.len(), close@);
                            }
                            let ghost before = out@;
                            push_range(&mut out, s.as_slice(), i, a);
                            proof {
                                assert(out@ + strip_blocks_from(s@, b + close@.len(), open@, close@)
                                    =~= before + strip_blocks_from(s@, i as int, open@, close@));
                            }
                            i = b + close.len();
                            false
                        },
                    }
                }
            },
        };
        if rest_kept {
            let ghost before = out@;
            push_range(&mut out, s.as_slice(), i, n);
            assert(out@ =~= before + strip_blocks_from(s@, i as int, open@, close@));
            return out;
        }
    }
}

pub proof fn lemma_first_occurrence(s: Seq<char>, i: int, pat: Seq<char>)
    requires
        0 <= i <= s.len(),
    ensures
        first_occurrence(s, i, pat) == -1 || (i <= first_occurrence(s, i, pat) && occurs_at(
            s,
            first_occurrence(s, i, pat),
            pat,
        )),
    decreases s.len() + 1 - i,
{
    if !occurs_at(s, i, pat) {
        if i < s.len() {
            lemma_first_occurrence(s, i + 1, pat);
        } else {
            assert(first_occurrence(s, i + 1, pat) == -1);
        }
    }
}

fn paragraph_tag_end_exec(s: &[char], i: usize) -> (r: Option<usize>)
    requires
        i <= s@.len(),
    ensures
        r matches Some(e) ==> paragraph_tag_end(s@, i as int) == Some(e as int) && i < e
            <= s@.len(),
        r is None ==> paragraph_tag_end(s@, i as int) is None,
{
    if i < s.len() && s[i] == '<' {
        let mut j = i + 1;
        while j < s.len() && s[j] == '/'
            invariant
                i + 1 <= j <= s@.len(),
                slash_run_end(s@, j as int) == slash_run_end(s@, i + 1),
            decreases s@.len() - j,
        {
            j = j + 1;
        }
        if j < s.len() && s.len() - j > 1 && s[j] == 'p' && s[j + 1] == '>' {
            Some(j + 2)
        } else {
            None
        }
    } else {
        None
    }
}

fn strip_paragraphs_exec(s: &[char]) -> (r: Vec<char>)
    ensures
        r@ == strip_paragraphs_from(s@, 0),
{
    let mut r: Vec<char> = Vec::new();
    let mut i: usize = 0;
    while i < s.len()
        invariant
            i <= s@.len(),
            r@ + strip_paragraphs_from(s@, i as int) == strip_paragraphs_from(s@, 0),
        decreases s@.len() - i,
    {
        match paragraph_tag_end_exec(s, i) {
            Some(e) => {
                i = e;
            },
            None => {
                let ghost old_r = r@;
                r.push(s[i]);
                assert(strip_paragraphs_from(s@, i as int) == seq![s@[i as int]]
                    + strip_paragraphs_from(s@, i + 1));
                assert(r@ + strip_paragraphs_from(s@, i + 1) =~= old_r + strip_paragraphs_from(
                    s@,
                    i as int,
                ));
                i = i + 1;
            },
        }
    }
    assert(r@ + strip_paragraphs_from(s@, i as int) =~= r@);
    r
}

/// Removes from a formatted body its reply (`<mx-reply>…</mx-reply>`),
/// its inline code (`<code>…</code>`), its code blocks (`<pre>…</pre>`)
/// and its paragraph tags, in that order. Each block runs from an opening
/// tag to the first closing tag after it; text between two blocks stays.
pub fn clean_text(text: &str) -> (r: String)
    ensures
        r@ == cleaned(text@),
{
    let s = to_chars(text);
    let open_reply = vec!['<', 'm', 'x', '-', 'r', 'e', 'p', 'l', 'y', '>'];
    let close_reply = vec!['<', '/', 'm', 'x', '-', 'r', 'e', 'p', 'l', 'y', '>'];
    let open_code = vec!['<', 'c', 'o', 'd', 'e', '>'];
    let close_code = vec!['<', '/', 'c', 'o', 'd', 'e', '>'];
    let open_pre = vec!['<', 'p', 'r', 'e', '>'];
    let close_pre = vec!['<', '/', 'p', 'r', 'e', '>'];
    assert(open_reply@ =~= mx_reply_open());
    assert(close_reply@ =~= mx_reply_close());
    assert(open_code@ =~= code_open());
    assert(close_code@ =~= code_close());
    assert(open_pre@ =~= pre_open());
    assert(close_pre@ =~= pre_close());
    let s = strip_block_exec(s, open_reply.as_slice(), close_reply.as_slice());
    let s = strip_block_exec(s, open_code.as_slice(), close_code.as_slice());
    let s = strip_block_exec(s, open_pre.as_slice(), close_pre.as_slice());
    let p = strip_paragraphs_exec(s.as_slice());
    from_chars(p.as_slice())
}

} // verus!
