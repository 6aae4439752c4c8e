//! Conversions between string slices and character vectors, and small
//! string utilities used by the scanners and response builders.
use vstd::prelude::*;
use vstd::std_specs::iter::IteratorSpec;
use crate::chars::{is_space, is_space_char, lemma_run_end, run_end, CharClass};
use crate::cleaning::{first_occurrence, first_occurrence_exec, lemma_first_occurrence, occurs_at};

verus! {

/// Appends one character to a `String` (std `String::push`).
#[verifier::external_body]
pub(crate) fn push_char(s: &mut String, c: char)
    ensures
        final(s)@ == old(s)@.push(c),
{
    s.push(c);
}

/// Collects the characters of a string slice into a vector.
pub fn to_chars(s: &str) -> (v: Vec<char>)
    ensures
        v@ == s@,
{
    broadcast use vstd::string::group_string_axioms;
    let mut v: Vec<char> = Vec::new();
    for c in iter: s.chars()
        invariant
            v@ == iter.seq().take(iter.index() as int),
    {
        v.push(c);
    }
    assert(v@ == s@);
    v
}

/// Builds a `String` from a slice of characters.
pub fn from_chars(v: &[char]) -> (s: String)
    ensures
        s@ == v@,
{
    let mut s = String::new();
    let mut i: usize = 0;
    while i < v.len()
        invariant
            i <= v@.len(),
            s@ == v@.subrange(0, i as int),
        decreases v@.len() - i,
    {
        push_char(&mut s, v[i]);
        i = i + 1;
        assert(s@ == v@.subrange(0, i as int));
    }
    assert(v@.subrange(0, v@.len() as int) == v@);
    s
}

/// Builds a `String` from the characters of `v` in `[from, to)`.
pub fn substring(v: &[char], from: usize, to: usize) -> (s: String)
    requires
        from <= to <= v@.len(),
    ensures
        s@ == v@.subrange(from as int, to as int),
{
    let mut s = String::new();
    let mut i: usize = from;
    while i < to
        invariant
            from <= i <= to <= v@.len(),
            s@ == v@.subrange(from as int, i as int),
        decreases to - i,
    {
        push_char(&mut s, v[i]);
        i = i + 1;
        assert(s@ == v@.subrange(from as int, i as int));
    }
    s
}

/// The end of `s[lo..i]` once trailing white space is removed.
pub open spec fn trim_back(s: Seq<char>, lo: int, i: int) -> int
    decreases i - lo,
{
    if lo < i && 0 < i <= s.len() && is_space(s[i - 1]) {
        trim_back(s, lo, i - 1)
    } else {
        i
    }
}

/// `s` without leading and trailing Unicode white space (`str::trim`).
pub open spec fn trimmed(s: Seq<char>) -> Seq<char> {
    let a = run_end(s, 0, CharClass::Space);
    s.subrange(a, trim_back(s, a, s.len() as int))
}

/// Removes leading and trailing Unicode white space, as `str::trim` does.
pub fn trim(v: &[char]) -> (r: String)
    ensures
        r@ == trimmed(v@),
{
    let a = crate::chars::scan_run(v, 0, CharClass::Space);
    let mut b = v.len();
    proof {
        lemma_run_end(v@, 0, CharClass::Space);
    }
    while b > a && is_space_char(v[b - 1])
        invariant
            a <= b <= v@.len(),
            a as int == run_end(v@, 0, CharClass::Space),
            trim_back(v@, a as int, b as int) == trim_back(v@, a as int, v@.len() as int),
        decreases b,
    {
        b = b - 1;
    }
    substring(v, a, b)
}

/// `items`, each followed by a line feed.
pub open spec fn lines(items: Seq<Seq<char>>) -> Seq<char>
    decreases items.len(),
{
    if items.len() == 0 {
        seq![]
    } else {
        lines(items.drop_last()) + items.last() + seq!['\n']
    }
}

/// Appends each of `items` followed by a line feed to `out`.
pub fn push_lines(out: &mut String, items: &Vec<String>)
    ensures
        final(out)@ == old(out)@ + lines(items@.map_values(|x: String| x@)),
{
    let ghost start = out@;
    let mut i: usize = 0;
    while i < items.len()
        invariant
            i <= items@.len(),
            out@ == start + lines(items@.map_values(|x: String| x@).take(i as int)),
        decreases items@.len() - i,
    {
        out.append(items[i].as_str());
        push_char(out, '\n');
        proof {
            let m = items@.map_values(|x: String| x@);
            assert(m.take(i + 1).drop_last() =~= m.take(i as int));
            assert(m.take(i + 1).last() == items@[i as int]@);
        }
        i = i + 1;
    }
    assert(items@.map_values(|x: String| x@).take(i as int) =~= items@.map_values(|x: String| x@));
}

/// The concatenation of `f` applied to each of `items`, in order.
pub open spec fn joined(items: Seq<Seq<char>>, f: spec_fn(Seq<char>) -> Seq<char>) -> Seq<char>
    decreases items.len(),
{
    if items.len() == 0 {
        seq![]
    } else {
        joined(items.drop_last(), f) + f(items.last())
    }
}

/// Appending one more item extends the concatenation by its image.
pub proof fn lemma_joined_take(items: Seq<Seq<char>>, f: spec_fn(Seq<char>) -> Seq<char>, i: int)
    requires
        0 <= i < items.len(),
    ensures
        joined(items.take(i + 1), f) == joined(items.take(i), f) + f(items[i]),
{
    assert(items.take(i + 1).drop_last() =~= items.take(i));
}

/// Whether two string slices hold the same characters.
pub fn str_eq(a: &str, b: &str) -> (r: bool)
    ensures
        r == (a@ == b@),
{
    let x = to_chars(a);
    let y = to_chars(b);
    if x.len() != y.len() {
        return false;
    }
    let mut i: usize = 0;
    while i < x.len()
        invariant
            i <= x@.len(),
            x@.len() == y@.len(),
            x@ == a@,
            y@ == b@,
            forall|j: int| 0 <= j < i ==> x@[j] == y@[j],
        decreases x@.len() - i,
    {
        if x[i] != y[i] {
            assert(x@[i as int] != y@[i as int]);
            return false;
        }
        i = i + 1;
    }
    assert(x@ =~= y@);
    true
}

/// The characters of each string.
pub open spec fn strs_view(v: Seq<String>) -> Seq<Seq<char>> {
    v.map_values(|x: String| x@)
}

/// The characters of each pair of strings.
pub open spec fn pairs_view(v: Seq<(String, String)>) -> Seq<(Seq<char>, Seq<char>)> {
    v.map_values(|p: (String, String)| (p.0@, p.1@))
}

/// A copy of a vector of strings.
pub fn clone_strings(v: &Vec<String>) -> (r: Vec<String>)
    ensures
        strs_view(r@) == strs_view(v@),
{
    let mut r: Vec<String> = Vec::new();
    let mut i: usize = 0;
    while i < v.len()
        invariant
            i <= v@.len(),
            strs_view(r@) == strs_view(v@).take(i as int),
        decreases v@.len() - i,
    {
        let ghost prev = r@;
        let c = v[i].clone();
        r.push(c);
        proof {
            assert(r@ =~= prev.push(c));
            assert(strs_view(r@) =~= strs_view(prev).push(v@[i as int]@));
        }
        i = i + 1;
        assert(strs_view(r@) =~= strs_view(v@).take(i as int));
    }
    assert(strs_view(v@).take(i as int) =~= strs_view(v@));
    r
}

/// A copy of a vector of pairs of strings.
pub fn clone_pairs(v: &Vec<(String, String)>) -> (r: Vec<(String, String)>)
    ensures
        pairs_view(r@) == pairs_view(v@),
{
    let mut r: Vec<(String, String)> = Vec::new();
    let mut i: usize = 0;
    while i < v.len()
        invariant
            i <= v@.len(),
            pairs_view(r@) == pairs_view(v@).take(i as int),
        decreases v@.len() - i,
    {
        let ghost prev = r@;
        let (a, b) = &v[i];
        let p = (a.clone(), b.clone());
        r.push(p);
        proof {
            assert(r@ =~= prev.push(p));
            assert(pairs_view(r@) =~= pairs_view(prev).push((v@[i as int].0@, v@[i as int].1@)));
        }
        i = i + 1;
        assert(pairs_view(r@) =~= pairs_view(v@).take(i as int));
    }
    assert(pairs_view(v@).take(i as int) =~= pairs_view(v@));
    r
}

/// Whether `s` starts with `c`.
pub open spec fn starts_with_char(s: Seq<char>, c: char) -> bool {
    s.len() > 0 && s[0] == c
}

/// Whether `s` starts with `c`.
pub fn first_char_is(s: &str, c: char) -> (b: bool)
    ensures
        b == starts_with_char(s@, c),
{
    let v = to_chars(s);
    v.len() > 0 && v[0] == c
}

/// `s` without any `c`.
pub open spec fn without_char(s: Seq<char>, c: char) -> Seq<char>
    decreases s.len(),
{
    if s.len() == 0 {
        s
    } else if s.last() == c {
        without_char(s.drop_last(), c)
    } else {
        without_char(s.drop_last(), c).push(s.last())
    }
}

/// `s` without any `c` (`str::replace(c, "")`).
pub fn remove_char(s: &str, c: char) -> (r: String)
    ensures
        r@ == without_char(s@, c),
{
    let v = to_chars(s);
    let mut r = String::new();
    let mut i: usize = 0;
    while i < v.len()
        invariant
            i <= v@.len(),
            r@ == without_char(v@.take(i as int), c),
        decreases v@.len() - i,
    {
        proof {
            assert(v@.take(i + 1).drop_last() =~= v@.take(i as int));
        }
        if v[i] != c {
            push_char(&mut r, v[i]);
        }
        i = i + 1;
    }
    assert(v@.take(i as int) =~= v@);
    r
}

/// What `str::to_lowercase` gives for a string: the Unicode lower case
/// mapping of each character, with the context rules of the final sigma.
pub uninterp spec fn lowercased(s: Seq<char>) -> Seq<char>;

/// The lower case form of `s` (std `str::to_lowercase`). Its result is a
/// function of `s` alone, named `lowercased`; the Unicode tables it applies
/// are not restated here.
#[verifier::external_body]
pub(crate) fn to_lowercase(s: &str) -> (r: String)
    ensures
        r@ == lowercased(s@),
{
    s.to_lowercase()
}

/// Whether `pat` occurs somewhere in `s` (`str::contains`).
pub open spec fn has_substring(s: Seq<char>, pat: Seq<char>) -> bool {
    exists|i: int| occurs_at(s, i, pat)
}

/// No occurrence at or after `i` when the search from `i` finds none.
pub proof fn lemma_no_occurrence(s: Seq<char>, i: int, pat: Seq<char>, j: int)
    requires
        0 <= i <= j,
        first_occurrence(s, i, pat) == -1,
    ensures
        !occurs_at(s, j, pat),
    decreases s.len() + 1 - i,
{
    if i <= s.len() && !occurs_at(s, i, pat) && i < j {
        lemma_no_occurrence(s, i + 1, pat, j);
    }
}

/// Whether `pat` occurs somewhere in `s`.
pub fn contains_str(s: &str, pat: &str) -> (b: bool)
    ensures
        b == has_substring(s@, pat@),
{
    let v = to_chars(s);
    let p = to_chars(pat);
    match first_occurrence_exec(v.as_slice(), p.as_slice()) {
        Some(a) => {
            proof {
                lemma_first_occurrence(v@, 0, p@);
            }
            true
        },
        None => {
            proof {
                assert forall|j: int| !occurs_at(v@, j, p@) by {
                    if 0 <= j {
                        lemma_no_occurrence(v@, 0, p@, j);
                    }
                }
            }
            false
        },
    }
}

/// `s` with its first occurrence of `pat` replaced by `to`
/// (`str::replacen(pat, to, 1)` for a non-empty `pat`).
pub open spec fn replace_first(s: Seq<char>, pat: Seq<char>, to: Seq<char>) -> Seq<char> {
    let a = first_occurrence(s, 0, pat);
    if a < 0 {
        s
    } else {
        s.subrange(0, a) + to + s.subrange(a + pat.len(), s.len() as int)
    }
}

/// Replaces the first occurrence of `pat` in `s` by `to`.
pub fn replace_first_str(s: &str, pat: &str, to: &str) -> (r: String)
    ensures
        r@ == replace_first(s@, pat@, to@),
{
    let v = to_chars(s);
    let p = to_chars(pat);
    match first_occurrence_exec(v.as_slice(), p.as_slice()) {
        Some(a) => {
            proof {
                lemma_first_occurrence(v@, 0, p@);
                assert(occurs_at(v@, a as int, p@));
            }
            let mut r = substring(v.as_slice(), 0, a);
            r.append(to);
            let n = v.len();
            let m = p.len();
            assert(a + m <= n);
            let tail = substring(v.as_slice(), a + m, n);
            r.append(tail.as_str());
            r
        },
        None => from_chars(v.as_slice()),
    }
}

/// The fields of `s` between the separators `c`, as `str::split(c)` gives
/// them: always at least one, empty fields included.
pub open spec fn split_fields(s: Seq<char>, c: char) -> Seq<Seq<char>>
    decreases s.len(),
{
    if s.len() == 0 {
        seq![seq![]]
    } else {
        let f = split_fields(s.drop_last(), c);
        if s.last() == c {
            f.push(seq![])
        } else {
            f.update(f.len() - 1, f.last().push(s.last()))
        }
    }
}

/// Splits `s` at each `c`.
pub fn split_on(s: &str, c: char) -> (r: Vec<String>)
    ensures
        strs_view(r@) == split_fields(s@, c),
{
    let v = to_chars(s);
    let mut done: Vec<String> = Vec::new();
    let mut cur: Vec<char> = Vec::new();
    let mut i: usize = 0;
    while i < v.len()
        invariant
            i <= v@.len(),
            strs_view(done@).push(cur@) == split_fields(v@.take(i as int), c),
        decreases v@.len() - i,
    {
        proof {
            assert(v@.take(i + 1).drop_last() =~= v@.take(i as int));
        }
        if v[i] == c {
            let field = from_chars(cur.as_slice());
            let ghost prev = done@;
            done.push(field);
            proof {
                assert(done@ =~= prev.push(field));
                assert(strs_view(done@) =~= strs_view(prev).push(cur@));
            }
            cur = Vec::new();
            assert(strs_view(done@).push(cur@) =~= split_fields(v@.take(i + 1), c));
        } else {
            let ghost old_cur = cur@;
            cur.push(v[i]);
            assert(strs_view(done@).push(cur@) =~= strs_view(done@).push(old_cur).update(
                strs_view(done@).len() as int,
                old_cur.push(v@[i as int]),
            ));
        }
        i = i + 1;
    }
    let last = from_chars(cur.as_slice());
    let ghost prev = done@;
    done.push(last);
    proof {
        assert(done@ =~= prev.push(last));
        assert(strs_view(done@) =~= strs_view(prev).push(cur@));
        assert(v@.take(i as int) =~= v@);
    }
    done
}

/// Whether one of `v` holds the same characters as `s`.
pub fn contains_string(v: &Vec<String>, s: &str) -> (b: bool)
    ensures
        b == strs_view(v@).contains(s@),
{
    let mut i: usize = 0;
    while i < v.len()
        invariant
            i <= v@.len(),
            forall|j: int| 0 <= j < i ==> strs_view(v@)[j] != s@,
        decreases v@.len() - i,
    {
        if str_eq(v[i].as_str(), s) {
            assert(strs_view(v@)[i as int] == s@);
            return true;
        }
        i = i + 1;
    }
    false
}

/// `s` with every string that occurs earlier left out: the first
/// occurrence of each, in order.
pub open spec fn distinct(s: Seq<Seq<char>>) -> Seq<Seq<char>>
    decreases s.len(),
{
    if s.len() == 0 {
        seq![]
    } else if distinct(s.drop_last()).contains(s.last()) {
        distinct(s.drop_last())
    } else {
        distinct(s.drop_last()).push(s.last())
    }
}

/// `v` with every string that occurs earlier left out.
pub fn distinct_strings(v: Vec<String>) -> (r: Vec<String>)
    ensures
        strs_view(r@) == distinct(strs_view(v@)),
{
    let mut out: Vec<String> = Vec::new();
    let mut i: usize = 0;
    assert(strs_view(v@).take(0) =~= seq![]);
    while i < v.len()
        invariant
            i <= v@.len(),
            strs_view(out@) == distinct(strs_view(v@).take(i as int)),
        decreases v@.len() - i,
    {
        proof {
            assert(strs_view(v@).take(i + 1).drop_last() =~= strs_view(v@).take(i as int));
            assert(strs_view(v@).take(i + 1).last() == v@[i as int]@);
        }
        if !contains_string(&out, v[i].as_str()) {
            let item = v[i].clone();
            let ghost prev = out@;
            out.push(item);
            proof {
                assert(out@ =~= prev.push(item));
                assert(strs_view(out@) =~= strs_view(prev).push(item@));
            }
        }
        i = i + 1;
    }
    assert(strs_view(v@).take(i as int) =~= strs_view(v@));
    out
}

/// The characters of each string of an optional list.
pub open spec fn opt_strs(o: Option<Vec<String>>) -> Option<Seq<Seq<char>>> {
    match o {
        Some(v) => Some(strs_view(v@)),
        None => None,
    }
}

} // verus!
