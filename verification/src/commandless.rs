//! The commandless actions: what a message that does not start with `!`
//! asks for, and the replies built from it.
use vstd::prelude::*;
use crate::chars::is_digit;
use crate::cleaning::{clean_text, cleaned};
use crate::quantity::{conversions, find_conversion, unit_conversion_captures, unit_conversion_is_match, UnitConversionCapture};
use crate::config::{groups_view, inserted_from, MatrixListenerConfig};
use crate::ids::{parse_url, url_serialization, UserId};
use crate::mentions::{
    github_search_captures, github_searches, group_ping_captures, group_pings, link_requests,
    link_url_captures, text_expansion_captures, text_expansions, PairCapture,
};
use crate::response::{MatrixFormattedTextResponse, MatrixNoticeResponse, UserSet};
use crate::text::{
    contains_string, lowercased, pairs_view, remove_char, str_eq, strs_view,
    substring, to_chars, to_lowercase, without_char,
};

verus! {

// ---------------------------------------------------------------------------
// Tables
/// The value of the first pair of `v` whose key is `key`.
pub open spec fn lookup(v: Seq<(Seq<char>, Seq<char>)>, key: Seq<char>) -> Option<Seq<char>>
    decreases v.len(),
{
    if v.len() == 0 {
        None
    } else if v[0].0 == key {
        Some(v[0].1)
    } else {
        lookup(v.drop_first(), key)
    }
}

/// The value of the first pair of `v` whose key is `key`.
pub fn lookup_exec(v: &Vec<(String, String)>, key: &str) -> (r: Option<String>)
    ensures
        match lookup(pairs_view(v@), key@) {
            Some(x) => r matches Some(s) && s@ == x,
            None => r is None,
        },
{
    let mut i: usize = 0;
    assert(pairs_view(v@).skip(0) =~= pairs_view(v@));
    while i < v.len()
        invariant
            i <= v@.len(),
            lookup(pairs_view(v@), key@) == lookup(pairs_view(v@).skip(i as int), key@),
        decreases v@.len() - i,
    {
        proof {
            let t = pairs_view(v@).skip(i as int);
            assert(t.drop_first() =~= pairs_view(v@).skip(i + 1));
            assert(t[0] == (v@[i as int].0@, v@[i as int].1@));
        }
        if str_eq(v[i].0.as_str(), key) {
            return Some(v[i].1.clone());
        }
        i = i + 1;
    }
    None
}

// ---------------------------------------------------------------------------
// Unit conversions
/// Whether the exclusion `e` drops a match whose whole text is `whole` and
/// whose unit is `unit`: `e` is that unit behind one space, and the match
/// ends with it, so a space stands between the number and the unit.
pub open spec fn excludes(e: Seq<char>, whole: Seq<char>, unit: Seq<char>) -> bool {
    &&& e == seq![' '] + unit
    &&& e.len() <= whole.len()
    &&& whole.subrange(whole.len() - e.len(), whole.len() as int) == e
}

/// Whether a match survives the exclusions: none of them drops it.
pub open spec fn not_excluded(whole: Seq<char>, unit: Seq<char>, exclusions: Seq<Seq<char>>) -> bool {
    forall|j: int| 0 <= j < exclusions.len() ==> !excludes(#[trigger] exclusions[j], whole, unit)
}

/// The (quantity, unit) pairs of the matches that survive the exclusions.
pub open spec fn kept_requests(
    caps: Seq<(Seq<char>, Seq<char>, Seq<char>)>,
    exclusions: Seq<Seq<char>>,
) -> Seq<(Seq<char>, Seq<char>)>
    decreases caps.len(),
{
    if caps.len() == 0 {
        seq![]
    } else {
        let rest = kept_requests(caps.drop_last(), exclusions);
        let c = caps.last();
        if not_excluded(c.0, c.2, exclusions) {
            rest.push((c.1, c.2))
        } else {
            rest
        }
    }
}

/// The text the unit conversion action reads: the lower case of the body,
/// or of the cleaned formatted body where there is one; none where the
/// cleaned formatted body holds no match.
pub open spec fn conversion_source(body: Seq<char>, formatted: Option<Seq<char>>) -> Option<Seq<char>> {
    match formatted {
        Some(f) => if find_conversion(cleaned(f), 0) is Some {
            Some(lowercased(cleaned(f)))
        } else {
            None
        },
        None => Some(lowercased(body)),
    }
}

/// The (quantity, unit) pairs that the commandless unit conversion asks for.
pub open spec fn unit_requests(
    body: Seq<char>,
    formatted: Option<Seq<char>>,
    exclusions: Seq<Seq<char>>,
) -> Seq<(Seq<char>, Seq<char>)> {
    match conversion_source(body, formatted) {
        Some(t) => kept_requests(conversions(t), exclusions),
        None => seq![],
    }
}

/// Whether the exclusion `e` drops the match `whole` with unit `unit`.
fn excludes_exec(e: &str, whole: &str, unit: &str) -> (b: bool)
    ensures
        b == excludes(e@, whole@, unit@),
{
    let ec = to_chars(e);
    let wc = to_chars(whole);
    let uc = to_chars(unit);
    if ec.len() == 0 || ec.len() - 1 != uc.len() || ec.len() > wc.len() || ec[0] != ' ' {
        proof {
            if e@ == seq![' '] + unit@ {
                assert(e@[0] == ' ');
            }
        }
        return false;
    }
    let mut k: usize = 0;
    while k < uc.len()
        invariant
            k <= uc@.len(),
            ec@.len() == uc@.len() + 1,
            ec@ == e@,
            uc@ == unit@,
            forall|x: int| 0 <= x < k ==> ec@[x + 1] == uc@[x],
        decreases uc@.len() - k,
    {
        if ec[k + 1] != uc[k] {
            proof {
                assert((seq![' '] + unit@)[k + 1] == unit@[k as int]);
            }
            return false;
        }
        k = k + 1;
    }
    assert(e@ =~= seq![' '] + unit@);
    let start: usize = wc.len() - ec.len();
    let mut k: usize = 0;
    while k < ec.len()
        invariant
            k <= ec@.len(),
            start + ec@.len() == wc@.len(),
            wc@.len() <= usize::MAX,
            ec@ == e@,
            wc@ == whole@,
            forall|x: int| 0 <= x < k ==> wc@[start + x] == ec@[x],
        decreases ec@.len() - k,
    {
        if wc[start + k] != ec[k] {
            proof {
                assert(whole@.subrange(start as int, whole@.len() as int)[k as int] == wc@[start + k]);
            }
            return false;
        }
        k = k + 1;
    }
    assert(whole@.subrange(whole@.len() - e@.len(), whole@.len() as int) =~= e@);
    true
}

/// Whether none of `exclusions` drops the match `whole` with unit `unit`.
fn not_excluded_exec(whole: &str, unit: &str, exclusions: &Vec<String>) -> (b: bool)
    ensures
        b == not_excluded(whole@, unit@, strs_view(exclusions@)),
{
    let mut i: usize = 0;
    while i < exclusions.len()
        invariant
            i <= exclusions@.len(),
            forall|j: int| 0 <= j < i ==> !excludes(#[trigger] strs_view(exclusions@)[j], whole@, unit@),
        decreases exclusions@.len() - i,
    {
        if excludes_exec(exclusions[i].as_str(), whole, unit) {
            assert(excludes(strs_view(exclusions@)[i as int], whole@, unit@));
            return false;
        }
        i = i + 1;
    }
    true
}

/// The quantities and units that a commandless message asks to convert,
/// in order: the matches of the quantity grammar in the lower case text,
/// without those whose unit is excluded and stands one space after the
/// number.
pub fn unit_conversion_requests(body: &str, formatted: Option<&str>, exclusions: &Vec<String>) -> (r: Vec<(String, String)>)
    ensures
        pairs_view(r@) == unit_requests(body@, match formatted {
            Some(f) => Some(f@),
            None => None,
        }, strs_view(exclusions@)),
{
    let source = match formatted {
        Some(f) => {
            let clean = clean_text(f);
            if unit_conversion_is_match(clean.as_str()) {
                Some(to_lowercase(clean.as_str()))
            } else {
                None
            }
        },
        None => Some(to_lowercase(body)),
    };
    let mut out: Vec<(String, String)> = Vec::new();
    match source {
        None => {
            assert(pairs_view(out@) =~= seq![]);
            out
        },
        Some(t) => {
            let caps = unit_conversion_captures(t.as_str());
            let ghost cv = caps@.map_values(|c: UnitConversionCapture| c.view());
            let mut i: usize = 0;
            while i < caps.len()
                invariant
                    i <= caps@.len(),
                    cv == caps@.map_values(|c: UnitConversionCapture| c.view()),
                    pairs_view(out@) == kept_requests(cv.take(i as int), strs_view(exclusions@)),
                decreases caps@.len() - i,
            {
                let c = &caps[i];
                proof {
                    assert(cv.take(i + 1).drop_last() =~= cv.take(i as int));
                    assert(cv.take(i + 1).last() == c.view());
                }
                if not_excluded_exec(c.whole.as_str(), c.unit.as_str(), exclusions) {
                    let item = (c.quantity.clone(), c.unit.clone());
                    let ghost prev = out@;
                    out.push(item);
                    proof {
                        assert(out@ =~= prev.push(item));
                        assert(pairs_view(out@) =~= pairs_view(prev).push((c.quantity@, c.unit@)));
                    }
                }
                i = i + 1;
            }
            assert(cv.take(i as int) =~= cv);
            out
        },
    }
}

/// The unit that a unit converts to, for the units the bot knows.
pub open spec fn conversion_target(unit: Seq<char>) -> Option<Seq<char>> {
    if unit == "cm"@ {
        Some("in"@)
    } else if unit == "m"@ {
        Some("ft"@)
    } else if unit == "km"@ {
        Some("mi"@)
    } else if unit == "in"@ {
        Some("cm"@)
    } else if unit == "ft"@ {
        Some("m"@)
    } else if unit == "mi"@ || unit == "mile"@ || unit == "miles"@ {
        Some("km"@)
    } else if unit == "c"@ {
        Some("f"@)
    } else if unit == "°c"@ {
        Some("°f"@)
    } else if unit == "f"@ {
        Some("c"@)
    } else if unit == "°f"@ {
        Some("°c"@)
    } else if unit == "kg"@ {
        Some("lbs"@)
    } else if unit == "lbs"@ {
        Some("kg"@)
    } else if unit == "km/h"@ || unit == "kmh"@ || unit == "kph"@ || unit == "kmph"@ {
        Some("mph"@)
    } else if unit == "mph"@ {
        Some("km/h"@)
    } else {
        None
    }
}

/// The unit that `unit` converts to; none for a unit the bot does not know.
pub fn unit_target(unit: &str) -> (r: Option<String>)
    ensures
        match conversion_target(unit@) {
            Some(t) => r matches Some(s) && s@ == t,
            None => r is None,
        },
{
    if str_eq(unit, "cm") {
        Some(String::from_str("in"))
    } else if str_eq(unit, "m") {
        Some(String::from_str("ft"))
    } else if str_eq(unit, "km") {
        Some(String::from_str("mi"))
    } else if str_eq(unit, "in") {
        Some(String::from_str("cm"))
    } else if str_eq(unit, "ft") {
        Some(String::from_str("m"))
    } else if str_eq(unit, "mi") || str_eq(unit, "mile") || str_eq(unit, "miles") {
        Some(String::from_str("km"))
    } else if str_eq(unit, "c") {
        Some(String::from_str("f"))
    } else if str_eq(unit, "°c") {
        Some(String::from_str("°f"))
    } else if str_eq(unit, "f") {
        Some(String::from_str("c"))
    } else if str_eq(unit, "°f") {
        Some(String::from_str("°c"))
    } else if str_eq(unit, "kg") {
        Some(String::from_str("lbs"))
    } else if str_eq(unit, "lbs") {
        Some(String::from_str("kg"))
    } else if str_eq(unit, "km/h") || str_eq(unit, "kmh") || str_eq(unit, "kph") || str_eq(unit, "kmph") {
        Some(String::from_str("mph"))
    } else if str_eq(unit, "mph") {
        Some(String::from_str("km/h"))
    } else {
        None
    }
}

// ---------------------------------------------------------------------------
// GitHub searches
/// Whether `s` is made of ASCII digits only.
pub open spec fn all_digits(s: Seq<char>) -> bool {
    forall|i: int| 0 <= i < s.len() ==> is_digit(#[trigger] s[i])
}

/// The number that the digits of `s` write in decimal.
pub open spec fn decimal_value(s: Seq<char>) -> int
    decreases s.len(),
{
    if s.len() == 0 {
        0
    } else {
        decimal_value(s.drop_last()) * 10 + (s.last() as int - '0' as int)
    }
}

/// A prefix of digits writes no more than the whole.
proof fn lemma_decimal_prefix(s: Seq<char>, k: int)
    requires
        0 <= k <= s.len(),
        all_digits(s),
    ensures
        0 <= decimal_value(s.take(k)) <= decimal_value(s),
    decreases s.len() - k,
{
    if k < s.len() {
        lemma_decimal_prefix(s, k + 1);
        assert(s.take(k + 1).drop_last() =~= s.take(k));
        assert(is_digit(s[k]));
    } else {
        assert(s.take(k) =~= s);
        lemma_decimal_nonneg(s);
    }
}

proof fn lemma_decimal_nonneg(s: Seq<char>)
    requires
        all_digits(s),
    ensures
        decimal_value(s) >= 0,
    decreases s.len(),
{
    if s.len() > 0 {
        assert(is_digit(s[s.len() - 1]));
        lemma_decimal_nonneg(s.drop_last());
    }
}

/// Whether `s` is a number that fits in an `i64`: digits only, at least one.
pub open spec fn parses_as_i64(s: Seq<char>) -> bool {
    s.len() > 0 && all_digits(s) && decimal_value(s) <= i64::MAX
}

/// Reads a number written with decimal digits only.
pub fn parse_number(s: &str) -> (r: Option<i64>)
    ensures
        r is Some <==> parses_as_i64(s@),
        r matches Some(v) ==> v == decimal_value(s@),
{
    let v = to_chars(s);
    if v.len() == 0 {
        return None;
    }
    let mut acc: u128 = 0;
    let mut i: usize = 0;
    while i < v.len()
        invariant
            i <= v@.len(),
            v@ == s@,
            all_digits(v@.take(i as int)),
            acc == decimal_value(v@.take(i as int)),
            acc <= i64::MAX,
        decreases v@.len() - i,
    {
        let c = v[i];
        proof {
            assert(v@.take(i + 1).drop_last() =~= v@.take(i as int));
        }
        if !('0' <= c && c <= '9') {
            assert(!is_digit(v@[i as int]));
            return None;
        }
        let d: u128 = (c as u32 - '0' as u32) as u128;
        acc = acc * 10 + d;
        if acc > 9223372036854775807u128 {
            proof {
                assert(all_digits(v@.take(i + 1)));
                if all_digits(v@) {
                    lemma_decimal_prefix(v@, i + 1);
                }
            }
            return None;
        }
        i = i + 1;
    }
    assert(v@.take(i as int) =~= v@);
    Some(acc as i64)
}

/// The position of the first `/` in `s`, or -1.
pub open spec fn slash_position(s: Seq<char>) -> int {
    crate::cleaning::first_occurrence(s, 0, seq!['/'])
}

/// The search that a `repo#number` reference asks for, as (owner,
/// repository, number): the number must fit in an `i64`, the lower case
/// repository name must be configured, and its `owner/repo` must hold a
/// `/`. The repository is what follows the first `/`, without any `/`.
pub open spec fn search_request(
    repos: Seq<(Seq<char>, Seq<char>)>,
    name: Seq<char>,
    number: Seq<char>,
) -> Option<(Seq<char>, Seq<char>, int)> {
    if !parses_as_i64(number) {
        None
    } else {
        match lookup(repos, lowercased(name)) {
            None => None,
            Some(r) => {
                let k = slash_position(r);
                if k < 0 {
                    None
                } else {
                    Some((r.take(k), without_char(r.skip(k), '/'), decimal_value(number)))
                }
            },
        }
    }
}

/// The searches asked for by references, in order.
pub open spec fn search_requests(
    refs: Seq<(Seq<char>, Seq<char>)>,
    repos: Seq<(Seq<char>, Seq<char>)>,
) -> Seq<(Seq<char>, Seq<char>, int)>
    decreases refs.len(),
{
    if refs.len() == 0 {
        seq![]
    } else {
        let rest = search_requests(refs.drop_last(), repos);
        match search_request(repos, refs.last().0, refs.last().1) {
            Some(q) => rest.push(q),
            None => rest,
        }
    }
}

/// The text the GitHub search reads: like `conversion_source`, with the
/// reference grammar.
pub open spec fn search_source(body: Seq<char>, formatted: Option<Seq<char>>) -> Option<Seq<char>> {
    match formatted {
        Some(f) => if github_searches(cleaned(f)).len() > 0 {
            Some(lowercased(cleaned(f)))
        } else {
            None
        },
        None => Some(lowercased(body)),
    }
}

/// The searches a commandless message asks for.
pub open spec fn github_requests(
    body: Seq<char>,
    formatted: Option<Seq<char>>,
    repos: Seq<(Seq<char>, Seq<char>)>,
) -> Seq<(Seq<char>, Seq<char>, int)> {
    match search_source(body, formatted) {
        Some(t) => search_requests(github_searches(t), repos),
        None => seq![],
    }
}

/// The characters of each search.
pub open spec fn searches_view(v: Seq<(String, String, i64)>) -> Seq<(Seq<char>, Seq<char>, int)> {
    v.map_values(|q: (String, String, i64)| (q.0@, q.1@, q.2 as int))
}

fn search_request_exec(repos: &Vec<(String, String)>, name: &str, number: &str) -> (r: Option<(String, String, i64)>)
    ensures
        match search_request(pairs_view(repos@), name@, number@) {
            Some(q) => r matches Some(x) && x.0@ == q.0 && x.1@ == q.1 && x.2 as int == q.2,
            None => r is None,
        },
{
    let n = match parse_number(number) {
        Some(n) => n,
        None => return None,
    };
    let key = to_lowercase(name);
    let r = match lookup_exec(repos, key.as_str()) {
        Some(r) => r,
        None => return None,
    };
    let chars = to_chars(r.as_str());
    let slash: [char; 1] = ['/'];
    let ghost slash_seq = seq!['/'];
    assert(slash@ =~= slash_seq);
    match crate::cleaning::first_occurrence_exec(chars.as_slice(), slash.as_slice()) {
        None => None,
        Some(k) => {
            proof {
                crate::cleaning::lemma_first_occurrence(chars@, 0, slash@);
            }
            let owner = substring(chars.as_slice(), 0, k);
            let rest = substring(chars.as_slice(), k, chars.len());
            let repo = remove_char(rest.as_str(), '/');
            assert(chars@.subrange(0, k as int) =~= chars@.take(k as int));
            assert(chars@.subrange(k as int, chars@.len() as int) =~= chars@.skip(k as int));
            Some((owner, repo, n))
        },
    }
}

/// The searches a commandless message asks for, in order, as (owner,
/// repository, number).
pub fn github_search_requests(body: &str, formatted: Option<&str>, repos: &Vec<(String, String)>) -> (r: Vec<(String, String, i64)>)
    ensures
        searches_view(r@) == github_requests(body@, match formatted {
            Some(f) => Some(f@),
            None => None,
        }, pairs_view(repos@)),
{
    let source = match formatted {
        Some(f) => {
            let clean = clean_text(f);
            let caps = github_search_captures(clean.as_str());
            if caps.len() > 0 {
                Some(to_lowercase(clean.as_str()))
            } else {
                None
            }
        },
        None => Some(to_lowercase(body)),
    };
    let mut out: Vec<(String, String, i64)> = Vec::new();
    match source {
        None => {
            assert(searches_view(out@) =~= seq![]);
            out
        },
        Some(t) => {
            let caps = github_search_captures(t.as_str());
            let ghost cv = caps@.map_values(|c: PairCapture| c.view());
            let mut i: usize = 0;
            while i < caps.len()
                invariant
                    i <= caps@.len(),
                    cv == caps@.map_values(|c: PairCapture| c.view()),
                    searches_view(out@) == search_requests(cv.take(i as int), pairs_view(repos@)),
                decreases caps@.len() - i,
            {
                let c = &caps[i];
                proof {
                    assert(cv.take(i + 1).drop_last() =~= cv.take(i as int));
                    assert(cv.take(i + 1).last() == c.view());
                }
                match search_request_exec(repos, c.first.as_str(), c.second.as_str()) {
                    Some(q) => {
                        let ghost prev = out@;
                        let ghost qv = (q.0@, q.1@, q.2 as int);
                        out.push(q);
                        proof {
                            assert(out@ =~= prev.push(q));
                            assert(searches_view(out@) =~= searches_view(prev).push(qv));
                        }
                    },
                    None => {},
                }
                i = i + 1;
            }
            assert(cv.take(i as int) =~= cv);
            out
        },
    }
}

/// The link to each issue or pull request found: `https://github.com`
/// followed by its resource path.
pub open spec fn github_links(paths: Seq<Seq<char>>) -> Seq<Seq<char>> {
    paths.map_values(|p: Seq<char>| "https://github.com"@ + p)
}

/// Links to the issues and pull requests found, from their resource paths.
pub fn github_result_links(paths: &Vec<String>) -> (r: Vec<String>)
    ensures
        strs_view(r@) == github_links(strs_view(paths@)),
{
    let mut out: Vec<String> = Vec::new();
    let mut i: usize = 0;
    while i < paths.len()
        invariant
            i <= paths@.len(),
            strs_view(out@) == github_links(strs_view(paths@)).take(i as int),
        decreases paths@.len() - i,
    {
        let mut link = String::from_str("https://github.com");
        link.append(paths[i].as_str());
        let ghost prev = out@;
        out.push(link);
        proof {
            assert(out@ =~= prev.push(link));
            assert(strs_view(out@) =~= strs_view(prev).push(link@));
            assert(strs_view(out@) =~= github_links(strs_view(paths@)).take(i + 1));
        }
        i = i + 1;
    }
    assert(github_links(strs_view(paths@)).take(i as int) =~= github_links(strs_view(paths@)));
    out
}

// ---------------------------------------------------------------------------
// Links
/// The text the link action reads: like `conversion_source`, with the link
/// grammar.
pub open spec fn link_source(body: Seq<char>, formatted: Option<Seq<char>>) -> Option<Seq<char>> {
    match formatted {
        Some(f) => if link_requests(cleaned(f)).len() > 0 {
            Some(lowercased(cleaned(f)))
        } else {
            None
        },
        None => Some(lowercased(body)),
    }
}

/// The URLs asked for by `keyword@item` references, in order: the lower
/// case keyword must be a configured one, and the item a configured one.
pub open spec fn link_targets(
    refs: Seq<(Seq<char>, Seq<char>)>,
    linkers: Seq<Seq<char>>,
    links: Seq<(Seq<char>, Seq<char>)>,
) -> Seq<Seq<char>>
    decreases refs.len(),
{
    if refs.len() == 0 {
        seq![]
    } else {
        let rest = link_targets(refs.drop_last(), linkers, links);
        let r = refs.last();
        if linkers.contains(lowercased(r.0)) && lookup(links, r.1) is Some {
            rest.push(lookup(links, r.1)->0)
        } else {
            rest
        }
    }
}

/// The URLs a commandless message asks for.
pub open spec fn link_list(body: Seq<char>, formatted: Option<Seq<char>>, config: MatrixListenerConfig) -> Seq<Seq<char>> {
    match link_source(body, formatted) {
        Some(t) => link_targets(link_requests(t), strs_view(config.linkers@), pairs_view(config.links@)),
        None => seq![],
    }
}

/// The first of `v` that the URL parser rejects.
pub open spec fn first_bad_url(v: Seq<Seq<char>>) -> Option<Seq<char>>
    decreases v.len(),
{
    if v.len() == 0 {
        None
    } else if url_serialization(v[0]) is None {
        Some(v[0])
    } else {
        first_bad_url(v.drop_first())
    }
}

/// Each URL as the URL parser serializes it.
pub open spec fn serialized_urls(v: Seq<Seq<char>>) -> Seq<Seq<char>> {
    v.map_values(|u: Seq<char>| url_serialization(u)->0)
}

/// A link that cannot be put in a reply.
#[derive(Debug)]
pub enum LinkError {
    /// The configured URL is not one that the URL parser accepts.
    InvalidUrl(String),
}

impl LinkError {
    /// The text of the error.
    pub fn message(&self) -> (r: String)
        ensures
            self matches LinkError::InvalidUrl(u) ==> r@ == "Unable to parse result "@ + u@
                + " to Url"@,
    {
        match self {
            LinkError::InvalidUrl(u) => {
                let mut r = String::from_str("Unable to parse result ");
                r.append(u.as_str());
                r.append(" to Url");
                r
            },
        }
    }
}

/// Whether two notices hold the same parts.
pub open spec fn same_notice(a: MatrixNoticeResponse, b: MatrixNoticeResponse) -> bool {
    &&& a.conversions_view() == b.conversions_view()
    &&& a.gh_results_view() == b.gh_results_view()
    &&& a.links_view() == b.links_view()
    &&& a.expanded_view() == b.expanded_view()
}

fn link_targets_exec(caps: &Vec<PairCapture>, config: &MatrixListenerConfig) -> (r: Vec<String>)
    ensures
        strs_view(r@) == link_targets(
            caps@.map_values(|c: PairCapture| c.view()),
            strs_view(config.linkers@),
            pairs_view(config.links@),
        ),
{
    let ghost cv = caps@.map_values(|c: PairCapture| c.view());
    let mut out: Vec<String> = Vec::new();
    let mut i: usize = 0;
    while i < caps.len()
        invariant
            i <= caps@.len(),
            cv == caps@.map_values(|c: PairCapture| c.view()),
            strs_view(out@) == link_targets(cv.take(i as int), strs_view(config.linkers@), pairs_view(config.links@)),
        decreases caps@.len() - i,
    {
        let c = &caps[i];
        proof {
            assert(cv.take(i + 1).drop_last() =~= cv.take(i as int));
            assert(cv.take(i + 1).last() == c.view());
        }
        let kw = to_lowercase(c.first.as_str());
        if contains_string(&config.linkers, kw.as_str()) {
            match lookup_exec(&config.links, c.second.as_str()) {
                Some(v) => {
                    let ghost prev = out@;
                    out.push(v);
                    proof {
                        assert(out@ =~= prev.push(v));
                        assert(strs_view(out@) =~= strs_view(prev).push(v@));
                    }
                },
                None => {},
            }
        }
        i = i + 1;
    }
    assert(cv.take(i as int) =~= cv);
    out
}

/// Puts the links a commandless message asks for into the notice. The
/// notice is left as it was where none is asked for, and where a URL is
/// rejected by the URL parser, which is then the error.
pub fn link_url(
    body: &str,
    formatted: Option<&str>,
    config: &MatrixListenerConfig,
    notice_response: &mut MatrixNoticeResponse,
) -> (r: Result<(), LinkError>)
    ensures
        ({
            let l = link_list(body@, match formatted {
                Some(f) => Some(f@),
                None => None,
            }, *config);
            if l.len() == 0 {
                r is Ok && same_notice(*final(notice_response), *old(notice_response))
            } else {
                match first_bad_url(l) {
                    Some(u) => r matches Err(LinkError::InvalidUrl(x)) && x@ == u
                        && same_notice(*final(notice_response), *old(notice_response)),
                    None => r is Ok && final(notice_response).links_view() == Some(serialized_urls(l))
                        && final(notice_response).conversions_view() == old(notice_response).conversions_view()
                        && final(notice_response).gh_results_view() == old(notice_response).gh_results_view()
                        && final(notice_response).expanded_view() == old(notice_response).expanded_view(),
                }
            }
        }),
{
    let source = match formatted {
        Some(f) => {
            let clean = clean_text(f);
            let caps = link_url_captures(clean.as_str());
            if caps.len() > 0 {
                Some(to_lowercase(clean.as_str()))
            } else {
                None
            }
        },
        None => Some(to_lowercase(body)),
    };
    let links = match source {
        None => {
            return Ok(());
        },
        Some(t) => {
            let caps = link_url_captures(t.as_str());
            link_targets_exec(&caps, config)
        },
    };
    if links.len() == 0 {
        return Ok(());
    }
    let ghost lv = strs_view(links@);
    let ghost fv = match formatted {
        Some(f) => Some(f@),
        None => None,
    };
    assert(lv == link_list(body@, fv, *config));
    let mut results: Vec<String> = Vec::new();
    let mut i: usize = 0;
    assert(lv.skip(0) =~= lv);
    assert(serialized_urls(lv.take(0)) =~= strs_view(results@));
    while i < links.len()
        invariant
            i <= links@.len(),
            lv == strs_view(links@),
            lv == link_list(body@, fv, *config),
            fv == (match formatted {
                Some(f) => Some(f@),
                None => None,
            }),
            *notice_response == *old(notice_response),
            first_bad_url(lv) == first_bad_url(lv.skip(i as int)),
            forall|j: int| 0 <= j < i ==> (#[trigger] url_serialization(lv[j])) is Some,
            strs_view(results@) == serialized_urls(lv.take(i as int)),
        decreases links@.len() - i,
    {
        proof {
            assert(lv.skip(i as int).drop_first() =~= lv.skip(i + 1));
            assert(lv.skip(i as int)[0] == links@[i as int]@);
        }
        match parse_url(links[i].as_str()) {
            Some(u) => {
                let ghost prev = results@;
                results.push(u);
                proof {
                    assert(results@ =~= prev.push(u));
                    assert(strs_view(results@) =~= strs_view(prev).push(u@));
                    assert(strs_view(results@) =~= serialized_urls(lv.take(i + 1)));
                }
            },
            None => {
                assert(first_bad_url(lv.skip(i as int)) == Some(lv[i as int]));
                return Err(LinkError::InvalidUrl(links[i].clone()));
            },
        }
        i = i + 1;
    }
    proof {
        assert(lv.take(i as int) =~= lv);
        assert(lv.skip(i as int) =~= seq![]);
    }
    notice_response.set_links(results);
    Ok(())
}

// ---------------------------------------------------------------------------
// Text expansions
/// The text the expansion action reads, with the `$keyword` grammar.
pub open spec fn expansion_source(body: Seq<char>, formatted: Option<Seq<char>>) -> Option<Seq<char>> {
    match formatted {
        Some(f) => if text_expansions(cleaned(f)).len() > 0 {
            Some(lowercased(cleaned(f)))
        } else {
            None
        },
        None => Some(lowercased(body)),
    }
}

/// The configured texts of the keywords that have one, in order.
pub open spec fn expansion_texts(kws: Seq<Seq<char>>, table: Seq<(Seq<char>, Seq<char>)>) -> Seq<Seq<char>>
    decreases kws.len(),
{
    if kws.len() == 0 {
        seq![]
    } else {
        let rest = expansion_texts(kws.drop_last(), table);
        match lookup(table, kws.last()) {
            Some(v) => rest.push(v),
            None => rest,
        }
    }
}

/// The texts a commandless message asks to expand.
pub open spec fn expansion_list(body: Seq<char>, formatted: Option<Seq<char>>, config: MatrixListenerConfig) -> Seq<Seq<char>> {
    match expansion_source(body, formatted) {
        Some(t) => expansion_texts(text_expansions(t), pairs_view(config.text_expansions@)),
        None => seq![],
    }
}

/// Puts the texts a commandless message asks to expand into the notice,
/// unless there are none.
pub fn text_expansion(
    body: &str,
    formatted: Option<&str>,
    config: &MatrixListenerConfig,
    notice_response: &mut MatrixNoticeResponse,
)
    ensures
        ({
            let l = expansion_list(body@, match formatted {
                Some(f) => Some(f@),
                None => None,
            }, *config);
            if l.len() == 0 {
                same_notice(*final(notice_response), *old(notice_response))
            } else {
                &&& final(notice_response).expanded_view() == Some(l)
                &&& final(notice_response).conversions_view() == old(notice_response).conversions_view()
                &&& final(notice_response).gh_results_view() == old(notice_response).gh_results_view()
                &&& final(notice_response).links_view() == old(notice_response).links_view()
            }
        }),
{
    let source = match formatted {
        Some(f) => {
            let clean = clean_text(f);
            let kws = text_expansion_captures(clean.as_str());
            if kws.len() > 0 {
                Some(to_lowercase(clean.as_str()))
            } else {
                None
            }
        },
        None => Some(to_lowercase(body)),
    };
    let t = match source {
        None => return,
        Some(t) => t,
    };
    let kws = text_expansion_captures(t.as_str());
    let ghost kv = strs_view(kws@);
    assert(kv == kws@.map_values(|w: String| w@));
    let mut out: Vec<String> = Vec::new();
    let mut i: usize = 0;
    while i < kws.len()
        invariant
            i <= kws@.len(),
            kv == strs_view(kws@),
            strs_view(out@) == expansion_texts(kv.take(i as int), pairs_view(config.text_expansions@)),
        decreases kws@.len() - i,
    {
        proof {
            assert(kv.take(i + 1).drop_last() =~= kv.take(i as int));
        }
        match lookup_exec(&config.text_expansions, kws[i].as_str()) {
            Some(v) => {
                let ghost prev = out@;
                out.push(v);
                proof {
                    assert(out@ =~= prev.push(v));
                    assert(strs_view(out@) =~= strs_view(prev).push(v@));
                }
            },
            None => {},
        }
        i = i + 1;
    }
    assert(kv.take(i as int) =~= kv);
    if out.len() > 0 {
        notice_response.set_expanded_text(out);
    }
}

// ---------------------------------------------------------------------------
// Group pings
/// The text the group ping action reads, with the `%group` grammar.
pub open spec fn ping_source(body: Seq<char>, formatted: Option<Seq<char>>) -> Option<Seq<char>> {
    match formatted {
        Some(f) => if group_pings(cleaned(f)).len() > 0 {
            Some(lowercased(cleaned(f)))
        } else {
            None
        },
        None => Some(lowercased(body)),
    }
}

/// The users of the first group named `name`.
pub open spec fn group_members(groups: Seq<(Seq<char>, Seq<Seq<char>>)>, name: Seq<char>) -> Option<Seq<Seq<char>>>
    decreases groups.len(),
{
    if groups.len() == 0 {
        None
    } else if groups[0].0 == name {
        Some(groups[0].1)
    } else {
        group_members(groups.drop_first(), name)
    }
}

/// `acc` with the users of each named group, from position `i` on, added.
pub open spec fn pinged_from(
    acc: Seq<Seq<char>>,
    names: Seq<Seq<char>>,
    groups: Seq<(Seq<char>, Seq<Seq<char>>)>,
    i: int,
) -> Seq<Seq<char>>
    decreases names.len() - i,
{
    if i < 0 || i >= names.len() {
        acc
    } else {
        match group_members(groups, names[i]) {
            Some(us) => pinged_from(inserted_from(acc, us, 0), names, groups, i + 1),
            None => pinged_from(acc, names, groups, i + 1),
        }
    }
}

/// The users a commandless message pings, before the sender is taken out.
pub open spec fn ping_list(body: Seq<char>, formatted: Option<Seq<char>>, config: MatrixListenerConfig) -> Seq<Seq<char>> {
    match ping_source(body, formatted) {
        Some(t) => pinged_from(seq![], group_pings(t), groups_view(config.group_pings@), 0),
        None => seq![],
    }
}

/// `s` without `x`, where `x` occurs at most once.
pub open spec fn without_member(s: Seq<Seq<char>>, x: Seq<char>) -> Seq<Seq<char>> {
    if s.contains(x) {
        s.remove(s.index_of(x))
    } else {
        s
    }
}

/// The users of the group named `name`, added to `set`.
fn add_group(set: &mut UserSet, groups: &Vec<(String, UserSet)>, name: &str)
    ensures
        final(set)@ == match group_members(groups_view(groups@), name@) {
            Some(us) => inserted_from(old(set)@, us, 0),
            None => old(set)@,
        },
{
    let ghost gv = groups_view(groups@);
    let mut g: usize = 0;
    assert(gv.skip(0) =~= gv);
    while g < groups.len()
        invariant
            g <= groups@.len(),
            gv == groups_view(groups@),
            group_members(gv, name@) == group_members(gv.skip(g as int), name@),
            *set == *old(set),
        decreases groups@.len() - g,
    {
        proof {
            assert(gv.skip(g as int).drop_first() =~= gv.skip(g + 1));
            assert(gv.skip(g as int)[0] == (groups@[g as int].0@, groups@[g as int].1@));
        }
        if str_eq(groups[g].0.as_str(), name) {
            let us = &groups[g].1;
            let ghost start = set@;
            let n = us.len();
            let mut i: usize = 0;
            while i < n
                invariant
                    n == us@.len(),
                    i <= n,
                    inserted_from(start, us@, 0) == inserted_from(set@, us@, i as int),
                decreases n - i,
            {
                let u = us.get(i).duplicate();
                set.insert(u);
                i = i + 1;
            }
            return;
        }
        g = g + 1;
    }
}

/// Pings the groups a commandless message names, where the sender may
/// ping: the users of every named group, without the sender unless the
/// sender is the only one. The reply is left as it was where the sender
/// may not ping or nobody is pinged.
pub fn group_ping(
    body: &str,
    formatted: Option<&str>,
    sender: &UserId,
    config: &MatrixListenerConfig,
    text_response: &mut MatrixFormattedTextResponse,
)
    ensures
        ({
            let l = ping_list(body@, match formatted {
                Some(f) => Some(f@),
                None => None,
            }, *config);
            if !config.group_ping_users@.contains(sender@) || l.len() == 0 {
                final(text_response).users_view() == old(text_response).users_view()
            } else if l.len() == 1 {
                final(text_response).users_view() == Some(l)
            } else {
                final(text_response).users_view() == Some(without_member(l, sender@))
            }
        }),
{
    if !config.group_ping_users.contains(sender) {
        return;
    }
    let source = match formatted {
        Some(f) => {
            let clean = clean_text(f);
            let names = group_ping_captures(clean.as_str());
            if names.len() > 0 {
                Some(to_lowercase(clean.as_str()))
            } else {
                None
            }
        },
        None => Some(to_lowercase(body)),
    };
    let t = match source {
        None => return,
        Some(t) => t,
    };
    let names = group_ping_captures(t.as_str());
    let ghost nv = strs_view(names@);
    assert(nv == names@.map_values(|w: String| w@));
    let mut users = UserSet::new();
    let mut i: usize = 0;
    while i < names.len()
        invariant
            i <= names@.len(),
            nv == strs_view(names@),
            pinged_from(seq![], nv, groups_view(config.group_pings@), 0) == pinged_from(
                users@,
                nv,
                groups_view(config.group_pings@),
                i as int,
            ),
        decreases names@.len() - i,
    {
        add_group(&mut users, &config.group_pings, names[i].as_str());
        i = i + 1;
    }
    let n = users.len();
    if n == 0 {
        return;
    }
    if n != 1 {
        let ghost before = users@;
        users.remove(sender);
        proof {
            if before.contains(sender@) {
                let k = choose|k: int| 0 <= k < before.len() && before[k] == sender@ && users@ == before.remove(k);
                let j = before.index_of(sender@);
                assert(0 <= j < before.len() && before[j] == sender@);
                assert(j == k);
            }
        }
    }
    text_response.set_users(users);
}

} // verus!
