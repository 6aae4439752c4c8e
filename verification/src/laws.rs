//! Properties of the library that span several functions or hold of every
//! input, proved over the specifications the functions are verified
//! against.
use vstd::prelude::*;
use crate::commandless::{
    all_digits, conversion_target, decimal_value, group_members, link_targets, lookup, parses_as_i64, ping_list,
    ping_source, pinged_from, search_request, without_member,
};
use crate::cleaning::{first_occurrence, occurs_at};
use crate::config::groups_view;
use crate::mentions::group_pings;
use crate::config::{
    expand_members, find_group, group_users_from, inserted_from, names_group, names_user,
    users_from,
};
use crate::help::{ascii_lower, ascii_lowercase, help_page, help_type_of, lemma_page_titles, insert_pos, le_from, sorted_names, str_le};
use crate::quantity::{conversions, conversions_from, find_conversion};
use crate::response::{
    notice_text_of, with_conversions, with_expanded, with_gh_results, with_inserted, with_links,
    NoticeParts,
};
use crate::spelling::{correction_for, SpellCheckKind};
use crate::storage::{correction_time_of, decimal_text, digit_char, elapsed_allows};
use crate::listener::{has_prefix, route_lower, text_route, TextRoute};
use crate::text::{distinct, lines, lowercased, split_fields, trimmed, starts_with_char, strs_view, pairs_view, without_char};

verus! {

// ---------------------------------------------------------------------------
// Fields
/// The fields joined again with the separator between them.
pub open spec fn join_fields(fs: Seq<Seq<char>>, c: char) -> Seq<char>
    decreases fs.len(),
{
    if fs.len() == 0 {
        seq![]
    } else if fs.len() == 1 {
        fs[0]
    } else {
        join_fields(fs.drop_last(), c) + seq![c] + fs.last()
    }
}

proof fn lemma_split_nonempty(s: Seq<char>, c: char)
    ensures
        split_fields(s, c).len() >= 1,
    decreases s.len(),
{
    if s.len() > 0 {
        lemma_split_nonempty(s.drop_last(), c);
    }
}

/// Splitting a text at a separator and joining the fields with it gives
/// the text back: the fields `!help` and `!ban` read are exactly the
/// pieces of the message between its separators.
pub proof fn law_split_join(s: Seq<char>, c: char)
    ensures
        join_fields(split_fields(s, c), c) == s,
    decreases s.len(),
{
    if s.len() > 0 {
        let t = s.drop_last();
        law_split_join(t, c);
        lemma_split_nonempty(t, c);
        let f = split_fields(t, c);
        if s.last() == c {
            assert(f.push(seq![]).drop_last() =~= f);
            assert(join_fields(f.push(seq![]), c) =~= join_fields(f, c) + seq![c]);
            assert(t.push(c) =~= s);
        } else {
            let g = f.update(f.len() - 1, f.last().push(s.last()));
            if f.len() == 1 {
                assert(join_fields(g, c) == f[0].push(s.last()));
            } else {
                assert(g.drop_last() =~= f.drop_last());
                assert(join_fields(g, c) =~= join_fields(f, c).push(s.last()));
            }
            assert(t.push(s.last()) =~= s);
        }
    }
}

// ---------------------------------------------------------------------------
// Transaction ids
proof fn lemma_digit(k: int)
    requires
        0 <= k < 10,
    ensures
        '0' <= digit_char(k) <= '9',
        digit_char(k) as int - '0' as int == k,
{
}

/// Reading back the decimal writing of a number gives the number: the
/// transaction ids are the counter's values, written in digits.
pub proof fn law_decimal_round_trip(n: nat)
    ensures
        all_digits(decimal_text(n)),
        decimal_value(decimal_text(n)) == n,
    decreases n,
{
    if n < 10 {
        lemma_digit(n as int);
        let e: Seq<char> = seq![];
        assert(decimal_value(e) == 0);
        assert(decimal_text(n).drop_last() =~= e);
    } else {
        law_decimal_round_trip(n / 10);
        lemma_digit((n % 10) as int);
        let t = decimal_text(n / 10);
        let d = digit_char((n % 10) as int);
        assert((t + seq![d]).drop_last() =~= t);
        assert(decimal_value(t + seq![d]) == decimal_value(t) * 10 + (d as int - '0' as int));
        let w = t + seq![d];
        assert forall|i: int| 0 <= i < w.len() implies crate::chars::is_digit(#[trigger] w[i]) by {
            if i < t.len() {
                assert(w[i] == t[i]);
            }
        }
        assert((n / 10) * 10 + n % 10 == n) by (nonlinear_arith);
        assert(decimal_text(n) == w);
    }
}

/// Two different counter values never give the same transaction id.
pub proof fn law_txn_ids_distinct(a: u64, b: u64)
    requires
        a != b,
    ensures
        decimal_text(a as nat) != decimal_text(b as nat),
{
    law_decimal_round_trip(a as nat);
    law_decimal_round_trip(b as nat);
}

// ---------------------------------------------------------------------------
// Unit conversions
/// The quantity grammar matches a text exactly when it finds at least one
/// quantity to convert in it.
pub proof fn law_match_iff_captures(s: Seq<char>)
    ensures
        (find_conversion(s, 0) is Some) <==> conversions(s).len() > 0,
{
    if find_conversion(s, 0) is Some {
        assert(conversions_from(s, 0).len() >= 1);
    }
}

// ---------------------------------------------------------------------------
// Help
proof fn lemma_ascii_lower_idempotent(c: char)
    ensures
        ascii_lower(ascii_lower(c)) == ascii_lower(c),
{
}

/// The help pages do not depend on ASCII case: a word and its lower case
/// name the same page.
pub proof fn law_help_type_ignores_case(s: Seq<char>)
    ensures
        help_type_of(ascii_lowercase(s)) == help_type_of(s),
{
    assert forall|i: int| 0 <= i < s.len() implies #[trigger] ascii_lowercase(ascii_lowercase(s))[i]
        == ascii_lowercase(s)[i] by {
        lemma_ascii_lower_idempotent(s[i]);
    }
    assert(ascii_lowercase(ascii_lowercase(s)) =~= ascii_lowercase(s));
}

// ---------------------------------------------------------------------------
// Sets of users
/// Adding a user to a set makes it a member, adds nothing else, and adding
/// it again changes nothing.
pub proof fn law_insert(s: Seq<Seq<char>>, x: Seq<char>, y: Seq<char>)
    ensures
        with_inserted(s, x).contains(x),
        with_inserted(s, x).contains(y) <==> (s.contains(y) || y == x),
        with_inserted(with_inserted(s, x), x) == with_inserted(s, x),
        s.no_duplicates() ==> with_inserted(s, x).no_duplicates(),
{
    if !s.contains(x) {
        let t = s.push(x);
        assert(t[s.len() as int] == x);
        if s.contains(y) {
            let k = choose|k: int| 0 <= k < s.len() && s[k] == y;
            assert(t[k] == y);
        }
        if t.contains(y) && y != x {
            let k = choose|k: int| 0 <= k < t.len() && t[k] == y;
            assert(k < s.len());
            assert(s[k] == y);
        }
        if s.no_duplicates() {
            assert forall|a: int, b: int| 0 <= a < b < t.len() implies t[a] != t[b] by {
                if b == s.len() {
                    assert(t[a] == s[a]);
                }
            }
        }
    }
}

proof fn lemma_inserted_from(acc: Seq<Seq<char>>, v: Seq<Seq<char>>, i: int, y: Seq<char>)
    requires
        0 <= i,
    ensures
        acc.no_duplicates() ==> inserted_from(acc, v, i).no_duplicates(),
        inserted_from(acc, v, i).contains(y) <==> (acc.contains(y) || exists|j: int|
            i <= j < v.len() && v[j] == y),
    decreases v.len() - i,
{
    if i < v.len() {
        law_insert(acc, v[i], y);
        lemma_inserted_from(with_inserted(acc, v[i]), v, i + 1, y);
        if exists|j: int| i <= j < v.len() && v[j] == y {
            let j = choose|j: int| i <= j < v.len() && v[j] == y;
            if j > i {
                assert(exists|j2: int| i + 1 <= j2 < v.len() && v[j2] == y);
            }
        }
        if exists|j: int| i + 1 <= j < v.len() && v[j] == y {
            let j = choose|j: int| i + 1 <= j < v.len() && v[j] == y;
            assert(i <= j < v.len() && v[j] == y);
        }
    }
}

proof fn lemma_pinged_from_unique(
    acc: Seq<Seq<char>>,
    names: Seq<Seq<char>>,
    groups: Seq<(Seq<char>, Seq<Seq<char>>)>,
    i: int,
)
    requires
        0 <= i,
        acc.no_duplicates(),
    ensures
        pinged_from(acc, names, groups, i).no_duplicates(),
    decreases names.len() - i,
{
    if i < names.len() {
        match crate::commandless::group_members(groups, names[i]) {
            Some(us) => {
                lemma_inserted_from(acc, us, 0, seq![]);
                lemma_pinged_from_unique(inserted_from(acc, us, 0), names, groups, i + 1);
            },
            None => {
                lemma_pinged_from_unique(acc, names, groups, i + 1);
            },
        }
    }
}

/// The users pinged for a message never include one user twice; and where
/// more than one user is pinged, the sender is taken out: the sender is
/// pinged only when nobody else is.
pub proof fn law_sender_not_pinged(
    body: Seq<char>,
    formatted: Option<Seq<char>>,
    sender: Seq<char>,
    config: crate::config::MatrixListenerConfig,
)
    ensures
        ping_list(body, formatted, config).no_duplicates(),
        ping_list(body, formatted, config).len() > 1 ==> !without_member(
            ping_list(body, formatted, config),
            sender,
        ).contains(sender),
{
    let l = ping_list(body, formatted, config);
    match crate::commandless::ping_source(body, formatted) {
        Some(t) => {
            lemma_pinged_from_unique(
                seq![],
                crate::mentions::group_pings(t),
                crate::config::groups_view(config.group_pings@),
                0,
            );
        },
        None => {},
    }
    if l.len() > 1 && l.contains(sender) {
        let k = l.index_of(sender);
        let r = l.remove(k);
        if r.contains(sender) {
            let j = choose|j: int| 0 <= j < r.len() && r[j] == sender;
            if j < k {
                assert(r[j] == l[j]);
            } else {
                assert(r[j] == l[j + 1]);
            }
        }
    }
}

// ---------------------------------------------------------------------------
// Group ping settings
proof fn lemma_users_from(acc: Seq<Seq<char>>, ms: Seq<Seq<char>>, i: int, u: Seq<char>)
    requires
        0 <= i,
    ensures
        users_from(acc, ms, i).contains(u) <==> (acc.contains(u) || exists|j: int|
            i <= j < ms.len() && ms[j] == u && names_user(u)),
    decreases ms.len() - i,
{
    if i < ms.len() {
        if names_user(ms[i]) {
            law_insert(acc, ms[i], u);
            lemma_users_from(with_inserted(acc, ms[i]), ms, i + 1, u);
        } else {
            lemma_users_from(acc, ms, i + 1, u);
        }
        if exists|j: int| i <= j < ms.len() && ms[j] == u && names_user(u) {
            let j = choose|j: int| i <= j < ms.len() && ms[j] == u && names_user(u);
            if j > i {
                assert(exists|j2: int| i + 1 <= j2 < ms.len() && ms[j2] == u && names_user(u));
            }
        }
        if exists|j: int| i + 1 <= j < ms.len() && ms[j] == u && names_user(u) {
            let j = choose|j: int| i + 1 <= j < ms.len() && ms[j] == u && names_user(u);
            assert(i <= j < ms.len() && ms[j] == u);
        }
    }
}

/// The users allowed to ping groups are exactly the members of the
/// configured groups that name users (start with `@`).
pub proof fn law_group_ping_users(
    acc: Seq<Seq<char>>,
    gs: Seq<(Seq<char>, Seq<Seq<char>>)>,
    g: int,
    u: Seq<char>,
)
    requires
        0 <= g,
    ensures
        group_users_from(acc, gs, g).contains(u) <==> (acc.contains(u) || exists|h: int, j: int|
            g <= h < gs.len() && 0 <= j < gs[h].1.len() && gs[h].1[j] == u && names_user(u)),
    decreases gs.len() - g,
{
    if g < gs.len() {
        lemma_users_from(acc, gs[g].1, 0, u);
        law_group_ping_users(users_from(acc, gs[g].1, 0), gs, g + 1, u);
        if exists|h: int, j: int|
            g <= h < gs.len() && 0 <= j < gs[h].1.len() && gs[h].1[j] == u && names_user(u) {
            let (h, j) = choose|h: int, j: int|
                g <= h < gs.len() && 0 <= j < gs[h].1.len() && gs[h].1[j] == u && names_user(u);
            if h == g {
                assert(exists|j2: int| 0 <= j2 < gs[g].1.len() && gs[g].1[j2] == u && names_user(u));
            } else {
                assert(exists|h2: int, j2: int|
                    g + 1 <= h2 < gs.len() && 0 <= j2 < gs[h2].1.len() && gs[h2].1[j2] == u
                        && names_user(u));
            }
        }
        if exists|j: int| 0 <= j < gs[g].1.len() && gs[g].1[j] == u && names_user(u) {
            let j = choose|j: int| 0 <= j < gs[g].1.len() && gs[g].1[j] == u && names_user(u);
            assert(g <= g < gs.len() && 0 <= j < gs[g].1.len() && gs[g].1[j] == u);
        }
        if exists|h: int, j: int|
            g + 1 <= h < gs.len() && 0 <= j < gs[h].1.len() && gs[h].1[j] == u && names_user(u) {
            let (h, j) = choose|h: int, j: int|
                g + 1 <= h < gs.len() && 0 <= j < gs[h].1.len() && gs[h].1[j] == u && names_user(u);
            assert(g <= h < gs.len() && 0 <= j < gs[h].1.len() && gs[h].1[j] == u);
        }
    }
}

// ---------------------------------------------------------------------------
// Corrections
/// A correction is only ever made for a misspelling that the message holds.
pub proof fn law_correction_needs_misspelling(
    spellings: Seq<SpellCheckKind>,
    k: int,
    body: Seq<char>,
    text: Seq<char>,
    user: Seq<char>,
)
    ensures
        correction_for(spellings, k, body, text, user).len() > 0 ==> exists|i: int|
            0 <= i < k && #[trigger] spellings[i].found_in(body),
    decreases k,
{
    if k > 0 && !spellings[k - 1].found_in(body) {
        law_correction_needs_misspelling(spellings, k - 1, body, text, user);
        if correction_for(spellings, k - 1, body, text, user).len() > 0 {
            let i = choose|i: int| 0 <= i < k - 1 && #[trigger] spellings[i].found_in(body);
            assert(0 <= i < k);
        }
    } else if k > 0 {
        assert(spellings[k - 1].found_in(body));
    }
}

// ---------------------------------------------------------------------------
// Sorted listings
proof fn lemma_le_total(a: Seq<char>, b: Seq<char>, i: int)
    requires
        0 <= i,
    ensures
        le_from(a, b, i) || le_from(b, a, i),
    decreases a.len() - i,
{
    if i < a.len() && i < b.len() && a[i] == b[i] {
        lemma_le_total(a, b, i + 1);
    }
}

proof fn lemma_le_transitive(a: Seq<char>, b: Seq<char>, c: Seq<char>, i: int)
    requires
        0 <= i,
        le_from(a, b, i),
        le_from(b, c, i),
    ensures
        le_from(a, c, i),
    decreases a.len() - i,
{
    if i < a.len() && i < b.len() && i < c.len() && a[i] == b[i] && b[i] == c[i] {
        lemma_le_transitive(a, b, c, i + 1);
    }
}

/// Whether `s` is in the order of strings.
pub open spec fn is_sorted(s: Seq<Seq<char>>) -> bool {
    forall|i: int, j: int| 0 <= i < j < s.len() ==> str_le(#[trigger] s[i], #[trigger] s[j])
}

proof fn lemma_insert_pos_facts(s: Seq<Seq<char>>, x: Seq<char>, j: int)
    requires
        0 <= j <= s.len(),
    ensures
        j <= insert_pos(s, x, j) <= s.len(),
        forall|k: int| j <= k < insert_pos(s, x, j) ==> !str_le(x, #[trigger] s[k]),
        insert_pos(s, x, j) < s.len() ==> str_le(x, s[insert_pos(s, x, j)]),
    decreases s.len() - j,
{
    if j < s.len() && !str_le(x, s[j]) {
        lemma_insert_pos_facts(s, x, j + 1);
    }
}

proof fn lemma_insert_sorted(s: Seq<Seq<char>>, x: Seq<char>)
    requires
        is_sorted(s),
    ensures
        is_sorted(s.insert(insert_pos(s, x, 0), x)),
        s.insert(insert_pos(s, x, 0), x).to_multiset() =~= s.to_multiset().insert(x),
{
    let p = insert_pos(s, x, 0);
    lemma_insert_pos_facts(s, x, 0);
    let t = s.insert(p, x);
    assert forall|i: int, j: int| 0 <= i < j < t.len() implies str_le(#[trigger] t[i], #[trigger] t[j]) by {
        if j < p {
            assert(t[i] == s[i] && t[j] == s[j]);
        } else if j == p {
            assert(t[i] == s[i] && t[j] == x);
            assert(!str_le(x, s[i]));
            lemma_le_total(s[i], x, 0);
        } else if i < p {
            assert(t[i] == s[i] && t[j] == s[j - 1]);
        } else if i == p {
            assert(t[i] == x && t[j] == s[j - 1]);
            if j - 1 > p {
                assert(str_le(s[p], s[j - 1]));
                lemma_le_transitive(x, s[p], s[j - 1], 0);
            }
        } else {
            assert(t[i] == s[i - 1] && t[j] == s[j - 1]);
        }
    }
    let a = s.subrange(0, p);
    let b = s.subrange(p, s.len() as int);
    assert(s =~= a + b);
    assert(t =~= a.push(x) + b);
    vstd::seq_lib::lemma_multiset_commutative(a.push(x), b);
    vstd::seq_lib::lemma_multiset_commutative(a, b);
    vstd::seq_lib::to_multiset_build(a, x);
    broadcast use vstd::multiset::group_multiset_axioms;
}

/// The listings of the help pages are sorted, and hold each configured
/// name as often as it is configured.
pub proof fn law_listing_sorted(v: Seq<Seq<char>>)
    ensures
        is_sorted(sorted_names(v)),
        sorted_names(v).to_multiset() =~= v.to_multiset(),
    decreases v.len(),
{
    if v.len() == 0 {
        assert(sorted_names(v) =~= Seq::<Seq<char>>::empty());
        assert(v =~= Seq::<Seq<char>>::empty());
    } else {
        law_listing_sorted(v.drop_last());
        lemma_insert_sorted(sorted_names(v.drop_last()), v.last());
        v.lemma_add_last_back();
        vstd::seq_lib::to_multiset_build(v.drop_last(), v.last());
    }
}

// ---------------------------------------------------------------------------
// Correction cooldown
/// Once a correction in a room is recorded at `t`, the storage allows the
/// next correction there exactly from five minutes after `t` on.
pub proof fn law_cooldown_after_correction(v: Seq<(String, u64)>, room: Seq<char>, t: u64, now: u64)
    requires
        correction_time_of(v, room) == Some(t),
    ensures
        elapsed_allows(correction_time_of(v, room), now) <==> (t <= now && now - t >= 300),
{
}

// ---------------------------------------------------------------------------
// Group expansion
/// Whether member `m` of a group brings in user `u`: `m` is `u` itself
/// (a member that names no group), or `m` names a group (`%alias`) that
/// exists and lists `u` as a user.
pub open spec fn brings_in(gs: Seq<(Seq<char>, Seq<Seq<char>>)>, m: Seq<char>, u: Seq<char>) -> bool {
    if names_group(m) {
        let g = find_group(gs, without_char(m, '%'), 0);
        0 <= g < gs.len() && gs[g].1.contains(u) && names_user(u)
    } else {
        m == u
    }
}

proof fn lemma_find_group_bounds(gs: Seq<(Seq<char>, Seq<Seq<char>>)>, name: Seq<char>, g: int)
    requires
        0 <= g,
    ensures
        find_group(gs, name, g) == -1 || (g <= find_group(gs, name, g) < gs.len()),
    decreases gs.len() - g,
{
    if g < gs.len() && gs[g].0 != name {
        lemma_find_group_bounds(gs, name, g + 1);
    }
}

/// A group expands to exactly the users its members bring in: the members
/// that are user IDs, and the users of the groups its `%alias` members
/// name; an alias that names no group brings in nobody.
pub proof fn law_group_expansion(
    gs: Seq<(Seq<char>, Seq<Seq<char>>)>,
    acc: Seq<Seq<char>>,
    ms: Seq<Seq<char>>,
    i: int,
    u: Seq<char>,
)
    requires
        0 <= i,
        expand_members(gs, acc, ms, i) is Ok,
    ensures
        expand_members(gs, acc, ms, i)->Ok_0.contains(u) <==> (acc.contains(u) || exists|j: int|
            i <= j < ms.len() && brings_in(gs, #[trigger] ms[j], u)),
    decreases ms.len() - i,
{
    if i < ms.len() {
        let m = ms[i];
        let next = if names_group(m) {
            let g = find_group(gs, without_char(m, '%'), 0);
            lemma_find_group_bounds(gs, without_char(m, '%'), 0);
            if g < 0 {
                acc
            } else {
                lemma_users_from(acc, gs[g].1, 0, u);
                if gs[g].1.contains(u) && names_user(u) {
                    let k = choose|k: int| 0 <= k < gs[g].1.len() && gs[g].1[k] == u;
                    assert(exists|j: int| 0 <= j < gs[g].1.len() && gs[g].1[j] == u && names_user(u));
                }
                if exists|j: int| 0 <= j < gs[g].1.len() && gs[g].1[j] == u && names_user(u) {
                    let j = choose|j: int| 0 <= j < gs[g].1.len() && gs[g].1[j] == u && names_user(u);
                    assert(gs[g].1.contains(u));
                }
                users_from(acc, gs[g].1, 0)
            }
        } else {
            law_insert(acc, m, u);
            with_inserted(acc, m)
        };
        assert(next.contains(u) <==> (acc.contains(u) || brings_in(gs, m, u)));
        law_group_expansion(gs, next, ms, i + 1, u);
        if exists|j: int| i <= j < ms.len() && brings_in(gs, #[trigger] ms[j], u) {
            let j = choose|j: int| i <= j < ms.len() && brings_in(gs, #[trigger] ms[j], u);
            if j > i {
                assert(i + 1 <= j < ms.len() && brings_in(gs, ms[j], u));
            }
        }
        if exists|j: int| i + 1 <= j < ms.len() && brings_in(gs, #[trigger] ms[j], u) {
            let j = choose|j: int| i + 1 <= j < ms.len() && brings_in(gs, #[trigger] ms[j], u);
            assert(i <= j < ms.len());
        }
    }
}

/// A text message goes to the commandless actions exactly when it does not
/// start with `!`; every message that starts with `!` is a command, known
/// or not.
pub proof fn law_route_by_bang(body: Seq<char>)
    ensures
        (text_route(body) == TextRoute::Commandless) <==> !starts_with_char(body, '!'),
{
}

/// A configured list, once loaded, holds each of its strings exactly once:
/// the same strings as before, none twice.
pub proof fn law_distinct(s: Seq<Seq<char>>)
    ensures
        forall|x: Seq<char>| #[trigger] distinct(s).contains(x) <==> s.contains(x),
        forall|i: int, j: int|
            0 <= i < j < distinct(s).len() ==> #[trigger] distinct(s)[i] != #[trigger] distinct(s)[j],
    decreases s.len(),
{
    if s.len() > 0 {
        let p = s.drop_last();
        law_distinct(p);
        assert forall|x: Seq<char>| #[trigger] distinct(s).contains(x) <==> s.contains(x) by {
            if s.contains(x) {
                let k = choose|k: int| 0 <= k < s.len() && s[k] == x;
                if k < s.len() - 1 {
                    assert(p[k] == x);
                    assert(p.contains(x));
                }
            }
            if p.contains(x) {
                let k = choose|k: int| 0 <= k < p.len() && p[k] == x;
                assert(s[k] == x);
            }
            if !distinct(p).contains(s.last()) {
                if distinct(s).contains(x) && x != s.last() {
                    let k = choose|k: int| 0 <= k < distinct(s).len() && distinct(s)[k] == x;
                    assert(distinct(p)[k] == x);
                }
                if distinct(p).contains(x) {
                    let k = choose|k: int| 0 <= k < distinct(p).len() && distinct(p)[k] == x;
                    assert(distinct(s)[k] == x);
                }
                assert(distinct(s)[distinct(p).len() as int] == s.last());
            }
        }
    }
}

/// The notice does not depend on the order in which its parts are set:
/// any two setters commute, a setter called again keeps only its last
/// list, and once all four are set the text is the conversions, then the
/// search results, then the links, then the expanded texts, each line
/// ended, trimmed as a whole.
pub proof fn law_notice_setter_order(
    p: NoticeParts,
    c: Seq<Seq<char>>,
    g: Seq<Seq<char>>,
    l: Seq<Seq<char>>,
    e: Seq<Seq<char>>,
    x: Seq<Seq<char>>,
)
    ensures
        with_conversions(with_gh_results(p, g), c) == with_gh_results(with_conversions(p, c), g),
        with_conversions(with_links(p, l), c) == with_links(with_conversions(p, c), l),
        with_conversions(with_expanded(p, e), c) == with_expanded(with_conversions(p, c), e),
        with_gh_results(with_links(p, l), g) == with_links(with_gh_results(p, g), l),
        with_gh_results(with_expanded(p, e), g) == with_expanded(with_gh_results(p, g), e),
        with_links(with_expanded(p, e), l) == with_expanded(with_links(p, l), e),
        with_conversions(with_conversions(p, x), c) == with_conversions(p, c),
        with_gh_results(with_gh_results(p, x), g) == with_gh_results(p, g),
        with_links(with_links(p, x), l) == with_links(p, l),
        with_expanded(with_expanded(p, x), e) == with_expanded(p, e),
        notice_text_of(with_conversions(with_gh_results(with_links(with_expanded(p, e), l), g), c))
            == trimmed(lines(c) + lines(g) + lines(l) + lines(e)),
{
}

/// A message that starts with `!` but names no known command, such as a
/// bare `!convert` (no space after it), gets no answer.
pub proof fn law_bare_convert_ignored()
    ensures
        text_route(seq!['!', 'c', 'o', 'n', 'v', 'e', 'r', 't']) == TextRoute::Ignore,
{
    let b = seq!['!', 'c', 'o', 'n', 'v', 'e', 'r', 't'];
    assert(vstd::utf8::is_ascii_chars(b));
    assert(route_lower(b) =~= b);
    reveal_strlit("!convert ");
    reveal_strlit("!help");
    reveal_strlit("!ban");
    assert(!has_prefix(b, "!help"@)) by {
        assert(b.take(5)[1] != "!help"@[1]);
    }
    assert(!has_prefix(b, "!ban"@)) by {
        assert(b.take(4)[1] != "!ban"@[1]);
    }
}

// ---------------------------------------------------------------------------
// GitHub searches
proof fn lemma_first_slash(owner: Seq<char>, repo: Seq<char>, i: int)
    requires
        0 <= i <= owner.len(),
        !owner.contains('/'),
    ensures
        first_occurrence(owner + seq!['/'] + repo, i, seq!['/']) == owner.len(),
    decreases owner.len() - i,
{
    let s = owner + seq!['/'] + repo;
    if i < owner.len() {
        assert(owner[i] != '/') by {
            if owner[i] == '/' {
                assert(owner.contains('/'));
            }
        }
        assert(!occurs_at(s, i, seq!['/'])) by {
            assert(s.subrange(i, i + 1)[0] == owner[i]);
        }
        lemma_first_slash(owner, repo, i + 1);
    } else {
        assert(s.subrange(i, i + 1) =~= seq!['/']);
    }
}

proof fn lemma_without_leading(c: char, r: Seq<char>)
    requires
        !r.contains(c),
    ensures
        without_char(seq![c] + r, c) == r,
    decreases r.len(),
{
    let s = seq![c] + r;
    if r.len() == 0 {
        assert(s.drop_last() =~= Seq::<char>::empty());
        assert(s.last() == c);
        assert(without_char(s.drop_last(), c) =~= Seq::<char>::empty());
        assert(r =~= Seq::<char>::empty());
    } else {
        assert(s.drop_last() =~= seq![c] + r.drop_last());
        assert(s.last() == r.last());
        assert(r.last() != c) by {
            if r.last() == c {
                assert(r[r.len() - 1] == c);
            }
        }
        assert(!r.drop_last().contains(c)) by {
            if r.drop_last().contains(c) {
                let k = choose|k: int| 0 <= k < r.drop_last().len() && r.drop_last()[k] == c;
                assert(r[k] == c);
            }
        }
        lemma_without_leading(c, r.drop_last());
        assert(r.drop_last().push(r.last()) =~= r);
    }
}

/// A `repo#number` reference to a repository configured as `owner/repo`
/// searches the issues of `repo` owned by `owner`: the owner is what comes
/// before the `/`, the repository what comes after it.
pub proof fn law_search_owner_and_repo(
    repos: Seq<(Seq<char>, Seq<char>)>,
    name: Seq<char>,
    number: Seq<char>,
    owner: Seq<char>,
    repo: Seq<char>,
)
    requires
        parses_as_i64(number),
        lookup(repos, lowercased(name)) == Some(owner + seq!['/'] + repo),
        !owner.contains('/'),
        !repo.contains('/'),
    ensures
        search_request(repos, name, number) == Some((owner, repo, decimal_value(number))),
{
    let r = owner + seq!['/'] + repo;
    lemma_first_slash(owner, repo, 0);
    assert(r.take(owner.len() as int) =~= owner);
    assert(r.skip(owner.len() as int) =~= seq!['/'] + repo);
    lemma_without_leading('/', repo);
}

// ---------------------------------------------------------------------------
// Group pings
/// Whether the group named `name` exists and has `u` as a user.
pub open spec fn group_has(groups: Seq<(Seq<char>, Seq<Seq<char>>)>, name: Seq<char>, u: Seq<char>) -> bool {
    match group_members(groups, name) {
        Some(us) => us.contains(u),
        None => false,
    }
}

proof fn lemma_pinged_from_members(
    acc: Seq<Seq<char>>,
    names: Seq<Seq<char>>,
    groups: Seq<(Seq<char>, Seq<Seq<char>>)>,
    i: int,
    u: Seq<char>,
)
    requires
        0 <= i,
    ensures
        pinged_from(acc, names, groups, i).contains(u) <==> (acc.contains(u) || exists|j: int|
            i <= j < names.len() && group_has(groups, #[trigger] names[j], u)),
    decreases names.len() - i,
{
    if i < names.len() {
        let next = match group_members(groups, names[i]) {
            Some(us) => {
                lemma_inserted_from(acc, us, 0, u);
                if us.contains(u) {
                    let k = choose|k: int| 0 <= k < us.len() && us[k] == u;
                    assert(exists|j: int| 0 <= j < us.len() && us[j] == u);
                }
                if exists|j: int| 0 <= j < us.len() && us[j] == u {
                    let j = choose|j: int| 0 <= j < us.len() && us[j] == u;
                    assert(us.contains(u));
                }
                inserted_from(acc, us, 0)
            },
            None => acc,
        };
        assert(next.contains(u) <==> (acc.contains(u) || group_has(groups, names[i], u)));
        lemma_pinged_from_members(next, names, groups, i + 1, u);
        if exists|j: int| i <= j < names.len() && group_has(groups, #[trigger] names[j], u) {
            let j = choose|j: int| i <= j < names.len() && group_has(groups, #[trigger] names[j], u);
            if j > i {
                assert(i + 1 <= j < names.len() && group_has(groups, names[j], u));
            }
        }
        if exists|j: int| i + 1 <= j < names.len() && group_has(groups, #[trigger] names[j], u) {
            let j = choose|j: int| i + 1 <= j < names.len() && group_has(groups, #[trigger] names[j], u);
            assert(i <= j < names.len());
        }
    }
}

/// A group ping pings exactly the users of every known group that the
/// message names, whichever and however many groups it names.
pub proof fn law_ping_every_named_group(
    body: Seq<char>,
    formatted: Option<Seq<char>>,
    config: crate::config::MatrixListenerConfig,
    u: Seq<char>,
)
    ensures
        match ping_source(body, formatted) {
            Some(t) => ping_list(body, formatted, config).contains(u) <==> exists|j: int|
                0 <= j < group_pings(t).len() && group_has(
                    groups_view(config.group_pings@),
                    #[trigger] group_pings(t)[j],
                    u,
                ),
            None => ping_list(body, formatted, config).len() == 0,
        },
{
    match ping_source(body, formatted) {
        Some(t) => {
            lemma_pinged_from_members(seq![], group_pings(t), groups_view(config.group_pings@), 0, u);
        },
        None => {},
    }
}

// ---------------------------------------------------------------------------
// Links
/// Whether the reference `r` asks for a configured link.
pub open spec fn link_wanted(
    r: (Seq<char>, Seq<char>),
    linkers: Seq<Seq<char>>,
    links: Seq<(Seq<char>, Seq<char>)>,
) -> bool {
    linkers.contains(lowercased(r.0)) && lookup(links, r.1) is Some
}

proof fn lemma_link_concat(
    a: Seq<(Seq<char>, Seq<char>)>,
    b: Seq<(Seq<char>, Seq<char>)>,
    linkers: Seq<Seq<char>>,
    links: Seq<(Seq<char>, Seq<char>)>,
)
    ensures
        link_targets(a + b, linkers, links) == link_targets(a, linkers, links) + link_targets(
            b,
            linkers,
            links,
        ),
    decreases b.len(),
{
    if b.len() == 0 {
        assert(a + b =~= a);
        assert(link_targets(a, linkers, links) + link_targets(b, linkers, links) =~= link_targets(
            a,
            linkers,
            links,
        ));
    } else {
        lemma_link_concat(a, b.drop_last(), linkers, links);
        assert((a + b).drop_last() =~= a + b.drop_last());
        assert((a + b).last() == b.last());
        assert(link_targets(a + b, linkers, links) =~= link_targets(a, linkers, links) + link_targets(
            b,
            linkers,
            links,
        ));
    }
}

/// Each `keyword@item` reference contributes on its own and in order: the
/// links of two runs of references are those of the first run followed by
/// those of the second, and one reference gives its configured URL where
/// its lower case keyword is a linker and its item is configured, and
/// nothing otherwise. So every such reference of a message is answered.
pub proof fn law_links_per_reference(
    a: Seq<(Seq<char>, Seq<char>)>,
    b: Seq<(Seq<char>, Seq<char>)>,
    r: (Seq<char>, Seq<char>),
    linkers: Seq<Seq<char>>,
    links: Seq<(Seq<char>, Seq<char>)>,
)
    ensures
        link_targets(a + b, linkers, links) == link_targets(a, linkers, links) + link_targets(
            b,
            linkers,
            links,
        ),
        link_targets(seq![r], linkers, links) == (if link_wanted(r, linkers, links) {
            seq![lookup(links, r.1)->0]
        } else {
            Seq::<Seq<char>>::empty()
        }),
        link_wanted(r, linkers, links) ==> link_targets(a + seq![r] + b, linkers, links).contains(
            lookup(links, r.1)->0,
        ),
{
    lemma_link_concat(a, b, linkers, links);
    let e = Seq::<(Seq<char>, Seq<char>)>::empty();
    assert(seq![r].drop_last() =~= e);
    assert(seq![r].last() == r);
    assert(link_targets(e, linkers, links) == Seq::<Seq<char>>::empty());
    if link_wanted(r, linkers, links) {
        assert(link_targets(seq![r], linkers, links) =~= seq![lookup(links, r.1)->0]);
    } else {
        assert(link_targets(seq![r], linkers, links) =~= Seq::<Seq<char>>::empty());
    }
    if link_wanted(r, linkers, links) {
        let ar = a + seq![r];
        lemma_link_concat(a, seq![r], linkers, links);
        lemma_link_concat(ar, b, linkers, links);
        assert(a + seq![r] + b =~= ar + b);
        let t = link_targets(a, linkers, links);
        let x = lookup(links, r.1)->0;
        let all = link_targets(ar + b, linkers, links);
        assert(link_targets(ar, linkers, links) =~= t + seq![x]);
        assert(all =~= t + seq![x] + link_targets(b, linkers, links));
        assert(all[t.len() as int] == x);
    }
}

// ---------------------------------------------------------------------------
// Help pages
/// `!help` with the word of a page answers with that page: each page word
/// names the page whose title line is that of the action it documents.
pub proof fn law_help_word_gives_its_page(c: crate::config::MatrixListenerConfig)
    ensures
        help_page(help_type_of("command"@), c) matches Some(p) && p.len() >= 15 && p.take(15) == "Command Action\n"@,
        help_page(help_type_of("commandless"@), c) matches Some(p) && p.len() >= 19 && p.take(19) == "Commandless Action\n"@,
        help_page(help_type_of("ping"@), c) matches Some(p) && p.len() >= 11 && p.take(11) == "Group Ping\n"@,
        help_page(help_type_of("github-search"@), c) matches Some(p) && p.len() >= 14 && p.take(14) == "Github Search\n"@,
        help_page(help_type_of("link"@), c) matches Some(p) && p.len() >= 5 && p.take(5) == "Link\n"@,
        help_page(help_type_of("text-expansion"@), c) matches Some(p) && p.len() >= 15 && p.take(15) == "Text Expansion\n"@,
        help_page(help_type_of("unit-conversion"@), c) matches Some(p) && p.len() >= 16 && p.take(16) == "Unit Conversion\n"@,
{
    lemma_page_titles(c);
    reveal_strlit("command");
    assert(ascii_lowercase("command"@) =~= "command"@);
    reveal_strlit("commandless");
    assert(ascii_lowercase("commandless"@) =~= "commandless"@);
    reveal_strlit("ping");
    assert(ascii_lowercase("ping"@) =~= "ping"@);
    reveal_strlit("github-search");
    assert(ascii_lowercase("github-search"@) =~= "github-search"@);
    reveal_strlit("link");
    assert(ascii_lowercase("link"@) =~= "link"@);
    reveal_strlit("text-expansion");
    assert(ascii_lowercase("text-expansion"@) =~= "text-expansion"@);
    reveal_strlit("unit-conversion");
    assert(ascii_lowercase("unit-conversion"@) =~= "unit-conversion"@);
    reveal_strlit("Command Action\n");
    reveal_strlit("Commandless Action\n");
    reveal_strlit("Group Ping\n");
    reveal_strlit("Github Search\n");
    reveal_strlit("Link\n");
    reveal_strlit("Text Expansion\n");
    reveal_strlit("Unit Conversion\n");
    assert("commandless"@.len() != "command"@.len());
    assert("ping"@.len() != "command"@.len());
    assert("ping"@.len() != "commandless"@.len());
    assert("github-search"@.len() != "command"@.len());
    assert("github-search"@.len() != "commandless"@.len());
    assert("github-search"@.len() != "ping"@.len());
    assert("link"@.len() != "command"@.len());
    assert("link"@.len() != "commandless"@.len());
    assert("link"@[0] != "ping"@[0]);
    assert("link"@.len() != "github-search"@.len());
    assert("text-expansion"@.len() != "command"@.len());
    assert("text-expansion"@.len() != "commandless"@.len());
    assert("text-expansion"@.len() != "ping"@.len());
    assert("text-expansion"@.len() != "github-search"@.len());
    assert("text-expansion"@.len() != "link"@.len());
    assert("unit-conversion"@.len() != "command"@.len());
    assert("unit-conversion"@.len() != "commandless"@.len());
    assert("unit-conversion"@.len() != "ping"@.len());
    assert("unit-conversion"@.len() != "github-search"@.len());
    assert("unit-conversion"@.len() != "link"@.len());
    assert("unit-conversion"@.len() != "text-expansion"@.len());
}

// ---------------------------------------------------------------------------
// Unit conversions
/// The units the bot converts and what each converts to: lengths, then
/// temperatures, masses and speeds, each into its counterpart in the other
/// system of units; every other unit is not converted.
pub proof fn law_unit_conversion_table(u: Seq<char>)
    ensures
        conversion_target("cm"@) == Some("in"@),
        conversion_target("m"@) == Some("ft"@),
        conversion_target("km"@) == Some("mi"@),
        conversion_target("in"@) == Some("cm"@),
        conversion_target("ft"@) == Some("m"@),
        conversion_target("mi"@) == Some("km"@),
        conversion_target("mile"@) == Some("km"@),
        conversion_target("miles"@) == Some("km"@),
        conversion_target("c"@) == Some("f"@),
        conversion_target("°c"@) == Some("°f"@),
        conversion_target("f"@) == Some("c"@),
        conversion_target("°f"@) == Some("°c"@),
        conversion_target("kg"@) == Some("lbs"@),
        conversion_target("lbs"@) == Some("kg"@),
        conversion_target("km/h"@) == Some("mph"@),
        conversion_target("kmh"@) == Some("mph"@),
        conversion_target("kph"@) == Some("mph"@),
        conversion_target("kmph"@) == Some("mph"@),
        conversion_target("mph"@) == Some("km/h"@),
        conversion_target(u) is Some <==> (u == "cm"@ || u == "m"@ || u == "km"@ || u == "in"@ || u == "ft"@ || u == "mi"@ || u == "mile"@ || u == "miles"@ || u == "c"@ || u == "°c"@ || u == "f"@ || u == "°f"@ || u == "kg"@ || u == "lbs"@ || u == "km/h"@ || u == "kmh"@ || u == "kph"@ || u == "kmph"@ || u == "mph"@),
{
    reveal_strlit("c");
    reveal_strlit("cm");
    reveal_strlit("f");
    reveal_strlit("ft");
    reveal_strlit("in");
    reveal_strlit("kg");
    reveal_strlit("km");
    reveal_strlit("km/h");
    reveal_strlit("kmh");
    reveal_strlit("kmph");
    reveal_strlit("kph");
    reveal_strlit("lbs");
    reveal_strlit("m");
    reveal_strlit("mi");
    reveal_strlit("mile");
    reveal_strlit("miles");
    reveal_strlit("mph");
    reveal_strlit("°c");
    reveal_strlit("°f");
    assert("m"@.len() != "cm"@.len());
    assert("km"@[0] != "cm"@[0]);
    assert("km"@.len() != "m"@.len());
    assert("in"@[0] != "cm"@[0]);
    assert("in"@.len() != "m"@.len());
    assert("in"@[0] != "km"@[0]);
    assert("ft"@[0] != "cm"@[0]);
    assert("ft"@.len() != "m"@.len());
    assert("ft"@[0] != "km"@[0]);
    assert("ft"@[0] != "in"@[0]);
    assert("mi"@[0] != "cm"@[0]);
    assert("mi"@.len() != "m"@.len());
    assert("mi"@[0] != "km"@[0]);
    assert("mi"@[0] != "in"@[0]);
    assert("mi"@[0] != "ft"@[0]);
    assert("mile"@.len() != "cm"@.len());
    assert("mile"@.len() != "m"@.len());
    assert("mile"@.len() != "km"@.len());
    assert("mile"@.len() != "in"@.len());
    assert("mile"@.len() != "ft"@.len());
    assert("mile"@.len() != "mi"@.len());
    assert("miles"@.len() != "cm"@.len());
    assert("miles"@.len() != "m"@.len());
    assert("miles"@.len() != "km"@.len());
    assert("miles"@.len() != "in"@.len());
    assert("miles"@.len() != "ft"@.len());
    assert("miles"@.len() != "mi"@.len());
    assert("miles"@.len() != "mile"@.len());
    assert("c"@.len() != "cm"@.len());
    assert("c"@[0] != "m"@[0]);
    assert("c"@.len() != "km"@.len());
    assert("c"@.len() != "in"@.len());
    assert("c"@.len() != "ft"@.len());
    assert("c"@.len() != "mi"@.len());
    assert("c"@.len() != "mile"@.len());
    assert("c"@.len() != "miles"@.len());
    assert("°c"@[0] != "cm"@[0]);
    assert("°c"@.len() != "m"@.len());
    assert("°c"@[0] != "km"@[0]);
    assert("°c"@[0] != "in"@[0]);
    assert("°c"@[0] != "ft"@[0]);
    assert("°c"@[0] != "mi"@[0]);
    assert("°c"@.len() != "mile"@.len());
    assert("°c"@.len() != "miles"@.len());
    assert("°c"@.len() != "c"@.len());
    assert("f"@.len() != "cm"@.len());
    assert("f"@[0] != "m"@[0]);
    assert("f"@.len() != "km"@.len());
    assert("f"@.len() != "in"@.len());
    assert("f"@.len() != "ft"@.len());
    assert("f"@.len() != "mi"@.len());
    assert("f"@.len() != "mile"@.len());
    assert("f"@.len() != "miles"@.len());
    assert("f"@[0] != "c"@[0]);
    assert("f"@.len() != "°c"@.len());
    assert("°f"@[0] != "cm"@[0]);
    assert("°f"@.len() != "m"@.len());
    assert("°f"@[0] != "km"@[0]);
    assert("°f"@[0] != "in"@[0]);
    assert("°f"@[0] != "ft"@[0]);
    assert("°f"@[0] != "mi"@[0]);
    assert("°f"@.len() != "mile"@.len());
    assert("°f"@.len() != "miles"@.len());
    assert("°f"@.len() != "c"@.len());
    assert("°f"@[1] != "°c"@[1]);
    assert("°f"@.len() != "f"@.len());
    assert("kg"@[0] != "cm"@[0]);
    assert("kg"@.len() != "m"@.len());
    assert("kg"@[1] != "km"@[1]);
    assert("kg"@[0] != "in"@[0]);
    assert("kg"@[0] != "ft"@[0]);
    assert("kg"@[0] != "mi"@[0]);
    assert("kg"@.len() != "mile"@.len());
    assert("kg"@.len() != "miles"@.len());
    assert("kg"@.len() != "c"@.len());
    assert("kg"@[0] != "°c"@[0]);
    assert("kg"@.len() != "f"@.len());
    assert("kg"@[0] != "°f"@[0]);
    assert("lbs"@.len() != "cm"@.len());
    assert("lbs"@.len() != "m"@.len());
    assert("lbs"@.len() != "km"@.len());
    assert("lbs"@.len() != "in"@.len());
    assert("lbs"@.len() != "ft"@.len());
    assert("lbs"@.len() != "mi"@.len());
    assert("lbs"@.len() != "mile"@.len());
    assert("lbs"@.len() != "miles"@.len());
    assert("lbs"@.len() != "c"@.len());
    assert("lbs"@.len() != "°c"@.len());
    assert("lbs"@.len() != "f"@.len());
    assert("lbs"@.len() != "°f"@.len());
    assert("lbs"@.len() != "kg"@.len());
    assert("km/h"@.len() != "cm"@.len());
    assert("km/h"@.len() != "m"@.len());
    assert("km/h"@.len() != "km"@.len());
    assert("km/h"@.len() != "in"@.len());
    assert("km/h"@.len() != "ft"@.len());
    assert("km/h"@.len() != "mi"@.len());
    assert("km/h"@[0] != "mile"@[0]);
    assert("km/h"@.len() != "miles"@.len());
    assert("km/h"@.len() != "c"@.len());
    assert("km/h"@.len() != "°c"@.len());
    assert("km/h"@.len() != "f"@.len());
    assert("km/h"@.len() != "°f"@.len());
    assert("km/h"@.len() != "kg"@.len());
    assert("km/h"@.len() != "lbs"@.len());
    assert("kmh"@.len() != "cm"@.len());
    assert("kmh"@.len() != "m"@.len());
    assert("kmh"@.len() != "km"@.len());
    assert("kmh"@.len() != "in"@.len());
    assert("kmh"@.len() != "ft"@.len());
    assert("kmh"@.len() != "mi"@.len());
    assert("kmh"@.len() != "mile"@.len());
    assert("kmh"@.len() != "miles"@.len());
    assert("kmh"@.len() != "c"@.len());
    assert("kmh"@.len() != "°c"@.len());
    assert("kmh"@.len() != "f"@.len());
    assert("kmh"@.len() != "°f"@.len());
    assert("kmh"@.len() != "kg"@.len());
    assert("kmh"@[0] != "lbs"@[0]);
    assert("kmh"@.len() != "km/h"@.len());
    assert("kph"@.len() != "cm"@.len());
    assert("kph"@.len() != "m"@.len());
    assert("kph"@.len() != "km"@.len());
    assert("kph"@.len() != "in"@.len());
    assert("kph"@.len() != "ft"@.len());
    assert("kph"@.len() != "mi"@.len());
    assert("kph"@.len() != "mile"@.len());
    assert("kph"@.len() != "miles"@.len());
    assert("kph"@.len() != "c"@.len());
    assert("kph"@.len() != "°c"@.len());
    assert("kph"@.len() != "f"@.len());
    assert("kph"@.len() != "°f"@.len());
    assert("kph"@.len() != "kg"@.len());
    assert("kph"@[0] != "lbs"@[0]);
    assert("kph"@.len() != "km/h"@.len());
    assert("kph"@[1] != "kmh"@[1]);
    assert("kmph"@.len() != "cm"@.len());
    assert("kmph"@.len() != "m"@.len());
    assert("kmph"@.len() != "km"@.len());
    assert("kmph"@.len() != "in"@.len());
    assert("kmph"@.len() != "ft"@.len());
    assert("kmph"@.len() != "mi"@.len());
    assert("kmph"@[0] != "mile"@[0]);
    assert("kmph"@.len() != "miles"@.len());
    assert("kmph"@.len() != "c"@.len());
    assert("kmph"@.len() != "°c"@.len());
    assert("kmph"@.len() != "f"@.len());
    assert("kmph"@.len() != "°f"@.len());
    assert("kmph"@.len() != "kg"@.len());
    assert("kmph"@.len() != "lbs"@.len());
    assert("kmph"@[2] != "km/h"@[2]);
    assert("kmph"@.len() != "kmh"@.len());
    assert("kmph"@.len() != "kph"@.len());
    assert("mph"@.len() != "cm"@.len());
    assert("mph"@.len() != "m"@.len());
    assert("mph"@.len() != "km"@.len());
    assert("mph"@.len() != "in"@.len());
    assert("mph"@.len() != "ft"@.len());
    assert("mph"@.len() != "mi"@.len());
    assert("mph"@.len() != "mile"@.len());
    assert("mph"@.len() != "miles"@.len());
    assert("mph"@.len() != "c"@.len());
    assert("mph"@.len() != "°c"@.len());
    assert("mph"@.len() != "f"@.len());
    assert("mph"@.len() != "°f"@.len());
    assert("mph"@.len() != "kg"@.len());
    assert("mph"@[0] != "lbs"@[0]);
    assert("mph"@.len() != "km/h"@.len());
    assert("mph"@[0] != "kmh"@[0]);
    assert("mph"@[0] != "kph"@[0]);
    assert("mph"@.len() != "kmph"@.len());
}

} // verus!
