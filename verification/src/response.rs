//! Reply builders: the notice that gathers the results of the commandless
//! actions, the formatted text that pings users, and the formatted notice
//! that reports errors.
use vstd::prelude::*;
use crate::ids::{localpart_of, UserId};
use crate::text::{joined, lines, push_char, push_lines, to_chars, trim, trimmed};

verus! {

// ---------------------------------------------------------------------------
/// A set of user IDs, kept in the order in which they were first inserted.
#[derive(Debug)]
pub struct UserSet {
    users: Vec<UserId>,
}

/// `s` with `x` added at the end unless it is already there.
pub open spec fn with_inserted(s: Seq<Seq<char>>, x: Seq<char>) -> Seq<Seq<char>> {
    if s.contains(x) {
        s
    } else {
        s.push(x)
    }
}

impl UserSet {
    #[verifier::type_invariant]
    spec fn wf(self) -> bool {
        self.users@.map_values(|u: UserId| u@).no_duplicates()
    }

    /// The user IDs, in insertion order, each once.
    pub closed spec fn view(&self) -> Seq<Seq<char>> {
        self.users@.map_values(|u: UserId| u@)
    }

    /// An empty set.
    pub fn new() -> (r: UserSet)
        ensures
            r@ == Seq::<Seq<char>>::empty(),
    {
        let r = UserSet { users: Vec::new() };
        assert(r@ =~= Seq::<Seq<char>>::empty());
        r
    }

    /// The number of users.
    pub fn len(&self) -> (n: usize)
        ensures
            n == self@.len(),
            self@.no_duplicates(),
    {
        proof {
            use_type_invariant(self);
        }
        self.users.len()
    }

    /// The user at position `i`.
    pub fn get(&self, i: usize) -> (u: &UserId)
        requires
            i < self@.len(),
        ensures
            u@ == self@[i as int],
    {
        &self.users[i]
    }

    /// Whether `u` is in the set.
    pub fn contains(&self, u: &UserId) -> (b: bool)
        ensures
            b == self@.contains(u@),
    {
        let mut i: usize = 0;
        while i < self.users.len()
            invariant
                i <= self@.len(),
                forall|j: int| 0 <= j < i ==> self@[j] != u@,
            decreases self@.len() - i,
        {
            if self.users[i].same_as(u) {
                assert(self@[i as int] == u@);
                return true;
            }
            i = i + 1;
        }
        false
    }

    /// A copy of the set.
    pub fn duplicate(&self) -> (r: UserSet)
        ensures
            r@ == self@,
    {
        proof {
            use_type_invariant(self);
        }
        let mut users: Vec<UserId> = Vec::new();
        let mut i: usize = 0;
        while i < self.users.len()
            invariant
                i <= self@.len(),
                users@.map_values(|x: UserId| x@) == self@.take(i as int),
            decreases self@.len() - i,
        {
            let u = self.users[i].duplicate();
            let ghost prev = users@;
            users.push(u);
            proof {
                assert(users@ =~= prev.push(u));
                assert(users@.map_values(|x: UserId| x@) =~= prev.map_values(|x: UserId| x@).push(
                    self.users@[i as int]@,
                ));
                assert(users@.map_values(|x: UserId| x@) =~= self@.take(i + 1));
            }
            i = i + 1;
        }
        assert(self@.take(i as int) =~= self@);
        UserSet { users }
    }

    /// Adds `u` unless it is already there.
    pub fn insert(&mut self, u: UserId)
        ensures
            final(self)@ == with_inserted(old(self)@, u@),
    {
        proof {
            use_type_invariant(&*self);
        }
        if !self.contains(&u) {
            let ghost old_view = self@;
            let ghost uv = u@;
            let mut users = Vec::new();
            std::mem::swap(&mut users, &mut self.users);
            users.push(u);
            proof {
                assert(users@.map_values(|x: UserId| x@) =~= old_view.push(uv));
                assert forall|a: int, b: int|
                    0 <= a < b < old_view.push(uv).len() implies old_view.push(uv)[a]
                    != old_view.push(uv)[b] by {
                    if b == old_view.len() {
                        assert(old_view[a] == old_view.push(uv)[a]);
                    }
                }
            }
            self.users = users;
        }
    }

    /// Removes `u` if it is there.
    pub fn remove(&mut self, u: &UserId)
        ensures
            !old(self)@.contains(u@) ==> final(self)@ == old(self)@,
            old(self)@.contains(u@) ==> exists|k: int|
                0 <= k < old(self)@.len() && old(self)@[k] == u@ && final(self)@ == old(
                    self,
                )@.remove(k),
    {
        proof {
            use_type_invariant(&*self);
        }
        let ghost old_view = self@;
        let mut i: usize = 0;
        while i < self.users.len()
            invariant
                i <= self@.len(),
                self@ == old_view,
                old_view == old(self)@,
                old_view.no_duplicates(),
                forall|j: int| 0 <= j < i ==> self@[j] != u@,
            decreases self@.len() - i,
        {
            if self.users[i].same_as(u) {
                let mut users = Vec::new();
                std::mem::swap(&mut users, &mut self.users);
                let _ = users.remove(i);
                proof {
                    let r = old_view.remove(i as int);
                    assert(users@.map_values(|x: UserId| x@) =~= r);
                    assert forall|a: int, b: int| 0 <= a < b < r.len() implies r[a] != r[b] by {
                        let oa = if a < i { a } else { a + 1 };
                        let ob = if b < i { b } else { b + 1 };
                        assert(r[a] == old_view[oa] && r[b] == old_view[ob]);
                    }
                }
                self.users = users;
                assert(old_view[i as int] == u@);
                assert(old_view.contains(u@));
                assert(self@ == old_view.remove(i as int));
                return;
            }
            i = i + 1;
        }
    }
}

} // verus!

verus! {

// ---------------------------------------------------------------------------
/// A unit conversion result: the quantity with its unit, and the converted
/// quantity with its unit, both already formatted.
#[derive(Debug)]
pub struct ConvertedUnit {
    pub from: String,
    pub to: String,
}

impl ConvertedUnit {
    /// `from => to`.
    pub open spec fn line_view(&self) -> Seq<char> {
        self.from@ + " => "@ + self.to@
    }

    /// `from => to`.
    pub fn line(&self) -> (r: String)
        ensures
            r@ == self.line_view(),
    {
        let mut r = String::new();
        r.append(self.from.as_str());
        r.append(" => ");
        r.append(self.to.as_str());
        r
    }
}

pub open spec fn opt_lines(o: Option<Seq<Seq<char>>>) -> Seq<char> {
    match o {
        Some(v) => lines(v),
        None => seq![],
    }
}

pub open spec fn strings_view(v: Vec<String>) -> Seq<Seq<char>> {
    v@.map_values(|x: String| x@)
}

pub open spec fn opt_strings_view(o: Option<Vec<String>>) -> Option<Seq<Seq<char>>> {
    match o {
        Some(v) => Some(strings_view(v)),
        None => None,
    }
}

/// The four parts of a notice, each as its lines where it is set: unit
/// conversions, issue search results, links, and expanded texts.
pub type NoticeParts = (
    Option<Seq<Seq<char>>>,
    Option<Seq<Seq<char>>>,
    Option<Seq<Seq<char>>>,
    Option<Seq<Seq<char>>>,
);

/// The text of a notice with the parts `p`: every line of every part, in
/// the order conversions, search results, links, expanded texts, trimmed
/// of white space.
pub open spec fn notice_text_of(p: NoticeParts) -> Seq<char> {
    trimmed(opt_lines(p.0) + opt_lines(p.1) + opt_lines(p.2) + opt_lines(p.3))
}

/// `p` with its conversions set to `c`.
pub open spec fn with_conversions(p: NoticeParts, c: Seq<Seq<char>>) -> NoticeParts {
    (Some(c), p.1, p.2, p.3)
}

/// `p` with its search results set to `g`.
pub open spec fn with_gh_results(p: NoticeParts, g: Seq<Seq<char>>) -> NoticeParts {
    (p.0, Some(g), p.2, p.3)
}

/// `p` with its links set to `l`.
pub open spec fn with_links(p: NoticeParts, l: Seq<Seq<char>>) -> NoticeParts {
    (p.0, p.1, Some(l), p.3)
}

/// `p` with its expanded texts set to `e`.
pub open spec fn with_expanded(p: NoticeParts, e: Seq<Seq<char>>) -> NoticeParts {
    (p.0, p.1, p.2, Some(e))
}

/// The notice that gathers the results of the commandless actions: unit
/// conversions, issue search results, links, and expanded texts.
#[derive(Debug)]
pub struct MatrixNoticeResponse {
    conversions: Option<Vec<ConvertedUnit>>,
    gh_results: Option<Vec<String>>,
    links: Option<Vec<String>>,
    expanded_text: Option<Vec<String>>,
}

impl MatrixNoticeResponse {
    /// The unit conversions, each as its `from => to` line.
    pub closed spec fn conversions_view(&self) -> Option<Seq<Seq<char>>> {
        match self.conversions {
            Some(v) => Some(v@.map_values(|c: ConvertedUnit| c.line_view())),
            None => None,
        }
    }

    /// The issue search results.
    pub closed spec fn gh_results_view(&self) -> Option<Seq<Seq<char>>> {
        opt_strings_view(self.gh_results)
    }

    /// The links.
    pub closed spec fn links_view(&self) -> Option<Seq<Seq<char>>> {
        opt_strings_view(self.links)
    }

    /// The expanded texts.
    pub closed spec fn expanded_view(&self) -> Option<Seq<Seq<char>>> {
        opt_strings_view(self.expanded_text)
    }

    /// The four parts, as lines.
    pub open spec fn parts(&self) -> NoticeParts {
        (self.conversions_view(), self.gh_results_view(), self.links_view(), self.expanded_view())
    }

    /// The notice text: every line of every part, in the order conversions,
    /// search results, links, expanded texts, trimmed of white space.
    pub open spec fn text_view(&self) -> Seq<char> {
        notice_text_of(self.parts())
    }

    /// An empty response.
    pub fn new() -> (r: Self)
        ensures
            r.conversions_view() is None,
            r.gh_results_view() is None,
            r.links_view() is None,
            r.expanded_view() is None,
    {
        MatrixNoticeResponse { conversions: None, gh_results: None, links: None, expanded_text: None }
    }

    /// Sets the unit conversions, replacing earlier ones.
    pub fn set_unit_conversions(&mut self, conversions: Vec<ConvertedUnit>)
        ensures
            final(self).parts() == with_conversions(
                old(self).parts(),
                conversions@.map_values(|c: ConvertedUnit| c.line_view()),
            ),
            final(self).conversions_view() == Some(
                conversions@.map_values(|c: ConvertedUnit| c.line_view()),
            ),
            final(self).gh_results_view() == old(self).gh_results_view(),
            final(self).links_view() == old(self).links_view(),
            final(self).expanded_view() == old(self).expanded_view(),
    {
        self.conversions = Some(conversions);
    }

    /// Sets the issue search results, replacing earlier ones.
    pub fn set_gh_results(&mut self, gh_results: Vec<String>)
        ensures
            final(self).parts() == with_gh_results(old(self).parts(), strings_view(gh_results)),
            final(self).gh_results_view() == Some(strings_view(gh_results)),
            final(self).conversions_view() == old(self).conversions_view(),
            final(self).links_view() == old(self).links_view(),
            final(self).expanded_view() == old(self).expanded_view(),
    {
        self.gh_results = Some(gh_results);
    }

    /// Sets the links, replacing earlier ones.
    pub fn set_links(&mut self, links: Vec<String>)
        ensures
            final(self).parts() == with_links(old(self).parts(), strings_view(links)),
            final(self).links_view() == Some(strings_view(links)),
            final(self).conversions_view() == old(self).conversions_view(),
            final(self).gh_results_view() == old(self).gh_results_view(),
            final(self).expanded_view() == old(self).expanded_view(),
    {
        self.links = Some(links);
    }

    /// Sets the expanded texts, replacing earlier ones.
    pub fn set_expanded_text(&mut self, expanded_text: Vec<String>)
        ensures
            final(self).parts() == with_expanded(old(self).parts(), strings_view(expanded_text)),
            final(self).expanded_view() == Some(strings_view(expanded_text)),
            final(self).conversions_view() == old(self).conversions_view(),
            final(self).gh_results_view() == old(self).gh_results_view(),
            final(self).links_view() == old(self).links_view(),
    {
        self.expanded_text = Some(expanded_text);
    }

    /// Whether any part has been set.
    pub fn is_some(&self) -> (b: bool)
        ensures
            b == (self.conversions_view() is Some || self.gh_results_view() is Some
                || self.links_view() is Some || self.expanded_view() is Some),
    {
        self.conversions.is_some() || self.gh_results.is_some() || self.links.is_some()
            || self.expanded_text.is_some()
    }

    /// The notice text (its display text).
    pub fn to_string(&self) -> (r: String)
        ensures
            r@ == self.text_view(),
    {
        let mut out = String::new();
        match &self.conversions {
            Some(v) => {
                let mut i: usize = 0;
                while i < v.len()
                    invariant
                        i <= v@.len(),
                        out@ == lines(v@.map_values(|c: ConvertedUnit| c.line_view()).take(i as int)),
                    decreases v@.len() - i,
                {
                    let line = v[i].line();
                    out.append(line.as_str());
                    push_char(&mut out, '\n');
                    proof {
                        let m = v@.map_values(|c: ConvertedUnit| c.line_view());
                        assert(m.take(i + 1).drop_last() =~= m.take(i as int));
                    }
                    i = i + 1;
                }
                assert(v@.map_values(|c: ConvertedUnit| c.line_view()).take(i as int)
                    =~= v@.map_values(|c: ConvertedUnit| c.line_view()));
            },
            None => {},
        }
        assert(out@ == opt_lines(self.conversions_view()));
        let ghost part1 = out@;
        match &self.gh_results {
            Some(v) => push_lines(&mut out, v),
            None => {},
        }
        assert(out@ == part1 + opt_lines(self.gh_results_view()));
        let ghost part2 = out@;
        match &self.links {
            Some(v) => push_lines(&mut out, v),
            None => {},
        }
        assert(out@ == part2 + opt_lines(self.links_view()));
        let ghost part3 = out@;
        match &self.expanded_text {
            Some(v) => push_lines(&mut out, v),
            None => {},
        }
        assert(out@ == part3 + opt_lines(self.expanded_view()));
        let chars = to_chars(out.as_str());
        trim(chars.as_slice())
    }
}

impl Default for MatrixNoticeResponse {
    fn default() -> (r: Self)
        ensures
            r.conversions_view() is None,
            r.gh_results_view() is None,
            r.links_view() is None,
            r.expanded_view() is None,
    {
        MatrixNoticeResponse::new()
    }
}

// ---------------------------------------------------------------------------
/// The HTML link that pings one user.
pub open spec fn ping_html(u: Seq<char>) -> Seq<char> {
    "<a href=\"https://matrix.to/#/"@ + u + "\">"@ + localpart_of(u) + "</a>\n"@
}

/// A user's localpart followed by a space.
pub open spec fn ping_plain(u: Seq<char>) -> Seq<char> {
    localpart_of(u) + " "@
}

/// A formatted text reply that pings users.
#[derive(Debug)]
pub struct MatrixFormattedTextResponse {
    users: Option<UserSet>,
}

impl MatrixFormattedTextResponse {
    /// The users to ping.
    pub closed spec fn users_view(&self) -> Option<Seq<Seq<char>>> {
        match self.users {
            Some(v) => Some(v@),
            None => None,
        }
    }

    /// The plain text of the reply: the localparts separated by spaces.
    pub open spec fn text_view(&self) -> Seq<char> {
        match self.users_view() {
            Some(v) => trimmed(joined(v, |u: Seq<char>| ping_plain(u))),
            None => seq![],
        }
    }

    /// The HTML of the reply: a link to each user, one per line.
    pub open spec fn formatted_view(&self) -> Option<Seq<char>> {
        match self.users_view() {
            Some(v) => Some(joined(v, |u: Seq<char>| ping_html(u))),
            None => None,
        }
    }

    /// A reply with no users.
    pub fn new() -> (r: Self)
        ensures
            r.users_view() is None,
    {
        MatrixFormattedTextResponse { users: None }
    }

    /// Sets the users to ping, replacing earlier ones.
    pub fn set_users(&mut self, users: UserSet)
        ensures
            final(self).users_view() == Some(users@),
    {
        self.users = Some(users);
    }

    /// Whether users have been set.
    pub fn is_some(&self) -> (b: bool)
        ensures
            b == (self.users_view() is Some),
    {
        self.users.is_some()
    }

    /// The HTML of the reply, if users have been set.
    pub fn format_text(&self) -> (r: Option<String>)
        ensures
            r matches Some(t) ==> self.formatted_view() == Some(t@),
            r is None ==> self.formatted_view() is None,
    {
        match &self.users {
            None => None,
            Some(v) => {
                let mut out = String::new();
                let mut i: usize = 0;
                let n = v.len();
                while i < n
                    invariant
                        i <= n,
                        n == v@.len(),
                        out@ == joined(v@.take(i as int), |u: Seq<char>| ping_html(u)),
                    decreases n - i,
                {
                    let u = v.get(i);
                    out.append("<a href=\"https://matrix.to/#/");
                    out.append(u.as_str());
                    out.append("\">");
                    let l = u.localpart();
                    out.append(l.as_str());
                    out.append("</a>\n");
                    proof {
                        crate::text::lemma_joined_take(v@, |u: Seq<char>| ping_html(u), i as int);
                    }
                    i = i + 1;
                }
                assert(v@.take(n as int) =~= v@);
                Some(out)
            },
        }
    }

    /// The plain text of the reply (its display text).
    pub fn to_string(&self) -> (r: String)
        ensures
            r@ == self.text_view(),
    {
        match &self.users {
            None => String::new(),
            Some(v) => {
                let mut out = String::new();
                let mut i: usize = 0;
                let n = v.len();
                while i < n
                    invariant
                        i <= n,
                        n == v@.len(),
                        out@ == joined(v@.take(i as int), |u: Seq<char>| ping_plain(u)),
                    decreases n - i,
                {
                    let l = v.get(i).localpart();
                    out.append(l.as_str());
                    out.append(" ");
                    proof {
                        crate::text::lemma_joined_take(v@, |u: Seq<char>| ping_plain(u), i as int);
                    }
                    i = i + 1;
                }
                assert(v@.take(n as int) =~= v@);
                let chars = to_chars(out.as_str());
                trim(chars.as_slice())
            },
        }
    }
}

impl Default for MatrixFormattedTextResponse {
    fn default() -> (r: Self)
        ensures
            r.users_view() is None,
    {
        MatrixFormattedTextResponse::new()
    }
}

// ---------------------------------------------------------------------------
/// The HTML of one error line.
pub open spec fn error_html(e: Seq<char>) -> Seq<char> {
    "<font color=\"#ff4b55\">"@ + e + "</font>\n"@
}

/// A formatted notice that reports errors.
#[derive(Debug)]
pub struct MatrixFormattedNoticeResponse {
    errors: Option<Vec<String>>,
}

impl MatrixFormattedNoticeResponse {
    /// The errors reported so far.
    pub closed spec fn errors_view(&self) -> Option<Seq<Seq<char>>> {
        opt_strings_view(self.errors)
    }

    /// The plain text: the errors one per line, trimmed of white space.
    pub open spec fn text_view(&self) -> Seq<char> {
        trimmed(opt_lines(self.errors_view()))
    }

    /// The HTML: each error in red, one per line.
    pub open spec fn formatted_view(&self) -> Option<Seq<char>> {
        match self.errors_view() {
            Some(v) => Some(joined(v, |e: Seq<char>| error_html(e))),
            None => None,
        }
    }

    /// A notice with no errors.
    pub fn new() -> (r: Self)
        ensures
            r.errors_view() is None,
    {
        MatrixFormattedNoticeResponse { errors: None }
    }

    /// Adds errors after those reported so far.
    pub fn add_errrors(&mut self, errors: Vec<String>)
        ensures
            final(self).errors_view() == Some(
                match old(self).errors_view() {
                    Some(v) => v + strings_view(errors),
                    None => strings_view(errors),
                },
            ),
    {
        let mut current: Option<Vec<String>> = None;
        std::mem::swap(&mut current, &mut self.errors);
        let mut v: Vec<String> = match current {
            Some(v) => v,
            None => Vec::new(),
        };
        let ghost start = strings_view(v);
        let mut i: usize = 0;
        while i < errors.len()
            invariant
                i <= errors@.len(),
                strings_view(v) == start + strings_view(errors).take(i as int),
            decreases errors@.len() - i,
        {
            let e = errors[i].clone();
            let ghost prev = strings_view(v);
            v.push(e);
            proof {
                assert(strings_view(v) =~= prev.push(errors@[i as int]@));
                assert(strings_view(errors).take(i + 1) =~= strings_view(errors).take(
                    i as int,
                ).push(errors@[i as int]@));
            }
            i = i + 1;
        }
        assert(strings_view(errors).take(i as int) =~= strings_view(errors));
        self.errors = Some(v);
    }

    /// The HTML of the notice, if errors have been added.
    pub fn format_text(&self) -> (r: Option<String>)
        ensures
            r matches Some(t) ==> self.formatted_view() == Some(t@),
            r is None ==> self.formatted_view() is None,
    {
        match &self.errors {
            None => None,
            Some(v) => {
                let mut out = String::new();
                let mut i: usize = 0;
                while i < v.len()
                    invariant
                        i <= v@.len(),
                        out@ == joined(strings_view(*v).take(i as int), |e: Seq<char>| error_html(e)),
                    decreases v@.len() - i,
                {
                    out.append("<font color=\"#ff4b55\">");
                    out.append(v[i].as_str());
                    out.append("</font>\n");
                    proof {
                        crate::text::lemma_joined_take(
                            strings_view(*v),
                            |e: Seq<char>| error_html(e),
                            i as int,
                        );
                    }
                    i = i + 1;
                }
                assert(strings_view(*v).take(i as int) =~= strings_view(*v));
                Some(out)
            },
        }
    }

    /// The plain text of the notice (its display text).
    pub fn to_string(&self) -> (r: String)
        ensures
            r@ == self.text_view(),
    {
        let mut out = String::new();
        match &self.errors {
            Some(v) => push_lines(&mut out, v),
            None => {},
        }
        assert(out@ =~= opt_lines(self.errors_view()));
        let chars = to_chars(out.as_str());
        trim(chars.as_slice())
    }
}

impl Default for MatrixFormattedNoticeResponse {
    fn default() -> (r: Self)
        ensures
            r.errors_view() is None,
    {
        MatrixFormattedNoticeResponse::new()
    }
}

} // verus!
