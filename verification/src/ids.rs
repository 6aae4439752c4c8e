//! Matrix user identifiers, and the URL and URI parsers whose results the
//! bot puts into its replies.
use vstd::prelude::*;

verus! {

/// Whether ruma's `UserId::parse` accepts a string as a user ID.
pub uninterp spec fn user_id_accepted(s: Seq<char>) -> bool;

/// What `url::Url::parse` followed by serialization gives for a string, or
/// `None` where it rejects it.
pub uninterp spec fn url_serialization(s: Seq<char>) -> Option<Seq<char>>;

/// What `axum::http::Uri` parsing followed by display gives for a string,
/// or `None` where it rejects it.
pub uninterp spec fn uri_display(s: Seq<char>) -> Option<Seq<char>>;

/// Whether `s` holds a `:` somewhere after its first character.
pub open spec fn has_colon_after_sigil(s: Seq<char>) -> bool {
    exists|c: int| 1 <= c < s.len() && #[trigger] s[c] == ':'
}

/// Calls `ruma::UserId::parse`. The result is `Some` exactly when ruma
/// accepts the string (named `user_id_accepted`), and then holds the string
/// unchanged; the source of ruma's validation shows that an accepted string
/// starts with `@` and holds a `:` after it. The rest of ruma's rules (the
/// length limit, the server name grammar, the characters of the localpart)
/// are not stated.
#[verifier::external_body]
fn ruma_parse_user_id(s: &str) -> (r: Option<String>)
    ensures
        r is Some <==> user_id_accepted(s@),
        r matches Some(v) ==> v@ == s@,
        r is Some ==> s@.len() > 0 && s@[0] == '@' && has_colon_after_sigil(s@),
{
    ruma::UserId::parse(s).ok().map(|u| u.to_string())
}

/// Calls `url::Url::parse` and serializes the result; the result is named
/// `url_serialization`.
#[verifier::external_body]
pub(crate) fn parse_url(s: &str) -> (r: Option<String>)
    ensures
        r matches Some(v) ==> url_serialization(s@) == Some(v@),
        r is None ==> url_serialization(s@) is None,
{
    url::Url::parse(s).ok().map(|u| u.to_string())
}

/// Parses `s` as an `axum::http::Uri` and displays the result; the result
/// is named `uri_display`.
#[verifier::external_body]
pub(crate) fn parse_uri(s: &str) -> (r: Option<String>)
    ensures
        r matches Some(v) ==> uri_display(s@) == Some(v@),
        r is None ==> uri_display(s@) is None,
{
    s.parse::<axum::http::Uri>().ok().map(|u| u.to_string())
}

/// The position of the first `:` in `s` at or after `i`, or `s.len()`.
pub open spec fn first_colon_from(s: Seq<char>, i: int) -> int
    decreases s.len() - i,
{
    if i < 0 || i >= s.len() {
        s.len() as int
    } else if s[i] == ':' {
        i
    } else {
        first_colon_from(s, i + 1)
    }
}

/// The localpart of a user ID: what lies between the leading `@` and the
/// first `:`.
pub open spec fn localpart_of(s: Seq<char>) -> Seq<char> {
    s.subrange(1, first_colon_from(s, 1))
}

proof fn lemma_first_colon_from(s: Seq<char>, i: int)
    requires
        0 <= i <= s.len(),
    ensures
        i <= first_colon_from(s, i) <= s.len(),
        forall|x: int| i <= x < first_colon_from(s, i) ==> s[x] != ':',
    decreases s.len() - i,
{
    if i < s.len() && s[i] != ':' {
        lemma_first_colon_from(s, i + 1);
    }
}

/// Why a string is not a user ID.
#[derive(Clone, Copy, Debug, PartialEq, Eq)]
pub enum IdError {
    /// ruma rejected the string as a user ID.
    InvalidUserId,
}

/// A Matrix user ID that ruma accepts, such as `@alice:example.org`.
#[derive(Debug)]
pub struct UserId {
    id: String,
}

impl UserId {
    #[verifier::type_invariant]
    spec fn wf(self) -> bool {
        &&& user_id_accepted(self.id@)
        &&& self.id@.len() > 0
        &&& self.id@[0] == '@'
        &&& has_colon_after_sigil(self.id@)
    }

    /// The user ID as characters.
    pub closed spec fn view(&self) -> Seq<char> {
        self.id@
    }

    /// Parses a user ID; fails exactly where ruma's `UserId::parse` fails.
    pub fn parse(s: &str) -> (r: Result<UserId, IdError>)
        ensures
            r is Ok <==> user_id_accepted(s@),
            r matches Ok(u) ==> u@ == s@,
            r matches Err(e) ==> e == IdError::InvalidUserId,
    {
        match ruma_parse_user_id(s) {
            Some(v) => Ok(UserId { id: v }),
            None => Err(IdError::InvalidUserId),
        }
    }

    /// The user ID as a string slice.
    pub fn as_str(&self) -> (r: &str)
        ensures
            r@ == self@,
            user_id_accepted(self@),
            self@.len() > 0 && self@[0] == '@' && has_colon_after_sigil(self@),
    {
        proof {
            use_type_invariant(self);
        }
        self.id.as_str()
    }

    /// The localpart: what lies between the leading `@` and the first `:`.
    pub fn localpart(&self) -> (r: String)
        ensures
            r@ == localpart_of(self@),
    {
        proof {
            use_type_invariant(self);
        }
        let s = crate::text::to_chars(self.id.as_str());
        let mut e: usize = 1;
        proof {
            lemma_first_colon_from(s@, 1);
        }
        while e < s.len() && s[e] != ':'
            invariant
                1 <= e <= s@.len(),
                first_colon_from(s@, e as int) == first_colon_from(s@, 1),
            decreases s@.len() - e,
        {
            e = e + 1;
        }
        crate::text::substring(s.as_slice(), 1, e)
    }

    /// Whether two user IDs are the same.
    pub fn same_as(&self, other: &UserId) -> (b: bool)
        ensures
            b == (self@ == other@),
    {
        self.id == other.id
    }

    /// A copy of the user ID.
    pub fn duplicate(&self) -> (r: UserId)
        ensures
            r@ == self@,
    {
        proof {
            use_type_invariant(self);
        }
        UserId { id: self.id.clone() }
    }
}

} // verus!
