//! The spelling corrections: the configured misspellings, how a message is
//! checked against them, and the text of a correction.
use vstd::prelude::*;
use crate::ids::{localpart_of, UserId};
use crate::text::{
    contains_str, has_substring, lowercased, replace_first, replace_first_str, to_lowercase,
};

verus! {

/// A spelling matched without regard to case.
#[derive(Debug)]
pub struct InsensitiveSpelling {
    pub spelling: String,
}

/// A spelling matched exactly.
#[derive(Debug)]
pub struct SensitiveSpelling {
    pub spelling: String,
}

/// A configured misspelling and how it is matched.
#[derive(Debug)]
pub enum SpellCheckKind {
    SpellCheckInsensitive(InsensitiveSpelling),
    SpellCheckSensitive(SensitiveSpelling),
}

impl InsensitiveSpelling {
    pub fn from(s: &str) -> (r: Self)
        ensures
            r.spelling@ == s@,
    {
        InsensitiveSpelling { spelling: String::from_str(s) }
    }

    /// The spelling itself.
    pub fn to_string(&self) -> (r: String)
        ensures
            r@ == self.spelling@,
    {
        self.spelling.clone()
    }
}

impl SensitiveSpelling {
    pub fn from(s: &str) -> (r: Self)
        ensures
            r.spelling@ == s@,
    {
        SensitiveSpelling { spelling: String::from_str(s) }
    }

    /// The spelling itself.
    pub fn to_string(&self) -> (r: String)
        ensures
            r@ == self.spelling@,
    {
        self.spelling.clone()
    }
}

impl SpellCheckKind {
    /// The characters of the spelling.
    pub open spec fn spelling_view(self) -> Seq<char> {
        match self {
            SpellCheckKind::SpellCheckInsensitive(v) => v.spelling@,
            SpellCheckKind::SpellCheckSensitive(v) => v.spelling@,
        }
    }

    /// Whether `body` holds this misspelling: an insensitive one whatever the
    /// case (both in lower case), a sensitive one as written.
    pub open spec fn found_in(self, body: Seq<char>) -> bool {
        match self {
            SpellCheckKind::SpellCheckInsensitive(v) => has_substring(
                lowercased(body),
                lowercased(v.spelling@),
            ),
            SpellCheckKind::SpellCheckSensitive(v) => has_substring(body, v.spelling@),
        }
    }

    /// The spelling itself, whatever its kind.
    pub fn to_string(&self) -> (r: String)
        ensures
            r@ == self.spelling_view(),
    {
        match self {
            SpellCheckKind::SpellCheckInsensitive(v) => v.to_string(),
            SpellCheckKind::SpellCheckSensitive(v) => v.to_string(),
        }
    }

    /// A copy of this misspelling.
    pub fn duplicate(&self) -> (r: Self)
        ensures
            r.found_in_same(*self),
    {
        match self {
            SpellCheckKind::SpellCheckInsensitive(v) => SpellCheckKind::SpellCheckInsensitive(
                InsensitiveSpelling { spelling: v.spelling.clone() },
            ),
            SpellCheckKind::SpellCheckSensitive(v) => SpellCheckKind::SpellCheckSensitive(
                SensitiveSpelling { spelling: v.spelling.clone() },
            ),
        }
    }

    /// Same kind and same spelling.
    pub open spec fn found_in_same(self, other: Self) -> bool {
        &&& self.spelling_view() == other.spelling_view()
        &&& (self is SpellCheckInsensitive <==> other is SpellCheckInsensitive)
    }

    /// Whether `body` holds this misspelling.
    pub fn is_found_in(&self, body: &str) -> (b: bool)
        ensures
            b == self.found_in(body@),
    {
        match self {
            SpellCheckKind::SpellCheckInsensitive(v) => {
                let low = to_lowercase(v.spelling.as_str());
                let body_low = to_lowercase(body);
                contains_str(body_low.as_str(), low.as_str())
            },
            SpellCheckKind::SpellCheckSensitive(v) => contains_str(body, v.spelling.as_str()),
        }
    }
}

/// The characters of each misspelling, with its kind.
pub open spec fn spellings_view(v: Seq<SpellCheckKind>) -> Seq<(bool, Seq<char>)> {
    v.map_values(|k: SpellCheckKind| (k is SpellCheckInsensitive, k.spelling_view()))
}

pub open spec fn placeholder() -> Seq<char> {
    seq!['{', '}']
}

/// The correction text with its first `{}` replaced by the user's name and
/// its next `{}` by the misspelling.
pub open spec fn filled_correction(text: Seq<char>, user: Seq<char>, spelling: Seq<char>) -> Seq<
    char,
> {
    replace_first(replace_first(text, placeholder(), user), placeholder(), spelling)
}

/// The correction built for the last of the first `k` misspellings that
/// `body` holds; empty when it holds none of them.
pub open spec fn correction_for(
    spellings: Seq<SpellCheckKind>,
    k: int,
    body: Seq<char>,
    text: Seq<char>,
    user: Seq<char>,
) -> Seq<char>
    decreases k,
{
    if k <= 0 {
        seq![]
    } else if spellings[k - 1].found_in(body) {
        filled_correction(text, user, spellings[k - 1].spelling_view())
    } else {
        correction_for(spellings, k - 1, body, text, user)
    }
}

/// Checks `body` against every misspelling, in order. The correction for
/// the last one found is returned, unless it comes out empty.
pub fn spellcheck(
    body: &str,
    sender: &UserId,
    incorrect_spellings: &Vec<SpellCheckKind>,
    correction_text: &str,
) -> (r: Option<String>)
    ensures
        ({
            let c = correction_for(
                incorrect_spellings@,
                incorrect_spellings@.len() as int,
                body@,
                correction_text@,
                localpart_of(sender@),
            );
            match r {
                Some(s) => s@ == c && c.len() > 0,
                None => c.len() == 0,
            }
        }),
{
    let user = sender.localpart();
    let mut result = String::new();
    let mut i: usize = 0;
    while i < incorrect_spellings.len()
        invariant
            i <= incorrect_spellings@.len(),
            user@ == localpart_of(sender@),
            result@ == correction_for(
                incorrect_spellings@,
                i as int,
                body@,
                correction_text@,
                localpart_of(sender@),
            ),
        decreases incorrect_spellings@.len() - i,
    {
        proof {
            reveal_strlit("{}");
            assert("{}"@ =~= placeholder());
        }
        let kind = &incorrect_spellings[i];
        if kind.is_found_in(body) {
            let spelling = kind.to_string();
            let first = replace_first_str(correction_text, "{}", user.as_str());
            result = replace_first_str(first.as_str(), "{}", spelling.as_str());
        }
        i = i + 1;
    }
    if result.as_str().is_empty() {
        None
    } else {
        Some(result)
    }
}

pub open spec fn interjection_opening() -> Seq<char> {
    "I'd just like to interject for a moment "@
}

pub open spec fn interjection_middle() -> Seq<char> {
    ". What you're referring to as "@
}

pub open spec fn interjection_closing() -> Seq<char> {
    ", is in fact, Jellyfin, or as I've recently taken to calling it, Emby plus Jellyfin. Jellyfin is not a media server unto itself, but a free component of a media server as defined by Luke Pulverenti. Through a peculiar turn of events, the version of Jellyfin which is widely used today is basically developed with slave labor. Please recognize the harm caused to the slaves by misnaming the project."@
}

/// The fixed correction addressed to `user` about `incorrect_spelling`.
pub fn correct_spelling(user: &str, incorrect_spelling: &str) -> (r: String)
    ensures
        r@ == interjection_opening() + user@ + interjection_middle() + incorrect_spelling@
            + interjection_closing(),
{
    let mut r = String::from_str("I'd just like to interject for a moment ");
    r.append(user);
    r.append(". What you're referring to as ");
    r.append(incorrect_spelling);
    r.append(", is in fact, Jellyfin, or as I've recently taken to calling it, Emby plus Jellyfin. Jellyfin is not a media server unto itself, but a free component of a media server as defined by Luke Pulverenti. Through a peculiar turn of events, the version of Jellyfin which is widely used today is basically developed with slave labor. Please recognize the harm caused to the slaves by misnaming the project.");
    r
}

} // verus!
