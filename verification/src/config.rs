//! The bot's configuration: the raw settings as read from `config.toml`,
//! the rules that turn them into the runtime configuration, and the errors
//! that stop the bot from starting.
use vstd::prelude::*;
use crate::ids::{parse_uri, uri_display, user_id_accepted, UserId};
use crate::response::{with_inserted, UserSet};
use crate::spelling::{spellings_view, InsensitiveSpelling, SensitiveSpelling, SpellCheckKind};
use crate::text::{
    clone_pairs, clone_strings, distinct, distinct_strings, first_char_is, pairs_view, remove_char, starts_with_char,
    str_eq, strs_view, without_char,
};

verus! {

// ---------------------------------------------------------------------------
// Raw settings
/// The `[general]` table of the configuration file.
#[derive(Debug)]
pub struct RawGeneral {
    /// Users allowed to invite the bot and to ban.
    pub authorized_users: Option<Vec<String>>,
    /// Rooms in which `!help` answers; all rooms when absent or empty.
    pub help_rooms: Option<Vec<String>>,
    /// Rooms in which a ban applies.
    pub ban_rooms: Option<Vec<String>>,
    pub enable_unit_conversions: bool,
    pub enable_corrections: bool,
    /// Units that are not converted when a space stands before them.
    pub unit_conversion_exclusion: Option<Vec<String>>,
    /// Misspellings matched without regard to case.
    pub insensitive_corrections: Option<Vec<String>>,
    /// Misspellings matched exactly.
    pub sensitive_corrections: Option<Vec<String>>,
    /// The correction, with two `{}` for the user and the misspelling.
    pub correction_text: Option<String>,
    /// Rooms in which no correction is made.
    pub correction_exclusion: Option<Vec<String>>,
    /// Keywords that introduce a link, as in `link@item`.
    pub link_matchers: Option<Vec<String>>,
    pub webhook_token: String,
}

/// The `[matrix_authentication]` table.
#[derive(Debug)]
pub struct RawMatrixAuthentication {
    pub url: String,
    pub username: String,
    pub password: String,
}

/// The `[github_authentication]` table.
#[derive(Debug)]
pub struct RawGithubAuthentication {
    pub access_token: String,
}

/// The configuration file as read. Tables are lists of key and value, in
/// the order in which the file gives them; their keys are distinct.
#[derive(Debug)]
pub struct RawConfig {
    pub general: RawGeneral,
    pub matrix_authentication: RawMatrixAuthentication,
    pub github_authentication: Option<RawGithubAuthentication>,
    /// Short repository names and their `owner/repo`.
    pub searchable_repos: Option<Vec<(String, String)>>,
    /// Linkable items and their URLs.
    pub linkable_urls: Option<Vec<(String, String)>>,
    /// Keywords and the text they expand to.
    pub text_expansion: Option<Vec<(String, String)>>,
    /// Group names and their members: user IDs, or `%group` for the user
    /// IDs of another group.
    pub group_pings: Option<Vec<(String, Vec<String>)>>,
}

/// The characters of each string of an optional list.
pub open spec fn opt_strs_view(o: Option<Vec<String>>) -> Option<Seq<Seq<char>>> {
    match o {
        Some(v) => Some(strs_view(v@)),
        None => None,
    }
}

/// The characters of each pair of an optional table.
pub open spec fn opt_pairs_view(o: Option<Vec<(String, String)>>) -> Option<
    Seq<(Seq<char>, Seq<char>)>,
> {
    match o {
        Some(v) => Some(pairs_view(v@)),
        None => None,
    }
}

/// The group table as characters.
pub open spec fn raw_groups_view(v: Seq<(String, Vec<String>)>) -> Seq<
    (Seq<char>, Seq<Seq<char>>),
> {
    v.map_values(|g: (String, Vec<String>)| (g.0@, strs_view(g.1@)))
}

/// The expanded groups as characters.
pub open spec fn groups_view(v: Seq<(String, UserSet)>) -> Seq<(Seq<char>, Seq<Seq<char>>)> {
    v.map_values(|g: (String, UserSet)| (g.0@, g.1@))
}

// ---------------------------------------------------------------------------
// Errors
/// Why the configuration cannot be loaded.
#[derive(Debug)]
pub enum ConfigError {
    /// Searchable repositories are configured without a GitHub token.
    MissingGithubToken,
    /// Link matchers and linkable URLs are configured, but no URL.
    EmptyLinkableUrls,
    /// Corrections are enabled without insensitive misspellings.
    MissingInsensitiveCorrections,
    /// Corrections are enabled without sensitive misspellings.
    MissingSensitiveCorrections,
    /// Corrections are enabled without a correction text.
    MissingCorrectionText,
    /// No authorized user is configured.
    NoAuthorizedUsers,
    /// The homeserver URL is not a URI.
    InvalidHomeserverUrl,
    /// A group lists the reserved `%all`.
    ReservedGroupName,
    /// A group member that should be a user ID is not one.
    InvalidGroupMember(String),
    /// A configured user ID is not one.
    InvalidUserId(String),
}

/// A configuration error with its text as characters.
pub enum ConfigFault {
    MissingGithubToken,
    EmptyLinkableUrls,
    MissingInsensitiveCorrections,
    MissingSensitiveCorrections,
    MissingCorrectionText,
    NoAuthorizedUsers,
    InvalidHomeserverUrl,
    ReservedGroupName,
    InvalidGroupMember(Seq<char>),
    InvalidUserId(Seq<char>),
}

impl ConfigError {
    pub open spec fn view(&self) -> ConfigFault {
        match self {
            ConfigError::MissingGithubToken => ConfigFault::MissingGithubToken,
            ConfigError::EmptyLinkableUrls => ConfigFault::EmptyLinkableUrls,
            ConfigError::MissingInsensitiveCorrections => ConfigFault::MissingInsensitiveCorrections,
            ConfigError::MissingSensitiveCorrections => ConfigFault::MissingSensitiveCorrections,
            ConfigError::MissingCorrectionText => ConfigFault::MissingCorrectionText,
            ConfigError::NoAuthorizedUsers => ConfigFault::NoAuthorizedUsers,
            ConfigError::InvalidHomeserverUrl => ConfigFault::InvalidHomeserverUrl,
            ConfigError::ReservedGroupName => ConfigFault::ReservedGroupName,
            ConfigError::InvalidGroupMember(s) => ConfigFault::InvalidGroupMember(s@),
            ConfigError::InvalidUserId(s) => ConfigFault::InvalidUserId(s@),
        }
    }

    /// The text of the error, as the bot reports it.
    pub fn message(&self) -> (r: String)
        ensures
            r@ == fault_message(self@),
    {
        match self {
            ConfigError::MissingGithubToken => String::from_str(
                "Searchable repos configured, but no github access token found. Unable to continue...",
            ),
            ConfigError::EmptyLinkableUrls => String::from_str(
                "Link matchers exist, but none are set. Exiting...",
            ),
            ConfigError::MissingInsensitiveCorrections => String::from_str(
                "No case insensitive corrections provided even though corrections have been enabled.",
            ),
            ConfigError::MissingSensitiveCorrections => String::from_str(
                "No case sensitive corrections provided even though case corrections have been enabled.",
            ),
            ConfigError::MissingCorrectionText => String::from_str(
                "No correction text provided, even though corrections have been enabled.",
            ),
            ConfigError::NoAuthorizedUsers => String::from_str(
                "You must provide at least 1 authorized user",
            ),
            ConfigError::InvalidHomeserverUrl => String::from_str("Invalid homeserevr URL"),
            ConfigError::ReservedGroupName => String::from_str(
                "%all is a reserved group_ping name, do not configure it manually",
            ),
            ConfigError::InvalidGroupMember(s) => {
                let mut r = String::from_str(
                    "Somehow got an alias in a part of code meant to handle UserIds: ",
                );
                r.append(s.as_str());
                r
            },
            ConfigError::InvalidUserId(s) => {
                let mut r = String::from_str("Invalid toml: not a user ID: ");
                r.append(s.as_str());
                r
            },
        }
    }
}

/// The text reported for each configuration error.
pub open spec fn fault_message(f: ConfigFault) -> Seq<char> {
    match f {
        ConfigFault::MissingGithubToken =>
            "Searchable repos configured, but no github access token found. Unable to continue..."@,
        ConfigFault::EmptyLinkableUrls => "Link matchers exist, but none are set. Exiting..."@,
        ConfigFault::MissingInsensitiveCorrections =>
            "No case insensitive corrections provided even though corrections have been enabled."@,
        ConfigFault::MissingSensitiveCorrections =>
            "No case sensitive corrections provided even though case corrections have been enabled."@,
        ConfigFault::MissingCorrectionText =>
            "No correction text provided, even though corrections have been enabled."@,
        ConfigFault::NoAuthorizedUsers => "You must provide at least 1 authorized user"@,
        ConfigFault::InvalidHomeserverUrl => "Invalid homeserevr URL"@,
        ConfigFault::ReservedGroupName =>
            "%all is a reserved group_ping name, do not configure it manually"@,
        ConfigFault::InvalidGroupMember(s) =>
            "Somehow got an alias in a part of code meant to handle UserIds: "@ + s,
        ConfigFault::InvalidUserId(s) => "Invalid toml: not a user ID: "@ + s,
    }
}

// ---------------------------------------------------------------------------
// Loading each setting
/// Searchable repositories and the GitHub token: both, or neither.
pub fn load_github_settings(toml: &RawConfig) -> (r: Result<(Vec<(String, String)>, String), ConfigError>)
    ensures
        match opt_pairs_view(toml.searchable_repos) {
            Some(repos) => match toml.github_authentication {
                Some(g) => r matches Ok((rs, token)) && pairs_view(rs@) == repos && token@
                    == g.access_token@,
                None => r matches Err(e) && e@ == ConfigFault::MissingGithubToken,
            },
            None => r matches Ok((rs, token)) && rs@.len() == 0 && token@.len() == 0,
        },
{
    match &toml.searchable_repos {
        Some(r) => match &toml.github_authentication {
            Some(g) => Ok((clone_pairs(r), g.access_token.clone())),
            None => Err(ConfigError::MissingGithubToken),
        },
        None => Ok((Vec::new(), String::new())),
    }
}

/// Whether every URL of a table is a URI.
pub open spec fn all_uris(d: Seq<(Seq<char>, Seq<char>)>) -> bool {
    forall|i: int| 0 <= i < d.len() ==> (#[trigger] uri_display(d[i].1)) is Some
}

/// The table with each URL replaced by its display as a URI.
pub open spec fn uri_table(d: Seq<(Seq<char>, Seq<char>)>) -> Seq<(Seq<char>, Seq<char>)> {
    d.map_values(|p: (Seq<char>, Seq<char>)| (p.0, uri_display(p.1)->0))
}

/// Whether loading the link settings parses the URLs: both tables are
/// there and the URL table is not empty.
pub open spec fn parses_links(toml: RawConfig) -> bool {
    &&& toml.linkable_urls is Some
    &&& toml.general.link_matchers is Some
    &&& toml.linkable_urls->0@.len() > 0
}

/// Link keywords and linkable URLs: both, or the feature is off. An empty
/// URL table beside keywords is an error. Every URL must be a URI. A
/// keyword listed twice is kept once.
pub fn load_linker_settings(toml: &RawConfig) -> (r: Result<(Vec<String>, Vec<(String, String)>), ConfigError>)
    requires
        parses_links(*toml) ==> all_uris(pairs_view(toml.linkable_urls->0@)),
    ensures
        match (opt_pairs_view(toml.linkable_urls), opt_strs_view(toml.general.link_matchers)) {
            (Some(d), Some(m)) => if d.len() > 0 {
                r matches Ok((ms, ls)) && strs_view(ms@) == distinct(m) && pairs_view(ls@) == uri_table(d)
            } else {
                r matches Err(e) && e@ == ConfigFault::EmptyLinkableUrls
            },
            _ => r matches Ok((ms, ls)) && ms@.len() == 0 && ls@.len() == 0,
        },
{
    match &toml.linkable_urls {
        Some(d) => match &toml.general.link_matchers {
            Some(m) => {
                if d.len() > 0 {
                    let mut links: Vec<(String, String)> = Vec::new();
                    let mut i: usize = 0;
                    while i < d.len()
                        invariant
                            i <= d@.len(),
                            all_uris(pairs_view(d@)),
                            pairs_view(links@) == uri_table(pairs_view(d@)).take(i as int),
                        decreases d@.len() - i,
                    {
                        let (k, v) = &d[i];
                        assert(pairs_view(d@)[i as int].1 == v@);
                        let u = parse_uri(v.as_str());
                        match u {
                            Some(u) => {
                                let ghost prev = links@;
                                let item = (k.clone(), u);
                                links.push(item);
                                proof {
                                    assert(links@ =~= prev.push(item));
                                    assert(pairs_view(links@) =~= pairs_view(prev).push(
                                        (k@, uri_display(v@)->0),
                                    ));
                                    assert(pairs_view(links@) =~= uri_table(pairs_view(d@)).take(
                                        i + 1,
                                    ));
                                }
                            },
                            None => {
                                assert(uri_display(pairs_view(d@)[i as int].1) is Some);
                                assert(false);
                            },
                        }
                        i = i + 1;
                    }
                    assert(uri_table(pairs_view(d@)).take(i as int) =~= uri_table(pairs_view(d@)));
                    Ok((distinct_strings(clone_strings(m)), links))
                } else {
                    Err(ConfigError::EmptyLinkableUrls)
                }
            },
            None => Ok((Vec::new(), Vec::new())),
        },
        None => Ok((Vec::new(), Vec::new())),
    }
}

/// The text expansions, or none.
pub fn load_text_expansions(toml: &RawConfig) -> (r: Vec<(String, String)>)
    ensures
        match opt_pairs_view(toml.text_expansion) {
            Some(d) => pairs_view(r@) == d,
            None => r@.len() == 0,
        },
{
    match &toml.text_expansion {
        Some(d) => clone_pairs(d),
        None => Vec::new(),
    }
}

/// Each excluded unit with a space before it.
pub open spec fn spaced(v: Seq<Seq<char>>) -> Seq<Seq<char>> {
    v.map_values(|u: Seq<char>| seq![' '] + u)
}

/// The excluded units, each with a space before it and kept once, or none.
pub fn load_unit_conversion_settings(toml: &RawConfig) -> (r: Vec<String>)
    ensures
        match opt_strs_view(toml.general.unit_conversion_exclusion) {
            Some(v) => strs_view(r@) == distinct(spaced(v)),
            None => r@.len() == 0,
        },
{
    match &toml.general.unit_conversion_exclusion {
        Some(v) => {
            let mut out: Vec<String> = Vec::new();
            let mut i: usize = 0;
            while i < v.len()
                invariant
                    i <= v@.len(),
                    strs_view(out@) == spaced(strs_view(v@)).take(i as int),
                decreases v@.len() - i,
            {
                let mut e = String::from_str(" ");
                e.append(v[i].as_str());
                proof {
                    reveal_strlit(" ");
                }
                let ghost prev = out@;
                out.push(e);
                proof {
                    assert(out@ =~= prev.push(e));
                    assert(strs_view(out@) =~= strs_view(prev).push(e@));
                    assert(e@ =~= seq![' '] + strs_view(v@)[i as int]);
                    assert(strs_view(out@) =~= spaced(strs_view(v@)).take(i + 1));
                }
                i = i + 1;
            }
            assert(spaced(strs_view(v@)).take(i as int) =~= spaced(strs_view(v@)));
            distinct_strings(out)
        },
        None => Vec::new(),
    }
}

/// The misspellings: the insensitive ones, then the sensitive ones.
pub open spec fn spelling_list(ins: Seq<Seq<char>>, sens: Seq<Seq<char>>) -> Seq<(bool, Seq<char>)> {
    ins.map_values(|s: Seq<char>| (true, s)) + sens.map_values(|s: Seq<char>| (false, s))
}

/// Appends one misspelling of each string of `v`, of the given kind.
fn push_spellings(out: &mut Vec<SpellCheckKind>, v: &Vec<String>, insensitive: bool)
    ensures
        spellings_view(final(out)@) == spellings_view(old(out)@) + strs_view(v@).map_values(
            |s: Seq<char>| (insensitive, s),
        ),
{
    let ghost start = spellings_view(out@);
    let mut i: usize = 0;
    while i < v.len()
        invariant
            i <= v@.len(),
            spellings_view(out@) == start + strs_view(v@).take(i as int).map_values(
                |s: Seq<char>| (insensitive, s),
            ),
        decreases v@.len() - i,
    {
        let k = if insensitive {
            SpellCheckKind::SpellCheckInsensitive(InsensitiveSpelling { spelling: v[i].clone() })
        } else {
            SpellCheckKind::SpellCheckSensitive(SensitiveSpelling { spelling: v[i].clone() })
        };
        let ghost prev = out@;
        out.push(k);
        proof {
            assert(out@ =~= prev.push(k));
            assert(spellings_view(out@) =~= spellings_view(prev).push((insensitive, v@[i as int]@)));
            assert(strs_view(v@).take(i + 1).map_values(|s: Seq<char>| (insensitive, s))
                =~= strs_view(v@).take(i as int).map_values(|s: Seq<char>| (insensitive, s)).push(
                (insensitive, v@[i as int]@),
            ));
        }
        i = i + 1;
    }
    assert(strs_view(v@).take(i as int) =~= strs_view(v@));
}

/// The correction settings. With corrections on, both lists of
/// misspellings and the text are required; the excluded rooms are optional
/// and each is kept once.
pub fn load_spell_correct_settings(toml: &RawConfig) -> (r: Result<
    (Vec<SpellCheckKind>, String, Vec<String>),
    ConfigError,
>)
    ensures
        !toml.general.enable_corrections ==> (r matches Ok((k, t, e)) && k@.len() == 0
            && t@.len() == 0 && e@.len() == 0),
        toml.general.enable_corrections ==> match (
            opt_strs_view(toml.general.insensitive_corrections),
            opt_strs_view(toml.general.sensitive_corrections),
            toml.general.correction_text,
        ) {
            (None, _, _) => r matches Err(e) && e@ == ConfigFault::MissingInsensitiveCorrections,
            (Some(_), None, _) => r matches Err(e) && e@
                == ConfigFault::MissingSensitiveCorrections,
            (Some(_), Some(_), None) => r matches Err(e) && e@
                == ConfigFault::MissingCorrectionText,
            (Some(i), Some(s), Some(c)) => r matches Ok((k, t, e)) && spellings_view(k@)
                == spelling_list(i, s) && t@ == c@ && match opt_strs_view(
                toml.general.correction_exclusion,
            ) {
                Some(x) => strs_view(e@) == distinct(x),
                None => e@.len() == 0,
            },
        },
{
    if toml.general.enable_corrections {
        match &toml.general.insensitive_corrections {
            Some(i) => match &toml.general.sensitive_corrections {
                Some(s) => match &toml.general.correction_text {
                    Some(c) => {
                        let e = match &toml.general.correction_exclusion {
                            Some(e) => distinct_strings(clone_strings(e)),
                            None => Vec::new(),
                        };
                        let mut spk: Vec<SpellCheckKind> = Vec::new();
                        push_spellings(&mut spk, i, true);
                        push_spellings(&mut spk, s, false);
                        assert(spellings_view(spk@) =~= spelling_list(strs_view(i@), strs_view(s@)));
                        Ok((spk, c.clone(), e))
                    },
                    None => Err(ConfigError::MissingCorrectionText),
                },
                None => Err(ConfigError::MissingSensitiveCorrections),
            },
            None => Err(ConfigError::MissingInsensitiveCorrections),
        }
    } else {
        Ok((Vec::new(), String::new(), Vec::new()))
    }
}

/// The first string of `v` from position `i` on that is not a user ID.
pub open spec fn first_invalid_user(v: Seq<Seq<char>>, i: int) -> Option<Seq<char>>
    decreases v.len() - i,
{
    if i < 0 || i >= v.len() {
        None
    } else if !user_id_accepted(v[i]) {
        Some(v[i])
    } else {
        first_invalid_user(v, i + 1)
    }
}

/// `acc` with each of `v` from position `i` on added unless already there.
pub open spec fn inserted_from(acc: Seq<Seq<char>>, v: Seq<Seq<char>>, i: int) -> Seq<Seq<char>>
    decreases v.len() - i,
{
    if i < 0 || i >= v.len() {
        acc
    } else {
        inserted_from(with_inserted(acc, v[i]), v, i + 1)
    }
}

/// Parses each string as a user ID into a set: the first string that is
/// not one is the error.
pub fn parse_user_set(v: &Vec<String>) -> (r: Result<UserSet, ConfigError>)
    ensures
        match first_invalid_user(strs_view(v@), 0) {
            Some(bad) => r matches Err(e) && e@ == ConfigFault::InvalidUserId(bad),
            None => r matches Ok(set) && set@ == inserted_from(seq![], strs_view(v@), 0),
        },
{
    let mut set = UserSet::new();
    let mut i: usize = 0;
    while i < v.len()
        invariant
            i <= v@.len(),
            first_invalid_user(strs_view(v@), 0) == first_invalid_user(strs_view(v@), i as int),
            inserted_from(seq![], strs_view(v@), 0) == inserted_from(set@, strs_view(v@), i as int),
        decreases v@.len() - i,
    {
        match UserId::parse(v[i].as_str()) {
            Ok(u) => {
                set.insert(u);
            },
            Err(_) => {
                return Err(ConfigError::InvalidUserId(v[i].clone()));
            },
        }
        i = i + 1;
    }
    Ok(set)
}

/// The authorized users; at least one is required.
pub fn load_admin_settings(toml: &RawConfig) -> (r: Result<UserSet, ConfigError>)
    ensures
        match opt_strs_view(toml.general.authorized_users) {
            None => r matches Err(e) && e@ == ConfigFault::NoAuthorizedUsers,
            Some(v) => if v.len() == 0 {
                r matches Err(e) && e@ == ConfigFault::NoAuthorizedUsers
            } else {
                match first_invalid_user(v, 0) {
                Some(bad) => r matches Err(e) && e@ == ConfigFault::InvalidUserId(bad),
                None => r matches Ok(set) && set@ == inserted_from(seq![], v, 0),
            }},
        },
{
    match &toml.general.authorized_users {
        Some(v) => if v.len() == 0 {
            Err(ConfigError::NoAuthorizedUsers)
        } else {
            parse_user_set(v)
        },
        None => Err(ConfigError::NoAuthorizedUsers),
    }
}

/// The rooms in which `!help` answers, each kept once; none listed means
/// every room.
pub fn load_help_settings(toml: &RawConfig) -> (r: Vec<String>)
    ensures
        match opt_strs_view(toml.general.help_rooms) {
            Some(v) => strs_view(r@) == distinct(v),
            None => r@.len() == 0,
        },
{
    match &toml.general.help_rooms {
        Some(v) => distinct_strings(clone_strings(v)),
        None => Vec::new(),
    }
}

/// The rooms in which a ban applies, each kept once; none listed turns
/// bans off.
pub fn load_ban_room_settings(toml: &RawConfig) -> (r: Vec<String>)
    ensures
        match opt_strs_view(toml.general.ban_rooms) {
            Some(v) => strs_view(r@) == distinct(v),
            None => r@.len() == 0,
        },
{
    match &toml.general.ban_rooms {
        Some(v) => distinct_strings(clone_strings(v)),
        None => Vec::new(),
    }
}

// ---------------------------------------------------------------------------
// Group pings
pub open spec fn reserved_group() -> Seq<char> {
    seq!['%', 'a', 'l', 'l']
}

/// Whether a group member names a user: it starts with `@`.
pub open spec fn names_user(m: Seq<char>) -> bool {
    starts_with_char(m, '@')
}

/// Whether a group member names another group: it starts with `%`.
pub open spec fn names_group(m: Seq<char>) -> bool {
    starts_with_char(m, '%')
}

/// The first fault among the members of one group from position `i` on,
/// as the first pass over all members finds it: the reserved `%all`, or a
/// member that starts with `@` and is not a user ID.
pub open spec fn member_fault(ms: Seq<Seq<char>>, i: int) -> Option<ConfigFault>
    decreases ms.len() - i,
{
    if i < 0 || i >= ms.len() {
        None
    } else if ms[i] == reserved_group() {
        Some(ConfigFault::ReservedGroupName)
    } else if names_user(ms[i]) && !user_id_accepted(ms[i]) {
        Some(ConfigFault::InvalidGroupMember(ms[i]))
    } else {
        member_fault(ms, i + 1)
    }
}

/// The first fault of the first pass, over the groups from `g` on.
pub open spec fn groups_fault(gs: Seq<(Seq<char>, Seq<Seq<char>>)>, g: int) -> Option<ConfigFault>
    decreases gs.len() - g,
{
    if g < 0 || g >= gs.len() {
        None
    } else {
        match member_fault(gs[g].1, 0) {
            Some(f) => Some(f),
            None => groups_fault(gs, g + 1),
        }
    }
}

/// `acc` with each member from position `i` on that names a user added.
pub open spec fn users_from(acc: Seq<Seq<char>>, ms: Seq<Seq<char>>, i: int) -> Seq<Seq<char>>
    decreases ms.len() - i,
{
    if i < 0 || i >= ms.len() {
        acc
    } else if names_user(ms[i]) {
        users_from(with_inserted(acc, ms[i]), ms, i + 1)
    } else {
        users_from(acc, ms, i + 1)
    }
}

/// `acc` with every member that names a user, of the groups from `g` on.
pub open spec fn group_users_from(acc: Seq<Seq<char>>, gs: Seq<(Seq<char>, Seq<Seq<char>>)>, g: int) -> Seq<Seq<char>>
    decreases gs.len() - g,
{
    if g < 0 || g >= gs.len() {
        acc
    } else {
        group_users_from(users_from(acc, gs[g].1, 0), gs, g + 1)
    }
}

/// The position of the first group named `name` from `g` on, or -1.
pub open spec fn find_group(gs: Seq<(Seq<char>, Seq<Seq<char>>)>, name: Seq<char>, g: int) -> int
    decreases gs.len() - g,
{
    if g < 0 || g >= gs.len() {
        -1
    } else if gs[g].0 == name {
        g
    } else {
        find_group(gs, name, g + 1)
    }
}

/// The users of a group from member `i` on, expanded into `acc`: a `%alias`
/// member adds the members of the group `alias` (its name without any `%`)
/// that name users, and adds nothing where no such group exists; any other
/// member must be a user ID and is added.
pub open spec fn expand_members(
    gs: Seq<(Seq<char>, Seq<Seq<char>>)>,
    acc: Seq<Seq<char>>,
    ms: Seq<Seq<char>>,
    i: int,
) -> Result<Seq<Seq<char>>, ConfigFault>
    decreases ms.len() - i,
{
    if i < 0 || i >= ms.len() {
        Ok(acc)
    } else if ms[i] == reserved_group() {
        Err(ConfigFault::ReservedGroupName)
    } else if names_group(ms[i]) {
        let alias = without_char(ms[i], '%');
        let g = find_group(gs, alias, 0);
        if g < 0 {
            expand_members(gs, acc, ms, i + 1)
        } else {
            match alias_fault(gs[g].1, 0) {
                Some(f) => Err(f),
                None => expand_members(gs, users_from(acc, gs[g].1, 0), ms, i + 1),
            }
        }
    } else if !user_id_accepted(ms[i]) {
        Err(ConfigFault::InvalidGroupMember(ms[i]))
    } else {
        expand_members(gs, with_inserted(acc, ms[i]), ms, i + 1)
    }
}

/// The first member from `i` on that names a user and is not a user ID.
pub open spec fn alias_fault(ms: Seq<Seq<char>>, i: int) -> Option<ConfigFault>
    decreases ms.len() - i,
{
    if i < 0 || i >= ms.len() {
        None
    } else if names_user(ms[i]) && !user_id_accepted(ms[i]) {
        Some(ConfigFault::InvalidGroupMember(ms[i]))
    } else {
        alias_fault(ms, i + 1)
    }
}

/// The groups from `g` on, each with its expanded users, after `acc`.
pub open spec fn expand_groups(
    gs: Seq<(Seq<char>, Seq<Seq<char>>)>,
    acc: Seq<(Seq<char>, Seq<Seq<char>>)>,
    g: int,
) -> Result<Seq<(Seq<char>, Seq<Seq<char>>)>, ConfigFault>
    decreases gs.len() - g,
{
    if g < 0 || g >= gs.len() {
        Ok(acc)
    } else {
        match expand_members(gs, seq![], gs[g].1, 0) {
            Err(f) => Err(f),
            Ok(us) => expand_groups(gs, acc.push((gs[g].0, us)), g + 1),
        }
    }
}

/// The result of loading the group pings from their table: a first pass
/// over all members rejects `%all` and invalid user IDs and gathers the
/// users allowed to ping; a second pass expands each group.
pub open spec fn group_settings(gs: Seq<(Seq<char>, Seq<Seq<char>>)>) -> Result<
    (Seq<(Seq<char>, Seq<Seq<char>>)>, Seq<Seq<char>>),
    ConfigFault,
> {
    match groups_fault(gs, 0) {
        Some(f) => Err(f),
        None => match expand_groups(gs, seq![], 0) {
            Err(f) => Err(f),
            Ok(expanded) => Ok((expanded, group_users_from(seq![], gs, 0))),
        },
    }
}

/// Adds each member of `ms` that names a user to `set`; fails on the first
/// such member that is not a user ID.
fn add_user_members(set: &mut UserSet, ms: &Vec<String>) -> (r: Result<(), ConfigError>)
    ensures
        match alias_fault(strs_view(ms@), 0) {
            Some(f) => r matches Err(e) && e@ == f,
            None => r is Ok && final(set)@ == users_from(old(set)@, strs_view(ms@), 0),
        },
{
    let ghost start = set@;
    let mut i: usize = 0;
    while i < ms.len()
        invariant
            i <= ms@.len(),
            alias_fault(strs_view(ms@), 0) == alias_fault(strs_view(ms@), i as int),
            users_from(start, strs_view(ms@), 0) == users_from(set@, strs_view(ms@), i as int),
        decreases ms@.len() - i,
    {
        let m = &ms[i];
        assert(strs_view(ms@)[i as int] == m@);
        if first_char_is(m.as_str(), '@') {
            match UserId::parse(m.as_str()) {
                Ok(u) => set.insert(u),
                Err(_) => return Err(ConfigError::InvalidGroupMember(m.clone())),
            }
        }
        i = i + 1;
    }
    Ok(())
}

/// Finds the first group named `name`.
fn find_group_exec(v: &Vec<(String, Vec<String>)>, name: &str) -> (r: Option<usize>)
    ensures
        match r {
            Some(g) => g < v@.len() && find_group(raw_groups_view(v@), name@, 0) == g,
            None => find_group(raw_groups_view(v@), name@, 0) == -1,
        },
{
    let mut g: usize = 0;
    while g < v.len()
        invariant
            g <= v@.len(),
            find_group(raw_groups_view(v@), name@, 0) == find_group(raw_groups_view(v@), name@, g as int),
        decreases v@.len() - g,
    {
        if str_eq(v[g].0.as_str(), name) {
            return Some(g);
        }
        g = g + 1;
    }
    None
}

/// The expanded users of one group.
fn expand_group(v: &Vec<(String, Vec<String>)>, ms: &Vec<String>) -> (r: Result<UserSet, ConfigError>)
    ensures
        match expand_members(raw_groups_view(v@), seq![], strs_view(ms@), 0) {
            Ok(us) => r matches Ok(set) && set@ == us,
            Err(f) => r matches Err(e) && e@ == f,
        },
{
    let ghost gs = raw_groups_view(v@);
    let mut set = UserSet::new();
    let mut i: usize = 0;
    while i < ms.len()
        invariant
            i <= ms@.len(),
            gs == raw_groups_view(v@),
            expand_members(gs, seq![], strs_view(ms@), 0) == expand_members(gs, set@, strs_view(ms@), i as int),
        decreases ms@.len() - i,
    {
        let m = &ms[i];
        assert(strs_view(ms@)[i as int] == m@);
        let is_all = str_eq(m.as_str(), "%all");
        proof {
            reveal_strlit("%all");
            assert("%all"@ =~= reserved_group());
        }
        if is_all {
            return Err(ConfigError::ReservedGroupName);
        }
        if first_char_is(m.as_str(), '%') {
            let alias = remove_char(m.as_str(), '%');
            match find_group_exec(v, alias.as_str()) {
                Some(g) => {
                    assert(gs[g as int].1 == strs_view(v@[g as int].1@));
                    let r = add_user_members(&mut set, &v[g].1);
                    if let Err(e) = r {
                        return Err(e);
                    }
                },
                None => {},
            }
        } else {
            match UserId::parse(m.as_str()) {
                Ok(u) => set.insert(u),
                Err(_) => return Err(ConfigError::InvalidGroupMember(m.clone())),
            }
        }
        i = i + 1;
    }
    Ok(set)
}

/// The groups that can be pinged, each with its expanded users, and the
/// users allowed to ping: every member of any group that names a user.
pub fn load_group_ping_settings(toml: &RawConfig) -> (r: Result<(Vec<(String, UserSet)>, UserSet), ConfigError>)
    ensures
        match toml.group_pings {
            None => r matches Ok((gs, us)) && gs@.len() == 0 && us@.len() == 0,
            Some(v) => match group_settings(raw_groups_view(v@)) {
                Ok((expanded, users)) => r matches Ok((gs, us)) && groups_view(gs@) == expanded
                    && us@ == users,
                Err(f) => r matches Err(e) && e@ == f,
            },
        },
{
    match &toml.group_pings {
        None => Ok((Vec::new(), UserSet::new())),
        Some(v) => {
            let ghost gs = raw_groups_view(v@);
            // First pass: reject the reserved name and invalid user IDs, and
            // gather the users allowed to ping.
            let mut users = UserSet::new();
            let mut g: usize = 0;
            while g < v.len()
                invariant
                    g <= v@.len(),
                    toml.group_pings == Some(*v),
                    gs == raw_groups_view(v@),
                    groups_fault(gs, 0) == groups_fault(gs, g as int),
                    group_users_from(seq![], gs, 0) == group_users_from(users@, gs, g as int),
                decreases v@.len() - g,
            {
                let ms = &v[g].1;
                assert(gs[g as int].1 == strs_view(ms@));
                let ghost before = users@;
                let mut i: usize = 0;
                while i < ms.len()
                    invariant
                        i <= ms@.len(),
                        toml.group_pings == Some(*v),
                        gs == raw_groups_view(v@),
                        g < v@.len(),
                        gs[g as int].1 == strs_view(ms@),
                        groups_fault(gs, 0) == groups_fault(gs, g as int),
                        member_fault(strs_view(ms@), 0) == member_fault(strs_view(ms@), i as int),
                        group_users_from(seq![], gs, 0) == group_users_from(
                            users_from(before, strs_view(ms@), 0),
                            gs,
                            g + 1,
                        ),
                        users_from(before, strs_view(ms@), 0) == users_from(users@, strs_view(ms@), i as int),
                    decreases ms@.len() - i,
                {
                    let m = &ms[i];
                    assert(strs_view(ms@)[i as int] == m@);
                    let is_all = str_eq(m.as_str(), "%all");
                    proof {
                        reveal_strlit("%all");
                        assert("%all"@ =~= reserved_group());
                    }
                    if is_all {
                        return Err(ConfigError::ReservedGroupName);
                    }
                    if first_char_is(m.as_str(), '@') {
                        match UserId::parse(m.as_str()) {
                            Ok(u) => users.insert(u),
                            Err(_) => return Err(ConfigError::InvalidGroupMember(m.clone())),
                        }
                    }
                    i = i + 1;
                }
                g = g + 1;
            }
            // Second pass: expand each group.
            let mut expanded: Vec<(String, UserSet)> = Vec::new();
            assert(groups_view(expanded@) =~= seq![]);
            let mut g: usize = 0;
            while g < v.len()
                invariant
                    g <= v@.len(),
                    toml.group_pings == Some(*v),
                    gs == raw_groups_view(v@),
                    groups_fault(gs, 0) is None,
                    expand_groups(gs, seq![], 0) == expand_groups(gs, groups_view(expanded@), g as int),
                    users@ == group_users_from(seq![], gs, 0),
                decreases v@.len() - g,
            {
                let (name, ms) = &v[g];
                assert(gs[g as int] == (name@, strs_view(ms@)));
                match expand_group(v, ms) {
                    Ok(set) => {
                        let ghost prev = expanded@;
                        let item = (name.clone(), set);
                        expanded.push(item);
                        proof {
                            assert(expanded@ =~= prev.push(item));
                            assert(groups_view(expanded@) =~= groups_view(prev).push((name@, item.1@)));
                        }
                    },
                    Err(e) => return Err(e),
                }
                g = g + 1;
            }
            Ok((expanded, users))
        },
    }
}

/// Whether member `m` is a `%alias` whose group does not exist, so that
/// the expansion passes over it.
pub open spec fn is_missing_alias(gs: Seq<(Seq<char>, Seq<Seq<char>>)>, m: Seq<char>) -> bool {
    names_group(m) && m != reserved_group() && find_group(gs, without_char(m, '%'), 0) < 0
}

/// The aliases (without their `%`) among `ms` that name no group, in order.
pub open spec fn missing_among(gs: Seq<(Seq<char>, Seq<Seq<char>>)>, ms: Seq<Seq<char>>) -> Seq<Seq<char>>
    decreases ms.len(),
{
    if ms.len() == 0 {
        seq![]
    } else if is_missing_alias(gs, ms.last()) {
        missing_among(gs, ms.drop_last()).push(without_char(ms.last(), '%'))
    } else {
        missing_among(gs, ms.drop_last())
    }
}

/// The aliases that name no group, over the first `k` groups in order.
pub open spec fn missing_aliases(gs: Seq<(Seq<char>, Seq<Seq<char>>)>, k: int) -> Seq<Seq<char>>
    decreases k,
{
    if k <= 0 || k > gs.len() {
        seq![]
    } else {
        missing_aliases(gs, k - 1) + missing_among(gs, gs[k - 1].1)
    }
}

/// The group aliases that name no group and that loading the group pings
/// therefore ignores, in the order the groups list them, so that they can
/// be reported.
pub fn unknown_group_aliases(toml: &RawConfig) -> (r: Vec<String>)
    ensures
        strs_view(r@) == match toml.group_pings {
            None => seq![],
            Some(v) => missing_aliases(raw_groups_view(v@), v@.len() as int),
        },
{
    let mut out: Vec<String> = Vec::new();
    match &toml.group_pings {
        None => {
            assert(strs_view(out@) =~= seq![]);
            out
        },
        Some(v) => {
            let ghost gs = raw_groups_view(v@);
            assert(strs_view(out@) =~= seq![]);
            let mut g: usize = 0;
            while g < v.len()
                invariant
                    g <= v@.len(),
                    gs == raw_groups_view(v@),
                    gs.len() == v@.len(),
                    strs_view(out@) == missing_aliases(gs, g as int),
                decreases v@.len() - g,
            {
                let ms = &v[g].1;
                assert(gs[g as int].1 == strs_view(ms@));
                let ghost before = strs_view(out@);
                let mut i: usize = 0;
                assert(strs_view(ms@).take(0) =~= seq![]);
                while i < ms.len()
                    invariant
                        i <= ms@.len(),
                        gs == raw_groups_view(v@),
                        strs_view(out@) == before + missing_among(gs, strs_view(ms@).take(i as int)),
                    decreases ms@.len() - i,
                {
                    let m = &ms[i];
                    proof {
                        assert(strs_view(ms@).take(i + 1).drop_last() =~= strs_view(ms@).take(i as int));
                        assert(strs_view(ms@).take(i + 1).last() == m@);
                    }
                    let is_all = str_eq(m.as_str(), "%all");
                    proof {
                        reveal_strlit("%all");
                        assert("%all"@ =~= reserved_group());
                    }
                    if !is_all && first_char_is(m.as_str(), '%') {
                        let alias = remove_char(m.as_str(), '%');
                        if find_group_exec(v, alias.as_str()).is_none() {
                            let ghost prev = out@;
                            out.push(alias);
                            proof {
                                assert(strs_view(out@) =~= strs_view(prev).push(without_char(m@, '%')));
                            }
                        }
                    }
                    i = i + 1;
                }
                assert(strs_view(ms@).take(i as int) =~= strs_view(ms@));
                g = g + 1;
            }
            out
        },
    }
}

// ---------------------------------------------------------------------------
// The runtime configuration
/// The configuration the bot runs with. A feature that is off leaves its
/// settings empty.
#[derive(Debug)]
pub struct Config {
    /// The homeserver URL, as the URI parser displays it.
    pub mx_url: String,
    pub mx_uname: UserId,
    pub mx_pass: String,
    pub gh_access_token: String,
    pub enable_unit_conversions: bool,
    pub enable_corrections: bool,
    /// Units not converted after a space, each with that space before it.
    pub unit_conversion_exclusion: Vec<String>,
    pub incorrect_spellings: Vec<SpellCheckKind>,
    pub correction_text: String,
    pub correction_exclusion: Vec<String>,
    pub linkers: Vec<String>,
    pub admins: UserSet,
    pub help_rooms: Vec<String>,
    pub ban_rooms: Vec<String>,
    /// Short repository names and their `owner/repo`.
    pub repos: Vec<(String, String)>,
    /// Linkable items and their URLs, as the URI parser displays them.
    pub links: Vec<(String, String)>,
    pub text_expansions: Vec<(String, String)>,
    /// `name/version`, the user agent of requests to GitHub.
    pub user_agent: String,
    /// Each group with its expanded users.
    pub group_pings: Vec<(String, UserSet)>,
    /// The users allowed to ping groups.
    pub group_ping_users: UserSet,
    pub webhook_token: String,
}

/// The first reason why the configuration cannot be loaded, in the order
/// in which loading meets them: user IDs that are not ones, then each
/// setting in turn.
pub open spec fn load_fault(toml: RawConfig) -> Option<ConfigFault> {
    let admins = opt_strs_view(toml.general.authorized_users);
    if !user_id_accepted(toml.matrix_authentication.username@) {
        Some(ConfigFault::InvalidUserId(toml.matrix_authentication.username@))
    } else if admins is Some && first_invalid_user(admins->0, 0) is Some {
        Some(ConfigFault::InvalidUserId(first_invalid_user(admins->0, 0)->0))
    } else if toml.searchable_repos is Some && toml.github_authentication is None {
        Some(ConfigFault::MissingGithubToken)
    } else if toml.linkable_urls is Some && toml.general.link_matchers is Some
        && toml.linkable_urls->0@.len() == 0 {
        Some(ConfigFault::EmptyLinkableUrls)
    } else if toml.general.enable_corrections && toml.general.insensitive_corrections is None {
        Some(ConfigFault::MissingInsensitiveCorrections)
    } else if toml.general.enable_corrections && toml.general.sensitive_corrections is None {
        Some(ConfigFault::MissingSensitiveCorrections)
    } else if toml.general.enable_corrections && toml.general.correction_text is None {
        Some(ConfigFault::MissingCorrectionText)
    } else if admins is None || admins->0.len() == 0 {
        Some(ConfigFault::NoAuthorizedUsers)
    } else if uri_display(toml.matrix_authentication.url@) is None {
        Some(ConfigFault::InvalidHomeserverUrl)
    } else if toml.group_pings is Some && group_settings(raw_groups_view(toml.group_pings->0@)) is Err {
        Some(group_settings(raw_groups_view(toml.group_pings->0@))->Err_0)
    } else {
        None
    }
}

/// Whether loading reaches the link URLs and one of them is not a URI:
/// the one input on which loading cannot go on.
pub open spec fn bad_link_url(toml: RawConfig) -> bool {
    let admins = opt_strs_view(toml.general.authorized_users);
    &&& user_id_accepted(toml.matrix_authentication.username@)
    &&& !(admins is Some && first_invalid_user(admins->0, 0) is Some)
    &&& !(toml.searchable_repos is Some && toml.github_authentication is None)
    &&& parses_links(toml)
    &&& !all_uris(pairs_view(toml.linkable_urls->0@))
}

/// What a loaded configuration holds, setting by setting.
pub open spec fn loaded_from(c: Config, toml: RawConfig, name: Seq<char>, version: Seq<char>) -> bool {
    let g = toml.general;
    &&& c.mx_url@ == uri_display(toml.matrix_authentication.url@)->0
    &&& c.mx_uname@ == toml.matrix_authentication.username@
    &&& c.mx_pass@ == toml.matrix_authentication.password@
    &&& c.gh_access_token@ == (match toml.searchable_repos {
        Some(_) => toml.github_authentication->0.access_token@,
        None => seq![],
    })
    &&& c.repos_view() == (match opt_pairs_view(toml.searchable_repos) {
        Some(r) => r,
        None => seq![],
    })
    &&& c.enable_unit_conversions == g.enable_unit_conversions
    &&& c.enable_corrections == g.enable_corrections
    &&& strs_view(c.unit_conversion_exclusion@) == (match opt_strs_view(g.unit_conversion_exclusion) {
        Some(v) => distinct(spaced(v)),
        None => seq![],
    })
    &&& spellings_view(c.incorrect_spellings@) == (if g.enable_corrections {
        spelling_list(opt_strs_view(g.insensitive_corrections)->0, opt_strs_view(g.sensitive_corrections)->0)
    } else {
        seq![]
    })
    &&& c.correction_text@ == (if g.enable_corrections {
        g.correction_text->0@
    } else {
        seq![]
    })
    &&& strs_view(c.correction_exclusion@) == (if g.enable_corrections && g.correction_exclusion is Some {
        distinct(opt_strs_view(g.correction_exclusion)->0)
    } else {
        seq![]
    })
    &&& (if parses_links(toml) {
        &&& strs_view(c.linkers@) == distinct(opt_strs_view(g.link_matchers)->0)
        &&& pairs_view(c.links@) == uri_table(pairs_view(toml.linkable_urls->0@))
    } else {
        c.linkers@.len() == 0 && c.links@.len() == 0
    })
    &&& pairs_view(c.text_expansions@) == (match opt_pairs_view(toml.text_expansion) {
        Some(d) => d,
        None => seq![],
    })
    &&& c.admins@ == inserted_from(seq![], opt_strs_view(g.authorized_users)->0, 0)
    &&& strs_view(c.help_rooms@) == (match opt_strs_view(g.help_rooms) {
        Some(v) => distinct(v),
        None => seq![],
    })
    &&& strs_view(c.ban_rooms@) == (match opt_strs_view(g.ban_rooms) {
        Some(v) => distinct(v),
        None => seq![],
    })
    &&& c.user_agent@ == name + seq!['/'] + version
    &&& (match toml.group_pings {
        Some(v) => {
            &&& groups_view(c.group_pings@) == group_settings(raw_groups_view(v@))->Ok_0.0
            &&& c.group_ping_users@ == group_settings(raw_groups_view(v@))->Ok_0.1
        },
        None => c.group_pings@.len() == 0 && c.group_ping_users@.len() == 0,
    })
    &&& c.webhook_token@ == g.webhook_token@
}

impl Config {
    /// The repositories as characters.
    pub open spec fn repos_view(self) -> Seq<(Seq<char>, Seq<char>)> {
        pairs_view(self.repos@)
    }

    /// Builds the runtime configuration from the raw settings, checking
    /// them in order; `name` and `version` make the user agent. A link URL
    /// that is not a URI is left out by the precondition:
    /// `load_config_checked` tests for it.
    pub fn load_config(toml: &RawConfig, name: &str, version: &str) -> (r: Result<Config, ConfigError>)
        requires
            !bad_link_url(*toml),
        ensures
            match load_fault(*toml) {
                Some(f) => r matches Err(e) && e@ == f,
                None => r matches Ok(c) && loaded_from(c, *toml, name@, version@),
            },
    {
        let mx_uname = match UserId::parse(toml.matrix_authentication.username.as_str()) {
            Ok(u) => u,
            Err(_) => {
                return Err(ConfigError::InvalidUserId(toml.matrix_authentication.username.clone()));
            },
        };
        if let Some(v) = &toml.general.authorized_users {
            if let Err(e) = parse_user_set(v) {
                return Err(e);
            }
        }
        let (repos, gh_access_token) = match load_github_settings(toml) {
            Ok(v) => v,
            Err(e) => return Err(e),
        };
        let (linkers, links) = match load_linker_settings(toml) {
            Ok(v) => v,
            Err(e) => return Err(e),
        };
        let text_expansions = load_text_expansions(toml);
        let unit_conversion_exclusion = load_unit_conversion_settings(toml);
        let (incorrect_spellings, correction_text, correction_exclusion) = match load_spell_correct_settings(toml) {
            Ok(v) => v,
            Err(e) => return Err(e),
        };
        let admins = match load_admin_settings(toml) {
            Ok(v) => v,
            Err(e) => return Err(e),
        };
        let help_rooms = load_help_settings(toml);
        let ban_rooms = load_ban_room_settings(toml);
        let mx_url = match parse_uri(toml.matrix_authentication.url.as_str()) {
            Some(u) => u,
            None => return Err(ConfigError::InvalidHomeserverUrl),
        };
        let mut user_agent = String::from_str(name);
        user_agent.append("/");
        user_agent.append(version);
        proof {
            reveal_strlit("/");
        }
        let (group_pings, group_ping_users) = match load_group_ping_settings(toml) {
            Ok(v) => v,
            Err(e) => return Err(e),
        };
        let c = Config {
            mx_url,
            mx_uname,
            mx_pass: toml.matrix_authentication.password.clone(),
            gh_access_token,
            enable_unit_conversions: toml.general.enable_unit_conversions,
            enable_corrections: toml.general.enable_corrections,
            unit_conversion_exclusion,
            incorrect_spellings,
            correction_text,
            correction_exclusion,
            linkers,
            admins,
            help_rooms,
            ban_rooms,
            repos,
            links,
            text_expansions,
            user_agent,
            group_pings,
            group_ping_users,
            webhook_token: toml.general.webhook_token.clone(),
        };
        assert(c.user_agent@ =~= name@ + seq!['/'] + version@);
        let ghost t = *toml;
        let ghost g = t.general;
        assert(c.mx_url@ == uri_display(toml.matrix_authentication.url@)->0);
        assert(c.mx_uname@ == toml.matrix_authentication.username@);
        assert(c.repos_view() == (match opt_pairs_view(toml.searchable_repos) {
            Some(r) => r,
            None => seq![],
        }));
        assert(strs_view(c.unit_conversion_exclusion@) == (match opt_strs_view(g.unit_conversion_exclusion) {
            Some(v) => distinct(spaced(v)),
            None => seq![],
        }));
        assert(spellings_view(c.incorrect_spellings@) == (if g.enable_corrections {
            spelling_list(opt_strs_view(g.insensitive_corrections)->0, opt_strs_view(g.sensitive_corrections)->0)
        } else {
            seq![]
        }));
        assert(strs_view(c.correction_exclusion@) == (if g.enable_corrections && g.correction_exclusion is Some {
            distinct(opt_strs_view(g.correction_exclusion)->0)
        } else {
            seq![]
        }));
        assert(c.admins@ == inserted_from(seq![], opt_strs_view(g.authorized_users)->0, 0));
        assert(load_fault(*toml) is None);
        assert(c.gh_access_token@ == (match toml.searchable_repos {
            Some(_) => toml.github_authentication->0.access_token@,
            None => seq![],
        }));
        assert(c.correction_text@ == (if g.enable_corrections {
            g.correction_text->0@
        } else {
            seq![]
        }));
        assert(if parses_links(*toml) {
            &&& strs_view(c.linkers@) == distinct(opt_strs_view(g.link_matchers)->0)
            &&& pairs_view(c.links@) == uri_table(pairs_view(toml.linkable_urls->0@))
        } else {
            c.linkers@.len() == 0 && c.links@.len() == 0
        });
        assert(match toml.group_pings {
            Some(v) => {
                &&& groups_view(c.group_pings@) == group_settings(raw_groups_view(v@))->Ok_0.0
                &&& c.group_ping_users@ == group_settings(raw_groups_view(v@))->Ok_0.1
            },
            None => c.group_pings@.len() == 0 && c.group_ping_users@.len() == 0,
        });
        assert(pairs_view(c.text_expansions@) == (match opt_pairs_view(toml.text_expansion) {
            Some(d) => d,
            None => seq![],
        }));
        assert(strs_view(c.help_rooms@) == (match opt_strs_view(g.help_rooms) {
            Some(v) => distinct(v),
            None => seq![],
        }));
        assert(strs_view(c.ban_rooms@) == (match opt_strs_view(g.ban_rooms) {
            Some(v) => distinct(v),
            None => seq![],
        }));
        assert(c.webhook_token@ == g.webhook_token@);
        assert(c.mx_pass@ == toml.matrix_authentication.password@);
        assert(loaded_from(c, *toml, name@, version@));
        Ok(c)
    }

    /// Loads the configuration, or gives `None` where a link URL that
    /// loading reaches is not a URI.
    pub fn load_config_checked(toml: &RawConfig, name: &str, version: &str) -> (r: Option<
        Result<Config, ConfigError>,
    >)
        ensures
            r is None <==> bad_link_url(*toml),
            r matches Some(res) ==> match load_fault(*toml) {
                Some(f) => res matches Err(e) && e@ == f,
                None => res matches Ok(c) && loaded_from(c, *toml, name@, version@),
            },
    {
        let reaches_links = match UserId::parse(toml.matrix_authentication.username.as_str()) {
            Err(_) => false,
            Ok(_) => {
                let admins_ok = match &toml.general.authorized_users {
                    Some(v) => parse_user_set(v).is_ok(),
                    None => true,
                };
                admins_ok && !(toml.searchable_repos.is_some()
                    && toml.github_authentication.is_none())
            },
        };
        if reaches_links {
            if let Some(d) = &toml.linkable_urls {
                if toml.general.link_matchers.is_some() && d.len() > 0 {
                    let mut i: usize = 0;
                    while i < d.len()
                        invariant
                            i <= d@.len(),
                            toml.linkable_urls == Some(*d),
                            parses_links(*toml),
                            user_id_accepted(toml.matrix_authentication.username@),
                            !(opt_strs_view(toml.general.authorized_users) is Some && first_invalid_user(
                                opt_strs_view(toml.general.authorized_users)->0,
                                0,
                            ) is Some),
                            !(toml.searchable_repos is Some && toml.github_authentication is None),
                            forall|j: int| 0 <= j < i ==> (#[trigger] uri_display(pairs_view(d@)[j].1)) is Some,
                        decreases d@.len() - i,
                    {
                        assert(pairs_view(d@)[i as int].1 == d@[i as int].1@);
                        if parse_uri(d[i].1.as_str()).is_none() {
                            assert(!all_uris(pairs_view(d@)));
                            return None;
                        }
                        i = i + 1;
                    }
                }
            }
        }
        Some(Config::load_config(toml, name, version))
    }
}

// ---------------------------------------------------------------------------
// The listener's copy
/// The settings the Matrix listener works with: the configuration without
/// the webhook token.
#[derive(Debug)]
pub struct MatrixListenerConfig {
    pub mx_url: String,
    pub mx_uname: UserId,
    pub mx_pass: String,
    pub gh_access_token: String,
    pub enable_unit_conversions: bool,
    pub enable_corrections: bool,
    pub unit_conversion_exclusion: Vec<String>,
    pub incorrect_spellings: Vec<SpellCheckKind>,
    pub correction_text: String,
    pub correction_exclusion: Vec<String>,
    pub linkers: Vec<String>,
    pub admins: UserSet,
    pub help_rooms: Vec<String>,
    pub ban_rooms: Vec<String>,
    pub repos: Vec<(String, String)>,
    pub links: Vec<(String, String)>,
    pub text_expansions: Vec<(String, String)>,
    pub user_agent: String,
    pub group_pings: Vec<(String, UserSet)>,
    pub group_ping_users: UserSet,
}

/// Whether the listener settings hold the same as the configuration.
pub open spec fn same_settings(l: MatrixListenerConfig, c: Config) -> bool {
    &&& l.mx_url@ == c.mx_url@
    &&& l.mx_uname@ == c.mx_uname@
    &&& l.mx_pass@ == c.mx_pass@
    &&& l.gh_access_token@ == c.gh_access_token@
    &&& l.enable_unit_conversions == c.enable_unit_conversions
    &&& l.enable_corrections == c.enable_corrections
    &&& strs_view(l.unit_conversion_exclusion@) == strs_view(c.unit_conversion_exclusion@)
    &&& spellings_view(l.incorrect_spellings@) == spellings_view(c.incorrect_spellings@)
    &&& l.correction_text@ == c.correction_text@
    &&& strs_view(l.correction_exclusion@) == strs_view(c.correction_exclusion@)
    &&& strs_view(l.linkers@) == strs_view(c.linkers@)
    &&& l.admins@ == c.admins@
    &&& strs_view(l.help_rooms@) == strs_view(c.help_rooms@)
    &&& strs_view(l.ban_rooms@) == strs_view(c.ban_rooms@)
    &&& pairs_view(l.repos@) == pairs_view(c.repos@)
    &&& pairs_view(l.links@) == pairs_view(c.links@)
    &&& pairs_view(l.text_expansions@) == pairs_view(c.text_expansions@)
    &&& l.user_agent@ == c.user_agent@
    &&& groups_view(l.group_pings@) == groups_view(c.group_pings@)
    &&& l.group_ping_users@ == c.group_ping_users@
}

/// A copy of a list of misspellings.
pub fn clone_spellings(v: &Vec<SpellCheckKind>) -> (r: Vec<SpellCheckKind>)
    ensures
        spellings_view(r@) == spellings_view(v@),
{
    let mut r: Vec<SpellCheckKind> = Vec::new();
    let mut i: usize = 0;
    while i < v.len()
        invariant
            i <= v@.len(),
            spellings_view(r@) == spellings_view(v@).take(i as int),
        decreases v@.len() - i,
    {
        let k = v[i].duplicate();
        let ghost prev = r@;
        r.push(k);
        proof {
            assert(r@ =~= prev.push(k));
            assert(spellings_view(r@) =~= spellings_view(prev).push(
                (k is SpellCheckInsensitive, k.spelling_view()),
            ));
            assert(spellings_view(r@) =~= spellings_view(v@).take(i + 1));
        }
        i = i + 1;
    }
    assert(spellings_view(v@).take(i as int) =~= spellings_view(v@));
    r
}

/// A copy of a list of groups.
pub fn clone_groups(v: &Vec<(String, UserSet)>) -> (r: Vec<(String, UserSet)>)
    ensures
        groups_view(r@) == groups_view(v@),
{
    let mut r: Vec<(String, UserSet)> = Vec::new();
    let mut i: usize = 0;
    while i < v.len()
        invariant
            i <= v@.len(),
            groups_view(r@) == groups_view(v@).take(i as int),
        decreases v@.len() - i,
    {
        let (name, set) = &v[i];
        let item = (name.clone(), set.duplicate());
        let ghost prev = r@;
        r.push(item);
        proof {
            assert(r@ =~= prev.push(item));
            assert(groups_view(r@) =~= groups_view(prev).push((name@, set@)));
            assert(groups_view(r@) =~= groups_view(v@).take(i + 1));
        }
        i = i + 1;
    }
    assert(groups_view(v@).take(i as int) =~= groups_view(v@));
    r
}

impl MatrixListenerConfig {
    /// The listener's copy of the configuration.
    pub fn new(config: &Config) -> (r: Self)
        ensures
            same_settings(r, *config),
    {
        MatrixListenerConfig {
            mx_url: config.mx_url.clone(),
            mx_uname: config.mx_uname.duplicate(),
            mx_pass: config.mx_pass.clone(),
            gh_access_token: config.gh_access_token.clone(),
            enable_unit_conversions: config.enable_unit_conversions,
            enable_corrections: config.enable_corrections,
            unit_conversion_exclusion: clone_strings(&config.unit_conversion_exclusion),
            incorrect_spellings: clone_spellings(&config.incorrect_spellings),
            correction_text: config.correction_text.clone(),
            correction_exclusion: clone_strings(&config.correction_exclusion),
            linkers: clone_strings(&config.linkers),
            admins: config.admins.duplicate(),
            help_rooms: clone_strings(&config.help_rooms),
            ban_rooms: clone_strings(&config.ban_rooms),
            repos: clone_pairs(&config.repos),
            links: clone_pairs(&config.links),
            text_expansions: clone_pairs(&config.text_expansions),
            user_agent: config.user_agent.clone(),
            group_pings: clone_groups(&config.group_pings),
            group_ping_users: config.group_ping_users.duplicate(),
        }
    }
}

} // verus!
