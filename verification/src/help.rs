//! The `!help` command: which help page a message asks for, the pages
//! themselves, and the reply.
use vstd::prelude::*;
use crate::config::{groups_view, MatrixListenerConfig};
use crate::response::{error_html, strings_view, MatrixFormattedNoticeResponse};
use crate::text::{
    contains_string, from_chars, joined, lines, pairs_view, split_fields, split_on, str_eq, strs_view, to_chars,
    trimmed,
};

verus! {

// ---------------------------------------------------------------------------
// ASCII case
/// The ASCII lower case of a character: `A`..`Z` become `a`..`z`.
pub open spec fn ascii_lower(c: char) -> char {
    if 'A' <= c <= 'Z' {
        ((c as u32) + 32) as char
    } else {
        c
    }
}

/// The ASCII lower case of each character (`str::to_ascii_lowercase`).
pub open spec fn ascii_lowercase(s: Seq<char>) -> Seq<char> {
    s.map_values(|c: char| ascii_lower(c))
}

fn ascii_lower_char(c: char) -> (r: char)
    ensures
        r == ascii_lower(c),
{
    if 'A' <= c && c <= 'Z' {
        let b: u8 = (c as u32 + 32) as u8;
        b as char
    } else {
        c
    }
}

/// The ASCII lower case of `s`.
pub fn to_ascii_lowercase(s: &str) -> (r: String)
    ensures
        r@ == ascii_lowercase(s@),
{
    let v = to_chars(s);
    let mut out: Vec<char> = Vec::new();
    let mut i: usize = 0;
    while i < v.len()
        invariant
            i <= v@.len(),
            out@ == ascii_lowercase(v@).take(i as int),
        decreases v@.len() - i,
    {
        out.push(ascii_lower_char(v[i]));
        i = i + 1;
        assert(out@ =~= ascii_lowercase(v@).take(i as int));
    }
    assert(ascii_lowercase(v@).take(i as int) =~= ascii_lowercase(v@));
    from_chars(out.as_slice())
}

// ---------------------------------------------------------------------------
// Help types
/// The help pages that `!help` knows.
#[derive(Clone, Copy, Debug, PartialEq, Eq, Structural)]
pub enum HelpType {
    Command,
    Commandless,
    GroupPing,
    GithubSearch,
    Link,
    TextExpansion,
    UnitConversion,
    UnknownCommand,
}

/// The help page named by `s`, without regard to ASCII case.
pub open spec fn help_type_of(s: Seq<char>) -> HelpType {
    let l = ascii_lowercase(s);
    if l == "command"@ {
        HelpType::Command
    } else if l == "commandless"@ {
        HelpType::Commandless
    } else if l == "ping"@ {
        HelpType::GroupPing
    } else if l == "github-search"@ {
        HelpType::GithubSearch
    } else if l == "link"@ {
        HelpType::Link
    } else if l == "text-expansion"@ {
        HelpType::TextExpansion
    } else if l == "unit-conversion"@ {
        HelpType::UnitConversion
    } else {
        HelpType::UnknownCommand
    }
}

impl HelpType {
    /// The help page named by `value`.
    pub fn from(value: &str) -> (r: HelpType)
        ensures
            r == help_type_of(value@),
    {
        let l = to_ascii_lowercase(value);
        let l = l.as_str();
        if str_eq(l, "command") {
            HelpType::Command
        } else if str_eq(l, "commandless") {
            HelpType::Commandless
        } else if str_eq(l, "ping") {
            HelpType::GroupPing
        } else if str_eq(l, "github-search") {
            HelpType::GithubSearch
        } else if str_eq(l, "link") {
            HelpType::Link
        } else if str_eq(l, "text-expansion") {
            HelpType::TextExpansion
        } else if str_eq(l, "unit-conversion") {
            HelpType::UnitConversion
        } else {
            HelpType::UnknownCommand
        }
    }
}

// ---------------------------------------------------------------------------
// Sorted listings
/// Whether `a[i..]` comes no later than `b[i..]` in the order of strings:
/// character by character, by code point, a prefix first.
pub open spec fn le_from(a: Seq<char>, b: Seq<char>, i: int) -> bool
    decreases a.len() - i,
{
    if i < 0 || i >= a.len() {
        true
    } else if i >= b.len() {
        false
    } else if a[i] != b[i] {
        a[i] < b[i]
    } else {
        le_from(a, b, i + 1)
    }
}

/// Whether `a` comes no later than `b` in the order of strings.
pub open spec fn str_le(a: Seq<char>, b: Seq<char>) -> bool {
    le_from(a, b, 0)
}

fn str_le_exec(a: &str, b: &str) -> (r: bool)
    ensures
        r == str_le(a@, b@),
{
    let x = to_chars(a);
    let y = to_chars(b);
    let mut i: usize = 0;
    while i < x.len()
        invariant
            i <= x@.len(),
            x@ == a@,
            y@ == b@,
            le_from(a@, b@, 0) == le_from(a@, b@, i as int),
        decreases x@.len() - i,
    {
        if i >= y.len() {
            return false;
        }
        if x[i] != y[i] {
            return x[i] < y[i];
        }
        i = i + 1;
    }
    true
}

/// The position before the first of `s` from `j` on that `x` comes no
/// later than; the length of `s` if there is none.
pub open spec fn insert_pos(s: Seq<Seq<char>>, x: Seq<char>, j: int) -> int
    decreases s.len() - j,
{
    if j < 0 || j >= s.len() {
        s.len() as int
    } else if str_le(x, s[j]) {
        j
    } else {
        insert_pos(s, x, j + 1)
    }
}

proof fn lemma_insert_pos(s: Seq<Seq<char>>, x: Seq<char>, j: int)
    requires
        0 <= j <= s.len(),
    ensures
        j <= insert_pos(s, x, j) <= s.len(),
    decreases s.len() - j,
{
    if j < s.len() && !str_le(x, s[j]) {
        lemma_insert_pos(s, x, j + 1);
    }
}

/// `v` sorted by insertion, each name put before the first one it comes no
/// later than.
pub open spec fn sorted_names(v: Seq<Seq<char>>) -> Seq<Seq<char>>
    decreases v.len(),
{
    if v.len() == 0 {
        seq![]
    } else {
        let s = sorted_names(v.drop_last());
        s.insert(insert_pos(s, v.last(), 0), v.last())
    }
}

/// The names joined by ` | `.
pub open spec fn bar_joined(v: Seq<Seq<char>>) -> Seq<char>
    decreases v.len(),
{
    if v.len() <= 1 {
        if v.len() == 1 {
            v[0]
        } else {
            seq![]
        }
    } else {
        bar_joined(v.drop_last()) + " | "@ + v.last()
    }
}

/// The names, sorted, joined by ` | `.
pub open spec fn listing(v: Seq<Seq<char>>) -> Seq<char> {
    bar_joined(sorted_names(v))
}

/// Sorts `names` as `sorted_names` describes.
fn sort_names(names: &Vec<String>) -> (r: Vec<String>)
    ensures
        strs_view(r@) == sorted_names(strs_view(names@)),
{
    let mut out: Vec<String> = Vec::new();
    let mut i: usize = 0;
    while i < names.len()
        invariant
            i <= names@.len(),
            strs_view(out@) == sorted_names(strs_view(names@).take(i as int)),
        decreases names@.len() - i,
    {
        let x = &names[i];
        let ghost s = strs_view(out@);
        let mut j: usize = 0;
        proof {
            lemma_insert_pos(s, x@, 0);
        }
        while j < out.len() && !str_le_exec(x.as_str(), out[j].as_str())
            invariant
                j <= out@.len(),
                s == strs_view(out@),
                insert_pos(s, x@, 0) == insert_pos(s, x@, j as int),
            decreases out@.len() - j,
        {
            j = j + 1;
        }
        let ghost prev = out@;
        out.insert(j, x.clone());
        proof {
            assert(strs_view(names@).take(i + 1).drop_last() =~= strs_view(names@).take(i as int));
            assert(strs_view(out@) =~= s.insert(j as int, x@));
        }
        i = i + 1;
    }
    assert(strs_view(names@).take(i as int) =~= strs_view(names@));
    out
}

/// The names, sorted, joined by ` | `.
fn listing_exec(names: &Vec<String>) -> (r: String)
    requires
        names@.len() > 0,
    ensures
        r@ == listing(strs_view(names@)),
{
    let sorted = sort_names(names);
    proof {
        lemma_sorted_len(strs_view(names@));
    }
    let mut out = String::new();
    let n = sorted.len();
    let mut i: usize = 0;
    while i + 1 < n
        invariant
            n == sorted@.len(),
            n > 0,
            i + 1 <= n,
            out@ + sorted@[i as int]@ == bar_joined(strs_view(sorted@).take(i + 1)),
        decreases n - i,
    {
        out.append(sorted[i].as_str());
        out.append(" | ");
        proof {
            reveal_strlit(" | ");
            let t = strs_view(sorted@).take(i + 2);
            assert(t.drop_last() =~= strs_view(sorted@).take(i + 1));
        }
        i = i + 1;
    }
    out.append(sorted[i].as_str());
    assert(strs_view(sorted@).take(i + 1) =~= strs_view(sorted@));
    out
}

proof fn lemma_sorted_len(v: Seq<Seq<char>>)
    ensures
        sorted_names(v).len() == v.len(),
    decreases v.len(),
{
    if v.len() > 0 {
        lemma_sorted_len(v.drop_last());
        lemma_insert_pos(sorted_names(v.drop_last()), v.last(), 0);
    }
}

/// The first of each pair.
pub open spec fn keys(v: Seq<(Seq<char>, Seq<char>)>) -> Seq<Seq<char>> {
    v.map_values(|p: (Seq<char>, Seq<char>)| p.0)
}

/// The names of the groups.
pub open spec fn group_names(v: Seq<(Seq<char>, Seq<Seq<char>>)>) -> Seq<Seq<char>> {
    v.map_values(|p: (Seq<char>, Seq<Seq<char>>)| p.0)
}

fn pair_keys(v: &Vec<(String, String)>) -> (r: Vec<String>)
    ensures
        strs_view(r@) == keys(pairs_view(v@)),
        r@.len() == v@.len(),
{
    let mut out: Vec<String> = Vec::new();
    let mut i: usize = 0;
    while i < v.len()
        invariant
            i <= v@.len(),
            out@.len() == i,
            strs_view(out@) == keys(pairs_view(v@)).take(i as int),
        decreases v@.len() - i,
    {
        let k = v[i].0.clone();
        let ghost prev = out@;
        out.push(k);
        proof {
            assert(out@ =~= prev.push(k));
            assert(strs_view(out@) =~= strs_view(prev).push(v@[i as int].0@));
            assert(strs_view(out@) =~= keys(pairs_view(v@)).take(i + 1));
        }
        i = i + 1;
    }
    assert(keys(pairs_view(v@)).take(i as int) =~= keys(pairs_view(v@)));
    out
}

fn group_keys(v: &Vec<(String, crate::response::UserSet)>) -> (r: Vec<String>)
    ensures
        strs_view(r@) == group_names(groups_view(v@)),
        r@.len() == v@.len(),
{
    let mut out: Vec<String> = Vec::new();
    let mut i: usize = 0;
    while i < v.len()
        invariant
            i <= v@.len(),
            out@.len() == i,
            strs_view(out@) == group_names(groups_view(v@)).take(i as int),
        decreases v@.len() - i,
    {
        let k = v[i].0.clone();
        let ghost prev = out@;
        out.push(k);
        proof {
            assert(out@ =~= prev.push(k));
            assert(strs_view(out@) =~= strs_view(prev).push(v@[i as int].0@));
            assert(strs_view(out@) =~= group_names(groups_view(v@)).take(i + 1));
        }
        i = i + 1;
    }
    assert(group_names(groups_view(v@)).take(i as int) =~= group_names(groups_view(v@)));
    out
}

// ---------------------------------------------------------------------------
// Help pages
/// The text of the page produced by `generic_help_message`.
pub open spec fn generic_text(version: Seq<char>, repository: Seq<char>) -> Seq<char> {
    "Matrix Bot v"@ + version + "\nRepository: "@ + repository
            + "\n\nThis bot has two types of actions it can perform: command and commandless\nUse the !help command to learn more about their characteristics\n\nUSAGE:\n\t!help command|commandless\n\t!help [ACTION]\n\nACTION TYPES:\n\tcommand\t\tCommand actions are a message that starts with !\n\tcommandless\tCommandless actions are any message that meets the critera to trigger an action and do not start with an !\n\nACTIONS:\n\tping\t\t\tPing a group of people\n\tgithub-search\tSearch github by project and issue/PR number\n\tlink\t\t\t\tShortcuts for linking helpful URLs\n\tunit-conversion\tConvert common conversational units"@
}

/// The text of the page produced by `action_command_help_message`.
pub open spec fn action_command_text() -> Seq<char> {
    "Command Action\n\nCommand actions are defined as message that have no formatting (like no italics, no inline code, not a reply, etc) that start with a !. These can only perform one action per message.\n\nEXAMPLES:\n\t!help\n\t!convert 22mi"@
}

/// The text of the page produced by `action_commandless_help_message`.
pub open spec fn action_commandless_text() -> Seq<char> {
    "Commandless Action\n\nCommandles actions can happen in any plain text message but certain text formatting will be ignored. Currently ignored formatting is inline code, code blocks, and the text in a reply (but not the reply itself)\n\nThe exact rules for triggering a commandless action vary by action (so check action help pages for info on how to trigger them), but their defining features are that they can be in any part of a message and mutiple can be triggered per message.\n\nEXAMPLES:\n\tHey there, i think you want to read docs@troubleshooting\n\tIts not like 32f is that cold. not sure what you are complaining about\n"@
}

/// The text of the page produced by `group_ping_help_message`.
pub open spec fn group_ping_text(config: MatrixListenerConfig) -> Seq<char> {
    "Group Ping\n\nThis action is only available as commandless. It will trigger on anything that matches \"%group\" where \"group\" is the group you want to ping.\n\nIf the group exists and you are authorized to make a group ping, a message pinging everyone in the group will be made in a bot message.\n\nUSAGE:\n\tHey there %server can you look at this for me?\n\t%server\n\nAVAILABLE GROUPS:\n"@ + listing(group_names(groups_view(config.group_pings@)))
            + ""@
}

/// The text of the page produced by `github_search_help_message`.
pub open spec fn github_search_text(config: MatrixListenerConfig) -> Seq<char> {
    "Github Search\n\nThis action is only available as commandless. It will trigger on anything that matches \"jf#1234\" where \"jf\" is the repo you want to search and \"1234\" is the issue or PR you want to link.\n\nIf the repo and the number exist, it will provide a link to the issue or pull in a bot message.\n\nUSAGE:\n\tI could use a review on jf#1234\n\tjf#1234\n\nAVAILABLE REPOS:\n"@ + listing(keys(pairs_view(config.repos@))) + ""@
}

/// The text of the page produced by `link_help_message`.
pub open spec fn link_text(config: MatrixListenerConfig) -> Seq<char> {
    "Link\n\nThis action is only available as commandless. It will trigger on anything that matches \"link@hwa\" where \"link\" is a configured keyword and \"hwa\" is a linkable item.\n\nif the keyword and item exist, there will be a link provided in a bot message.\n\nUSAGE:\n\tI think you might want to look at link@hwa\n\tlink@hwa\n\nAVAILABLE KEYWORDS:\n"@ + listing(strs_view(config.linkers@)) + "\n\nAVAILABLE LINKS:\n"@
            + listing(keys(pairs_view(config.links@))) + "\n    "@
}

/// The text of the page produced by `text_expansion_help_message`.
pub open spec fn text_expansion_text(config: MatrixListenerConfig) -> Seq<char> {
    "Text Expansion\n\nThis action is only available as commandless. It will trigger on anything that matches \"$text\" where \"text\" is a configured keyword.\n\nif the keyword exists, there will be a message containing designated expanded text provided in a bot message.\n\nUSAGE:\n\tIf you have questions about the addon, i hope $kodi answers it for you\n\t$kodi\n\nAVAILABLE KEYWORDS:\n"@ + listing(keys(pairs_view(config.text_expansions@))) + "\n    "@
}

/// The text of the page produced by `unit_conversion_help_message`.
pub open spec fn unit_conversion_text(config: MatrixListenerConfig) -> Seq<char> {
    "Unit Conversion\n\nThis action is available as both a command and commanless. It will convert common converstation units Imperial <-> Metric to help ease international chat. There can be a space between the quantity and unit except for the units excluded by configuration (listed below).\n\nUSAGE:\n\tCOMMAND:\n\t\t!convert 20c\n\n\tCOMMANDLESS:\n\t\tIt's weird that the speed limit here is 45mph\n\t\t45 mph\n\nSUPPORTED UNITS:\nLENGTH:\ncm | m | km | in | ft | mi | mile | miles\nTEMPERATURE:\nc | °c | f | °f\nWEIGHT:\nkg | lbs\nSPEED:\nkm/h | kmh | kph | kmph | mph\n\nSPACE EXCLUDED UNITS:\n"@ + listing(strs_view(config.unit_conversion_exclusion@))
            + "\n    "@
}


/// The overview page, with the bot's version and repository.
pub fn generic_help_message(version: &str, repository: &str) -> (r: String)
    ensures
        r@ == generic_text(version@, repository@),
{
    let mut r = String::from_str("Matrix Bot v");
    r.append(version);
    r.append("\nRepository: ");
    r.append(repository);
    r.append("\n\nThis bot has two types of actions it can perform: command and commandless\nUse the !help command to learn more about their characteristics\n\nUSAGE:\n\t!help command|commandless\n\t!help [ACTION]\n\nACTION TYPES:\n\tcommand\t\tCommand actions are a message that starts with !\n\tcommandless\tCommandless actions are any message that meets the critera to trigger an action and do not start with an !\n\nACTIONS:\n\tping\t\t\tPing a group of people\n\tgithub-search\tSearch github by project and issue/PR number\n\tlink\t\t\t\tShortcuts for linking helpful URLs\n\tunit-conversion\tConvert common conversational units");
    r
}

/// The page on command actions.
pub fn action_command_help_message() -> (r: String)
    ensures
        r@ == action_command_text(),
{
    String::from_str("Command Action\n\nCommand actions are defined as message that have no formatting (like no italics, no inline code, not a reply, etc) that start with a !. These can only perform one action per message.\n\nEXAMPLES:\n\t!help\n\t!convert 22mi")
}

/// The page on commandless actions.
pub fn action_commandless_help_message() -> (r: String)
    ensures
        r@ == action_commandless_text(),
{
    String::from_str("Commandless Action\n\nCommandles actions can happen in any plain text message but certain text formatting will be ignored. Currently ignored formatting is inline code, code blocks, and the text in a reply (but not the reply itself)\n\nThe exact rules for triggering a commandless action vary by action (so check action help pages for info on how to trigger them), but their defining features are that they can be in any part of a message and mutiple can be triggered per message.\n\nEXAMPLES:\n\tHey there, i think you want to read docs@troubleshooting\n\tIts not like 32f is that cold. not sure what you are complaining about\n")
}

/// The page on group pings, with the groups that can be pinged.
pub fn group_ping_help_message(config: &MatrixListenerConfig) -> (r: String)
    requires
        config.group_pings@.len() > 0,
    ensures
        r@ == group_ping_text(*config),
{
    let names = group_keys(&config.group_pings);
    let mut r = String::from_str("Group Ping\n\nThis action is only available as commandless. It will trigger on anything that matches \"%group\" where \"group\" is the group you want to ping.\n\nIf the group exists and you are authorized to make a group ping, a message pinging everyone in the group will be made in a bot message.\n\nUSAGE:\n\tHey there %server can you look at this for me?\n\t%server\n\nAVAILABLE GROUPS:\n");
    let l = listing_exec(&names);
    r.append(l.as_str());
    r.append("");
    r
}

/// The page on GitHub searches, with the searchable repositories.
pub fn github_search_help_message(config: &MatrixListenerConfig) -> (r: String)
    requires
        config.repos@.len() > 0,
    ensures
        r@ == github_search_text(*config),
{
    let names = pair_keys(&config.repos);
    let mut r = String::from_str("Github Search\n\nThis action is only available as commandless. It will trigger on anything that matches \"jf#1234\" where \"jf\" is the repo you want to search and \"1234\" is the issue or PR you want to link.\n\nIf the repo and the number exist, it will provide a link to the issue or pull in a bot message.\n\nUSAGE:\n\tI could use a review on jf#1234\n\tjf#1234\n\nAVAILABLE REPOS:\n");
    let l = listing_exec(&names);
    r.append(l.as_str());
    r.append("");
    r
}

/// The page on links, with the keywords and the linkable items.
pub fn link_help_message(config: &MatrixListenerConfig) -> (r: String)
    requires
        config.linkers@.len() > 0,
        config.links@.len() > 0,
    ensures
        r@ == link_text(*config),
{
    let names = pair_keys(&config.links);
    let mut r = String::from_str("Link\n\nThis action is only available as commandless. It will trigger on anything that matches \"link@hwa\" where \"link\" is a configured keyword and \"hwa\" is a linkable item.\n\nif the keyword and item exist, there will be a link provided in a bot message.\n\nUSAGE:\n\tI think you might want to look at link@hwa\n\tlink@hwa\n\nAVAILABLE KEYWORDS:\n");
    let l = listing_exec(&config.linkers);
    r.append(l.as_str());
    r.append("\n\nAVAILABLE LINKS:\n");
    let l = listing_exec(&names);
    r.append(l.as_str());
    r.append("\n    ");
    r
}

/// The page on text expansions, with the keywords.
pub fn text_expansion_help_message(config: &MatrixListenerConfig) -> (r: String)
    requires
        config.text_expansions@.len() > 0,
    ensures
        r@ == text_expansion_text(*config),
{
    let names = pair_keys(&config.text_expansions);
    let mut r = String::from_str("Text Expansion\n\nThis action is only available as commandless. It will trigger on anything that matches \"$text\" where \"text\" is a configured keyword.\n\nif the keyword exists, there will be a message containing designated expanded text provided in a bot message.\n\nUSAGE:\n\tIf you have questions about the addon, i hope $kodi answers it for you\n\t$kodi\n\nAVAILABLE KEYWORDS:\n");
    let l = listing_exec(&names);
    r.append(l.as_str());
    r.append("\n    ");
    r
}

/// The page on unit conversions, with the units excluded after a space.
pub fn unit_conversion_help_message(config: &MatrixListenerConfig) -> (r: String)
    requires
        config.unit_conversion_exclusion@.len() > 0,
    ensures
        r@ == unit_conversion_text(*config),
{
    let mut r = String::from_str("Unit Conversion\n\nThis action is available as both a command and commanless. It will convert common converstation units Imperial <-> Metric to help ease international chat. There can be a space between the quantity and unit except for the units excluded by configuration (listed below).\n\nUSAGE:\n\tCOMMAND:\n\t\t!convert 20c\n\n\tCOMMANDLESS:\n\t\tIt's weird that the speed limit here is 45mph\n\t\t45 mph\n\nSUPPORTED UNITS:\nLENGTH:\ncm | m | km | in | ft | mi | mile | miles\nTEMPERATURE:\nc | °c | f | °f\nWEIGHT:\nkg | lbs\nSPEED:\nkm/h | kmh | kph | kmph | mph\n\nSPACE EXCLUDED UNITS:\n");
    let l = listing_exec(&config.unit_conversion_exclusion);
    r.append(l.as_str());
    r.append("\n    ");
    r
}

// ---------------------------------------------------------------------------
// The reply to `!help`
/// What the bot answers to `!help`.
#[derive(Debug)]
pub enum HelpReply {
    /// `!help` is not allowed in the room: nothing is sent.
    Ignored,
    /// A help page, sent as a notice.
    Notice(String),
    /// The action asked about is unknown: a formatted notice with the error.
    UnknownAction { plain_text: String, formatted_text: String },
}

/// The word after `!help`, if the message has one: its second field
/// between spaces.
pub open spec fn help_argument(body: Seq<char>) -> Option<Seq<char>> {
    let f = split_fields(body, ' ');
    if f.len() > 1 {
        Some(f[1])
    } else {
        None
    }
}

/// Whether `!help` may be used in the room: no rooms are listed, or the
/// room is one of them.
pub open spec fn help_allowed(config: MatrixListenerConfig, room_id: Seq<char>) -> bool {
    config.help_rooms@.len() == 0 || strs_view(config.help_rooms@).contains(room_id)
}

/// Whether the page of type `t` lists something that is not configured.
pub open spec fn page_lacks_items(t: HelpType, config: MatrixListenerConfig) -> bool {
    match t {
        HelpType::GroupPing => config.group_pings@.len() == 0,
        HelpType::GithubSearch => config.repos@.len() == 0,
        HelpType::Link => config.linkers@.len() == 0 || config.links@.len() == 0,
        HelpType::TextExpansion => config.text_expansions@.len() == 0,
        HelpType::UnitConversion => config.unit_conversion_exclusion@.len() == 0,
        _ => false,
    }
}

/// Whether answering `body` would list an empty setting: the one input on
/// which `!help` cannot answer.
pub open spec fn help_lacks_items(body: Seq<char>, room_id: Seq<char>, config: MatrixListenerConfig) -> bool {
    &&& help_allowed(config, room_id)
    &&& help_argument(body) is Some
    &&& page_lacks_items(help_type_of(help_argument(body)->0), config)
}

/// The text of the page of type `t`; none for an unknown action.
pub open spec fn help_page(t: HelpType, config: MatrixListenerConfig) -> Option<Seq<char>> {
    match t {
        HelpType::Command => Some(action_command_text()),
        HelpType::Commandless => Some(action_commandless_text()),
        HelpType::GroupPing => Some(group_ping_text(config)),
        HelpType::GithubSearch => Some(github_search_text(config)),
        HelpType::Link => Some(link_text(config)),
        HelpType::TextExpansion => Some(text_expansion_text(config)),
        HelpType::UnitConversion => Some(unit_conversion_text(config)),
        HelpType::UnknownCommand => None,
    }
}

/// The error reported for an unknown action.
pub open spec fn unknown_action(arg: Seq<char>) -> Seq<char> {
    "Unknown action "@ + arg
}

/// Whether `r` is the reply to `body` in `room_id`: nothing where `!help`
/// is not allowed, the overview without an argument, the page asked for, or
/// an error for an unknown action.
pub open spec fn is_help_reply(
    r: HelpReply,
    body: Seq<char>,
    room_id: Seq<char>,
    config: MatrixListenerConfig,
    version: Seq<char>,
    repository: Seq<char>,
) -> bool {
    if !help_allowed(config, room_id) {
        r is Ignored
    } else {
        match help_argument(body) {
            None => r matches HelpReply::Notice(t) && t@ == generic_text(version, repository),
            Some(arg) => match help_page(help_type_of(arg), config) {
                Some(page) => r matches HelpReply::Notice(t) && t@ == page,
                None => r matches HelpReply::UnknownAction { plain_text, formatted_text }
                    && plain_text@ == trimmed(lines(seq![unknown_action(arg)]))
                    && formatted_text@ == joined(seq![unknown_action(arg)], |e: Seq<char>| error_html(e)),
            },
        }
    }
}

/// Whether `r` answers `!help` as `body` in `room_id`: `None` exactly
/// where the page asked for would list an empty setting, and otherwise the
/// reply that `is_help_reply` describes.
pub open spec fn help_result(
    r: Option<HelpReply>,
    body: Seq<char>,
    room_id: Seq<char>,
    config: MatrixListenerConfig,
    version: Seq<char>,
    repository: Seq<char>,
) -> bool {
    if help_lacks_items(body, room_id, config) {
        r is None
    } else {
        r matches Some(x) && is_help_reply(x, body, room_id, config, version, repository)
    }
}

/// The reply to `body`, sent in `room_id`: nothing where `!help` is not
/// allowed, the overview without an argument, the page asked for, or an
/// error for an unknown action.
pub fn help_reply(
    body: &str,
    room_id: &str,
    config: &MatrixListenerConfig,
    version: &str,
    repository: &str,
) -> (r: HelpReply)
    requires
        !help_lacks_items(body@, room_id@, *config),
    ensures
        is_help_reply(r, body@, room_id@, *config, version@, repository@),
{
    let allowed = config.help_rooms.len() == 0 || contains_string(&config.help_rooms, room_id);
    if !allowed {
        return HelpReply::Ignored;
    }
    let fields = split_on(body, ' ');
    if fields.len() < 2 {
        return HelpReply::Notice(generic_help_message(version, repository));
    }
    let arg = fields[1].as_str();
    assert(help_argument(body@) == Some(arg@));
    match HelpType::from(arg) {
        HelpType::Command => HelpReply::Notice(action_command_help_message()),
        HelpType::Commandless => HelpReply::Notice(action_commandless_help_message()),
        HelpType::GroupPing => HelpReply::Notice(group_ping_help_message(config)),
        HelpType::GithubSearch => HelpReply::Notice(github_search_help_message(config)),
        HelpType::Link => HelpReply::Notice(link_help_message(config)),
        HelpType::TextExpansion => HelpReply::Notice(text_expansion_help_message(config)),
        HelpType::UnitConversion => HelpReply::Notice(unit_conversion_help_message(config)),
        HelpType::UnknownCommand => {
            let mut message = String::from_str("Unknown action ");
            message.append(arg);
            proof {
                reveal_strlit("Unknown action ");
            }
            let mut errors: Vec<String> = Vec::new();
            errors.push(message);
            let mut response = MatrixFormattedNoticeResponse::new();
            response.add_errrors(errors);
            assert(strings_view(errors) =~= seq![unknown_action(arg@)]);
            let formatted = response.format_text();
            let plain_text = response.to_string();
            match formatted {
                Some(formatted_text) => HelpReply::UnknownAction { plain_text, formatted_text },
                None => {
                    assert(false);
                    HelpReply::Ignored
                },
            }
        },
    }
}

/// The reply to `body`, or `None` where the page asked for would list a
/// setting that is not configured.
pub fn help_reply_checked(
    body: &str,
    room_id: &str,
    config: &MatrixListenerConfig,
    version: &str,
    repository: &str,
) -> (r: Option<HelpReply>)
    ensures
        help_result(r, body@, room_id@, *config, version@, repository@),
{
    let allowed = config.help_rooms.len() == 0 || contains_string(&config.help_rooms, room_id);
    if allowed {
        let fields = split_on(body, ' ');
        if fields.len() >= 2 {
            let lacks = match HelpType::from(fields[1].as_str()) {
                HelpType::GroupPing => config.group_pings.len() == 0,
                HelpType::GithubSearch => config.repos.len() == 0,
                HelpType::Link => config.linkers.len() == 0 || config.links.len() == 0,
                HelpType::TextExpansion => config.text_expansions.len() == 0,
                HelpType::UnitConversion => config.unit_conversion_exclusion.len() == 0,
                _ => false,
            };
            if lacks {
                return None;
            }
        }
    }
    Some(help_reply(body, room_id, config, version, repository))
}


/// Each page begins with its title line.
pub proof fn lemma_page_titles(c: MatrixListenerConfig)
    ensures
        action_command_text().len() >= 15 && action_command_text().take(15) == "Command Action\n"@,
        action_commandless_text().len() >= 19 && action_commandless_text().take(19) == "Commandless Action\n"@,
        group_ping_text(c).len() >= 11 && group_ping_text(c).take(11) == "Group Ping\n"@,
        github_search_text(c).len() >= 14 && github_search_text(c).take(14) == "Github Search\n"@,
        link_text(c).len() >= 5 && link_text(c).take(5) == "Link\n"@,
        text_expansion_text(c).len() >= 15 && text_expansion_text(c).take(15) == "Text Expansion\n"@,
        unit_conversion_text(c).len() >= 16 && unit_conversion_text(c).take(16) == "Unit Conversion\n"@,
{
    reveal_strlit("Command Action\n\nCommand actions are defined as message that have no formatting (like no italics, no inline code, not a reply, etc) that start with a !. These can only perform one action per message.\n\nEXAMPLES:\n\t!help\n\t!convert 22mi");
    reveal_strlit("Command Action\n");
    assert(action_command_text().take(15) =~= "Command Action\n"@);
    reveal_strlit("Commandless Action\n\nCommandles actions can happen in any plain text message but certain text formatting will be ignored. Currently ignored formatting is inline code, code blocks, and the text in a reply (but not the reply itself)\n\nThe exact rules for triggering a commandless action vary by action (so check action help pages for info on how to trigger them), but their defining features are that they can be in any part of a message and mutiple can be triggered per message.\n\nEXAMPLES:\n\tHey there, i think you want to read docs@troubleshooting\n\tIts not like 32f is that cold. not sure what you are complaining about\n");
    reveal_strlit("Commandless Action\n");
    assert(action_commandless_text().take(19) =~= "Commandless Action\n"@);
    reveal_strlit("Group Ping\n\nThis action is only available as commandless. It will trigger on anything that matches \"%group\" where \"group\" is the group you want to ping.\n\nIf the group exists and you are authorized to make a group ping, a message pinging everyone in the group will be made in a bot message.\n\nUSAGE:\n\tHey there %server can you look at this for me?\n\t%server\n\nAVAILABLE GROUPS:\n");
    reveal_strlit("Group Ping\n");
    assert(group_ping_text(c).take(11) =~= "Group Ping\n"@);
    reveal_strlit("Github Search\n\nThis action is only available as commandless. It will trigger on anything that matches \"jf#1234\" where \"jf\" is the repo you want to search and \"1234\" is the issue or PR you want to link.\n\nIf the repo and the number exist, it will provide a link to the issue or pull in a bot message.\n\nUSAGE:\n\tI could use a review on jf#1234\n\tjf#1234\n\nAVAILABLE REPOS:\n");
    reveal_strlit("Github Search\n");
    assert(github_search_text(c).take(14) =~= "Github Search\n"@);
    reveal_strlit("Link\n\nThis action is only available as commandless. It will trigger on anything that matches \"link@hwa\" where \"link\" is a configured keyword and \"hwa\" is a linkable item.\n\nif the keyword and item exist, there will be a link provided in a bot message.\n\nUSAGE:\n\tI think you might want to look at link@hwa\n\tlink@hwa\n\nAVAILABLE KEYWORDS:\n");
    reveal_strlit("Link\n");
    assert(link_text(c).take(5) =~= "Link\n"@);
    reveal_strlit("Text Expansion\n\nThis action is only available as commandless. It will trigger on anything that matches \"$text\" where \"text\" is a configured keyword.\n\nif the keyword exists, there will be a message containing designated expanded text provided in a bot message.\n\nUSAGE:\n\tIf you have questions about the addon, i hope $kodi answers it for you\n\t$kodi\n\nAVAILABLE KEYWORDS:\n");
    reveal_strlit("Text Expansion\n");
    assert(text_expansion_text(c).take(15) =~= "Text Expansion\n"@);
    reveal_strlit("Unit Conversion\n\nThis action is available as both a command and commanless. It will convert common converstation units Imperial <-> Metric to help ease international chat. There can be a space between the quantity and unit except for the units excluded by configuration (listed below).\n\nUSAGE:\n\tCOMMAND:\n\t\t!convert 20c\n\n\tCOMMANDLESS:\n\t\tIt's weird that the speed limit here is 45mph\n\t\t45 mph\n\nSUPPORTED UNITS:\nLENGTH:\ncm | m | km | in | ft | mi | mile | miles\nTEMPERATURE:\nc | °c | f | °f\nWEIGHT:\nkg | lbs\nSPEED:\nkm/h | kmh | kph | kmph | mph\n\nSPACE EXCLUDED UNITS:\n");
    reveal_strlit("Unit Conversion\n");
    assert(unit_conversion_text(c).take(16) =~= "Unit Conversion\n"@);
}

} // verus!
