//! The decisions of the Matrix listener: where a text message goes, what
//! a commandless message is answered, the `!convert` and `!ban` commands,
//! invites, and the correction cooldown.
use vstd::prelude::*;
use crate::commandless::{
    expansion_list, first_bad_url, group_ping, link_list, link_url, ping_list,
    serialized_urls, text_expansion, without_member, LinkError,
};
use crate::config::MatrixListenerConfig;
use crate::help::{ascii_lowercase, help_reply_checked, help_result, to_ascii_lowercase, HelpReply};
use crate::ids::{localpart_of, user_id_accepted, UserId};
use crate::mentions::{
    first_mention, formatted_username_first, github_search_is_match, github_searches,
    group_ping_is_match, group_pings, link_requests, link_url_is_match, text_expansion_is_match,
    text_expansions,
};
use crate::messages::{
    check_format, CheckFormatError, MatrixBanMessage, MatrixInviteMessage, MatrixInviteType,
    MessageFormat,
};
use crate::quantity::{conversions, find_conversion, unit_conversion_captures, unit_conversion_is_match, UnitConversionCapture};
use crate::response::{
    opt_lines, ping_html, ping_plain, ConvertedUnit, MatrixFormattedTextResponse,
    MatrixNoticeResponse,
};
use crate::spelling::{correction_for, spellcheck};
use crate::text::{
    clone_strings, contains_string, first_char_is, joined, lowercased, pairs_view, split_fields,
    split_on, starts_with_char, strs_view, to_lowercase, trimmed,
};

verus! {

// ---------------------------------------------------------------------------
// Routing
/// Where a text message goes.
#[derive(Clone, Copy, Debug, PartialEq, Eq, Structural)]
pub enum TextRoute {
    /// Not a command: the commandless actions.
    Commandless,
    /// `!convert ` followed by quantities.
    Convert,
    /// `!help`.
    Help,
    /// `!ban`.
    Ban,
    /// Another command: nothing is done.
    Ignore,
}

/// Whether `s` starts with `p`.
pub open spec fn has_prefix(s: Seq<char>, p: Seq<char>) -> bool {
    p.len() <= s.len() && s.take(p.len() as int) == p
}

/// The lower case form of a message that routing reads: for an ASCII
/// message its ASCII lower case, which is what `str::to_lowercase` gives
/// there; otherwise `str::to_lowercase` itself.
pub open spec fn route_lower(body: Seq<char>) -> Seq<char> {
    if vstd::utf8::is_ascii_chars(body) {
        ascii_lowercase(body)
    } else {
        lowercased(body)
    }
}

/// Where `body` goes: a message that does not start with `!` to the
/// commandless actions; otherwise the command named at the start of its
/// lower case form.
pub open spec fn text_route(body: Seq<char>) -> TextRoute {
    if !starts_with_char(body, '!') {
        TextRoute::Commandless
    } else if has_prefix(route_lower(body), "!convert "@) {
        TextRoute::Convert
    } else if has_prefix(route_lower(body), "!help"@) {
        TextRoute::Help
    } else if has_prefix(route_lower(body), "!ban"@) {
        TextRoute::Ban
    } else {
        TextRoute::Ignore
    }
}

/// Whether `s` starts with `p`.
pub fn starts_with_str(s: &str, p: &str) -> (b: bool)
    ensures
        b == has_prefix(s@, p@),
{
    let x = crate::text::to_chars(s);
    let y = crate::text::to_chars(p);
    if y.len() > x.len() {
        return false;
    }
    let mut i: usize = 0;
    while i < y.len()
        invariant
            i <= y@.len() <= x@.len(),
            x@ == s@,
            y@ == p@,
            forall|j: int| 0 <= j < i ==> x@[j] == y@[j],
        decreases y@.len() - i,
    {
        if x[i] != y[i] {
            assert(x@.take(y@.len() as int)[i as int] != y@[i as int]);
            return false;
        }
        i = i + 1;
    }
    assert(x@.take(y@.len() as int) =~= y@);
    true
}

/// Where a text message goes.
pub fn route_text(body: &str) -> (r: TextRoute)
    ensures
        r == text_route(body@),
{
    if !first_char_is(body, '!') {
        return TextRoute::Commandless;
    }
    let low = if body.is_ascii() {
        to_ascii_lowercase(body)
    } else {
        to_lowercase(body)
    };
    if starts_with_str(low.as_str(), "!convert ") {
        TextRoute::Convert
    } else if starts_with_str(low.as_str(), "!help") {
        TextRoute::Help
    } else if starts_with_str(low.as_str(), "!ban") {
        TextRoute::Ban
    } else {
        TextRoute::Ignore
    }
}

// ---------------------------------------------------------------------------
// Correction cooldown
/// Whether a correction may be made in a room, given when the last one was
/// made there (if ever) and the time now, in seconds since the Unix epoch:
/// always where none was made, and otherwise once the five minute cooldown
/// after the last one has passed.
pub open spec fn cooldown_allows(last: Option<u64>, now: u64) -> bool {
    match last {
        None => true,
        Some(t) => now >= t + 300,
    }
}

/// Whether a correction may be made in a room, as `cooldown_allows` says.
pub fn correction_time_cooldown(last: Option<u64>, now: u64) -> (b: bool)
    requires
        last matches Some(t) ==> t + 300 <= u64::MAX,
    ensures
        b == cooldown_allows(last, now),
{
    match last {
        None => true,
        Some(t) => now >= t + 300,
    }
}

// ---------------------------------------------------------------------------
// Invites
/// Accepts an invite from an administrator and rejects any other.
pub fn handle_invite_event(sender: &UserId, config: &MatrixListenerConfig) -> (r: MatrixInviteMessage)
    ensures
        r.sender@ == sender@,
        r.kind == (if config.admins@.contains(sender@) {
            MatrixInviteType::Accept
        } else {
            MatrixInviteType::Reject
        }),
{
    if config.admins.contains(sender) {
        MatrixInviteMessage { kind: MatrixInviteType::Accept, sender: sender.duplicate() }
    } else {
        MatrixInviteMessage { kind: MatrixInviteType::Reject, sender: sender.duplicate() }
    }
}

// ---------------------------------------------------------------------------
// The `!convert` command
/// The (quantity, unit) pairs of every match of the quantity grammar.
pub open spec fn all_requests(caps: Seq<(Seq<char>, Seq<char>, Seq<char>)>) -> Seq<(Seq<char>, Seq<char>)> {
    caps.map_values(|c: (Seq<char>, Seq<char>, Seq<char>)| (c.1, c.2))
}

/// Whether `r` is what a `!convert` command `body` asks to convert: every
/// match of the quantity grammar in its lower case body. A command that
/// replies to another message or is formatted is not answered.
pub open spec fn convert_result(
    r: Option<Vec<(String, String)>>,
    body: Seq<char>,
    replies_to_other: bool,
    formatted: bool,
) -> bool {
    if replies_to_other || formatted {
        r is None
    } else {
        r matches Some(v) && pairs_view(v@) == all_requests(conversions(lowercased(body)))
    }
}

/// The quantities and units a `!convert` command asks to convert.
pub fn convert_command_requests(body: &str, replies_to_other: bool, formatted: bool) -> (r: Option<Vec<(String, String)>>)
    ensures
        convert_result(r, body@, replies_to_other, formatted),
{
    if replies_to_other || formatted {
        return None;
    }
    let low = to_lowercase(body);
    let caps = unit_conversion_captures(low.as_str());
    let ghost cv = caps@.map_values(|c: UnitConversionCapture| c.view());
    let mut out: Vec<(String, String)> = Vec::new();
    let mut i: usize = 0;
    while i < caps.len()
        invariant
            i <= caps@.len(),
            cv == caps@.map_values(|c: UnitConversionCapture| c.view()),
            pairs_view(out@) == all_requests(cv.take(i as int)),
        decreases caps@.len() - i,
    {
        let item = (caps[i].quantity.clone(), caps[i].unit.clone());
        let ghost prev = out@;
        out.push(item);
        proof {
            assert(out@ =~= prev.push(item));
            assert(pairs_view(out@) =~= pairs_view(prev).push((caps@[i as int].quantity@, caps@[i as int].unit@)));
            assert(cv[i as int] == caps@[i as int].view());
            assert(all_requests(cv.take(i + 1)) =~= all_requests(cv.take(i as int)).push((cv[i as int].1, cv[i as int].2)));
        }
        i = i + 1;
    }
    assert(cv.take(i as int) =~= cv);
    Some(out)
}

/// The notice that answers a `!convert` command: one `from => to` line
/// per conversion.
pub fn conversion_notice(converted: Vec<ConvertedUnit>) -> (r: String)
    ensures
        r@ == trimmed(crate::text::lines(converted@.map_values(|c: ConvertedUnit| c.line_view()))),
{
    let mut response = MatrixNoticeResponse::new();
    response.set_unit_conversions(converted);
    let r = response.to_string();
    assert(opt_lines(response.gh_results_view()) =~= seq![]);
    assert(opt_lines(response.links_view()) =~= seq![]);
    assert(opt_lines(response.expanded_view()) =~= seq![]);
    assert(opt_lines(response.conversions_view()) + opt_lines(response.gh_results_view())
        + opt_lines(response.links_view()) + opt_lines(response.expanded_view())
        =~= opt_lines(response.conversions_view()));
    r
}

// ---------------------------------------------------------------------------
// The `!ban` command
/// Why a ban command cannot be carried out.
#[derive(Clone, Copy, Debug, PartialEq, Eq, Structural)]
pub enum BanError {
    /// The command has no word after `!ban`.
    MissingUser,
    /// The formatted body names no user.
    NoUserInFormattedBody,
    /// The user named in the formatted body is not a user ID.
    InvalidUser,
}

impl BanError {
    /// The text of the error.
    pub fn message(&self) -> (r: String)
        ensures
            r@ == ban_error_text(*self),
    {
        match self {
            BanError::MissingUser => String::from_str("somehow no body or formatted body was presented?"),
            BanError::NoUserInFormattedBody => String::from_str(
                "Unable to find HTTPS line in formatted body for user ban. Unable to continue.",
            ),
            BanError::InvalidUser => String::from_str(
                "User was invalid format, unable to continue ban handler",
            ),
        }
    }
}

pub open spec fn ban_error_text(e: BanError) -> Seq<char> {
    match e {
        BanError::MissingUser => "somehow no body or formatted body was presented?"@,
        BanError::NoUserInFormattedBody =>
            "Unable to find HTTPS line in formatted body for user ban. Unable to continue."@,
        BanError::InvalidUser => "User was invalid format, unable to continue ban handler"@,
    }
}

/// The reason of a ban: every field of the body from the third on, each
/// followed by a space.
pub open spec fn ban_reason_text(fields: Seq<Seq<char>>, i: int) -> Seq<char>
    decreases fields.len() - i,
{
    if i < 0 || i >= fields.len() {
        seq![]
    } else {
        fields[i] + seq![' '] + ban_reason_text(fields, i + 1)
    }
}

/// The reason of a ban command, or none where it is only white space.
pub open spec fn ban_reason(body: Seq<char>) -> Option<Seq<char>> {
    let r = ban_reason_text(split_fields(body, ' '), 2);
    if trimmed(r).len() == 0 {
        None
    } else {
        Some(r)
    }
}

/// The user a ban command names: the word after `!ban` if it is a user ID,
/// else the first user mentioned in the formatted body.
pub open spec fn ban_target(body: Seq<char>, formatted: Option<Seq<char>>) -> Result<Option<Seq<char>>, BanError> {
    let fields = split_fields(body, ' ');
    if fields.len() < 2 {
        Err(BanError::MissingUser)
    } else if user_id_accepted(fields[1]) {
        Ok(Some(fields[1]))
    } else {
        match formatted {
            None => Ok(None),
            Some(f) => match first_mention(f) {
                None => Err(BanError::NoUserInFormattedBody),
                Some(m) => if user_id_accepted(m) {
                    Ok(Some(m))
                } else {
                    Err(BanError::InvalidUser)
                },
            },
        }
    }
}

fn ban_reason_exec(fields: &Vec<String>) -> (r: String)
    ensures
        r@ == ban_reason_text(strs_view(fields@), 2),
{
    let ghost fv = strs_view(fields@);
    let mut out = String::new();
    let mut i: usize = 2;
    while i < fields.len()
        invariant
            2 <= i,
            fv == strs_view(fields@),
            i <= fields@.len() || fields@.len() < 2,
            out@ + ban_reason_text(fv, i as int) == ban_reason_text(fv, 2),
        decreases fields@.len() - i,
    {
        let ghost before = out@;
        out.append(fields[i].as_str());
        out.append(" ");
        proof {
            reveal_strlit(" ");
            assert(out@ =~= before + fv[i as int] + seq![' ']);
            assert(out@ + ban_reason_text(fv, i + 1) =~= before + ban_reason_text(fv, i as int));
        }
        i = i + 1;
    }
    assert(out@ + ban_reason_text(fv, i as int) =~= out@);
    out
}

/// Whether `r` answers the `!ban` command `body` (with formatted body
/// `fv`) from `sender`: nothing where no ban room is configured or the
/// sender is no admin; otherwise the ban of the target user in every ban
/// room, with the reason the command gives, or the error that the target
/// cannot be read.
pub open spec fn ban_result(
    r: Result<Option<MatrixBanMessage>, BanError>,
    body: Seq<char>,
    fv: Option<Seq<char>>,
    sender: Seq<char>,
    config: MatrixListenerConfig,
) -> bool {
    if config.ban_rooms@.len() == 0 || !config.admins@.contains(sender) {
        r matches Ok(None)
    } else {
        match ban_target(body, fv) {
            Err(e) => r matches Err(x) && x == e,
            Ok(None) => r matches Ok(None),
            Ok(Some(u)) => r matches Ok(Some(m)) && m.user@ == u && strs_view(m.rooms@)
                == strs_view(config.ban_rooms@) && match ban_reason(body) {
                Some(t) => m.reason matches Some(x) && x@ == t,
                None => m.reason is None,
            },
        }
    }
}

/// The ban that a `!ban` command from `sender` asks for. Nothing is done
/// where bans are off (no ban rooms) or the sender is not an
/// administrator, nor where the word after `!ban` is not a user ID and
/// there is no formatted body.
pub fn ban_request(
    body: &str,
    formatted: Option<&str>,
    sender: &UserId,
    config: &MatrixListenerConfig,
) -> (r: Result<Option<MatrixBanMessage>, BanError>)
    ensures
        ban_result(r, body@, opt_view(formatted), sender@, *config),
{
    if config.ban_rooms.len() == 0 {
        return Ok(None);
    }
    if !config.admins.contains(sender) {
        return Ok(None);
    }
    let fields = split_on(body, ' ');
    if fields.len() < 2 {
        return Err(BanError::MissingUser);
    }
    let user = match UserId::parse(fields[1].as_str()) {
        Ok(u) => u,
        Err(_) => match formatted {
            None => {
                return Ok(None);
            },
            Some(f) => match formatted_username_first(f) {
                None => {
                    return Err(BanError::NoUserInFormattedBody);
                },
                Some(m) => match UserId::parse(m.as_str()) {
                    Ok(u) => u,
                    Err(_) => {
                        return Err(BanError::InvalidUser);
                    },
                },
            },
        },
    };
    let reason_text = ban_reason_exec(&fields);
    let chars = crate::text::to_chars(reason_text.as_str());
    let trimmed_reason = crate::text::trim(chars.as_slice());
    let reason = if trimmed_reason.as_str().is_empty() {
        None
    } else {
        Some(reason_text)
    };
    Ok(Some(MatrixBanMessage { user, reason, rooms: clone_strings(&config.ban_rooms) }))
}

// ---------------------------------------------------------------------------
// Commandless messages
/// What a commandless message is answered with.
#[derive(Debug)]
pub struct CommandlessOutcome {
    /// A plain notice with the conversions, search results, links and
    /// expanded texts.
    pub notice: Option<String>,
    /// A text that pings users, as plain text and HTML.
    pub text: Option<(String, String)>,
    /// A spelling correction, sent as plain text.
    pub correction: Option<String>,
}

/// Why a commandless message is not answered.
#[derive(Debug)]
pub enum CommandlessError {
    /// The message is formatted in a way the bot does not read.
    Format(CheckFormatError),
    /// A link the message asks for has a URL that cannot be sent.
    Link(LinkError),
}

/// Whether the message asks for unit conversions and they are on.
pub open spec fn wants_conversions(body: Seq<char>, config: MatrixListenerConfig) -> bool {
    find_conversion(body, 0) is Some && config.enable_unit_conversions
}

/// Whether the message asks for GitHub searches and repositories are
/// configured.
pub open spec fn wants_searches(body: Seq<char>, config: MatrixListenerConfig) -> bool {
    github_searches(body).len() > 0 && config.repos@.len() > 0
}

/// Whether the message asks for links and links are configured.
pub open spec fn wants_links(body: Seq<char>, config: MatrixListenerConfig) -> bool {
    link_requests(body).len() > 0 && config.links@.len() > 0 && config.linkers@.len() > 0
}

/// Whether the message asks for unit conversions and they are on.
pub fn asks_for_conversions(body: &str, config: &MatrixListenerConfig) -> (b: bool)
    ensures
        b == wants_conversions(body@, *config),
{
    unit_conversion_is_match(body) && config.enable_unit_conversions
}

/// Whether the message asks for GitHub searches and repositories are
/// configured.
pub fn asks_for_searches(body: &str, config: &MatrixListenerConfig) -> (b: bool)
    ensures
        b == wants_searches(body@, *config),
{
    github_search_is_match(body) && config.repos.len() > 0
}

/// The conversions part of the notice: the lines of the conversions made,
/// where the message asks for conversions and some were made.
pub open spec fn conversion_part(
    body: Seq<char>,
    config: MatrixListenerConfig,
    converted: Option<Seq<Seq<char>>>,
) -> Option<Seq<Seq<char>>> {
    if wants_conversions(body, config) {
        converted
    } else {
        None
    }
}

/// The search results part of the notice.
pub open spec fn search_part(
    body: Seq<char>,
    config: MatrixListenerConfig,
    found: Option<Seq<Seq<char>>>,
) -> Option<Seq<Seq<char>>> {
    if wants_searches(body, config) && found is Some && found->0.len() > 0 {
        found
    } else {
        None
    }
}

/// The links part of the notice.
pub open spec fn link_part(body: Seq<char>, formatted: Option<Seq<char>>, config: MatrixListenerConfig) -> Option<Seq<Seq<char>>> {
    let l = link_list(body, formatted, config);
    if wants_links(body, config) && l.len() > 0 {
        Some(serialized_urls(l))
    } else {
        None
    }
}

/// The expanded texts part of the notice.
pub open spec fn expansion_part(body: Seq<char>, formatted: Option<Seq<char>>, config: MatrixListenerConfig) -> Option<Seq<Seq<char>>> {
    let e = expansion_list(body, formatted, config);
    if text_expansions(body).len() > 0 && e.len() > 0 {
        Some(e)
    } else {
        None
    }
}

/// The users the message pings.
pub open spec fn ping_part(
    body: Seq<char>,
    formatted: Option<Seq<char>>,
    sender: Seq<char>,
    config: MatrixListenerConfig,
) -> Option<Seq<Seq<char>>> {
    let l = ping_list(body, formatted, config);
    if group_pings(body).len() > 0 && config.group_ping_users@.contains(sender) && l.len() > 0 {
        if l.len() == 1 {
            Some(l)
        } else {
            Some(without_member(l, sender))
        }
    } else {
        None
    }
}

/// The text of a notice with the given parts, if it has any.
pub open spec fn notice_text(
    a: Option<Seq<Seq<char>>>,
    b: Option<Seq<Seq<char>>>,
    c: Option<Seq<Seq<char>>>,
    d: Option<Seq<Seq<char>>>,
) -> Option<Seq<char>> {
    if a is Some || b is Some || c is Some || d is Some {
        Some(trimmed(opt_lines(a) + opt_lines(b) + opt_lines(c) + opt_lines(d)))
    } else {
        None
    }
}

/// The lines of each conversion.
pub open spec fn converted_lines(o: Option<Vec<ConvertedUnit>>) -> Option<Seq<Seq<char>>> {
    match o {
        Some(v) => Some(v@.map_values(|c: ConvertedUnit| c.line_view())),
        None => None,
    }
}

/// `Some` of the view of an optional string.
pub open spec fn opt_view(o: Option<&str>) -> Option<Seq<char>> {
    match o {
        Some(f) => Some(f@),
        None => None,
    }
}

/// `Some` of the value behind an optional reference.
pub open spec fn opt_format(o: Option<&MessageFormat>) -> Option<MessageFormat> {
    match o {
        Some(f) => Some(*f),
        None => None,
    }
}

/// Whether `r` is the answer to a commandless message `body` (formatted as
/// `format`, with formatted body `fv`) from `sender` in `room_id`, given the
/// conversions made for it, the GitHub links found for it, and whether the
/// last correction in the room allows another. Messages from the bot itself
/// are not answered. A spelling correction is made only where nothing else
/// answers, corrections are on, the message replies to no other, the
/// cooldown allows it and the room is not excluded.
pub open spec fn commandless_result(
    r: Result<CommandlessOutcome, CommandlessError>,
    body: Seq<char>,
    format: Option<MessageFormat>,
    fv: Option<Seq<char>>,
    replies_to_other: bool,
    sender: Seq<char>,
    room_id: Seq<char>,
    config: MatrixListenerConfig,
    converted: Option<Vec<ConvertedUnit>>,
    found: Option<Vec<String>>,
    cooldown_allows: bool,
) -> bool {
    let links = link_list(body, fv, config);
    let bad_link = wants_links(body, config) && links.len() > 0 && first_bad_url(links) is Some;
    let notice = notice_text(
        conversion_part(body, config, converted_lines(converted)),
        search_part(body, config, crate::text::opt_strs(found)),
        link_part(body, fv, config),
        expansion_part(body, fv, config),
    );
    let users = ping_part(body, fv, sender, config);
    let may_correct = config.enable_corrections && !replies_to_other && cooldown_allows
        && !strs_view(config.correction_exclusion@).contains(room_id) && notice is None
        && users is None;
    let correction = correction_for(
        config.incorrect_spellings@,
        config.incorrect_spellings@.len() as int,
        body,
        config.correction_text@,
        localpart_of(sender),
    );
    if sender == config.mx_uname@ {
        r matches Ok(o) && o.notice is None && o.text is None && o.correction is None
    } else if format is Some && format->0 is Other {
        r matches Err(CommandlessError::Format(CheckFormatError::FormatNotSupported(n))) && n@
            == format->0->Other_0@
    } else if bad_link {
        r matches Err(CommandlessError::Link(LinkError::InvalidUrl(u))) && u@ == first_bad_url(links)->0
    } else {
        r matches Ok(o) && (match notice {
            Some(t) => o.notice matches Some(x) && x@ == t,
            None => o.notice is None,
        }) && (match users {
            Some(us) => o.text matches Some((plain, html)) && plain@ == trimmed(
                joined(us, |u: Seq<char>| ping_plain(u)),
            ) && html@ == joined(us, |u: Seq<char>| ping_html(u)),
            None => o.text is None,
        }) && (if may_correct && correction.len() > 0 {
            o.correction matches Some(c) && c@ == correction
        } else {
            o.correction is None
        })
    }
}

/// The answer to a commandless message from `sender` in `room_id`, given
/// the conversions made for it (`unit_conversion_requests` then the unit
/// arithmetic) and the GitHub links found for it (`github_search_requests`
/// then the searches), and whether the last correction in the room allows
/// another.
pub fn commandless_handler(
    body: &str,
    format: Option<&MessageFormat>,
    formatted_body: Option<&str>,
    replies_to_other: bool,
    sender: &UserId,
    room_id: &str,
    config: &MatrixListenerConfig,
    converted: Option<Vec<ConvertedUnit>>,
    found: Option<Vec<String>>,
    cooldown_allows: bool,
) -> (r: Result<CommandlessOutcome, CommandlessError>)
    ensures
        commandless_result(
            r,
            body@,
            opt_format(format),
            opt_view(formatted_body),
            replies_to_other,
            sender@,
            room_id@,
            *config,
            converted,
            found,
            cooldown_allows,
        ),
{
    let none = CommandlessOutcome { notice: None, text: None, correction: None };
    if sender.same_as(&config.mx_uname) {
        return Ok(none);
    }
    if let Err(e) = check_format(format) {
        return Err(CommandlessError::Format(e));
    }
    let mut notice_response = MatrixNoticeResponse::new();
    let mut text_response = MatrixFormattedTextResponse::new();
    if unit_conversion_is_match(body) && config.enable_unit_conversions {
        if let Some(v) = converted {
            notice_response.set_unit_conversions(v);
        }
    }
    if github_search_is_match(body) && config.repos.len() > 0 {
        if let Some(v) = found {
            if v.len() > 0 {
                notice_response.set_gh_results(v);
            }
        }
    }
    if link_url_is_match(body) && config.links.len() > 0 && config.linkers.len() > 0 {
        if let Err(e) = link_url(body, formatted_body, config, &mut notice_response) {
            return Err(CommandlessError::Link(e));
        }
    }
    if group_ping_is_match(body) {
        group_ping(body, formatted_body, sender, config, &mut text_response);
    }
    if text_expansion_is_match(body) {
        text_expansion(body, formatted_body, config, &mut notice_response);
    }
    let notice = if notice_response.is_some() {
        Some(notice_response.to_string())
    } else {
        None
    };
    let text = if text_response.is_some() {
        match text_response.format_text() {
            Some(html) => Some((text_response.to_string(), html)),
            None => None,
        }
    } else {
        None
    };
    let mut correction: Option<String> = None;
    if config.enable_corrections && !replies_to_other && cooldown_allows
        && !contains_string(&config.correction_exclusion, room_id) && notice.is_none()
        && text.is_none() {
        correction = spellcheck(body, sender, &config.incorrect_spellings, config.correction_text.as_str());
    }
    Ok(CommandlessOutcome { notice, text, correction })
}

// ---------------------------------------------------------------------------
// Text events
/// What a text message is answered with, by the way it goes.
#[derive(Debug)]
pub enum TextEventOutcome {
    /// The answer to a commandless message.
    Commandless(Result<CommandlessOutcome, CommandlessError>),
    /// The quantities and units a `!convert` command asks to convert.
    Convert(Option<Vec<(String, String)>>),
    /// The reply to `!help`.
    Help(Option<HelpReply>),
    /// The ban a `!ban` command asks for.
    Ban(Result<Option<MatrixBanMessage>, BanError>),
    /// Nothing is done.
    Ignore,
}

/// Handles a text message: routes it by `route_text` and answers it as
/// that route asks. A message that does not start with `!` gets exactly
/// the commandless answer, for the conversions, GitHub links and cooldown
/// given (which matter only there); any other command than `!convert `,
/// `!help` and `!ban` is ignored.
pub fn handle_text_event(
    body: &str,
    format: Option<&MessageFormat>,
    formatted_body: Option<&str>,
    replies_to_other: bool,
    sender: &UserId,
    room_id: &str,
    config: &MatrixListenerConfig,
    converted: Option<Vec<ConvertedUnit>>,
    found: Option<Vec<String>>,
    cooldown_allows: bool,
    version: &str,
    repository: &str,
) -> (r: TextEventOutcome)
    ensures
        match text_route(body@) {
            TextRoute::Commandless => r matches TextEventOutcome::Commandless(c) && commandless_result(
                c,
                body@,
                opt_format(format),
                opt_view(formatted_body),
                replies_to_other,
                sender@,
                room_id@,
                *config,
                converted,
                found,
                cooldown_allows,
            ),
            TextRoute::Convert => r matches TextEventOutcome::Convert(c) && convert_result(
                c,
                body@,
                replies_to_other,
                formatted_body is Some,
            ),
            TextRoute::Help => r matches TextEventOutcome::Help(h) && help_result(
                h,
                body@,
                room_id@,
                *config,
                version@,
                repository@,
            ),
            TextRoute::Ban => r matches TextEventOutcome::Ban(b) && ban_result(
                b,
                body@,
                opt_view(formatted_body),
                sender@,
                *config,
            ),
            TextRoute::Ignore => r is Ignore,
        },
{
    match route_text(body) {
        TextRoute::Commandless => TextEventOutcome::Commandless(
            commandless_handler(
                body,
                format,
                formatted_body,
                replies_to_other,
                sender,
                room_id,
                config,
                converted,
                found,
                cooldown_allows,
            ),
        ),
        TextRoute::Convert => TextEventOutcome::Convert(
            convert_command_requests(body, replies_to_other, formatted_body.is_some()),
        ),
        TextRoute::Help => TextEventOutcome::Help(
            help_reply_checked(body, room_id, config, version, repository),
        ),
        TextRoute::Ban => TextEventOutcome::Ban(ban_request(body, formatted_body, sender, config)),
        TextRoute::Ignore => TextEventOutcome::Ignore,
    }
}

} // verus!
