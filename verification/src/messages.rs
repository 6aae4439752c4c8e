//! The messages that the listeners hand to the responder, the formats of
//! incoming messages, and the records the bot stores.
use vstd::prelude::*;
use crate::ids::UserId;
use crate::text::str_eq;

verus! {

/// The format of a formatted message body.
#[derive(Clone, Debug, PartialEq, Eq)]
pub enum MessageFormat {
    /// `org.matrix.custom.html`.
    Html,
    /// Any other format, by its name.
    Other(String),
}

/// A format that later steps can process.
#[derive(Clone, Debug, PartialEq, Eq)]
pub enum CheckFormatSuccess {
    /// The message is formatted as HTML.
    FormatSupported(MessageFormat),
    /// The message has no format.
    NoFormat,
}

/// A format that later steps cannot process.
#[derive(Clone, Debug, PartialEq, Eq)]
pub enum CheckFormatError {
    /// The name of the unsupported format.
    FormatNotSupported(String),
}

impl CheckFormatError {
    /// The message that reports the error to the admin.
    pub open spec fn message_view(&self) -> Seq<char> {
        match self {
            CheckFormatError::FormatNotSupported(f) => "Message parsed properly, but format "@ + f@
                + " is not supported so no conversion is taking place."@,
        }
    }

    /// The message that reports the error to the admin.
    pub fn message(&self) -> (r: String)
        ensures
            r@ == self.message_view(),
    {
        match self {
            CheckFormatError::FormatNotSupported(f) => {
                let mut r = String::new();
                r.append("Message parsed properly, but format ");
                r.append(f.as_str());
                r.append(" is not supported so no conversion is taking place.");
                r
            },
        }
    }
}

/// Accepts messages with no format and HTML messages; rejects any other
/// format, naming it.
pub fn check_format(format: Option<&MessageFormat>) -> (r: Result<CheckFormatSuccess, CheckFormatError>)
    ensures
        format is None ==> r == Ok::<CheckFormatSuccess, CheckFormatError>(CheckFormatSuccess::NoFormat),
        format == Some(&MessageFormat::Html) ==> r == Ok::<CheckFormatSuccess, CheckFormatError>(
            CheckFormatSuccess::FormatSupported(MessageFormat::Html),
        ),
        format matches Some(MessageFormat::Other(name)) ==> r matches Err(
            CheckFormatError::FormatNotSupported(n),
        ) && n@ == name@,
{
    match format {
        Some(MessageFormat::Html) => Ok(CheckFormatSuccess::FormatSupported(MessageFormat::Html)),
        Some(MessageFormat::Other(name)) => Err(CheckFormatError::FormatNotSupported(name.clone())),
        None => Ok(CheckFormatSuccess::NoFormat),
    }
}

/// The format a `format` field names: HTML for `org.matrix.custom.html`,
/// any other by its name.
pub fn message_format(name: &str) -> (r: MessageFormat)
    ensures
        name@ == "org.matrix.custom.html"@ ==> r == MessageFormat::Html,
        name@ != "org.matrix.custom.html"@ ==> (r matches MessageFormat::Other(n) && n@ == name@),
{
    if str_eq(name, "org.matrix.custom.html") {
        MessageFormat::Html
    } else {
        MessageFormat::Other(name.to_string())
    }
}

/// The fields of a text message that the listener reads.
#[derive(Debug)]
pub struct TextMessage {
    pub body: String,
    pub format: Option<MessageFormat>,
    pub formatted_body: Option<String>,
    /// Whether the message relates to another one (a reply, a thread).
    pub replies_to_other: bool,
}

/// Whether a message event with content type `msgtype` and relation type
/// `rel_type` is a text message that the listener handles: an `m.text`
/// message that is not an edit (`m.replace`) of an earlier one.
pub open spec fn handles_message(msgtype: Option<Seq<char>>, rel_type: Option<Seq<char>>) -> bool {
    msgtype == Some("m.text"@) && rel_type != Some("m.replace"@)
}

/// Reads the content of a room message event: `msgtype`, `body`, `format`
/// and `formatted_body` are its fields where present, `has_relation`
/// whether it has an `m.relates_to`, and `rel_type` that relation's type
/// where it has one. Gives the text message the listener handles, or none
/// for another kind of message, a text without a body, or an edit.
pub fn read_text_message(
    msgtype: Option<&str>,
    body: Option<&str>,
    format: Option<&str>,
    formatted_body: Option<&str>,
    has_relation: bool,
    rel_type: Option<&str>,
) -> (r: Option<TextMessage>)
    ensures
        r is Some <==> (handles_message(
            match msgtype {
                Some(m) => Some(m@),
                None => None,
            },
            match rel_type {
                Some(t) => Some(t@),
                None => None,
            },
        ) && body is Some),
        r matches Some(m) ==> {
            &&& m.body@ == body->0@
            &&& m.replies_to_other == has_relation
            &&& (match format {
                None => m.format is None,
                Some(f) => m.format matches Some(mf) && (if f@ == "org.matrix.custom.html"@ {
                    mf == MessageFormat::Html
                } else {
                    mf matches MessageFormat::Other(n) && n@ == f@
                }),
            })
            &&& (match formatted_body {
                None => m.formatted_body is None,
                Some(f) => m.formatted_body matches Some(x) && x@ == f@,
            })
        },
{
    let is_text = match msgtype {
        Some(t) => str_eq(t, "m.text"),
        None => false,
    };
    let is_edit = match rel_type {
        Some(t) => str_eq(t, "m.replace"),
        None => false,
    };
    if !is_text || is_edit {
        return None;
    }
    let body = match body {
        Some(b) => b.to_string(),
        None => return None,
    };
    let format = match format {
        Some(f) => Some(message_format(f)),
        None => None,
    };
    let formatted_body = match formatted_body {
        Some(f) => Some(f.to_string()),
        None => None,
    };
    Some(TextMessage { body, format, formatted_body, replies_to_other: has_relation })
}

/// The content of a reply to a room.
#[derive(Debug)]
pub enum ResponseContent {
    /// A plain text notice.
    NoticePlain(String),
    /// A plain text message.
    TextPlain(String),
    /// A message with a plain text and an HTML body.
    TextHtml(String, String),
    /// A notice with a plain text and an HTML body.
    NoticeHtml(String, String),
}

/// Whether an invite is accepted.
#[derive(Clone, Copy, Debug, PartialEq, Eq)]
pub enum MatrixInviteType {
    Accept,
    Reject,
}

/// An answer to an invite.
#[derive(Debug)]
pub struct MatrixInviteMessage {
    pub kind: MatrixInviteType,
    pub sender: UserId,
}

/// A ban of a user in a set of rooms.
#[derive(Debug)]
pub struct MatrixBanMessage {
    pub user: UserId,
    pub reason: Option<String>,
    pub rooms: Vec<String>,
}

/// What the responder is asked to do.
#[derive(Debug)]
pub enum MatrixMessageType {
    Invite(MatrixInviteMessage),
    Response(ResponseContent),
    Ban(MatrixBanMessage),
}

/// A request to the responder, for a room where one applies.
#[derive(Debug)]
pub struct MatrixMessage {
    pub room_id: Option<String>,
    pub message: MatrixMessageType,
}

/// The configuration of the webhook listener.
#[derive(Debug)]
pub struct WebhookListenerConfig {
    pub token: String,
}

/// The token a webhook request carries.
#[derive(Debug)]
pub struct MessageToken(pub String);

/// The access token of the bot account, as stored.
#[derive(Clone, Debug, PartialEq, Eq)]
pub struct AccessToken {
    pub id: u8,
    pub access_token: String,
}

impl AccessToken {
    /// The token (its display text).
    pub fn to_string(&self) -> (r: String)
        ensures
            r@ == self.access_token@,
    {
        self.access_token.clone()
    }
}

/// The last sync token, as stored.
#[derive(Clone, Debug, PartialEq, Eq)]
pub struct LastSync {
    pub id: u8,
    pub last_sync: String,
}

/// When the bot last corrected a spelling in a room, in seconds since the
/// Unix epoch, as stored.
#[derive(Clone, Debug, PartialEq, Eq)]
pub struct CorrectionTimeCooldown {
    pub room_id: String,
    pub last_correction_time: u64,
}

} // verus!
