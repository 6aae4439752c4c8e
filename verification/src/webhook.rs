//! The webhook: a message posted with the right token is relayed to a
//! room, with an optional ping of users.
use vstd::prelude::*;
use crate::config::inserted_from;
use crate::ids::UserId;
use crate::messages::{
    MatrixMessage, MatrixMessageType, MessageToken, ResponseContent, WebhookListenerConfig,
};
use crate::response::{ping_html, ping_plain, MatrixFormattedTextResponse, UserSet};
use crate::text::{joined, str_eq, trimmed};

verus! {

/// A message posted to the webhook.
#[derive(Debug)]
pub struct Message {
    /// The room to post in.
    pub room_id: String,
    /// The text of the notice.
    pub message: String,
    /// Users to ping after the notice.
    pub ping: Option<Vec<UserId>>,
}

/// The user IDs as characters.
pub open spec fn ids_view(v: Seq<UserId>) -> Seq<Seq<char>> {
    v.map_values(|u: UserId| u@)
}

/// What the webhook answers a post with.
#[derive(Debug)]
pub enum WebhookOutcome {
    /// The token is not the configured one: nothing is relayed.
    Unauthorized,
    /// The messages to relay, in order.
    Relay(Vec<MatrixMessage>),
}

/// Whether `m` is the notice `text` for `room`.
pub open spec fn is_notice(m: MatrixMessage, room: Seq<char>, text: Seq<char>) -> bool {
    &&& m.room_id matches Some(r) && r@ == room
    &&& m.message matches MatrixMessageType::Response(ResponseContent::NoticePlain(t)) && t@ == text
}

/// Whether `m` pings `users` in `room`.
pub open spec fn is_ping(m: MatrixMessage, room: Seq<char>, users: Seq<Seq<char>>) -> bool {
    &&& m.room_id matches Some(r) && r@ == room
    &&& m.message matches MatrixMessageType::Response(ResponseContent::TextHtml(plain, html))
        && plain@ == trimmed(joined(users, |u: Seq<char>| ping_plain(u)))
        && html@ == joined(users, |u: Seq<char>| ping_html(u))
}

/// Relays a posted message whose token is the configured one: a notice
/// with its text, then, if it asks for pings, a text that pings each of
/// its users once.
pub fn message(req_token: &MessageToken, config: &WebhookListenerConfig, post: &Message) -> (r: WebhookOutcome)
    ensures
        req_token.0@ != config.token@ ==> r is Unauthorized,
        req_token.0@ == config.token@ ==> (r matches WebhookOutcome::Relay(v) && match post.ping {
            None => v@.len() == 1 && is_notice(v@[0], post.room_id@, post.message@),
            Some(us) => v@.len() == 2 && is_notice(v@[0], post.room_id@, post.message@)
                && is_ping(v@[1], post.room_id@, inserted_from(seq![], ids_view(us@), 0)),
        }),
{
    if !str_eq(req_token.0.as_str(), config.token.as_str()) {
        return WebhookOutcome::Unauthorized;
    }
    let mut out: Vec<MatrixMessage> = Vec::new();
    out.push(MatrixMessage {
        room_id: Some(post.room_id.clone()),
        message: MatrixMessageType::Response(ResponseContent::NoticePlain(post.message.clone())),
    });
    if let Some(pings) = &post.ping {
        let mut users = UserSet::new();
        let mut i: usize = 0;
        while i < pings.len()
            invariant
                i <= pings@.len(),
                inserted_from(seq![], ids_view(pings@), 0) == inserted_from(users@, ids_view(pings@), i as int),
            decreases pings@.len() - i,
        {
            users.insert(pings[i].duplicate());
            i = i + 1;
        }
        let mut response = MatrixFormattedTextResponse::new();
        response.set_users(users);
        let plain = response.to_string();
        match response.format_text() {
            Some(html) => {
                out.push(MatrixMessage {
                    room_id: Some(post.room_id.clone()),
                    message: MatrixMessageType::Response(ResponseContent::TextHtml(plain, html)),
                });
            },
            None => {
                assert(false);
            },
        }
    }
    WebhookOutcome::Relay(out)
}

} // verus!
