use matrix_bot::ids::UserId;
use matrix_bot::messages::{MatrixMessageType, MessageToken, ResponseContent, WebhookListenerConfig};
use matrix_bot::storage::{decimal_string, Storage};
use matrix_bot::webhook::{message, Message, WebhookOutcome};

#[test]
fn txn_ids_count_up() {
    let mut st = Storage::new();
    assert_eq!(st.next_txn_id(), "1");
    assert_eq!(st.next_txn_id(), "2");
    st.last_txn_id = 99;
    assert_eq!(st.next_txn_id(), "100");
    assert_eq!(decimal_string(0), "0");
    assert_eq!(decimal_string(u64::MAX), "18446744073709551615");
}

#[test]
fn storage_cooldown_waits_five_minutes() {
    let mut st = Storage::new();
    assert!(st.correction_time_cooldown("!r:x.org", 5));
    st.last_correction_time.push(("!r:x.org".to_string(), 1000));
    assert!(!st.correction_time_cooldown("!r:x.org", 1299));
    assert!(st.correction_time_cooldown("!r:x.org", 1300));
    assert!(!st.correction_time_cooldown("!r:x.org", 999));
    assert!(st.correction_time_cooldown("!other:x.org", 1000));
}

#[test]
fn webhook_checks_token() {
    let cfg = WebhookListenerConfig { token: "secret".to_string() };
    let post = Message { room_id: "!r:x.org".to_string(), message: "hi".to_string(), ping: None };
    assert!(matches!(message(&MessageToken("wrong".to_string()), &cfg, &post), WebhookOutcome::Unauthorized));
    match message(&MessageToken("secret".to_string()), &cfg, &post) {
        WebhookOutcome::Relay(v) => {
            assert_eq!(v.len(), 1);
            assert_eq!(v[0].room_id, Some("!r:x.org".to_string()));
            assert!(matches!(&v[0].message, MatrixMessageType::Response(ResponseContent::NoticePlain(t)) if t == "hi"));
        },
        _ => panic!("expected a relay"),
    }
}

#[test]
fn webhook_pings_each_user_once() {
    let cfg = WebhookListenerConfig { token: "secret".to_string() };
    let a = UserId::parse("@a:x.org").unwrap();
    let b = UserId::parse("@b:x.org").unwrap();
    let a2 = UserId::parse("@a:x.org").unwrap();
    let post = Message { room_id: "!r:x.org".to_string(), message: "hi".to_string(), ping: Some(vec![a, b, a2]) };
    match message(&MessageToken("secret".to_string()), &cfg, &post) {
        WebhookOutcome::Relay(v) => {
            assert_eq!(v.len(), 2);
            match &v[1].message {
                MatrixMessageType::Response(ResponseContent::TextHtml(plain, html)) => {
                    assert_eq!(plain, "a b");
                    assert_eq!(html, "<a href=\"https://matrix.to/#/@a:x.org\">a</a>\n<a href=\"https://matrix.to/#/@b:x.org\">b</a>\n");
                },
                _ => panic!("expected a ping"),
            }
        },
        _ => panic!("expected a relay"),
    }
}

#[test]
fn recording_a_correction_starts_the_cooldown() {
    let mut st = Storage::new();
    st.set_last_correction_time("!r:x.org", 1000);
    st.set_last_correction_time("!s:x.org", 50);
    assert!(!st.correction_time_cooldown("!r:x.org", 1100));
    st.set_last_correction_time("!r:x.org", 10);
    assert!(st.correction_time_cooldown("!r:x.org", 1100));
    assert!(st.correction_time_cooldown("!s:x.org", 350));
    assert_eq!(st.last_correction_time.len(), 2);
    st.set_last_sync(Some("s1".to_string()));
    assert_eq!(st.get_last_sync(), Some("s1".to_string()));
}

#[test]
fn saved_session_counts_and_cools_down() {
    let mut s = matrix_bot::storage::SavedSession::new("bot", "pw");
    assert_eq!(s.get_username(), "bot");
    assert_eq!(s.get_password(), "pw");
    assert!(s.correction_time_cooldown(0));
    s.set_last_correction_time(100);
    assert!(!s.correction_time_cooldown(399));
    assert!(s.correction_time_cooldown(400));
    assert_eq!(s.next_txn_id(), "1");
    s.set_last_sync(Some("t".to_string()));
    assert_eq!(s.get_last_sync(), Some("t".to_string()));
}
