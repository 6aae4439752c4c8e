use matrix_bot::config::{Config, MatrixListenerConfig, RawConfig, RawGeneral, RawMatrixAuthentication};
use matrix_bot::ids::UserId;
use matrix_bot::listener::{
    ban_request, commandless_handler, conversion_notice, convert_command_requests,
    correction_time_cooldown, handle_invite_event, handle_text_event, route_text, BanError,
    CommandlessError, TextEventOutcome, TextRoute,
};
use matrix_bot::help::HelpReply;
use matrix_bot::messages::{message_format, read_text_message, MatrixInviteType, MessageFormat};
use matrix_bot::response::MatrixNoticeResponse;
use matrix_bot::response::ConvertedUnit;
use matrix_bot::spelling::{InsensitiveSpelling, SpellCheckKind};

fn s(x: &str) -> String {
    x.to_string()
}

fn listener(ban_rooms: Option<Vec<String>>, corrections: bool) -> MatrixListenerConfig {
    let r = RawConfig {
        general: RawGeneral {
            authorized_users: Some(vec![s("@admin:example.org")]),
            help_rooms: None,
            ban_rooms,
            enable_unit_conversions: true,
            enable_corrections: corrections,
            unit_conversion_exclusion: None,
            insensitive_corrections: Some(vec![s("Jellyfish")]),
            sensitive_corrections: Some(vec![]),
            correction_text: Some(s("{}: it is not {}")),
            correction_exclusion: Some(vec![s("!quiet:x.org")]),
            link_matchers: None,
            webhook_token: s("t"),
        },
        matrix_authentication: RawMatrixAuthentication {
            url: s("https://matrix.example.org"),
            username: s("@bot:example.org"),
            password: s("p"),
        },
        github_authentication: None,
        searchable_repos: None,
        linkable_urls: None,
        text_expansion: Some(vec![(s("kodi"), s("Kodi text"))]),
        group_pings: Some(vec![(s("server"), vec![s("@a:x.org"), s("@b:x.org")])]),
    };
    MatrixListenerConfig::new(&Config::load_config(&r, "bot", "1").unwrap())
}

#[test]
fn routes_follow_the_command() {
    assert_eq!(route_text("hello"), TextRoute::Commandless);
    assert_eq!(route_text("!CONVERT 5km"), TextRoute::Convert);
    assert_eq!(route_text("!convert"), TextRoute::Ignore);
    assert_eq!(route_text("!Help me"), TextRoute::Help);
    assert_eq!(route_text("!banana"), TextRoute::Ban);
    assert_eq!(route_text("!roll"), TextRoute::Ignore);
    assert_eq!(route_text(""), TextRoute::Commandless);
}

#[test]
fn text_events_follow_their_route() {
    let c = listener(Some(vec![s("!r:x.org")]), true);
    let user = UserId::parse("@u:example.org").unwrap();
    let handle = |body: &str| {
        handle_text_event(body, None, None, false, &user, "!room:x.org", &c, None, None, true, "1", "repo")
    };
    assert!(matches!(handle("!convert"), TextEventOutcome::Ignore));
    assert!(matches!(handle("!roll 6"), TextEventOutcome::Ignore));
    for body in ["convert!", " !convert", "hoogaboogawooga"] {
        match handle(body) {
            TextEventOutcome::Commandless(Ok(o)) => {
                assert_eq!(o.notice, None);
                assert_eq!(o.text, None);
                assert_eq!(o.correction, None);
            }
            _ => panic!("expected the commandless answer for {:?}", body),
        }
    }
    match handle("I like jellyfish") {
        TextEventOutcome::Commandless(Ok(o)) => {
            assert_eq!(o.correction, Some(s("u: it is not Jellyfish")));
        }
        _ => panic!("expected a correction"),
    }
    match handle("!convert 5km") {
        TextEventOutcome::Convert(r) => assert_eq!(r, Some(vec![(s("5"), s("km"))])),
        _ => panic!("expected a conversion"),
    }
    assert!(matches!(handle("!help"), TextEventOutcome::Help(Some(HelpReply::Notice(_)))));
    assert!(matches!(handle("!ban @x:y.org"), TextEventOutcome::Ban(Ok(None))));
}

#[test]
fn cooldown_allows_after_five_minutes() {
    assert!(correction_time_cooldown(None, 10));
    assert!(!correction_time_cooldown(Some(100), 399));
    assert!(correction_time_cooldown(Some(100), 400));
    assert!(!correction_time_cooldown(Some(100), 50));
}

#[test]
fn invites_from_admins_are_accepted() {
    let c = listener(None, false);
    let admin = UserId::parse("@admin:example.org").unwrap();
    let other = UserId::parse("@x:example.org").unwrap();
    assert_eq!(handle_invite_event(&admin, &c).kind, MatrixInviteType::Accept);
    let m = handle_invite_event(&other, &c);
    assert_eq!(m.kind, MatrixInviteType::Reject);
    assert_eq!(m.sender.as_str(), "@x:example.org");
}

#[test]
fn convert_command_reads_every_quantity() {
    assert_eq!(
        convert_command_requests("!convert 5KM 3 mi", false, false),
        Some(vec![(s("5"), s("km")), (s("3"), s("mi"))])
    );
    assert_eq!(convert_command_requests("!convert 5km", true, false), None);
    assert_eq!(convert_command_requests("!convert 5km", false, true), None);
}

#[test]
fn conversion_notice_lists_lines() {
    let v = vec![
        ConvertedUnit { from: s("5.00km"), to: s("3.11mi") },
        ConvertedUnit { from: s("1.00in"), to: s("2.54cm") },
    ];
    assert_eq!(conversion_notice(v), "5.00km => 3.11mi\n1.00in => 2.54cm");
}

#[test]
fn ban_needs_rooms_and_an_admin() {
    let admin = UserId::parse("@admin:example.org").unwrap();
    let c = listener(None, false);
    assert!(matches!(ban_request("!ban @x:y.org", None, &admin, &c), Ok(None)));
    let c = listener(Some(vec![s("!r:x.org")]), false);
    let other = UserId::parse("@x:example.org").unwrap();
    assert!(matches!(ban_request("!ban @x:y.org", None, &other, &c), Ok(None)));
}

#[test]
fn ban_reads_user_and_reason() {
    let admin = UserId::parse("@admin:example.org").unwrap();
    let c = listener(Some(vec![s("!r:x.org")]), false);
    let m = ban_request("!ban @x:y.org spam and abuse", None, &admin, &c).unwrap().unwrap();
    assert_eq!(m.user.as_str(), "@x:y.org");
    assert_eq!(m.reason, Some(s("spam and abuse ")));
    assert_eq!(m.rooms, vec![s("!r:x.org")]);
    let m = ban_request("!ban @x:y.org", None, &admin, &c).unwrap().unwrap();
    assert_eq!(m.reason, None);
}

#[test]
fn ban_reads_the_user_from_a_mention_link() {
    let admin = UserId::parse("@admin:example.org").unwrap();
    let c = listener(Some(vec![s("!r:x.org")]), false);
    let formatted = "!ban <a href=\"https://matrix.to/#/@danoneil:matrix.org\">danoneil</a> Spam";
    let m = ban_request("!ban danoneil Spam", Some(formatted), &admin, &c).unwrap().unwrap();
    assert_eq!(m.user.as_str(), "@danoneil:matrix.org");
    assert_eq!(m.rooms, vec![s("!r:x.org")]);
}

#[test]
fn ban_falls_back_to_formatted_body() {
    let admin = UserId::parse("@admin:example.org").unwrap();
    let c = listener(Some(vec![s("!r:x.org")]), false);
    let m = ban_request("!ban Xavier", Some("@x:y.org"), &admin, &c).unwrap().unwrap();
    assert_eq!(m.user.as_str(), "@x:y.org");
    assert!(matches!(ban_request("!ban Xavier", None, &admin, &c), Ok(None)));
    assert!(matches!(ban_request("!ban Xavier", Some("no user"), &admin, &c), Err(BanError::NoUserInFormattedBody)));
    assert!(matches!(ban_request("!ban", None, &admin, &c), Err(BanError::MissingUser)));
    assert_eq!(BanError::MissingUser.message(), "somehow no body or formatted body was presented?");
}

#[test]
fn commandless_ignores_the_bot_itself() {
    let c = listener(None, true);
    let bot = UserId::parse("@bot:example.org").unwrap();
    let o = commandless_handler("$kodi", None, None, false, &bot, "!r:x.org", &c, None, None, true).unwrap();
    assert!(o.notice.is_none() && o.text.is_none() && o.correction.is_none());
}

#[test]
fn commandless_rejects_other_formats() {
    let c = listener(None, true);
    let a = UserId::parse("@a:x.org").unwrap();
    let f = MessageFormat::Other(s("org.example.other"));
    assert!(matches!(
        commandless_handler("$kodi", Some(&f), None, false, &a, "!r:x.org", &c, None, None, true),
        Err(CommandlessError::Format(_))
    ));
}

#[test]
fn commandless_builds_notice_and_ping() {
    let c = listener(None, true);
    let a = UserId::parse("@a:x.org").unwrap();
    let conv = vec![ConvertedUnit { from: s("5.00km"), to: s("3.11mi") }];
    let o = commandless_handler("5km $kodi %server", None, None, false, &a, "!r:x.org", &c, Some(conv), None, true).unwrap();
    assert_eq!(o.notice, Some(s("5.00km => 3.11mi\nKodi text")));
    let (plain, html) = o.text.unwrap();
    assert_eq!(plain, "b");
    assert_eq!(html, "<a href=\"https://matrix.to/#/@b:x.org\">b</a>\n");
    assert!(o.correction.is_none());
}

#[test]
fn commandless_corrects_only_when_allowed() {
    let c = listener(None, true);
    let a = UserId::parse("@a:x.org").unwrap();
    let o = commandless_handler("i like jellyfish", None, None, false, &a, "!r:x.org", &c, None, None, true).unwrap();
    assert_eq!(o.correction, Some(s("a: it is not Jellyfish")));
    let o = commandless_handler("i like jellyfish", None, None, false, &a, "!quiet:x.org", &c, None, None, true).unwrap();
    assert!(o.correction.is_none());
    let o = commandless_handler("i like jellyfish", None, None, true, &a, "!r:x.org", &c, None, None, true).unwrap();
    assert!(o.correction.is_none());
    let o = commandless_handler("i like jellyfish", None, None, false, &a, "!r:x.org", &c, None, None, false).unwrap();
    assert!(o.correction.is_none());
    let _ = SpellCheckKind::SpellCheckInsensitive(InsensitiveSpelling::from("x"));
}

#[test]
fn ban_rejects_invalid_mention() {
    let admin = UserId::parse("@admin:example.org").unwrap();
    let c = listener(Some(vec![s("!r:x.org")]), false);
    assert!(matches!(
        ban_request("!ban Xavier", Some("@bad:x y"), &admin, &c),
        Err(BanError::InvalidUser)
    ));
    assert_eq!(BanError::InvalidUser.message(), "User was invalid format, unable to continue ban handler");
}

#[test]
fn text_messages_are_read_unless_edits() {
    let m = read_text_message(Some("m.text"), Some("hi"), None, None, false, None).unwrap();
    assert_eq!(m.body, "hi");
    assert_eq!(m.format, None);
    assert_eq!(m.formatted_body, None);
    assert!(!m.replies_to_other);
    let m = read_text_message(
        Some("m.text"),
        Some("hi"),
        Some("org.matrix.custom.html"),
        Some("<b>hi</b>"),
        true,
        None,
    )
    .unwrap();
    assert_eq!(m.format, Some(MessageFormat::Html));
    assert_eq!(m.formatted_body, Some(s("<b>hi</b>")));
    assert!(m.replies_to_other);
    assert!(read_text_message(Some("m.text"), Some("hi"), None, None, true, Some("m.replace")).is_none());
    assert!(read_text_message(Some("m.notice"), Some("hi"), None, None, false, None).is_none());
    assert!(read_text_message(None, Some("hi"), None, None, false, None).is_none());
    assert!(read_text_message(Some("m.text"), None, None, None, false, None).is_none());
    assert_eq!(message_format("markdown"), MessageFormat::Other(s("markdown")));
}

#[test]
fn notice_text_does_not_depend_on_setter_order() {
    let conv = || vec![ConvertedUnit { from: s("5.00km"), to: s("3.11mi") }];
    let mut a = MatrixNoticeResponse::new();
    a.set_expanded_text(vec![s("expanded")]);
    a.set_links(vec![s("https://l.org")]);
    a.set_gh_results(vec![s("https://gh/1")]);
    a.set_unit_conversions(conv());
    let mut b = MatrixNoticeResponse::new();
    b.set_gh_results(vec![s("old")]);
    b.set_unit_conversions(conv());
    b.set_gh_results(vec![s("https://gh/1")]);
    b.set_links(vec![s("https://l.org")]);
    b.set_expanded_text(vec![s("expanded")]);
    assert_eq!(a.to_string(), "5.00km => 3.11mi\nhttps://gh/1\nhttps://l.org\nexpanded");
    assert_eq!(a.to_string(), b.to_string());
}

#[test]
fn bare_convert_is_ignored() {
    assert_eq!(route_text("!convert"), TextRoute::Ignore);
    assert_eq!(route_text("!CONVERT"), TextRoute::Ignore);
    assert_eq!(route_text("!Convert 5km"), TextRoute::Convert);
    assert_eq!(route_text("!CONVERTİ 5km"), TextRoute::Ignore);
}
