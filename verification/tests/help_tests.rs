use matrix_bot::config::{Config, MatrixListenerConfig, RawConfig, RawGeneral, RawMatrixAuthentication};
use matrix_bot::help::{
    action_command_help_message, action_commandless_help_message, generic_help_message,
    group_ping_help_message, help_reply, help_reply_checked, link_help_message,
    text_expansion_help_message, to_ascii_lowercase, unit_conversion_help_message, HelpReply,
    HelpType,
};

fn s(x: &str) -> String {
    x.to_string()
}

fn listener(help_rooms: Option<Vec<String>>) -> MatrixListenerConfig {
    let r = RawConfig {
        general: RawGeneral {
            authorized_users: Some(vec![s("@admin:example.org")]),
            help_rooms,
            ban_rooms: None,
            enable_unit_conversions: true,
            enable_corrections: false,
            unit_conversion_exclusion: Some(vec![s("in"), s("ft"), s("c")]),
            insensitive_corrections: None,
            sensitive_corrections: None,
            correction_text: None,
            correction_exclusion: None,
            link_matchers: Some(vec![s("link"), s("docs")]),
            webhook_token: s("t"),
        },
        matrix_authentication: RawMatrixAuthentication {
            url: s("https://matrix.example.org"),
            username: s("@bot:example.org"),
            password: s("p"),
        },
        github_authentication: None,
        searchable_repos: None,
        linkable_urls: Some(vec![(s("hwa"), s("https://a.org")), (s("faq"), s("https://b.org"))]),
        text_expansion: Some(vec![(s("kodi"), s("K")), (s("emby"), s("E"))]),
        group_pings: Some(vec![(s("server"), vec![s("@a:x.org")]), (s("admins"), vec![s("@b:x.org")])]),
    };
    MatrixListenerConfig::new(&Config::load_config(&r, "bot", "1").unwrap())
}

#[test]
fn help_type_ignores_ascii_case() {
    assert_eq!(HelpType::from("COMMAND"), HelpType::Command);
    assert_eq!(HelpType::from("Ping"), HelpType::GroupPing);
    assert_eq!(HelpType::from("github-search"), HelpType::GithubSearch);
    assert_eq!(HelpType::from("Unit-Conversion"), HelpType::UnitConversion);
    assert_eq!(HelpType::from("text-expansion"), HelpType::TextExpansion);
    assert_eq!(HelpType::from("LINK"), HelpType::Link);
    assert_eq!(HelpType::from("commandless"), HelpType::Commandless);
    assert_eq!(HelpType::from("pings"), HelpType::UnknownCommand);
    assert_eq!(to_ascii_lowercase("ÄbC-D"), "Äbc-d");
}

#[test]
fn generic_help_names_version_and_repository() {
    let m = generic_help_message("1.0", "https://example.org/repo");
    assert!(m.starts_with("Matrix Bot v1.0\nRepository: https://example.org/repo\n\nThis bot has two types"));
    assert!(m.ends_with("\tunit-conversion\tConvert common conversational units"));
}

#[test]
fn action_pages_are_fixed() {
    assert!(action_command_help_message().starts_with("Command Action\n\n"));
    assert!(action_command_help_message().ends_with("EXAMPLES:\n\t!help\n\t!convert 22mi"));
    assert!(action_commandless_help_message().starts_with("Commandless Action\n\n"));
    assert!(action_commandless_help_message().ends_with("not sure what you are complaining about\n"));
}

#[test]
fn listings_are_sorted_and_joined() {
    let c = listener(None);
    assert!(group_ping_help_message(&c).ends_with("AVAILABLE GROUPS:\nadmins | server"));
    assert!(text_expansion_help_message(&c).ends_with("AVAILABLE KEYWORDS:\nemby | kodi\n    "));
    let l = link_help_message(&c);
    assert!(l.ends_with("AVAILABLE KEYWORDS:\ndocs | link\n\nAVAILABLE LINKS:\nfaq | hwa\n    "));
    assert!(unit_conversion_help_message(&c).ends_with("SPACE EXCLUDED UNITS:\n c |  ft |  in\n    "));
}

#[test]
fn help_reply_gives_pages() {
    let c = listener(None);
    match help_reply("!help", "!r:x.org", &c, "1", "repo") {
        HelpReply::Notice(t) => assert!(t.starts_with("Matrix Bot v1\nRepository: repo")),
        _ => panic!("expected the overview"),
    }
    match help_reply("!help command", "!r:x.org", &c, "1", "repo") {
        HelpReply::Notice(t) => assert_eq!(t, action_command_help_message()),
        _ => panic!("expected the command page"),
    }
}

#[test]
fn help_reply_reports_unknown_action() {
    let c = listener(None);
    match help_reply("!help dance now", "!r:x.org", &c, "1", "repo") {
        HelpReply::UnknownAction { plain_text, formatted_text } => {
            assert_eq!(plain_text, "Unknown action dance");
            assert_eq!(formatted_text, "<font color=\"#ff4b55\">Unknown action dance</font>\n");
        },
        _ => panic!("expected an unknown action"),
    }
}

#[test]
fn help_reply_respects_help_rooms() {
    let c = listener(Some(vec![s("!ok:x.org")]));
    assert!(matches!(help_reply("!help", "!other:x.org", &c, "1", "r"), HelpReply::Ignored));
    assert!(matches!(help_reply("!help", "!ok:x.org", &c, "1", "r"), HelpReply::Notice(_)));
}

#[test]
fn help_reply_checked_refuses_empty_listing() {
    let c = listener(None);
    assert!(help_reply_checked("!help github-search", "!r:x.org", &c, "1", "r").is_none());
    assert!(help_reply_checked("!help ping", "!r:x.org", &c, "1", "r").is_some());
}
