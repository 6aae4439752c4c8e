use matrix_bot::commandless::parse_number;
use matrix_bot::config::{load_group_ping_settings, RawConfig, RawGeneral, RawMatrixAuthentication};
use matrix_bot::help::HelpType;
use matrix_bot::ids::UserId;
use matrix_bot::quantity::{unit_conversion_captures, unit_conversion_is_match};
use matrix_bot::response::UserSet;
use matrix_bot::spelling::{spellcheck, InsensitiveSpelling, SpellCheckKind};
use matrix_bot::storage::decimal_string;
use matrix_bot::text::{distinct_strings, split_on};

#[test]
fn split_fields_join_back() {
    for t in ["!ban @a:b spam", "", " ", "a  b ", "!help"] {
        assert_eq!(split_on(t, ' ').join(" "), t);
    }
}

#[test]
fn decimal_ids_read_back() {
    for n in [0u64, 7, 10, 12345, 9223372036854775807] {
        assert_eq!(parse_number(&decimal_string(n)), Some(n as i64));
    }
    assert_ne!(decimal_string(10), decimal_string(1));
}

#[test]
fn match_iff_captures() {
    for t in ["5km", "no quantity", "x 5 kg y", "5"] {
        assert_eq!(unit_conversion_is_match(t), !unit_conversion_captures(t).is_empty());
    }
}

#[test]
fn help_types_ignore_case() {
    for w in ["Ping", "LINK", "Unit-Conversion", "whatever"] {
        assert_eq!(HelpType::from(w), HelpType::from(&w.to_ascii_lowercase()));
    }
}

#[test]
fn set_insert_is_idempotent() {
    let mut set = UserSet::new();
    set.insert(UserId::parse("@a:x.org").unwrap());
    set.insert(UserId::parse("@a:x.org").unwrap());
    set.insert(UserId::parse("@b:x.org").unwrap());
    assert_eq!(set.len(), 2);
    assert!(set.contains(&UserId::parse("@a:x.org").unwrap()));
    set.remove(&UserId::parse("@a:x.org").unwrap());
    assert!(!set.contains(&UserId::parse("@a:x.org").unwrap()));
    assert_eq!(set.len(), 1);
}

#[test]
fn pingers_are_the_user_members() {
    let mut general = RawGeneral {
        authorized_users: None,
        help_rooms: None,
        ban_rooms: None,
        enable_unit_conversions: false,
        enable_corrections: false,
        unit_conversion_exclusion: None,
        insensitive_corrections: None,
        sensitive_corrections: None,
        correction_text: None,
        correction_exclusion: None,
        link_matchers: None,
        webhook_token: String::new(),
    };
    general.authorized_users = Some(vec![]);
    let raw = RawConfig {
        general,
        matrix_authentication: RawMatrixAuthentication {
            url: "https://x.org".to_string(),
            username: "@bot:x.org".to_string(),
            password: String::new(),
        },
        github_authentication: None,
        searchable_repos: None,
        linkable_urls: None,
        text_expansion: None,
        group_pings: Some(vec![
            ("one".to_string(), vec!["@a:x.org".to_string(), "%two".to_string()]),
            ("two".to_string(), vec!["@b:x.org".to_string()]),
        ]),
    };
    let (_, users) = load_group_ping_settings(&raw).unwrap();
    let names: Vec<String> = (0..users.len()).map(|i| users.get(i).as_str().to_string()).collect();
    assert_eq!(names, vec!["@a:x.org".to_string(), "@b:x.org".to_string()]);
}

#[test]
fn no_correction_without_misspelling() {
    let sender = UserId::parse("@bob:x.org").unwrap();
    let kinds = vec![SpellCheckKind::SpellCheckInsensitive(InsensitiveSpelling::from("Jellyfish"))];
    assert_eq!(spellcheck("nothing wrong here", &sender, &kinds, "{} {}"), None);
}

#[test]
fn distinct_keeps_first_occurrences() {
    let v = vec!["b".to_string(), "a".to_string(), "b".to_string(), "a".to_string(), "c".to_string()];
    assert_eq!(distinct_strings(v), vec!["b".to_string(), "a".to_string(), "c".to_string()]);
    assert_eq!(distinct_strings(vec![]), Vec::<String>::new());
}
