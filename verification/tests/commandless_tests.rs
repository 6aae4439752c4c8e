use matrix_bot::commandless::{
    github_result_links, github_search_requests, group_ping, link_url, parse_number,
    text_expansion, unit_conversion_requests, unit_target, LinkError,
};
use matrix_bot::cleaning::clean_text;
use matrix_bot::config::{Config, MatrixListenerConfig, RawConfig, RawGeneral, RawMatrixAuthentication};
use matrix_bot::ids::UserId;
use matrix_bot::response::{MatrixFormattedTextResponse, MatrixNoticeResponse};

fn s(x: &str) -> String {
    x.to_string()
}

fn listener() -> MatrixListenerConfig {
    let r = RawConfig {
        general: RawGeneral {
            authorized_users: Some(vec![s("@admin:example.org")]),
            help_rooms: None,
            ban_rooms: None,
            enable_unit_conversions: true,
            enable_corrections: false,
            unit_conversion_exclusion: None,
            insensitive_corrections: None,
            sensitive_corrections: None,
            correction_text: None,
            correction_exclusion: None,
            link_matchers: Some(vec![s("docs")]),
            webhook_token: s("t"),
        },
        matrix_authentication: RawMatrixAuthentication {
            url: s("https://matrix.example.org"),
            username: s("@bot:example.org"),
            password: s("p"),
        },
        github_authentication: None,
        searchable_repos: None,
        linkable_urls: Some(vec![(s("hwa"), s("https://jellyfin.org/docs/hwa"))]),
        text_expansion: Some(vec![(s("kodi"), s("Kodi text"))]),
        group_pings: Some(vec![
            (s("server"), vec![s("@a:x.org"), s("@b:x.org")]),
            (s("solo"), vec![s("@a:x.org")]),
        ]),
    };
    MatrixListenerConfig::new(&Config::load_config(&r, "bot", "1").unwrap())
}

#[test]
fn unit_requests_lower_case_and_exclude() {
    let none: Vec<String> = vec![];
    assert_eq!(unit_conversion_requests("It is 20C and 5 KM", None, &none), vec![(s("20"), s("c")), (s("5"), s("km"))]);
    let excl = vec![s(" km")];
    assert_eq!(unit_conversion_requests("It is 20C and 5 KM", None, &excl), vec![(s("20"), s("c"))]);
    assert_eq!(unit_conversion_requests("5km", Some("<code>5km</code>"), &none), vec![]);
    assert_eq!(unit_conversion_requests("x", Some("<p>5km</p>"), &none), vec![(s("5"), s("km"))]);
}

#[test]
fn unit_exclusion_compares_the_unit() {
    let metres = vec![s(" m")];
    assert_eq!(unit_conversion_requests("it is 5 mph", None, &metres), vec![(s("5"), s("mph"))]);
    assert_eq!(unit_conversion_requests("it is 5 m", None, &metres), vec![]);
    let inches = vec![s(" in")];
    assert_eq!(unit_conversion_requests("i am 5 in", None, &inches), vec![]);
    assert_eq!(unit_conversion_requests("i am 5in", None, &inches), vec![(s("5"), s("in"))]);
}

#[test]
fn unit_targets_follow_the_table() {
    assert_eq!(unit_target("cm"), Some(s("in")));
    assert_eq!(unit_target("miles"), Some(s("km")));
    assert_eq!(unit_target("°c"), Some(s("°f")));
    assert_eq!(unit_target("kph"), Some(s("mph")));
    assert_eq!(unit_target("mph"), Some(s("km/h")));
    assert_eq!(unit_target("parsec"), None);
}

#[test]
fn numbers_parse_within_i64() {
    assert_eq!(parse_number("1234"), Some(1234));
    assert_eq!(parse_number("9223372036854775807"), Some(i64::MAX));
    assert_eq!(parse_number("9223372036854775808"), None);
    assert_eq!(parse_number(""), None);
    assert_eq!(parse_number("12a"), None);
}

#[test]
fn github_requests_use_configured_repos() {
    let repos = vec![(s("jf"), s("jellyfin/jellyfin")), (s("web"), s("noslash"))];
    let r = github_search_requests("see JF#12 and web#3 and x#4", None, &repos);
    assert_eq!(r, vec![(s("jellyfin"), s("jellyfin"), 12)]);
    let r = github_search_requests("jf#99999999999999999999", None, &repos);
    assert!(r.is_empty());
}

#[test]
fn github_links_prefix_paths() {
    assert_eq!(
        github_result_links(&vec![s("/jellyfin/jellyfin/issues/1")]),
        vec![s("https://github.com/jellyfin/jellyfin/issues/1")]
    );
}

#[test]
fn link_url_puts_configured_links() {
    let c = listener();
    let mut n = MatrixNoticeResponse::new();
    assert!(link_url("read DOCS@hwa please", None, &c, &mut n).is_ok());
    assert_eq!(n.to_string(), "https://jellyfin.org/docs/hwa");
    let mut n = MatrixNoticeResponse::new();
    assert!(link_url("read other@hwa", None, &c, &mut n).is_ok());
    assert!(!n.is_some());
}

#[test]
fn link_error_names_url() {
    let e = LinkError::InvalidUrl(s("x"));
    assert_eq!(e.message(), "Unable to parse result x to Url");
}

#[test]
fn text_expansion_expands_keywords() {
    let c = listener();
    let mut n = MatrixNoticeResponse::new();
    text_expansion("ask $KODI", None, &c, &mut n);
    assert_eq!(n.to_string(), "Kodi text");
    let mut n = MatrixNoticeResponse::new();
    text_expansion("ask $nothing", None, &c, &mut n);
    assert!(!n.is_some());
}

#[test]
fn group_ping_removes_sender_from_larger_groups() {
    let c = listener();
    let a = UserId::parse("@a:x.org").unwrap();
    let mut t = MatrixFormattedTextResponse::new();
    group_ping("hey %server", None, &a, &c, &mut t);
    assert_eq!(t.to_string(), "b");
    let mut t = MatrixFormattedTextResponse::new();
    group_ping("hey %solo", None, &a, &c, &mut t);
    assert_eq!(t.to_string(), "a");
}

#[test]
fn group_ping_needs_an_allowed_sender() {
    let c = listener();
    let z = UserId::parse("@z:x.org").unwrap();
    let mut t = MatrixFormattedTextResponse::new();
    group_ping("hey %server", None, &z, &c, &mut t);
    assert!(!t.is_some());
}

fn listener_with_link(url: &str) -> MatrixListenerConfig {
    let r = RawConfig {
        general: RawGeneral {
            authorized_users: Some(vec![s("@admin:example.org")]),
            help_rooms: None,
            ban_rooms: None,
            enable_unit_conversions: true,
            enable_corrections: false,
            unit_conversion_exclusion: None,
            insensitive_corrections: None,
            sensitive_corrections: None,
            correction_text: None,
            correction_exclusion: None,
            link_matchers: Some(vec![s("docs")]),
            webhook_token: s("t"),
        },
        matrix_authentication: RawMatrixAuthentication {
            url: s("https://matrix.example.org"),
            username: s("@bot:example.org"),
            password: s("p"),
        },
        github_authentication: None,
        searchable_repos: None,
        linkable_urls: Some(vec![(s("hwa"), s(url))]),
        text_expansion: None,
        group_pings: None,
    };
    MatrixListenerConfig::new(&Config::load_config(&r, "bot", "1").unwrap())
}

#[test]
fn link_url_serializes_urls() {
    let c = listener_with_link("HTTPS://Jellyfin.ORG");
    let mut n = MatrixNoticeResponse::new();
    assert!(link_url("docs@hwa", None, &c, &mut n).is_ok());
    assert_eq!(n.to_string(), "https://jellyfin.org/");
}

#[test]
fn link_url_rejects_relative_urls() {
    let c = listener_with_link("foo");
    let mut n = MatrixNoticeResponse::new();
    match link_url("docs@hwa", None, &c, &mut n) {
        Err(LinkError::InvalidUrl(u)) => assert_eq!(u, "foo"),
        _ => panic!("expected an invalid URL"),
    }
    assert!(!n.is_some());
}

#[test]
fn clean_text_removes_each_block_separately() {
    assert_eq!(clean_text("<code>a</code> 5km <code>b</code>"), " 5km ");
    assert_eq!(clean_text("<pre>x</pre>keep<pre>y</pre>"), "keep");
    assert_eq!(clean_text("<mx-reply>quoted</mx-reply><p>5km</p>"), "5km");
    assert_eq!(clean_text("<code>open only"), "<code>open only");
    assert_eq!(
        unit_conversion_requests("x", Some("<code>a</code> 5km <code>b</code>"), &vec![]),
        vec![(s("5"), s("km"))]
    );
}
