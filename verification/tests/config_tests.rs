use matrix_bot::config::{
    load_admin_settings, load_github_settings, load_group_ping_settings, load_linker_settings,
    load_spell_correct_settings, load_unit_conversion_settings, unknown_group_aliases, Config, ConfigError,
    MatrixListenerConfig, RawConfig, RawGeneral, RawGithubAuthentication, RawMatrixAuthentication,
};

fn s(x: &str) -> String {
    x.to_string()
}

fn raw() -> RawConfig {
    RawConfig {
        general: RawGeneral {
            authorized_users: Some(vec![s("@admin:example.org")]),
            help_rooms: None,
            ban_rooms: None,
            enable_unit_conversions: true,
            enable_corrections: false,
            unit_conversion_exclusion: None,
            insensitive_corrections: None,
            sensitive_corrections: None,
            correction_text: None,
            correction_exclusion: None,
            link_matchers: None,
            webhook_token: s("token"),
        },
        matrix_authentication: RawMatrixAuthentication {
            url: s("https://matrix.example.org"),
            username: s("@bot:example.org"),
            password: s("pass"),
        },
        github_authentication: None,
        searchable_repos: None,
        linkable_urls: None,
        text_expansion: None,
        group_pings: None,
    }
}

fn group(name: &str, members: &[&str]) -> (String, Vec<String>) {
    (s(name), members.iter().map(|m| s(m)).collect())
}

fn users(set: &matrix_bot::response::UserSet) -> Vec<String> {
    (0..set.len()).map(|i| set.get(i).as_str().to_string()).collect()
}

#[test]
fn github_settings_need_a_token() {
    let mut r = raw();
    r.searchable_repos = Some(vec![(s("jf"), s("jellyfin/jellyfin"))]);
    let e = load_github_settings(&r).unwrap_err();
    assert!(matches!(e, ConfigError::MissingGithubToken));
    assert_eq!(e.message(), "Searchable repos configured, but no github access token found. Unable to continue...");
    r.github_authentication = Some(RawGithubAuthentication { access_token: s("abc") });
    let (repos, token) = load_github_settings(&r).unwrap();
    assert_eq!(repos, vec![(s("jf"), s("jellyfin/jellyfin"))]);
    assert_eq!(token, "abc");
}

#[test]
fn github_settings_absent_turn_search_off() {
    let (repos, token) = load_github_settings(&raw()).unwrap();
    assert!(repos.is_empty());
    assert_eq!(token, "");
}

#[test]
fn linker_settings_reject_empty_urls() {
    let mut r = raw();
    r.linkable_urls = Some(vec![]);
    r.general.link_matchers = Some(vec![s("docs")]);
    assert!(matches!(load_linker_settings(&r), Err(ConfigError::EmptyLinkableUrls)));
}

#[test]
fn linker_settings_display_uris() {
    let mut r = raw();
    r.linkable_urls = Some(vec![(s("hwa"), s("https://jellyfin.org/docs/hwa"))]);
    r.general.link_matchers = Some(vec![s("docs")]);
    let (m, l) = load_linker_settings(&r).unwrap();
    assert_eq!(m, vec![s("docs")]);
    assert_eq!(l, vec![(s("hwa"), s("https://jellyfin.org/docs/hwa"))]);
}

#[test]
fn linker_settings_without_matchers_are_off() {
    let mut r = raw();
    r.linkable_urls = Some(vec![(s("hwa"), s("https://jellyfin.org"))]);
    let (m, l) = load_linker_settings(&r).unwrap();
    assert!(m.is_empty() && l.is_empty());
}

#[test]
fn unit_exclusions_get_a_leading_space() {
    let mut r = raw();
    r.general.unit_conversion_exclusion = Some(vec![s("in"), s("m")]);
    assert_eq!(load_unit_conversion_settings(&r), vec![s(" in"), s(" m")]);
}

#[test]
fn configured_lists_keep_each_entry_once() {
    let mut r = raw();
    r.general.unit_conversion_exclusion = Some(vec![s("in"), s("m"), s("in")]);
    assert_eq!(load_unit_conversion_settings(&r), vec![s(" in"), s(" m")]);
    r.general.help_rooms = Some(vec![s("!a:x.org"), s("!a:x.org"), s("!b:x.org")]);
    r.general.ban_rooms = Some(vec![s("!b:x.org"), s("!a:x.org"), s("!b:x.org")]);
    let c = Config::load_config(&r, "bot", "1").unwrap();
    assert_eq!(c.help_rooms, vec![s("!a:x.org"), s("!b:x.org")]);
    assert_eq!(c.ban_rooms, vec![s("!b:x.org"), s("!a:x.org")]);
    assert_eq!(c.unit_conversion_exclusion, vec![s(" in"), s(" m")]);
}

#[test]
fn spell_settings_errors_in_order() {
    let mut r = raw();
    r.general.enable_corrections = true;
    assert!(matches!(load_spell_correct_settings(&r), Err(ConfigError::MissingInsensitiveCorrections)));
    r.general.insensitive_corrections = Some(vec![s("Jellyfish")]);
    assert!(matches!(load_spell_correct_settings(&r), Err(ConfigError::MissingSensitiveCorrections)));
    r.general.sensitive_corrections = Some(vec![s("JellyFin")]);
    assert!(matches!(load_spell_correct_settings(&r), Err(ConfigError::MissingCorrectionText)));
    r.general.correction_text = Some(s("{} {}"));
    let (k, t, e) = load_spell_correct_settings(&r).unwrap();
    assert_eq!(k.len(), 2);
    assert_eq!(k[0].to_string(), "Jellyfish");
    assert_eq!(k[1].to_string(), "JellyFin");
    assert_eq!(t, "{} {}");
    assert!(e.is_empty());
}

#[test]
fn spell_settings_off_are_empty() {
    let mut r = raw();
    r.general.insensitive_corrections = Some(vec![s("x")]);
    let (k, t, e) = load_spell_correct_settings(&r).unwrap();
    assert!(k.is_empty() && t.is_empty() && e.is_empty());
}

#[test]
fn admins_are_required() {
    let mut r = raw();
    r.general.authorized_users = None;
    assert!(matches!(load_admin_settings(&r), Err(ConfigError::NoAuthorizedUsers)));
    r.general.authorized_users = Some(vec![]);
    assert!(matches!(load_admin_settings(&r), Err(ConfigError::NoAuthorizedUsers)));
    assert!(matches!(Config::load_config(&r, "n", "v"), Err(ConfigError::NoAuthorizedUsers)));
    r.general.authorized_users = Some(vec![s("@a:x.org"), s("@a:x.org"), s("@b:x.org")]);
    assert_eq!(users(&load_admin_settings(&r).unwrap()), vec![s("@a:x.org"), s("@b:x.org")]);
    r.general.authorized_users = Some(vec![s("nobody")]);
    match load_admin_settings(&r) {
        Err(ConfigError::InvalidUserId(v)) => assert_eq!(v, "nobody"),
        _ => panic!("expected an invalid user ID"),
    }
}

#[test]
fn group_pings_expand_aliases() {
    let mut r = raw();
    r.group_pings = Some(vec![
        group("server", &["@a:x.org", "@b:x.org"]),
        group("all-staff", &["%server", "@c:x.org", "@a:x.org"]),
    ]);
    let (groups, pingers) = load_group_ping_settings(&r).unwrap();
    assert_eq!(groups.len(), 2);
    assert_eq!(groups[0].0, "server");
    assert_eq!(users(&groups[0].1), vec![s("@a:x.org"), s("@b:x.org")]);
    assert_eq!(groups[1].0, "all-staff");
    assert_eq!(users(&groups[1].1), vec![s("@a:x.org"), s("@b:x.org"), s("@c:x.org")]);
    assert_eq!(users(&pingers), vec![s("@a:x.org"), s("@b:x.org"), s("@c:x.org")]);
}

#[test]
fn group_pings_reject_reserved_name() {
    let mut r = raw();
    r.group_pings = Some(vec![group("x", &["@a:x.org", "%all"])]);
    let e = load_group_ping_settings(&r).unwrap_err();
    assert!(matches!(e, ConfigError::ReservedGroupName));
    assert_eq!(e.message(), "%all is a reserved group_ping name, do not configure it manually");
}

#[test]
fn group_pings_ignore_unknown_alias() {
    let mut r = raw();
    r.group_pings = Some(vec![group("b", &["%missing", "@y:s.org"])]);
    let (gs, us) = load_group_ping_settings(&r).unwrap();
    assert_eq!(gs.len(), 1);
    assert_eq!(gs[0].0, "b");
    assert_eq!(users(&gs[0].1), vec![s("@y:s.org")]);
    assert_eq!(users(&us), vec![s("@y:s.org")]);
    assert_eq!(unknown_group_aliases(&r), vec![s("missing")]);
}

#[test]
fn unknown_aliases_are_listed_in_order() {
    let mut r = raw();
    r.group_pings = Some(vec![
        group("a", &["%b", "%%nothere", "@x:s.org"]),
        group("b", &["@y:s.org", "%gone"]),
    ]);
    assert!(load_group_ping_settings(&r).is_ok());
    assert_eq!(unknown_group_aliases(&r), vec![s("nothere"), s("gone")]);
    r.group_pings = None;
    assert_eq!(unknown_group_aliases(&r), Vec::<String>::new());
}

#[test]
fn group_pings_reject_invalid_members() {
    let mut r = raw();
    r.group_pings = Some(vec![group("x", &["bob"])]);
    assert!(matches!(load_group_ping_settings(&r), Err(ConfigError::InvalidGroupMember(m)) if m == "bob"));
    r.group_pings = Some(vec![group("x", &["@nocolon"])]);
    assert!(matches!(load_group_ping_settings(&r), Err(ConfigError::InvalidGroupMember(m)) if m == "@nocolon"));
}

#[test]
fn group_pings_absent_are_empty() {
    let (g, u) = load_group_ping_settings(&raw()).unwrap();
    assert!(g.is_empty());
    assert_eq!(u.len(), 0);
}

#[test]
fn load_config_builds_settings() {
    let mut r = raw();
    r.general.help_rooms = Some(vec![s("!room:x.org")]);
    r.text_expansion = Some(vec![(s("kodi"), s("Kodi is a media center"))]);
    let c = Config::load_config(&r, "matrix-bot", "1.2.3").unwrap();
    assert_eq!(c.mx_uname.as_str(), "@bot:example.org");
    assert_eq!(c.mx_url, "https://matrix.example.org/");
    assert_eq!(c.user_agent, "matrix-bot/1.2.3");
    assert_eq!(c.help_rooms, vec![s("!room:x.org")]);
    assert_eq!(c.text_expansions, vec![(s("kodi"), s("Kodi is a media center"))]);
    assert_eq!(c.webhook_token, "token");
    assert!(c.ban_rooms.is_empty());
    let l = MatrixListenerConfig::new(&c);
    assert_eq!(l.mx_uname.as_str(), "@bot:example.org");
    assert_eq!(l.user_agent, c.user_agent);
    assert_eq!(l.text_expansions, c.text_expansions);
}

#[test]
fn load_config_reports_first_error() {
    let mut r = raw();
    r.general.authorized_users = None;
    r.matrix_authentication.url = s("not a uri");
    assert!(matches!(Config::load_config(&r, "n", "v"), Err(ConfigError::NoAuthorizedUsers)));
    let mut r = raw();
    r.matrix_authentication.url = s("http://exa mple");
    let e = Config::load_config(&r, "n", "v").unwrap_err();
    assert!(matches!(e, ConfigError::InvalidHomeserverUrl));
    assert_eq!(e.message(), "Invalid homeserevr URL");
}

#[test]
fn load_config_checked_stops_at_bad_link_url() {
    let mut r = raw();
    r.linkable_urls = Some(vec![(s("hwa"), s("http://exa mple"))]);
    r.general.link_matchers = Some(vec![s("docs")]);
    assert!(Config::load_config_checked(&r, "n", "v").is_none());
    r.searchable_repos = Some(vec![(s("jf"), s("a/b"))]);
    assert!(matches!(
        Config::load_config_checked(&r, "n", "v"),
        Some(Err(ConfigError::MissingGithubToken))
    ));
}
