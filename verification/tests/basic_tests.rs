use matrix_bot::ids::UserId;
use matrix_bot::dice::{roll, roll_limit_exec};
use matrix_bot::basic::{
    convert_command_request, handle_text_message, basic_captures, no_command_check, NoCommandAction,
};

fn s(x: &str) -> String {
    x.to_string()
}

#[test]
fn basic_grammar_reads_digits_and_units() {
    assert_eq!(basic_captures("it is 22.5 km/h and 3°c"), vec![(s("22.5"), s("km/h")), (s("3"), s("°c"))]);
    assert_eq!(basic_captures("-4 mi"), vec![(s("4"), s("mi"))]);
    assert_eq!(basic_captures("22.km"), vec![]);
}

#[test]
fn no_command_ignores_own_messages() {
    let bot = UserId::parse("@bot:x.org").unwrap();
    assert!(matches!(no_command_check("5km", None, None, &bot, "bot", true, false), NoCommandAction::Nothing));
}

#[test]
fn no_command_converts_known_units() {
    let a = UserId::parse("@a:x.org").unwrap();
    match no_command_check("Run 5KM or 3 mi", None, None, &a, "bot", true, false) {
        NoCommandAction::Convert(v) => {
            assert_eq!(v, vec![(s("5"), s("km"), s("mi")), (s("3"), s("mi"), s("km"))])
        },
        _ => panic!("expected conversions"),
    }
}

#[test]
fn no_command_gives_up_on_unknown_unit() {
    let a = UserId::parse("@a:x.org").unwrap();
    assert!(matches!(no_command_check("5km and 2 apples", None, None, &a, "bot", true, false), NoCommandAction::Nothing));
}

#[test]
fn no_command_checks_format_and_code() {
    let a = UserId::parse("@a:x.org").unwrap();
    assert!(matches!(no_command_check("5km", Some("org.other"), Some("5km"), &a, "bot", true, false), NoCommandAction::Nothing));
    assert!(matches!(
        no_command_check("5km", Some("org.matrix.custom.html"), Some("<code>5km</code>"), &a, "bot", true, false),
        NoCommandAction::Nothing
    ));
    assert!(matches!(
        no_command_check("5km", Some("org.matrix.custom.html"), Some("<b>5km</b>"), &a, "bot", true, false),
        NoCommandAction::Convert(_)
    ));
}

#[test]
fn no_command_corrects_first_misspelling() {
    let a = UserId::parse("@alice:x.org").unwrap();
    match no_command_check("I use JELLY FIN and JellyFin", None, None, &a, "bot", true, false) {
        NoCommandAction::Correct(t) => assert!(t.starts_with(
            "I'd just like to interject for a moment alice. What you're referring to as Jelly Fin, is in fact"
        )),
        _ => panic!("expected a correction"),
    }
    assert!(matches!(no_command_check("JellyFin", None, None, &a, "bot", false, false), NoCommandAction::Nothing));
    assert!(matches!(no_command_check("JellyFin", None, None, &a, "bot", true, true), NoCommandAction::Nothing));
    assert!(matches!(no_command_check("Jellyfin", None, None, &a, "bot", true, false), NoCommandAction::Nothing));
}

#[test]
fn first_convert_command_takes_first_quantity() {
    assert_eq!(convert_command_request("!convert 22 KM", false, false), Some((s("22"), s("km"), s("mi"))));
    assert_eq!(convert_command_request("!convert 22 parsec", false, false), None);
    assert_eq!(convert_command_request("!convert 22km", true, false), None);
    assert_eq!(convert_command_request("!convert 22km", false, true), None);
}

#[test]
fn first_text_handler_repeats_jellyfish() {
    let a = UserId::parse("@a:x.org").unwrap();
    assert_eq!(handle_text_message("a jellyfish!", &a, "bot", false), Some(s("a jellyfish!")));
    assert_eq!(handle_text_message("a Jellyfish", &a, "bot", false), None);
    assert_eq!(handle_text_message("!jellyfish", &a, "bot", false), None);
    assert_eq!(handle_text_message("jellyfish", &a, "a", false), None);
    assert_eq!(handle_text_message("jellyfish", &a, "bot", true), None);
}

#[test]
fn roll_reads_limit_before_dash() {
    assert_eq!(roll_limit_exec("!ROLL 5 -"), Some(5));
    assert_eq!(roll_limit_exec("!roll +7-3"), Some(7));
    assert_eq!(roll_limit_exec("!roll 5"), None);
    assert_eq!(roll_limit_exec("!rolled 5-"), None);
    assert_eq!(roll_limit_exec("!roll x-"), None);
    for _ in 0..20 {
        let n: i64 = roll("!roll 10-", false, false).unwrap().parse().unwrap();
        assert!(1 <= n && n < 10);
    }
    assert_eq!(roll("!roll 10-", true, false), None);
    assert_eq!(roll("!roll 10", false, false), None);
}

#[test]
fn spelling_check_uses_fixed_list() {
    use_check();
}

fn use_check() {
    let a = UserId::parse("@al:x.org").unwrap();
    let c = matrix_bot::basic::correct_spelling_check("jellyfin and jellyFin", &a, "bot", true, false).unwrap();
    assert!(c.contains("moment al. What you're referring to as jellyFin, is in fact"));
    assert_eq!(matrix_bot::basic::correct_spelling_check("jellyFin", &a, "al", true, false), None);
    assert_eq!(matrix_bot::basic::correct_spelling_check("jellyFin", &a, "bot", false, false), None);
    assert_eq!(matrix_bot::basic::correct_spelling_check("nothing", &a, "bot", true, false), None);
}
