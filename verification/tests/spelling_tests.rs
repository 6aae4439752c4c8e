use matrix_bot::ids::UserId;
use matrix_bot::spelling::{correct_spelling, spellcheck, InsensitiveSpelling, SensitiveSpelling, SpellCheckKind};

fn kinds() -> Vec<SpellCheckKind> {
    vec![
        SpellCheckKind::SpellCheckInsensitive(InsensitiveSpelling::from("Jellyfish")),
        SpellCheckKind::SpellCheckSensitive(SensitiveSpelling::from("JellyFin")),
    ]
}

#[test]
fn correct_spelling_fills_user_and_spelling() {
    let r = correct_spelling("bob", "JellyFin");
    assert!(r.starts_with("I'd just like to interject for a moment bob. What you're referring to as JellyFin, is in fact, Jellyfin,"));
    assert!(r.ends_with("Please recognize the harm caused to the slaves by misnaming the project."));
}

#[test]
fn spellcheck_finds_insensitive_spelling_in_lower_case() {
    let sender = UserId::parse("@bob:example.org").unwrap();
    let r = spellcheck("i love jellyfish", &sender, &kinds(), "hey {}, not {}!");
    assert_eq!(r, Some("hey bob, not Jellyfish!".to_string()));
}

#[test]
fn spellcheck_insensitive_ignores_case_of_body() {
    let sender = UserId::parse("@bob:example.org").unwrap();
    let r = spellcheck("i love JellyFISH", &sender, &kinds(), "hey {}, not {}!");
    assert_eq!(r, Some("hey bob, not Jellyfish!".to_string()));
    let k = vec![SpellCheckKind::SpellCheckInsensitive(InsensitiveSpelling::from("jellyfish"))];
    assert_eq!(spellcheck("I use JellyFish", &sender, &k, "{} wrote {}"), Some("bob wrote jellyfish".to_string()));
}

#[test]
fn spellcheck_sensitive_matches_exactly() {
    let sender = UserId::parse("@bob:example.org").unwrap();
    assert_eq!(spellcheck("use JellyFin", &sender, &kinds(), "{} {}"), Some("bob JellyFin".to_string()));
    assert_eq!(spellcheck("use jellyfin", &sender, &kinds(), "{} {}"), None);
}

#[test]
fn spellcheck_last_match_wins() {
    let sender = UserId::parse("@bob:example.org").unwrap();
    let r = spellcheck("jellyfish and JellyFin", &sender, &kinds(), "{}:{}");
    assert_eq!(r, Some("bob:JellyFin".to_string()));
}

#[test]
fn spellcheck_empty_correction_is_none() {
    let sender = UserId::parse("@bob:example.org").unwrap();
    assert_eq!(spellcheck("JellyFin", &sender, &kinds(), ""), None);
}

#[test]
fn spelling_to_string_gives_spelling() {
    let k = SpellCheckKind::SpellCheckSensitive(SensitiveSpelling::from("x y"));
    assert_eq!(k.to_string(), "x y");
    assert_eq!(InsensitiveSpelling::from("Ab").to_string(), "Ab");
}
