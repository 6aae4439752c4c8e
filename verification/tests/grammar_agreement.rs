//! Compares the scanners with the regular expressions that define the
//! message grammars, on fixed and generated texts.
use matrix_bot::cleaning::clean_text;
use matrix_bot::command::{no_bang_is_match, unit_conversion_command};
use matrix_bot::mentions::{
    formatted_username_first, github_search_captures, group_ping_captures, link_url_captures,
    text_expansion_captures,
};
use matrix_bot::basic::{basic_captures, basic_is_match};
use matrix_bot::quantity::unit_conversion_captures;
use regex::Regex;

const UNIT_CONVERSION: &str = r"(?x)
    (?:^|\s+)
    ([+-]?[0-9]+(?:.[0-9]+)?)
    (?:[[\t\v\f\r ][:blank:]])*?
    ([^\s]?[[:alpha:]]+(?:[/\.][[:alpha:]]+)?)
    ";
const SINGLE_UNIT_CONVERSION: &str = r"(?x)
        ^!convert
        (?:[[\t\v\f\r ][:blank:][^\n]])*?
        ([[:digit:]]+(?:\.[[:digit:]]+)?)
        (?:[[\t\v\f\r ][:blank:][^\n]])*?
        (°{0,1}[[:alpha:]]+/{0,1}[[:alpha:]]{0,})
    ";
const FIRST_UNIT_CONVERSION: &str = r"(?x)
        ([[:digit:]]+(?:\.[[:digit:]]+)?)
        (?:[[[\t\v\f\r ]][:blank:]])*?
        (°{0,1}[[:alpha:]]+/{0,1}[[:alpha:]]{0,})
    ";
const GITHUB_SEARCH: &str = r"(?x)
    ([[:alpha:]-]+)
    (?:[[[\t\v\f\r ]][:blank:]])*?
    (?:\#)
    ([[:digit:]]+)
    ";
const LINK_URL: &str = r"(?x)
    ([[:alpha:]]+)
    (?:[[[\t\v\f\r ]][:blank:]])*?
    (?:@)
    ([[:alpha:]]+)
    ";
const GROUP_PING: &str = r"(?x)
    (?:^|\s+)
    %
    (?:[[\t\v\f\r ][:blank:]])*?
    ([[:alnum:]]+)
    ";
const TEXT_EXPANSION: &str = r"(?x)
     (?:^|\s+)
     \$
     (?:[[\t\v\f\r ][:blank:]])*?
     ([[:alnum:]]+)
    ";

struct Lcg(u64);

impl Lcg {
    fn next(&mut self) -> u64 {
        self.0 = self.0.wrapping_mul(6364136223846793005).wrapping_add(1442695040888963407);
        self.0 >> 33
    }

    fn text(&mut self, pieces: &[&str], max: u64) -> String {
        let n = self.next() % (max + 1);
        let mut s = String::new();
        for _ in 0..n {
            let k = (self.next() % pieces.len() as u64) as usize;
            s.push_str(pieces[k]);
        }
        s
    }
}

fn fixed_texts() -> Vec<String> {
    [
        "", "22km", "you are 22 km from me", "22.2km/h", "-4°c", "+5 f", "5 6 km", "5x3km",
        "a 1 hour", "1\u{a0}km", "\u{2003}9kg", "x22km", "22 \t km", "22\nkm", "3.14.15 mi",
        "jf#1234", "jf #1234", "jf-web  #12 x#", "docs@hwa", "link @ troubleshooting",
        "%server hi", " % all", "$kodi", "a$kodi", "!convert 22km", "!convert 22.2 km/h",
        "!convert x 6 °c", "!convert\n22km", "!convert 5 5", "!convertx 1m", "@a:b", "@:b",
        "@ab:", "x @u:s\n@v:w",
    ]
    .iter()
    .map(|s| s.to_string())
    .collect()
}

fn generated(pieces: &[&str], seed: u64, count: usize, max: u64) -> Vec<String> {
    let mut g = Lcg(seed);
    let mut v = fixed_texts();
    for _ in 0..count {
        v.push(g.text(pieces, max));
    }
    v
}

const PIECES: &[&str] = &[
    "a", "km", "h", "c", "x", "Z", "1", "2", "0", " ", "  ", "\t", "\n", ".", "/", "°", "+", "-",
    "#", "@", ":", "%", "$", "!convert", "\u{a0}", "é",
];

#[test]
fn unit_conversion_agrees_with_regex() {
    let re = Regex::new(UNIT_CONVERSION).unwrap();
    for t in generated(PIECES, 1, 3000, 12) {
        let expected: Vec<(String, String, String)> = re
            .captures_iter(&t)
            .map(|c| (c[0].to_string(), c[1].to_string(), c[2].to_string()))
            .collect();
        let actual: Vec<(String, String, String)> = unit_conversion_captures(&t)
            .into_iter()
            .map(|c| (c.whole, c.quantity, c.unit))
            .collect();
        assert_eq!(expected, actual, "text {:?}", t);
    }
}

#[test]
fn command_agrees_with_regex() {
    let re = Regex::new(SINGLE_UNIT_CONVERSION).unwrap();
    let mut texts = generated(PIECES, 2, 3000, 10);
    let mut g = Lcg(3);
    for _ in 0..3000 {
        texts.push(format!("!convert{}", g.text(PIECES, 10)));
    }
    for t in texts {
        let expected = re
            .captures_iter(&t)
            .next()
            .map(|c| (c[0].to_string(), c[1].to_string(), c[2].to_string()));
        let actual = unit_conversion_command(&t).map(|c| (c.whole, c.quantity, c.unit));
        assert_eq!(expected, actual, "text {:?}", t);
    }
}

#[test]
fn no_bang_agrees_with_regex() {
    let re = Regex::new(r"(^[^!])").unwrap();
    for t in generated(PIECES, 4, 1000, 6) {
        assert_eq!(re.is_match(&t), no_bang_is_match(&t), "text {:?}", t);
    }
}

fn pairs(re: &Regex, t: &str) -> Vec<(String, String)> {
    re.captures_iter(t).map(|c| (c[1].to_string(), c[2].to_string())).collect()
}

#[test]
fn references_agree_with_regex() {
    let gh = Regex::new(GITHUB_SEARCH).unwrap();
    let link = Regex::new(LINK_URL).unwrap();
    for t in generated(PIECES, 5, 3000, 12) {
        let actual: Vec<(String, String)> =
            github_search_captures(&t).into_iter().map(|c| (c.first, c.second)).collect();
        assert_eq!(pairs(&gh, &t), actual, "text {:?}", t);
        let actual: Vec<(String, String)> =
            link_url_captures(&t).into_iter().map(|c| (c.first, c.second)).collect();
        assert_eq!(pairs(&link, &t), actual, "text {:?}", t);
    }
}

#[test]
fn sigil_words_agree_with_regex() {
    let ping = Regex::new(GROUP_PING).unwrap();
    let exp = Regex::new(TEXT_EXPANSION).unwrap();
    for t in generated(PIECES, 6, 3000, 12) {
        let expected: Vec<String> = ping.captures_iter(&t).map(|c| c[1].to_string()).collect();
        assert_eq!(expected, group_ping_captures(&t), "text {:?}", t);
        let expected: Vec<String> = exp.captures_iter(&t).map(|c| c[1].to_string()).collect();
        assert_eq!(expected, text_expansion_captures(&t), "text {:?}", t);
    }
}

#[test]
fn username_agrees_with_regex() {
    let re = Regex::new(r#"(@[^\n"<]+:[^\n"<]+)"#).unwrap();
    for t in generated(PIECES, 7, 3000, 10) {
        let expected = re.captures_iter(&t).next().map(|c| c[0].to_string());
        assert_eq!(expected, formatted_username_first(&t), "text {:?}", t);
    }
}

#[test]
fn cleaning_agrees_with_regex() {
    let reply = Regex::new(r"(?s)(<mx-reply>.*?</mx-reply>)*").unwrap();
    let code = Regex::new(r"(?s)(<code>.*?</code>)*").unwrap();
    let pre = Regex::new(r"(?s)(<pre>.*?</pre>)*").unwrap();
    let para = Regex::new(r"(?s)(</*?p>)*").unwrap();
    let pieces: &[&str] = &[
        "a", "<", ">", "/", "p", "<p>", "</p>", "<//p>", "<code>", "</code>", "<pre>", "</pre>",
        "<mx-reply>", "</mx-reply>", "\n", " ",
    ];
    for t in generated(pieces, 8, 4000, 10) {
        let r = reply.replace_all(&t, "");
        let r = code.replace_all(&r, "");
        let r = pre.replace_all(&r, "");
        let r = para.replace_all(&r, "");
        assert_eq!(r.to_string(), clean_text(&t), "text {:?}", t);
    }
}

#[test]
fn first_unit_conversion_agrees_with_regex() {
    let re = Regex::new(FIRST_UNIT_CONVERSION).unwrap();
    for t in generated(PIECES, 9, 4000, 12) {
        let expected: Vec<(String, String)> = re
            .captures_iter(&t)
            .map(|c| (c[1].to_string(), c[2].to_string()))
            .collect();
        assert_eq!(expected, basic_captures(&t), "text {:?}", t);
        assert_eq!(re.is_match(&t), basic_is_match(&t), "text {:?}", t);
    }
}
