use jks_premietanie::text::{
    biely, cislo_na_text, nat_na_znaky, obsahuje, orezane, parse_i32, parse_usize,
    prazdny_riadok, retazec, rovnake, rozdel_riadky, spoj, vlastny, znaky,
};

fn z(s: &str) -> Vec<char> {
    s.chars().collect()
}

#[test]
fn cisla_na_text() {
    assert_eq!(cislo_na_text(0), "0");
    assert_eq!(cislo_na_text(-42), "-42");
    assert_eq!(cislo_na_text(1234567), "1234567");
    assert_eq!(cislo_na_text(i64::MIN), i64::MIN.to_string());
    assert_eq!(cislo_na_text(i64::MAX), i64::MAX.to_string());
    assert_eq!(retazec(&nat_na_znaky(u64::MAX)), u64::MAX.to_string());
}

#[test]
fn citanie_i32_ako_parse() {
    for s in ["0", "5", "+5", "-5", "-0", "007", "2147483647", "-2147483648"] {
        assert_eq!(parse_i32(s), s.parse::<i32>().ok(), "{}", s);
    }
    for s in ["", "-", "+", "2147483648", "-2147483649", " 5", "5 ", "1e3", "--1", "+-1", "١"] {
        assert_eq!(parse_i32(s), None, "{}", s);
        assert!(s.parse::<i32>().is_err());
    }
}

#[test]
fn citanie_usize_ako_parse() {
    for s in ["0", "3", "+3", "18446744073709551615"] {
        assert_eq!(parse_usize(s), s.parse::<usize>().ok(), "{}", s);
    }
    for s in ["", "-1", "+", "18446744073709551616", "x"] {
        assert_eq!(parse_usize(s), None, "{}", s);
    }
}

#[test]
fn zapisane_cislo_sa_precita_spat() {
    for x in [0i32, 1, -1, 99, i32::MIN, i32::MAX] {
        assert_eq!(parse_i32(cislo_na_text(x as i64).as_str()), Some(x));
    }
}

#[test]
fn hladanie_useku() {
    assert!(obsahuje("Hymna Slovenska", "na Slo"));
    assert!(obsahuje("abc", ""));
    assert!(obsahuje("", ""));
    assert!(!obsahuje("ab", "abc"));
    assert!(!obsahuje("abc", "ac"));
    assert!(obsahuje("aab", "ab"));
}

#[test]
fn orezavanie() {
    assert_eq!(orezane(&z("  a b \t\n"), false), z("a b"));
    assert_eq!(orezane(&z("\u{3000}x\u{a0}"), false), z("x"));
    assert_eq!(orezane(&z("\"\"Advent\""), true), z("Advent"));
    assert_eq!(orezane(&z(" \"a\" "), true), z(" \"a\" "));
    assert_eq!(orezane(&z("   "), false), z(""));
    assert!(biely('\u{85}'));
    assert!(!biely('a'));
    assert!(prazdny_riadok(&z(" \t\r")));
    assert!(!prazdny_riadok(&z(" x ")));
    assert!(prazdny_riadok(&z("")));
}

#[test]
fn riadky_ako_bufread_lines() {
    let r: Vec<String> = rozdel_riadky("a\r\nb\n\nc").iter().map(|v| v.iter().collect()).collect();
    assert_eq!(r, vec!["a", "b", "", "c"]);
    let r: Vec<String> = rozdel_riadky("x\n").iter().map(|v| v.iter().collect()).collect();
    assert_eq!(r, vec!["x"]);
    assert!(rozdel_riadky("").is_empty());
    let r: Vec<String> = rozdel_riadky("\n\n").iter().map(|v| v.iter().collect()).collect();
    assert_eq!(r, vec!["", ""]);
    // posledný riadok bez `\n` si `\r` ponechá, ako pri `BufRead::lines`
    let r: Vec<String> = rozdel_riadky("a\r").iter().map(|v| v.iter().collect()).collect();
    assert_eq!(r, vec!["a\r"]);
    let std_lines: Vec<String> = std::io::BufRead::lines("x\r\ny\r".as_bytes()).map(|l| l.unwrap()).collect();
    let nase: Vec<String> = rozdel_riadky("x\r\ny\r").iter().map(|v| v.iter().collect()).collect();
    assert_eq!(nase, std_lines);
}

#[test]
fn zakladne_retazce() {
    assert_eq!(znaky("áb"), vec!['á', 'b']);
    assert_eq!(retazec(&vec!['č', 'a']), "ča");
    assert_eq!(vlastny("x"), "x");
    assert_eq!(spoj("ab", "cd"), "abcd");
    assert!(rovnake("Žalm", "Žalm"));
    assert!(!rovnake("Žalm", "Zalm"));
}
