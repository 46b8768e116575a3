use youtube_map::text::{
    chars_equal, chars_of, contains_chars, decimal_chars, parse_bool_chars, parse_u32_chars,
    remove_char_chars, split_last_chars, trim_end_char_chars, upper_hex_u8,
};

fn cs(s: &str) -> Vec<char> {
    s.chars().collect()
}

fn st(v: &[char]) -> String {
    v.iter().collect()
}

#[test]
fn chars_round_trip() {
    let v = chars_of("héllo");
    assert_eq!(v, vec!['h', 'é', 'l', 'l', 'o']);
    assert_eq!(st(&v), "héllo");
    assert_eq!(chars_of(""), Vec::<char>::new());
}

#[test]
fn chars_equal_compares_contents() {
    assert!(chars_equal(&cs("null"), &cs("null")));
    assert!(!chars_equal(&cs("null"), &cs("nul")));
    assert!(!chars_equal(&cs("null"), &cs("nulL")));
    assert!(chars_equal(&[], &[]));
}

#[test]
fn contains_finds_patterns() {
    assert!(contains_chars(&cs("https://www.youtube.com/channel/UC1"), &cs("/channel/")));
    assert!(!contains_chars(&cs("https://www.youtube.com/c/name"), &cs("/channel/")));
    assert!(contains_chars(&cs("abc"), &cs("")));
    assert!(!contains_chars(&cs("ab"), &cs("abc")));
}

#[test]
fn split_last_takes_piece_after_last_separator() {
    assert_eq!(st(&split_last_chars(&cs("a/c/b/c/d"), &cs("/c/"))), "d");
    assert_eq!(st(&split_last_chars(&cs("plain"), &cs("/c/"))), "plain");
    assert_eq!(st(&split_last_chars(&cs("ends/c/"), &cs("/c/"))), "");
    // Matches are found left to right without overlapping, as str::split does.
    assert_eq!(st(&split_last_chars(&cs("/c/c/"), &cs("/c/"))), "c/");
    assert_eq!("/c/c/".split("/c/").last().unwrap(), "c/");
}

#[test]
fn remove_and_trim() {
    assert_eq!(st(&remove_char_chars(&cs("\"a\"b\""), '"')), "ab");
    assert_eq!(st(&trim_end_char_chars(&cs("a,b,,,"), ',')), "a,b");
    assert_eq!(st(&trim_end_char_chars(&cs(",,,"), ',')), "");
    assert_eq!(st(&trim_end_char_chars(&cs(""), ',')), "");
}

#[test]
fn parse_u32_matches_std() {
    for s in ["0", "42", "+7", "4294967295", "4294967296", "", "+", "-1", "1a", " 1", "007", "99999999999999999999"] {
        assert_eq!(parse_u32_chars(&cs(s)), s.parse::<u32>().ok(), "input {:?}", s);
    }
}

#[test]
fn parse_bool_matches_std() {
    for s in ["true", "false", "True", "", "null", "\"true\""] {
        assert_eq!(parse_bool_chars(&cs(s)), s.parse::<bool>().ok(), "input {:?}", s);
    }
}

#[test]
fn hex_and_decimal_formatting_match_std() {
    for n in [0u8, 9, 10, 15, 16, 145, 146, 255] {
        assert_eq!(st(&upper_hex_u8(n)), format!("{:X}", n));
    }
    for n in [0u32, 7, 10, 50, 123456, u32::MAX] {
        assert_eq!(st(&decimal_chars(n)), n.to_string());
    }
}
