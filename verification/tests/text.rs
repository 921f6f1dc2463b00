use minimal_web_server::handlers::hello_world;
use minimal_web_server::text::{
    chars_of, cut, decode_text, find_from, find_in, has_infix, has_prefix, matches_at, same_text,
    str_eq, to_ascii_lower, to_lower_char, to_usize,
};

fn chars(s: &str) -> Vec<char> {
    s.chars().collect()
}

#[test]
fn chars_of_text() {
    assert_eq!(chars_of("a\u{e9}\u{1F600}"), vec!['a', '\u{e9}', '\u{1F600}']);
    assert_eq!(chars_of(""), Vec::<char>::new());
}

#[test]
fn find_leftmost_occurrence() {
    assert_eq!(find_in(&chars("a: b: c"), &chars(": ")), Some(1));
    assert_eq!(find_in(&chars("abc"), &chars(": ")), None);
    assert_eq!(find_in(&chars("abc:"), &chars(": ")), None);
    assert_eq!(find_in(&chars("aaab"), &chars("aab")), Some(1));
    assert_eq!(find_in(&chars("abc"), &chars("")), Some(0));
    assert_eq!(find_in(&chars(""), &chars("")), Some(0));
    assert_eq!(find_in(&chars(""), &chars("a")), None);
    assert_eq!(find_in(&chars("ab"), &chars("abc")), None);
}

#[test]
fn find_from_an_offset() {
    let hay = chars("a b c");
    assert_eq!(find_from(&hay, &chars(" "), 0), Some(1));
    assert_eq!(find_from(&hay, &chars(" "), 1), Some(1));
    assert_eq!(find_from(&hay, &chars(" "), 2), Some(3));
    assert_eq!(find_from(&hay, &chars(" "), 4), None);
    assert_eq!(find_from(&hay, &chars(" "), 5), None);
    assert_eq!(find_from(&hay, &chars(""), 5), Some(5));
}

#[test]
fn matching_at_a_position() {
    let hay = chars("hello");
    assert!(matches_at(&hay, &chars("ell"), 1));
    assert!(!matches_at(&hay, &chars("ell"), 0));
    assert!(!matches_at(&hay, &chars("lo!"), 3));
    assert!(matches_at(&hay, &chars(""), 5));
    assert!(!matches_at(&hay, &chars(""), 6));
    assert!(!matches_at(&hay, &chars("o"), usize::MAX));
}

#[test]
fn prefix_and_infix() {
    assert!(has_prefix(&chars("text/plain"), &chars("text/")));
    assert!(!has_prefix(&chars("atext/plain"), &chars("text/")));
    assert!(!has_prefix(&chars("tex"), &chars("text/")));
    assert!(has_infix(&chars("application/ld+json"), &chars("+json")));
    assert!(!has_infix(&chars("application/json"), &chars("+json")));
}

#[test]
fn text_equality() {
    assert!(same_text(&chars("abc"), &chars("abc")));
    assert!(!same_text(&chars("abc"), &chars("abd")));
    assert!(!same_text(&chars("abc"), &chars("ab")));
    assert!(!same_text(&chars("ab"), &chars("abc")));
    assert!(same_text(&chars(""), &chars("")));
    assert!(str_eq("GET", "GET"));
    assert!(!str_eq("GET", "get"));
    assert!(!str_eq("GET", "GETS"));
}

#[test]
fn ascii_lowering() {
    assert_eq!(to_lower_char('A'), 'a');
    assert_eq!(to_lower_char('Z'), 'z');
    assert_eq!(to_lower_char('m'), 'm');
    assert_eq!(to_lower_char('@'), '@');
    assert_eq!(to_lower_char('['), '[');
    assert_eq!(to_lower_char('\u{c9}'), '\u{c9}');
    assert_eq!(to_ascii_lower(&chars("Content-LENGTH 12 \u{c9}")), chars("content-length 12 \u{c9}"));
}

#[test]
fn decimal_numbers() {
    assert_eq!(to_usize(&chars("0")), Some(0));
    assert_eq!(to_usize(&chars("5")), Some(5));
    assert_eq!(to_usize(&chars("1234567890")), Some(1234567890));
    assert_eq!(to_usize(&chars("+17")), Some(17));
    assert_eq!(to_usize(&chars("007")), Some(7));
    assert_eq!(to_usize(&chars("")), None);
    assert_eq!(to_usize(&chars("+")), None);
    assert_eq!(to_usize(&chars("-1")), None);
    assert_eq!(to_usize(&chars("++1")), None);
    assert_eq!(to_usize(&chars(" 1")), None);
    assert_eq!(to_usize(&chars("1 ")), None);
    assert_eq!(to_usize(&chars("1_000")), None);
    assert_eq!(to_usize(&chars("12a")), None);
    assert_eq!(to_usize(&chars("\u{663}")), None);
}

#[test]
fn decimal_numbers_at_the_limit() {
    let max = usize::MAX.to_string();
    assert_eq!(to_usize(&chars(&max)), Some(usize::MAX));
    let mut over = max.clone();
    over.push('0');
    assert_eq!(to_usize(&chars(&over)), None);
    let next = (usize::MAX as u128 + 1).to_string();
    assert_eq!(to_usize(&chars(&next)), None);
}

#[test]
fn cutting_by_character_positions() {
    assert_eq!(cut("h\u{e9}llo w\u{f6}rld", 1, 5), "\u{e9}llo");
    assert_eq!(cut("abc", 0, 3), "abc");
    assert_eq!(cut("abc", 3, 3), "");
    assert_eq!(cut("abc", 1, 1), "");
}

#[test]
fn decoding_utf8() {
    assert_eq!(decode_text(&b"plain".to_vec()), Some("plain".to_string()));
    assert_eq!(decode_text(&vec![0xe2, 0x82, 0xac]), Some("\u{20ac}".to_string()));
    assert_eq!(decode_text(&Vec::new()), Some(String::new()));
    assert_eq!(decode_text(&vec![0xc0, 0x80]), None);
    assert_eq!(decode_text(&vec![0xed, 0xa0, 0x80]), None);
    assert_eq!(decode_text(&vec![0x80]), None);
    assert_eq!(decode_text(&vec![0xf4, 0x90, 0x80, 0x80]), None);
    assert_eq!(decode_text(&vec![0xf0, 0x9f, 0x98, 0x80]), Some("\u{1F600}".to_string()));
    assert_eq!(decode_text(&vec![0x61, 0xe2, 0x82]), None);
}

#[test]
fn greeting() {
    assert_eq!(hello_world(), "Hello World");
}
