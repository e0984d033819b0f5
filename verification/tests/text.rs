use kv_server::text::{
    is_whitespace, is_wrapped_in_quotes, require_data, split_at_space, str_eq, strip_quotes, trim,
};

#[test]
fn is_whitespace_agrees_with_char_is_whitespace_on_every_char() {
    let mut code: u32 = 0;
    while code <= 0x10FFFF {
        if let Some(c) = char::from_u32(code) {
            assert_eq!(is_whitespace(c), c.is_whitespace(), "U+{:04X}", code);
        }
        code += 1;
    }
}

#[test]
fn is_whitespace_knows_the_common_ones() {
    assert!(is_whitespace(' '));
    assert!(is_whitespace('\n'));
    assert!(is_whitespace('\r'));
    assert!(is_whitespace('\t'));
    assert!(is_whitespace('\u{A0}'));
    assert!(is_whitespace('\u{3000}'));
    assert!(!is_whitespace('a'));
    assert!(!is_whitespace('\''));
    assert!(!is_whitespace('\u{200B}'));
}

#[test]
fn trim_removes_white_space_at_both_ends() {
    assert_eq!(trim("  PING  "), "PING");
    assert_eq!(trim("PING\r\n"), "PING");
    assert_eq!(trim("\t SET a b \n"), "SET a b");
    assert_eq!(trim("\u{A0}x\u{2003}"), "x");
}

#[test]
fn trim_keeps_white_space_inside() {
    assert_eq!(trim(" a  b\tc "), "a  b\tc");
}

#[test]
fn trim_of_nothing_but_white_space_is_empty() {
    assert_eq!(trim(""), "");
    assert_eq!(trim(" "), "");
    assert_eq!(trim(" \r\n\t "), "");
}

#[test]
fn trim_leaves_a_clean_text_alone() {
    assert_eq!(trim("x"), "x");
    assert_eq!(trim("GET key"), "GET key");
}

#[test]
fn trim_agrees_with_str_trim() {
    let samples = [
        "",
        " ",
        "a",
        " a",
        "a ",
        " a b ",
        "\n\nECHO 'x y'\r\n",
        "\u{1680}\u{2028}é ü\u{205F}",
        "日本語 テキスト ",
        "\u{85}x\u{85}",
    ];
    for sample in samples {
        assert_eq!(trim(sample), sample.trim(), "{:?}", sample);
    }
}

#[test]
fn split_at_space_splits_at_the_first_space_only() {
    assert_eq!(split_at_space("SET key value"), ("SET", "key value"));
    assert_eq!(split_at_space("key some longer value"), ("key", "some longer value"));
}

#[test]
fn split_at_space_without_a_space_gives_an_empty_rest() {
    assert_eq!(split_at_space("PING"), ("PING", ""));
    assert_eq!(split_at_space(""), ("", ""));
}

#[test]
fn split_at_space_at_the_edges() {
    assert_eq!(split_at_space(" x"), ("", "x"));
    assert_eq!(split_at_space("x "), ("x", ""));
    assert_eq!(split_at_space(" "), ("", ""));
    assert_eq!(split_at_space("a  b"), ("a", " b"));
}

#[test]
fn split_at_space_does_not_split_at_other_white_space() {
    assert_eq!(split_at_space("PING\tfoo"), ("PING\tfoo", ""));
    assert_eq!(split_at_space("a\nb c"), ("a\nb", "c"));
}

#[test]
fn split_at_space_counts_characters_not_bytes() {
    assert_eq!(split_at_space("clé valeur été"), ("clé", "valeur été"));
}

#[test]
fn is_wrapped_in_quotes_needs_a_pair() {
    assert!(is_wrapped_in_quotes("'a'"));
    assert!(is_wrapped_in_quotes("''"));
    assert!(!is_wrapped_in_quotes("'"));
    assert!(!is_wrapped_in_quotes(""));
    assert!(!is_wrapped_in_quotes("'a"));
    assert!(!is_wrapped_in_quotes("a'"));
    assert!(!is_wrapped_in_quotes("\"a\""));
}

#[test]
fn strip_quotes_removes_one_pair() {
    assert_eq!(strip_quotes("'hello'"), "hello");
    assert_eq!(strip_quotes("''hello''"), "'hello'");
    assert_eq!(strip_quotes("'é'"), "é");
}

#[test]
fn require_data_of_empty_is_empty() {
    assert_eq!(require_data(String::new()), "");
}

#[test]
fn require_data_strips_the_quotes_around_a_text() {
    assert_eq!(require_data("'hello'".to_string()), "hello");
    assert_eq!(require_data("'hello world'".to_string()), "hello world");
}

#[test]
fn require_data_of_two_quotes_is_empty() {
    assert_eq!(require_data("''".to_string()), "");
}

#[test]
fn require_data_leaves_a_lone_quote_alone() {
    assert_eq!(require_data("'".to_string()), "'");
}

#[test]
fn require_data_passes_other_text_through() {
    assert_eq!(require_data("hello".to_string()), "hello");
    assert_eq!(require_data("'hello".to_string()), "'hello");
    assert_eq!(require_data("hello'".to_string()), "hello'");
    assert_eq!(require_data("he'll'o".to_string()), "he'll'o");
    assert_eq!(require_data("\"hello\"".to_string()), "\"hello\"");
}

#[test]
fn str_eq_tells_equal_from_different() {
    assert!(str_eq("", ""));
    assert!(str_eq("PING", "PING"));
    assert!(str_eq("é日本", "é日本"));
    assert!(!str_eq("PING", "PINg"));
    assert!(!str_eq("PING", "PIN"));
    assert!(!str_eq("PIN", "PING"));
    assert!(!str_eq("", "x"));
}
