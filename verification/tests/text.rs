use light_letter::config::SiteConfig;
use light_letter::dispatch::contains_str;
use light_letter::route::RouteError;
use light_letter::text::{
    copy_opt_string, copy_strings, digit_char, from_chars, index_of, str_eq, to_chars,
};

#[test]
fn texts_are_taken_apart_and_put_together() {
    let chars = to_chars("a\u{e9}\u{1f600}/b");
    assert_eq!(chars, vec!['a', '\u{e9}', '\u{1f600}', '/', 'b']);
    assert_eq!(from_chars(&chars, 0, 5), "a\u{e9}\u{1f600}/b");
    assert_eq!(from_chars(&chars, 1, 3), "\u{e9}\u{1f600}");
    assert_eq!(from_chars(&chars, 2, 2), "");
    assert_eq!(to_chars(""), Vec::<char>::new());
    assert_eq!(light_letter::text::joined("ab", "cd"), "abcd");
    assert_eq!(light_letter::text::joined("", ""), "");
    assert_eq!(index_of(&chars, '/', 0), 3);
    assert_eq!(index_of(&chars, '/', 3), 3);
    assert_eq!(index_of(&chars, '/', 4), 5);
    assert_eq!(index_of(&chars, 'x', 0), 5);
    assert_eq!(index_of(&chars, 'a', 5), 5);
}

#[test]
fn texts_are_equal_character_by_character() {
    assert!(str_eq("", ""));
    assert!(str_eq("abc", "abc"));
    assert!(str_eq("\u{e9}", "\u{e9}"));
    assert!(!str_eq("abc", "abd"));
    assert!(!str_eq("abc", "ab"));
    assert!(!str_eq("e\u{301}", "\u{e9}"));
    assert!(!str_eq("A", "a"));
}

#[test]
fn digits_are_lower_case() {
    let all: String = (0..16).map(digit_char).collect();
    assert_eq!(all, "0123456789abcdef");
}

#[test]
fn copies_hold_what_was_copied() {
    let list = vec!["a".to_string(), "".to_string(), "\u{e9}".to_string()];
    assert_eq!(copy_strings(&list), list);
    assert_eq!(copy_strings(&Vec::new()), Vec::<String>::new());
    assert_eq!(copy_opt_string(&Some("x".to_string())), Some("x".to_string()));
    assert_eq!(copy_opt_string(&None), None);
    let site = SiteConfig {
        name: "one".to_string(),
        site_type: "blog".to_string(),
        database: Some("db".to_string()),
        host: "one.example".to_string(),
        alias: Some(vec!["www.one.example".to_string()]),
        theme: None,
    };
    assert_eq!(site.duplicate(), site);
    assert!(contains_str(&list, "\u{e9}"));
    assert!(contains_str(&list, ""));
    assert!(!contains_str(&list, "b"));
    assert!(!contains_str(&Vec::new(), ""));
    assert_eq!(RouteError::CaptureConflict("/a/{x}".to_string()).route(), "/a/{x}");
}
