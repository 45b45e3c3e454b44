use light_letter::document::read_prerendered_data;
use light_letter::hash::sha256_hex;
use light_letter::http::{file_path_allowed, parse_accept_encoding, session_cookie};
use light_letter::names::{account_id_is_legal, database_name_is_legal, site_name_is_legal};
use light_letter::route::split_path;
use light_letter::rpc::{normalize_id, LoginReq};
use light_letter::text::request_text;

/// Every text over `alphabet` of at most `max` characters.
fn texts(alphabet: &[char], max: usize) -> Vec<String> {
    let mut all = vec![String::new()];
    let mut last = vec![String::new()];
    for _ in 0..max {
        let mut next = Vec::new();
        for t in last.iter() {
            for c in alphabet.iter() {
                let mut s = t.clone();
                s.push(*c);
                next.push(s);
            }
        }
        all.extend(next.iter().cloned());
        last = next;
    }
    all
}

fn is_letter(c: char) -> bool {
    ('a'..='z').contains(&c) || ('A'..='Z').contains(&c)
}

fn is_digit(c: char) -> bool {
    ('0'..='9').contains(&c)
}

fn is_name_char(c: char) -> bool {
    c == '-' || c == '_' || is_digit(c) || is_letter(c)
}

#[test]
fn site_names_are_what_their_shape_says() {
    for t in texts(&['a', 'Z', '0', '_', '-', ' ', '\n', '\u{e9}', '$'], 4) {
        let expected = !t.is_empty() && t.chars().all(is_name_char);
        assert_eq!(site_name_is_legal(&t), expected, "{:?}", t);
    }
}

#[test]
fn database_names_are_what_their_shape_says() {
    for t in texts(&['a', 'Z', '0', '_', '-', ' ', '\n', '\u{e9}', '*'], 4) {
        let mut chars = t.chars();
        let expected = match chars.next() {
            Some(first) => {
                (first == '_' || is_letter(first))
                    && chars.all(|c| c == '_' || is_letter(c) || is_digit(c))
            }
            None => false,
        };
        assert_eq!(database_name_is_legal(&t), expected, "{:?}", t);
    }
}

#[test]
fn account_ids_are_what_their_shape_says() {
    for t in texts(&['a', 'Z', '0', '-', ' ', '{'], 5) {
        let n = t.chars().count();
        let expected = (4..=32).contains(&n) && t.chars().all(is_name_char);
        assert_eq!(account_id_is_legal(&t), expected, "{:?}", t);
        let id = normalize_id(&t);
        assert_eq!(id.is_some(), expected, "{:?}", t);
        if let Some(id) = id {
            assert_eq!(id, t.to_lowercase());
        }
    }
    for n in 30..36 {
        assert_eq!(account_id_is_legal(&"x".repeat(n)), n <= 32);
        assert_eq!(account_id_is_legal(&format!("{} ", "x".repeat(n - 1))), false);
    }
}

fn pieces(path: &str) -> Vec<&str> {
    path.split('/').filter(|p| !p.is_empty()).collect()
}

#[test]
fn paths_are_plain_where_their_pieces_say_so() {
    for t in texts(&['/', '.', 'a'], 8) {
        let p = pieces(&t);
        let expected = !t.starts_with('/')
            && p.iter().all(|piece| *piece != "..")
            && p.first().map(|piece| *piece != ".").unwrap_or(true);
        assert_eq!(file_path_allowed(&t), expected, "{:?}", t);
    }
}

#[test]
fn paths_split_at_their_slashes() {
    for t in texts(&['/', 'a', '{', '\u{e9}'], 6) {
        let expected: Vec<String> = pieces(&t).into_iter().map(|p| p.to_string()).collect();
        assert_eq!(split_path(&t), expected, "{:?}", t);
    }
}

#[test]
fn lengths_are_counted_in_characters() {
    for n in 0..40 {
        let account = "\u{e9}".repeat(n);
        let req = LoginReq { account, pwd: String::new() };
        assert_eq!(req.validate().is_ok(), (4..=32).contains(&n), "{}", n);
    }
    for n in 60..70 {
        let req = LoginReq { account: "abcd".to_string(), pwd: "\u{1f600}".repeat(n) };
        assert_eq!(req.validate().is_ok(), n <= 64, "{}", n);
    }
}

#[test]
fn gzip_is_named_by_an_item_up_to_its_semicolon() {
    for t in texts(&['g', 'z', 'i', 'p', ',', ';', ' '], 6) {
        let expected = t.split(',').any(|item| item.trim().splitn(2, ';').next() == Some("gzip"));
        assert_eq!(parse_accept_encoding(&t) == "gzip", expected, "{:?}", t);
        assert!(parse_accept_encoding(&t) == "gzip" || parse_accept_encoding(&t).is_empty());
    }
    for t in ["gzip", " gzip", "a,gzip;q=1", "\u{a0}gzip\u{2003}", "a, gzip ,b"] {
        assert_eq!(parse_accept_encoding(t), "gzip", "{:?}", t);
    }
}

#[test]
fn cookies_are_items_between_semicolons() {
    let name = "light-letter-session";
    for a in ["", " ", "x=1", "x", "="] {
        for b in ["", "v", "a=b", " v "] {
            for c in ["", " ", "y=2"] {
                let header = format!("{};{}={};{}", a, name, b, c);
                assert_eq!(session_cookie(&header), Some(b.trim_end().to_string()), "{:?}", header);
                let header = format!("{}; {}={}", a, name, b);
                assert_eq!(session_cookie(&header), Some(b.trim_end().to_string()), "{:?}", header);
            }
        }
    }
}

#[test]
fn texts_are_read_from_valid_utf8_only() {
    for bytes in [
        vec![],
        vec![0x41],
        vec![0xc3, 0xa9],
        vec![0xe6, 0x9c, 0x80],
        vec![0xf0, 0x9f, 0x98, 0x80],
        vec![0x80],
        vec![0xc3],
        vec![0xc0, 0x80],
        vec![0xed, 0xa0, 0x80],
        vec![0xf4, 0x90, 0x80, 0x80],
        vec![0x41, 0xff, 0x42],
    ] {
        let expected = String::from_utf8(bytes.clone()).unwrap_or_default();
        assert_eq!(request_text(bytes), expected);
    }
}

#[test]
fn digests_and_base64_are_the_standard_ones() {
    assert_eq!(
        sha256_hex(""),
        "e3b0c44298fc1c149afbf4c8996fb92427ae41e4649b934ca495991b7852b855"
    );
    assert_eq!(read_prerendered_data(""), Some(Vec::new()));
    assert_eq!(read_prerendered_data("aGk="), Some(b"hi".to_vec()));
    assert_eq!(read_prerendered_data("aGk"), None);
    assert_eq!(read_prerendered_data("a Gk="), None);
}

#[test]
fn a_path_that_is_allowed_is_plain_whatever_it_holds() {
    for t in texts(&['/', '.', 'a', '\\', ':'], 6) {
        let p = pieces(&t);
        let plain = !t.starts_with('/')
            && p.iter().all(|piece| *piece != "..")
            && p.first().map(|piece| *piece != ".").unwrap_or(true);
        let portable = !t.contains('\\') && !t.contains(':');
        let allowed = file_path_allowed(&t);
        assert!(!allowed || plain, "{:?}", t);
        assert!(!(plain && portable) || allowed, "{:?}", t);
    }
}

fn has_white_space_property(c: char) -> bool {
    matches!(
        c,
        '\u{9}'..='\u{d}'
            | ' '
            | '\u{85}'
            | '\u{a0}'
            | '\u{1680}'
            | '\u{2000}'..='\u{200a}'
            | '\u{2028}'
            | '\u{2029}'
            | '\u{202f}'
            | '\u{205f}'
            | '\u{3000}'
    )
}

#[test]
fn white_space_is_the_25_characters_with_the_property() {
    let mut count = 0;
    for n in 0..=0x10ffffu32 {
        if let Some(c) = char::from_u32(n) {
            assert_eq!(c.is_whitespace(), has_white_space_property(c), "{:x}", n);
            let header = format!("{}gzip{}", c, c);
            if has_white_space_property(c) {
                count += 1;
                assert_eq!(parse_accept_encoding(&header), "gzip", "{:x}", n);
            } else if n < 0x3100 && c != ',' && c != ';' {
                assert_eq!(parse_accept_encoding(&header), "", "{:x}", n);
            }
        }
    }
    assert_eq!(count, 25);
}

fn replaced_from_the_front(s: &[char], from: &[char], to: &[char]) -> Vec<char> {
    if from.is_empty() || s.len() < from.len() {
        s.to_vec()
    } else if &s[..from.len()] == from {
        let mut r = to.to_vec();
        r.extend(replaced_from_the_front(&s[from.len()..], from, to));
        r
    } else {
        let mut r = vec![s[0]];
        r.extend(replaced_from_the_front(&s[1..], from, to));
        r
    }
}

#[test]
fn replacing_reads_from_the_front() {
    let froms = ["+0000", "aa", "a", "+0+", "\u{e9}a"];
    for t in texts(&['+', '0', 'a', '\u{e9}'], 6) {
        let chars: Vec<char> = t.chars().collect();
        for from in froms.iter() {
            let f: Vec<char> = from.chars().collect();
            let expected: String =
                replaced_from_the_front(&chars, &f, &['G', 'M', 'T']).into_iter().collect();
            assert_eq!(t.replace(from, "GMT"), expected, "{:?} {:?}", t, from);
        }
    }
    assert_eq!(
        light_letter::http::last_modified(0),
        Some("Thu, 1 Jan 1970 00:00:00 +0000".replace("+0000", "GMT"))
    );
}
