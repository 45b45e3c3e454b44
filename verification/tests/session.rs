use light_letter::hash::sha256_hex;
use light_letter::session::{
    current_ts, format_salt, hash_pwd, session_id_is_legal, timestamp_of, LoginUser, Session,
    SessionSig, SESSION_TIMEOUT,
};

#[test]
fn digest_of_abc() {
    assert_eq!(
        sha256_hex("abc"),
        "ba7816bf8f01cfea414140de5dae2223b00361a396177a9cb410ff61f20015ad"
    );
}

#[test]
fn signature_is_the_digest_of_salt_expiry_content_and_secret() {
    assert_eq!(
        hash_pwd("[1, 2]", 86405, "{}", "secret"),
        "4b137059bfb0d918fd7462c20407fba59355ff56902f3059d1d039d798fea694"
    );
    assert_ne!(hash_pwd("[1, 2]", 86405, "{}", "other"), hash_pwd("[1, 2]", 86405, "{}", "secret"));
}

#[test]
fn a_token_lasts_for_the_timeout() {
    assert_eq!(SESSION_TIMEOUT, 86400);
    let token = SessionSig::sign("[1, 2]".to_string(), 5, "{}".to_string(), "secret");
    assert_eq!(token.expire_ts, 86405);
    assert_eq!(token.unique_salt, "[1, 2]");
    assert_eq!(token.content_json, "{}");
    assert_eq!(token.sig, "4b137059bfb0d918fd7462c20407fba59355ff56902f3059d1d039d798fea694");
    assert_eq!(token.verify(5, "secret"), Some("{}".to_string()));
    assert_eq!(token.verify(86404, "secret"), Some("{}".to_string()));
    assert_eq!(token.verify(86405, "secret"), None);
    assert_eq!(token.verify(86406, "secret"), None);
}

#[test]
fn a_changed_token_is_refused() {
    let token = SessionSig::sign("salt".to_string(), 100, "body".to_string(), "secret");
    assert_eq!(token.verify(100, "secret"), Some("body".to_string()));
    assert_eq!(token.verify(100, "wrong"), None);
    let mut sig: Vec<char> = token.sig.chars().collect();
    sig[0] = if sig[0] == '0' { '1' } else { '0' };
    let flipped = SessionSig { sig: sig.into_iter().collect(), ..token.clone() };
    assert_eq!(flipped.verify(100, "secret"), None);
    let other_body = SessionSig { content_json: "bodx".to_string(), ..token.clone() };
    assert_eq!(other_body.verify(100, "secret"), None);
    let later = SessionSig { expire_ts: token.expire_ts + 1, ..token.clone() };
    assert_eq!(later.verify(100, "secret"), None);
    let other_salt = SessionSig { unique_salt: "salu".to_string(), ..token };
    assert_eq!(other_salt.verify(100, "secret"), None);
}

#[test]
fn a_minted_token_parses_back() {
    let (id, token) =
        Session::generate_sig_str("{\"a\":1}".to_string(), "secret").expect("the clock is in range");
    assert_eq!(id.len(), 36);
    assert!(session_id_is_legal(&id));
    assert!(id.chars().all(|c| c == '-' || c.is_ascii_digit() || ('a'..='f').contains(&c)));
    assert_eq!(token.content_json, "{\"a\":1}");
    assert!(token.unique_salt.starts_with('['));
    assert!(token.unique_salt.ends_with(']'));
    assert_eq!(token.unique_salt.split(", ").count(), 8);
    assert!(token.expire_ts >= SESSION_TIMEOUT);
    assert_eq!(
        Session::parse_sig_str(Some(token.clone()), "secret"),
        Some("{\"a\":1}".to_string())
    );
    assert_eq!(Session::parse_sig_str(Some(token), "not the secret"), None);
    assert_eq!(Session::parse_sig_str(None, "secret"), None);
}

#[test]
fn an_expired_token_does_not_parse() {
    let token = SessionSig::sign("salt".to_string(), 0, "body".to_string(), "secret");
    assert_eq!(Session::parse_sig_str(Some(token), "secret"), None);
}

#[test]
fn two_tokens_for_the_same_session_differ() {
    let (id_a, a) = Session::generate_sig_str("{}".to_string(), "secret").unwrap();
    let (id_b, b) = Session::generate_sig_str("{}".to_string(), "secret").unwrap();
    assert_ne!(id_a, id_b);
    assert_ne!(a, b);
    assert_ne!(a.unique_salt, b.unique_salt);
    let x = SessionSig::sign("s1".to_string(), 7, "{}".to_string(), "k");
    let y = SessionSig::sign("s2".to_string(), 7, "{}".to_string(), "k");
    let z = SessionSig::sign("s1".to_string(), 8, "{}".to_string(), "k");
    assert_ne!(x, y);
    assert_ne!(x, z);
}

#[test]
fn a_salt_is_written_as_a_list_of_hexadecimal_numbers() {
    assert_eq!(format_salt(&vec![0, 1, 15, 16, 255, 171, 9, 10]), "[0, 1, f, 10, ff, ab, 9, a]");
    assert_eq!(format_salt(&vec![]), "[]");
    assert_eq!(format_salt(&vec![7]), "[7]");
    assert_eq!(format!("{:x?}", [0u8, 1, 15, 16, 255, 171, 9, 10]), "[0, 1, f, 10, ff, ab, 9, a]");
}

#[test]
fn the_clock_is_read() {
    let now = current_ts();
    assert!(now > 1_600_000_000);
}

#[test]
fn a_session_is_changed_only_by_writes() {
    let mut s = Session::new();
    assert!(!s.need_update());
    assert_eq!(s.login_user, None);
    assert_eq!(s.login_user(), None);
    s.update();
    assert!(s.need_update());
    let mut s = Session::new();
    s.log_in(LoginUser { id: "abcd".to_string(), name: "Alice".to_string() });
    assert!(s.need_update());
    assert_eq!(s.login_user().map(|u| u.name.clone()), Some("Alice".to_string()));
    let r = Session::restore(true, None);
    assert!(r.need_update());
    assert_eq!(r.login_user, None);
}

#[test]
fn only_ids_of_the_right_shape_name_a_token() {
    assert!(session_id_is_legal("7f6d0f1e-0000-4000-8000-00000000000a"));
    assert!(session_id_is_legal("------------------------------------"));
    assert!(!session_id_is_legal(""));
    assert!(!session_id_is_legal("7f6d0f1e-0000-4000-8000-00000000000"));
    assert!(!session_id_is_legal("7f6d0f1e-0000-4000-8000-00000000000ab"));
    assert!(!session_id_is_legal("7F6D0F1E-0000-4000-8000-00000000000A"));
    assert!(!session_id_is_legal("../../../../../../../../../etc/passwd"));
    assert!(!session_id_is_legal("7f6d0f1e/0000-4000-8000-00000000000a"));
    assert!(!session_id_is_legal("7f6d0f1e-0000-4000-8000-00000000000g"));
}

#[test]
fn seconds_are_cut_down_to_32_bits() {
    assert_eq!(timestamp_of(0), 0);
    assert_eq!(timestamp_of(1_700_000_000), 1_700_000_000);
    assert_eq!(timestamp_of(0xffff_ffff), 0xffff_ffff);
    assert_eq!(timestamp_of(0x1_0000_0000), 0);
    assert_eq!(timestamp_of(0x1_0000_0005), 5);
    assert_eq!(timestamp_of(u64::MAX), 0xffff_ffff);
}

#[test]
fn a_token_is_minted_while_its_expiry_fits() {
    let token = SessionSig::mint(&vec![1, 2], 5, "{}".to_string(), "secret").unwrap();
    assert_eq!(token, SessionSig::sign("[1, 2]".to_string(), 5, "{}".to_string(), "secret"));
    assert_eq!(token.expire_ts, 86405);
    let last = u32::MAX - SESSION_TIMEOUT;
    let token = SessionSig::mint(&vec![0; 8], last, "{}".to_string(), "secret").unwrap();
    assert_eq!(token.expire_ts, u32::MAX);
    assert_eq!(token.unique_salt, "[0, 0, 0, 0, 0, 0, 0, 0]");
    assert_eq!(SessionSig::mint(&vec![0; 8], last + 1, "{}".to_string(), "secret"), None);
    assert_eq!(SessionSig::mint(&vec![0; 8], u32::MAX, "{}".to_string(), "secret"), None);
}

#[test]
fn a_stored_token_is_parsed_at_a_time() {
    let token = SessionSig::mint(&vec![1, 2], 5, "body".to_string(), "secret").unwrap();
    assert_eq!(Session::parse_at(Some(token.clone()), 5, "secret"), Some("body".to_string()));
    assert_eq!(Session::parse_at(Some(token.clone()), 86404, "secret"), Some("body".to_string()));
    assert_eq!(Session::parse_at(Some(token.clone()), 86405, "secret"), None);
    assert_eq!(Session::parse_at(Some(token.clone()), 5, "other"), None);
    assert_eq!(Session::parse_at(None, 5, "secret"), None);
    let forged = SessionSig { content_json: "other body".to_string(), ..token };
    assert_eq!(Session::parse_at(Some(forged), 5, "secret"), None);
}

#[test]
fn salts_of_different_bytes_are_written_differently() {
    let base = vec![0u8, 1, 16, 17, 255, 10, 160, 9];
    let mut seen = vec![format_salt(&base)];
    for place in 0..8 {
        for value in [0u8, 1, 15, 16, 17, 160, 255] {
            let mut other = base.clone();
            if other[place] == value {
                continue;
            }
            other[place] = value;
            let text = format_salt(&other);
            assert_ne!(text, format_salt(&base));
            seen.push(text);
        }
    }
    let n = seen.len();
    seen.sort();
    seen.dedup();
    assert_eq!(seen.len(), n);
    assert_ne!(format_salt(&vec![1, 16, 0, 0, 0, 0, 0, 0]), format_salt(&vec![17, 6, 0, 0, 0, 0, 0, 0]));
}
