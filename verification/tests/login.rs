use ratlog::login::{accept_token, bearer, endpoint, share_stored, token_confirmed, ShareLogResponse};

#[test]
fn tokens_are_trimmed() {
    assert_eq!(accept_token("abc123"), Some("abc123".to_string()));
    assert_eq!(accept_token("  abc 123 \n"), Some("abc 123".to_string()));
    assert_eq!(accept_token("\ttoken\r\n"), Some("token".to_string()));
}

#[test]
fn blank_tokens_are_refused() {
    assert_eq!(accept_token(""), None);
    assert_eq!(accept_token("   "), None);
    assert_eq!(accept_token("\n\t \r\n"), None);
}

#[test]
fn endpoints_drop_trailing_slashes_of_the_base() {
    assert_eq!(endpoint("https://ratlog.info", "/api/user"), "https://ratlog.info/api/user");
    assert_eq!(endpoint("https://ratlog.info/", "/api/user"), "https://ratlog.info/api/user");
    assert_eq!(endpoint("http://localhost:8000///", "/api/logs"), "http://localhost:8000/api/logs");
    assert_eq!(endpoint("", "/cli-login"), "/cli-login");
    assert_eq!(endpoint("///", "/cli-login"), "/cli-login");
    assert_eq!(endpoint("a/b", "/c"), "a/b/c");
}

#[test]
fn bearer_header() {
    assert_eq!(bearer("tok"), "Bearer tok");
    assert_eq!(bearer(""), "Bearer ");
}

#[test]
fn status_codes() {
    assert!(token_confirmed(200));
    assert!(token_confirmed(204));
    assert!(token_confirmed(299));
    assert!(!token_confirmed(199));
    assert!(!token_confirmed(300));
    assert!(!token_confirmed(401));
    assert!(share_stored(201));
    assert!(!share_stored(200));
    assert!(!share_stored(202));
    assert!(!share_stored(500));
}

#[test]
fn share_response_holds_what_the_service_answers() {
    let response = ShareLogResponse {
        id: "abc".to_string(),
        url: "https://ratlog.info/l/abc".to_string(),
        view_url: None,
        delete_token: Some("del".to_string()),
        expires_at: None,
        line_count: Some(12),
    };
    assert_eq!(response.id, "abc");
    assert_eq!(response.line_count, Some(12));
}

/// The characters with the Unicode property White_Space.
fn is_white_space(c: char) -> bool {
    let n = c as u32;
    (0x09..=0x0d).contains(&n)
        || n == 0x20
        || n == 0x85
        || n == 0xa0
        || n == 0x1680
        || (0x2000..=0x200a).contains(&n)
        || n == 0x2028
        || n == 0x2029
        || n == 0x202f
        || n == 0x205f
        || n == 0x3000
}

#[test]
fn white_space_is_what_the_standard_library_takes_for_it() {
    for n in 0..=0x10ffffu32 {
        if let Some(c) = char::from_u32(n) {
            assert_eq!(c.is_whitespace(), is_white_space(c), "U+{:04X}", n);
        }
    }
}

#[test]
fn tokens_lose_every_white_space_character_around_them() {
    for n in 0..=0x10ffffu32 {
        if let Some(c) = char::from_u32(n) {
            let raw = format!("{}{}to ken{}{}", c, c, c, c);
            let token = accept_token(&raw);
            if is_white_space(c) {
                assert_eq!(token.as_deref(), Some("to ken"), "U+{:04X}", n);
                assert_eq!(accept_token(&c.to_string()), None);
            } else {
                assert_eq!(token.as_deref(), Some(raw.as_str()), "U+{:04X}", n);
            }
        }
    }
}
