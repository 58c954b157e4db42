use base64::Engine;
use filest::auth::{auth_middleware, credentials_accepted, validate_auth, AuthDecision};
use filest::models::AppState;

fn encode(text: &str) -> String {
    base64::engine::general_purpose::STANDARD.encode(text)
}

fn state() -> AppState {
    AppState { root_dir: vec![], username: "admin".to_string(), password: "admin123".to_string() }
}

#[test]
fn validate_auth_accepts_the_account() {
    assert_eq!(validate_auth(&encode("admin:admin123"), "admin", "admin123"), Some(true));
    assert_eq!(validate_auth("YWRtaW46YWRtaW4xMjM=", "admin", "admin123"), Some(true));
}

#[test]
fn validate_auth_refuses_another_account() {
    assert_eq!(validate_auth(&encode("admin:wrong"), "admin", "admin123"), Some(false));
    assert_eq!(validate_auth(&encode("root:admin123"), "admin", "admin123"), Some(false));
    assert_eq!(validate_auth(&encode("admin:admin1234"), "admin", "admin123"), Some(false));
    assert_eq!(validate_auth(&encode("admin:admin12"), "admin", "admin123"), Some(false));
}

#[test]
fn validate_auth_refuses_what_is_not_base64() {
    assert_eq!(validate_auth("admin:admin123", "admin", "admin123"), Some(false));
    assert_eq!(validate_auth("!!!", "admin", "admin123"), Some(false));
    // Without its padding the encoding is not accepted.
    assert_eq!(validate_auth("YWRtaW46YWRtaW4xMjM", "admin", "admin123"), Some(false));
}

#[test]
fn validate_auth_refuses_a_credential_without_a_colon() {
    assert_eq!(validate_auth(&encode("adminadmin123"), "admin", "admin123"), Some(false));
    assert_eq!(validate_auth(&encode(""), "", ""), Some(false));
}

#[test]
fn validate_auth_splits_at_the_first_colon() {
    assert_eq!(validate_auth(&encode("admin:pa:ss"), "admin", "pa:ss"), Some(true));
    assert_eq!(validate_auth(&encode("ad:min:pass"), "ad:min", "pass"), Some(false));
    assert_eq!(validate_auth(&encode(":"), "", ""), Some(true));
    assert_eq!(validate_auth(&encode(":p"), "", "p"), Some(true));
    assert_eq!(validate_auth(&encode("u:"), "u", ""), Some(true));
}

#[test]
fn validate_auth_compares_characters_beyond_ascii() {
    assert_eq!(validate_auth(&encode("管理员:päß"), "管理员", "päß"), Some(true));
    assert_eq!(validate_auth(&encode("管理员:päß"), "管理员", "pass"), Some(false));
}

#[test]
fn credentials_that_are_not_text_are_refused() {
    assert!(!credentials_accepted(Some(vec![0xff, b':', b'x']), "\u{fffd}", "x"));
    assert!(!credentials_accepted(None, "admin", "admin123"));
    assert!(credentials_accepted(Some(b"admin:admin123".to_vec()), "admin", "admin123"));
    let raw = base64::engine::general_purpose::STANDARD.encode([0xffu8, b':', b'x']);
    assert_eq!(validate_auth(&raw, "\u{fffd}", "x"), Some(false));
}

#[test]
fn request_without_a_header_is_challenged() {
    assert_eq!(auth_middleware(&state(), None), AuthDecision::Denied { challenge: true });
}

#[test]
fn request_with_the_account_is_let_through() {
    let header = format!("Basic {}", encode("admin:admin123"));
    assert_eq!(auth_middleware(&state(), Some(&header)), AuthDecision::Granted);
}

#[test]
fn request_with_a_wrong_account_is_refused_without_a_challenge() {
    let header = format!("Basic {}", encode("admin:nope"));
    assert_eq!(auth_middleware(&state(), Some(&header)), AuthDecision::Denied { challenge: false });
    assert_eq!(
        auth_middleware(&state(), Some("Basic ???")),
        AuthDecision::Denied { challenge: false }
    );
    assert_eq!(auth_middleware(&state(), Some("Basic ")), AuthDecision::Denied { challenge: false });
}

#[test]
fn request_with_another_scheme_is_refused_without_a_challenge() {
    let good = encode("admin:admin123");
    for header in [
        format!("Bearer {}", good),
        format!("basic {}", good),
        format!("Basic{}", good),
        format!(" Basic {}", good),
        good.clone(),
        String::new(),
    ] {
        assert_eq!(
            auth_middleware(&state(), Some(&header)),
            AuthDecision::Denied { challenge: false },
            "{}",
            header
        );
    }
}

#[test]
fn a_repeated_scheme_word_is_dropped_as_often_as_it_stands() {
    let header = format!("Basic Basic Basic {}", encode("admin:admin123"));
    assert_eq!(auth_middleware(&state(), Some(&header)), AuthDecision::Granted);
}
