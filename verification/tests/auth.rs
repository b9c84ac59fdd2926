use stalwart_mcp::auth::{
    authorize, bind_is_local, generate_secret, parse_scopes, secret_from_draws, token_secret,
    AuthDecision, Claims,
};
use stalwart_mcp::config::AuthConfig;

fn claims(scopes: &[&str]) -> Claims {
    Claims {
        sub: "*".to_string(),
        scopes: scopes.iter().map(|s| s.to_string()).collect(),
        exp: 0,
        iat: 0,
    }
}

#[test]
fn scope_matches_exactly_or_by_wildcard() {
    let c = claims(&["mail:read", "mail:modify"]);
    assert!(c.has_scope("mail:read"));
    assert!(!c.has_scope("mail:send"));
    assert!(!c.has_scope("mail"));
    let w = claims(&["*"]);
    assert!(w.has_scope("mail:send"));
    assert!(w.has_scope("anything"));
    assert!(!claims(&[]).has_scope("mail:read"));
}

#[test]
fn issued_claims_expire_after_the_given_days() {
    let scopes = vec!["mail:read".to_string()];
    let c = Claims::issue("work", &scopes, 365, 1_700_000_000);
    assert_eq!(c.sub, "work");
    assert_eq!(c.scopes, scopes);
    assert_eq!(c.iat, 1_700_000_000);
    assert_eq!(c.exp, 1_700_000_000 + 365 * 86400);
}

#[test]
fn secret_characters_are_digits_then_letters() {
    assert_eq!(secret_from_draws(&[0, 9, 10, 35]), "09az");
    assert_eq!(secret_from_draws(&[]), "");
}

#[test]
fn generated_secret_shape() {
    let s = generate_secret();
    assert_eq!(s.chars().count(), 64);
    assert!(s.chars().all(|c| c.is_ascii_digit() || c.is_ascii_lowercase()));
    assert_ne!(generate_secret(), s);
}

#[test]
fn loopback_requests_need_no_token() {
    assert_eq!(authorize(true, "", None), AuthDecision::Allow);
    assert_eq!(authorize(true, "secret", Some("garbage")), AuthDecision::Allow);
}

#[test]
fn remote_requests_without_secret_are_rejected() {
    assert_eq!(authorize(false, "", Some("Bearer abc")), AuthDecision::Reject);
}

#[test]
fn remote_requests_need_bearer_token() {
    assert_eq!(authorize(false, "s", None), AuthDecision::Reject);
    assert_eq!(authorize(false, "s", Some("Basic abc")), AuthDecision::Reject);
    assert_eq!(authorize(false, "s", Some("bearer abc")), AuthDecision::Reject);
    assert_eq!(
        authorize(false, "s", Some("Bearer abc.def")),
        AuthDecision::VerifyToken("abc.def".to_string())
    );
    assert_eq!(authorize(false, "s", Some("Bearer ")), AuthDecision::VerifyToken(String::new()));
}

#[test]
fn local_bind_addresses() {
    assert!(bind_is_local("127.0.0.1:3000"));
    assert!(bind_is_local("localhost:8080"));
    assert!(!bind_is_local("0.0.0.0:3000"));
    assert!(!bind_is_local("[::1]:3000"));
}

#[test]
fn scopes_are_split_and_trimmed() {
    assert_eq!(parse_scopes("mail:read, mail:modify ,mail:send"), vec!["mail:read", "mail:modify", "mail:send"]);
    assert_eq!(parse_scopes("*"), vec!["*"]);
    assert_eq!(parse_scopes(""), vec![""]);
    assert_eq!(parse_scopes("a,,b"), vec!["a", "", "b"]);
    assert_eq!(parse_scopes("\u{3000}a\t, b\u{a0}"), vec!["a", "b"]);
}

#[test]
fn configured_secret_is_kept() {
    let (s, generated) = token_secret(&AuthConfig { secret: Some("abc".to_string()) });
    assert_eq!(s, "abc");
    assert!(!generated);
    let (s, generated) = token_secret(&AuthConfig::default());
    assert!(generated);
    assert_eq!(s.len(), 64);
}
