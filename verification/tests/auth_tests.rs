use apiclient_rs::{ApiKeyAuth, AuthStrategy, BearerAuth, HeaderAuth};

#[test]
fn header_auth_describe_masks_the_key() {
    let secret = "SECRET-REDACTED";
    let auth = AuthStrategy::Header(HeaderAuth::new("x-auth".to_string(), secret.to_string()));
    let shown = auth.describe();
    assert!(!shown.contains(secret));
    assert!(shown.contains("x-auth"));
    assert!(shown.contains("***"));
}

#[test]
fn bearer_auth_describe_masks_the_token() {
    let secret = "SECRET-REDACTED";
    let auth = AuthStrategy::Bearer(BearerAuth::new(secret.to_string()));
    let shown = auth.describe();
    assert!(!shown.contains(secret));
    assert_eq!(shown, "BearerAuth { token: \"***\" }");
}

#[test]
fn api_key_auth_describe_masks_the_key() {
    let secret = "SECRET-REDACTED";
    let auth = AuthStrategy::ApiKey(ApiKeyAuth::new(secret.to_string()));
    let shown = auth.describe();
    assert!(!shown.contains(secret));
    assert_eq!(shown, "ApiKeyAuth { api_key: \"***\" }");
}

#[test]
fn describe_is_the_same_whatever_the_secret() {
    let a = AuthStrategy::Bearer(BearerAuth::new("one".to_string()));
    let b = AuthStrategy::Bearer(BearerAuth::new("another".to_string()));
    assert_eq!(a.describe(), b.describe());
    let c = AuthStrategy::Header(HeaderAuth::new("x-k".to_string(), "one".to_string()));
    let d = AuthStrategy::Header(HeaderAuth::new("x-k".to_string(), "another".to_string()));
    assert_eq!(c.describe(), d.describe());
}

#[test]
fn header_pairs_carry_the_credentials() {
    let h = AuthStrategy::Header(HeaderAuth::new("x-auth".to_string(), "k1".to_string()));
    assert_eq!(h.header_pair(), ("x-auth".to_string(), "k1".to_string()));
    let b = AuthStrategy::Bearer(BearerAuth::new("t1".to_string()));
    assert_eq!(b.header_pair(), ("authorization".to_string(), "Bearer t1".to_string()));
    let k = AuthStrategy::ApiKey(ApiKeyAuth::new("k2".to_string()));
    assert_eq!(k.header_pair(), ("x-api-key".to_string(), "k2".to_string()));
}
