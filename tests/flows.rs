use rust_admin::auth::{
    login_api, logout_api, protected_api, refresh_token_api, AuthenticatedUser, UserRecord, UserStore,
};
use rust_admin::envelope::SameSite;
use rust_admin::token::{TokenCodec, TokenError, ACCESS_TOKEN_MINUTES};

const NOW: u64 = 1_700_000_000;

fn codec() -> TokenCodec {
    TokenCodec::new(vec![42u8; 64])
}

fn refresh_cookie_value(store: &UserStore, codec: &TokenCodec, id: &str, secret: &str) -> String {
    let r = login_api(store, codec, id, secret, NOW);
    assert_eq!(r.body.code, 200);
    r.cookies[0].value.clone()
}

#[test]
fn admin_login_succeeds_with_role() {
    let store = UserStore::builtin();
    let c = codec();
    let r = login_api(&store, &c, "admin", "password123", NOW);
    assert_eq!(r.body.code, 200);
    assert_eq!(r.body.status(), 200);
    assert_eq!(r.body.message, "login succeeded");
    let d = r.body.data.as_ref().unwrap();
    assert_eq!(d.role, "superadministrator");
    assert_eq!(d.id, 1);
    assert_eq!(d.name, "admin");
    assert_eq!(d.avatar, "");
    assert!(!d.access_token.is_empty());
    assert!(r.finalized);
    assert_eq!(r.cookies.len(), 1);
    let cookie = &r.cookies[0];
    assert_eq!(cookie.name, "refresh_token");
    assert!(cookie.http_only);
    assert_eq!(cookie.path, "/");
    assert_eq!(cookie.same_site, SameSite::Strict);
    assert_eq!(cookie.max_age_seconds, 7 * 24 * 60 * 60);
    assert_ne!(cookie.value, d.access_token);
}

#[test]
fn login_tokens_carry_subject_and_lifetimes() {
    let store = UserStore::builtin();
    let c = codec();
    let r = login_api(&store, &c, "user", "password456", NOW);
    let d = r.body.data.as_ref().unwrap();
    assert_eq!(d.role, "user");
    let access = c.validate(&d.access_token, NOW).unwrap();
    assert_eq!(access.subject_id, 2);
    assert_eq!(access.subject_name, "user");
    assert_eq!(access.issued_at, NOW);
    assert_eq!(access.expires_at, NOW + 3600);
    let refresh = c.validate(&r.cookies[0].value, NOW).unwrap();
    assert_eq!(refresh.subject_id, 2);
    assert_eq!(refresh.expires_at, NOW + 7 * 24 * 3600);
}

#[test]
fn admin_login_with_wrong_secret_fails() {
    let store = UserStore::builtin();
    let r = login_api(&store, &codec(), "admin", "wrong", NOW);
    assert_eq!(r.body.code, 233);
    assert_eq!(r.body.message, "invalid credentials");
    assert!(r.body.data.is_none());
    assert!(r.cookies.is_empty());
}

#[test]
fn unknown_identifier_and_wrong_secret_look_the_same() {
    let store = UserStore::builtin();
    let a = login_api(&store, &codec(), "nobody", "password123", NOW);
    let b = login_api(&store, &codec(), "admin", "password456", NOW);
    assert_eq!(a.body.code, 233);
    assert_eq!(b.body.code, 233);
    assert_eq!(a.body.message, b.body.message);
}

#[test]
fn empty_input_is_rejected_before_lookup() {
    let store = UserStore::builtin();
    let empty = UserStore { records: Vec::new() };
    for (id, secret) in [("", "password123"), ("admin", ""), ("", "")] {
        for s in [&store, &empty] {
            let r = login_api(s, &codec(), id, secret, NOW);
            assert_eq!(r.body.code, 233);
            assert_eq!(r.body.message, "credentials required");
            assert!(r.cookies.is_empty());
        }
    }
}

#[test]
fn login_with_unusable_key_is_a_fatal_error() {
    let store = UserStore::builtin();
    let bad = TokenCodec::new(vec![1u8; 10]);
    let r = login_api(&store, &bad, "admin", "password123", NOW);
    assert_eq!(r.body.code, 500);
    assert_eq!(r.body.message, "token generation failed");
    assert!(r.body.data.is_none());
    assert!(r.cookies.is_empty());
}

#[test]
fn refresh_without_cookie_fails() {
    let r = refresh_token_api(&codec(), None, NOW);
    assert_eq!(r.body.code, 233);
    assert_eq!(r.body.message, "refresh token not found");
    assert!(r.body.data.is_none());
}

#[test]
fn refresh_keeps_the_subject() {
    let store = UserStore::builtin();
    let c = codec();
    let token = refresh_cookie_value(&store, &c, "admin", "password123");
    let later = NOW + 3 * 24 * 3600;
    let r = refresh_token_api(&c, Some(&token), later);
    assert_eq!(r.body.code, 200);
    assert_eq!(r.body.message, "token refreshed");
    assert!(r.cookies.is_empty());
    let fresh = r.body.data.as_ref().unwrap();
    let claims = c.validate(&fresh.access_token, later).unwrap();
    assert_eq!(claims.subject_id, 1);
    assert_eq!(claims.subject_name, "admin");
    assert_eq!(claims.expires_at, later + ACCESS_TOKEN_MINUTES * 60);
}

#[test]
fn refresh_with_tampered_token_fails() {
    let store = UserStore::builtin();
    let c = codec();
    let token = refresh_cookie_value(&store, &c, "admin", "password123");
    let tampered = token.replacen("0000000001", "0000000002", 1);
    assert_ne!(tampered, token);
    let r = refresh_token_api(&c, Some(&tampered), NOW);
    assert_eq!(r.body.code, 233);
    assert_eq!(r.body.message, "token invalid or expired");
    let other = TokenCodec::new(vec![43u8; 64]);
    let r = refresh_token_api(&other, Some(&token), NOW);
    assert_eq!(r.body.code, 233);
}

#[test]
fn refresh_with_expired_token_fails() {
    let store = UserStore::builtin();
    let c = codec();
    let token = refresh_cookie_value(&store, &c, "admin", "password123");
    let r = refresh_token_api(&c, Some(&token), NOW + 7 * 24 * 3600);
    assert_eq!(r.body.code, 233);
    assert_eq!(r.body.message, "token invalid or expired");
}

#[test]
fn logout_clears_the_cookie() {
    let r = logout_api();
    assert_eq!(r.body.code, 200);
    assert_eq!(r.body.message, "logged out");
    assert!(r.body.data.is_none());
    assert_eq!(r.cookies.len(), 1);
    assert_eq!(r.cookies[0].name, "refresh_token");
    assert_eq!(r.cookies[0].value, "");
    assert_eq!(r.cookies[0].max_age_seconds, 0);
    assert!(r.cookies[0].http_only);
}

#[test]
fn protected_echoes_the_identity() {
    let r = protected_api(AuthenticatedUser { id: 7, name: "ann".to_string() });
    assert_eq!(r.body.code, 200);
    let u = r.body.data.unwrap();
    assert_eq!(u.id, 7);
    assert_eq!(u.name, "ann");
}

#[test]
fn store_lookup_and_verify() {
    let store = UserStore::builtin();
    assert_eq!(store.find_by_identifier("user").unwrap().id, 2);
    assert!(store.find_by_identifier("Admin").is_none());
    assert_eq!(store.verify("admin", "password123").unwrap().id, 1);
    assert!(store.verify("admin", "password456").is_none());
    assert!(store.verify("ghost", "password123").is_none());
    let custom = UserStore {
        records: vec![UserRecord {
            identifier: "x".to_string(),
            secret: "y".to_string(),
            id: 9,
            role: "r".to_string(),
        }],
    };
    assert_eq!(custom.verify("x", "y").unwrap().role, "r");
}

#[test]
fn token_error_is_not_leaked_by_refresh() {
    let c = codec();
    assert_eq!(c.validate("garbage", NOW).err(), Some(TokenError::InvalidSignature));
}
