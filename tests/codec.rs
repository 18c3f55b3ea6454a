use hmac::Mac;
use rust_admin::envelope::{ApiResponse, Reply, ReplyError, ResponseHandler};
use rust_admin::envelope::{clear_refresh_token_cookie, refresh_token_cookie};
use rust_admin::text::{char_digit, hex_digit_str, parse_fixed_decimal, push_fixed_decimal, push_hex};
use rust_admin::token::{TokenCodec, TokenError};

fn key() -> Vec<u8> {
    (0u8..64).collect()
}

fn reference_tag(key: &[u8], msg: &str) -> String {
    let mut mac = <hmac::Hmac<sha2::Sha256> as hmac::Mac>::new_from_slice(key).unwrap();
    mac.update(msg.as_bytes());
    mac.finalize().into_bytes().iter().map(|b| format!("{:02x}", b)).collect()
}

#[test]
fn issued_token_has_the_documented_layout() {
    let c = TokenCodec::new(key());
    let t = c.issue(1, "admin", 60, 1000).unwrap();
    let claims = "00000000010000000000000000100000000000000000004600admin";
    assert!(t.starts_with(claims));
    assert_eq!(t, format!("{}.{}", claims, reference_tag(&key(), claims)));
    assert_eq!(t.len(), claims.len() + 1 + 64);
}

#[test]
fn issue_then_validate_round_trips() {
    let c = TokenCodec::new(key());
    for (id, name, minutes) in [(0u32, "", 1u64), (4_294_967_295, "a.b.c", 60), (5, "名前", 10080)] {
        let t = c.issue(id, name, minutes, 123).unwrap();
        let v = c.validate(&t, 123).unwrap();
        assert_eq!(v.subject_id, id);
        assert_eq!(v.subject_name, name);
        assert_eq!(v.issued_at, 123);
        assert_eq!(v.expires_at, 123 + minutes * 60);
    }
}

#[test]
fn expired_token_is_classified_as_expired() {
    let c = TokenCodec::new(key());
    let t = c.issue(3, "bob", 1, 500).unwrap();
    assert!(c.validate(&t, 559).is_ok());
    assert_eq!(c.validate(&t, 560).err(), Some(TokenError::Expired));
    assert_eq!(c.validate(&t, u64::MAX).err(), Some(TokenError::Expired));
}

#[test]
fn forged_or_foreign_tokens_are_invalid() {
    let c = TokenCodec::new(key());
    let t = c.issue(3, "bob", 60, 500).unwrap();
    let mut forged = t.clone();
    forged.insert(t.find('.').unwrap(), 'x');
    assert_eq!(c.validate(&forged, 500).err(), Some(TokenError::InvalidSignature));
    let other = TokenCodec::new(vec![9u8; 64]);
    assert_eq!(other.validate(&t, 500).err(), Some(TokenError::InvalidSignature));
    assert_eq!(c.validate("", 500).err(), Some(TokenError::InvalidSignature));
    let short = TokenCodec::new(vec![9u8; 63]);
    assert_eq!(short.validate(&t, 500).err(), Some(TokenError::InvalidSignature));
}

#[test]
fn issue_fails_on_unusable_key_or_overflow() {
    assert_eq!(TokenCodec::new(vec![]).issue(1, "a", 60, 0).err(), Some(TokenError::SigningError));
    let c = TokenCodec::new(key());
    assert_eq!(c.issue(1, "a", 60, u64::MAX - 3599).err(), Some(TokenError::SigningError));
    assert!(c.issue(1, "a", 60, u64::MAX - 3600).is_ok());
}

#[test]
fn envelope_constructors() {
    let s = ResponseHandler::success(Some(5u8), "ok");
    assert_eq!((s.code, s.message.as_str(), s.data), (200, "ok", Some(5)));
    let e: ApiResponse<()> = ResponseHandler::custom_error("nope");
    assert_eq!((e.code, e.message.as_str(), e.data), (233, "nope", None));
    let f: ApiResponse<()> = ResponseHandler::error("boom");
    assert_eq!((f.code, f.message.as_str(), f.data), (500, "boom", None));
}

#[test]
fn status_falls_back_to_500() {
    let mut r: ApiResponse<()> = ResponseHandler::custom_error("x");
    assert_eq!(r.status(), 233);
    r.code = 99;
    assert_eq!(r.status(), 500);
    r.code = 1000;
    assert_eq!(r.status(), 500);
    r.code = 100;
    assert_eq!(r.status(), 100);
}

#[test]
fn cookies_after_finalize_are_refused() {
    let mut r: Reply<()> = Reply::new(ResponseHandler::success(None, "ok"));
    assert!(r.add_cookie(refresh_token_cookie("abc")).is_ok());
    r.finalize();
    assert_eq!(r.add_cookie(clear_refresh_token_cookie()), Err(ReplyError::AlreadyFinalized));
    assert_eq!(r.cookies.len(), 1);
    assert_eq!(r.cookies[0].value, "abc");
}

#[test]
fn text_encodings() {
    let mut s = String::from(">");
    push_hex(&mut s, &[0x00, 0xab, 0x7f]);
    assert_eq!(s, ">00ab7f");
    let mut d = String::new();
    push_fixed_decimal(&mut d, 1234, 6);
    assert_eq!(d, "001234");
    let mut e = String::new();
    push_fixed_decimal(&mut e, 1234, 2);
    assert_eq!(e, "34");
    assert_eq!(parse_fixed_decimal("x0042y", 1, 4), Some(42));
    assert_eq!(parse_fixed_decimal("x00a2y", 1, 4), None);
    assert_eq!(parse_fixed_decimal("99999999999999999999", 0, 20), Some(99_999_999_999_999_999_999));
    assert_eq!(char_digit('7'), Some(7));
    assert_eq!(char_digit('a'), None);
    assert_eq!(hex_digit_str(15), "f");
}
