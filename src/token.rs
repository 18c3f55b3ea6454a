//! Signed, expiring tokens that carry a subject's identity.
//!
//! A token is the claims text, a `.`, and the hexadecimal HMAC-SHA256 tag of
//! the claims text. The claims text is the subject id in 10 decimal digits,
//! the issue and expiry times (seconds) in 20 digits each, then the subject's
//! name. Tokens are self-contained: nothing is stored on the server.

use vstd::prelude::*;
use crate::mac::{hmac_sha256, hmac_sha256_tag};
use crate::text::{
    all_digits, decimal_value, fixed_decimal, hex_text, lemma_fixed_decimal,
    lemma_hex_text_has_no_dot, parse_fixed_decimal, pow10, push_fixed_decimal, push_hex,
};

verus! {

/// Length in bytes of a usable signing key.
pub const SIGNING_KEY_LEN: usize = 64;

/// Lifetime of an access token.
pub const ACCESS_TOKEN_MINUTES: u64 = 60;

/// Lifetime of a refresh token: seven days.
pub const REFRESH_TOKEN_MINUTES: u64 = 10080;

/// What a token says, as mathematical values.
pub struct ClaimsModel {
    pub subject_id: u32,
    pub subject_name: Seq<char>,
    pub issued_at: u64,
    pub expires_at: u64,
}

/// The claims a token carries. Times are seconds since the Unix epoch.
pub struct TokenClaims {
    pub subject_id: u32,
    pub subject_name: String,
    pub issued_at: u64,
    pub expires_at: u64,
}

impl View for TokenClaims {
    type V = ClaimsModel;

    open spec fn view(&self) -> ClaimsModel {
        ClaimsModel {
            subject_id: self.subject_id,
            subject_name: self.subject_name@,
            issued_at: self.issued_at,
            expires_at: self.expires_at,
        }
    }
}

#[derive(PartialEq, Eq, Structural, Clone, Copy, Debug)]
pub enum TokenError {
    /// The key cannot sign, or the expiry time does not fit.
    SigningError,
    /// The token is malformed or its tag does not match.
    InvalidSignature,
    /// The token is authentic but its expiry time has passed.
    Expired,
}

/// Signs and checks tokens with one process-wide key.
pub struct TokenCodec {
    pub key: Vec<u8>,
}

pub open spec fn claims_text(c: ClaimsModel) -> Seq<char> {
    fixed_decimal(c.subject_id as nat, 10) + fixed_decimal(c.issued_at as nat, 20)
        + fixed_decimal(c.expires_at as nat, 20) + c.subject_name
}

/// `t` is the claims text of `c` followed by a `.` and some hexadecimal tag.
pub open spec fn signed_form(t: Seq<char>, c: ClaimsModel, tag: Seq<u8>) -> bool {
    t == claims_text(c).push('.') + hex_text(tag)
}

pub open spec fn token_text(key: Seq<u8>, c: ClaimsModel) -> Seq<char> {
    claims_text(c).push('.') + hex_text(hmac_sha256(key, claims_text(c)))
}

pub open spec fn key_usable(key: Seq<u8>) -> bool {
    key.len() == SIGNING_KEY_LEN
}

/// `t` is the token that `key` signs for the claims `c`.
pub open spec fn is_token_of(key: Seq<u8>, t: Seq<char>, c: ClaimsModel) -> bool {
    key_usable(key) && t == token_text(key, c)
}

/// The claims that `t` carries, when `key` signed it.
pub open spec fn token_claims(key: Seq<u8>, t: Seq<char>) -> Option<ClaimsModel> {
    if exists|c: ClaimsModel| is_token_of(key, t, c) {
        Some(choose|c: ClaimsModel| is_token_of(key, t, c))
    } else {
        None
    }
}

/// The outcome of checking `t` under `key` at time `now`.
pub open spec fn validation(key: Seq<u8>, t: Seq<char>, now: u64) -> Result<ClaimsModel, TokenError> {
    match token_claims(key, t) {
        None => Err(TokenError::InvalidSignature),
        Some(c) => if now < c.expires_at {
            Ok(c)
        } else {
            Err(TokenError::Expired)
        },
    }
}

pub open spec fn lifetime_fits(now: u64, minutes: u64) -> bool {
    now + minutes * 60 <= u64::MAX
}

pub open spec fn issued_claims(id: u32, name: Seq<char>, now: u64, minutes: u64) -> ClaimsModel {
    ClaimsModel {
        subject_id: id,
        subject_name: name,
        issued_at: now,
        expires_at: (now + minutes * 60) as u64,
    }
}

/// The outcome of issuing a token for `id`/`name` at `now` for `minutes`.
pub open spec fn issuance(key: Seq<u8>, id: u32, name: Seq<char>, minutes: u64, now: u64) -> Result<Seq<char>, TokenError> {
    if key_usable(key) && lifetime_fits(now, minutes) {
        Ok(token_text(key, issued_claims(id, name, now, minutes)))
    } else {
        Err(TokenError::SigningError)
    }
}

/// Where the parts of a token of the claims `c` stand in `t`.
pub open spec fn layout(t: Seq<char>, c: ClaimsModel) -> bool {
    let k = claims_text(c).len() as int;
    &&& k == 50 + c.subject_name.len()
    &&& k < t.len()
    &&& t[k] == '.'
    &&& forall|j: int| k < j < t.len() ==> t[j] != '.'
    &&& all_digits(t.subrange(0, 10))
    &&& decimal_value(t.subrange(0, 10)) == c.subject_id
    &&& all_digits(t.subrange(10, 30))
    &&& decimal_value(t.subrange(10, 30)) == c.issued_at
    &&& all_digits(t.subrange(30, 50))
    &&& decimal_value(t.subrange(30, 50)) == c.expires_at
    &&& t.subrange(50, k) == c.subject_name
}

proof fn lemma_signed_form(t: Seq<char>, c: ClaimsModel, tag: Seq<u8>)
    requires
        signed_form(t, c, tag),
    ensures
        layout(t, c),
{
    reveal_with_fuel(pow10, 21);
    let a = fixed_decimal(c.subject_id as nat, 10);
    let b = fixed_decimal(c.issued_at as nat, 20);
    let d = fixed_decimal(c.expires_at as nat, 20);
    lemma_fixed_decimal(c.subject_id as nat, 10);
    lemma_fixed_decimal(c.issued_at as nat, 20);
    lemma_fixed_decimal(c.expires_at as nat, 20);
    lemma_hex_text_has_no_dot(tag);
    let ct = claims_text(c);
    let k = ct.len();
    let h = hex_text(tag);
    assert(t.subrange(0, 10) =~= a);
    assert(t.subrange(10, 30) =~= b);
    assert(t.subrange(30, 50) =~= d);
    assert(t.subrange(50, k as int) =~= c.subject_name);
    assert forall|j: int| k < j < t.len() implies t[j] != '.' by {
        assert(t[j] == h[j - k - 1]);
    }
}

proof fn lemma_signed_forms(t: Seq<char>)
    ensures
        forall|c: ClaimsModel, tag: Seq<u8>| #[trigger] signed_form(t, c, tag) ==> layout(t, c),
{
    assert forall|c: ClaimsModel, tag: Seq<u8>| #[trigger] signed_form(t, c, tag) implies layout(t, c) by {
        lemma_signed_form(t, c, tag);
    }
}

/// Two claims with the same layout in one text are the same claims.
proof fn lemma_layout_unique(t: Seq<char>, c1: ClaimsModel, c2: ClaimsModel)
    requires
        layout(t, c1),
        layout(t, c2),
    ensures
        c1 == c2,
{
    let k1 = claims_text(c1).len();
    let k2 = claims_text(c2).len();
    assert(k1 == k2);
    assert(c1.subject_name == c2.subject_name);
}

/// A key signs one token text for one set of claims only.
pub proof fn lemma_token_injective(key: Seq<u8>, t: Seq<char>, c1: ClaimsModel, c2: ClaimsModel)
    requires
        is_token_of(key, t, c1),
        is_token_of(key, t, c2),
    ensures
        c1 == c2,
{
    lemma_signed_form(t, c1, hmac_sha256(key, claims_text(c1)));
    lemma_signed_form(t, c2, hmac_sha256(key, claims_text(c2)));
    lemma_layout_unique(t, c1, c2);
}

/// The claims of a token signed for `c` are `c`.
pub proof fn lemma_token_claims(key: Seq<u8>, t: Seq<char>, c: ClaimsModel)
    requires
        is_token_of(key, t, c),
    ensures
        token_claims(key, t) == Some(c),
{
    let d = choose|d: ClaimsModel| is_token_of(key, t, d);
    lemma_token_injective(key, t, c, d);
}

/// A token checked at the moment it was issued, for a positive lifetime,
/// validates and gives back the subject it was issued for.
pub proof fn lemma_issue_then_validate(key: Seq<u8>, id: u32, name: Seq<char>, minutes: u64, now: u64)
    requires
        key_usable(key),
        minutes > 0,
        lifetime_fits(now, minutes),
    ensures
        issuance(key, id, name, minutes, now) is Ok,
        validation(key, token_text(key, issued_claims(id, name, now, minutes)), now)
            == Ok::<ClaimsModel, TokenError>(issued_claims(id, name, now, minutes)),
        issued_claims(id, name, now, minutes).subject_id == id,
        issued_claims(id, name, now, minutes).subject_name == name,
{
    let c = issued_claims(id, name, now, minutes);
    lemma_token_claims(key, token_text(key, c), c);
}

/// An authentic token checked at or after its expiry time is classified as
/// expired, never as a bad signature.
pub proof fn lemma_expired_token(key: Seq<u8>, t: Seq<char>, c: ClaimsModel, now: u64)
    requires
        is_token_of(key, t, c),
        now >= c.expires_at,
    ensures
        validation(key, t, now) == Err::<ClaimsModel, TokenError>(TokenError::Expired),
{
    lemma_token_claims(key, t, c);
}

/// Position of the last `.` in `s`.
fn last_dot(s: &str) -> (r: Option<usize>)
    ensures
        match r {
            Some(p) => p < s@.len() && s@[p as int] == '.'
                && forall|j: int| p < j < s@.len() ==> s@[j] != '.',
            None => forall|j: int| 0 <= j < s@.len() ==> s@[j] != '.',
        },
{
    let n = s.unicode_len();
    let mut i: usize = n;
    while i > 0
        invariant
            i <= n,
            n == s@.len(),
            forall|j: int| i <= j < n ==> s@[j] != '.',
        decreases i,
    {
        if s.get_char(i - 1) == '.' {
            return Some(i - 1);
        }
        i = i - 1;
    }
    None
}

/// Reads the claims out of a token's text, without checking its tag.
fn decode_claims(token: &str) -> (r: Option<TokenClaims>)
    ensures
        forall|c: ClaimsModel, tag: Seq<u8>| #[trigger] signed_form(token@, c, tag) ==> match r {
            Some(d) => d@ == c,
            None => false,
        },
{
    let ghost t = token@;
    proof {
        lemma_signed_forms(t);
    }
    let p = match last_dot(token) {
        Some(p) => p,
        None => return None,
    };
    if p < 50 {
        return None;
    }
    let subject_id = match parse_fixed_decimal(token, 0, 10) {
        Some(v) => if v <= u32::MAX as u128 { v as u32 } else { return None },
        None => return None,
    };
    let issued_at = match parse_fixed_decimal(token, 10, 20) {
        Some(v) => if v <= u64::MAX as u128 { v as u64 } else { return None },
        None => return None,
    };
    let expires_at = match parse_fixed_decimal(token, 30, 20) {
        Some(v) => if v <= u64::MAX as u128 { v as u64 } else { return None },
        None => return None,
    };
    let subject_name = token.substring_char(50, p).to_owned();
    let claims = TokenClaims { subject_id, subject_name, issued_at, expires_at };
    assert forall|c: ClaimsModel, tag: Seq<u8>| #[trigger] signed_form(t, c, tag) implies claims@ == c by {
        assert(layout(t, c));
        assert(claims_text(c).len() == p);
    }
    Some(claims)
}

impl TokenCodec {
    pub fn new(key: Vec<u8>) -> (r: TokenCodec)
        ensures
            r.key@ == key@,
    {
        TokenCodec { key }
    }

    /// The token text that this codec's key signs for `c`.
    fn encode(&self, c: &TokenClaims) -> (r: String)
        requires
            key_usable(self.key@),
        ensures
            r@ == token_text(self.key@, c@),
    {
        let mut payload = String::new();
        push_fixed_decimal(&mut payload, c.subject_id as u64, 10);
        push_fixed_decimal(&mut payload, c.issued_at, 20);
        push_fixed_decimal(&mut payload, c.expires_at, 20);
        payload.append(c.subject_name.as_str());
        assert(payload@ =~= claims_text(c@));
        let tag = hmac_sha256_tag(self.key.as_slice(), payload.as_str());
        let mut out = payload.clone();
        proof {
            reveal_strlit(".");
        }
        out.append(".");
        push_hex(&mut out, tag.as_slice());
        assert(out@ =~= token_text(self.key@, c@));
        out
    }

    /// Issues a token for the subject, valid from `now` for `lifetime_minutes`.
    pub fn issue(&self, subject_id: u32, subject_name: &str, lifetime_minutes: u64, now: u64) -> (r: Result<String, TokenError>)
        ensures
            match r {
                Ok(t) => issuance(self.key@, subject_id, subject_name@, lifetime_minutes, now) == Ok::<Seq<char>, TokenError>(t@),
                Err(e) => issuance(self.key@, subject_id, subject_name@, lifetime_minutes, now) == Err::<Seq<char>, TokenError>(e),
            },
    {
        if self.key.len() != SIGNING_KEY_LEN {
            return Err(TokenError::SigningError);
        }
        if lifetime_minutes > (u64::MAX - now) / 60 {
            assert(!lifetime_fits(now, lifetime_minutes)) by (nonlinear_arith)
                requires
                    lifetime_minutes > (u64::MAX - now) / 60,
            ;
            return Err(TokenError::SigningError);
        }
        assert(lifetime_fits(now, lifetime_minutes)) by (nonlinear_arith)
            requires
                lifetime_minutes <= (u64::MAX - now) / 60,
                now <= u64::MAX,
        ;
        let claims = TokenClaims {
            subject_id,
            subject_name: subject_name.to_owned(),
            issued_at: now,
            expires_at: now + lifetime_minutes * 60,
        };
        Ok(self.encode(&claims))
    }

    /// Checks the token's tag and its expiry at time `now`.
    pub fn validate(&self, token: &str, now: u64) -> (r: Result<TokenClaims, TokenError>)
        ensures
            match r {
                Ok(c) => validation(self.key@, token@, now) == Ok::<ClaimsModel, TokenError>(c@),
                Err(e) => validation(self.key@, token@, now) == Err::<ClaimsModel, TokenError>(e),
            },
    {
        let ghost key = self.key@;
        let ghost t = token@;
        if self.key.len() != SIGNING_KEY_LEN {
            return Err(TokenError::InvalidSignature);
        }
        let claims = match decode_claims(token) {
            Some(c) => c,
            None => {
                assert forall|c: ClaimsModel| !is_token_of(key, t, c) by {
                    if is_token_of(key, t, c) {
                        assert(signed_form(t, c, hmac_sha256(key, claims_text(c))));
                    }
                }
                return Err(TokenError::InvalidSignature);
            },
        };
        let expected = self.encode(&claims);
        let given = token.to_owned();
        if !(expected == given) {
            assert forall|c: ClaimsModel| !is_token_of(key, t, c) by {
                if is_token_of(key, t, c) {
                    assert(signed_form(t, c, hmac_sha256(key, claims_text(c))));
                }
            }
            return Err(TokenError::InvalidSignature);
        }
        proof {
            lemma_token_claims(key, t, claims@);
        }
        if now >= claims.expires_at {
            return Err(TokenError::Expired);
        }
        Ok(claims)
    }
}

} // verus!
