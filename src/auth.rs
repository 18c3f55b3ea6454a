//! The login, refresh and logout flows, and the credential check they use.

use vstd::prelude::*;
use crate::envelope::{
    clear_refresh_token_cookie, is_clearing_cookie, is_refresh_cookie, refresh_token_cookie,
    Reply, ResponseHandler, CUSTOM_ERROR_CODE, ERROR_CODE, SUCCESS_CODE,
};
use crate::token::{
    issued_claims, key_usable, lifetime_fits, token_text, validation, ClaimsModel, TokenCodec,
    ACCESS_TOKEN_MINUTES, REFRESH_TOKEN_MINUTES, lemma_issue_then_validate,
    lemma_token_claims, is_token_of,
};

verus! {

/// A user as the store keeps it. The secret is compared as plain text.
pub struct UserRecord {
    pub identifier: String,
    pub secret: String,
    pub id: u32,
    pub role: String,
}

/// A read-only list of users, looked up by identifier.
pub struct UserStore {
    pub records: Vec<UserRecord>,
}

impl UserStore {
    /// Identifiers are unique.
    pub open spec fn wf(&self) -> bool {
        forall|i: int, j: int|
            0 <= i < j < self.records@.len() ==> self.records@[i].identifier@ != self.records@[j].identifier@
    }

    /// Some record has this identifier and this secret.
    pub open spec fn accepts(&self, identifier: Seq<char>, secret: Seq<char>) -> bool {
        exists|i: int|
            0 <= i < self.records@.len() && self.records@[i].identifier@ == identifier
                && self.records@[i].secret@ == secret
    }

    /// The two users the service ships with.
    pub fn builtin() -> (r: UserStore)
        ensures
            r.wf(),
            r.records@.len() == 2,
            r.records@[0].identifier@ == "admin"@,
            r.records@[0].secret@ == "password123"@,
            r.records@[0].id == 1,
            r.records@[0].role@ == "superadministrator"@,
            r.records@[1].identifier@ == "user"@,
            r.records@[1].secret@ == "password456"@,
            r.records@[1].id == 2,
            r.records@[1].role@ == "user"@,
    {
        let mut records: Vec<UserRecord> = Vec::new();
        records.push(UserRecord {
            identifier: "admin".to_owned(),
            secret: "password123".to_owned(),
            id: 1,
            role: "superadministrator".to_owned(),
        });
        records.push(UserRecord {
            identifier: "user".to_owned(),
            secret: "password456".to_owned(),
            id: 2,
            role: "user".to_owned(),
        });
        proof {
            reveal_strlit("admin");
            reveal_strlit("user");
            assert("admin"@[0] != "user"@[0]);
        }
        UserStore { records }
    }

    /// The record with this identifier, if any.
    pub fn find_by_identifier(&self, identifier: &str) -> (r: Option<&UserRecord>)
        ensures
            match r {
                Some(u) => exists|i: int|
                    0 <= i < self.records@.len() && self.records@[i] == *u && u.identifier@ == identifier@,
                None => forall|i: int|
                    0 <= i < self.records@.len() ==> self.records@[i].identifier@ != identifier@,
            },
    {
        let wanted = identifier.to_owned();
        let n = self.records.len();
        for i in 0..n
            invariant
                n == self.records@.len(),
                wanted@ == identifier@,
                forall|j: int| 0 <= j < i ==> self.records@[j].identifier@ != identifier@,
        {
            if self.records[i].identifier == wanted {
                return Some(&self.records[i]);
            }
        }
        None
    }

    /// The record whose identifier and secret both match, if any.
    pub fn verify(&self, identifier: &str, secret: &str) -> (r: Option<&UserRecord>)
        requires
            self.wf(),
        ensures
            r is Some <==> self.accepts(identifier@, secret@),
            match r {
                Some(u) => exists|i: int|
                    0 <= i < self.records@.len() && self.records@[i] == *u && u.identifier@ == identifier@
                        && u.secret@ == secret@,
                None => true,
            },
    {
        match self.find_by_identifier(identifier) {
            None => None,
            Some(u) => {
                let given = secret.to_owned();
                if u.secret == given {
                    Some(u)
                } else {
                    None
                }
            },
        }
    }
}

/// What a successful login hands back; the refresh token travels only in
/// its cookie.
pub struct LoginData {
    pub id: u32,
    pub name: String,
    pub avatar: String,
    pub role: String,
    pub access_token: String,
}

pub struct TokenData {
    pub access_token: String,
}

/// The identity an access token proved.
pub struct AuthenticatedUser {
    pub id: u32,
    pub name: String,
}

pub enum LoginOutcome {
    MissingInput,
    BadCredentials,
    SigningFailed,
    Granted,
}

pub open spec fn login_outcome(
    store: UserStore,
    key: Seq<u8>,
    identifier: Seq<char>,
    secret: Seq<char>,
    now: u64,
) -> LoginOutcome {
    if identifier.len() == 0 || secret.len() == 0 {
        LoginOutcome::MissingInput
    } else if !store.accepts(identifier, secret) {
        LoginOutcome::BadCredentials
    } else if !key_usable(key) || !lifetime_fits(now, REFRESH_TOKEN_MINUTES) {
        LoginOutcome::SigningFailed
    } else {
        LoginOutcome::Granted
    }
}

pub open spec fn login_code(o: LoginOutcome) -> u16 {
    match o {
        LoginOutcome::Granted => SUCCESS_CODE,
        LoginOutcome::SigningFailed => ERROR_CODE,
        _ => CUSTOM_ERROR_CODE,
    }
}

pub open spec fn login_message(o: LoginOutcome) -> Seq<char> {
    match o {
        LoginOutcome::MissingInput => "credentials required"@,
        LoginOutcome::BadCredentials => "invalid credentials"@,
        LoginOutcome::SigningFailed => "token generation failed"@,
        LoginOutcome::Granted => "login succeeded"@,
    }
}

/// Checks the credentials and, when they match, answers with an access token
/// in the body and a refresh token in an HTTP-only cookie.
pub fn login_api(
    store: &UserStore,
    codec: &TokenCodec,
    identifier: &str,
    secret: &str,
    now: u64,
) -> (r: Reply<LoginData>)
    requires
        store.wf(),
    ensures
        r.finalized,
        r.body.code == login_code(login_outcome(*store, codec.key@, identifier@, secret@, now)),
        r.body.message@ == login_message(login_outcome(*store, codec.key@, identifier@, secret@, now)),
        r.body.data is Some <==> login_outcome(*store, codec.key@, identifier@, secret@, now) is Granted,
        !(login_outcome(*store, codec.key@, identifier@, secret@, now) is Granted) ==> r.cookies@.len() == 0,
        match r.body.data {
            Some(d) => exists|i: int|
                0 <= i < store.records@.len()
                && store.records@[i].identifier@ == identifier@
                && store.records@[i].secret@ == secret@
                && d.id == store.records@[i].id
                && d.name@ == identifier@
                && d.avatar@.len() == 0
                && d.role@ == store.records@[i].role@
                && d.access_token@ == token_text(codec.key@,
                    issued_claims(d.id, identifier@, now, ACCESS_TOKEN_MINUTES))
                && r.cookies@.len() == 1
                && is_refresh_cookie(r.cookies@[0], token_text(codec.key@,
                    issued_claims(d.id, identifier@, now, REFRESH_TOKEN_MINUTES))),
            None => true,
        },
{
    if identifier.is_empty() || secret.is_empty() {
        let mut r = Reply::new(ResponseHandler::custom_error("credentials required"));
        r.finalize();
        return r;
    }
    let user = match store.verify(identifier, secret) {
        Some(u) => u,
        None => {
            let mut r = Reply::new(ResponseHandler::custom_error("invalid credentials"));
            r.finalize();
            return r;
        },
    };
    assert(lifetime_fits(now, REFRESH_TOKEN_MINUTES) ==> lifetime_fits(now, ACCESS_TOKEN_MINUTES));
    let access_token = match codec.issue(user.id, identifier, ACCESS_TOKEN_MINUTES, now) {
        Ok(t) => t,
        Err(_) => {
            let mut r = Reply::new(ResponseHandler::error("token generation failed"));
            r.finalize();
            return r;
        },
    };
    let refresh_token = match codec.issue(user.id, identifier, REFRESH_TOKEN_MINUTES, now) {
        Ok(t) => t,
        Err(_) => {
            let mut r = Reply::new(ResponseHandler::error("token generation failed"));
            r.finalize();
            return r;
        },
    };
    let data = LoginData {
        id: user.id,
        name: identifier.to_owned(),
        avatar: String::new(),
        role: user.role.clone(),
        access_token,
    };
    let mut r = Reply::new(ResponseHandler::success(Some(data), "login succeeded"));
    let cookie = refresh_token_cookie(refresh_token.as_str());
    let _ = r.add_cookie(cookie);
    r.finalize();
    r
}

pub enum RefreshOutcome {
    Missing,
    Rejected,
    SigningFailed,
    Granted,
}

pub open spec fn refresh_outcome(key: Seq<u8>, cookie: Option<Seq<char>>, now: u64) -> RefreshOutcome {
    match cookie {
        None => RefreshOutcome::Missing,
        Some(t) => match validation(key, t, now) {
            Err(_) => RefreshOutcome::Rejected,
            Ok(_) => if lifetime_fits(now, ACCESS_TOKEN_MINUTES) {
                RefreshOutcome::Granted
            } else {
                RefreshOutcome::SigningFailed
            },
        },
    }
}

pub open spec fn refresh_code(o: RefreshOutcome) -> u16 {
    match o {
        RefreshOutcome::Granted => SUCCESS_CODE,
        RefreshOutcome::SigningFailed => ERROR_CODE,
        _ => CUSTOM_ERROR_CODE,
    }
}

pub open spec fn refresh_message(o: RefreshOutcome) -> Seq<char> {
    match o {
        RefreshOutcome::Missing => "refresh token not found"@,
        RefreshOutcome::Rejected => "token invalid or expired"@,
        RefreshOutcome::SigningFailed => "token refresh failed"@,
        RefreshOutcome::Granted => "token refreshed"@,
    }
}

pub open spec fn cookie_view(cookie: Option<&str>) -> Option<Seq<char>> {
    match cookie {
        Some(s) => Some(s@),
        None => None,
    }
}

/// The access token a refresh mints from the refresh token `t`: same subject,
/// issued at `now` for the access lifetime.
pub open spec fn refreshed_token(key: Seq<u8>, t: Seq<char>, now: u64) -> Seq<char> {
    match validation(key, t, now) {
        Ok(c) => token_text(key, issued_claims(c.subject_id, c.subject_name, now, ACCESS_TOKEN_MINUTES)),
        Err(_) => Seq::empty(),
    }
}

/// Mints a new access token from the refresh token in the `refresh_token`
/// cookie. The refresh token itself is not reissued.
pub fn refresh_token_api(codec: &TokenCodec, cookie: Option<&str>, now: u64) -> (r: Reply<TokenData>)
    ensures
        r.finalized,
        r.cookies@.len() == 0,
        r.body.code == refresh_code(refresh_outcome(codec.key@, cookie_view(cookie), now)),
        r.body.message@ == refresh_message(refresh_outcome(codec.key@, cookie_view(cookie), now)),
        r.body.data is Some <==> refresh_outcome(codec.key@, cookie_view(cookie), now) is Granted,
        match r.body.data {
            Some(d) => d.access_token@ == refreshed_token(codec.key@, cookie.unwrap()@, now),
            None => true,
        },
{
    let token = match cookie {
        Some(t) => t,
        None => {
            let mut r = Reply::new(ResponseHandler::custom_error("refresh token not found"));
            r.finalize();
            return r;
        },
    };
    let claims = match codec.validate(token, now) {
        Ok(c) => c,
        Err(_) => {
            let mut r = Reply::new(ResponseHandler::custom_error("token invalid or expired"));
            r.finalize();
            return r;
        },
    };
    let access_token = match codec.issue(
        claims.subject_id,
        claims.subject_name.as_str(),
        ACCESS_TOKEN_MINUTES,
        now,
    ) {
        Ok(t) => t,
        Err(_) => {
            let mut r = Reply::new(ResponseHandler::error("token refresh failed"));
            r.finalize();
            return r;
        },
    };
    let mut r = Reply::new(ResponseHandler::success(Some(TokenData { access_token }), "token refreshed"));
    r.finalize();
    r
}

/// Matching, non-empty credentials log in with code 200, and the access
/// token and the refresh token that the reply carries are non-empty.
pub proof fn lemma_login_granted(
    store: UserStore,
    key: Seq<u8>,
    identifier: Seq<char>,
    secret: Seq<char>,
    now: u64,
    id: u32,
)
    requires
        store.accepts(identifier, secret),
        identifier.len() > 0,
        secret.len() > 0,
        key_usable(key),
        lifetime_fits(now, REFRESH_TOKEN_MINUTES),
    ensures
        login_outcome(store, key, identifier, secret, now) is Granted,
        login_code(login_outcome(store, key, identifier, secret, now)) == SUCCESS_CODE,
        token_text(key, issued_claims(id, identifier, now, ACCESS_TOKEN_MINUTES)).len() > 0,
        token_text(key, issued_claims(id, identifier, now, REFRESH_TOKEN_MINUTES)).len() > 0,
{
}

/// An unknown identifier and a known identifier with a wrong secret fail
/// alike: code 233 and the same message.
pub proof fn lemma_login_failures_alike(
    store: UserStore,
    key: Seq<u8>,
    unknown: Seq<char>,
    secret1: Seq<char>,
    known: Seq<char>,
    secret2: Seq<char>,
    now: u64,
)
    requires
        store.wf(),
        unknown.len() > 0,
        secret1.len() > 0,
        known.len() > 0,
        secret2.len() > 0,
        forall|i: int| 0 <= i < store.records@.len() ==> store.records@[i].identifier@ != unknown,
        exists|i: int|
            0 <= i < store.records@.len() && store.records@[i].identifier@ == known
                && store.records@[i].secret@ != secret2,
    ensures
        login_code(login_outcome(store, key, unknown, secret1, now)) == CUSTOM_ERROR_CODE,
        login_code(login_outcome(store, key, known, secret2, now)) == CUSTOM_ERROR_CODE,
        login_message(login_outcome(store, key, unknown, secret1, now))
            == login_message(login_outcome(store, key, known, secret2, now)),
{
    let i = choose|i: int|
        0 <= i < store.records@.len() && store.records@[i].identifier@ == known
            && store.records@[i].secret@ != secret2;
    assert(!store.accepts(known, secret2)) by {
        if store.accepts(known, secret2) {
            let j = choose|j: int|
                0 <= j < store.records@.len() && store.records@[j].identifier@ == known
                    && store.records@[j].secret@ == secret2;
            assert(i == j);
        }
    }
}

/// Empty input fails with code 233 whatever the store holds: the outcome
/// does not depend on the store.
pub proof fn lemma_login_empty_input(
    store1: UserStore,
    store2: UserStore,
    key: Seq<u8>,
    identifier: Seq<char>,
    secret: Seq<char>,
    now: u64,
)
    requires
        identifier.len() == 0 || secret.len() == 0,
    ensures
        login_code(login_outcome(store1, key, identifier, secret, now)) == CUSTOM_ERROR_CODE,
        login_outcome(store1, key, identifier, secret, now) == login_outcome(store2, key, identifier, secret, now),
{
}

/// Refreshing with a live token signed for `c` succeeds, and the new access
/// token validates to the same subject.
pub proof fn lemma_refresh_keeps_subject(key: Seq<u8>, t: Seq<char>, c: ClaimsModel, now: u64)
    requires
        is_token_of(key, t, c),
        now < c.expires_at,
        lifetime_fits(now, ACCESS_TOKEN_MINUTES),
    ensures
        refresh_outcome(key, Some(t), now) is Granted,
        validation(key, refreshed_token(key, t, now), now) is Ok,
        validation(key, refreshed_token(key, t, now), now)->Ok_0.subject_id == c.subject_id,
        validation(key, refreshed_token(key, t, now), now)->Ok_0.subject_name == c.subject_name,
{
    lemma_token_claims(key, t, c);
    lemma_issue_then_validate(key, c.subject_id, c.subject_name, ACCESS_TOKEN_MINUTES, now);
}

/// Refreshing with a token that does not validate (tampered, foreign or
/// expired) fails with code 233.
pub proof fn lemma_refresh_rejects(key: Seq<u8>, t: Seq<char>, now: u64)
    requires
        validation(key, t, now) is Err,
    ensures
        refresh_code(refresh_outcome(key, Some(t), now)) == CUSTOM_ERROR_CODE,
        refresh_message(refresh_outcome(key, Some(t), now)) == "token invalid or expired"@,
{
}

/// Answers with success and a directive that clears the refresh-token cookie.
pub fn logout_api() -> (r: Reply<()>)
    ensures
        r.finalized,
        r.body.code == SUCCESS_CODE,
        r.body.message@ == "logged out"@,
        r.body.data is None,
        r.cookies@.len() == 1,
        is_clearing_cookie(r.cookies@[0]),
{
    let mut r = Reply::new(ResponseHandler::success(None, "logged out"));
    let _ = r.add_cookie(clear_refresh_token_cookie());
    r.finalize();
    r
}

/// Echoes back the identity that an access token proved.
pub fn protected_api(user: AuthenticatedUser) -> (r: Reply<AuthenticatedUser>)
    ensures
        r.finalized,
        r.body.code == SUCCESS_CODE,
        r.body.message@ == "protected resource accessed"@,
        r.body.data == Some(user),
        r.cookies@.len() == 0,
{
    let mut r = Reply::new(ResponseHandler::success(Some(user), "protected resource accessed"));
    r.finalize();
    r
}

} // verus!
