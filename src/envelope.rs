//! The uniform response envelope `{code, message, data?}`, the cookie
//! directives a response may carry, and the reply that gathers both.

use vstd::prelude::*;

verus! {

pub const SUCCESS_CODE: u16 = 200;

/// An expected, user-facing failure (bad input, bad credentials, bad token).
pub const CUSTOM_ERROR_CODE: u16 = 233;

/// An unexpected, internal failure.
pub const ERROR_CODE: u16 = 500;

/// Seconds a refresh-token cookie lives: seven days.
pub const REFRESH_COOKIE_MAX_AGE: u64 = 604800;

pub struct ApiResponse<T> {
    pub code: u16,
    pub message: String,
    pub data: Option<T>,
}

/// The HTTP status a transport answers with for an envelope code: the code
/// itself when it is a valid status (three digits, 100 to 999), else 500.
pub open spec fn http_status(code: u16) -> u16 {
    if 100 <= code <= 999 {
        code
    } else {
        ERROR_CODE
    }
}

impl<T> ApiResponse<T> {
    pub fn status(&self) -> (r: u16)
        ensures
            r == http_status(self.code),
    {
        if 100 <= self.code && self.code <= 999 {
            self.code
        } else {
            ERROR_CODE
        }
    }
}

/// Builds envelopes.
pub struct ResponseHandler;

impl ResponseHandler {
    pub fn success<T>(data: Option<T>, msg: &str) -> (r: ApiResponse<T>)
        ensures
            r.code == SUCCESS_CODE,
            r.message@ == msg@,
            r.data == data,
    {
        ApiResponse { code: SUCCESS_CODE, message: msg.to_owned(), data }
    }

    pub fn custom_error<T>(msg: &str) -> (r: ApiResponse<T>)
        ensures
            r.code == CUSTOM_ERROR_CODE,
            r.message@ == msg@,
            r.data is None,
    {
        ApiResponse { code: CUSTOM_ERROR_CODE, message: msg.to_owned(), data: None }
    }

    pub fn error<T>(msg: &str) -> (r: ApiResponse<T>)
        ensures
            r.code == ERROR_CODE,
            r.message@ == msg@,
            r.data is None,
    {
        ApiResponse { code: ERROR_CODE, message: msg.to_owned(), data: None }
    }
}

#[derive(PartialEq, Eq, Structural, Clone, Copy, Debug)]
pub enum SameSite {
    Strict,
    Lax,
}

/// A `Set-Cookie` directive.
pub struct CookieDirective {
    pub name: String,
    pub value: String,
    pub path: String,
    pub http_only: bool,
    pub same_site: SameSite,
    pub max_age_seconds: u64,
}

/// `c` is the HTTP-only, root-scoped, seven-day cookie that holds `token`.
pub open spec fn is_refresh_cookie(c: CookieDirective, token: Seq<char>) -> bool {
    &&& c.name@ == "refresh_token"@
    &&& c.value@ == token
    &&& c.path@ == "/"@
    &&& c.http_only
    &&& c.same_site == SameSite::Strict
    &&& c.max_age_seconds == REFRESH_COOKIE_MAX_AGE
}

/// `c` empties the refresh-token cookie and expires it at once.
pub open spec fn is_clearing_cookie(c: CookieDirective) -> bool {
    &&& c.name@ == "refresh_token"@
    &&& c.value@.len() == 0
    &&& c.path@ == "/"@
    &&& c.http_only
    &&& c.same_site == SameSite::Strict
    &&& c.max_age_seconds == 0
}

pub fn refresh_token_cookie(token: &str) -> (r: CookieDirective)
    ensures
        is_refresh_cookie(r, token@),
{
    CookieDirective {
        name: "refresh_token".to_owned(),
        value: token.to_owned(),
        path: "/".to_owned(),
        http_only: true,
        same_site: SameSite::Strict,
        max_age_seconds: REFRESH_COOKIE_MAX_AGE,
    }
}

pub fn clear_refresh_token_cookie() -> (r: CookieDirective)
    ensures
        is_clearing_cookie(r),
{
    CookieDirective {
        name: "refresh_token".to_owned(),
        value: String::new(),
        path: "/".to_owned(),
        http_only: true,
        same_site: SameSite::Strict,
        max_age_seconds: 0,
    }
}

#[derive(PartialEq, Eq, Structural, Clone, Copy, Debug)]
pub enum ReplyError {
    /// A cookie was attached after the reply was finalized.
    AlreadyFinalized,
}

/// An envelope with the cookie directives attached to it so far.
pub struct Reply<T> {
    pub body: ApiResponse<T>,
    pub cookies: Vec<CookieDirective>,
    pub finalized: bool,
}

impl<T> Reply<T> {
    pub fn new(body: ApiResponse<T>) -> (r: Reply<T>)
        ensures
            r.body == body,
            r.cookies@.len() == 0,
            !r.finalized,
    {
        Reply { body, cookies: Vec::new(), finalized: false }
    }

    /// Attaches a cookie directive; refused once the reply is finalized.
    pub fn add_cookie(&mut self, c: CookieDirective) -> (r: Result<(), ReplyError>)
        ensures
            old(self).finalized ==> r == Err::<(), ReplyError>(ReplyError::AlreadyFinalized)
                && *final(self) == *old(self),
            !old(self).finalized ==> r is Ok
                && final(self).cookies@ == old(self).cookies@.push(c)
                && final(self).body == old(self).body
                && !final(self).finalized,
    {
        if self.finalized {
            return Err(ReplyError::AlreadyFinalized);
        }
        self.cookies.push(c);
        Ok(())
    }

    pub fn finalize(&mut self)
        ensures
            final(self).finalized,
            final(self).body == old(self).body,
            final(self).cookies@ == old(self).cookies@,
    {
        self.finalized = true;
    }
}

} // verus!
