//! The login and refresh flows' decision logic: input validation, the
//! administrator check, and the exact parameters of the session cookies.
//! Talking to the identity provider and setting the cookies on the wire
//! happen outside the library with exactly these values.

use vstd::prelude::*;
use vstd::string::{StrSliceExecFns, StringExecFns};
use crate::config::SecurityConfig;
use crate::errors::AppError;
use crate::jellyfin::UserInfo;
use crate::jwt::{end_of_day, DAY_SECONDS};

verus! {

/// A login request as it arrives from the caller.
#[derive(Debug, Clone)]
pub struct LoginRequest {
    pub username: String,
    pub password: String,
}

/// What a successful login or refresh answers.
#[derive(Debug, Clone)]
pub struct LoginResponse {
    pub success: bool,
    pub username: String,
    pub is_admin: bool,
}

/// A control character: the Unicode Cc category.
pub open spec fn is_control_char(c: char) -> bool {
    (c as u32) < 32 || (127 <= (c as u32) && (c as u32) <= 159)
}

/// Acceptable login input: a non-empty username of at most 255 characters
/// without control characters, and a non-empty password of at most 1024
/// characters.
pub open spec fn login_input_ok(username: Seq<char>, password: Seq<char>) -> bool {
    &&& 1 <= username.len() <= 255
    &&& (forall|i: int| 0 <= i < username.len() ==> !is_control_char(#[trigger] username[i]))
    &&& 1 <= password.len() <= 1024
}

/// Validate login input; rejection is an authentication failure with a
/// message that never echoes the input.
pub fn validate_login_request(req: &LoginRequest) -> (r: Result<(), AppError>)
    ensures
        r is Ok <==> login_input_ok(req.username@, req.password@),
        r matches Err(e) ==> e matches AppError::AuthenticationFailed(_),
{
    let ulen = req.username.as_str().unicode_len();
    if ulen == 0 {
        return Err(AppError::AuthenticationFailed(String::from_str("Username cannot be empty")));
    }
    if ulen > 255 {
        return Err(
            AppError::AuthenticationFailed(
                String::from_str("Username too long (max 255 characters)"),
            ),
        );
    }
    let mut i: usize = 0;
    while i < ulen
        invariant
            ulen == req.username@.len(),
            i <= ulen,
            forall|k: int| 0 <= k < i ==> !is_control_char(#[trigger] req.username@[k]),
        decreases ulen - i,
    {
        let c = req.username.as_str().get_char(i);
        let u = c as u32;
        if u < 32 || (127 <= u && u <= 159) {
            return Err(
                AppError::AuthenticationFailed(
                    String::from_str("Username contains invalid characters"),
                ),
            );
        }
        i += 1;
    }
    let plen = req.password.as_str().unicode_len();
    if plen == 0 {
        return Err(AppError::AuthenticationFailed(String::from_str("Password cannot be empty")));
    }
    if plen > 1024 {
        return Err(
            AppError::AuthenticationFailed(
                String::from_str("Password too long (max 1024 characters)"),
            ),
        );
    }
    Ok(())
}

/// Only identities with administrator rights may hold a session.
pub fn authorize_identity(user: &UserInfo) -> (r: Result<(), AppError>)
    ensures
        r is Ok <==> user@.is_administrator,
        r matches Err(e) ==> e == AppError::Forbidden,
{
    if user.is_administrator {
        Ok(())
    } else {
        Err(AppError::Forbidden)
    }
}

/// A session cookie exactly as the gateway sets it: HTTP-only, rooted at
/// `/`, same-site lax, the secure flag from configuration, and a bounded
/// lifetime in seconds.
#[derive(Debug, Clone)]
pub struct CookieSpec {
    pub name: String,
    pub value: String,
    pub http_only: bool,
    pub secure: bool,
    pub same_site_lax: bool,
    pub path: String,
    pub max_age_seconds: i64,
}

/// The access cookie issued at clock time `now`: named by configuration,
/// carrying the token, living until the next UTC midnight. It is built
/// for every clock reading the day arithmetic can represent.
pub fn build_access_cookie(security: &SecurityConfig, token: String, now: i64) -> (r: Result<
    CookieSpec,
    AppError,
>)
    ensures
        (0 <= now && now < i64::MAX - DAY_SECONDS) ==> r is Ok,
        r matches Ok(c) ==> ({
            &&& 0 <= now
            &&& c.name@ == security.cookie_name@
            &&& c.value@ == token@
            &&& c.http_only && c.same_site_lax
            &&& c.secure == security.secure_cookies
            &&& c.path@ == "/"@
            &&& c.max_age_seconds == end_of_day(now as int) - now
        }),
        now < 0 ==> r is Err,
{
    if now < 0 || now >= i64::MAX - DAY_SECONDS {
        return Err(AppError::Internal(String::from_str("clock out of range")));
    }
    let eod: i64 = now / DAY_SECONDS * DAY_SECONDS + (DAY_SECONDS - 1);
    Ok(
        CookieSpec {
            name: security.cookie_name.clone(),
            value: token,
            http_only: true,
            secure: security.secure_cookies,
            same_site_lax: true,
            path: String::from_str("/"),
            max_age_seconds: eod - now,
        },
    )
}

/// The refresh cookie: named by configuration, carrying the token, living
/// for the configured number of days. It is built whenever that lifetime
/// fits a signed 64-bit count of seconds.
pub fn build_refresh_cookie(security: &SecurityConfig, token: String) -> (r: Result<
    CookieSpec,
    AppError,
>)
    ensures
        security.refresh_token_expiry_days <= (i64::MAX as u64) / (DAY_SECONDS as u64) ==> r is Ok,
        r matches Ok(c) ==> ({
            &&& c.name@ == security.refresh_cookie_name@
            &&& c.value@ == token@
            &&& c.http_only && c.same_site_lax
            &&& c.secure == security.secure_cookies
            &&& c.path@ == "/"@
            &&& c.max_age_seconds == security.refresh_token_expiry_days * (DAY_SECONDS as int)
        }),
{
    if security.refresh_token_expiry_days > (i64::MAX as u64) / (DAY_SECONDS as u64) {
        return Err(AppError::Internal(String::from_str("refresh lifetime out of range")));
    }
    let max_age: i64 = (security.refresh_token_expiry_days as i64) * DAY_SECONDS;
    Ok(
        CookieSpec {
            name: security.refresh_cookie_name.clone(),
            value: token,
            http_only: true,
            secure: security.secure_cookies,
            same_site_lax: true,
            path: String::from_str("/"),
            max_age_seconds: max_age,
        },
    )
}

} // verus!
