//! The authentication gate that wraps every protected request: find a
//! credential in the session cookie or the bearer header, verify it as an
//! access token, and let only administrators through. Browser callers are
//! redirected to the login page with the original path preserved; other
//! callers get a structured rejection.

use vstd::prelude::*;
use vstd::string::{StrSliceExecFns, StringExecFns};
use crate::claims::TokenType;
use crate::errors::AppError;
use crate::jellyfin::UserInfo;
use crate::jwt::{validate_spec, JwtManager};

verus! {

/// Whether `needle` occurs anywhere in `hay`.
pub open spec fn has_substring(hay: Seq<char>, needle: Seq<char>) -> bool {
    exists|i: int|
        0 <= i <= hay.len() - needle.len() && needle =~= #[trigger] hay.subrange(
            i,
            i + needle.len() as int,
        )
}

/// Whether one string occurs inside another.
pub fn contains_sub(hay: &str, needle: &str) -> (r: bool)
    ensures
        r == has_substring(hay@, needle@),
{
    let n = hay.unicode_len();
    let m = needle.unicode_len();
    if m > n {
        return false;
    }
    let mut i: usize = 0;
    while i <= n - m
        invariant
            n == hay@.len(),
            m == needle@.len(),
            m <= n,
            i <= n - m + 1,
            forall|t: int|
                0 <= t < i ==> !(needle@ =~= #[trigger] hay@.subrange(
                    t,
                    t + needle@.len() as int,
                )),
        decreases n - m + 1 - i,
    {
        let mut k: usize = 0;
        let mut hit = true;
        while hit && k < m
            invariant
                n == hay@.len(),
                m == needle@.len(),
                i + m <= n,
                k <= m,
                hit ==> forall|t: int| 0 <= t < k ==> hay@[i + t] == needle@[t],
                !hit ==> !(needle@ =~= hay@.subrange(i as int, i as int + needle@.len() as int)),
            decreases m - k + (hit as int),
        {
            if hay.get_char(i + k) != needle.get_char(k) {
                proof {
                    let sub = hay@.subrange(i as int, i as int + needle@.len() as int);
                    assert(sub[k as int] == hay@[i + k]);
                }
                hit = false;
            } else {
                k += 1;
            }
        }
        if hit {
            proof {
                let sub = hay@.subrange(i as int, i as int + needle@.len() as int);
                assert(needle@ =~= sub) by {
                    assert(forall|t: int| 0 <= t < m ==> #[trigger] sub[t] == hay@[i + t]);
                }
            }
            return true;
        }
        i += 1;
    }
    proof {
        assert(!has_substring(hay@, needle@));
    }
    false
}

/// What the `urlencoding` crate's percent-encoding produces for a string.
pub uninterp spec fn url_encoded(s: Seq<char>) -> Seq<char>;

/// Relies on urlencoding::encode: percent-encodes every byte of the
/// UTF-8 text except alphanumerics and `-`, `_`, `.`, `~`; a function of
/// the input alone.
#[verifier::external_body]
fn url_encode(s: &str) -> (r: String)
    ensures
        r@ == url_encoded(s@),
{
    urlencoding::encode(s).into_owned()
}

/// A caller that asks for HTML gets redirects; everything else gets
/// structured errors.
pub open spec fn is_browser_spec(accept: Option<Seq<char>>) -> bool {
    match accept {
        Some(a) => has_substring(a, "text/html"@),
        None => false,
    }
}

/// The credential of a request: the session cookie's value when the
/// cookie is present, else the bearer token of the authorization header.
pub open spec fn credential_spec(cookie: Option<Seq<char>>, auth: Option<Seq<char>>) -> Option<
    Seq<char>,
> {
    match cookie {
        Some(v) => Some(v),
        None => match auth {
            Some(h) => if "Bearer "@.is_prefix_of(h) {
                Some(h.skip("Bearer "@.len() as int))
            } else {
                None
            },
            None => None,
        },
    }
}

/// The login redirect a browser caller is sent to, with the original
/// path percent-encoded so login can return there.
pub open spec fn login_redirect_spec(path: Seq<char>) -> Seq<char> {
    "/bouncarr/login?redirect="@ + url_encoded(path)
}

/// Extract the request's credential from the session cookie or the
/// `Bearer` scheme of the authorization header.
pub fn extract_token(cookie: Option<&String>, auth: Option<&String>) -> (r: Option<String>)
    ensures
        match r {
            Some(t) => credential_spec(opt_seq(cookie), opt_seq(auth)) == Some(t@),
            None => credential_spec(opt_seq(cookie), opt_seq(auth)) is None,
        },
{
    match cookie {
        Some(v) => Some(v.clone()),
        None => match auth {
            Some(h) => {
                let n = h.as_str().unicode_len();
                let m = bearer_len();
                if crate::bridge::str_has_prefix(h.as_str(), "Bearer ") {
                    let rest = h.as_str().substring_char(m, n);
                    proof {
                        assert(rest@ =~= h@.skip("Bearer "@.len() as int));
                    }
                    Some(String::from_str(rest))
                } else {
                    None
                }
            },
            None => None,
        },
    }
}

/// The view of an optional borrowed string.
pub open spec fn opt_seq(s: Option<&String>) -> Option<Seq<char>> {
    match s {
        Some(v) => Some(v@),
        None => None,
    }
}

fn bearer_len() -> (r: usize)
    ensures
        r == "Bearer "@.len(),
{
    proof {
        reveal_strlit("Bearer ");
    }
    7
}

/// What the interceptor decides for one request.
#[derive(Debug)]
pub enum AuthOutcome {
    /// Let the request through, with the verified identity attached.
    Proceed(UserInfo),
    /// Send a browser caller to the login page at this location.
    RedirectToLogin(String),
    /// Reject the request with this error.
    Deny(AppError),
}

/// The authorization decision at clock time `now`. A missing or failing
/// credential sends browser callers to login with the original path
/// preserved and denies other callers as unauthenticated; a valid
/// credential without administrator rights is denied as forbidden for
/// every caller; a valid administrator credential passes, with the
/// identity rebuilt from the verified claims.
pub fn authorize_request_at(
    jwt: &JwtManager,
    cookie_token: Option<&String>,
    bearer_header: Option<&String>,
    accept_header: Option<&String>,
    path: &String,
    now: i64,
) -> (r: AuthOutcome)
    ensures
        ({
            let cred = credential_spec(opt_seq(cookie_token), opt_seq(bearer_header));
            let browser = is_browser_spec(opt_seq(accept_header));
            match cred {
                None => if browser {
                    r matches AuthOutcome::RedirectToLogin(u) && u@ == login_redirect_spec(path@)
                } else {
                    r == AuthOutcome::Deny(AppError::Unauthorized)
                },
                Some(t) => match validate_spec(jwt.spec_secret(), t, TokenType::Access, now as int) {
                    Err(_) => if browser {
                        r matches AuthOutcome::RedirectToLogin(u) && u@ == login_redirect_spec(
                            path@,
                        )
                    } else {
                        r == AuthOutcome::Deny(AppError::Unauthorized)
                    },
                    Ok(c) => if !c.is_admin {
                        r == AuthOutcome::Deny(AppError::Forbidden)
                    } else {
                        r matches AuthOutcome::Proceed(u) && u@.user_id == c.sub && u@.username
                            == c.username && u@.is_administrator == c.is_admin
                    },
                },
            }
        }),
{
    let is_browser = match accept_header {
        Some(a) => contains_sub(a.as_str(), "text/html"),
        None => false,
    };
    let token = match extract_token(cookie_token, bearer_header) {
        Some(t) => t,
        None => {
            if is_browser {
                return AuthOutcome::RedirectToLogin(login_redirect(path));
            }
            return AuthOutcome::Deny(AppError::Unauthorized);
        },
    };
    let claims = match jwt.validate_token_at(token.as_str(), TokenType::Access, now) {
        Ok(c) => c,
        Err(_) => {
            if is_browser {
                return AuthOutcome::RedirectToLogin(login_redirect(path));
            }
            return AuthOutcome::Deny(AppError::Unauthorized);
        },
    };
    if !claims.is_admin {
        return AuthOutcome::Deny(AppError::Forbidden);
    }
    AuthOutcome::Proceed(
        UserInfo {
            user_id: claims.sub,
            username: claims.username,
            is_administrator: claims.is_admin,
        },
    )
}

fn login_redirect(path: &String) -> (r: String)
    ensures
        r@ == login_redirect_spec(path@),
{
    let mut out = String::from_str("/bouncarr/login?redirect=");
    let encoded = url_encode(path.as_str());
    out.append(encoded.as_str());
    out
}

/// The authorization decision at the current clock time. Whatever the clock
/// read: a request without any credential never proceeds, and a request
/// that proceeds carried a credential that decodes under the engine's
/// secret to access claims with administrator rights, which are the
/// attached identity.
pub fn authorize_request(
    jwt: &JwtManager,
    cookie_token: Option<&String>,
    bearer_header: Option<&String>,
    accept_header: Option<&String>,
    path: &String,
) -> (r: AuthOutcome)
    ensures
        credential_spec(opt_seq(cookie_token), opt_seq(bearer_header)) is None ==> (
        if is_browser_spec(opt_seq(accept_header)) {
            r matches AuthOutcome::RedirectToLogin(u) && u@ == login_redirect_spec(path@)
        } else {
            r == AuthOutcome::Deny(AppError::Unauthorized)
        }),
        r matches AuthOutcome::Proceed(u) ==> ({
            let cred = credential_spec(opt_seq(cookie_token), opt_seq(bearer_header));
            &&& cred is Some
            &&& exists|t: int| #[trigger] validated_admin(jwt.spec_secret(), cred.unwrap(), t, u@)
        }),
{
    let now = crate::jwt::unix_now();
    let r = authorize_request_at(jwt, cookie_token, bearer_header, accept_header, path, now);
    proof {
        let cred = credential_spec(opt_seq(cookie_token), opt_seq(bearer_header));
        match &r {
            AuthOutcome::Proceed(u) => {
                assert(validated_admin(jwt.spec_secret(), cred.unwrap(), now as int, u@));
            },
            _ => {},
        }
    }
    r
}

/// The identity attached downstream carries exactly the verified claims.
pub open spec fn claims_match(c: crate::claims::ClaimsView, u: crate::jellyfin::UserInfoView) -> bool {
    u.user_id == c.sub && u.username == c.username && u.is_administrator == c.is_admin
}

/// At time `t` the credential verifies as an access token whose claims
/// carry administrator rights and are exactly the attached identity.
pub open spec fn validated_admin(
    secret: Seq<u8>,
    cred: Seq<char>,
    t: int,
    u: crate::jellyfin::UserInfoView,
) -> bool {
    match validate_spec(secret, cred, TokenType::Access, t) {
        Ok(c) => claims_match(c, u) && c.is_admin,
        Err(_) => false,
    }
}

} // verus!
