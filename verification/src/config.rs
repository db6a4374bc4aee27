//! The configuration the gateway runs with, and its validation. Loading
//! the values from a file or the environment happens outside the library;
//! the shapes and the URL checks live here.

use vstd::prelude::*;
use vstd::string::{StrSliceExecFns, StringExecFns};
use crate::errors::AppError;

verus! {

/// Main application configuration.
#[derive(Debug, Clone)]
pub struct Config {
    /// Identity-provider server configuration.
    pub jellyfin: JellyfinConfig,
    /// The applications the gateway proxies to, in lookup order.
    pub arr_apps: Vec<ArrApp>,
    /// Listener configuration.
    pub server: ServerConfig,
    /// Security and session settings.
    pub security: SecurityConfig,
}

/// Identity-provider server configuration.
#[derive(Debug, Clone)]
pub struct JellyfinConfig {
    pub url: String,
    pub api_key: String,
}

/// One proxied application: its routing name and its backend base URL.
#[derive(Debug, Clone)]
pub struct ArrApp {
    pub name: String,
    pub url: String,
}

/// Listener configuration.
#[derive(Debug, Clone)]
pub struct ServerConfig {
    pub host: String,
    pub port: u16,
    /// Outbound request timeout in seconds; a non-positive value disables it.
    pub request_timeout_seconds: i64,
}

/// Security and session settings.
#[derive(Debug, Clone)]
pub struct SecurityConfig {
    pub access_token_expiry_hours: u64,
    pub refresh_token_expiry_days: u64,
    pub cookie_name: String,
    pub refresh_cookie_name: String,
    pub secure_cookies: bool,
    /// Signing secret; when absent or empty a random one is generated at
    /// startup, which invalidates all outstanding tokens on restart.
    pub jwt_secret: Option<String>,
}

/// What `url::Url::parse` reports of a string: `None` when it does not
/// parse, otherwise the scheme and whether the URL has a host.
pub uninterp spec fn url_scheme_host(s: Seq<char>) -> Option<(Seq<char>, bool)>;

/// Relies on url::Url::parse: whether a string parses as a URL, what its
/// scheme is, and whether it carries a host are functions of the string.
#[verifier::external_body]
fn parse_url_parts(s: &String) -> (r: Option<(String, bool)>)
    ensures
        (r is Some <==> url_scheme_host(s@) is Some),
        r is Some ==> r.unwrap().0@ == url_scheme_host(s@).unwrap().0 && r.unwrap().1
            == url_scheme_host(s@).unwrap().1,
{
    match url::Url::parse(s.as_str()) {
        Ok(u) => Some((u.scheme().to_string(), u.host_str().is_some())),
        Err(_) => None,
    }
}

/// A usable backend or provider URL: non-empty, parses, uses the http or
/// https scheme, and names a host.
pub open spec fn url_ok(s: Seq<char>) -> bool {
    s.len() > 0 && match url_scheme_host(s) {
        Some(parts) => (parts.0 == "http"@ || parts.0 == "https"@) && parts.1,
        None => false,
    }
}

impl Config {
    /// Check one URL; the error text names what the URL belongs to.
    pub fn validate_url(url: &String, context: &str) -> (r: Result<(), String>)
        ensures
            r is Ok <==> url_ok(url@),
    {
        if url.unicode_len() == 0 {
            let mut msg = String::from_str(context);
            msg.append(" URL cannot be empty");
            return Err(msg);
        }
        match parse_url_parts(url) {
            Some(parts) => {
                let (scheme, has_host) = parts;
                let http = String::from_str("http");
                let https = String::from_str("https");
                if !(scheme == http || scheme == https) {
                    let mut msg = String::from_str(context);
                    msg.append(" URL must use http:// or https:// scheme");
                    return Err(msg);
                }
                if !has_host {
                    let mut msg = String::from_str(context);
                    msg.append(" URL must have a valid host");
                    return Err(msg);
                }
                Ok(())
            },
            None => {
                let mut msg = String::from_str(context);
                msg.append(" URL is invalid");
                Err(msg)
            },
        }
    }

    /// Every configured URL is usable: the identity provider's, and each
    /// proxied application's.
    pub fn validate(&self) -> (r: Result<(), AppError>)
        ensures
            r is Ok <==> url_ok(self.jellyfin.url@) && (forall|i: int|
                0 <= i < self.arr_apps@.len() ==> url_ok(#[trigger] self.arr_apps@[i].url@)),
    {
        if let Err(e) = Self::validate_url(&self.jellyfin.url, "Jellyfin") {
            return Err(AppError::Config(e));
        }
        let mut i: usize = 0;
        while i < self.arr_apps.len()
            invariant
                i <= self.arr_apps@.len(),
                url_ok(self.jellyfin.url@),
                forall|k: int| 0 <= k < i ==> url_ok(#[trigger] self.arr_apps@[k].url@),
            decreases self.arr_apps@.len() - i,
        {
            let app = &self.arr_apps[i];
            if let Err(e) = Self::validate_url(&app.url, "Arr app") {
                return Err(AppError::Config(e));
            }
            i += 1;
        }
        Ok(())
    }
}

} // verus!
