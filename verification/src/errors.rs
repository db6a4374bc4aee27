use vstd::prelude::*;

verus! {

/// What a failed route lookup reports: the name that was asked for and every
/// configured name, so an operator can see what would have matched.
#[derive(Debug, Clone)]
pub struct RouteMiss {
    pub requested: String,
    pub available: Vec<String>,
}

/// The error taxonomy of the gateway.
#[derive(Debug, Clone)]
pub enum AppError {
    /// Configuration was rejected before the gateway started.
    Config(String),
    /// Login input or upstream authentication was rejected.
    AuthenticationFailed(String),
    /// No credential, or a credential whose signature or payload is invalid.
    Unauthorized,
    /// A credential that verified but has passed its expiry.
    TokenExpired,
    /// A credential of the wrong kind for what the verifier expected.
    InvalidToken,
    /// A valid credential without administrator rights.
    Forbidden,
    /// An outbound request to an upstream service failed on the network.
    RequestFailed(String),
    /// The gateway could not forward a request or relay the answer.
    ProxyError(String),
    /// The first path segment names no configured application.
    AppNotFound(RouteMiss),
    /// A clock, encoding or signing anomaly inside the gateway.
    Internal(String),
}

impl AppError {
    /// The HTTP status code that each error maps to when it is rendered:
    /// authentication failures are 401, missing privilege 403, unknown
    /// applications 404, upstream failures 502, internal anomalies 500.
    pub open spec fn spec_status_code(&self) -> u16 {
        match self {
            AppError::Config(_) => 500,
            AppError::AuthenticationFailed(_) => 401,
            AppError::Unauthorized => 401,
            AppError::TokenExpired => 401,
            AppError::InvalidToken => 401,
            AppError::Forbidden => 403,
            AppError::RequestFailed(_) => 502,
            AppError::ProxyError(_) => 502,
            AppError::AppNotFound(_) => 404,
            AppError::Internal(_) => 500,
        }
    }

    /// The HTTP status code of this error.
    pub fn status_code(&self) -> (code: u16)
        ensures
            code == self.spec_status_code(),
    {
        match self {
            AppError::Config(_) => 500,
            AppError::AuthenticationFailed(_) => 401,
            AppError::Unauthorized => 401,
            AppError::TokenExpired => 401,
            AppError::InvalidToken => 401,
            AppError::Forbidden => 403,
            AppError::RequestFailed(_) => 502,
            AppError::ProxyError(_) => 502,
            AppError::AppNotFound(_) => 404,
            AppError::Internal(_) => 500,
        }
    }
}

} // verus!
