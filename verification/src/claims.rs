use vstd::prelude::*;

verus! {

/// Kind of a session credential: short-lived access, or longer-lived refresh.
#[derive(Debug, Clone, Copy, PartialEq, Eq, Structural)]
pub enum TokenType {
    /// Access token for proxied requests.
    Access,
    /// Refresh token, used only to mint new access tokens.
    Refresh,
}

/// The claims carried by a session credential.
#[derive(Debug, Clone)]
pub struct Claims {
    /// Subject: the identity's stable id.
    pub sub: String,
    /// Display name of the identity.
    pub username: String,
    /// Whether the identity has administrator rights.
    pub is_admin: bool,
    /// Expiry, seconds since the Unix epoch.
    pub exp: i64,
    /// Issuance time, seconds since the Unix epoch.
    pub iat: i64,
    /// Kind of the credential.
    pub token_type: TokenType,
}

/// Mathematical model of a claims value.
pub ghost struct ClaimsView {
    pub sub: Seq<char>,
    pub username: Seq<char>,
    pub is_admin: bool,
    pub exp: int,
    pub iat: int,
    pub token_type: TokenType,
}

impl ClaimsView {
    /// Well-formedness: timestamps are non-negative, a credential never
    /// expires before it was issued, and both fit a signed 64-bit count.
    pub open spec fn wf(self) -> bool {
        0 <= self.iat <= self.exp <= i64::MAX
    }
}

impl View for Claims {
    type V = ClaimsView;

    open spec fn view(&self) -> ClaimsView {
        ClaimsView {
            sub: self.sub@,
            username: self.username@,
            is_admin: self.is_admin,
            exp: self.exp as int,
            iat: self.iat as int,
            token_type: self.token_type,
        }
    }
}

} // verus!
