//! The shapes exchanged with the external identity provider, and the
//! identity value that travels with authenticated requests. The network
//! client that fills these shapes lives outside the library.

use vstd::prelude::*;

verus! {

/// Request body for the identity provider's name-and-password check.
#[derive(Debug, Clone)]
pub struct AuthenticateRequest {
    pub username: String,
    pub pw: String,
}

/// What the identity provider answers on a successful check.
#[derive(Debug, Clone)]
pub struct AuthenticateResponse {
    pub user: User,
    pub access_token: String,
}

/// A user record as the identity provider reports it.
#[derive(Debug, Clone)]
pub struct User {
    pub id: String,
    pub name: String,
    pub policy: UserPolicy,
}

/// The slice of the provider's user policy that the gateway reads.
#[derive(Debug, Clone)]
pub struct UserPolicy {
    pub is_administrator: bool,
}

/// The identity attached to authenticated requests.
#[derive(Debug, Clone)]
pub struct UserInfo {
    pub user_id: String,
    pub username: String,
    pub is_administrator: bool,
}

/// Mathematical model of an identity.
pub ghost struct UserInfoView {
    pub user_id: Seq<char>,
    pub username: Seq<char>,
    pub is_administrator: bool,
}

impl View for UserInfo {
    type V = UserInfoView;

    open spec fn view(&self) -> UserInfoView {
        UserInfoView {
            user_id: self.user_id@,
            username: self.username@,
            is_administrator: self.is_administrator,
        }
    }
}

impl From<User> for UserInfo {
    fn from(user: User) -> (r: UserInfo) {
        UserInfo {
            user_id: user.id,
            username: user.name,
            is_administrator: user.policy.is_administrator,
        }
    }
}

impl vstd::std_specs::convert::FromSpecImpl<User> for UserInfo {
    open spec fn obeys_from_spec() -> bool {
        true
    }

    open spec fn from_spec(user: User) -> UserInfo {
        UserInfo {
            user_id: user.id,
            username: user.name,
            is_administrator: user.policy.is_administrator,
        }
    }
}

} // verus!
