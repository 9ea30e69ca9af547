//! Signing in from the mobile client: the request and answer records, and what an answer does
//! to the session.
use vstd::prelude::*;
use crate::text::concat;
use crate::unlocker::session::Unlocker;

verus! {

/// The client's sign-in request.
#[derive(Debug, Clone)]
pub struct LoginRequest {
    pub email: String,
    pub password: String,
}

/// The server's answer to a sign-in.
#[derive(Debug, Clone)]
pub struct LoginResponse {
    pub success: bool,
    pub token: Option<String>,
    pub user_id: Option<String>,
    pub message: String,
}

/// The client's request to create an account.
#[derive(Debug, Clone)]
pub struct RegisterRequest {
    pub email: String,
    pub username: String,
    pub password: String,
}

/// The server's answer to a registration.
#[derive(Debug, Clone)]
pub struct RegisterResponse {
    pub success: bool,
    pub user_id: Option<String>,
    pub message: String,
}

impl LoginResponse {
    /// The answer recorded when the server refuses a sign-in with an HTTP status: no token,
    /// no user, and the status in the message.
    pub fn rejected(status: &str) -> (r: Self)
        ensures
            !r.success,
            r.token is None,
            r.user_id is None,
            r.message@ == "Login failed with status: "@ + status@,
    {
        LoginResponse {
            success: false,
            token: None,
            user_id: None,
            message: concat("Login failed with status: ", status),
        }
    }
}

impl RegisterResponse {
    /// The answer recorded when the server refuses a registration with an HTTP status.
    pub fn rejected(status: &str) -> (r: Self)
        ensures
            !r.success,
            r.user_id is None,
            r.message@ == "Registration failed with status: "@ + status@,
    {
        RegisterResponse {
            success: false,
            user_id: None,
            message: concat("Registration failed with status: ", status),
        }
    }
}

/// The message given when the server reports success without a token or a user.
pub open spec fn missing_credentials_message() -> Seq<char> {
    "Login succeeded but token/user_id missing"@
}

/// Applies the answer to a sign-in to the session. A successful answer carrying both a token
/// and a user id installs them and gives the token with the server's message; any other
/// answer leaves the session as it was and gives the message to show: the server's when it
/// refused, a fixed one when it claimed success without credentials.
pub fn apply_login(unlocker: &mut Unlocker, response: LoginResponse) -> (r: Result<
    (String, String),
    String,
>)
    ensures
        match (response.success, response.token, response.user_id) {
            (true, Some(token), Some(user_id)) => {
                &&& r matches Ok((t, m)) && t@ == token@ && m@ == response.message@
                &&& final(unlocker).spec_user_token() == token@
                &&& final(unlocker).spec_user_id() == user_id@
            },
            _ => {
                &&& r matches Err(m) && m@ == if response.success {
                    missing_credentials_message()
                } else {
                    response.message@
                }
                &&& final(unlocker).spec_user_token() == old(unlocker).spec_user_token()
                &&& final(unlocker).spec_user_id() == old(unlocker).spec_user_id()
            },
        },
        final(unlocker).spec_counter() == old(unlocker).spec_counter(),
        final(unlocker).spec_server_public_key() == old(unlocker).spec_server_public_key(),
{
    if response.success {
        match (response.token, response.user_id) {
            (Some(token), Some(user_id)) => {
                let shown = token.clone();
                unlocker.set_user_token(token);
                unlocker.set_user_id(user_id);
                Ok((shown, response.message))
            },
            _ => Err("Login succeeded but token/user_id missing".to_string()),
        }
    } else {
        Err(response.message)
    }
}

} // verus!
