//! Accounts, listing queries and unlock bookkeeping.
use vstd::prelude::*;

verus! {

/// A request to create an account.
#[derive(Debug, Clone, PartialEq)]
pub struct RegisterRequest {
    pub username: String,
    pub email: String,
    pub password: String,
}

/// A request to sign in.
#[derive(Debug, Clone, PartialEq)]
pub struct LoginRequest {
    pub username: String,
    pub password: String,
}

/// The answer to a successful sign-in.
#[derive(Debug, Clone, PartialEq)]
pub struct AuthResponse {
    pub token: String,
    pub user_id: String,
    pub username: String,
}

/// The claims carried by an access token.
#[derive(Debug, Clone, PartialEq)]
pub struct TokenClaims {
    /// The user the token was issued to.
    pub sub: String,
    pub username: String,
    /// Expiry, in seconds since the epoch.
    pub exp: i64,
    /// Issue time, in seconds since the epoch.
    pub iat: i64,
}

/// Paging, search and sort parameters for listing resources; every one may be left out.
#[derive(Debug, Clone)]
pub struct ReadQuery {
    pub offset: Option<u64>,
    pub limit: Option<u64>,
    pub query: Option<String>,
    pub sort: Option<String>,
    pub asc: Option<bool>,
    pub case_sensitive: Option<bool>,
}

impl Default for ReadQuery {
    /// A query that sets no parameter.
    fn default() -> (q: Self)
        ensures
            q.offset is None,
            q.limit is None,
            q.query is None,
            q.sort is None,
            q.asc is None,
            q.case_sensitive is None,
    {
        ReadQuery {
            offset: None,
            limit: None,
            query: None,
            sort: None,
            asc: None,
            case_sensitive: None,
        }
    }
}

/// How a user proved presence at an unlock point.
#[derive(Debug, Clone, Copy, PartialEq, Eq, Structural)]
pub enum AuthenticationType {
    /// Bluetooth Low Energy, the unlock pipeline of this project.
    Ble,
    /// Near-field communication.
    Nfc,
    /// Username and password.
    Password,
    /// A one-time password.
    Otp,
    /// Biometrics on the unlocking device.
    Biometrics,
}

impl AuthenticationType {
    /// The kebab-case method name.
    pub open spec fn name(self) -> Seq<char> {
        match self {
            AuthenticationType::Ble => "ble"@,
            AuthenticationType::Nfc => "nfc"@,
            AuthenticationType::Password => "password"@,
            AuthenticationType::Otp => "otp"@,
            AuthenticationType::Biometrics => "biometrics"@,
        }
    }

    /// The kebab-case method name.
    pub fn to_string(&self) -> (s: String)
        ensures
            s@ == self.name(),
    {
        match self {
            AuthenticationType::Ble => "ble".to_string(),
            AuthenticationType::Nfc => "nfc".to_string(),
            AuthenticationType::Password => "password".to_string(),
            AuthenticationType::Otp => "otp".to_string(),
            AuthenticationType::Biometrics => "biometrics".to_string(),
        }
    }
}

/// How far an unlock attempt has come.
#[derive(Debug, Clone, Copy, PartialEq, Eq, Structural)]
pub enum UnlockStage {
    Initiated,
    Verified,
    Completed,
    Failed,
}

impl UnlockStage {
    /// The kebab-case stage name.
    pub open spec fn name(self) -> Seq<char> {
        match self {
            UnlockStage::Initiated => "initiated"@,
            UnlockStage::Verified => "verified"@,
            UnlockStage::Completed => "completed"@,
            UnlockStage::Failed => "failed"@,
        }
    }

    /// The kebab-case stage name.
    pub fn to_string(&self) -> (s: String)
        ensures
            s@ == self.name(),
    {
        match self {
            UnlockStage::Initiated => "initiated".to_string(),
            UnlockStage::Verified => "verified".to_string(),
            UnlockStage::Completed => "completed".to_string(),
            UnlockStage::Failed => "failed".to_string(),
        }
    }
}

/// Each authentication method has its fixed kebab-case name.
pub proof fn law_authentication_type_names(a: AuthenticationType)
    ensures
        a == AuthenticationType::Ble ==> a.name() == "ble"@,
        a == AuthenticationType::Nfc ==> a.name() == "nfc"@,
        a == AuthenticationType::Password ==> a.name() == "password"@,
        a == AuthenticationType::Otp ==> a.name() == "otp"@,
        a == AuthenticationType::Biometrics ==> a.name() == "biometrics"@,
{
}

/// Each unlock stage has its fixed kebab-case name.
pub proof fn law_unlock_stage_names(s: UnlockStage)
    ensures
        s == UnlockStage::Initiated ==> s.name() == "initiated"@,
        s == UnlockStage::Verified ==> s.name() == "verified"@,
        s == UnlockStage::Completed ==> s.name() == "completed"@,
        s == UnlockStage::Failed ==> s.name() == "failed"@,
{
}

} // verus!
