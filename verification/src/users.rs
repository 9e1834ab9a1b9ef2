//! User accounts: the stored user record and the request and response
//! payloads of the account endpoints. Identifiers are carried as
//! integers and instants as Unix timestamps.

use vstd::prelude::*;
use crate::crypto::bcrypt_matches;
use crate::crypto::verify_bcrypt;

verus! {

/// How an account authenticates.
#[derive(Clone, Copy, Debug, PartialEq, Eq, Structural)]
pub enum AuthMethod {
    Password,
    Oidc,
}

/// User information reported by an OIDC provider.
#[derive(Clone, Debug)]
pub struct OidcUserInfo {
    pub sub: String,
    pub email: String,
    pub email_verified: bool,
    pub name: Option<String>,
    pub given_name: Option<String>,
    pub family_name: Option<String>,
    pub picture: Option<String>,
    pub locale: Option<String>,
    pub preferred_username: Option<String>,
}

/// A stored user record.
#[derive(Clone, Debug)]
pub struct User {
    pub id: u64,
    pub username: String,
    pub email: String,
    pub password_hash: Option<String>,
    pub display_name: String,
    pub avatar_url: Option<String>,
    pub is_active: bool,
    pub email_verified: bool,
    pub auth_method: AuthMethod,
    pub oidc_provider: Option<String>,
    pub oidc_provider_id: Option<String>,
    pub last_login_at: Option<i64>,
    pub created_at: i64,
    pub updated_at: i64,
}

impl User {
    /// Whether `password` matches this user's stored hash; a user
    /// without a stored hash (an OIDC account) matches no password.
    pub fn verify_password(&self, password: &str) -> (r: bool)
        ensures
            r == match self.password_hash {
                Some(ref h) => bcrypt_matches(password@, h@),
                None => false,
            },
    {
        match &self.password_hash {
            Some(hash) => verify_bcrypt(password, hash),
            None => false,
        }
    }
}

/// User creation request.
#[derive(Clone, Debug)]
pub struct CreateUser {
    pub username: String,
    pub email: String,
    pub password: String,
    pub display_name: String,
    pub avatar_url: Option<String>,
}

/// OIDC user creation request.
#[derive(Clone, Debug)]
pub struct CreateOidcUser {
    pub username: String,
    pub email: String,
    pub display_name: String,
    pub avatar_url: Option<String>,
    pub provider: String,
    pub provider_id: String,
}

/// User update request.
#[derive(Clone, Debug)]
pub struct UpdateUser {
    pub display_name: Option<String>,
    pub avatar_url: Option<String>,
    pub is_active: Option<bool>,
}

/// User profile response (without sensitive data).
#[derive(Clone, Debug)]
pub struct UserProfile {
    pub id: u64,
    pub username: String,
    pub email: String,
    pub display_name: String,
    pub avatar_url: Option<String>,
    pub is_active: bool,
    pub email_verified: bool,
    pub last_login_at: Option<i64>,
    pub created_at: i64,
}

impl UserProfile {
    /// The public profile of a stored user record.
    pub fn of_user(user: User) -> (r: Self)
        ensures
            r.id == user.id,
            r.username == user.username,
            r.email == user.email,
            r.display_name == user.display_name,
            r.avatar_url == user.avatar_url,
            r.is_active == user.is_active,
            r.email_verified == user.email_verified,
            r.last_login_at == user.last_login_at,
            r.created_at == user.created_at,
    {
        UserProfile {
            id: user.id,
            username: user.username,
            email: user.email,
            display_name: user.display_name,
            avatar_url: user.avatar_url,
            is_active: user.is_active,
            email_verified: user.email_verified,
            last_login_at: user.last_login_at,
            created_at: user.created_at,
        }
    }
}

/// Per-user editor preferences.
#[derive(Clone, Debug)]
pub struct UserPreferences {
    pub user_id: u64,
    pub theme: String,
    pub language: String,
    pub latex_engine: String,
    pub auto_save: bool,
    pub line_numbers: bool,
    pub word_wrap: bool,
    pub font_size: i32,
    pub tab_size: i32,
    pub created_at: i64,
    pub updated_at: i64,
}

impl UserPreferences {
    /// Default preferences for a new user, created at `now`.
    pub fn default(user_id: u64, now: i64) -> (r: Self)
        ensures
            r.user_id == user_id,
            r.theme@ == "dark"@,
            r.language@ == "en"@,
            r.latex_engine@ == "pdflatex"@,
            r.auto_save && r.line_numbers && r.word_wrap,
            r.font_size == 14,
            r.tab_size == 2,
            r.created_at == now,
            r.updated_at == now,
    {
        UserPreferences {
            user_id,
            theme: "dark".to_owned(),
            language: "en".to_owned(),
            latex_engine: "pdflatex".to_owned(),
            auto_save: true,
            line_numbers: true,
            word_wrap: true,
            font_size: 14,
            tab_size: 2,
            created_at: now,
            updated_at: now,
        }
    }
}

/// Password reset request.
#[derive(Clone, Debug)]
pub struct PasswordResetRequest {
    pub email: String,
}

/// Password reset confirmation.
#[derive(Clone, Debug)]
pub struct PasswordResetConfirm {
    pub token: String,
    pub new_password: String,
}

/// Email verification request.
#[derive(Clone, Debug)]
pub struct EmailVerificationRequest {
    pub email: String,
}

/// Login request.
#[derive(Clone, Debug)]
pub struct LoginRequest {
    pub email: String,
    pub password: String,
}

/// Login response.
#[derive(Clone, Debug)]
pub struct LoginResponse {
    pub user: UserProfile,
    pub access_token: String,
    pub refresh_token: String,
    pub expires_in: u64,
}

/// Refresh token request.
#[derive(Clone, Debug)]
pub struct RefreshTokenRequest {
    pub refresh_token: String,
}

/// Refresh token response.
#[derive(Clone, Debug)]
pub struct RefreshTokenResponse {
    pub access_token: String,
    pub expires_in: u64,
}

/// OIDC login request.
#[derive(Clone, Debug)]
pub struct OidcLoginRequest {
    pub provider: String,
}

/// OIDC login URL response.
#[derive(Clone, Debug)]
pub struct OidcLoginUrlResponse {
    pub auth_url: String,
    pub state: String,
    pub pkce_challenge: Option<String>,
}

/// Profile update request.
#[derive(Clone, Debug)]
pub struct UserUpdateRequest {
    pub display_name: Option<String>,
    pub avatar_url: Option<String>,
}

/// Preferences update request.
#[derive(Clone, Debug)]
pub struct UserPreferencesUpdateRequest {
    pub theme: Option<String>,
    pub language: Option<String>,
    pub latex_engine: Option<String>,
    pub auto_save: Option<bool>,
    pub line_numbers: Option<bool>,
    pub word_wrap: Option<bool>,
    pub font_size: Option<i32>,
    pub tab_size: Option<i32>,
}

/// User search parameters.
#[derive(Clone, Debug)]
pub struct UserSearchParams {
    pub query: String,
    pub limit: Option<u32>,
    pub offset: Option<u32>,
}

/// OIDC callback request.
#[derive(Clone, Debug)]
pub struct OidcCallbackRequest {
    pub code: String,
    pub state: String,
    pub provider: String,
}

} // verus!
