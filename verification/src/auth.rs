//! Token claims, password rules and the per-request authentication
//! context.

use vstd::prelude::*;
use crate::crypto::bcrypt_matches;
use crate::crypto::hash_bcrypt;
use crate::crypto::is_ascii_alphanumeric;
use crate::crypto::random_alphanumeric;
use crate::crypto::verify_bcrypt;
use crate::errors::AppError;
use crate::models::UserRole;
use crate::text::is_digit_char;
use crate::text::parse_u64;
use crate::text::spec_all_digits;
use crate::text::spec_decimal;
use crate::text::spec_digits_value;
use crate::text::decimal_string;
use crate::users::User;
use vstd::string::StringSliceAdditionalSpecFns;

verus! {

/// JWT token claims.
#[derive(Clone, Debug)]
pub struct Claims {
    /// User ID
    pub sub: String,
    pub username: String,
    pub email: String,
    pub roles: Vec<UserRole>,
    /// Issued at
    pub iat: i64,
    /// Expiration
    pub exp: i64,
    /// Issuer
    pub iss: String,
    /// Token ID for blacklisting
    pub jti: String,
}

impl Claims {
    /// New claims for a user, issued at `now` and expiring
    /// `expiration` seconds later, with a fresh random token ID.
    pub fn new(user: &User, roles: Vec<UserRole>, expiration: i64, issuer: String, now: i64) -> (r:
        Self)
        requires
            i64::MIN <= now + expiration <= i64::MAX,
        ensures
            r.sub@ == spec_decimal(user.id as nat),
            r.username == user.username,
            r.email == user.email,
            r.roles == roles,
            r.iat == now,
            r.exp == now + expiration,
            r.iss == issuer,
            r.jti@.len() == 32,
    {
        Claims {
            sub: decimal_string(user.id),
            username: user.username.clone(),
            email: user.email.clone(),
            roles,
            iat: now,
            exp: now + expiration,
            iss: issuer,
            jti: PasswordUtils::generate_reset_token(),
        }
    }

    /// Whether the token has expired by instant `now`.
    pub fn is_expired(&self, now: i64) -> (r: bool)
        ensures
            r == (now > self.exp),
    {
        now > self.exp
    }
}

/// A pair of freshly issued tokens.
#[derive(Clone, Debug)]
pub struct TokenPair {
    pub access_token: String,
    pub refresh_token: String,
    pub expires_in: u64,
}

/// Whether the character has the Unicode uppercase property, as
/// `char::is_uppercase` reports it.
pub uninterp spec fn is_uppercase_char(c: char) -> bool;

/// Whether the character has the Unicode lowercase property, as
/// `char::is_lowercase` reports it.
pub uninterp spec fn is_lowercase_char(c: char) -> bool;

/// Relies on char::is_uppercase: the Unicode uppercase property, a
/// function of the character alone; of the ASCII range, exactly the
/// letters `A`-`Z` have it.
pub assume_specification[ char::is_uppercase ](c: char) -> (r: bool)
    ensures
        r == is_uppercase_char(c),
        ('A' <= c && c <= 'Z') ==> r,
        (('a' <= c && c <= 'z') || ('0' <= c && c <= '9')) ==> !r,
;

/// Relies on char::is_lowercase: the Unicode lowercase property, a
/// function of the character alone; of the ASCII range, exactly the
/// letters `a`-`z` have it.
pub assume_specification[ char::is_lowercase ](c: char) -> (r: bool)
    ensures
        r == is_lowercase_char(c),
        ('a' <= c && c <= 'z') ==> r,
        (('A' <= c && c <= 'Z') || ('0' <= c && c <= '9')) ==> !r,
;

/// A character of the accepted special-character set
/// `!@#$%^&*()_+-=[]{}|;:,.<>?`.
pub open spec fn is_password_special(c: char) -> bool {
    c == '!' || c == '@' || c == '#' || c == '$' || c == '%' || c == '^' || c == '&' || c == '*'
        || c == '(' || c == ')' || c == '_' || c == '+' || c == '-' || c == '=' || c == '[' || c
        == ']' || c == '{' || c == '}' || c == '|' || c == ';' || c == ':' || c == ',' || c == '.'
        || c == '<' || c == '>' || c == '?'
}

/// The rejection message for a password, or `None` when it is strong
/// enough: at least 8 and at most 128 bytes, with an uppercase
/// letter, a lowercase letter, a decimal digit and a special
/// character. Length is measured in bytes, the letter classes are
/// the Unicode case properties, as in the surrounding service.
pub open spec fn spec_password_error(bytes: Seq<u8>, chars: Seq<char>) -> Option<Seq<char>> {
    if bytes.len() < 8 {
        Some("Password must be at least 8 characters long"@)
    } else if bytes.len() > 128 {
        Some("Password must be less than 128 characters long"@)
    } else if !(exists|i: int| 0 <= i < chars.len() && is_uppercase_char(#[trigger] chars[i])) {
        Some("Password must contain at least one uppercase letter"@)
    } else if !(exists|i: int| 0 <= i < chars.len() && is_lowercase_char(#[trigger] chars[i])) {
        Some("Password must contain at least one lowercase letter"@)
    } else if !(exists|i: int| 0 <= i < chars.len() && is_digit_char(#[trigger] chars[i])) {
        Some("Password must contain at least one digit"@)
    } else if !(exists|i: int| 0 <= i < chars.len() && is_password_special(#[trigger] chars[i])) {
        Some("Password must contain at least one special character"@)
    } else {
        None
    }
}

/// Password utilities.
pub struct PasswordUtils;

impl PasswordUtils {
    /// Hashes a password with bcrypt; every returned hash verifies
    /// against the password. Fails only when the randomness source
    /// does.
    pub fn hash_password(password: &str) -> (r: Result<String, AppError>)
        ensures
            r matches Ok(h) ==> bcrypt_matches(password@, h@) && h@.len() == 60,
            r matches Err(e) ==> e matches AppError::Authentication(_),
    {
        match hash_bcrypt(password) {
            Ok(h) => Ok(h),
            Err(msg) => Err(
                AppError::Authentication(
                    "Failed to hash password: ".to_owned().concat(msg.as_str()),
                ),
            ),
        }
    }

    /// Whether a password matches a stored bcrypt hash; a malformed
    /// hash matches no password.
    pub fn verify_password(password: &str, hash: &str) -> (r: Result<bool, AppError>)
        ensures
            r matches Ok(b) && b == bcrypt_matches(password@, hash@),
    {
        Ok(verify_bcrypt(password, hash))
    }

    /// A fresh random password-reset token of 32 alphanumeric
    /// characters.
    pub fn generate_reset_token() -> (r: String)
        ensures
            r@.len() == 32,
            forall|i: int| 0 <= i < r@.len() ==> is_ascii_alphanumeric(#[trigger] r@[i]),
    {
        random_alphanumeric(32)
    }

    /// A fresh random email-verification token of 64 alphanumeric
    /// characters.
    pub fn generate_verification_token() -> (r: String)
        ensures
            r@.len() == 64,
            forall|i: int| 0 <= i < r@.len() ==> is_ascii_alphanumeric(#[trigger] r@[i]),
    {
        random_alphanumeric(64)
    }

    /// Checks a password against the strength rules, reporting the
    /// first broken rule.
    pub fn validate_password_strength(password: &str) -> (r: Result<(), AppError>)
        ensures
            match r {
                Ok(_) => spec_password_error(password.spec_bytes(), password@) is None,
                Err(e) => e matches AppError::BadRequest(m) && spec_password_error(
                    password.spec_bytes(),
                    password@,
                ) == Some(m@),
            },
    {
        let len = password.as_bytes().len();
        if len < 8 {
            return Err(
                AppError::BadRequest("Password must be at least 8 characters long".to_owned()),
            );
        }
        if len > 128 {
            return Err(
                AppError::BadRequest("Password must be less than 128 characters long".to_owned()),
            );
        }
        let chars = password.unicode_len();
        let mut has_uppercase = false;
        let mut has_lowercase = false;
        let mut has_digit = false;
        let mut has_special = false;
        let mut i: usize = 0;
        while i < chars
            invariant
                0 <= i <= chars,
                chars == password@.len(),
                has_uppercase == exists|k: int|
                    0 <= k < i && is_uppercase_char(#[trigger] password@[k]),
                has_lowercase == exists|k: int|
                    0 <= k < i && is_lowercase_char(#[trigger] password@[k]),
                has_digit == exists|k: int| 0 <= k < i && is_digit_char(#[trigger] password@[k]),
                has_special == exists|k: int|
                    0 <= k < i && is_password_special(#[trigger] password@[k]),
            decreases chars - i,
        {
            let c = password.get_char(i);
            if c.is_uppercase() {
                has_uppercase = true;
            }
            if c.is_lowercase() {
                has_lowercase = true;
            }
            if c >= '0' && c <= '9' {
                has_digit = true;
            }
            if c == '!' || c == '@' || c == '#' || c == '$' || c == '%' || c == '^' || c == '&'
                || c == '*' || c == '(' || c == ')' || c == '_' || c == '+' || c == '-' || c == '='
                || c == '[' || c == ']' || c == '{' || c == '}' || c == '|' || c == ';' || c == ':'
                || c == ',' || c == '.' || c == '<' || c == '>' || c == '?' {
                has_special = true;
            }
            i = i + 1;
        }
        if !has_uppercase {
            return Err(
                AppError::BadRequest(
                    "Password must contain at least one uppercase letter".to_owned(),
                ),
            );
        }
        if !has_lowercase {
            return Err(
                AppError::BadRequest(
                    "Password must contain at least one lowercase letter".to_owned(),
                ),
            );
        }
        if !has_digit {
            return Err(AppError::BadRequest("Password must contain at least one digit".to_owned()));
        }
        if !has_special {
            return Err(
                AppError::BadRequest(
                    "Password must contain at least one special character".to_owned(),
                ),
            );
        }
        Ok(())
    }
}

/// Copies a role list.
pub fn clone_roles(roles: &Vec<UserRole>) -> (r: Vec<UserRole>)
    ensures
        r@ == roles@,
{
    let n = roles.len();
    let mut r: Vec<UserRole> = Vec::new();
    let mut i: usize = 0;
    while i < n
        invariant
            0 <= i <= n,
            n == roles@.len(),
            r@ == roles@.take(i as int),
        decreases n - i,
    {
        r.push(roles[i]);
        proof {
            assert(r@ =~= roles@.take(i + 1));
        }
        i = i + 1;
    }
    proof {
        assert(roles@.take(n as int) =~= roles@);
    }
    r
}

/// Authentication context for a request or connection.
#[derive(Debug)]
pub struct AuthContext {
    pub user_id: u64,
    pub username: String,
    pub email: String,
    pub roles: Vec<UserRole>,
    pub token_issued_at: i64,
    pub token_expires_at: i64,
}

/// The mathematical value of an authentication context.
#[verifier::ext_equal]
pub struct AuthContextView {
    pub user_id: u64,
    pub username: Seq<char>,
    pub email: Seq<char>,
    pub roles: Seq<UserRole>,
    pub token_issued_at: i64,
    pub token_expires_at: i64,
}

impl View for AuthContext {
    type V = AuthContextView;

    open spec fn view(&self) -> AuthContextView {
        AuthContextView {
            user_id: self.user_id,
            username: self.username@,
            email: self.email@,
            roles: self.roles@,
            token_issued_at: self.token_issued_at,
            token_expires_at: self.token_expires_at,
        }
    }
}

impl AuthContext {
    /// An identical copy of the context.
    pub fn duplicate(&self) -> (r: Self)
        ensures
            r@ == self@,
    {
        AuthContext {
            user_id: self.user_id,
            username: self.username.clone(),
            email: self.email.clone(),
            roles: clone_roles(&self.roles),
            token_issued_at: self.token_issued_at,
            token_expires_at: self.token_expires_at,
        }
    }

    /// The context carried by a set of verified claims; a subject that
    /// is not a decimal user ID maps to user 0.
    pub fn of_claims(claims: Claims) -> (r: Self)
        ensures
            r.user_id == if spec_all_digits(claims.sub@) && spec_digits_value(claims.sub@)
                <= u64::MAX {
                spec_digits_value(claims.sub@) as u64
            } else {
                0u64
            },
            r.username == claims.username,
            r.email == claims.email,
            r.roles == claims.roles,
            r.token_issued_at == claims.iat,
            r.token_expires_at == claims.exp,
    {
        let user_id = match parse_u64(claims.sub.as_str()) {
            Some(v) => v,
            None => 0,
        };
        AuthContext {
            user_id,
            username: claims.username,
            email: claims.email,
            roles: claims.roles,
            token_issued_at: claims.iat,
            token_expires_at: claims.exp,
        }
    }

    /// Whether the user holds the given role.
    pub fn has_role(&self, role: UserRole) -> (r: bool)
        ensures
            r == self.roles@.contains(role),
    {
        let n = self.roles.len();
        let mut i: usize = 0;
        while i < n
            invariant
                0 <= i <= n,
                n == self.roles@.len(),
                forall|k: int| 0 <= k < i ==> self.roles@[k] != role,
            decreases n - i,
        {
            if self.roles[i] == role {
                return true;
            }
            i = i + 1;
        }
        false
    }

    /// Whether the user is an owner or maintainer.
    pub fn is_owner_or_maintainer(&self) -> (r: bool)
        ensures
            r == (self.roles@.contains(UserRole::Owner) || self.roles@.contains(
                UserRole::Maintainer,
            )),
    {
        self.has_role(UserRole::Owner) || self.has_role(UserRole::Maintainer)
    }

    /// Whether the user may write.
    pub fn can_write(&self) -> (r: bool)
        ensures
            r == (self.roles@.contains(UserRole::Owner) || self.roles@.contains(
                UserRole::Maintainer,
            ) || self.roles@.contains(UserRole::Collaborator)),
    {
        self.has_role(UserRole::Owner) || self.has_role(UserRole::Maintainer) || self.has_role(
            UserRole::Collaborator,
        )
    }

    /// Whether the token has expired by instant `now`.
    pub fn is_expired(&self, now: i64) -> (r: bool)
        ensures
            r == (now > self.token_expires_at),
    {
        now > self.token_expires_at
    }
}

/// User registration request.
#[derive(Clone, Debug)]
pub struct RegisterRequest {
    pub username: String,
    pub email: String,
    pub password: String,
    pub display_name: String,
}

/// Password reset email request.
#[derive(Clone, Debug)]
pub struct PasswordResetEmailRequest {
    pub email: String,
}

/// Password reset confirm request.
#[derive(Clone, Debug)]
pub struct PasswordResetConfirmRequest {
    pub token: String,
    pub new_password: String,
}

/// Email verification request.
#[derive(Clone, Debug)]
pub struct VerifyEmailRequest {
    pub token: String,
}

/// Refresh token request.
#[derive(Clone, Debug)]
pub struct RefreshTokenRequest {
    pub refresh_token: String,
}

/// Logout request.
#[derive(Clone, Debug)]
pub struct LogoutRequest {
    pub refresh_token: String,
}

/// A pending password reset.
#[derive(Clone, Debug)]
pub struct PasswordResetRequest {
    pub token: String,
    pub email: String,
    pub expires_at: i64,
    pub used: bool,
    pub created_at: i64,
}

impl PasswordResetRequest {
    /// A fresh reset request created at `now`, valid for
    /// `expiration_hours` hours.
    pub fn new(email: String, expiration_hours: i64, now: i64) -> (r: Self)
        requires
            i64::MIN <= expiration_hours * 3600 <= i64::MAX,
            i64::MIN <= now + expiration_hours * 3600 <= i64::MAX,
        ensures
            r.token@.len() == 32,
            r.email == email,
            r.expires_at == now + expiration_hours * 3600,
            !r.used,
            r.created_at == now,
    {
        PasswordResetRequest {
            token: PasswordUtils::generate_reset_token(),
            email,
            expires_at: now + expiration_hours * 3600,
            used: false,
            created_at: now,
        }
    }

    /// Whether the reset request is still valid at instant `now`.
    pub fn is_valid(&self, now: i64) -> (r: bool)
        ensures
            r == (!self.used && now < self.expires_at),
    {
        !self.used && now < self.expires_at
    }
}

/// A pending email verification.
#[derive(Clone, Debug)]
pub struct EmailVerificationRequest {
    pub token: String,
    pub email: String,
    pub user_id: u64,
    pub expires_at: i64,
    pub verified: bool,
    pub created_at: i64,
}

impl EmailVerificationRequest {
    /// A fresh verification request created at `now`, valid for
    /// `expiration_hours` hours.
    pub fn new(email: String, user_id: u64, expiration_hours: i64, now: i64) -> (r: Self)
        requires
            i64::MIN <= expiration_hours * 3600 <= i64::MAX,
            i64::MIN <= now + expiration_hours * 3600 <= i64::MAX,
        ensures
            r.token@.len() == 64,
            r.email == email,
            r.user_id == user_id,
            r.expires_at == now + expiration_hours * 3600,
            !r.verified,
            r.created_at == now,
    {
        EmailVerificationRequest {
            token: PasswordUtils::generate_verification_token(),
            email,
            user_id,
            expires_at: now + expiration_hours * 3600,
            verified: false,
            created_at: now,
        }
    }

    /// Whether the verification request is still valid at instant
    /// `now`.
    pub fn is_valid(&self, now: i64) -> (r: bool)
        ensures
            r == (!self.verified && now < self.expires_at),
    {
        !self.verified && now < self.expires_at
    }
}

} // verus!
