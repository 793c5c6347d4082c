//! The records that a server exchanges with its clients about a vault.

use crate::entry::EntryCategory;
use crate::text::{byte_len, byte_length, has_prefix, starts_with};
use vstd::prelude::*;
use vstd::string::{StrSliceExecFns, StringExecFns};

verus! {

/// A request to register a user.
#[derive(Debug, Clone)]
pub struct RegisterRequest {
    pub username: String,
    pub email: String,
    pub master_password: String,
}

/// A request to log in.
#[derive(Debug, Clone)]
pub struct LoginRequest {
    pub username: String,
    pub master_password: String,
}

/// The answer to a successful registration or login.
#[derive(Debug, Clone)]
pub struct AuthResponse {
    pub token: String,
    pub user_id: String,
    pub username: String,
}

/// A request to add an entry.
#[derive(Debug, Clone)]
pub struct AddEntryRequest {
    pub service: String,
    pub username: String,
    pub password: String,
    pub url: Option<String>,
    pub notes: Option<String>,
    pub category: EntryCategory,
    pub tags: Vec<String>,
    pub two_factor_enabled: Option<bool>,
}

/// A request to change an entry: what is absent stays as it is.
#[derive(Debug, Clone)]
pub struct UpdateEntryRequest {
    pub service: Option<String>,
    pub username: Option<String>,
    pub password: Option<String>,
    pub url: Option<String>,
    pub notes: Option<String>,
    pub category: Option<EntryCategory>,
    pub tags: Option<Vec<String>>,
    pub is_favorite: Option<bool>,
    pub two_factor_enabled: Option<bool>,
}

/// A request to generate passwords.
#[derive(Debug, Clone, Copy, PartialEq, Eq, Structural)]
pub struct GeneratePasswordRequest {
    pub length: usize,
    pub symbols: bool,
    pub count: usize,
}

/// A request to search the entries.
#[derive(Debug, Clone)]
pub struct SearchRequest {
    pub query: String,
    pub case_sensitive: Option<bool>,
}

/// Figures on a vault as a server reports them.
#[derive(Debug, Clone)]
pub struct VaultStats {
    pub total_entries: usize,
    /// The number of entries of each category, by its name.
    pub categories_count: Vec<(String, usize)>,
    pub weak_passwords: usize,
    pub duplicate_passwords: usize,
    pub old_passwords: usize,
    pub breached_passwords: usize,
    pub two_factor_enabled: usize,
    pub last_backup: String,
    pub vault_size: String,
    pub security_score: u8,
}

/// The envelope of every answer: the data of a success, or the error of a
/// failure.
#[derive(Debug, Clone)]
pub struct ApiResponse<T> {
    pub success: bool,
    pub data: Option<T>,
    pub message: Option<String>,
    pub error: Option<String>,
}

impl<T> ApiResponse<T> {
    /// A success with its data.
    pub fn success(data: T) -> (response: Self)
        ensures
            response.success,
            response.data == Some(data),
            response.message is None,
            response.error is None,
    {
        Self { success: true, data: Some(data), message: None, error: None }
    }

    /// A success with its data and a message.
    pub fn success_with_message(data: T, message: String) -> (response: Self)
        ensures
            response.success,
            response.data == Some(data),
            response.message == Some(message),
            response.error is None,
    {
        Self { success: true, data: Some(data), message: Some(message), error: None }
    }

    /// A failure with its error.
    pub fn error(error: String) -> (response: Self)
        ensures
            !response.success,
            response.data is None,
            response.message is None,
            response.error == Some(error),
    {
        Self { success: false, data: None, message: None, error: Some(error) }
    }
}

/// The claims of a session token.
#[derive(Debug, Clone)]
pub struct Claims {
    pub user_id: String,
    pub username: String,
    /// When the token expires, in seconds since 1970-01-01 00:00:00 UTC.
    pub exp: usize,
    /// When the token was issued.
    pub iat: usize,
}

/// The life of a session token in seconds: 24 hours.
pub const TOKEN_LIFETIME_SECS: usize = 86400;

impl Claims {
    /// The claims of a token that is issued at `now` and lives for 24
    /// hours.
    pub fn issued_at(user_id: String, username: String, now: usize) -> (claims: Self)
        requires
            now + TOKEN_LIFETIME_SECS <= usize::MAX,
        ensures
            claims.user_id == user_id,
            claims.username == username,
            claims.iat == now,
            claims.exp == now + 86400,
    {
        Self { user_id, username, iat: now, exp: now + TOKEN_LIFETIME_SECS }
    }
}

impl RegisterRequest {
    /// A registration needs a user name, an e-mail address and a master
    /// password of eight bytes or more.
    pub open spec fn acceptable(&self) -> bool {
        &&& self.username@.len() > 0
        &&& self.email@.len() > 0
        &&& byte_len(self.master_password@) >= 8
    }

    /// Tells whether the registration can be accepted.
    pub fn is_acceptable(&self) -> (ok: bool)
        ensures
            ok == self.acceptable(),
    {
        !self.username.as_str().is_empty() && !self.email.as_str().is_empty() && byte_length(
            self.master_password.as_str(),
        ) >= 8
    }
}

/// The token that an authorization header bears: what follows `Bearer `.
pub open spec fn bearer_of(header: Seq<char>) -> Option<Seq<char>> {
    if has_prefix(header, "Bearer "@) {
        Some(header.subrange(7, header.len() as int))
    } else {
        None
    }
}

/// Takes the token from an authorization header.
pub fn bearer_token(header: &str) -> (token: Option<String>)
    ensures
        (match token {
            Some(t) => Some(t@),
            None => None,
        }) == bearer_of(header@),
{
    proof {
        reveal_strlit("Bearer ");
    }
    if starts_with(header, "Bearer ") {
        Some(String::from_str(header.substring_char(7, header.unicode_len())))
    } else {
        None
    }
}

/// The routes that are open to everyone: those of authentication, of the
/// health check, of password generation and of the strength check, the
/// root, and whatever is outside the API.
pub open spec fn public_route(path: Seq<char>) -> bool {
    ||| has_prefix(path, "/api/auth/"@)
    ||| has_prefix(path, "/api/health"@)
    ||| has_prefix(path, "/api/generate-password"@)
    ||| has_prefix(path, "/api/check-password-strength"@)
    ||| path == "/"@
    ||| !has_prefix(path, "/api/"@)
}

/// Tells whether a route is open to everyone.
pub fn is_public_route(path: &str) -> (open: bool)
    ensures
        open == public_route(path@),
{
    starts_with(path, "/api/auth/") || starts_with(path, "/api/health") || starts_with(
        path,
        "/api/generate-password",
    ) || starts_with(path, "/api/check-password-strength") || crate::text::str_eq(path, "/")
        || !starts_with(path, "/api/")
}

} // verus!
