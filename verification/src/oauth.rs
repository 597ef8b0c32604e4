//! OAuth 2.0 authorization-server data: metadata, codes, tokens, and
//! PKCE verification.
//!
//! The hashing and encoding that PKCE needs come from outside crates
//! behind trusted wrappers; everything that compares, expires or
//! assembles values is verified.

use base64::Engine;
use sha2::Digest;
use vstd::prelude::*;
use vstd::string::StringSliceAdditionalSpecFns;

verus! {

// ---------------------------------------------------------------------------
// Trusted wrappers around the crypto and encoding crates.
// ---------------------------------------------------------------------------

/// The SHA-256 digest of a byte string: a function of the input alone.
pub uninterp spec fn sha256_of(data: Seq<u8>) -> Seq<u8>;

/// Relies on sha2's `Sha256` (through the `Digest` trait): a 32-byte
/// digest that depends on the input bytes alone.
#[verifier::external_body]
fn sha256(data: &[u8]) -> (r: Vec<u8>)
    ensures
        r@ == sha256_of(data@),
        r@.len() == 32,
{
    sha2::Sha256::digest(data).to_vec()
}

/// The URL-safe unpadded base64 encoding of a byte string: a function
/// of the input alone.
pub uninterp spec fn base64url_of(data: Seq<u8>) -> Seq<char>;

/// Relies on base64's `URL_SAFE_NO_PAD` engine: four characters for
/// every whole three-byte chunk, two or three for a trailing one, all
/// from the URL-safe alphabet, depending on the input alone.
#[verifier::external_body]
fn b64url_nopad(data: &[u8]) -> (r: String)
    ensures
        r@ == base64url_of(data@),
        r@.len() == 4 * (data@.len() / 3) + (if data@.len() % 3 == 0 {
            0int
        } else if data@.len() % 3 == 1 {
            2int
        } else {
            3int
        }),
{
    base64::engine::general_purpose::URL_SAFE_NO_PAD.encode(data)
}

/// Relies on uuid's `Uuid::new_v4` and `as_bytes`: sixteen random
/// bytes; nothing is promised of their values.
#[verifier::external_body]
fn fresh_uuid_bytes() -> (r: Vec<u8>)
    ensures
        r@.len() == 16,
{
    uuid::Uuid::new_v4().as_bytes().to_vec()
}

/// Relies on std's `SystemTime::now`: the seconds since the Unix
/// epoch. The value depends on the clock, so only its sign is stated.
#[verifier::external_body]
pub fn now_unix_seconds() -> (r: i64)
    ensures
        r >= 0,
{
    match std::time::SystemTime::now().duration_since(std::time::UNIX_EPOCH) {
        Ok(d) => {
            let secs = d.as_secs();
            if secs > i64::MAX as u64 {
                i64::MAX
            } else {
                secs as i64
            }
        },
        Err(_) => 0,
    }
}

// ---------------------------------------------------------------------------
// Authorization-server metadata.
// ---------------------------------------------------------------------------

/// OAuth 2.0 authorization-server metadata.
#[derive(Debug, Clone)]
pub struct OAuthMetadata {
    pub issuer: String,
    pub authorization_endpoint: String,
    pub token_endpoint: String,
    pub revocation_endpoint: Option<String>,
    pub response_types_supported: Vec<String>,
    pub grant_types_supported: Vec<String>,
    pub code_challenge_methods_supported: Vec<String>,
    pub token_endpoint_auth_methods_supported: Vec<String>,
    pub scopes_supported: Vec<String>,
}

impl OAuthMetadata {
    /// The fixed metadata document for a base URL: the endpoints hang
    /// off the base, and the supported sets name the one flow this
    /// server speaks — code grants with S256 PKCE, public clients.
    pub fn new(base_url: &str) -> (r: Self)
        ensures
            r.issuer@ == base_url@,
            r.authorization_endpoint@ == base_url@ + "/oauth/authorize"@,
            r.token_endpoint@ == base_url@ + "/oauth/token"@,
            r.revocation_endpoint matches Some(rev) && rev@ == base_url@ + "/oauth/revoke"@,
            r.response_types_supported@.len() == 1 && r.response_types_supported@[0]@ == "code"@,
            r.grant_types_supported@.len() == 2 && r.grant_types_supported@[0]@
                == "authorization_code"@ && r.grant_types_supported@[1]@ == "refresh_token"@,
            r.code_challenge_methods_supported@.len() == 1
                && r.code_challenge_methods_supported@[0]@ == "S256"@,
            r.token_endpoint_auth_methods_supported@.len() == 1
                && r.token_endpoint_auth_methods_supported@[0]@ == "none"@,
            r.scopes_supported@.len() == 1 && r.scopes_supported@[0]@ == "mcp"@,
    {
        let base = base_url.to_owned();
        let mut response_types: Vec<String> = Vec::new();
        response_types.push(String::from_str("code"));
        let mut grant_types: Vec<String> = Vec::new();
        grant_types.push(String::from_str("authorization_code"));
        grant_types.push(String::from_str("refresh_token"));
        let mut challenge_methods: Vec<String> = Vec::new();
        challenge_methods.push(String::from_str("S256"));
        let mut auth_methods: Vec<String> = Vec::new();
        auth_methods.push(String::from_str("none"));
        let mut scopes: Vec<String> = Vec::new();
        scopes.push(String::from_str("mcp"));
        OAuthMetadata {
            issuer: base.clone(),
            authorization_endpoint: base.clone().concat("/oauth/authorize"),
            token_endpoint: base.clone().concat("/oauth/token"),
            revocation_endpoint: Some(base.concat("/oauth/revoke")),
            response_types_supported: response_types,
            grant_types_supported: grant_types,
            code_challenge_methods_supported: challenge_methods,
            token_endpoint_auth_methods_supported: auth_methods,
            scopes_supported: scopes,
        }
    }
}

// ---------------------------------------------------------------------------
// Codes and tokens.
// ---------------------------------------------------------------------------

/// An issued authorization code.
#[derive(Debug, Clone)]
pub struct AuthorizationCode {
    pub code: String,
    pub client_id: String,
    pub redirect_uri: String,
    pub code_challenge: String,
    pub code_challenge_method: String,
    pub scope: String,
    pub created_at: i64,
    pub expires_at: i64,
    pub used: bool,
}

/// The challenge a PKCE verifier answers to: the URL-safe unpadded
/// base64 of its SHA-256 digest.
pub open spec fn spec_pkce_challenge(verifier_bytes: Seq<u8>) -> Seq<char> {
    base64url_of(sha256_of(verifier_bytes))
}

impl AuthorizationCode {
    /// Whether the code is expired at a given time.
    pub open spec fn spec_is_expired_at(&self, now: int) -> bool {
        now > self.expires_at
    }

    /// Whether the code is expired at a given time.
    pub fn is_expired_at(&self, now: i64) -> (r: bool)
        ensures
            r == self.spec_is_expired_at(now as int),
    {
        now > self.expires_at
    }

    /// Whether the code is expired now. The clock decides; callers
    /// that reason about expiry use [`Self::is_expired_at`].
    pub fn is_expired(&self) -> bool {
        let now = now_unix_seconds();
        self.is_expired_at(now)
    }

    /// Verify a PKCE code verifier against the stored challenge: true
    /// exactly when the stored method is S256 and the verifier's
    /// challenge matches the stored one.
    pub fn verify_pkce(&self, code_verifier: &str) -> (r: bool)
        ensures
            r == (self.code_challenge_method@ == "S256"@ && self.code_challenge@
                == spec_pkce_challenge(code_verifier.spec_bytes())),
    {
        let s256 = String::from_str("S256");
        if !(self.code_challenge_method == s256) {
            return false;
        }
        let vb = code_verifier.as_bytes_vec();
        let hash = sha256(vb.as_slice());
        let computed = b64url_nopad(hash.as_slice());
        computed == self.code_challenge
    }
}

/// An issued access token.
#[derive(Debug, Clone)]
pub struct AccessToken {
    pub token: String,
    pub client_id: String,
    pub scope: String,
    pub created_at: i64,
    pub expires_at: i64,
}

impl AccessToken {
    /// Whether the token is expired at a given time.
    pub open spec fn spec_is_expired_at(&self, now: int) -> bool {
        now > self.expires_at
    }

    /// Whether the token is expired at a given time.
    pub fn is_expired_at(&self, now: i64) -> (r: bool)
        ensures
            r == self.spec_is_expired_at(now as int),
    {
        now > self.expires_at
    }

    /// Whether the token is expired now, by the clock.
    pub fn is_expired(&self) -> bool {
        let now = now_unix_seconds();
        self.is_expired_at(now)
    }
}

/// An issued refresh token.
#[derive(Debug, Clone)]
pub struct RefreshToken {
    pub token: String,
    pub client_id: String,
    pub scope: String,
    pub created_at: i64,
    pub expires_at: i64,
}

impl RefreshToken {
    /// Whether the token is expired at a given time.
    pub open spec fn spec_is_expired_at(&self, now: int) -> bool {
        now > self.expires_at
    }

    /// Whether the token is expired at a given time.
    pub fn is_expired_at(&self, now: i64) -> (r: bool)
        ensures
            r == self.spec_is_expired_at(now as int),
    {
        now > self.expires_at
    }

    /// Whether the token is expired now, by the clock.
    pub fn is_expired(&self) -> bool {
        let now = now_unix_seconds();
        self.is_expired_at(now)
    }
}

/// An authorization request waiting for the user's approval.
#[derive(Debug, Clone)]
pub struct PendingAuthorization {
    pub session_key: String,
    pub client_id: String,
    pub redirect_uri: String,
    pub code_challenge: String,
    pub code_challenge_method: String,
    pub scope: String,
    pub state: Option<String>,
    pub created_at: i64,
    pub expires_at: i64,
}

impl PendingAuthorization {
    /// Whether the pending request is expired at a given time.
    pub open spec fn spec_is_expired_at(&self, now: int) -> bool {
        now > self.expires_at
    }

    /// Whether the pending request is expired at a given time.
    pub fn is_expired_at(&self, now: i64) -> (r: bool)
        ensures
            r == self.spec_is_expired_at(now as int),
    {
        now > self.expires_at
    }

    /// Whether the pending request is expired now, by the clock.
    pub fn is_expired(&self) -> bool {
        let now = now_unix_seconds();
        self.is_expired_at(now)
    }
}

/// Generate a fresh random bearer token: the base64url of the digest
/// of two fresh UUIDs, 43 characters. Its randomness is the UUIDs';
/// nothing is promised of its value.
pub fn generate_token() -> (r: String)
    ensures
        r@.len() == 43,
{
    let mut seed = fresh_uuid_bytes();
    let more = fresh_uuid_bytes();
    seed.extend_from_slice(more.as_slice());
    let hash = sha256(seed.as_slice());
    b64url_nopad(hash.as_slice())
}

// ---------------------------------------------------------------------------
// Errors and request/response shapes.
// ---------------------------------------------------------------------------

/// OAuth error codes.
#[derive(Debug, Clone, Copy, PartialEq, Eq, Structural)]
pub enum OAuthError {
    InvalidRequest,
    InvalidClient,
    InvalidGrant,
    UnauthorizedClient,
    UnsupportedGrantType,
    InvalidScope,
    AccessDenied,
    ServerError,
}

impl OAuthError {
    /// The wire name of the error.
    pub open spec fn spec_as_str(&self) -> Seq<char> {
        match self {
            OAuthError::InvalidRequest => "invalid_request"@,
            OAuthError::InvalidClient => "invalid_client"@,
            OAuthError::InvalidGrant => "invalid_grant"@,
            OAuthError::UnauthorizedClient => "unauthorized_client"@,
            OAuthError::UnsupportedGrantType => "unsupported_grant_type"@,
            OAuthError::InvalidScope => "invalid_scope"@,
            OAuthError::AccessDenied => "access_denied"@,
            OAuthError::ServerError => "server_error"@,
        }
    }

    /// The human-readable description of the error.
    pub open spec fn spec_description(&self) -> Seq<char> {
        match self {
            OAuthError::InvalidRequest => "The request is missing a required parameter"@,
            OAuthError::InvalidClient => "Client authentication failed"@,
            OAuthError::InvalidGrant => "The authorization code or refresh token is invalid or expired"@,
            OAuthError::UnauthorizedClient => "The client is not authorized"@,
            OAuthError::UnsupportedGrantType => "The grant type is not supported"@,
            OAuthError::InvalidScope => "The requested scope is invalid"@,
            OAuthError::AccessDenied => "The resource owner denied the request"@,
            OAuthError::ServerError => "An unexpected error occurred"@,
        }
    }

    /// The wire name of the error.
    pub fn as_str(&self) -> (r: &'static str)
        ensures
            r@ == self.spec_as_str(),
    {
        match self {
            OAuthError::InvalidRequest => "invalid_request",
            OAuthError::InvalidClient => "invalid_client",
            OAuthError::InvalidGrant => "invalid_grant",
            OAuthError::UnauthorizedClient => "unauthorized_client",
            OAuthError::UnsupportedGrantType => "unsupported_grant_type",
            OAuthError::InvalidScope => "invalid_scope",
            OAuthError::AccessDenied => "access_denied",
            OAuthError::ServerError => "server_error",
        }
    }

    /// The human-readable description of the error.
    pub fn description(&self) -> (r: &'static str)
        ensures
            r@ == self.spec_description(),
    {
        match self {
            OAuthError::InvalidRequest => "The request is missing a required parameter",
            OAuthError::InvalidClient => "Client authentication failed",
            OAuthError::InvalidGrant => "The authorization code or refresh token is invalid or expired",
            OAuthError::UnauthorizedClient => "The client is not authorized",
            OAuthError::UnsupportedGrantType => "The grant type is not supported",
            OAuthError::InvalidScope => "The requested scope is invalid",
            OAuthError::AccessDenied => "The resource owner denied the request",
            OAuthError::ServerError => "An unexpected error occurred",
        }
    }
}

/// An OAuth error response body.
#[derive(Debug, Clone)]
pub struct OAuthErrorResponse {
    pub error: String,
    pub error_description: String,
}

impl OAuthErrorResponse {
    /// The response body an error code turns into.
    pub fn from_error(err: &OAuthError) -> (r: Self)
        ensures
            r.error@ == err.spec_as_str(),
            r.error_description@ == err.spec_description(),
    {
        OAuthErrorResponse {
            error: err.as_str().to_owned(),
            error_description: err.description().to_owned(),
        }
    }
}

/// A successful token response.
#[derive(Debug, Clone)]
pub struct TokenResponse {
    pub access_token: String,
    pub token_type: String,
    pub expires_in: u64,
    pub refresh_token: String,
    pub scope: String,
}

/// Authorization request parameters.
#[derive(Debug, Clone)]
pub struct AuthorizeRequest {
    pub response_type: String,
    pub client_id: String,
    pub redirect_uri: String,
    pub scope: Option<String>,
    pub state: Option<String>,
    pub code_challenge: String,
    pub code_challenge_method: String,
}

/// Token request parameters.
#[derive(Debug, Clone)]
pub struct TokenRequest {
    pub grant_type: String,
    pub code: Option<String>,
    pub redirect_uri: Option<String>,
    pub code_verifier: Option<String>,
    pub refresh_token: Option<String>,
    pub client_id: Option<String>,
}

/// Token revocation request.
#[derive(Debug, Clone)]
pub struct RevokeRequest {
    pub token: String,
    pub token_type_hint: Option<String>,
}

/// Approval form submission.
#[derive(Debug, Clone)]
pub struct ApprovalRequest {
    pub session_key: String,
    pub approved: bool,
}

} // verus!
