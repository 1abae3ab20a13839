use vstd::prelude::*;

verus! {

/// A request for an access token at the identity provider's token endpoint.
#[derive(Debug, Clone, Copy)]
pub enum TokenRequest<'a> {
    AuthorizationCode { code: &'a str, redirect_uri: &'a str },
    RefreshToken { refresh_token: &'a str },
}

#[derive(Debug, Clone, Copy, PartialEq, Eq, PartialOrd, Ord, Hash)]
pub enum TokenType {
    Bearer,
}

/// What kind of token a revocation names, when the caller knows it.
#[derive(Debug, Clone, Copy)]
pub enum RevokeTokenType {
    AuthorizationCode,
    RefreshToken,
}

/// A request to revoke a token.
#[derive(Debug, Clone, Copy)]
pub struct RevokeTokenRequest<'a> {
    pub token: &'a str,
    pub token_type: Option<RevokeTokenType>,
}

impl<'a> TokenRequest<'a> {
    /// Exchanges an authorization code for a token.
    pub fn authorization_code(code: &'a str, redirect_uri: &'a str) -> (r: Self)
        ensures
            r == (TokenRequest::AuthorizationCode { code, redirect_uri }),
    {
        TokenRequest::AuthorizationCode { code, redirect_uri }
    }

    /// Trades a refresh token for a new token.
    pub fn refresh_token(refresh_token: &'a str) -> (r: Self)
        ensures
            r == (TokenRequest::RefreshToken { refresh_token }),
    {
        TokenRequest::RefreshToken { refresh_token }
    }
}

impl<'a> RevokeTokenRequest<'a> {
    /// Revokes a token without saying of which kind it is.
    pub fn ambiguous_token(token: &'a str) -> (r: Self)
        ensures
            r.token == token,
            r.token_type is None,
    {
        RevokeTokenRequest { token, token_type: None }
    }

    /// Revokes an authorization code.
    pub fn authorization_code(token: &'a str) -> (r: Self)
        ensures
            r.token == token,
            r.token_type == Some(RevokeTokenType::AuthorizationCode),
    {
        RevokeTokenRequest { token, token_type: Some(RevokeTokenType::AuthorizationCode) }
    }

    /// Revokes a refresh token.
    pub fn refresh_token(token: &'a str) -> (r: Self)
        ensures
            r.token == token,
            r.token_type == Some(RevokeTokenType::RefreshToken),
    {
        RevokeTokenRequest { token, token_type: Some(RevokeTokenType::RefreshToken) }
    }
}

/// A request reached a page that needs login state that is not configured.
#[derive(Debug, Clone, Copy)]
pub struct NoAuth;

/// The query parameter that carries a CSRF token.
#[derive(Debug, Clone, Copy, PartialEq, Eq, PartialOrd, Ord, Hash)]
pub struct State;

/// Why a CSRF token was refused: the page to show.
#[derive(Debug)]
pub enum CsrfTokenError {
    Page(String),
}

/// Bytes decoded from a URL-safe base64 form field.
#[derive(Debug)]
pub struct Base64Decode {
    pub data: Vec<u8>,
}

} // verus!
