//! The refreshable bearer credential and its refresh protocol.
//!
//! Refresh is lazy and synchronous: the first use past expiry asks the
//! caller for the token endpoint's response and applies it atomically —
//! either all three fields are replaced together, or none is.

use vstd::prelude::*;
use vstd::string::*;

use crate::errors::AuthError;

verus! {

/// What the external token endpoint returned, parsed to plain values
/// by the caller before it is handed to this module.
pub struct TokenResponseData {
    pub access_token: String,
    pub expires_in: Option<u64>,
    pub refresh_token: Option<String>,
}

/// A refreshable credential for the catalog API: the bearer token, the
/// timestamp at which it stops being valid, and the refresh token.
pub struct OAuthToken {
    pub token: String,
    pub expiration: u64,
    pub refresh_token: String,
}

/// A token-endpoint response from which a credential may be built:
/// a positive expiry and a refresh token present, the refresh token
/// non-empty, and the expiry timestamp representable. A zero expiry is
/// rejected: a credential that would already be expired the instant it
/// is served is no credential.
pub open spec fn spec_valid_response(now: u64, r: TokenResponseData) -> bool {
    &&& r.expires_in is Some
    &&& r.expires_in->0 > 0
    &&& now + r.expires_in->0 <= u64::MAX
    &&& r.refresh_token is Some
    &&& r.refresh_token->0@.len() > 0
}

impl OAuthToken {
    /// The credential's invariant: the refresh token is never empty
    /// once constructed.
    pub open spec fn wf(self) -> bool {
        self.refresh_token@.len() > 0
    }

    /// What a credential freshly built at `now` from response `r` holds.
    pub open spec fn spec_from_response(self, now: u64, r: TokenResponseData) -> bool {
        &&& self.token@ == r.access_token@
        &&& self.expiration == now + r.expires_in->0
        &&& self.refresh_token@ == r.refresh_token->0@
    }

    /// Builds a credential from a token-endpoint response. A missing
    /// expiry, an unrepresentable expiry timestamp or a missing or
    /// empty refresh token is a fatal acquisition error, not a
    /// degraded state.
    pub fn try_from_response(now: u64, r: &TokenResponseData) -> (res: Result<
        OAuthToken,
        AuthError,
    >)
        ensures
            match res {
                Ok(t) => spec_valid_response(now, *r) && t.spec_from_response(now, *r) && t.wf(),
                Err(e) => !spec_valid_response(now, *r) && e == AuthError::ExchangeFailed,
            },
    {
        let expires_in = match &r.expires_in {
            Some(e) => *e,
            None => {
                return Err(AuthError::ExchangeFailed);
            },
        };
        if expires_in == 0 || expires_in > u64::MAX - now {
            return Err(AuthError::ExchangeFailed);
        }
        let refresh_token = match &r.refresh_token {
            Some(t) => t.clone(),
            None => {
                return Err(AuthError::ExchangeFailed);
            },
        };
        if refresh_token.as_str().unicode_len() == 0 {
            return Err(AuthError::ExchangeFailed);
        }
        Ok(
            OAuthToken {
                token: r.access_token.clone(),
                expiration: now + expires_in,
                refresh_token,
            },
        )
    }

    /// Whether the credential must be refreshed before use at `now`.
    pub fn needs_refresh(&self, now: u64) -> (b: bool)
        ensures
            b == (now >= self.expiration),
    {
        now >= self.expiration
    }

    /// Applies the outcome of a refresh call against the token
    /// endpoint: on a valid response all three fields are replaced
    /// together; on any failure the stored credential is left
    /// untouched and the request fails.
    pub fn refresh(&mut self, now: u64, response: Option<TokenResponseData>) -> (res: Result<
        (),
        AuthError,
    >)
        requires
            old(self).wf(),
        ensures
            final(self).wf(),
            match res {
                Ok(u) => response is Some && spec_valid_response(now, response->0)
                    && final(self).spec_from_response(now, response->0),
                Err(e) => {
                    &&& *final(self) == *old(self)
                    &&& e == AuthError::RefreshFailed
                    &&& (response is Some ==> !spec_valid_response(now, response->0))
                },
            },
    {
        match response {
            None => Err(AuthError::RefreshFailed),
            Some(data) => match Self::try_from_response(now, &data) {
                Ok(fresh) => {
                    self.token = fresh.token;
                    self.expiration = fresh.expiration;
                    self.refresh_token = fresh.refresh_token;
                    Ok(())
                },
                Err(_) => Err(AuthError::RefreshFailed),
            },
        }
    }

    /// Returns a live access token: the cached one when not yet
    /// expired, else the one obtained from the supplied refresh
    /// outcome. A token whose expiry lies before `now` is never
    /// returned, and a failed refresh leaves the credential unchanged.
    pub fn token_checked(&mut self, now: u64, refresh_response: Option<TokenResponseData>) -> (res:
        Result<String, AuthError>)
        requires
            old(self).wf(),
        ensures
            spec_token_checked_post(*old(self), *final(self), now, refresh_response, res),
    {
        if now >= self.expiration {
            match self.refresh(now, refresh_response) {
                Ok(_) => Ok(self.token.clone()),
                Err(e) => Err(e),
            }
        } else {
            Ok(self.token.clone())
        }
    }
}

/// The full contract of a checked token request: below expiry the
/// stored token is served unchanged; past expiry a valid refresh
/// response replaces the credential and its fresh token is served,
/// anything else fails with `RefreshFailed` and changes nothing; and a
/// served token's expiry always lies strictly after `now`.
pub open spec fn spec_token_checked_post(
    old_t: OAuthToken,
    new_t: OAuthToken,
    now: u64,
    rr: Option<TokenResponseData>,
    res: Result<String, AuthError>,
) -> bool {
    &&& new_t.wf()
    &&& (now < old_t.expiration ==> new_t == old_t && (res matches Ok(t) && t@ == old_t.token@))
    &&& (now >= old_t.expiration ==> match res {
        Ok(t) => rr is Some && spec_valid_response(now, rr->0) && new_t.spec_from_response(
            now,
            rr->0,
        ) && t@ == new_t.token@,
        Err(e) => new_t == old_t && e == AuthError::RefreshFailed && (rr is Some
            ==> !spec_valid_response(now, rr->0)),
    })
    &&& (res is Ok ==> now < new_t.expiration)
}

} // verus!
