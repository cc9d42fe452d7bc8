//! The bearer credential that authenticated remote calls carry.
//!
//! The credential is obtained by an exchange with the credential endpoint.
//! [`CredentialManager`] holds the latest one and decides what an exchange
//! changes; the exchange itself is its caller's.

use crate::brightcove::{AccessTokenResponse, AccessTokenResponseModel};
use crate::error::AuthError;
use vstd::prelude::*;

verus! {

/// A bearer token with the time it was issued at and the number of seconds
/// it is valid for.
#[derive(Debug, PartialEq)]
pub struct Credential {
    pub token: String,
    pub issued_at: u64,
    pub expires_in: i64,
}

/// Mathematical value of a [`Credential`].
pub struct CredentialModel {
    pub token: Seq<char>,
    pub issued_at: int,
    pub expires_in: int,
}

impl View for Credential {
    type V = CredentialModel;

    open spec fn view(&self) -> CredentialModel {
        CredentialModel {
            token: self.token@,
            issued_at: self.issued_at as int,
            expires_in: self.expires_in as int,
        }
    }
}

impl Clone for Credential {
    fn clone(&self) -> (copy: Credential)
        ensures
            copy@ == self@,
    {
        Credential {
            token: self.token.clone(),
            issued_at: self.issued_at,
            expires_in: self.expires_in,
        }
    }
}

/// The credential that an answer of the endpoint, received at `now`, stands
/// for.
pub open spec fn spec_issue(response: AccessTokenResponseModel, now: int) -> CredentialModel {
    CredentialModel {
        token: response.access_token,
        issued_at: now,
        expires_in: response.expires_in,
    }
}

/// Mathematical value of the outcome of an exchange.
pub open spec fn spec_exchange(exchange: Result<AccessTokenResponse, AuthError>) -> Result<
    AccessTokenResponseModel,
    AuthError,
> {
    match exchange {
        Ok(response) => Ok(response@),
        Err(error) => Err(error),
    }
}

/// The credential held after an exchange: the new one where the exchange
/// succeeded, the one held before where it failed.
pub open spec fn spec_refresh(
    held: CredentialModel,
    exchange: Result<AccessTokenResponseModel, AuthError>,
    now: int,
) -> CredentialModel {
    match exchange {
        Ok(response) => spec_issue(response, now),
        Err(_) => held,
    }
}

/// A refresh that fails after one that succeeded leaves the credential of
/// the one that succeeded.
pub proof fn lemma_failed_refresh_keeps_credential(
    held: CredentialModel,
    response: AccessTokenResponseModel,
    issued: int,
    error: AuthError,
    later: int,
)
    ensures
        spec_refresh(spec_refresh(held, Ok(response), issued), Err(error), later) == spec_issue(
            response,
            issued,
        ),
{
}

impl Credential {
    /// Whether the validity window of the credential is over at `now`.
    pub fn is_expired(&self, now: u64) -> (expired: bool)
        ensures
            expired == (self@.issued_at + self@.expires_in <= now),
    {
        let end: i128 = self.issued_at as i128 + self.expires_in as i128;
        end <= now as i128
    }
}

/// Holder of the latest credential. It exists only once a first exchange
/// has succeeded.
pub struct CredentialManager {
    held: Credential,
}

impl View for CredentialManager {
    type V = CredentialModel;

    closed spec fn view(&self) -> CredentialModel {
        self.held@
    }
}

impl CredentialManager {
    /// Takes the outcome of the first exchange, made at `now`. Without a
    /// first credential there is no manager: the failure is handed back.
    pub fn boot(
        exchange: Result<AccessTokenResponse, AuthError>,
        now: u64,
    ) -> (booted: Result<CredentialManager, AuthError>)
        ensures
            match spec_exchange(exchange) {
                Ok(response) => booted matches Ok(manager) && manager@ == spec_issue(
                    response,
                    now as int,
                ),
                Err(error) => booted matches Err(reported) && reported == error,
            },
    {
        match exchange {
            Ok(response) => Ok(
                CredentialManager {
                    held: Credential {
                        token: response.access_token,
                        issued_at: now,
                        expires_in: response.expires_in,
                    },
                },
            ),
            Err(error) => Err(error),
        }
    }

    /// The credential held now.
    pub fn current(&self) -> (credential: Credential)
        ensures
            credential@ == self@,
    {
        self.held.clone()
    }

    /// Takes the outcome of an exchange made at `now`. A new credential
    /// replaces the held one as a whole; a failure is handed back and leaves
    /// the held one in place.
    pub fn refresh(
        &mut self,
        exchange: Result<AccessTokenResponse, AuthError>,
        now: u64,
    ) -> (refreshed: Result<Credential, AuthError>)
        ensures
            final(self)@ == spec_refresh(old(self)@, spec_exchange(exchange), now as int),
            match spec_exchange(exchange) {
                Ok(response) => refreshed matches Ok(credential) && credential@ == spec_issue(
                    response,
                    now as int,
                ),
                Err(error) => refreshed matches Err(reported) && reported == error,
            },
    {
        match exchange {
            Ok(response) => {
                let credential = Credential {
                    token: response.access_token,
                    issued_at: now,
                    expires_in: response.expires_in,
                };
                self.held = credential.clone();
                Ok(credential)
            },
            Err(error) => Err(error),
        }
    }
}

} // verus!
