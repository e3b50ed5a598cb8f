//! The auth service: registration, login and token validation.

use crate::credentials::{CredentialStore, CredentialsView, UserView};
use crate::crypto::{ascii_lowercase, derive_key, lower_text, pbkdf2_sha256, random_salt, SALT_LEN};
use crate::error::{AuthError, TokenError};
use crate::secure::constant_time_eq;
use crate::token::{mint, token_bytes, validate, validation, Claims};
use vstd::prelude::*;
use vstd::slice::slice_to_vec;
use vstd::string::StringSliceAdditionalSpecFns;

verus! {

/// The time from which a token minted at `now` with a lifetime of `ttl`
/// is no longer accepted. It stops at the largest time there is.
pub open spec fn expiry(now: u64, ttl: u64) -> u64 {
    if now + ttl > u64::MAX {
        u64::MAX
    } else {
        (now + ttl) as u64
    }
}

/// Whether `password` is the one that the record was made with: the key
/// derived from it with the record's salt and cost is the stored one.
pub open spec fn password_matches(user: UserView, password: Seq<u8>) -> bool {
    pbkdf2_sha256(password, user.salt, user.rounds) == user.password_hash
}

/// What an auth service stands for: the stored credentials and the
/// configuration it was made with.
pub struct AuthView {
    pub credentials: CredentialsView,
    pub secret: Seq<u8>,
    pub ttl: u64,
    pub min_password_len: usize,
    pub rounds: u32,
}

impl AuthView {
    /// The service as it is made: no users yet.
    pub open spec fn fresh(secret: Seq<u8>, ttl: u64, min_password_len: usize, rounds: u32) -> AuthView {
        AuthView { credentials: CredentialsView::empty(), secret, ttl, min_password_len, rounds }
    }

    /// The reason for which a registration is refused whatever the salt:
    /// the username, in lower case, is taken; or else the password is
    /// shorter than the policy asks.
    pub open spec fn refusal(self, username: Seq<char>, password: Seq<u8>) -> Option<AuthError> {
        if self.credentials.users.dom().contains(lower_text(username)) {
            Some(AuthError::UsernameTaken)
        } else if password.len() < self.min_password_len {
            Some(AuthError::WeakPassword)
        } else {
            None
        }
    }

    /// The service after a registration with the given salt, and what the
    /// registration returns. A refused registration changes nothing. An
    /// accepted one stores the username in lower case, the salt, the cost
    /// and the derived key, and returns the new user's id.
    pub open spec fn register(self, username: Seq<char>, password: Seq<u8>, salt: Seq<u8>) -> (
        AuthView,
        Result<u64, AuthError>,
    ) {
        match self.refusal(username, password) {
            Some(e) => (self, Err(e)),
            None => {
                let (credentials, stored) = self.credentials.store(
                    lower_text(username),
                    salt,
                    self.rounds,
                    pbkdf2_sha256(password, salt, self.rounds),
                );
                match stored {
                    Ok(id) => (AuthView { credentials, ..self }, Ok(id)),
                    Err(_) => (self, Err(AuthError::StorageUnavailable)),
                }
            },
        }
    }

    /// What a login at the time `now` returns: a token for the user filed
    /// under the username in lower case, if the password is theirs; one
    /// and the same failure otherwise.
    pub open spec fn login(self, username: Seq<char>, password: Seq<u8>, now: u64) -> Result<
        Seq<u8>,
        AuthError,
    > {
        let name = lower_text(username);
        if self.credentials.users.dom().contains(name) && password_matches(
            self.credentials.users[name],
            password,
        ) {
            Ok(
                token_bytes(
                    self.secret,
                    Claims {
                        user_id: self.credentials.users[name].id,
                        expires_at: expiry(now, self.ttl),
                    },
                ),
            )
        } else {
            Err(AuthError::InvalidCredentials)
        }
    }

    /// What validation makes of `token` at the time `now`.
    pub open spec fn validate(self, token: Seq<u8>, now: u64) -> Result<u64, TokenError> {
        validation(self.secret, token, now)
    }
}

/// Registers users, verifies their credentials and issues and checks
/// identity tokens.
pub struct AuthService {
    credentials: CredentialStore,
    secret: Vec<u8>,
    ttl: u64,
    min_password_len: usize,
    rounds: u32,
}

impl View for AuthService {
    type V = AuthView;

    closed spec fn view(&self) -> AuthView {
        AuthView {
            credentials: self.credentials@,
            secret: self.secret@,
            ttl: self.ttl,
            min_password_len: self.min_password_len,
            rounds: self.rounds,
        }
    }
}

impl AuthService {
    /// A service without users. Tokens are signed with `secret` and live
    /// for `ttl` units of time; a password needs `min_password_len` bytes;
    /// keys are derived with `rounds` rounds.
    pub fn new(secret: Vec<u8>, ttl: u64, min_password_len: usize, rounds: u32) -> (service:
        AuthService)
        ensures
            service@ == AuthView::fresh(secret@, ttl, min_password_len, rounds),
            service@.credentials.valid(),
    {
        AuthService { credentials: CredentialStore::new(), secret, ttl, min_password_len, rounds }
    }

    /// Why a registration would be refused before any salt is drawn.
    fn check(&self, name: &str, password: &str) -> (refused: Option<AuthError>)
        ensures
            self@.credentials.valid(),
            refused == if self@.credentials.users.dom().contains(name@) {
                Some(AuthError::UsernameTaken)
            } else if password.spec_bytes().len() < self@.min_password_len {
                Some(AuthError::WeakPassword)
            } else {
                None
            },
    {
        if self.credentials.lookup_by_username(name).is_some() {
            Some(AuthError::UsernameTaken)
        } else if password.as_bytes().len() < self.min_password_len {
            Some(AuthError::WeakPassword)
        } else {
            None
        }
    }

    /// Registers a user with a salt that the caller supplies.
    pub fn register_with_salt(&mut self, username: &str, password: &str, salt: &[u8]) -> (outcome:
        Result<u64, AuthError>)
        ensures
            (final(self)@, outcome) == old(self)@.register(
                username@,
                password.spec_bytes(),
                salt@,
            ),
            final(self)@.credentials.valid(),
    {
        let name = ascii_lowercase(username);
        match self.check(name.as_str(), password) {
            Some(e) => Err(e),
            None => {
                let key = derive_key(password.as_bytes(), salt, self.rounds);
                let stored = self.credentials.store(
                    name,
                    slice_to_vec(salt),
                    self.rounds,
                    slice_to_vec(key.as_slice()),
                );
                match stored {
                    Ok(id) => Ok(id),
                    Err(_) => Err(AuthError::StorageUnavailable),
                }
            },
        }
    }

    /// Registers a user. The username is stored in lower case and must not
    /// be taken; the password must meet the policy. The salt is drawn
    /// afresh from the system's random source, whose failure is reported
    /// as `StorageUnavailable`.
    pub fn register(&mut self, username: &str, password: &str) -> (outcome: Result<u64, AuthError>)
        ensures
            final(self)@.credentials.valid(),
            match old(self)@.refusal(username@, password.spec_bytes()) {
                Some(e) => outcome == Err::<u64, AuthError>(e) && final(self)@ == old(self)@,
                None => {
                    ||| (outcome == Err::<u64, AuthError>(AuthError::StorageUnavailable)
                        && final(self)@ == old(self)@)
                    ||| exists|salt: Seq<u8>|
                        salt.len() == SALT_LEN && (final(self)@, outcome)
                            == #[trigger] old(self)@.register(username@, password.spec_bytes(), salt)
                },
            },
    {
        let name = ascii_lowercase(username);
        match self.check(name.as_str(), password) {
            Some(e) => Err(e),
            None => match random_salt() {
                Some(salt) => self.register_with_salt(username, password, salt.as_slice()),
                None => Err(AuthError::StorageUnavailable),
            },
        }
    }

    /// Verifies the credentials and mints a token that is accepted until
    /// `expiry(now, ttl)`. An unknown username and a wrong password give
    /// the same failure.
    pub fn login(&self, username: &str, password: &str, now: u64) -> (outcome: Result<
        Vec<u8>,
        AuthError,
    >)
        ensures
            match outcome {
                Ok(token) => self@.login(username@, password.spec_bytes(), now) == Ok::<
                    Seq<u8>,
                    AuthError,
                >(token@),
                Err(e) => self@.login(username@, password.spec_bytes(), now) == Err::<
                    Seq<u8>,
                    AuthError,
                >(e),
            },
    {
        let name = ascii_lowercase(username);
        match self.credentials.lookup_by_username(name.as_str()) {
            None => {
                // Spend the time of one derivation all the same, so that an
                // unknown username is not answered faster than a known one.
                let zeros = [0u8; 16];
                let _ = derive_key(password.as_bytes(), zeros.as_slice(), self.rounds);
                Err(AuthError::InvalidCredentials)
            },
            Some(user) => {
                let key = derive_key(password.as_bytes(), user.salt.as_slice(), user.rounds);
                if constant_time_eq(key.as_slice(), user.password_hash.as_slice()) {
                    let expires_at = now.saturating_add(self.ttl);
                    Ok(mint(self.secret.as_slice(), Claims { user_id: user.id, expires_at }))
                } else {
                    Err(AuthError::InvalidCredentials)
                }
            },
        }
    }

    /// Checks a token at the time `now` and names its user. Nothing but
    /// the token, the time and the signing secret is consulted.
    pub fn validate(&self, token: &[u8], now: u64) -> (outcome: Result<u64, TokenError>)
        ensures
            outcome == self@.validate(token@, now),
    {
        validate(self.secret.as_slice(), token, now)
    }

    /// Replaces the signing secret. Tokens are minted and checked under
    /// the new secret from now on; users and configuration stay.
    pub fn rotate_secret(&mut self, secret: Vec<u8>)
        ensures
            final(self)@ == (AuthView { secret: secret@, ..old(self)@ }),
    {
        self.secret = secret;
    }

    /// The credential store behind the service.
    pub fn credentials(&self) -> (store: &CredentialStore)
        ensures
            store@ == self@.credentials,
    {
        &self.credentials
    }

    /// Whether a user with this id is registered.
    pub fn knows(&self, user_id: u64) -> (known: bool)
        ensures
            known == self@.credentials.has_id(user_id),
    {
        self.credentials.contains_id(user_id)
    }
}

} // verus!
