//! The request authorization gate and the service behind it.
//!
//! Every protected operation first has its token validated and its user
//! confirmed as registered; only then is the resource store called, and
//! always with that user as the owner. A request whose token is refused
//! ends there: nothing is read and nothing is changed.

use crate::auth::{AuthService, AuthView};
use crate::credentials::lemma_store_keeps_valid;
use crate::crypto::{lower_text, pbkdf2_sha256, SALT_LEN};
use crate::error::{ApiError, AuthError, StoreError};
use crate::inventory::{
    lemma_store_stays_valid, InventoryItem, InventoryView, ItemView, ResourceStore,
};
use crate::payload::{Payload, ValueView};
use crate::request::{accepted_course, course, refused_course, Event};
use vstd::prelude::*;
use vstd::string::StringSliceAdditionalSpecFns;

verus! {

/// What a returned item, or the failure in its place, stands for.
pub open spec fn shown(outcome: Result<InventoryItem, ApiError>) -> Result<ItemView, ApiError> {
    match outcome {
        Ok(item) => Ok(item@),
        Err(e) => Err(e),
    }
}

/// What a borrowed item, or the failure in its place, stands for.
pub open spec fn shown_ref(outcome: Result<&InventoryItem, ApiError>) -> Result<ItemView, ApiError> {
    match outcome {
        Ok(item) => Ok(item@),
        Err(e) => Err(e),
    }
}

/// What returned token bytes, or the failure in their place, stand for.
pub open spec fn issued(outcome: Result<Vec<u8>, ApiError>) -> Result<Seq<u8>, ApiError> {
    match outcome {
        Ok(token) => Ok(token@),
        Err(e) => Err(e),
    }
}

/// A store result as the caller of the service sees it.
pub open spec fn outward<T>(outcome: Result<T, StoreError>) -> Result<T, ApiError> {
    match outcome {
        Ok(v) => Ok(v),
        Err(e) => Err(ApiError::of_store(e)),
    }
}

/// What the service stands for: the auth service and the resource store.
pub struct BackendView {
    pub auth: AuthView,
    pub inventory: InventoryView,
}

impl BackendView {
    /// Both parts are valid, and every item belongs to a registered user.
    pub open spec fn valid(self) -> bool {
        &&& self.auth.credentials.valid()
        &&& self.inventory.valid()
        &&& forall|id: u64| #[trigger]
            self.inventory.items.dom().contains(id) ==> self.auth.credentials.has_id(
                self.inventory.items[id].owner_id,
            )
    }

    /// The user on whose behalf a request with this token runs at the
    /// time `now`: the one that the token names, if the token is valid and
    /// that user is registered. Every refusal is the same `Unauthorized`.
    pub open spec fn authorize(self, token: Seq<u8>, now: u64) -> Result<u64, ApiError> {
        match self.auth.validate(token, now) {
            Ok(user_id) => if self.auth.credentials.has_id(user_id) {
                Ok(user_id)
            } else {
                Err(ApiError::Unauthorized)
            },
            Err(_) => Err(ApiError::Unauthorized),
        }
    }

    /// The service after a registration with the given salt, and what the
    /// caller gets.
    pub open spec fn register(self, username: Seq<char>, password: Seq<u8>, salt: Seq<u8>) -> (
        BackendView,
        Result<u64, ApiError>,
    ) {
        let (auth, outcome) = self.auth.register(username, password, salt);
        (
            BackendView { auth, ..self },
            match outcome {
                Ok(id) => Ok(id),
                Err(e) => Err(ApiError::of_auth(e)),
            },
        )
    }

    /// What the caller gets from a login at the time `now`.
    pub open spec fn login(self, username: Seq<char>, password: Seq<u8>, now: u64) -> Result<
        Seq<u8>,
        ApiError,
    > {
        match self.auth.login(username, password, now) {
            Ok(token) => Ok(token),
            Err(e) => Err(ApiError::of_auth(e)),
        }
    }

    /// The service after a request to create an item, and what the caller
    /// gets.
    pub open spec fn create_inventory(
        self,
        token: Seq<u8>,
        payload: Map<Seq<char>, ValueView>,
        now: u64,
    ) -> (BackendView, Result<ItemView, ApiError>) {
        match self.authorize(token, now) {
            Ok(owner) => {
                let (inventory, outcome) = self.inventory.create(owner, payload, now);
                (BackendView { inventory, ..self }, outward(outcome))
            },
            Err(e) => (self, Err(e)),
        }
    }

    /// What the caller gets from a request to read the item `id`.
    pub open spec fn read_inventory(self, token: Seq<u8>, id: u64, now: u64) -> Result<
        ItemView,
        ApiError,
    > {
        match self.authorize(token, now) {
            Ok(owner) => outward(self.inventory.read(owner, id)),
            Err(e) => Err(e),
        }
    }

    /// The service after a request to update the item `id`, and what the
    /// caller gets.
    pub open spec fn update_inventory(
        self,
        token: Seq<u8>,
        id: u64,
        patch: Map<Seq<char>, ValueView>,
        expected_version: Option<u64>,
        now: u64,
    ) -> (BackendView, Result<ItemView, ApiError>) {
        match self.authorize(token, now) {
            Ok(owner) => {
                let (inventory, outcome) = self.inventory.update(
                    owner,
                    id,
                    patch,
                    expected_version,
                    now,
                );
                (BackendView { inventory, ..self }, outward(outcome))
            },
            Err(e) => (self, Err(e)),
        }
    }

    /// The service after a request to delete the item `id`, and what the
    /// caller gets.
    pub open spec fn delete_inventory(self, token: Seq<u8>, id: u64, now: u64) -> (
        BackendView,
        Result<(), ApiError>,
    ) {
        match self.authorize(token, now) {
            Ok(owner) => {
                let (inventory, outcome) = self.inventory.delete(owner, id);
                (BackendView { inventory, ..self }, outward(outcome))
            },
            Err(e) => (self, Err(e)),
        }
    }
}

/// A registration keeps a valid service valid: users are only added, so
/// every item still belongs to one.
pub proof fn lemma_register_keeps_valid(
    s: BackendView,
    username: Seq<char>,
    password: Seq<u8>,
    salt: Seq<u8>,
)
    requires
        s.valid(),
    ensures
        s.register(username, password, salt).0.valid(),
{
    let after = s.register(username, password, salt).0;
    let name = lower_text(username);
    let key = pbkdf2_sha256(password, salt, s.auth.rounds);
    lemma_store_keeps_valid(s.auth.credentials, name, salt, s.auth.rounds, key);
    assert forall|id: u64| #[trigger]
        after.inventory.items.dom().contains(id) implies after.auth.credentials.has_id(
        after.inventory.items[id].owner_id,
    ) by {
        let owner = s.inventory.items[id].owner_id;
        assert(s.auth.credentials.has_id(owner));
        let holder = choose|n: Seq<char>| #[trigger]
            s.auth.credentials.users.dom().contains(n) && s.auth.credentials.users[n].id == owner;
        assert(after.auth.credentials.users.dom().contains(holder));
        assert(after.auth.credentials.users[holder].id == owner);
    }
}

/// A request on the inventory keeps a valid service valid: an item is
/// created only for a user who is registered, and updates and deletions
/// add no owner.
pub proof fn lemma_requests_keep_valid(
    s: BackendView,
    token: Seq<u8>,
    id: u64,
    payload: Map<Seq<char>, ValueView>,
    expected_version: Option<u64>,
    now: u64,
)
    requires
        s.valid(),
    ensures
        s.create_inventory(token, payload, now).0.valid(),
        s.update_inventory(token, id, payload, expected_version, now).0.valid(),
        s.delete_inventory(token, id, now).0.valid(),
{
    if s.authorize(token, now) is Ok {
        let owner = s.authorize(token, now)->Ok_0;
        lemma_store_stays_valid(s.inventory, owner, id, payload, expected_version, now);
        let created = s.create_inventory(token, payload, now).0;
        assert forall|k: u64| #[trigger]
            created.inventory.items.dom().contains(k) implies created.auth.credentials.has_id(
            created.inventory.items[k].owner_id,
        ) by {
            if k != s.inventory.next_id {
                assert(s.inventory.items.dom().contains(k));
            }
        }
        let updated = s.update_inventory(token, id, payload, expected_version, now).0;
        assert forall|k: u64| #[trigger]
            updated.inventory.items.dom().contains(k) implies updated.auth.credentials.has_id(
            updated.inventory.items[k].owner_id,
        ) by {
            assert(s.inventory.items.dom().contains(k));
        }
        let deleted = s.delete_inventory(token, id, now).0;
        assert forall|k: u64| #[trigger]
            deleted.inventory.items.dom().contains(k) implies deleted.auth.credentials.has_id(
            deleted.inventory.items[k].owner_id,
        ) by {
            assert(s.inventory.items.dom().contains(k));
        }
    }
}

/// The service: an auth service in front of a resource store.
pub struct Backend {
    auth: AuthService,
    inventory: ResourceStore,
}

impl View for Backend {
    type V = BackendView;

    closed spec fn view(&self) -> BackendView {
        BackendView { auth: self.auth@, inventory: self.inventory@ }
    }
}

impl Backend {
    /// A service without users or items. Tokens are signed with `secret`
    /// and live for `ttl` units of time; a password needs
    /// `min_password_len` bytes; keys are derived with `rounds` rounds.
    pub fn new(secret: Vec<u8>, ttl: u64, min_password_len: usize, rounds: u32) -> (backend:
        Backend)
        ensures
            backend@.auth == AuthView::fresh(secret@, ttl, min_password_len, rounds),
            backend@.inventory == InventoryView::empty(),
            backend@.valid(),
    {
        Backend {
            auth: AuthService::new(secret, ttl, min_password_len, rounds),
            inventory: ResourceStore::new(),
        }
    }

    /// The auth service behind the authorization gate.
    pub fn auth(&self) -> (auth: &AuthService)
        ensures
            auth@ == self@.auth,
    {
        &self.auth
    }

    /// The resource store behind the authorization gate.
    pub fn inventory(&self) -> (inventory: &ResourceStore)
        ensures
            inventory@ == self@.inventory,
    {
        &self.inventory
    }

    /// Replaces the signing secret; users and items stay.
    pub fn rotate_secret(&mut self, secret: Vec<u8>)
        ensures
            final(self)@.auth == (AuthView { secret: secret@, ..old(self)@.auth }),
            final(self)@.inventory == old(self)@.inventory,
            old(self)@.valid() ==> final(self)@.valid(),
    {
        self.auth.rotate_secret(secret);
    }

    /// Registers a user with a salt that the caller supplies.
    pub fn register_with_salt(&mut self, username: &str, password: &str, salt: &[u8]) -> (outcome:
        Result<u64, ApiError>)
        ensures
            (final(self)@, outcome) == old(self)@.register(
                username@,
                password.spec_bytes(),
                salt@,
            ),
            old(self)@.valid() ==> final(self)@.valid(),
    {
        proof {
            lemma_register_keeps_valid_if(self@, username@, password.spec_bytes(), salt@);
        }
        match self.auth.register_with_salt(username, password, salt) {
            Ok(id) => Ok(id),
            Err(e) => Err(ApiError::from_auth(e)),
        }
    }

    /// Registers a user, with a salt drawn from the system's random
    /// source. A taken username and a weak password are refused whatever
    /// the source does; its failure is reported as `StorageUnavailable`.
    pub fn register(&mut self, username: &str, password: &str) -> (outcome: Result<u64, ApiError>)
        ensures
            old(self)@.valid() ==> final(self)@.valid(),
            match old(self)@.auth.refusal(username@, password.spec_bytes()) {
                Some(e) => outcome == Err::<u64, ApiError>(ApiError::of_auth(e)) && final(self)@
                    == old(self)@,
                None => {
                    ||| (outcome == Err::<u64, ApiError>(ApiError::StorageUnavailable)
                        && final(self)@ == old(self)@)
                    ||| exists|salt: Seq<u8>|
                        salt.len() == SALT_LEN && (final(self)@, outcome)
                            == #[trigger] old(self)@.register(username@, password.spec_bytes(), salt)
                },
            },
    {
        let outcome = self.auth.register(username, password);
        proof {
            if old(self)@.auth.refusal(username@, password.spec_bytes()) is None && !(outcome
                == Err::<u64, AuthError>(AuthError::StorageUnavailable) && self@ == old(self)@) {
                let salt = choose|salt: Seq<u8>|
                    salt.len() == SALT_LEN && (self.auth@, outcome)
                        == #[trigger] old(self).auth@.register(
                        username@,
                        password.spec_bytes(),
                        salt,
                    );
                lemma_register_keeps_valid_if(old(self)@, username@, password.spec_bytes(), salt);
                assert((self@, Self::outward_id(outcome)) == old(self)@.register(
                    username@,
                    password.spec_bytes(),
                    salt,
                ));
            }
        }
        match outcome {
            Ok(id) => Ok(id),
            Err(e) => Err(ApiError::from_auth(e)),
        }
    }

    /// A registration result as the caller sees it.
    spec fn outward_id(outcome: Result<u64, AuthError>) -> Result<u64, ApiError> {
        match outcome {
            Ok(id) => Ok(id),
            Err(e) => Err(ApiError::of_auth(e)),
        }
    }

    /// Verifies the credentials and mints a token.
    pub fn login(&self, username: &str, password: &str, now: u64) -> (outcome: Result<
        Vec<u8>,
        ApiError,
    >)
        ensures
            issued(outcome) == self@.login(username@, password.spec_bytes(), now),
    {
        match self.auth.login(username, password, now) {
            Ok(token) => Ok(token),
            Err(e) => Err(ApiError::from_auth(e)),
        }
    }

    /// Resolves the user on whose behalf a request runs, or refuses it.
    pub fn authorize(&self, token: &[u8], now: u64) -> (outcome: Result<u64, ApiError>)
        ensures
            outcome == self@.authorize(token@, now),
    {
        match self.auth.validate(token, now) {
            Ok(user_id) => {
                if self.auth.knows(user_id) {
                    Ok(user_id)
                } else {
                    Err(ApiError::Unauthorized)
                }
            },
            Err(e) => Err(ApiError::from_token(e)),
        }
    }

    /// The events that a protected request with this token goes through
    /// at the time `now`: forwarded to the resource store if the token is
    /// accepted, answered at once if it is refused.
    pub fn course_of(&self, token: &[u8], now: u64) -> (events: Vec<Event>)
        ensures
            events@ == if self@.authorize(token@, now) is Ok {
                accepted_course()
            } else {
                refused_course()
            },
    {
        course(self.authorize(token, now).is_ok())
    }

    /// Creates an item owned by the bearer of `token`.
    pub fn create_inventory(&mut self, token: &[u8], payload: Payload, now: u64) -> (outcome:
        Result<InventoryItem, ApiError>)
        ensures
            (final(self)@, shown(outcome)) == old(self)@.create_inventory(token@, payload@, now),
            old(self)@.valid() ==> final(self)@.valid(),
    {
        proof {
            lemma_requests_keep_valid_if(self@, token@, 0, payload@, None, now);
        }
        match self.authorize(token, now) {
            Ok(owner) => match self.inventory.create(owner, payload, now) {
                Ok(item) => Ok(item),
                Err(e) => Err(ApiError::from_store(e)),
            },
            Err(e) => Err(e),
        }
    }

    /// Reads the item `id` for the bearer of `token`.
    pub fn read_inventory(&self, token: &[u8], id: u64, now: u64) -> (outcome: Result<
        &InventoryItem,
        ApiError,
    >)
        ensures
            shown_ref(outcome) == self@.read_inventory(token@, id, now),
    {
        match self.authorize(token, now) {
            Ok(owner) => match self.inventory.read(owner, id) {
                Ok(item) => Ok(item),
                Err(e) => Err(ApiError::from_store(e)),
            },
            Err(e) => Err(e),
        }
    }

    /// Updates the item `id` for the bearer of `token`.
    pub fn update_inventory(
        &mut self,
        token: &[u8],
        id: u64,
        patch: &Payload,
        expected_version: Option<u64>,
        now: u64,
    ) -> (outcome: Result<InventoryItem, ApiError>)
        ensures
            (final(self)@, shown(outcome)) == old(self)@.update_inventory(
                token@,
                id,
                patch@,
                expected_version,
                now,
            ),
            old(self)@.valid() ==> final(self)@.valid(),
    {
        proof {
            lemma_requests_keep_valid_if(self@, token@, id, patch@, expected_version, now);
        }
        match self.authorize(token, now) {
            Ok(owner) => match self.inventory.update(owner, id, patch, expected_version, now) {
                Ok(item) => Ok(item),
                Err(e) => Err(ApiError::from_store(e)),
            },
            Err(e) => Err(e),
        }
    }

    /// Deletes the item `id` for the bearer of `token`.
    pub fn delete_inventory(&mut self, token: &[u8], id: u64, now: u64) -> (outcome: Result<
        (),
        ApiError,
    >)
        ensures
            (final(self)@, outcome) == old(self)@.delete_inventory(token@, id, now),
            old(self)@.valid() ==> final(self)@.valid(),
    {
        proof {
            lemma_requests_keep_valid_if(self@, token@, id, Map::empty(), None, now);
        }
        match self.authorize(token, now) {
            Ok(owner) => match self.inventory.delete(owner, id) {
                Ok(()) => Ok(()),
                Err(e) => Err(ApiError::from_store(e)),
            },
            Err(e) => Err(e),
        }
    }
}

proof fn lemma_register_keeps_valid_if(
    s: BackendView,
    username: Seq<char>,
    password: Seq<u8>,
    salt: Seq<u8>,
)
    ensures
        s.valid() ==> s.register(username, password, salt).0.valid(),
{
    if s.valid() {
        lemma_register_keeps_valid(s, username, password, salt);
    }
}

proof fn lemma_requests_keep_valid_if(
    s: BackendView,
    token: Seq<u8>,
    id: u64,
    payload: Map<Seq<char>, ValueView>,
    expected_version: Option<u64>,
    now: u64,
)
    ensures
        s.valid() ==> s.create_inventory(token, payload, now).0.valid(),
        s.valid() ==> s.update_inventory(token, id, payload, expected_version, now).0.valid(),
        s.valid() ==> s.delete_inventory(token, id, now).0.valid(),
{
    if s.valid() {
        lemma_requests_keep_valid(s, token, id, payload, expected_version, now);
    }
}

} // verus!
