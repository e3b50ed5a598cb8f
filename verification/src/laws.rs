//! What holds of the service as a whole, stated over the mappings and
//! functions that the contracts of its operations use.

use crate::auth::{expiry, password_matches, AuthView};
use crate::credentials::lemma_store_keeps_valid;
use crate::crypto::{lower_text, pbkdf2_sha256};
use crate::error::{ApiError, AuthError, StoreError, TokenError};
use crate::gate::BackendView;
use crate::inventory::{InventoryView, ItemView};
use crate::payload::ValueView;
use crate::token::{lemma_minted_token_is_valid, Claims};
use vstd::prelude::*;

verus! {

/// A username that is free and a password that meets the policy can be
/// registered as long as user ids are left. The user can then log in with
/// the same credentials, however the username is capitalised, and the
/// token is accepted for that user's id at any time before its expiry.
pub proof fn law_register_then_login(
    s: AuthView,
    username: Seq<char>,
    password: Seq<u8>,
    salt: Seq<u8>,
    now: u64,
    at: u64,
)
    requires
        s.credentials.valid(),
        s.refusal(username, password) is None,
        s.credentials.next_id < u64::MAX,
        at < expiry(now, s.ttl),
    ensures
        ({
            let (after, registered) = s.register(username, password, salt);
            let token = after.login(username, password, now);
            &&& after.credentials.valid()
            &&& registered == Ok::<u64, AuthError>(s.credentials.next_id)
            &&& token is Ok
            &&& after.validate(token->Ok_0, at) == Ok::<u64, TokenError>(s.credentials.next_id)
            &&& after.credentials.has_id(s.credentials.next_id)
        }),
{
    let name = lower_text(username);
    let key = pbkdf2_sha256(password, salt, s.rounds);
    lemma_store_keeps_valid(s.credentials, name, salt, s.rounds, key);
    let (after, registered) = s.register(username, password, salt);
    assert(after.credentials.users.dom().contains(name));
    assert(after.credentials.users[name].id == s.credentials.next_id);
    assert(password_matches(after.credentials.users[name], password));
    let claims = Claims { user_id: s.credentials.next_id, expires_at: expiry(now, s.ttl) };
    lemma_minted_token_is_valid(s.secret, claims, at);
}

/// The same for a whole request: the token that a fresh user gets on login
/// authorizes requests on that user's behalf until it expires.
pub proof fn law_login_token_authorizes(
    s: BackendView,
    username: Seq<char>,
    password: Seq<u8>,
    salt: Seq<u8>,
    now: u64,
    at: u64,
)
    requires
        s.valid(),
        s.auth.refusal(username, password) is None,
        s.auth.credentials.next_id < u64::MAX,
        at < expiry(now, s.auth.ttl),
    ensures
        ({
            let (after, registered) = s.register(username, password, salt);
            let token = after.login(username, password, now);
            &&& registered == Ok::<u64, ApiError>(s.auth.credentials.next_id)
            &&& token is Ok
            &&& after.authorize(token->Ok_0, at) == registered
        }),
{
    law_register_then_login(s.auth, username, password, salt, now, at);
}

/// A username that is registered cannot be registered again, whatever its
/// capitalisation, the password and the salt; the attempt changes nothing.
pub proof fn law_registered_username_is_taken(
    s: AuthView,
    username: Seq<char>,
    password: Seq<u8>,
    salt: Seq<u8>,
)
    requires
        s.credentials.users.dom().contains(lower_text(username)),
    ensures
        s.register(username, password, salt) == (s, Err::<u64, AuthError>(AuthError::UsernameTaken)),
{
}

/// After a registration has succeeded, a second one under the same
/// username fails with `UsernameTaken`, whatever the password.
pub proof fn law_second_registration_fails(
    s: AuthView,
    username: Seq<char>,
    first_password: Seq<u8>,
    first_salt: Seq<u8>,
    second_password: Seq<u8>,
    second_salt: Seq<u8>,
)
    requires
        s.register(username, first_password, first_salt).1 is Ok,
    ensures
        ({
            let after = s.register(username, first_password, first_salt).0;
            after.register(username, second_password, second_salt) == (
                after,
                Err::<u64, AuthError>(AuthError::UsernameTaken),
            )
        }),
{
}

/// A login that fails tells nothing: whether the username is unknown or
/// the password is not the user's, the failure is the same value. A
/// password counts as not the user's when the key derived from it is not
/// the stored one.
pub proof fn law_login_failures_are_alike(
    s: AuthView,
    known: Seq<char>,
    wrong: Seq<u8>,
    unknown: Seq<char>,
    any: Seq<u8>,
    now: u64,
)
    requires
        s.credentials.users.dom().contains(lower_text(known)),
        !s.credentials.users.dom().contains(lower_text(unknown)),
    ensures
        s.login(unknown, any, now) == Err::<Seq<u8>, AuthError>(AuthError::InvalidCredentials),
        !password_matches(s.credentials.users[lower_text(known)], wrong) ==> s.login(
            known,
            wrong,
            now,
        ) == s.login(unknown, any, now),
        s.login(known, wrong, now) is Err ==> s.login(known, wrong, now) == s.login(
            unknown,
            any,
            now,
        ),
{
}

/// An item of one user does not exist for another: reading, updating and
/// deleting it give `NotFound`, exactly as for an id that was never
/// assigned, and leave the store as it was.
pub proof fn law_foreign_item_is_not_found(
    s: InventoryView,
    owner: u64,
    other: u64,
    id: u64,
    missing: u64,
    patch: Map<Seq<char>, ValueView>,
    expected_version: Option<u64>,
    now: u64,
)
    requires
        s.items.dom().contains(id),
        s.items[id].owner_id == owner,
        other != owner,
        !s.items.dom().contains(missing),
    ensures
        s.read(other, id) == Err::<ItemView, StoreError>(StoreError::NotFound),
        s.update(other, id, patch, expected_version, now) == (
            s,
            Err::<ItemView, StoreError>(StoreError::NotFound),
        ),
        s.delete(other, id) == (s, Err::<(), StoreError>(StoreError::NotFound)),
        s.read(other, id) == s.read(other, missing),
        s.update(other, id, patch, expected_version, now) == s.update(
            other,
            missing,
            patch,
            expected_version,
            now,
        ),
        s.delete(other, id) == s.delete(other, missing),
{
}

/// The same for a whole request: a request that is authorized for one user
/// and aims at an item of another is answered with `NotFound` and changes
/// nothing.
pub proof fn law_foreign_request_is_not_found(
    s: BackendView,
    token: Seq<u8>,
    id: u64,
    patch: Map<Seq<char>, ValueView>,
    expected_version: Option<u64>,
    now: u64,
)
    requires
        s.authorize(token, now) is Ok,
        s.inventory.items.dom().contains(id),
        s.inventory.items[id].owner_id != s.authorize(token, now)->Ok_0,
    ensures
        s.read_inventory(token, id, now) == Err::<ItemView, ApiError>(ApiError::NotFound),
        s.update_inventory(token, id, patch, expected_version, now) == (
            s,
            Err::<ItemView, ApiError>(ApiError::NotFound),
        ),
        s.delete_inventory(token, id, now) == (s, Err::<(), ApiError>(ApiError::NotFound)),
{
}

/// A request whose token is refused is answered with `Unauthorized` and
/// changes nothing: the resource store is not reached.
pub proof fn law_refused_request_changes_nothing(
    s: BackendView,
    token: Seq<u8>,
    id: u64,
    payload: Map<Seq<char>, ValueView>,
    expected_version: Option<u64>,
    now: u64,
)
    requires
        s.authorize(token, now) is Err,
    ensures
        s.authorize(token, now) == Err::<u64, ApiError>(ApiError::Unauthorized),
        s.create_inventory(token, payload, now) == (
            s,
            Err::<ItemView, ApiError>(ApiError::Unauthorized),
        ),
        s.read_inventory(token, id, now) == Err::<ItemView, ApiError>(ApiError::Unauthorized),
        s.update_inventory(token, id, payload, expected_version, now) == (
            s,
            Err::<ItemView, ApiError>(ApiError::Unauthorized),
        ),
        s.delete_inventory(token, id, now) == (s, Err::<(), ApiError>(ApiError::Unauthorized)),
{
}

/// What one owner does leaves the items of every other owner as they
/// were.
pub proof fn law_other_owners_are_untouched(
    s: InventoryView,
    owner: u64,
    id: u64,
    payload: Map<Seq<char>, ValueView>,
    expected_version: Option<u64>,
    now: u64,
    bystander: u64,
)
    requires
        s.valid(),
        s.items.dom().contains(bystander),
        s.items[bystander].owner_id != owner,
    ensures
        s.create(owner, payload, now).0.items.dom().contains(bystander),
        s.create(owner, payload, now).0.items[bystander] == s.items[bystander],
        s.update(owner, id, payload, expected_version, now).0.items.dom().contains(bystander),
        s.update(owner, id, payload, expected_version, now).0.items[bystander]
            == s.items[bystander],
        s.delete(owner, id).0.items.dom().contains(bystander),
        s.delete(owner, id).0.items[bystander] == s.items[bystander],
{
}

/// An update that succeeds keeps the id and the owner of the item, lays
/// the patch over its payload and advances its version by exactly one.
pub proof fn law_update_advances_version(
    s: InventoryView,
    owner: u64,
    id: u64,
    patch: Map<Seq<char>, ValueView>,
    expected_version: Option<u64>,
    now: u64,
)
    requires
        s.update(owner, id, patch, expected_version, now).1 is Ok,
    ensures
        ({
            let (after, outcome) = s.update(owner, id, patch, expected_version, now);
            let item = outcome->Ok_0;
            &&& after.items.dom().contains(id)
            &&& after.items[id] == item
            &&& item.id == s.items[id].id
            &&& item.owner_id == owner
            &&& item.version == s.items[id].version + 1
            &&& item.updated_at == now
            &&& item.payload == s.items[id].payload.union_prefer_right(patch)
        }),
{
}

/// Of two updates that both expect the version `v` of an item, the one
/// that runs first succeeds and brings the item to version `v + 1`; the
/// other is refused with `VersionConflict` and changes nothing.
pub proof fn law_one_of_two_updates_wins(
    s: InventoryView,
    owner: u64,
    id: u64,
    v: u64,
    first_patch: Map<Seq<char>, ValueView>,
    first_now: u64,
    second_patch: Map<Seq<char>, ValueView>,
    second_now: u64,
)
    requires
        s.visible(owner, id),
        s.items[id].version == v,
        v < u64::MAX,
    ensures
        ({
            let (between, first) = s.update(owner, id, first_patch, Some(v), first_now);
            let (after, second) = between.update(owner, id, second_patch, Some(v), second_now);
            &&& first is Ok
            &&& first->Ok_0.version == v + 1
            &&& second == Err::<ItemView, StoreError>(StoreError::VersionConflict)
            &&& after == between
        }),
{
}

/// Creation is not idempotent: the same call made twice, both times with
/// success, leaves two items with different ids in the store, each with
/// version one and the payload given.
pub proof fn law_create_twice_gives_two_items(
    s: InventoryView,
    owner: u64,
    payload: Map<Seq<char>, ValueView>,
    now: u64,
)
    requires
        s.valid(),
        s.create(owner, payload, now).1 is Ok,
        s.create(owner, payload, now).0.create(owner, payload, now).1 is Ok,
    ensures
        ({
            let (between, first) = s.create(owner, payload, now);
            let (after, second) = between.create(owner, payload, now);
            let a = first->Ok_0;
            let b = second->Ok_0;
            &&& a.id != b.id
            &&& !s.items.dom().contains(a.id)
            &&& !s.items.dom().contains(b.id)
            &&& after.items.dom().contains(a.id)
            &&& after.items.dom().contains(b.id)
            &&& after.items[a.id] == a
            &&& after.items[b.id] == b
            &&& a.version == 1 && b.version == 1
            &&& a.owner_id == owner && b.owner_id == owner
            &&& a.payload == payload && b.payload == payload
        }),
{
}

/// A deleted item is gone: a second deletion and a read both give
/// `NotFound`.
pub proof fn law_deleted_item_is_gone(s: InventoryView, owner: u64, id: u64)
    requires
        s.delete(owner, id).1 is Ok,
    ensures
        ({
            let after = s.delete(owner, id).0;
            &&& after.read(owner, id) == Err::<ItemView, StoreError>(StoreError::NotFound)
            &&& after.delete(owner, id) == (after, Err::<(), StoreError>(StoreError::NotFound))
        }),
{
}

/// The same for two whole requests: of two authorized update requests on
/// behalf of the owner that both expect the version `v`, the first is
/// answered with the item at version `v + 1`, the second with
/// `VersionConflict`, and the second changes nothing.
pub proof fn law_one_of_two_requests_wins(
    s: BackendView,
    first_token: Seq<u8>,
    second_token: Seq<u8>,
    id: u64,
    v: u64,
    first_patch: Map<Seq<char>, ValueView>,
    first_now: u64,
    second_patch: Map<Seq<char>, ValueView>,
    second_now: u64,
)
    requires
        s.inventory.items.dom().contains(id),
        s.authorize(first_token, first_now) == Ok::<u64, ApiError>(
            s.inventory.items[id].owner_id,
        ),
        s.authorize(second_token, second_now) == Ok::<u64, ApiError>(
            s.inventory.items[id].owner_id,
        ),
        s.inventory.items[id].version == v,
        v < u64::MAX,
    ensures
        ({
            let (between, first) = s.update_inventory(
                first_token,
                id,
                first_patch,
                Some(v),
                first_now,
            );
            let (after, second) = between.update_inventory(
                second_token,
                id,
                second_patch,
                Some(v),
                second_now,
            );
            &&& first is Ok
            &&& first->Ok_0.version == v + 1
            &&& second == Err::<ItemView, ApiError>(ApiError::VersionConflict)
            &&& after == between
        }),
{
}

/// The same for two whole requests: an authorized creation request that
/// is repeated, both times with success, is answered with two items of
/// different ids, and both are in the store afterwards.
pub proof fn law_create_request_twice_gives_two_items(
    s: BackendView,
    token: Seq<u8>,
    payload: Map<Seq<char>, ValueView>,
    now: u64,
)
    requires
        s.valid(),
        s.create_inventory(token, payload, now).1 is Ok,
        s.create_inventory(token, payload, now).0.create_inventory(token, payload, now).1 is Ok,
    ensures
        ({
            let (between, first) = s.create_inventory(token, payload, now);
            let (after, second) = between.create_inventory(token, payload, now);
            let a = first->Ok_0;
            let b = second->Ok_0;
            &&& a.id != b.id
            &&& after.inventory.items.dom().contains(a.id)
            &&& after.inventory.items.dom().contains(b.id)
            &&& after.inventory.items[a.id] == a
            &&& after.inventory.items[b.id] == b
            &&& a.owner_id == b.owner_id
            &&& s.authorize(token, now) == Ok::<u64, ApiError>(a.owner_id)
            &&& a.version == 1 && b.version == 1
        }),
{
    let owner = s.authorize(token, now)->Ok_0;
    law_create_twice_gives_two_items(s.inventory, owner, payload, now);
}

/// A user who is registered stays registered, under the same id and with
/// the same stored record, whatever is registered afterwards.
pub proof fn law_users_are_never_removed(
    s: AuthView,
    name: Seq<char>,
    username: Seq<char>,
    password: Seq<u8>,
    salt: Seq<u8>,
)
    requires
        s.credentials.users.dom().contains(name),
    ensures
        s.register(username, password, salt).0.credentials.users.dom().contains(name),
        s.register(username, password, salt).0.credentials.users[name] == s.credentials.users[name],
{
}

/// Each operation fails in the listed ways and in no other: registration
/// with a taken username, an unacceptable password or an unavailable
/// store; login with invalid credentials; every protected request with a
/// refused token; reading and deleting also with an item not found;
/// updating also with a version conflict; creating and updating also with
/// an unavailable store.
pub proof fn law_failures_are_as_listed(
    s: BackendView,
    username: Seq<char>,
    password: Seq<u8>,
    salt: Seq<u8>,
    token: Seq<u8>,
    id: u64,
    payload: Map<Seq<char>, ValueView>,
    expected_version: Option<u64>,
    now: u64,
)
    ensures
        s.register(username, password, salt).1 matches Err(e) ==> e == ApiError::UsernameTaken || e
            == ApiError::InputInvalid || e == ApiError::StorageUnavailable,
        s.login(username, password, now) matches Err(e) ==> e == ApiError::InvalidCredentials,
        s.create_inventory(token, payload, now).1 matches Err(e) ==> e == ApiError::Unauthorized
            || e == ApiError::StorageUnavailable,
        s.read_inventory(token, id, now) matches Err(e) ==> e == ApiError::Unauthorized || e
            == ApiError::NotFound,
        s.update_inventory(token, id, payload, expected_version, now).1 matches Err(e) ==> e
            == ApiError::Unauthorized || e == ApiError::NotFound || e == ApiError::VersionConflict
            || e == ApiError::StorageUnavailable,
        s.delete_inventory(token, id, now).1 matches Err(e) ==> e == ApiError::Unauthorized || e
            == ApiError::NotFound,
{
}

} // verus!
