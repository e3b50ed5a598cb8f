//! The ownership-checked resource store.
//!
//! Every operation names the owner on whose behalf it runs and touches a
//! row only if that owner's id is on it. An item of another owner is
//! treated exactly like an item that does not exist.

use crate::error::StoreError;
use crate::payload::{Payload, ValueView};
use std::collections::HashMap;
use vstd::prelude::*;

verus! {

/// One inventory row.
#[derive(Debug)]
pub struct InventoryItem {
    pub id: u64,
    pub owner_id: u64,
    pub payload: Payload,
    pub version: u64,
    pub updated_at: u64,
}

/// What an `InventoryItem` stands for.
pub struct ItemView {
    pub id: u64,
    pub owner_id: u64,
    pub payload: Map<Seq<char>, ValueView>,
    pub version: u64,
    pub updated_at: u64,
}

impl View for InventoryItem {
    type V = ItemView;

    open spec fn view(&self) -> ItemView {
        ItemView {
            id: self.id,
            owner_id: self.owner_id,
            payload: self.payload@,
            version: self.version,
            updated_at: self.updated_at,
        }
    }
}

impl Clone for InventoryItem {
    fn clone(&self) -> (copy: Self)
        ensures
            copy@ == self@,
    {
        InventoryItem {
            id: self.id,
            owner_id: self.owner_id,
            payload: self.payload.clone(),
            version: self.version,
            updated_at: self.updated_at,
        }
    }
}

impl ItemView {
    /// The item after an update at the time `now`, or why there is none.
    /// An expected version that is not the stored one is a conflict. A
    /// version that cannot advance makes the store unavailable. Otherwise
    /// the patch is laid over the payload, the version advances by one and
    /// the time of the update is recorded; id and owner stay.
    pub open spec fn revised(
        self,
        patch: Map<Seq<char>, ValueView>,
        expected_version: Option<u64>,
        now: u64,
    ) -> Result<ItemView, StoreError> {
        if expected_version is Some && expected_version->0 != self.version {
            Err(StoreError::VersionConflict)
        } else if self.version == u64::MAX {
            Err(StoreError::StorageUnavailable)
        } else {
            Ok(
                ItemView {
                    payload: self.payload.union_prefer_right(patch),
                    version: (self.version + 1) as u64,
                    updated_at: now,
                    ..self
                },
            )
        }
    }
}

impl InventoryItem {
    /// The item that an update at the time `now` puts in place of this
    /// one, or why the update is refused.
    pub fn revise(&self, patch: &Payload, expected_version: Option<u64>, now: u64) -> (outcome:
        Result<InventoryItem, StoreError>)
        ensures
            seen(outcome) == self@.revised(patch@, expected_version, now),
    {
        match expected_version {
            Some(v) => {
                if v != self.version {
                    return Err(StoreError::VersionConflict);
                }
            },
            None => {},
        }
        if self.version == u64::MAX {
            return Err(StoreError::StorageUnavailable);
        }
        let mut payload = self.payload.clone();
        payload.merge(patch);
        Ok(
            InventoryItem {
                id: self.id,
                owner_id: self.owner_id,
                payload,
                version: self.version + 1,
                updated_at: now,
            },
        )
    }
}

/// What a returned item, or the failure in its place, stands for.
pub open spec fn seen(outcome: Result<InventoryItem, StoreError>) -> Result<ItemView, StoreError> {
    match outcome {
        Ok(item) => Ok(item@),
        Err(e) => Err(e),
    }
}

/// What a borrowed item, or the failure in its place, stands for.
pub open spec fn seen_ref(outcome: Result<&InventoryItem, StoreError>) -> Result<
    ItemView,
    StoreError,
> {
    match outcome {
        Ok(item) => Ok(item@),
        Err(e) => Err(e),
    }
}

/// What a resource store stands for: its items by id, and the id that the
/// next item will get.
pub struct InventoryView {
    pub items: Map<u64, ItemView>,
    pub next_id: u64,
}

impl InventoryView {
    /// Every item is filed under its own id, ids are positive and below
    /// the next one to be assigned, and versions start at one.
    pub open spec fn valid(self) -> bool {
        &&& self.next_id >= 1
        &&& forall|id: u64| #[trigger]
            self.items.dom().contains(id) ==> self.items[id].id == id && 1 <= id < self.next_id
                && self.items[id].version >= 1
    }

    /// The store with nothing in it.
    pub open spec fn empty() -> InventoryView {
        InventoryView { items: Map::empty(), next_id: 1 }
    }

    /// Whether `owner` may see the item `id`: it exists and is theirs.
    pub open spec fn visible(self, owner: u64, id: u64) -> bool {
        self.items.dom().contains(id) && self.items[id].owner_id == owner
    }

    /// The store after `owner` creates an item at the time `now`, and the
    /// item: it gets the next id, the owner, the payload as given and
    /// version one. Only when ids have run out is there no item.
    pub open spec fn create(self, owner: u64, payload: Map<Seq<char>, ValueView>, now: u64) -> (
        InventoryView,
        Result<ItemView, StoreError>,
    ) {
        if self.next_id == u64::MAX {
            (self, Err(StoreError::StorageUnavailable))
        } else {
            let item = ItemView {
                id: self.next_id,
                owner_id: owner,
                payload,
                version: 1,
                updated_at: now,
            };
            (
                InventoryView {
                    items: self.items.insert(self.next_id, item),
                    next_id: (self.next_id + 1) as u64,
                },
                Ok(item),
            )
        }
    }

    /// What `owner` gets when reading the item `id`.
    pub open spec fn read(self, owner: u64, id: u64) -> Result<ItemView, StoreError> {
        if self.visible(owner, id) {
            Ok(self.items[id])
        } else {
            Err(StoreError::NotFound)
        }
    }

    /// The store after `owner` updates the item `id`, and the updated
    /// item. A refused update leaves the store as it was.
    pub open spec fn update(
        self,
        owner: u64,
        id: u64,
        patch: Map<Seq<char>, ValueView>,
        expected_version: Option<u64>,
        now: u64,
    ) -> (InventoryView, Result<ItemView, StoreError>) {
        if !self.visible(owner, id) {
            (self, Err(StoreError::NotFound))
        } else {
            match self.items[id].revised(patch, expected_version, now) {
                Ok(item) => (InventoryView { items: self.items.insert(id, item), ..self }, Ok(item)),
                Err(e) => (self, Err(e)),
            }
        }
    }

    /// The store after `owner` deletes the item `id`, and whether there
    /// was such an item of theirs.
    pub open spec fn delete(self, owner: u64, id: u64) -> (InventoryView, Result<(), StoreError>) {
        if self.visible(owner, id) {
            (InventoryView { items: self.items.remove(id), ..self }, Ok(()))
        } else {
            (self, Err(StoreError::NotFound))
        }
    }
}

/// Whatever is done to a valid store, it stays valid.
pub proof fn lemma_store_stays_valid(
    s: InventoryView,
    owner: u64,
    id: u64,
    payload: Map<Seq<char>, ValueView>,
    expected_version: Option<u64>,
    now: u64,
)
    requires
        s.valid(),
    ensures
        s.create(owner, payload, now).0.valid(),
        s.update(owner, id, payload, expected_version, now).0.valid(),
        s.delete(owner, id).0.valid(),
{
    let created = s.create(owner, payload, now).0;
    assert forall|k: u64| #[trigger] created.items.dom().contains(k) implies created.items[k].id
        == k && 1 <= k < created.next_id && created.items[k].version >= 1 by {
        if k != s.next_id {
            assert(s.items.dom().contains(k));
        }
    }
    let updated = s.update(owner, id, payload, expected_version, now).0;
    assert forall|k: u64| #[trigger] updated.items.dom().contains(k) implies updated.items[k].id
        == k && 1 <= k < updated.next_id && updated.items[k].version >= 1 by {
        assert(s.items.dom().contains(k));
    }
    let deleted = s.delete(owner, id).0;
    assert forall|k: u64| #[trigger] deleted.items.dom().contains(k) implies deleted.items[k].id
        == k && 1 <= k < deleted.next_id && deleted.items[k].version >= 1 by {
        assert(s.items.dom().contains(k));
    }
}

/// The items that a map of rows stands for.
pub open spec fn item_views(rows: Map<u64, InventoryItem>) -> Map<u64, ItemView> {
    rows.map_values(|item: InventoryItem| item@)
}

/// The resource store.
#[derive(Debug)]
pub struct ResourceStore {
    items: HashMap<u64, InventoryItem>,
    next_id: u64,
}

impl View for ResourceStore {
    type V = InventoryView;

    closed spec fn view(&self) -> InventoryView {
        InventoryView { items: item_views(self.items@), next_id: self.next_id }
    }
}

impl ResourceStore {
    #[verifier::type_invariant]
    spec fn well_formed(self) -> bool {
        self@.valid()
    }

    /// A store with nothing in it.
    pub fn new() -> (store: ResourceStore)
        ensures
            store@ == InventoryView::empty(),
            store@.valid(),
    {
        let store = ResourceStore { items: HashMap::new(), next_id: 1 };
        assert(store@.items == Map::<u64, ItemView>::empty());
        store
    }

    /// Creates an item for `owner` and returns a copy of it.
    pub fn create(&mut self, owner: u64, payload: Payload, now: u64) -> (outcome: Result<
        InventoryItem,
        StoreError,
    >)
        ensures
            (final(self)@, seen(outcome)) == old(self)@.create(owner, payload@, now),
            final(self)@.valid(),
    {
        proof {
            use_type_invariant(&*self);
        }
        if self.next_id == u64::MAX {
            return Err(StoreError::StorageUnavailable);
        }
        let id = self.next_id;
        let item = InventoryItem { id, owner_id: owner, payload, version: 1, updated_at: now };
        let copy = item.clone();
        let mut items: HashMap<u64, InventoryItem> = HashMap::new();
        core::mem::swap(&mut self.items, &mut items);
        assert(item_views(self.items@) == Map::<u64, ItemView>::empty());
        let ghost before = items@;
        items.insert(id, item);
        assert(item_views(items@) == item_views(before).insert(id, item@));
        self.next_id = id + 1;
        proof {
            lemma_store_stays_valid(old(self)@, owner, id, payload@, None, now);
            assert(item_views(items@) == old(self)@.create(owner, payload@, now).0.items);
        }
        self.items = items;
        Ok(copy)
    }

    /// Reads the item `id` on behalf of `owner`.
    pub fn read(&self, owner: u64, id: u64) -> (outcome: Result<&InventoryItem, StoreError>)
        ensures
            seen_ref(outcome) == self@.read(owner, id),
            self@.valid(),
    {
        proof {
            use_type_invariant(self);
        }
        match self.items.get(&id) {
            Some(item) => {
                if item.owner_id == owner {
                    Ok(item)
                } else {
                    Err(StoreError::NotFound)
                }
            },
            None => Err(StoreError::NotFound),
        }
    }

    /// Updates the item `id` on behalf of `owner` and returns a copy of
    /// the updated item.
    pub fn update(
        &mut self,
        owner: u64,
        id: u64,
        patch: &Payload,
        expected_version: Option<u64>,
        now: u64,
    ) -> (outcome: Result<InventoryItem, StoreError>)
        ensures
            (final(self)@, seen(outcome)) == old(self)@.update(
                owner,
                id,
                patch@,
                expected_version,
                now,
            ),
            final(self)@.valid(),
    {
        proof {
            use_type_invariant(&*self);
        }
        let revised = match self.read(owner, id) {
            Ok(item) => item.revise(patch, expected_version, now),
            Err(e) => Err(e),
        };
        match revised {
            Ok(item) => {
                let copy = item.clone();
                let mut items: HashMap<u64, InventoryItem> = HashMap::new();
                core::mem::swap(&mut self.items, &mut items);
                assert(item_views(self.items@) == Map::<u64, ItemView>::empty());
                let ghost before = items@;
                items.insert(id, item);
                proof {
                    lemma_store_stays_valid(old(self)@, owner, id, patch@, expected_version, now);
                    assert(item_views(items@) == item_views(before).insert(id, item@));
                }
                self.items = items;
                Ok(copy)
            },
            Err(e) => Err(e),
        }
    }

    /// Deletes the item `id` on behalf of `owner`.
    pub fn delete(&mut self, owner: u64, id: u64) -> (outcome: Result<(), StoreError>)
        ensures
            (final(self)@, outcome) == old(self)@.delete(owner, id),
            final(self)@.valid(),
    {
        proof {
            use_type_invariant(&*self);
        }
        match self.read(owner, id) {
            Ok(_) => {
                let mut items: HashMap<u64, InventoryItem> = HashMap::new();
                core::mem::swap(&mut self.items, &mut items);
                assert(item_views(self.items@) == Map::<u64, ItemView>::empty());
                let ghost before = items@;
                items.remove(&id);
                proof {
                    lemma_store_stays_valid(old(self)@, owner, id, Map::empty(), None, 0);
                    assert(item_views(items@) == item_views(before).remove(id));
                }
                self.items = items;
                Ok(())
            },
            Err(e) => Err(e),
        }
    }
}

} // verus!
