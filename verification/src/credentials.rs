//! The credential store: one record per user, found by username.

use crate::error::CredentialError;
use crate::table::{
    distinct_keys, lemma_table_absent, lemma_table_append, lemma_table_domain, lemma_table_value,
    table,
};
use vstd::prelude::*;

verus! {

/// What the store keeps of one user. The password itself is not part of
/// it: only the salt, the cost and the key derived from them.
#[derive(Debug)]
pub struct UserRecord {
    pub id: u64,
    pub username: String,
    pub salt: Vec<u8>,
    pub rounds: u32,
    pub password_hash: Vec<u8>,
}

/// What a `UserRecord` stands for.
pub struct UserView {
    pub id: u64,
    pub username: Seq<char>,
    pub salt: Seq<u8>,
    pub rounds: u32,
    pub password_hash: Seq<u8>,
}

impl View for UserRecord {
    type V = UserView;

    open spec fn view(&self) -> UserView {
        UserView {
            id: self.id,
            username: self.username@,
            salt: self.salt@,
            rounds: self.rounds,
            password_hash: self.password_hash@,
        }
    }
}

/// What a credential store stands for: its users by name, and the id that
/// the next user will get.
pub struct CredentialsView {
    pub users: Map<Seq<char>, UserView>,
    pub next_id: u64,
}

impl CredentialsView {
    /// Every user is filed under their own name, ids are positive, below
    /// the next one to be assigned, and belong to one user each.
    pub open spec fn valid(self) -> bool {
        &&& self.next_id >= 1
        &&& forall|name: Seq<char>| #[trigger]
            self.users.dom().contains(name) ==> self.users[name].username == name && 1
                <= self.users[name].id < self.next_id
        &&& forall|a: Seq<char>, b: Seq<char>|
            (#[trigger] self.users.dom().contains(a)) && (#[trigger] self.users.dom().contains(b))
                && a != b ==> self.users[a].id != self.users[b].id
    }

    /// Some user has this id.
    pub open spec fn has_id(self, id: u64) -> bool {
        exists|name: Seq<char>| #[trigger]
            self.users.dom().contains(name) && self.users[name].id == id
    }

    /// The store with nobody in it.
    pub open spec fn empty() -> CredentialsView {
        CredentialsView { users: Map::empty(), next_id: 1 }
    }

    /// The store after an attempt to add a user, and what the attempt
    /// returns: a taken username is a conflict; otherwise the user gets the
    /// next id, unless ids have run out.
    pub open spec fn store(
        self,
        username: Seq<char>,
        salt: Seq<u8>,
        rounds: u32,
        password_hash: Seq<u8>,
    ) -> (CredentialsView, Result<u64, CredentialError>) {
        if self.users.dom().contains(username) {
            (self, Err(CredentialError::Conflict))
        } else if self.next_id == u64::MAX {
            (self, Err(CredentialError::StorageUnavailable))
        } else {
            let user = UserView { id: self.next_id, username, salt, rounds, password_hash };
            (
                CredentialsView {
                    users: self.users.insert(username, user),
                    next_id: (self.next_id + 1) as u64,
                },
                Ok(self.next_id),
            )
        }
    }
}

/// Storing a user keeps a valid store valid.
pub proof fn lemma_store_keeps_valid(
    s: CredentialsView,
    username: Seq<char>,
    salt: Seq<u8>,
    rounds: u32,
    password_hash: Seq<u8>,
)
    requires
        s.valid(),
    ensures
        s.store(username, salt, rounds, password_hash).0.valid(),
{
    let after = s.store(username, salt, rounds, password_hash).0;
    if after != s {
        assert forall|a: Seq<char>, b: Seq<char>|
            (#[trigger] after.users.dom().contains(a)) && (#[trigger] after.users.dom().contains(b))
                && a != b implies after.users[a].id != after.users[b].id by {
            if a != username {
                assert(s.users.dom().contains(a));
            }
            if b != username {
                assert(s.users.dom().contains(b));
            }
        }
    }
}

/// The rows that a list of records stands for: username and record, in
/// order.
pub open spec fn rows(users: Seq<UserRecord>) -> Seq<(Seq<char>, UserView)> {
    users.map_values(|u: UserRecord| (u.username@, u@))
}

/// The credential store.
#[derive(Debug)]
pub struct CredentialStore {
    users: Vec<UserRecord>,
    next_id: u64,
}

impl View for CredentialStore {
    type V = CredentialsView;

    closed spec fn view(&self) -> CredentialsView {
        CredentialsView { users: table(rows(self.users@)), next_id: self.next_id }
    }
}

impl CredentialStore {
    #[verifier::type_invariant]
    spec fn well_formed(self) -> bool {
        &&& distinct_keys(rows(self.users@))
        &&& self@.valid()
    }

    /// A store with nobody in it.
    pub fn new() -> (store: CredentialStore)
        ensures
            store@ == CredentialsView::empty(),
            store@.valid(),
    {
        CredentialStore { users: Vec::new(), next_id: 1 }
    }

    /// Position of the record of `name`, if there is one.
    fn position(&self, name: &String) -> (at: Option<usize>)
        ensures
            match at {
                Some(i) => i < self.users@.len() && self.users@[i as int].username@ == name@,
                None => forall|i: int|
                    0 <= i < self.users@.len() ==> (#[trigger] self.users@[i]).username@ != name@,
            },
    {
        let mut i: usize = 0;
        while i < self.users.len()
            invariant
                i <= self.users@.len(),
                forall|k: int| 0 <= k < i ==> (#[trigger] self.users@[k]).username@ != name@,
            decreases self.users@.len() - i,
        {
            if self.users[i].username == *name {
                return Some(i);
            }
            i = i + 1;
        }
        None
    }

    /// The record filed under `name`.
    pub fn lookup_by_username(&self, name: &str) -> (found: Option<&UserRecord>)
        ensures
            self@.valid(),
            match found {
                Some(user) => self@.users.dom().contains(name@) && self@.users[name@] == user@,
                None => !self@.users.dom().contains(name@),
            },
    {
        let key = name.to_owned();
        proof {
            use_type_invariant(self);
        }
        match self.position(&key) {
            Some(i) => {
                proof {
                    lemma_table_value(rows(self.users@), i as int);
                }
                Some(&self.users[i])
            },
            None => {
                proof {
                    lemma_table_absent(rows(self.users@), name@);
                }
                None
            },
        }
    }

    /// Whether some user has the id `id`.
    pub fn contains_id(&self, id: u64) -> (found: bool)
        ensures
            self@.valid(),
            found == self@.has_id(id),
    {
        proof {
            use_type_invariant(self);
        }
        let mut i: usize = 0;
        while i < self.users.len()
            invariant
                i <= self.users@.len(),
                distinct_keys(rows(self.users@)),
                self@.valid(),
                forall|k: int| 0 <= k < i ==> (#[trigger] self.users@[k]).id != id,
            decreases self.users@.len() - i,
        {
            if self.users[i].id == id {
                proof {
                    lemma_table_value(rows(self.users@), i as int);
                    assert(self@.users.dom().contains(self.users@[i as int].username@));
                }
                return true;
            }
            i = i + 1;
        }
        proof {
            if self@.has_id(id) {
                let name = choose|name: Seq<char>| #[trigger]
                    self@.users.dom().contains(name) && self@.users[name].id == id;
                lemma_table_domain(rows(self.users@), name);
                let k = choose|k: int|
                    0 <= k < rows(self.users@).len() && (#[trigger] rows(self.users@)[k]).0 == name;
                lemma_table_value(rows(self.users@), k);
                assert(self.users@[k].id == id);
            }
        }
        false
    }

    /// Files a new user under `username` and assigns the id. A username
    /// that is already stored is a conflict, and leaves the store as it
    /// was.
    pub fn store(
        &mut self,
        username: String,
        salt: Vec<u8>,
        rounds: u32,
        password_hash: Vec<u8>,
    ) -> (outcome: Result<u64, CredentialError>)
        ensures
            (final(self)@, outcome) == old(self)@.store(username@, salt@, rounds, password_hash@),
            final(self)@.valid(),
    {
        proof {
            use_type_invariant(&*self);
            lemma_store_keeps_valid(self@, username@, salt@, rounds, password_hash@);
        }
        match self.position(&username) {
            Some(i) => {
                proof {
                    lemma_table_value(rows(self.users@), i as int);
                }
                Err(CredentialError::Conflict)
            },
            None => {
                proof {
                    lemma_table_absent(rows(self.users@), username@);
                }
                if self.next_id == u64::MAX {
                    return Err(CredentialError::StorageUnavailable);
                }
                let id = self.next_id;
                let user = UserRecord { id, username, salt, rounds, password_hash };
                let mut users: Vec<UserRecord> = Vec::new();
                core::mem::swap(&mut self.users, &mut users);
                proof {
                    lemma_table_append(rows(users@), user.username@, user@);
                    assert(rows(users@.push(user)) == rows(users@).push((user.username@, user@)));
                }
                users.push(user);
                self.next_id = id + 1;
                self.users = users;
                Ok(id)
            },
        }
    }
}

} // verus!
