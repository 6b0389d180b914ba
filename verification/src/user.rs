//! The user aggregate: explicit create, retrieve, update and delete, with
//! uniqueness on the username natural key.
//!
//! Unlike habits and tasks, a user is created by an explicit request, so a
//! duplicate username surfaces as [`Error::AlreadyExists`] instead of being
//! absorbed; the get-or-create path used by the request handlers is
//! [`User::resolve_or_create`].

use vstd::prelude::*;

use crate::error::Error;
use crate::search::{
    first_match_idx, lemma_first_match_idx, lemma_first_match_idx_at, lemma_first_match_idx_none,
};
use crate::store::{lemma_map_values_push, lemma_map_values_remove, lemma_map_values_update};
use crate::store::{Store, StoreView};
use vstd::pervasive::VecAdditionalExecFns;

verus! {

/// A user row: a store-assigned identifier, a unique username, and a
/// display name.
#[derive(Debug, Clone)]
pub struct User {
    pub id: i64,
    pub username: String,
    pub name: String,
}

/// Mathematical view of a [`User`] row.
pub struct UserView {
    pub id: int,
    pub username: Seq<char>,
    pub name: Seq<char>,
}

impl View for User {
    type V = UserView;

    open spec fn view(&self) -> UserView {
        UserView { id: self.id as int, username: self.username@, name: self.name@ }
    }
}

/// Index of the first (and, under the store invariant, only) user with the
/// given username, or `-1` if there is none.
pub open spec fn user_idx_by_username(users: Seq<UserView>, username: Seq<char>) -> int {
    first_match_idx(users, |u: UserView| u.username == username)
}

/// Index of the first (and, under the store invariant, only) user with the
/// given identifier, or `-1` if there is none.
pub open spec fn user_idx_by_id(users: Seq<UserView>, id: int) -> int {
    first_match_idx(users, |u: UserView| u.id == id)
}

/// What inserting a user does to the store: a duplicate username is
/// `AlreadyExists`, an exhausted identifier space is `UnknownStore`, and
/// otherwise the row is appended with the next identifier and returned.
pub open spec fn user_insert_transition(
    s: StoreView,
    username: Seq<char>,
    name: Seq<char>,
) -> (StoreView, Result<UserView, Error>) {
    if user_idx_by_username(s.users, username) >= 0 {
        (s, Err(Error::AlreadyExists))
    } else if s.next_user_id == i64::MAX {
        (s, Err(Error::UnknownStore))
    } else {
        let u = UserView { id: s.next_user_id, username: username, name: name };
        (
            StoreView { users: s.users.push(u), next_user_id: s.next_user_id + 1, ..s },
            Ok(u),
        )
    }
}

/// What retrieving a user by identifier returns: the unique row with that
/// identifier, or `NotFound`.
pub open spec fn user_retrieve_result(s: StoreView, id: int) -> Result<UserView, Error> {
    let i = user_idx_by_id(s.users, id);
    if i >= 0 {
        Ok(s.users[i])
    } else {
        Err(Error::NotFound)
    }
}

/// What looking a user up by username returns: the unique row with that
/// username, or `NotFound`.
pub open spec fn user_get_result(s: StoreView, username: Seq<char>) -> Result<UserView, Error> {
    let i = user_idx_by_username(s.users, username);
    if i >= 0 {
        Ok(s.users[i])
    } else {
        Err(Error::NotFound)
    }
}

/// What deleting a user does to the store: the row matching the identifier
/// and all natural fields is removed; zero matching rows is `NotFound`.
pub open spec fn user_delete_transition(s: StoreView, u: UserView) -> (
    StoreView,
    Result<(), Error>,
) {
    let i = first_match_idx(
        s.users,
        |x: UserView| x.id == u.id && x.username == u.username && x.name == u.name,
    );
    if i >= 0 {
        (StoreView { users: s.users.remove(i), ..s }, Ok(()))
    } else {
        (s, Err(Error::NotFound))
    }
}

/// What updating a user does to the store: the row with the matching
/// identifier is overwritten, last writer wins; a row with no matching
/// identifier updates nothing and still succeeds; stealing another row's
/// username is `AlreadyExists`.
pub open spec fn user_update_transition(s: StoreView, u: UserView) -> (
    StoreView,
    Result<(), Error>,
) {
    let i = user_idx_by_id(s.users, u.id);
    if i < 0 {
        (s, Ok(()))
    } else if first_match_idx(s.users, |x: UserView| x.username == u.username && x.id != u.id)
        >= 0 {
        (s, Err(Error::AlreadyExists))
    } else {
        (StoreView { users: s.users.update(i, u), ..s }, Ok(()))
    }
}

/// What get-or-create by username does to the store: an existing row is
/// returned unchanged; otherwise the insert happens as in
/// [`user_insert_transition`], except that an exhausted identifier space
/// surfaces as `NotFound` from the re-read after the failed insert.
pub open spec fn user_resolve_transition(
    s: StoreView,
    username: Seq<char>,
    name: Seq<char>,
) -> (StoreView, Result<UserView, Error>) {
    let i = user_idx_by_username(s.users, username);
    if i >= 0 {
        (s, Ok(s.users[i]))
    } else if s.next_user_id == i64::MAX {
        (s, Err(Error::NotFound))
    } else {
        let u = UserView { id: s.next_user_id, username: username, name: name };
        (
            StoreView { users: s.users.push(u), next_user_id: s.next_user_id + 1, ..s },
            Ok(u),
        )
    }
}

/// Index of the first user whose username equals `username`, as an exec
/// search proved against [`user_idx_by_username`].
#[verifier::loop_isolation(false)]
fn find_user_by_username(users: &Vec<User>, username: &String) -> (r: Option<usize>)
    ensures
        ({
            let i = user_idx_by_username(users@.map_values(|u: User| u@), username@);
            match r {
                Some(k) => i == k as int && k < users@.len(),
                None => i == -1,
            }
        }),
{
    let ghost uv = users@.map_values(|u: User| u@);
    let ghost p = |u: UserView| u.username == username@;
    let mut k: usize = 0;
    while k < users.len()
        invariant
            0 <= k <= users@.len(),
            forall|j: int| 0 <= j < k ==> !p(#[trigger] uv[j]),
        decreases users@.len() - k,
    {
        if users[k].username == *username {
            proof {
                lemma_first_match_idx_at(uv, p, k as int);
            }
            return Some(k);
        }
        k += 1;
    }
    proof {
        lemma_first_match_idx_none(uv, p);
    }
    None
}

/// Index of the first user whose identifier equals `id`, as an exec search
/// proved against [`user_idx_by_id`].
#[verifier::loop_isolation(false)]
fn find_user_by_id(users: &Vec<User>, id: i64) -> (r: Option<usize>)
    ensures
        ({
            let i = user_idx_by_id(users@.map_values(|u: User| u@), id as int);
            match r {
                Some(k) => i == k as int && k < users@.len(),
                None => i == -1,
            }
        }),
{
    let ghost uv = users@.map_values(|u: User| u@);
    let ghost p = |u: UserView| u.id == id as int;
    let mut k: usize = 0;
    while k < users.len()
        invariant
            0 <= k <= users@.len(),
            forall|j: int| 0 <= j < k ==> !p(#[trigger] uv[j]),
        decreases users@.len() - k,
    {
        if users[k].id == id {
            proof {
                lemma_first_match_idx_at(uv, p, k as int);
            }
            return Some(k);
        }
        k += 1;
    }
    proof {
        lemma_first_match_idx_none(uv, p);
    }
    None
}

impl User {
    /// Build a user value from its parts.
    pub fn new(id: i64, username: String, name: String) -> (u: User)
        ensures
            u@ == (UserView { id: id as int, username: username@, name: name@ }),
    {
        User { id, username, name }
    }

    /// The store-assigned identifier.
    pub fn get_id(&self) -> (id: i64)
        ensures
            id as int == self@.id,
    {
        self.id
    }

    /// Replace the display name; takes effect in the store only on `update`.
    pub fn set_name(&mut self, name: String)
        ensures
            final(self)@ == (UserView { name: name@, ..old(self)@ }),
    {
        self.name = name;
    }

    /// Replace the username; takes effect in the store only on `update`.
    pub fn set_username(&mut self, username: String)
        ensures
            final(self)@ == (UserView { username: username@, ..old(self)@ }),
    {
        self.username = username;
    }

    /// Insert a user; a duplicate username is an error, per
    /// [`user_insert_transition`].
    pub fn insert(username: &str, name: &str, store: &mut Store) -> (r: Result<User, Error>)
        requires
            old(store)@.inv(),
        ensures
            final(store)@.inv(),
            ({
                let (s2, out) = user_insert_transition(old(store)@, username@, name@);
                &&& final(store)@ == s2
                &&& match (r, out) {
                    (Ok(u), Ok(uv)) => u@ == uv,
                    (Err(e1), Err(e2)) => e1 == e2,
                    _ => false,
                }
            }),
    {
        let username_owned = username.to_owned();
        match find_user_by_username(&store.users, &username_owned) {
            Some(_) => Err(Error::AlreadyExists),
            None => {
                if store.next_user_id == i64::MAX {
                    Err(Error::UnknownStore)
                } else {
                    let id = store.next_user_id;
                    let row = User { id, username: username_owned, name: name.to_owned() };
                    let result = User {
                        id,
                        username: row.username.clone(),
                        name: row.name.clone(),
                    };
                    proof {
                        lemma_first_match_idx(
                            old(store)@.users,
                            |u: UserView| u.username == username@,
                        );
                        lemma_map_values_push(store.users@, |u: User| u@, row);
                    }
                    store.users.push(row);
                    store.next_user_id = id + 1;
                    proof {
                        assert(store@ =~= user_insert_transition(
                            old(store)@,
                            username@,
                            name@,
                        ).0);
                    }
                    Ok(result)
                }
            },
        }
    }

    /// Retrieve the user with the given identifier, per
    /// [`user_retrieve_result`]; the store is not changed.
    pub fn retrieve(id: i64, store: &Store) -> (r: Result<User, Error>)
        requires
            store@.inv(),
        ensures
            ({
                let out = user_retrieve_result(store@, id as int);
                match (r, out) {
                    (Ok(u), Ok(uv)) => u@ == uv,
                    (Err(e1), Err(e2)) => e1 == e2,
                    _ => false,
                }
            }),
    {
        match find_user_by_id(&store.users, id) {
            Some(k) => {
                let row = &store.users[k];
                Ok(User { id: row.id, username: row.username.clone(), name: row.name.clone() })
            },
            None => Err(Error::NotFound),
        }
    }

    /// Look the user up by username, per [`user_get_result`]; the store is
    /// not changed.
    pub fn get(username: &str, store: &Store) -> (r: Result<User, Error>)
        requires
            store@.inv(),
        ensures
            ({
                let out = user_get_result(store@, username@);
                match (r, out) {
                    (Ok(u), Ok(uv)) => u@ == uv,
                    (Err(e1), Err(e2)) => e1 == e2,
                    _ => false,
                }
            }),
    {
        let username_owned = username.to_owned();
        match find_user_by_username(&store.users, &username_owned) {
            Some(k) => {
                let row = &store.users[k];
                Ok(User { id: row.id, username: row.username.clone(), name: row.name.clone() })
            },
            None => Err(Error::NotFound),
        }
    }

    /// Delete the user, matching the identifier and every natural field, per
    /// [`user_delete_transition`]. Consumes the value: it no longer denotes a
    /// stored row.
    #[verifier::loop_isolation(false)]
    pub fn delete(self, store: &mut Store) -> (r: Result<(), Error>)
        requires
            old(store)@.inv(),
        ensures
            final(store)@.inv(),
            ({
                let (s2, out) = user_delete_transition(old(store)@, self@);
                &&& final(store)@ == s2
                &&& r == out
            }),
    {
        let ghost uv = old(store)@.users;
        let ghost p = |x: UserView| x.id == self@.id && x.username == self@.username
            && x.name == self@.name;
        let mut k: usize = 0;
        let n = store.users.len();
        while k < n
            invariant
                0 <= k <= n,
                *store == *old(store),
                forall|j: int| 0 <= j < k ==> !p(#[trigger] uv[j]),
            decreases n - k,
        {
            if store.users[k].id == self.id && store.users[k].username == self.username
                && store.users[k].name == self.name {
                proof {
                    lemma_first_match_idx_at(uv, p, k as int);
                    lemma_map_values_remove(store.users@, |u: User| u@, k as int);
                    uv.remove_ensures(k as int);
                }
                store.users.remove(k);
                proof {
                    assert(store@ =~= user_delete_transition(old(store)@, self@).0);
                }
                return Ok(());
            }
            k += 1;
        }
        proof {
            lemma_first_match_idx_none(uv, p);
        }
        Err(Error::NotFound)
    }

    /// Write the user's current fields over the stored row with the same
    /// identifier, per [`user_update_transition`].
    #[verifier::loop_isolation(false)]
    pub fn update(&self, store: &mut Store) -> (r: Result<(), Error>)
        requires
            old(store)@.inv(),
        ensures
            final(store)@.inv(),
            ({
                let (s2, out) = user_update_transition(old(store)@, self@);
                &&& final(store)@ == s2
                &&& r == out
            }),
    {
        match find_user_by_id(&store.users, self.id) {
            None => Ok(()),
            Some(k) => {
                let ghost uv = old(store)@.users;
                let ghost pc = |x: UserView| x.username == self@.username && x.id != self@.id;
                let mut j: usize = 0;
                let n = store.users.len();
                while j < n
                    invariant
                        0 <= j <= n,
                        *store == *old(store),
                        forall|l: int| 0 <= l < j ==> !pc(#[trigger] uv[l]),
                    decreases n - j,
                {
                    if store.users[j].username == self.username && store.users[j].id != self.id {
                        proof {
                            lemma_first_match_idx_at(uv, pc, j as int);
                        }
                        return Err(Error::AlreadyExists);
                    }
                    j += 1;
                }
                let row = User {
                    id: self.id,
                    username: self.username.clone(),
                    name: self.name.clone(),
                };
                proof {
                    lemma_first_match_idx_none(uv, pc);
                    lemma_first_match_idx(uv, |u: UserView| u.id == self@.id);
                    lemma_map_values_update(store.users@, |u: User| u@, k as int, row);
                }
                store.users.set(k, row);
                proof {
                    assert(store@ =~= user_update_transition(old(store)@, self@).0);
                }
                Ok(())
            },
        }
    }

    /// Get-or-create by username, per [`user_resolve_transition`]: the
    /// identity-resolver pattern, reused by the user request handler.
    pub fn resolve_or_create(username: &str, name: &str, store: &mut Store) -> (r: Result<
        User,
        Error,
    >)
        requires
            old(store)@.inv(),
        ensures
            final(store)@.inv(),
            ({
                let (s2, out) = user_resolve_transition(old(store)@, username@, name@);
                &&& final(store)@ == s2
                &&& match (r, out) {
                    (Ok(u), Ok(uv)) => u@ == uv,
                    (Err(e1), Err(e2)) => e1 == e2,
                    _ => false,
                }
            }),
    {
        let username_owned = username.to_owned();
        match find_user_by_username(&store.users, &username_owned) {
            Some(k) => {
                let row = &store.users[k];
                Ok(User { id: row.id, username: row.username.clone(), name: row.name.clone() })
            },
            None => {
                if store.next_user_id == i64::MAX {
                    Err(Error::NotFound)
                } else {
                    let id = store.next_user_id;
                    let row = User { id, username: username_owned, name: name.to_owned() };
                    let result = User {
                        id,
                        username: row.username.clone(),
                        name: row.name.clone(),
                    };
                    proof {
                        lemma_first_match_idx(
                            old(store)@.users,
                            |u: UserView| u.username == username@,
                        );
                        lemma_map_values_push(store.users@, |u: User| u@, row);
                    }
                    store.users.push(row);
                    store.next_user_id = id + 1;
                    proof {
                        assert(store@ =~= user_resolve_transition(
                            old(store)@,
                            username@,
                            name@,
                        ).0);
                    }
                    Ok(result)
                }
            },
        }
    }
}

} // verus!
