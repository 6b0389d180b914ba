//! The task aggregate: a named task owned by a user, unique per
//! `(user_id, name)`, with idempotent insertion: inserting an existing
//! natural key resolves to the stored row instead of failing.

use vstd::prelude::*;

use crate::error::Error;
use crate::search::{
    filter_prefix, filtered, first_match_idx, lemma_first_match_idx, lemma_first_match_idx_at,
    lemma_first_match_idx_none,
};
use crate::store::{lemma_map_values_push, lemma_map_values_remove, lemma_map_values_update};
use crate::store::{Store, StoreView};
use crate::user::User;
use vstd::pervasive::VecAdditionalExecFns;

verus! {

/// A task row: a store-assigned identifier, the owning user, and a name.
#[derive(Debug, Clone)]
pub struct Task {
    pub id: i64,
    pub user_id: i64,
    pub name: String,
}

/// Mathematical view of a [`Task`] row.
pub struct TaskView {
    pub id: int,
    pub user_id: int,
    pub name: Seq<char>,
}

impl View for Task {
    type V = TaskView;

    open spec fn view(&self) -> TaskView {
        TaskView { id: self.id as int, user_id: self.user_id as int, name: self.name@ }
    }
}

/// Index of the first (and, under the store invariant, only) task with the
/// given identifier, or `-1` if there is none.
pub open spec fn task_idx_by_id(tasks: Seq<TaskView>, id: int) -> int {
    first_match_idx(tasks, |t: TaskView| t.id == id)
}

/// Index of the first (and, under the store invariant, only) task with the
/// given `(user_id, name)` natural key, or `-1` if there is none.
pub open spec fn task_idx_by_key(tasks: Seq<TaskView>, user_id: int, name: Seq<char>) -> int {
    first_match_idx(tasks, |t: TaskView| t.user_id == user_id && t.name == name)
}

/// All tasks owned by the user, in insertion order.
pub open spec fn tasks_of(s: StoreView, user_id: int) -> Seq<TaskView> {
    filtered(s.tasks, |t: TaskView| t.user_id == user_id)
}

/// What retrieving a task by identifier returns: the unique row with that
/// identifier, or `NotFound`.
pub open spec fn task_retrieve_result(s: StoreView, id: int) -> Result<TaskView, Error> {
    let i = task_idx_by_id(s.tasks, id);
    if i >= 0 {
        Ok(s.tasks[i])
    } else {
        Err(Error::NotFound)
    }
}

/// What looking a task up by natural key returns: the unique row with that
/// key, or `NotFound`.
pub open spec fn task_find_result(s: StoreView, user_id: int, name: Seq<char>) -> Result<
    TaskView,
    Error,
> {
    let i = task_idx_by_key(s.tasks, user_id, name);
    if i >= 0 {
        Ok(s.tasks[i])
    } else {
        Err(Error::NotFound)
    }
}

/// What inserting a task does to the store: a duplicate natural key is
/// `AlreadyExists`, an exhausted identifier space is `UnknownStore`, and
/// otherwise the row is appended with the next identifier, which is
/// returned.
pub open spec fn task_insert_transition(s: StoreView, user_id: int, name: Seq<char>) -> (
    StoreView,
    Result<int, Error>,
) {
    if task_idx_by_key(s.tasks, user_id, name) >= 0 {
        (s, Err(Error::AlreadyExists))
    } else if s.next_task_id == i64::MAX {
        (s, Err(Error::UnknownStore))
    } else {
        let t = TaskView { id: s.next_task_id, user_id: user_id, name: name };
        (
            StoreView { tasks: s.tasks.push(t), next_task_id: s.next_task_id + 1, ..s },
            Ok(s.next_task_id),
        )
    }
}

/// What try-inserting a task does to the store: an existing natural key
/// resolves to the stored identifier without an error; a missing key is
/// inserted; the one failure, an exhausted identifier space, surfaces as
/// `NotFound` from the re-read after the failed insert.
pub open spec fn task_try_insert_transition(s: StoreView, user_id: int, name: Seq<char>) -> (
    StoreView,
    Result<int, Error>,
) {
    let i = task_idx_by_key(s.tasks, user_id, name);
    if i >= 0 {
        (s, Ok(s.tasks[i].id))
    } else if s.next_task_id == i64::MAX {
        (s, Err(Error::NotFound))
    } else {
        let t = TaskView { id: s.next_task_id, user_id: user_id, name: name };
        (
            StoreView { tasks: s.tasks.push(t), next_task_id: s.next_task_id + 1, ..s },
            Ok(s.next_task_id),
        )
    }
}

/// What try-inserting every task from index `i` on does: each element in
/// turn is try-inserted and its identifier written back; the first failure
/// stops the sweep, leaving the earlier insertions committed. Returns the
/// resulting store, the overall outcome, and the written-back sequence.
pub open spec fn task_try_insert_all_from(s: StoreView, ts: Seq<TaskView>, i: int) -> (
    StoreView,
    Result<(), Error>,
    Seq<TaskView>,
)
    decreases ts.len() - i,
{
    if i < 0 || i >= ts.len() {
        (s, Ok(()), ts)
    } else {
        let (s1, r1) = task_try_insert_transition(s, ts[i].user_id, ts[i].name);
        match r1 {
            Err(e) => (s1, Err(e), ts),
            Ok(id) => {
                let ts1 = ts.update(i, TaskView { id: id, ..ts[i] });
                task_try_insert_all_from(s1, ts1, i + 1)
            },
        }
    }
}

/// What deleting a task does to the store: the row matching the identifier
/// and the full natural key is removed; zero matching rows is `NotFound`.
pub open spec fn task_delete_transition(s: StoreView, t: TaskView) -> (
    StoreView,
    Result<(), Error>,
) {
    let i = first_match_idx(
        s.tasks,
        |x: TaskView| x.id == t.id && x.user_id == t.user_id && x.name == t.name,
    );
    if i >= 0 {
        (StoreView { tasks: s.tasks.remove(i), ..s }, Ok(()))
    } else {
        (s, Err(Error::NotFound))
    }
}

/// Index of the first task with the given identifier, as an exec search
/// proved against [`task_idx_by_id`].
#[verifier::loop_isolation(false)]
fn find_task_by_id(tasks: &Vec<Task>, id: i64) -> (r: Option<usize>)
    ensures
        ({
            let i = task_idx_by_id(tasks@.map_values(|t: Task| t@), id as int);
            match r {
                Some(k) => i == k as int && k < tasks@.len(),
                None => i == -1,
            }
        }),
{
    let ghost tv = tasks@.map_values(|t: Task| t@);
    let ghost p = |t: TaskView| t.id == id as int;
    let mut k: usize = 0;
    while k < tasks.len()
        invariant
            0 <= k <= tasks@.len(),
            forall|j: int| 0 <= j < k ==> !p(#[trigger] tv[j]),
        decreases tasks@.len() - k,
    {
        if tasks[k].id == id {
            proof {
                lemma_first_match_idx_at(tv, p, k as int);
            }
            return Some(k);
        }
        k += 1;
    }
    proof {
        lemma_first_match_idx_none(tv, p);
    }
    None
}

/// Index of the first task with the given natural key, as an exec search
/// proved against [`task_idx_by_key`].
#[verifier::loop_isolation(false)]
fn find_task_by_key(tasks: &Vec<Task>, user_id: i64, name: &String) -> (r: Option<usize>)
    ensures
        ({
            let i = task_idx_by_key(tasks@.map_values(|t: Task| t@), user_id as int, name@);
            match r {
                Some(k) => i == k as int && k < tasks@.len(),
                None => i == -1,
            }
        }),
{
    let ghost tv = tasks@.map_values(|t: Task| t@);
    let ghost p = |t: TaskView| t.user_id == user_id as int && t.name == name@;
    let mut k: usize = 0;
    while k < tasks.len()
        invariant
            0 <= k <= tasks@.len(),
            forall|j: int| 0 <= j < k ==> !p(#[trigger] tv[j]),
        decreases tasks@.len() - k,
    {
        if tasks[k].user_id == user_id && tasks[k].name == *name {
            proof {
                lemma_first_match_idx_at(tv, p, k as int);
            }
            return Some(k);
        }
        k += 1;
    }
    proof {
        lemma_first_match_idx_none(tv, p);
    }
    None
}

impl Task {
    /// Build a task value from its parts.
    pub fn new(id: i64, user_id: i64, name: String) -> (t: Task)
        ensures
            t@ == (TaskView { id: id as int, user_id: user_id as int, name: name@ }),
    {
        Task { id, user_id, name }
    }

    /// The store-assigned identifier.
    pub fn get_id(&self) -> (id: i64)
        ensures
            id as int == self@.id,
    {
        self.id
    }

    /// Retrieve the task with the given identifier, per
    /// [`task_retrieve_result`]; the store is not changed.
    pub fn retrieve(id: i64, store: &Store) -> (r: Result<Task, Error>)
        requires
            store@.inv(),
        ensures
            ({
                let out = task_retrieve_result(store@, id as int);
                match (r, out) {
                    (Ok(t), Ok(tv)) => t@ == tv,
                    (Err(e1), Err(e2)) => e1 == e2,
                    _ => false,
                }
            }),
    {
        match find_task_by_id(&store.tasks, id) {
            Some(k) => {
                let row = &store.tasks[k];
                Ok(Task { id: row.id, user_id: row.user_id, name: row.name.clone() })
            },
            None => Err(Error::NotFound),
        }
    }

    /// Look the row up by its natural key and adopt the stored identifier,
    /// per [`task_find_result`]; on `NotFound` the task is unchanged.
    pub fn find(&mut self, store: &Store) -> (r: Result<(), Error>)
        requires
            store@.inv(),
        ensures
            final(self)@.user_id == old(self)@.user_id,
            final(self)@.name == old(self)@.name,
            ({
                let out = task_find_result(store@, old(self)@.user_id, old(self)@.name);
                match (r, out) {
                    (Ok(_), Ok(tv)) => final(self)@.id == tv.id,
                    (Err(e1), Err(e2)) => e1 == e2 && final(self)@ == old(self)@,
                    _ => false,
                }
            }),
    {
        match find_task_by_key(&store.tasks, self.user_id, &self.name) {
            Some(k) => {
                self.id = store.tasks[k].id;
                Ok(())
            },
            None => Err(Error::NotFound),
        }
    }

    /// Insert the row and adopt the fresh identifier, per
    /// [`task_insert_transition`]: a duplicate natural key is an error.
    pub fn insert(&mut self, store: &mut Store) -> (r: Result<(), Error>)
        requires
            old(store)@.inv(),
        ensures
            final(store)@.inv(),
            final(self)@.user_id == old(self)@.user_id,
            final(self)@.name == old(self)@.name,
            ({
                let (s2, out) = task_insert_transition(
                    old(store)@,
                    old(self)@.user_id,
                    old(self)@.name,
                );
                &&& final(store)@ == s2
                &&& match (r, out) {
                    (Ok(_), Ok(id)) => final(self)@.id == id,
                    (Err(e1), Err(e2)) => e1 == e2 && final(self)@ == old(self)@,
                    _ => false,
                }
            }),
    {
        match find_task_by_key(&store.tasks, self.user_id, &self.name) {
            Some(_) => Err(Error::AlreadyExists),
            None => {
                if store.next_task_id == i64::MAX {
                    Err(Error::UnknownStore)
                } else {
                    let id = store.next_task_id;
                    let row = Task { id, user_id: self.user_id, name: self.name.clone() };
                    proof {
                        lemma_first_match_idx(
                            old(store)@.tasks,
                            |t: TaskView| t.user_id == old(self)@.user_id && t.name
                                == old(self)@.name,
                        );
                        lemma_map_values_push(store.tasks@, |t: Task| t@, row);
                    }
                    store.tasks.push(row);
                    store.next_task_id = id + 1;
                    self.id = id;
                    proof {
                        assert(store@ =~= task_insert_transition(
                            old(store)@,
                            old(self)@.user_id,
                            old(self)@.name,
                        ).0);
                    }
                    Ok(())
                }
            },
        }
    }

    /// Insert the row unless its natural key already exists, and adopt the
    /// stored identifier either way, per [`task_try_insert_transition`].
    pub fn try_insert(&mut self, store: &mut Store) -> (r: Result<(), Error>)
        requires
            old(store)@.inv(),
        ensures
            final(store)@.inv(),
            final(self)@.user_id == old(self)@.user_id,
            final(self)@.name == old(self)@.name,
            ({
                let (s2, out) = task_try_insert_transition(
                    old(store)@,
                    old(self)@.user_id,
                    old(self)@.name,
                );
                &&& final(store)@ == s2
                &&& match (r, out) {
                    (Ok(_), Ok(id)) => final(self)@.id == id,
                    (Err(e1), Err(e2)) => e1 == e2 && final(self)@ == old(self)@,
                    _ => false,
                }
            }),
    {
        match find_task_by_key(&store.tasks, self.user_id, &self.name) {
            Some(k) => {
                self.id = store.tasks[k].id;
                Ok(())
            },
            None => {
                if store.next_task_id == i64::MAX {
                    Err(Error::NotFound)
                } else {
                    let id = store.next_task_id;
                    let row = Task { id, user_id: self.user_id, name: self.name.clone() };
                    proof {
                        lemma_first_match_idx(
                            old(store)@.tasks,
                            |t: TaskView| t.user_id == old(self)@.user_id && t.name
                                == old(self)@.name,
                        );
                        lemma_map_values_push(store.tasks@, |t: Task| t@, row);
                    }
                    store.tasks.push(row);
                    store.next_task_id = id + 1;
                    self.id = id;
                    proof {
                        assert(store@ =~= task_try_insert_transition(
                            old(store)@,
                            old(self)@.user_id,
                            old(self)@.name,
                        ).0);
                    }
                    Ok(())
                }
            },
        }
    }

    /// Try-insert every task in the vector in order, writing the resolved
    /// identifiers back, per [`task_try_insert_all_from`]; the sweep is not
    /// atomic, so a failure leaves the earlier insertions committed.
    #[verifier::loop_isolation(false)]
    pub fn try_insert_all(tasks: &mut Vec<Task>, store: &mut Store) -> (r: Result<(), Error>)
        requires
            old(store)@.inv(),
        ensures
            final(store)@.inv(),
            ({
                let (s2, out, ts2) = task_try_insert_all_from(
                    old(store)@,
                    old(tasks)@.map_values(|t: Task| t@),
                    0,
                );
                &&& final(store)@ == s2
                &&& r == out
                &&& final(tasks)@.map_values(|t: Task| t@) == ts2
            }),
    {
        let ghost orig_s = old(store)@;
        let ghost orig_ts = old(tasks)@.map_values(|t: Task| t@);
        let mut k: usize = 0;
        while k < tasks.len()
            invariant
                0 <= k <= tasks@.len(),
                store@.inv(),
                task_try_insert_all_from(orig_s, orig_ts, 0) == task_try_insert_all_from(
                    store@,
                    tasks@.map_values(|t: Task| t@),
                    k as int,
                ),
            decreases tasks@.len() - k,
        {
            let mut t = Task {
                id: tasks[k].id,
                user_id: tasks[k].user_id,
                name: tasks[k].name.clone(),
            };
            let ghost pre_s = store@;
            let ghost pre_ts = tasks@.map_values(|t: Task| t@);
            match t.try_insert(store) {
                Ok(_) => {
                    proof {
                        lemma_map_values_update(tasks@, |x: Task| x@, k as int, t);
                    }
                    tasks.set(k, t);
                    proof {
                        assert(tasks@.map_values(|x: Task| x@) =~= pre_ts.update(
                            k as int,
                            TaskView { id: t@.id, ..pre_ts[k as int] },
                        ));
                        assert(task_try_insert_all_from(pre_s, pre_ts, k as int)
                            == task_try_insert_all_from(
                            store@,
                            tasks@.map_values(|x: Task| x@),
                            k as int + 1,
                        ));
                    }
                    k += 1;
                },
                Err(e) => {
                    return Err(e);
                },
            }
        }
        Ok(())
    }

    /// Delete the task, matching the identifier and the full natural key,
    /// per [`task_delete_transition`]. Consumes the value: it no longer
    /// denotes a stored row.
    #[verifier::loop_isolation(false)]
    pub fn delete(self, store: &mut Store) -> (r: Result<(), Error>)
        requires
            old(store)@.inv(),
        ensures
            final(store)@.inv(),
            ({
                let (s2, out) = task_delete_transition(old(store)@, self@);
                &&& final(store)@ == s2
                &&& r == out
            }),
    {
        let ghost tv = old(store)@.tasks;
        let ghost p = |x: TaskView| x.id == self@.id && x.user_id == self@.user_id && x.name
            == self@.name;
        let mut k: usize = 0;
        let n = store.tasks.len();
        while k < n
            invariant
                0 <= k <= n,
                *store == *old(store),
                forall|j: int| 0 <= j < k ==> !p(#[trigger] tv[j]),
            decreases n - k,
        {
            if store.tasks[k].id == self.id && store.tasks[k].user_id == self.user_id
                && store.tasks[k].name == self.name {
                proof {
                    lemma_first_match_idx_at(tv, p, k as int);
                    lemma_map_values_remove(store.tasks@, |t: Task| t@, k as int);
                    tv.remove_ensures(k as int);
                }
                store.tasks.remove(k);
                proof {
                    assert(store@ =~= task_delete_transition(old(store)@, self@).0);
                }
                return Ok(());
            }
            k += 1;
        }
        proof {
            lemma_first_match_idx_none(tv, p);
        }
        Err(Error::NotFound)
    }

    /// All tasks owned by the user, in insertion order, per [`tasks_of`];
    /// the store is not changed and the call always succeeds.
    #[verifier::loop_isolation(false)]
    pub fn get_tasks(user: &User, store: &Store) -> (r: Result<Vec<Task>, Error>)
        requires
            store@.inv(),
        ensures
            ({
                match r {
                    Ok(v) => v@.map_values(|t: Task| t@) == tasks_of(store@, user@.id),
                    Err(_) => false,
                }
            }),
    {
        let user_id = user.get_id();
        let ghost tv = store@.tasks;
        let ghost p = |t: TaskView| t.user_id == user@.id;
        let mut result: Vec<Task> = Vec::new();
        let mut k: usize = 0;
        while k < store.tasks.len()
            invariant
                0 <= k <= store.tasks@.len(),
                result@.map_values(|t: Task| t@) == filter_prefix(tv, p, k as int),
            decreases store.tasks@.len() - k,
        {
            if store.tasks[k].user_id == user_id {
                let row = Task {
                    id: store.tasks[k].id,
                    user_id: store.tasks[k].user_id,
                    name: store.tasks[k].name.clone(),
                };
                proof {
                    lemma_map_values_push(result@, |t: Task| t@, row);
                }
                result.push(row);
            }
            k += 1;
        }
        Ok(result)
    }
}

} // verus!
