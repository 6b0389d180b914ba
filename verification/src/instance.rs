//! Time-bounded instances of a task, matched by the natural key
//! `(task_id, start, end)`; insertion is idempotent on that key, mirroring
//! the task aggregate.

use vstd::prelude::*;

use crate::error::Error;
use crate::search::{
    filter_prefix, filtered, first_match_idx, lemma_first_match_idx, lemma_first_match_idx_at,
    lemma_first_match_idx_none,
};
use crate::store::{
    lemma_map_values_push, lemma_map_values_remove, lemma_map_values_update, Store, StoreView,
};
use vstd::pervasive::VecAdditionalExecFns;

verus! {

/// An instance row: a store-assigned identifier, the owning task, and the
/// start and end of the execution window, as seconds since the Unix epoch.
#[derive(Debug, Clone)]
pub struct Instance {
    pub id: i64,
    pub task_id: i64,
    pub start: i64,
    pub end: i64,
}

/// Mathematical view of an [`Instance`] row.
pub struct InstanceView {
    pub id: int,
    pub task_id: int,
    pub start: int,
    pub end: int,
}

impl View for Instance {
    type V = InstanceView;

    open spec fn view(&self) -> InstanceView {
        InstanceView {
            id: self.id as int,
            task_id: self.task_id as int,
            start: self.start as int,
            end: self.end as int,
        }
    }
}

/// Index of the first (and, under the store invariant, only) instance with
/// the given identifier, or `-1` if there is none.
pub open spec fn instance_idx_by_id(insts: Seq<InstanceView>, id: int) -> int {
    first_match_idx(insts, |c: InstanceView| c.id == id)
}

/// Index of the first (and, under the store invariant, only) instance with
/// the given `(task_id, start, end)` natural key, or `-1` if there is none.
pub open spec fn instance_idx_by_key(
    insts: Seq<InstanceView>,
    task_id: int,
    start: int,
    end: int,
) -> int {
    first_match_idx(
        insts,
        |c: InstanceView| c.task_id == task_id && c.start == start && c.end == end,
    )
}

/// All instances of the task, in insertion order.
pub open spec fn instances_of(s: StoreView, task_id: int) -> Seq<InstanceView> {
    filtered(s.instances, |c: InstanceView| c.task_id == task_id)
}

/// What retrieving an instance by identifier returns: the unique row with
/// that identifier, or `NotFound`.
pub open spec fn instance_retrieve_result(s: StoreView, id: int) -> Result<InstanceView, Error> {
    let i = instance_idx_by_id(s.instances, id);
    if i >= 0 {
        Ok(s.instances[i])
    } else {
        Err(Error::NotFound)
    }
}

/// What looking an instance up by natural key returns: the unique row with
/// that key, or `NotFound`.
pub open spec fn instance_find_result(
    s: StoreView,
    task_id: int,
    start: int,
    end: int,
) -> Result<InstanceView, Error> {
    let i = instance_idx_by_key(s.instances, task_id, start, end);
    if i >= 0 {
        Ok(s.instances[i])
    } else {
        Err(Error::NotFound)
    }
}

/// What inserting an instance does to the store: a duplicate natural key is
/// `AlreadyExists`, an exhausted identifier space is `UnknownStore`, and
/// otherwise the row is appended with the next identifier, which is
/// returned.
pub open spec fn instance_insert_transition(
    s: StoreView,
    task_id: int,
    start: int,
    end: int,
) -> (StoreView, Result<int, Error>) {
    if instance_idx_by_key(s.instances, task_id, start, end) >= 0 {
        (s, Err(Error::AlreadyExists))
    } else if s.next_instance_id == i64::MAX {
        (s, Err(Error::UnknownStore))
    } else {
        let c = InstanceView { id: s.next_instance_id, task_id: task_id, start: start, end: end };
        (
            StoreView {
                instances: s.instances.push(c),
                next_instance_id: s.next_instance_id + 1,
                ..s
            },
            Ok(s.next_instance_id),
        )
    }
}

/// What try-inserting an instance does to the store: an existing natural
/// key resolves to the stored identifier without an error; a missing key is
/// inserted; the one failure, an exhausted identifier space, surfaces as
/// `NotFound` from the re-read after the failed insert.
pub open spec fn instance_try_insert_transition(
    s: StoreView,
    task_id: int,
    start: int,
    end: int,
) -> (StoreView, Result<int, Error>) {
    let i = instance_idx_by_key(s.instances, task_id, start, end);
    if i >= 0 {
        (s, Ok(s.instances[i].id))
    } else if s.next_instance_id == i64::MAX {
        (s, Err(Error::NotFound))
    } else {
        let c = InstanceView { id: s.next_instance_id, task_id: task_id, start: start, end: end };
        (
            StoreView {
                instances: s.instances.push(c),
                next_instance_id: s.next_instance_id + 1,
                ..s
            },
            Ok(s.next_instance_id),
        )
    }
}

/// What try-inserting every instance from index `i` on does: each element in
/// turn is try-inserted and its identifier written back; the first failure
/// stops the sweep, leaving the earlier insertions committed. Returns the
/// resulting store, the overall outcome, and the written-back sequence.
pub open spec fn instance_try_insert_all_from(s: StoreView, cs: Seq<InstanceView>, i: int) -> (
    StoreView,
    Result<(), Error>,
    Seq<InstanceView>,
)
    decreases cs.len() - i,
{
    if i < 0 || i >= cs.len() {
        (s, Ok(()), cs)
    } else {
        let (s1, r1) = instance_try_insert_transition(s, cs[i].task_id, cs[i].start, cs[i].end);
        match r1 {
            Err(e) => (s1, Err(e), cs),
            Ok(id) => {
                let cs1 = cs.update(i, InstanceView { id: id, ..cs[i] });
                instance_try_insert_all_from(s1, cs1, i + 1)
            },
        }
    }
}

/// What deleting an instance does to the store: the row matching the
/// identifier and the full natural key is removed; zero matching rows is
/// `NotFound`.
pub open spec fn instance_delete_transition(s: StoreView, c: InstanceView) -> (
    StoreView,
    Result<(), Error>,
) {
    let i = first_match_idx(
        s.instances,
        |x: InstanceView| x.id == c.id && x.task_id == c.task_id && x.start == c.start && x.end
            == c.end,
    );
    if i >= 0 {
        (StoreView { instances: s.instances.remove(i), ..s }, Ok(()))
    } else {
        (s, Err(Error::NotFound))
    }
}

/// Index of the first instance with the given identifier, as an exec search
/// proved against [`instance_idx_by_id`].
#[verifier::loop_isolation(false)]
fn find_instance_by_id(insts: &Vec<Instance>, id: i64) -> (r: Option<usize>)
    ensures
        ({
            let i = instance_idx_by_id(insts@.map_values(|c: Instance| c@), id as int);
            match r {
                Some(k) => i == k as int && k < insts@.len(),
                None => i == -1,
            }
        }),
{
    let ghost cv = insts@.map_values(|c: Instance| c@);
    let ghost p = |c: InstanceView| c.id == id as int;
    let mut k: usize = 0;
    while k < insts.len()
        invariant
            0 <= k <= insts@.len(),
            forall|j: int| 0 <= j < k ==> !p(#[trigger] cv[j]),
        decreases insts@.len() - k,
    {
        if insts[k].id == id {
            proof {
                lemma_first_match_idx_at(cv, p, k as int);
            }
            return Some(k);
        }
        k += 1;
    }
    proof {
        lemma_first_match_idx_none(cv, p);
    }
    None
}

/// Index of the first instance with the given natural key, as an exec
/// search proved against [`instance_idx_by_key`].
#[verifier::loop_isolation(false)]
fn find_instance_by_key(insts: &Vec<Instance>, task_id: i64, start: i64, end: i64) -> (r: Option<
    usize,
>)
    ensures
        ({
            let i = instance_idx_by_key(
                insts@.map_values(|c: Instance| c@),
                task_id as int,
                start as int,
                end as int,
            );
            match r {
                Some(k) => i == k as int && k < insts@.len(),
                None => i == -1,
            }
        }),
{
    let ghost cv = insts@.map_values(|c: Instance| c@);
    let ghost p = |c: InstanceView| c.task_id == task_id as int && c.start == start as int
        && c.end == end as int;
    let mut k: usize = 0;
    while k < insts.len()
        invariant
            0 <= k <= insts@.len(),
            forall|j: int| 0 <= j < k ==> !p(#[trigger] cv[j]),
        decreases insts@.len() - k,
    {
        if insts[k].task_id == task_id && insts[k].start == start && insts[k].end == end {
            proof {
                lemma_first_match_idx_at(cv, p, k as int);
            }
            return Some(k);
        }
        k += 1;
    }
    proof {
        lemma_first_match_idx_none(cv, p);
    }
    None
}

impl Instance {
    /// Build an instance value from its parts.
    pub fn new(id: i64, task_id: i64, start: i64, end: i64) -> (inst: Instance)
        ensures
            inst@ == (InstanceView {
                id: id as int,
                task_id: task_id as int,
                start: start as int,
                end: end as int,
            }),
    {
        Instance { id, task_id, start, end }
    }

    /// Point the instance at another task; takes effect in the store only on
    /// insertion.
    pub fn set_task_id(&mut self, task_id: i64)
        ensures
            final(self)@ == (InstanceView { task_id: task_id as int, ..old(self)@ }),
    {
        self.task_id = task_id;
    }

    /// Retrieve the instance with the given identifier, per
    /// [`instance_retrieve_result`]; the store is not changed.
    pub fn retrieve(id: i64, store: &Store) -> (r: Result<Instance, Error>)
        requires
            store@.inv(),
        ensures
            ({
                let out = instance_retrieve_result(store@, id as int);
                match (r, out) {
                    (Ok(c), Ok(cv)) => c@ == cv,
                    (Err(e1), Err(e2)) => e1 == e2,
                    _ => false,
                }
            }),
    {
        match find_instance_by_id(&store.instances, id) {
            Some(k) => {
                let row = &store.instances[k];
                Ok(Instance { id: row.id, task_id: row.task_id, start: row.start, end: row.end })
            },
            None => Err(Error::NotFound),
        }
    }

    /// Look this instance up by its natural key and adopt the stored
    /// identifier, per [`instance_find_result`]; on `NotFound` the instance
    /// is unchanged.
    pub fn find(&mut self, store: &Store) -> (r: Result<(), Error>)
        requires
            store@.inv(),
        ensures
            final(self)@.task_id == old(self)@.task_id,
            final(self)@.start == old(self)@.start,
            final(self)@.end == old(self)@.end,
            ({
                let out = instance_find_result(
                    store@,
                    old(self)@.task_id,
                    old(self)@.start,
                    old(self)@.end,
                );
                match (r, out) {
                    (Ok(_), Ok(cv)) => final(self)@.id == cv.id,
                    (Err(e1), Err(e2)) => e1 == e2 && final(self)@ == old(self)@,
                    _ => false,
                }
            }),
    {
        match find_instance_by_key(&store.instances, self.task_id, self.start, self.end) {
            Some(k) => {
                self.id = store.instances[k].id;
                Ok(())
            },
            None => Err(Error::NotFound),
        }
    }

    /// Insert this instance unless its natural key already exists, and adopt
    /// the stored identifier either way, per
    /// [`instance_try_insert_transition`].
    pub fn try_insert(&mut self, store: &mut Store) -> (r: Result<(), Error>)
        requires
            old(store)@.inv(),
        ensures
            final(store)@.inv(),
            final(self)@.task_id == old(self)@.task_id,
            final(self)@.start == old(self)@.start,
            final(self)@.end == old(self)@.end,
            ({
                let (s2, out) = instance_try_insert_transition(
                    old(store)@,
                    old(self)@.task_id,
                    old(self)@.start,
                    old(self)@.end,
                );
                &&& final(store)@ == s2
                &&& match (r, out) {
                    (Ok(_), Ok(id)) => final(self)@.id == id,
                    (Err(e1), Err(e2)) => e1 == e2 && final(self)@ == old(self)@,
                    _ => false,
                }
            }),
    {
        match find_instance_by_key(&store.instances, self.task_id, self.start, self.end) {
            Some(k) => {
                self.id = store.instances[k].id;
                Ok(())
            },
            None => {
                if store.next_instance_id == i64::MAX {
                    Err(Error::NotFound)
                } else {
                    let id = store.next_instance_id;
                    let row = Instance {
                        id,
                        task_id: self.task_id,
                        start: self.start,
                        end: self.end,
                    };
                    proof {
                        lemma_first_match_idx(
                            old(store)@.instances,
                            |c: InstanceView| c.task_id == old(self)@.task_id && c.start
                                == old(self)@.start && c.end == old(self)@.end,
                        );
                        lemma_map_values_push(store.instances@, |c: Instance| c@, row);
                    }
                    store.instances.push(row);
                    store.next_instance_id = id + 1;
                    self.id = id;
                    proof {
                        assert(store@ =~= instance_try_insert_transition(
                            old(store)@,
                            old(self)@.task_id,
                            old(self)@.start,
                            old(self)@.end,
                        ).0);
                    }
                    Ok(())
                }
            },
        }
    }

    /// Insert a new instance of the task with the given window and return
    /// it, per [`instance_insert_transition`]: a duplicate natural key is an
    /// error.
    pub fn insert(task_id: i64, start: &i64, end: &i64, store: &mut Store) -> (r: Result<
        Instance,
        Error,
    >)
        requires
            old(store)@.inv(),
        ensures
            final(store)@.inv(),
            ({
                let (s2, out) = instance_insert_transition(
                    old(store)@,
                    task_id as int,
                    *start as int,
                    *end as int,
                );
                &&& final(store)@ == s2
                &&& match (r, out) {
                    (Ok(c), Ok(id)) => c@ == (InstanceView {
                        id: id,
                        task_id: task_id as int,
                        start: *start as int,
                        end: *end as int,
                    }),
                    (Err(e1), Err(e2)) => e1 == e2,
                    _ => false,
                }
            }),
    {
        match find_instance_by_key(&store.instances, task_id, *start, *end) {
            Some(_) => Err(Error::AlreadyExists),
            None => {
                if store.next_instance_id == i64::MAX {
                    Err(Error::UnknownStore)
                } else {
                    let id = store.next_instance_id;
                    let row = Instance { id, task_id, start: *start, end: *end };
                    proof {
                        lemma_first_match_idx(
                            old(store)@.instances,
                            |c: InstanceView| c.task_id == task_id as int && c.start
                                == *start as int && c.end == *end as int,
                        );
                        lemma_map_values_push(store.instances@, |c: Instance| c@, row);
                    }
                    store.instances.push(row);
                    store.next_instance_id = id + 1;
                    proof {
                        assert(store@ =~= instance_insert_transition(
                            old(store)@,
                            task_id as int,
                            *start as int,
                            *end as int,
                        ).0);
                    }
                    Ok(Instance { id, task_id, start: *start, end: *end })
                }
            },
        }
    }

    /// Try-insert every instance in order, writing the resolved identifiers
    /// back and returning the vector, per [`instance_try_insert_all_from`];
    /// the sweep is not atomic, so a failure leaves the earlier insertions
    /// committed and drops the vector.
    #[verifier::loop_isolation(false)]
    pub fn try_insert_all(instances: Vec<Instance>, store: &mut Store) -> (r: Result<
        Vec<Instance>,
        Error,
    >)
        requires
            old(store)@.inv(),
        ensures
            final(store)@.inv(),
            ({
                let (s2, out, cs2) = instance_try_insert_all_from(
                    old(store)@,
                    instances@.map_values(|c: Instance| c@),
                    0,
                );
                &&& final(store)@ == s2
                &&& match (r, out) {
                    (Ok(v), Ok(_)) => v@.map_values(|c: Instance| c@) == cs2,
                    (Err(e1), Err(e2)) => e1 == e2,
                    _ => false,
                }
            }),
    {
        let mut instances = instances;
        let ghost orig_s = old(store)@;
        let ghost orig_cs = instances@.map_values(|c: Instance| c@);
        let mut k: usize = 0;
        while k < instances.len()
            invariant
                0 <= k <= instances@.len(),
                store@.inv(),
                instance_try_insert_all_from(orig_s, orig_cs, 0) == instance_try_insert_all_from(
                    store@,
                    instances@.map_values(|c: Instance| c@),
                    k as int,
                ),
            decreases instances@.len() - k,
        {
            let mut c = Instance {
                id: instances[k].id,
                task_id: instances[k].task_id,
                start: instances[k].start,
                end: instances[k].end,
            };
            let ghost pre_s = store@;
            let ghost pre_cs = instances@.map_values(|c: Instance| c@);
            match c.try_insert(store) {
                Ok(_) => {
                    proof {
                        lemma_map_values_update(instances@, |x: Instance| x@, k as int, c);
                    }
                    instances.set(k, c);
                    proof {
                        assert(instances@.map_values(|x: Instance| x@) =~= pre_cs.update(
                            k as int,
                            InstanceView { id: c@.id, ..pre_cs[k as int] },
                        ));
                        assert(instance_try_insert_all_from(pre_s, pre_cs, k as int)
                            == instance_try_insert_all_from(
                            store@,
                            instances@.map_values(|x: Instance| x@),
                            k as int + 1,
                        ));
                    }
                    k += 1;
                },
                Err(e) => {
                    return Err(e);
                },
            }
        }
        Ok(instances)
    }

    /// Delete the instance, matching the identifier and the full natural
    /// key, per [`instance_delete_transition`]. Consumes the value: it no
    /// longer denotes a stored row.
    #[verifier::loop_isolation(false)]
    pub fn delete(self, store: &mut Store) -> (r: Result<(), Error>)
        requires
            old(store)@.inv(),
        ensures
            final(store)@.inv(),
            ({
                let (s2, out) = instance_delete_transition(old(store)@, self@);
                &&& final(store)@ == s2
                &&& r == out
            }),
    {
        let ghost cv = old(store)@.instances;
        let ghost p = |x: InstanceView| x.id == self@.id && x.task_id == self@.task_id && x.start
            == self@.start && x.end == self@.end;
        let mut k: usize = 0;
        let n = store.instances.len();
        while k < n
            invariant
                0 <= k <= n,
                *store == *old(store),
                forall|j: int| 0 <= j < k ==> !p(#[trigger] cv[j]),
            decreases n - k,
        {
            if store.instances[k].id == self.id && store.instances[k].task_id == self.task_id
                && store.instances[k].start == self.start && store.instances[k].end == self.end {
                proof {
                    lemma_first_match_idx_at(cv, p, k as int);
                    lemma_map_values_remove(store.instances@, |c: Instance| c@, k as int);
                    cv.remove_ensures(k as int);
                }
                store.instances.remove(k);
                proof {
                    assert(store@ =~= instance_delete_transition(old(store)@, self@).0);
                }
                return Ok(());
            }
            k += 1;
        }
        proof {
            lemma_first_match_idx_none(cv, p);
        }
        Err(Error::NotFound)
    }

    /// All instances of the task, in insertion order, per [`instances_of`];
    /// the store is not changed and the call always succeeds.
    #[verifier::loop_isolation(false)]
    pub fn get_instances(task_id: i64, store: &Store) -> (r: Result<Vec<Instance>, Error>)
        requires
            store@.inv(),
        ensures
            ({
                match r {
                    Ok(v) => v@.map_values(|c: Instance| c@) == instances_of(
                        store@,
                        task_id as int,
                    ),
                    Err(_) => false,
                }
            }),
    {
        let ghost cv = store@.instances;
        let ghost p = |c: InstanceView| c.task_id == task_id as int;
        let mut result: Vec<Instance> = Vec::new();
        let mut k: usize = 0;
        while k < store.instances.len()
            invariant
                0 <= k <= store.instances@.len(),
                result@.map_values(|c: Instance| c@) == filter_prefix(cv, p, k as int),
            decreases store.instances@.len() - k,
        {
            if store.instances[k].task_id == task_id {
                let row = Instance {
                    id: store.instances[k].id,
                    task_id: store.instances[k].task_id,
                    start: store.instances[k].start,
                    end: store.instances[k].end,
                };
                proof {
                    lemma_map_values_push(result@, |c: Instance| c@, row);
                }
                result.push(row);
            }
            k += 1;
        }
        Ok(result)
    }
}

} // verus!
