//! The tagged task endpoint: retrieve every task of a user with its
//! instances, or insert a batch of tasks each with its instances.

use vstd::prelude::*;

use crate::error::Error;
use crate::instance::{
    instance_try_insert_all_from, instances_of, Instance, InstanceView,
};
use crate::search::lemma_first_match_idx;
use crate::store::{lemma_map_values_push, lemma_map_values_update, Store, StoreView};
use crate::task::{task_try_insert_transition, tasks_of, Task, TaskView};
use crate::user::{user_retrieve_result, User, UserView};
use vstd::pervasive::VecAdditionalExecFns;

verus! {

/// The actions a request can apply to tasks.
#[derive(Debug)]
pub enum Request {
    /// Retrieve all tasks of the user, each with its instances.
    RetrieveAll { user_id: i64 },
    /// Insert all of the tasks, each with its instances.
    InsertAll { tasks: Vec<(Task, Vec<Instance>)> },
}

/// The response matching each request.
#[derive(Debug)]
pub enum Response {
    /// The user's tasks, each with its instances.
    RetrieveAll { tasks: Vec<(Task, Vec<Instance>)> },
    /// The inserted tasks with their resolved identifiers.
    InsertAll { tasks: Vec<(Task, Vec<Instance>)> },
}

/// Mathematical view of one task with its instances.
pub open spec fn pair_view(p: (Task, Vec<Instance>)) -> (TaskView, Seq<InstanceView>) {
    (p.0@, p.1@.map_values(|c: Instance| c@))
}

/// Mathematical view of a sequence of tasks with their instances.
pub open spec fn pairs_view(v: Seq<(Task, Vec<Instance>)>) -> Seq<(TaskView, Seq<InstanceView>)> {
    v.map_values(|p: (Task, Vec<Instance>)| pair_view(p))
}

/// What retrieving a user's tasks returns: a missing user is `NotFound`;
/// otherwise every task of the user in insertion order, each paired with
/// its instances in insertion order.
pub open spec fn retrieve_all_result(s: StoreView, user_id: int) -> Result<
    Seq<(TaskView, Seq<InstanceView>)>,
    Error,
> {
    match user_retrieve_result(s, user_id) {
        Err(e) => Err(e),
        Ok(_) => Ok(
            tasks_of(s, user_id).map_values(|t: TaskView| (t, instances_of(s, t.id))),
        ),
    }
}

/// What inserting a batch of tasks from index `i` on does: each task is
/// try-inserted, its instances are pointed at the resolved task identifier
/// and try-inserted in turn, and the resolved rows are written back; the
/// first failure stops the sweep, leaving the earlier insertions committed.
pub open spec fn insert_all_from(
    s: StoreView,
    ps: Seq<(TaskView, Seq<InstanceView>)>,
    i: int,
) -> (StoreView, Result<(), Error>, Seq<(TaskView, Seq<InstanceView>)>)
    decreases ps.len() - i,
{
    if i < 0 || i >= ps.len() {
        (s, Ok(()), ps)
    } else {
        let (s1, r1) = task_try_insert_transition(s, ps[i].0.user_id, ps[i].0.name);
        match r1 {
            Err(e) => (s1, Err(e), ps),
            Ok(tid) => {
                let pointed = ps[i].1.map_values(
                    |c: InstanceView| InstanceView { task_id: tid, ..c },
                );
                let (s2, r2, cs2) = instance_try_insert_all_from(s1, pointed, 0);
                match r2 {
                    Err(e) => (s2, Err(e), ps),
                    Ok(_) => {
                        let ps1 = ps.update(i, (TaskView { id: tid, ..ps[i].0 }, cs2));
                        insert_all_from(s2, ps1, i + 1)
                    },
                }
            },
        }
    }
}

/// Retrieve every task of the user with its instances, per
/// [`retrieve_all_result`]; the store is not changed.
#[verifier::loop_isolation(false)]
pub fn retrieve_all(user_id: i64, store: &Store) -> (r: Result<Response, Error>)
    requires
        store@.inv(),
    ensures
        ({
            match (r, retrieve_all_result(store@, user_id as int)) {
                (Ok(Response::RetrieveAll { tasks }), Ok(ps)) => pairs_view(tasks@) == ps,
                (Err(e1), Err(e2)) => e1 == e2,
                _ => false,
            }
        }),
{
    let user = match User::retrieve(user_id, store) {
        Ok(user) => user,
        Err(e) => {
            return Err(e);
        },
    };
    proof {
        lemma_first_match_idx(store@.users, |u: UserView| u.id == user_id as int);
    }
    let tasks = match Task::get_tasks(&user, store) {
        Ok(tasks) => tasks,
        Err(e) => {
            return Err(e);
        },
    };
    let ghost target = tasks_of(store@, user_id as int).map_values(
        |t: TaskView| (t, instances_of(store@, t.id)),
    );
    let mut result: Vec<(Task, Vec<Instance>)> = Vec::new();
    let mut k: usize = 0;
    while k < tasks.len()
        invariant
            0 <= k <= tasks@.len(),
            pairs_view(result@) =~= target.subrange(0, k as int),
        decreases tasks@.len() - k,
    {
        let t = Task {
            id: tasks[k].id,
            user_id: tasks[k].user_id,
            name: tasks[k].name.clone(),
        };
        let insts = match Instance::get_instances(t.get_id(), store) {
            Ok(insts) => insts,
            Err(e) => {
                return Err(e);
            },
        };
        proof {
            lemma_map_values_push(result@, |p: (Task, Vec<Instance>)| pair_view(p), (t, insts));
        }
        result.push((t, insts));
        proof {
            assert(pairs_view(result@) =~= target.subrange(0, k as int + 1));
        }
        k += 1;
    }
    proof {
        assert(pairs_view(result@) =~= target);
    }
    Ok(Response::RetrieveAll { tasks: result })
}

/// Insert every task in the batch with its instances, writing the resolved
/// identifiers back, per [`insert_all_from`]; the sweep is not atomic, so a
/// failure leaves the earlier insertions committed.
#[verifier::loop_isolation(false)]
pub fn insert_all(tasks: Vec<(Task, Vec<Instance>)>, store: &mut Store) -> (r: Result<
    Response,
    Error,
>)
    requires
        old(store)@.inv(),
    ensures
        final(store)@.inv(),
        ({
            let (s2, out, ps2) = insert_all_from(old(store)@, pairs_view(tasks@), 0);
            &&& final(store)@ == s2
            &&& match (r, out) {
                (Ok(Response::InsertAll { tasks: v }), Ok(_)) => pairs_view(v@) == ps2,
                (Err(e1), Err(e2)) => e1 == e2,
                _ => false,
            }
        }),
{
    let mut pairs = tasks;
    let ghost orig_s = old(store)@;
    let ghost orig_ps = pairs_view(pairs@);
    let mut k: usize = 0;
    while k < pairs.len()
        invariant
            0 <= k <= pairs@.len(),
            store@.inv(),
            insert_all_from(orig_s, orig_ps, 0) == insert_all_from(
                store@,
                pairs_view(pairs@),
                k as int,
            ),
        decreases pairs@.len() - k,
    {
        let ghost pre_s = store@;
        let ghost pre_ps = pairs_view(pairs@);
        let mut t = Task {
            id: pairs[k].0.id,
            user_id: pairs[k].0.user_id,
            name: pairs[k].0.name.clone(),
        };
        match t.try_insert(store) {
            Ok(_) => {},
            Err(e) => {
                return Err(e);
            },
        }
        let tid = t.get_id();
        let ghost mid_s = store@;
        let ghost pointed = pre_ps[k as int].1.map_values(
            |c: InstanceView| InstanceView { task_id: tid as int, ..c },
        );
        let mut insts: Vec<Instance> = Vec::new();
        let mut j: usize = 0;
        while j < pairs[k].1.len()
            invariant
                0 <= j <= pairs@[k as int].1@.len(),
                k < pairs@.len(),
                insts@.map_values(|c: Instance| c@) =~= pointed.subrange(0, j as int),
            decreases pairs@[k as int].1@.len() - j,
        {
            let src = &pairs[k].1;
            let row = Instance {
                id: src[j].id,
                task_id: tid,
                start: src[j].start,
                end: src[j].end,
            };
            proof {
                lemma_map_values_push(insts@, |c: Instance| c@, row);
                assert(pointed[j as int] == row@);
                assert(pointed.subrange(0, j as int + 1) =~= pointed.subrange(
                    0,
                    j as int,
                ).push(pointed[j as int]));
            }
            insts.push(row);
            j += 1;
        }
        proof {
            assert(insts@.map_values(|c: Instance| c@) =~= pointed);
        }
        match Instance::try_insert_all(insts, store) {
            Ok(v) => {
                proof {
                    lemma_map_values_update(
                        pairs@,
                        |p: (Task, Vec<Instance>)| pair_view(p),
                        k as int,
                        (t, v),
                    );
                }
                pairs.set(k, (t, v));
                proof {
                    let spec_tid = task_try_insert_transition(
                        pre_s,
                        pre_ps[k as int].0.user_id,
                        pre_ps[k as int].0.name,
                    ).1->Ok_0;
                    let spec_pointed = pre_ps[k as int].1.map_values(
                        |c: InstanceView| InstanceView { task_id: spec_tid, ..c },
                    );
                    assert(pointed =~= spec_pointed);
                    let (s2, r2, cs2) = instance_try_insert_all_from(mid_s, spec_pointed, 0);
                    assert(pairs_view(pairs@) =~= pre_ps.update(
                        k as int,
                        (TaskView { id: tid as int, ..pre_ps[k as int].0 }, cs2),
                    ));
                    assert(insert_all_from(pre_s, pre_ps, k as int) == insert_all_from(
                        store@,
                        pairs_view(pairs@),
                        k as int + 1,
                    ));
                }
                k += 1;
            },
            Err(e) => {
                return Err(e);
            },
        }
    }
    Ok(Response::InsertAll { tasks: pairs })
}

/// Handle a tagged task request by dispatching to [`retrieve_all`] or
/// [`insert_all`].
pub fn task(request: Request, store: &mut Store) -> (r: Result<Response, Error>)
    requires
        old(store)@.inv(),
    ensures
        final(store)@.inv(),
        ({
            match request {
                Request::RetrieveAll { user_id } => {
                    &&& final(store)@ == old(store)@
                    &&& match (r, retrieve_all_result(old(store)@, user_id as int)) {
                        (Ok(Response::RetrieveAll { tasks }), Ok(ps)) => pairs_view(tasks@) == ps,
                        (Err(e1), Err(e2)) => e1 == e2,
                        _ => false,
                    }
                },
                Request::InsertAll { tasks } => {
                    let (s2, out, ps2) = insert_all_from(old(store)@, pairs_view(tasks@), 0);
                    &&& final(store)@ == s2
                    &&& match (r, out) {
                        (Ok(Response::InsertAll { tasks: v }), Ok(_)) => pairs_view(v@) == ps2,
                        (Err(e1), Err(e2)) => e1 == e2,
                        _ => false,
                    }
                },
            }
        }),
{
    match request {
        Request::RetrieveAll { user_id } => retrieve_all(user_id, store),
        Request::InsertAll { tasks } => insert_all(tasks, store),
    }
}

} // verus!
