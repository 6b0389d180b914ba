//! The relational store: every aggregate operates on one [`Store`] value,
//! which plays the role of the backing database. Its mathematical view is a
//! [`StoreView`], and the store invariant states the uniqueness constraints
//! that the schema would enforce.

use vstd::prelude::*;

use crate::habit::{HabitEntry, HabitEntryView, HabitInstance, HabitInstanceView};
use crate::instance::{Instance, InstanceView};
use crate::task::{Task, TaskView};
use crate::user::{User, UserView};

verus! {

/// The whole relational state: one vector per table, plus the next
/// identifier each table will assign.
pub struct Store {
    pub users: Vec<User>,
    pub habits: Vec<HabitEntry>,
    pub habit_instances: Vec<HabitInstance>,
    pub tasks: Vec<Task>,
    pub instances: Vec<Instance>,
    pub next_user_id: i64,
    pub next_habit_id: i64,
    pub next_habit_instance_id: i64,
    pub next_task_id: i64,
    pub next_instance_id: i64,
}

/// Mathematical view of a [`Store`].
#[verifier::ext_equal]
pub struct StoreView {
    pub users: Seq<UserView>,
    pub habits: Seq<HabitEntryView>,
    pub habit_instances: Seq<HabitInstanceView>,
    pub tasks: Seq<TaskView>,
    pub instances: Seq<InstanceView>,
    pub next_user_id: int,
    pub next_habit_id: int,
    pub next_habit_instance_id: int,
    pub next_task_id: int,
    pub next_instance_id: int,
}

impl View for Store {
    type V = StoreView;

    open spec fn view(&self) -> StoreView {
        StoreView {
            users: self.users@.map_values(|u: User| u@),
            habits: self.habits@.map_values(|h: HabitEntry| h@),
            habit_instances: self.habit_instances@.map_values(|c: HabitInstance| c@),
            tasks: self.tasks@.map_values(|t: Task| t@),
            instances: self.instances@.map_values(|i: Instance| i@),
            next_user_id: self.next_user_id as int,
            next_habit_id: self.next_habit_id as int,
            next_habit_instance_id: self.next_habit_instance_id as int,
            next_task_id: self.next_task_id as int,
            next_instance_id: self.next_instance_id as int,
        }
    }
}

impl StoreView {
    /// The users table is consistent: identifiers and usernames are unique,
    /// and every identifier was assigned below the next one.
    pub open spec fn users_inv(self) -> bool {
        &&& forall|i: int, j: int|
            #![trigger self.users[i], self.users[j]]
            0 <= i < j < self.users.len() ==> self.users[i].id != self.users[j].id
                && self.users[i].username != self.users[j].username
        &&& forall|i: int|
            0 <= i < self.users.len() ==> 1 <= (#[trigger] self.users[i]).id < self.next_user_id
        &&& 1 <= self.next_user_id <= i64::MAX
    }

    /// The habits table is consistent: identifiers and names are unique, and
    /// every identifier was assigned below the next one.
    pub open spec fn habits_inv(self) -> bool {
        &&& forall|i: int, j: int|
            #![trigger self.habits[i], self.habits[j]]
            0 <= i < j < self.habits.len() ==> self.habits[i].id != self.habits[j].id
                && self.habits[i].name != self.habits[j].name
        &&& forall|i: int|
            0 <= i < self.habits.len() ==> 1 <= (#[trigger] self.habits[i]).id < self.next_habit_id
        &&& 1 <= self.next_habit_id <= i64::MAX
    }

    /// The habit completions table is consistent: identifiers are unique and
    /// were assigned below the next one, and every completion belongs to a
    /// habit that exists — deletions cascade only by explicit application
    /// logic, so the store states the referential link itself.
    pub open spec fn habit_instances_inv(self) -> bool {
        &&& forall|i: int, j: int|
            #![trigger self.habit_instances[i], self.habit_instances[j]]
            0 <= i < j < self.habit_instances.len()
                ==> self.habit_instances[i].id != self.habit_instances[j].id
        &&& forall|i: int|
            0 <= i < self.habit_instances.len() ==> 1 <= (#[trigger] self.habit_instances[i]).id
                < self.next_habit_instance_id
        &&& forall|i: int|
            0 <= i < self.habit_instances.len() ==> crate::habit::habit_id_exists(
                self.habits,
                (#[trigger] self.habit_instances[i]).habit_id,
            )
        &&& 1 <= self.next_habit_instance_id <= i64::MAX
    }

    /// The tasks table is consistent: identifiers and `(user_id, name)` pairs
    /// are unique, and every identifier was assigned below the next one.
    pub open spec fn tasks_inv(self) -> bool {
        &&& forall|i: int, j: int|
            #![trigger self.tasks[i], self.tasks[j]]
            0 <= i < j < self.tasks.len() ==> self.tasks[i].id != self.tasks[j].id && !(
            self.tasks[i].user_id == self.tasks[j].user_id && self.tasks[i].name
                == self.tasks[j].name)
        &&& forall|i: int|
            0 <= i < self.tasks.len() ==> 1 <= (#[trigger] self.tasks[i]).id < self.next_task_id
        &&& 1 <= self.next_task_id <= i64::MAX
    }

    /// The instances table is consistent: identifiers and
    /// `(task_id, start, end)` triples are unique, and every identifier was
    /// assigned below the next one.
    pub open spec fn instances_inv(self) -> bool {
        &&& forall|i: int, j: int|
            #![trigger self.instances[i], self.instances[j]]
            0 <= i < j < self.instances.len() ==> self.instances[i].id != self.instances[j].id
                && !(self.instances[i].task_id == self.instances[j].task_id
                && self.instances[i].start == self.instances[j].start && self.instances[i].end
                == self.instances[j].end)
        &&& forall|i: int|
            0 <= i < self.instances.len() ==> 1 <= (#[trigger] self.instances[i]).id
                < self.next_instance_id
        &&& 1 <= self.next_instance_id <= i64::MAX
    }

    /// The store invariant: every table is consistent. Constructors
    /// establish it and every operation preserves it.
    pub open spec fn inv(self) -> bool {
        &&& self.users_inv()
        &&& self.habits_inv()
        &&& self.habit_instances_inv()
        &&& self.tasks_inv()
        &&& self.instances_inv()
    }

    /// The view of a freshly created store: all tables empty, identifiers
    /// starting at one.
    pub open spec fn init() -> StoreView {
        StoreView {
            users: Seq::empty(),
            habits: Seq::empty(),
            habit_instances: Seq::empty(),
            tasks: Seq::empty(),
            instances: Seq::empty(),
            next_user_id: 1,
            next_habit_id: 1,
            next_habit_instance_id: 1,
            next_task_id: 1,
            next_instance_id: 1,
        }
    }
}

impl Store {
    /// Create an empty store, the analogue of connecting to a blank database
    /// with the schema freshly applied.
    pub fn new() -> (s: Store)
        ensures
            s@ == StoreView::init(),
            s@.inv(),
    {
        let s = Store {
            users: Vec::new(),
            habits: Vec::new(),
            habit_instances: Vec::new(),
            tasks: Vec::new(),
            instances: Vec::new(),
            next_user_id: 1,
            next_habit_id: 1,
            next_habit_instance_id: 1,
            next_task_id: 1,
            next_instance_id: 1,
        };
        proof {
            assert(s@ =~= StoreView::init());
        }
        s
    }
}

/// Mapping a view function over a sequence commutes with `push`.
pub proof fn lemma_map_values_push<A, B>(s: Seq<A>, f: spec_fn(A) -> B, x: A)
    ensures
        s.push(x).map_values(f) =~= s.map_values(f).push(f(x)),
{
}

/// Mapping a view function over a sequence commutes with `remove`.
pub proof fn lemma_map_values_remove<A, B>(s: Seq<A>, f: spec_fn(A) -> B, i: int)
    requires
        0 <= i < s.len(),
    ensures
        s.remove(i).map_values(f) =~= s.map_values(f).remove(i),
{
    s.remove_ensures(i);
    s.map_values(f).remove_ensures(i);
}

/// Mapping a view function over a sequence commutes with `update`.
pub proof fn lemma_map_values_update<A, B>(s: Seq<A>, f: spec_fn(A) -> B, i: int, x: A)
    requires
        0 <= i < s.len(),
    ensures
        s.update(i, x).map_values(f) =~= s.map_values(f).update(i, f(x)),
{
}

} // verus!
