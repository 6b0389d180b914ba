//! The library's laws: properties that relate several operations, each
//! stated over the transition functions of the store and proved for every
//! store satisfying the invariant.

use vstd::prelude::*;

use crate::error::Error;
use crate::habit::{
    habit_id_exists, habit_id_of, habit_idx, habit_resolve_transition, habit_set_today,
    lemma_first_match_habits, lemma_latest_props, lemma_latest_push, latest_completion_idx,
    mark_transition, never_marked, same_calendar_day, unmark_transition, HabitEntryView,
    HabitInstanceView,
};
use crate::search::{first_match_idx, lemma_first_match_idx, lemma_first_match_idx_at};
use crate::store::StoreView;
use crate::task::{task_try_insert_transition, TaskView};
use crate::user::{
    user_idx_by_username, user_insert_transition, user_resolve_transition, UserView,
};

verus! {

/// Among the habit's completions, only the most recent one falls on the same
/// day as `now`. This always holds of stores produced by sequential marking;
/// it rules out duplicate same-day completions, which only a racing writer
/// or a rewound clock can produce.
pub open spec fn only_latest_same_day(s: StoreView, habit_id: int, now: int) -> bool {
    let li = latest_completion_idx(s.habit_instances, habit_id);
    forall|j: int|
        0 <= j < s.habit_instances.len() && j != li && (#[trigger] s.habit_instances[j]).habit_id
            == habit_id ==> !same_calendar_day(s.habit_instances[j].completed_time, now)
}

/// No completion can belong to a habit that does not exist yet: under the
/// invariant, a fresh identifier has no completions.
proof fn lemma_unknown_habit_has_no_completions(s: StoreView, id: int)
    requires
        s.inv(),
        !habit_id_exists(s.habits, id),
    ensures
        latest_completion_idx(s.habit_instances, id) == -1,
{
    lemma_latest_props(s.habit_instances, id);
    let li = latest_completion_idx(s.habit_instances, id);
    if li != -1 {
        assert(habit_id_exists(s.habits, s.habit_instances[li].habit_id));
    }
}

/// Marking a habit that has never been marked succeeds; marking it again at
/// any instant of the same day reports a no-op and leaves the store
/// unchanged. The bounds on the two identifier counters only keep the first
/// call from failing for exhaustion.
pub proof fn lemma_mark_twice_same_day(s: StoreView, name: Seq<char>, t1: int, t2: int)
    requires
        s.inv(),
        never_marked(s, name),
        s.next_habit_id < i64::MAX,
        s.next_habit_instance_id < i64::MAX,
        same_calendar_day(t1, t2),
    ensures
        mark_transition(s, name, t1).1 == Ok::<bool, Error>(true),
        ({
            let s1 = mark_transition(s, name, t1).0;
            &&& habit_set_today(s1, name, t2)
            &&& mark_transition(s1, name, t2).1 == Ok::<bool, Error>(false)
            &&& mark_transition(s1, name, t2).0 == s1
        }),
{
    lemma_first_match_habits(s.habits, name);
    let i = habit_idx(s.habits, name);
    let s1 = mark_transition(s, name, t1).0;
    if i >= 0 {
        let hid = s.habits[i].id;
        let c = HabitInstanceView {
            id: s.next_habit_instance_id,
            habit_id: hid,
            completed_time: t1,
        };
        lemma_latest_push(s.habit_instances, hid, c);
        assert(habit_idx(s1.habits, name) == i);
    } else {
        let hid = s.next_habit_id;
        let h = HabitEntryView { id: hid, name: name };
        lemma_unknown_habit_not_indexed(s, hid);
        lemma_unknown_habit_has_no_completions(s, hid);
        let c = HabitInstanceView {
            id: s.next_habit_instance_id,
            habit_id: hid,
            completed_time: t1,
        };
        lemma_latest_push(s.habit_instances, hid, c);
        lemma_first_match_idx_at(
            s.habits.push(h),
            |x: HabitEntryView| x.name == name,
            s.habits.len() as int,
        );
        assert(s1.habits[habit_idx(s1.habits, name)].id == hid);
    }
}

/// A habit identifier that no row carries cannot be pointed at by any
/// completion's habit column, by the invariant's referential clause; a
/// fresh identifier (one at or above the counter) is such an identifier.
proof fn lemma_unknown_habit_not_indexed(s: StoreView, id: int)
    requires
        s.inv(),
        id >= s.next_habit_id,
    ensures
        !habit_id_exists(s.habits, id),
{
    if habit_id_exists(s.habits, id) {
        let j = choose|j: int| 0 <= j < s.habits.len() && (#[trigger] s.habits[j]).id == id;
        assert(s.habits[j].id < s.next_habit_id);
    }
}

/// Unmarking a habit in the `SetToday` state succeeds and moves it to
/// `Unset`; unmarking again reports a no-op and leaves the store unchanged.
/// The law asks that only the most recent completion fall on the day of
/// `now`: with a second same-day completion on record (possible only under
/// racing writers or a rewound clock) deleting the most recent one can leave
/// the habit still set.
pub proof fn lemma_unmark_twice(s: StoreView, name: Seq<char>, t: int)
    requires
        s.inv(),
        habit_set_today(s, name, t),
        only_latest_same_day(s, habit_id_of(s, name), t),
    ensures
        unmark_transition(s, name, t).1 == Ok::<bool, Error>(true),
        ({
            let s1 = unmark_transition(s, name, t).0;
            &&& !habit_set_today(s1, name, t)
            &&& unmark_transition(s1, name, t).1 == Ok::<bool, Error>(false)
            &&& unmark_transition(s1, name, t).0 == s1
        }),
{
    lemma_first_match_habits(s.habits, name);
    let i = habit_idx(s.habits, name);
    let hid = s.habits[i].id;
    let li = latest_completion_idx(s.habit_instances, hid);
    lemma_latest_props(s.habit_instances, hid);
    let p = |c: HabitInstanceView| c.id == s.habit_instances[li].id;
    assert forall|j: int| 0 <= j < li implies !p(s.habit_instances[j]) by {
        assert(s.habit_instances[j].id != s.habit_instances[li].id);
    }
    lemma_first_match_idx_at(s.habit_instances, p, li);
    let s1 = unmark_transition(s, name, t).0;
    assert(s1.habit_instances == s.habit_instances.remove(li));
    s.habit_instances.remove_ensures(li);
    let li2 = latest_completion_idx(s1.habit_instances, hid);
    lemma_latest_props(s1.habit_instances, hid);
    if li2 >= 0 {
        let orig = if li2 < li {
            li2
        } else {
            li2 + 1
        };
        assert(s1.habit_instances[li2] == s.habit_instances[orig]);
        assert(!same_calendar_day(s1.habit_instances[li2].completed_time, t));
    }
    assert(habit_idx(s1.habits, name) == i);
}

/// Round trip: on a habit never marked before, mark, unmark and mark again
/// all report a transition, the unmark removes exactly what the first mark
/// recorded, and the habit ends with exactly one completion on record — no
/// residual duplicates.
pub proof fn lemma_mark_unmark_mark(s: StoreView, name: Seq<char>, t1: int, t2: int, t3: int)
    requires
        s.inv(),
        never_marked(s, name),
        s.next_habit_id < i64::MAX,
        s.next_habit_instance_id < i64::MAX - 1,
        same_calendar_day(t1, t2),
    ensures
        ({
            let (s1, r1) = mark_transition(s, name, t1);
            let (s2, r2) = unmark_transition(s1, name, t2);
            let (s3, r3) = mark_transition(s2, name, t3);
            &&& r1 == Ok::<bool, Error>(true)
            &&& r2 == Ok::<bool, Error>(true)
            &&& r3 == Ok::<bool, Error>(true)
            &&& s2.habit_instances == s.habit_instances
            &&& forall|j: int|
                0 <= j < s3.habit_instances.len() && (#[trigger] s3.habit_instances[j]).habit_id
                    == habit_id_of(s3, name) ==> j == s3.habit_instances.len() - 1
        }),
{
    lemma_first_match_habits(s.habits, name);
    let i = habit_idx(s.habits, name);
    let hid = if i >= 0 {
        s.habits[i].id
    } else {
        s.next_habit_id
    };
    if i < 0 {
        lemma_unknown_habit_not_indexed(s, hid);
        lemma_unknown_habit_has_no_completions(s, hid);
    }
    let (s1, r1) = mark_transition(s, name, t1);
    let c1 = HabitInstanceView {
        id: s.next_habit_instance_id,
        habit_id: hid,
        completed_time: t1,
    };
    lemma_latest_push(s.habit_instances, hid, c1);
    if i < 0 {
        lemma_first_match_idx_at(
            s.habits.push(HabitEntryView { id: hid, name: name }),
            |x: HabitEntryView| x.name == name,
            s.habits.len() as int,
        );
    }
    // the unmark sees c1 as the latest same-day completion and removes it
    let li = latest_completion_idx(s1.habit_instances, hid);
    assert(li == s.habit_instances.len());
    let p = |c: HabitInstanceView| c.id == s1.habit_instances[li].id;
    assert forall|j: int| 0 <= j < li implies !p(s1.habit_instances[j]) by {
        assert(s1.habit_instances[j] == s.habit_instances[j]);
    }
    lemma_first_match_idx_at(s1.habit_instances, p, li);
    let (s2, r2) = unmark_transition(s1, name, t2);
    assert(s2.habit_instances =~= s.habit_instances) by {
        s1.habit_instances.remove_ensures(li);
    }
    // the third mark starts from a habit with no completions again
    assert(habit_idx(s2.habits, name) == habit_idx(s1.habits, name));
    lemma_latest_upto_prefix_full(s2.habit_instances, s.habit_instances, hid);
    let c3 = HabitInstanceView {
        id: s2.next_habit_instance_id,
        habit_id: hid,
        completed_time: t3,
    };
    lemma_latest_push(s2.habit_instances, hid, c3);
    let (s3, r3) = mark_transition(s2, name, t3);
    assert(r3 == Ok::<bool, Error>(true));
    lemma_latest_props(s.habit_instances, hid);
    assert forall|j: int|
        0 <= j < s3.habit_instances.len() && (#[trigger] s3.habit_instances[j]).habit_id
            == habit_id_of(s3, name) implies j == s3.habit_instances.len() - 1 by {
        assert(habit_id_of(s3, name) == hid);
        if j < s3.habit_instances.len() - 1 {
            assert(s3.habit_instances[j] == s.habit_instances[j]);
        }
    }
}

/// Two equal sequences have the same latest completion; a helper to carry
/// the question across an extensionally equal pair.
proof fn lemma_latest_upto_prefix_full(
    s1: Seq<HabitInstanceView>,
    s2: Seq<HabitInstanceView>,
    habit_id: int,
)
    requires
        s1.len() == s2.len(),
        forall|j: int| 0 <= j < s1.len() ==> s1[j] == s2[j],
    ensures
        latest_completion_idx(s1, habit_id) == latest_completion_idx(s2, habit_id),
{
    crate::habit::lemma_latest_upto_prefix(s1, s2, habit_id, s1.len() as int);
}

/// The identity resolver is idempotent: resolving a name twice yields the
/// same identifier both times, and the second call changes nothing. The
/// bound on the counter only keeps the first call from failing for
/// exhaustion.
pub proof fn lemma_habit_resolve_idempotent(s: StoreView, name: Seq<char>)
    requires
        s.inv(),
        s.next_habit_id < i64::MAX,
    ensures
        ({
            let (s1, r1) = habit_resolve_transition(s, name);
            let (s2, r2) = habit_resolve_transition(s1, name);
            &&& r1 is Ok
            &&& r2 == r1
            &&& s2 == s1
        }),
{
    lemma_first_match_habits(s.habits, name);
    let i = habit_idx(s.habits, name);
    if i < 0 {
        let h = HabitEntryView { id: s.next_habit_id, name: name };
        lemma_first_match_idx_at(
            s.habits.push(h),
            |x: HabitEntryView| x.name == name,
            s.habits.len() as int,
        );
    }
}

/// The user resolver is idempotent in the same way as the habit resolver:
/// the same username yields the same row both times, whatever display name
/// the second caller brings.
pub proof fn lemma_user_resolve_idempotent(
    s: StoreView,
    username: Seq<char>,
    name1: Seq<char>,
    name2: Seq<char>,
)
    requires
        s.inv(),
        s.next_user_id < i64::MAX,
    ensures
        ({
            let (s1, r1) = user_resolve_transition(s, username, name1);
            let (s2, r2) = user_resolve_transition(s1, username, name2);
            &&& r1 is Ok
            &&& r2 == r1
            &&& s2 == s1
        }),
{
    lemma_first_match_idx(s.users, |u: UserView| u.username == username);
    let i = user_idx_by_username(s.users, username);
    if i < 0 {
        let u = UserView { id: s.next_user_id, username: username, name: name1 };
        lemma_first_match_idx_at(
            s.users.push(u),
            |x: UserView| x.username == username,
            s.users.len() as int,
        );
    }
}

/// User uniqueness: inserting a username not yet present succeeds, and
/// inserting the same username again reports `AlreadyExists` and leaves the
/// store — the first user's row included — unchanged, whatever display name
/// the second insert carries.
pub proof fn lemma_user_insert_duplicate(
    s: StoreView,
    username: Seq<char>,
    name1: Seq<char>,
    name2: Seq<char>,
)
    requires
        s.inv(),
        user_idx_by_username(s.users, username) == -1,
        s.next_user_id < i64::MAX,
    ensures
        ({
            let (s1, r1) = user_insert_transition(s, username, name1);
            let (s2, r2) = user_insert_transition(s1, username, name2);
            &&& r1 is Ok
            &&& r2 == Err::<UserView, Error>(Error::AlreadyExists)
            &&& s2 == s1
        }),
{
    lemma_first_match_idx(s.users, |u: UserView| u.username == username);
    let u = UserView { id: s.next_user_id, username: username, name: name1 };
    lemma_first_match_idx_at(
        s.users.push(u),
        |x: UserView| x.username == username,
        s.users.len() as int,
    );
}

/// Task natural-key idempotence: try-inserting the same `(user_id, name)`
/// twice yields the same task identifier both times, never an error, and
/// the second call changes nothing.
pub proof fn lemma_task_try_insert_idempotent(s: StoreView, user_id: int, name: Seq<char>)
    requires
        s.inv(),
        s.next_task_id < i64::MAX,
    ensures
        ({
            let (s1, r1) = task_try_insert_transition(s, user_id, name);
            let (s2, r2) = task_try_insert_transition(s1, user_id, name);
            &&& r1 is Ok
            &&& r2 == r1
            &&& s2 == s1
        }),
{
    lemma_first_match_idx(s.tasks, |t: TaskView| t.user_id == user_id && t.name == name);
    let i = first_match_idx(s.tasks, |t: TaskView| t.user_id == user_id && t.name == name);
    if i < 0 {
        let t = TaskView { id: s.next_task_id, user_id: user_id, name: name };
        lemma_first_match_idx_at(
            s.tasks.push(t),
            |x: TaskView| x.user_id == user_id && x.name == name,
            s.tasks.len() as int,
        );
    }
}

} // verus!
