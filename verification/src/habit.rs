//! The habit state machine: a habit is keyed globally by name, and each
//! completion is a timestamped instance row. A habit counts as "set today"
//! exactly when its most recent completion lies within zero whole days of
//! the current time; marking and unmarking are the two transitions, each a
//! no-op when the habit is already in the requested state.

use vstd::prelude::*;

use crate::error::Error;
use crate::search::{
    first_match_idx, lemma_first_match_idx, lemma_first_match_idx_at, lemma_first_match_idx_none,
};
use crate::store::{lemma_map_values_push, lemma_map_values_remove};
use crate::store::{Store, StoreView};

verus! {

/// A habit row: a store-assigned identifier and the unique habit name.
#[derive(Debug, Clone)]
pub struct HabitEntry {
    pub id: i64,
    pub name: String,
}

/// Mathematical view of a [`HabitEntry`] row.
pub struct HabitEntryView {
    pub id: int,
    pub name: Seq<char>,
}

impl View for HabitEntry {
    type V = HabitEntryView;

    open spec fn view(&self) -> HabitEntryView {
        HabitEntryView { id: self.id as int, name: self.name@ }
    }
}

/// A completion row: a store-assigned identifier, the habit it belongs to,
/// and the completion time as seconds since the Unix epoch.
#[derive(Debug, Clone)]
pub struct HabitInstance {
    pub id: i64,
    pub habit_id: i64,
    pub completed_time: i64,
}

/// Mathematical view of a [`HabitInstance`] row.
pub struct HabitInstanceView {
    pub id: int,
    pub habit_id: int,
    pub completed_time: int,
}

impl View for HabitInstance {
    type V = HabitInstanceView;

    open spec fn view(&self) -> HabitInstanceView {
        HabitInstanceView {
            id: self.id as int,
            habit_id: self.habit_id as int,
            completed_time: self.completed_time as int,
        }
    }
}

/// Seconds in one day.
pub const SECONDS_PER_DAY: i64 = 86400;

/// The signed number of whole days from `last` to `now`, truncated toward
/// zero: the day-count of the signed duration between the two instants.
/// Both instants are seconds in the same fixed time zone, so a zone offset
/// applied to both cancels out of the difference.
pub open spec fn whole_days_between(last: int, now: int) -> int {
    if now >= last {
        (now - last) / (SECONDS_PER_DAY as int)
    } else {
        -((last - now) / (SECONDS_PER_DAY as int))
    }
}

/// Two instants fall on the same day exactly when the whole-day count of
/// their signed difference is zero; any non-zero count, negative included,
/// means "not the same day".
pub open spec fn same_calendar_day(last: int, now: int) -> bool {
    whole_days_between(last, now) == 0
}

/// Index of the habit row with the given name, or `-1` if there is none.
pub open spec fn habit_idx(habits: Seq<HabitEntryView>, name: Seq<char>) -> int {
    first_match_idx(habits, |h: HabitEntryView| h.name == name)
}

/// The search facts behind [`habit_idx`], instantiated once: a missing name
/// means no row carries it, and a found index is the first row that does.
pub proof fn lemma_first_match_habits(habits: Seq<HabitEntryView>, name: Seq<char>)
    ensures
        habit_idx(habits, name) == -1 ==> forall|j: int|
            0 <= j < habits.len() ==> (#[trigger] habits[j]).name != name,
        habit_idx(habits, name) != -1 ==> 0 <= habit_idx(habits, name) < habits.len(),
        habit_idx(habits, name) != -1 ==> habits[habit_idx(habits, name)].name == name,
        habit_idx(habits, name) != -1 ==> forall|j: int|
            0 <= j < habit_idx(habits, name) ==> (#[trigger] habits[j]).name != name,
{
    lemma_first_match_idx(habits, |h: HabitEntryView| h.name == name);
}

/// Whether some habit row carries the given identifier.
pub open spec fn habit_id_exists(habits: Seq<HabitEntryView>, id: int) -> bool {
    exists|j: int| 0 <= j < habits.len() && (#[trigger] habits[j]).id == id
}

/// Pushing a habit row preserves every existing referential link and
/// establishes one for the new row's identifier.
pub proof fn lemma_habit_id_exists_push(habits: Seq<HabitEntryView>, h: HabitEntryView)
    ensures
        forall|id: int|
            habit_id_exists(habits, id) ==> #[trigger] habit_id_exists(habits.push(h), id),
        habit_id_exists(habits.push(h), h.id),
{
    assert forall|id: int|
        habit_id_exists(habits, id) implies #[trigger] habit_id_exists(habits.push(h), id) by {
        let j = choose|j: int| 0 <= j < habits.len() && (#[trigger] habits[j]).id == id;
        assert(habits.push(h)[j].id == id);
    }
    assert(habits.push(h)[habits.len() as int].id == h.id);
}

/// Index of the most recent completion of the habit among the first `n`
/// rows, or `-1` if none of them belongs to it. Among equal times the
/// earliest row wins, matching a scan that only replaces its candidate on a
/// strictly greater time.
pub open spec fn latest_upto(insts: Seq<HabitInstanceView>, habit_id: int, n: int) -> int
    decreases n,
{
    if n <= 0 {
        -1
    } else {
        let prev = latest_upto(insts, habit_id, n - 1);
        if insts[n - 1].habit_id == habit_id && (prev < 0 || insts[n - 1].completed_time
            > insts[prev].completed_time) {
            n - 1
        } else {
            prev
        }
    }
}

/// Index of the most recent completion of the habit, or `-1` if it has none.
pub open spec fn latest_completion_idx(insts: Seq<HabitInstanceView>, habit_id: int) -> int {
    latest_upto(insts, habit_id, insts.len() as int)
}

/// What `latest_upto` returns: `-1` exactly when no row among the first `n`
/// belongs to the habit; otherwise a belonging row whose time no belonging
/// row exceeds.
pub proof fn lemma_latest_upto_props(insts: Seq<HabitInstanceView>, habit_id: int, n: int)
    requires
        0 <= n <= insts.len(),
    ensures
        latest_upto(insts, habit_id, n) == -1 ==> forall|j: int|
            0 <= j < n ==> (#[trigger] insts[j]).habit_id != habit_id,
        latest_upto(insts, habit_id, n) != -1 ==> 0 <= latest_upto(insts, habit_id, n) < n,
        latest_upto(insts, habit_id, n) != -1 ==> insts[latest_upto(insts, habit_id, n)].habit_id
            == habit_id,
        latest_upto(insts, habit_id, n) != -1 ==> forall|j: int|
            0 <= j < n && (#[trigger] insts[j]).habit_id == habit_id ==> insts[j].completed_time
                <= insts[latest_upto(insts, habit_id, n)].completed_time,
    decreases n,
{
    if n > 0 {
        lemma_latest_upto_props(insts, habit_id, n - 1);
    }
}

/// What `latest_completion_idx` returns, at the full length of the table.
pub proof fn lemma_latest_props(insts: Seq<HabitInstanceView>, habit_id: int)
    ensures
        latest_completion_idx(insts, habit_id) == -1 ==> forall|j: int|
            0 <= j < insts.len() ==> (#[trigger] insts[j]).habit_id != habit_id,
        latest_completion_idx(insts, habit_id) != -1 ==> 0 <= latest_completion_idx(insts, habit_id)
            < insts.len(),
        latest_completion_idx(insts, habit_id) != -1 ==> insts[latest_completion_idx(
            insts,
            habit_id,
        )].habit_id == habit_id,
        latest_completion_idx(insts, habit_id) != -1 ==> forall|j: int|
            0 <= j < insts.len() && (#[trigger] insts[j]).habit_id == habit_id
                ==> insts[j].completed_time <= insts[latest_completion_idx(
                insts,
                habit_id,
            )].completed_time,
{
    lemma_latest_upto_props(insts, habit_id, insts.len() as int);
}

/// The identifier of the habit named `name`, or `-1` when no such habit
/// exists.
pub open spec fn habit_id_of(s: StoreView, name: Seq<char>) -> int {
    let i = habit_idx(s.habits, name);
    if i >= 0 {
        s.habits[i].id
    } else {
        -1
    }
}

/// A habit that has never been marked: either no row carries the name, or
/// the row exists and no completion belongs to it.
pub open spec fn never_marked(s: StoreView, name: Seq<char>) -> bool {
    let i = habit_idx(s.habits, name);
    if i == -1 {
        true
    } else {
        latest_completion_idx(s.habit_instances, s.habits[i].id) == -1
    }
}

/// The observable `SetToday` state: the habit exists and its most recent
/// completion falls on the same day as `now`.
pub open spec fn habit_set_today(s: StoreView, name: Seq<char>, now: int) -> bool {
    let i = habit_idx(s.habits, name);
    i >= 0 && ({
        let li = latest_completion_idx(s.habit_instances, s.habits[i].id);
        li >= 0 && same_calendar_day(s.habit_instances[li].completed_time, now)
    })
}

/// `latest_upto` only looks at the first `n` rows, so two sequences that
/// agree there agree on it.
pub proof fn lemma_latest_upto_prefix(
    s1: Seq<HabitInstanceView>,
    s2: Seq<HabitInstanceView>,
    habit_id: int,
    n: int,
)
    requires
        0 <= n <= s1.len(),
        n <= s2.len(),
        forall|j: int| 0 <= j < n ==> s1[j] == s2[j],
    ensures
        latest_upto(s1, habit_id, n) == latest_upto(s2, habit_id, n),
    decreases n,
{
    if n > 0 {
        lemma_latest_upto_prefix(s1, s2, habit_id, n - 1);
        lemma_latest_upto_props(s1, habit_id, n - 1);
    }
}

/// How the most recent completion moves when a row is appended: the new row
/// takes over exactly when it belongs to the habit and strictly exceeds the
/// previous maximum.
pub proof fn lemma_latest_push(insts: Seq<HabitInstanceView>, habit_id: int, c: HabitInstanceView)
    ensures
        latest_completion_idx(insts.push(c), habit_id) == ({
            let prev = latest_completion_idx(insts, habit_id);
            if c.habit_id == habit_id && (prev < 0 || c.completed_time
                > insts[prev].completed_time) {
                insts.len() as int
            } else {
                prev
            }
        }),
{
    lemma_latest_upto_prefix(insts, insts.push(c), habit_id, insts.len() as int);
    lemma_latest_upto_props(insts, habit_id, insts.len() as int);
    assert(insts.push(c)[insts.len() as int] == c);
}

/// What creating a habit does to the store: a duplicate name is
/// `AlreadyExists`, an exhausted identifier space is `UnknownStore`, and
/// otherwise the row is appended with the next identifier, which is
/// returned.
pub open spec fn habit_create_transition(s: StoreView, name: Seq<char>) -> (
    StoreView,
    Result<int, Error>,
) {
    if habit_idx(s.habits, name) >= 0 {
        (s, Err(Error::AlreadyExists))
    } else if s.next_habit_id == i64::MAX {
        (s, Err(Error::UnknownStore))
    } else {
        let h = HabitEntryView { id: s.next_habit_id, name: name };
        (
            StoreView { habits: s.habits.push(h), next_habit_id: s.next_habit_id + 1, ..s },
            Ok(s.next_habit_id),
        )
    }
}

/// The identity resolver for habits: an existing row's identifier is
/// returned with the store unchanged, and a missing row is created first.
pub open spec fn habit_resolve_transition(s: StoreView, name: Seq<char>) -> (
    StoreView,
    Result<int, Error>,
) {
    let i = habit_idx(s.habits, name);
    if i >= 0 {
        (s, Ok(s.habits[i].id))
    } else {
        habit_create_transition(s, name)
    }
}

/// What the "is the habit set today" question does to the store: the habit
/// is resolved (created if missing), and the answer is the identifier of its
/// most recent completion when that completion falls on the same day as
/// `now`, and `None` otherwise.
pub open spec fn set_today_transition(s: StoreView, name: Seq<char>, now: int) -> (
    StoreView,
    Result<Option<int>, Error>,
) {
    let (s1, r) = habit_resolve_transition(s, name);
    match r {
        Err(e) => (s1, Err(e)),
        Ok(hid) => {
            let li = latest_completion_idx(s1.habit_instances, hid);
            if li >= 0 && same_calendar_day(s1.habit_instances[li].completed_time, now) {
                (s1, Ok(Some(s1.habit_instances[li].id)))
            } else {
                (s1, Ok(None))
            }
        },
    }
}

/// What marking does to the store: resolve the habit, answer `false` when it
/// is already set today, and otherwise record a completion stamped `now` and
/// answer `true`.
pub open spec fn mark_transition(s: StoreView, name: Seq<char>, now: int) -> (
    StoreView,
    Result<bool, Error>,
) {
    let (s1, r) = habit_resolve_transition(s, name);
    match r {
        Err(e) => (s1, Err(e)),
        Ok(hid) => {
            let li = latest_completion_idx(s1.habit_instances, hid);
            if li >= 0 && same_calendar_day(s1.habit_instances[li].completed_time, now) {
                (s1, Ok(false))
            } else if s1.next_habit_instance_id == i64::MAX {
                (s1, Err(Error::UnknownStore))
            } else {
                let c = HabitInstanceView {
                    id: s1.next_habit_instance_id,
                    habit_id: hid,
                    completed_time: now,
                };
                (
                    StoreView {
                        habit_instances: s1.habit_instances.push(c),
                        next_habit_instance_id: s1.next_habit_instance_id + 1,
                        ..s1
                    },
                    Ok(true),
                )
            }
        },
    }
}

/// What unmarking does to the store: resolve the habit, answer `false` when
/// it is not set today, and otherwise delete the row holding today's most
/// recent completion and answer `true`.
pub open spec fn unmark_transition(s: StoreView, name: Seq<char>, now: int) -> (
    StoreView,
    Result<bool, Error>,
) {
    let (s1, r) = set_today_transition(s, name, now);
    match r {
        Err(e) => (s1, Err(e)),
        Ok(None) => (s1, Ok(false)),
        Ok(Some(iid)) => {
            let di = first_match_idx(s1.habit_instances, |c: HabitInstanceView| c.id == iid);
            (
                StoreView { habit_instances: s1.habit_instances.remove(di), ..s1 },
                Ok(true),
            )
        },
    }
}

/// Whether `last` and `now` fall on the same day, proved against
/// [`same_calendar_day`]. A difference too wide for the machine integer is
/// in particular more than a day wide.
fn is_same_calendar_day(last: i64, now: i64) -> (r: bool)
    ensures
        r == same_calendar_day(last as int, now as int),
{
    match now.checked_sub(last) {
        Some(d) => -SECONDS_PER_DAY < d && d < SECONDS_PER_DAY,
        None => {
            proof {
                if now as int >= last as int {
                    assert(now - last >= SECONDS_PER_DAY);
                    assert((now - last) / (SECONDS_PER_DAY as int) >= 1) by {
                        vstd::arithmetic::div_mod::lemma_div_is_ordered(
                            SECONDS_PER_DAY as int,
                            now - last,
                            SECONDS_PER_DAY as int,
                        );
                        assert((SECONDS_PER_DAY as int) / (SECONDS_PER_DAY as int) == 1);
                    }
                } else {
                    assert(last - now >= SECONDS_PER_DAY);
                    assert((last - now) / (SECONDS_PER_DAY as int) >= 1) by {
                        vstd::arithmetic::div_mod::lemma_div_is_ordered(
                            SECONDS_PER_DAY as int,
                            last - now,
                            SECONDS_PER_DAY as int,
                        );
                        assert((SECONDS_PER_DAY as int) / (SECONDS_PER_DAY as int) == 1);
                    }
                }
            }
            false
        },
    }
}

/// Index of the first habit row with the given name, as an exec search
/// proved against [`habit_idx`].
#[verifier::loop_isolation(false)]
fn find_habit_by_name(habits: &Vec<HabitEntry>, name: &String) -> (r: Option<usize>)
    ensures
        ({
            let i = habit_idx(habits@.map_values(|h: HabitEntry| h@), name@);
            match r {
                Some(k) => i == k as int && k < habits@.len(),
                None => i == -1,
            }
        }),
{
    let ghost hv = habits@.map_values(|h: HabitEntry| h@);
    let ghost p = |h: HabitEntryView| h.name == name@;
    let mut k: usize = 0;
    while k < habits.len()
        invariant
            0 <= k <= habits@.len(),
            forall|j: int| 0 <= j < k ==> !p(#[trigger] hv[j]),
        decreases habits@.len() - k,
    {
        if habits[k].name == *name {
            proof {
                lemma_first_match_idx_at(hv, p, k as int);
            }
            return Some(k);
        }
        k += 1;
    }
    proof {
        lemma_first_match_idx_none(hv, p);
    }
    None
}

/// Index of the habit's most recent completion, as an exec scan proved
/// against [`latest_completion_idx`].
#[verifier::loop_isolation(false)]
fn find_latest_completion(insts: &Vec<HabitInstance>, habit_id: i64) -> (r: Option<usize>)
    ensures
        ({
            let li = latest_completion_idx(
                insts@.map_values(|c: HabitInstance| c@),
                habit_id as int,
            );
            match r {
                Some(k) => li == k as int && k < insts@.len(),
                None => li == -1,
            }
        }),
{
    let ghost cv = insts@.map_values(|c: HabitInstance| c@);
    let mut best: Option<usize> = None;
    let mut k: usize = 0;
    while k < insts.len()
        invariant
            0 <= k <= insts@.len(),
            match best {
                Some(b) => b < k && latest_upto(cv, habit_id as int, k as int) == b as int,
                None => latest_upto(cv, habit_id as int, k as int) == -1,
            },
        decreases insts@.len() - k,
    {
        if insts[k].habit_id == habit_id {
            let replace = match best {
                None => true,
                Some(b) => insts[k].completed_time > insts[b].completed_time,
            };
            if replace {
                best = Some(k);
            }
        }
        k += 1;
    }
    best
}

/// The current time in seconds since the Unix epoch.
///
/// Relies on chrono's `Utc::now` and `DateTime::timestamp`: the value is
/// read from the system clock, so nothing is assumed of it. `Utc::now`
/// aborts on a system clock set before the Unix epoch.
#[verifier::external_body]
fn current_timestamp() -> i64 {
    chrono::Utc::now().timestamp()
}

/// A named habit; all state lives in the store the methods are given.
#[derive(Debug, Clone)]
pub struct Habit {
    /// The name of this habit, its global natural key.
    pub name: String,
}

impl Habit {
    /// The identifier of this habit, `None` when it has never been created.
    /// The store is not changed.
    pub fn get_id(&self, store: &Store) -> (r: Result<Option<i64>, Error>)
        requires
            store@.inv(),
        ensures
            ({
                let i = habit_idx(store@.habits, self.name@);
                match r {
                    Ok(Some(id)) => i >= 0 && id as int == store@.habits[i].id,
                    Ok(None) => i == -1,
                    Err(_) => false,
                }
            }),
    {
        match find_habit_by_name(&store.habits, &self.name) {
            Some(k) => Ok(Some(store.habits[k].id)),
            None => Ok(None),
        }
    }

    /// Create this habit, per [`habit_create_transition`]: an error when the
    /// name is already present, otherwise the fresh identifier.
    pub fn create_habit(&self, store: &mut Store) -> (r: Result<i64, Error>)
        requires
            old(store)@.inv(),
        ensures
            final(store)@.inv(),
            ({
                let (s2, out) = habit_create_transition(old(store)@, self.name@);
                &&& final(store)@ == s2
                &&& match (r, out) {
                    (Ok(id), Ok(idv)) => id as int == idv,
                    (Err(e1), Err(e2)) => e1 == e2,
                    _ => false,
                }
            }),
    {
        match find_habit_by_name(&store.habits, &self.name) {
            Some(_) => Err(Error::AlreadyExists),
            None => {
                if store.next_habit_id == i64::MAX {
                    Err(Error::UnknownStore)
                } else {
                    let id = store.next_habit_id;
                    let row = HabitEntry { id, name: self.name.clone() };
                    proof {
                        lemma_first_match_idx(
                            old(store)@.habits,
                            |h: HabitEntryView| h.name == self.name@,
                        );
                        lemma_map_values_push(store.habits@, |h: HabitEntry| h@, row);
                        lemma_habit_id_exists_push(old(store)@.habits, row@);
                    }
                    store.habits.push(row);
                    store.next_habit_id = id + 1;
                    proof {
                        assert(store@ =~= habit_create_transition(old(store)@, self.name@).0);
                    }
                    Ok(id)
                }
            },
        }
    }

    /// The identity resolver for habits, per [`habit_resolve_transition`]:
    /// return the existing identifier, or create the habit and return the
    /// fresh one.
    pub fn get_id_or_create(&self, store: &mut Store) -> (r: Result<i64, Error>)
        requires
            old(store)@.inv(),
        ensures
            final(store)@.inv(),
            ({
                let (s2, out) = habit_resolve_transition(old(store)@, self.name@);
                &&& final(store)@ == s2
                &&& match (r, out) {
                    (Ok(id), Ok(idv)) => id as int == idv,
                    (Err(e1), Err(e2)) => e1 == e2,
                    _ => false,
                }
            }),
    {
        match find_habit_by_name(&store.habits, &self.name) {
            Some(k) => Ok(store.habits[k].id),
            None => self.create_habit(store),
        }
    }

    /// Whether this habit has been completed on the same day as `now`, per
    /// [`set_today_transition`]: `Some` holds the identifier of the most
    /// recent completion row. Creates the habit when it does not exist.
    pub fn get_habit_set_today_at(&self, store: &mut Store, now: i64) -> (r: Result<
        Option<i64>,
        Error,
    >)
        requires
            old(store)@.inv(),
        ensures
            final(store)@.inv(),
            ({
                let (s2, out) = set_today_transition(old(store)@, self.name@, now as int);
                &&& final(store)@ == s2
                &&& match (r, out) {
                    (Ok(Some(id)), Ok(Some(idv))) => id as int == idv,
                    (Ok(None), Ok(None)) => true,
                    (Err(e1), Err(e2)) => e1 == e2,
                    _ => false,
                }
            }),
    {
        let id = match self.get_id_or_create(store) {
            Ok(id) => id,
            Err(e) => {
                return Err(e);
            },
        };
        match find_latest_completion(&store.habit_instances, id) {
            Some(k) => {
                if is_same_calendar_day(store.habit_instances[k].completed_time, now) {
                    Ok(Some(store.habit_instances[k].id))
                } else {
                    Ok(None)
                }
            },
            None => Ok(None),
        }
    }

    /// Mark this habit as completed at time `now`, per [`mark_transition`]:
    /// `true` when a completion was recorded, `false` when the habit was
    /// already set on that day and nothing changed. Creates the habit when
    /// it does not exist.
    pub fn mark_habit_at(&self, store: &mut Store, now: i64) -> (r: Result<bool, Error>)
        requires
            old(store)@.inv(),
        ensures
            final(store)@.inv(),
            ({
                let (s2, out) = mark_transition(old(store)@, self.name@, now as int);
                &&& final(store)@ == s2
                &&& r == out
            }),
    {
        let id = match self.get_id_or_create(store) {
            Ok(id) => id,
            Err(e) => {
                return Err(e);
            },
        };
        let set_today = match find_latest_completion(&store.habit_instances, id) {
            Some(k) => is_same_calendar_day(store.habit_instances[k].completed_time, now),
            None => false,
        };
        if set_today {
            Ok(false)
        } else if store.next_habit_instance_id == i64::MAX {
            Err(Error::UnknownStore)
        } else {
            let iid = store.next_habit_instance_id;
            let row = HabitInstance { id: iid, habit_id: id, completed_time: now };
            let ghost mid_cv = store@.habit_instances;
            proof {
                lemma_map_values_push(store.habit_instances@, |c: HabitInstance| c@, row);
                lemma_first_match_idx(
                    old(store)@.habits,
                    |h: HabitEntryView| h.name == self.name@,
                );
                let i = habit_idx(old(store)@.habits, self.name@);
                if i >= 0 {
                    assert(store@.habits[i].id == id as int);
                } else {
                    assert(store@.habits[store@.habits.len() - 1].id == id as int);
                }
                assert(habit_id_exists(store@.habits, row@.habit_id));
            }
            store.habit_instances.push(row);
            store.next_habit_instance_id = iid + 1;
            proof {
                assert forall|i2: int|
                    0 <= i2 < store@.habit_instances.len() implies habit_id_exists(
                    store@.habits,
                    (#[trigger] store@.habit_instances[i2]).habit_id,
                ) by {
                    if i2 < mid_cv.len() {
                        assert(store@.habit_instances[i2] == mid_cv[i2]);
                    } else {
                        assert(store@.habit_instances[i2] == row@);
                    }
                }
                assert(store@ =~= mark_transition(old(store)@, self.name@, now as int).0);
            }
            Ok(true)
        }
    }

    /// Unmark this habit at time `now`, per [`unmark_transition`]: `true`
    /// when today's completion row was deleted, `false` when the habit was
    /// not set on that day and nothing changed. Creates the habit when it
    /// does not exist.
    #[verifier::loop_isolation(false)]
    pub fn unmark_habit_at(&self, store: &mut Store, now: i64) -> (r: Result<bool, Error>)
        requires
            old(store)@.inv(),
        ensures
            final(store)@.inv(),
            ({
                let (s2, out) = unmark_transition(old(store)@, self.name@, now as int);
                &&& final(store)@ == s2
                &&& r == out
            }),
    {
        let iid = match self.get_habit_set_today_at(store, now) {
            Ok(Some(iid)) => iid,
            Ok(None) => {
                return Ok(false);
            },
            Err(e) => {
                return Err(e);
            },
        };
        let ghost s_mid: Store = *store;
        let ghost cv = store@.habit_instances;
        let ghost p = |c: HabitInstanceView| c.id == iid as int;
        let mut k: usize = 0;
        let n = store.habit_instances.len();
        while k < n
            invariant
                0 <= k <= n,
                *store == s_mid,
                forall|j: int| 0 <= j < k ==> !p(#[trigger] cv[j]),
            decreases n - k,
        {
            if store.habit_instances[k].id == iid {
                proof {
                    lemma_first_match_idx_at(cv, p, k as int);
                    lemma_map_values_remove(store.habit_instances@, |c: HabitInstance| c@, k as int);
                    cv.remove_ensures(k as int);
                }
                store.habit_instances.remove(k);
                proof {
                    assert(store@ =~= unmark_transition(old(store)@, self.name@, now as int).0);
                }
                return Ok(true);
            }
            k += 1;
        }
        proof {
            lemma_first_match_idx_none(cv, p);
            let hid = set_today_witness_habit(old(store)@, self.name@);
            lemma_latest_props(cv, hid);
            assert(false);
        }
        Ok(false)
    }

    /// Mark this habit as completed at the current clock time: the behaviour
    /// of [`Habit::mark_habit_at`] at whatever instant the clock returned.
    pub fn mark_habit(&self, store: &mut Store) -> (r: Result<bool, Error>)
        requires
            old(store)@.inv(),
        ensures
            final(store)@.inv(),
            exists|now: int|
                #![trigger mark_transition(old(store)@, self.name@, now)]
                ({
                    let (s2, out) = mark_transition(old(store)@, self.name@, now);
                    final(store)@ == s2 && r == out
                }),
    {
        let now = current_timestamp();
        self.mark_habit_at(store, now)
    }

    /// Unmark this habit at the current clock time: the behaviour of
    /// [`Habit::unmark_habit_at`] at whatever instant the clock returned.
    pub fn unmark_habit(&self, store: &mut Store) -> (r: Result<bool, Error>)
        requires
            old(store)@.inv(),
        ensures
            final(store)@.inv(),
            exists|now: int|
                #![trigger unmark_transition(old(store)@, self.name@, now)]
                ({
                    let (s2, out) = unmark_transition(old(store)@, self.name@, now);
                    final(store)@ == s2 && r == out
                }),
    {
        let now = current_timestamp();
        self.unmark_habit_at(store, now)
    }

    /// Whether this habit has been completed today, judged at the current
    /// clock time: the behaviour of [`Habit::get_habit_set_today_at`] at
    /// whatever instant the clock returned.
    pub fn get_habit_set_today(&self, store: &mut Store) -> (r: Result<Option<i64>, Error>)
        requires
            old(store)@.inv(),
        ensures
            final(store)@.inv(),
            exists|now: int|
                #![trigger set_today_transition(old(store)@, self.name@, now)]
                ({
                    let (s2, out) = set_today_transition(old(store)@, self.name@, now);
                    final(store)@ == s2 && (match (r, out) {
                        (Ok(Some(id)), Ok(Some(idv))) => id as int == idv,
                        (Ok(None), Ok(None)) => true,
                        (Err(e1), Err(e2)) => e1 == e2,
                        _ => false,
                    })
                }),
    {
        let now = current_timestamp();
        self.get_habit_set_today_at(store, now)
    }
}

/// The habit identifier that the resolver inside [`set_today_transition`]
/// produces; a helper for stating which completion list is consulted.
spec fn set_today_witness_habit(s: StoreView, name: Seq<char>) -> int {
    let i = habit_idx(s.habits, name);
    if i >= 0 {
        s.habits[i].id
    } else {
        s.next_habit_id
    }
}

} // verus!
