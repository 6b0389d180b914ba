use mindless::error::Error;
use mindless::habit::Habit;
use mindless::store::Store;

const NOON: i64 = 1_600_000_000;
const DAY: i64 = 86_400;

fn habit(name: &str) -> Habit {
    Habit { name: name.to_string() }
}

#[test]
fn first_mark_succeeds_second_is_a_no_op() {
    let mut store = Store::new();
    let exercise = habit("Exercise");

    assert!(exercise.mark_habit_at(&mut store, NOON).expect("mark"));
    assert!(!exercise.mark_habit_at(&mut store, NOON + 100).expect("mark again"));
    assert!(!exercise.mark_habit_at(&mut store, NOON).expect("mark at the same instant"));
}

#[test]
fn unmark_set_habit_then_unmark_again() {
    let mut store = Store::new();
    let exercise = habit("Exercise");

    assert!(exercise.mark_habit_at(&mut store, NOON).expect("mark"));
    assert!(exercise.unmark_habit_at(&mut store, NOON + 100).expect("unmark"));
    assert!(!exercise.unmark_habit_at(&mut store, NOON + 100).expect("unmark again"));
}

#[test]
fn unmark_before_any_mark_is_a_no_op() {
    let mut store = Store::new();
    let exercise = habit("Exercise");

    assert!(!exercise.unmark_habit_at(&mut store, NOON).expect("nothing to unmark"));
}

#[test]
fn round_trip_mark_unmark_mark() {
    let mut store = Store::new();
    let exercise = habit("Exercise");

    assert!(exercise.mark_habit_at(&mut store, NOON).expect("mark"));
    assert!(exercise.unmark_habit_at(&mut store, NOON + 50).expect("unmark"));
    assert!(exercise.mark_habit_at(&mut store, NOON + 100).expect("mark again"));

    // No residual duplicates: a single unmark clears the habit again.
    assert!(exercise.unmark_habit_at(&mut store, NOON + 150).expect("unmark clears"));
    assert!(!exercise.unmark_habit_at(&mut store, NOON + 200).expect("nothing left"));
}

#[test]
fn day_boundary_is_a_whole_day_of_seconds() {
    let mut store = Store::new();
    let exercise = habit("Exercise");

    assert!(exercise.mark_habit_at(&mut store, NOON).expect("mark"));
    // One second short of a whole day still counts as the same day.
    assert!(!exercise.mark_habit_at(&mut store, NOON + DAY - 1).expect("same day"));
    // A whole day later the habit counts as unset and is marked anew.
    assert!(exercise.mark_habit_at(&mut store, NOON + DAY).expect("next day"));
}

#[test]
fn clock_skew_counts_as_not_set() {
    let mut store = Store::new();
    let exercise = habit("Exercise");

    assert!(exercise.mark_habit_at(&mut store, NOON).expect("mark"));
    // A little skew backwards still lands within day zero.
    assert!(!exercise.mark_habit_at(&mut store, NOON - DAY + 1).expect("same day backwards"));
    // A whole day backwards does not, so the habit is marked again.
    assert!(exercise.mark_habit_at(&mut store, NOON - DAY).expect("negative whole day"));
}

#[test]
fn get_habit_set_today_reports_the_completion() {
    let mut store = Store::new();
    let exercise = habit("Exercise");

    assert_eq!(
        exercise.get_habit_set_today_at(&mut store, NOON).expect("creates the habit"),
        None
    );
    assert!(exercise.mark_habit_at(&mut store, NOON).expect("mark"));
    let id = exercise
        .get_habit_set_today_at(&mut store, NOON + 10)
        .expect("query")
        .expect("set today");
    assert!(id > 0);
    assert_eq!(
        exercise.get_habit_set_today_at(&mut store, NOON + 2 * DAY).expect("query"),
        None
    );
}

#[test]
fn get_id_or_create_is_idempotent() {
    let mut store = Store::new();
    let exercise = habit("Exercise");

    let first = exercise.get_id_or_create(&mut store).expect("created");
    let second = exercise.get_id_or_create(&mut store).expect("resolved");
    assert_eq!(first, second);
    assert_eq!(exercise.get_id(&store).expect("lookup"), Some(first));
}

#[test]
fn create_habit_rejects_a_duplicate_name() {
    let mut store = Store::new();
    let exercise = habit("Exercise");

    exercise.create_habit(&mut store).expect("created");
    assert_eq!(
        exercise.create_habit(&mut store).expect_err("already exists"),
        Error::AlreadyExists
    );
}

#[test]
fn get_id_of_unknown_habit_is_none() {
    let store = Store::new();
    assert_eq!(habit("Unseen").get_id(&store).expect("lookup"), None);
}

#[test]
fn habits_are_independent() {
    let mut store = Store::new();
    let read = habit("Read");
    let exercise = habit("Exercise");

    assert!(read.mark_habit_at(&mut store, NOON).expect("mark Read"));
    assert!(exercise.mark_habit_at(&mut store, NOON).expect("Exercise is separate"));
    assert!(read.unmark_habit_at(&mut store, NOON).expect("unmark Read"));
    assert!(exercise.unmark_habit_at(&mut store, NOON + 10).expect("Exercise is still set"));
}

#[test]
fn marking_with_the_clock_is_a_same_day_no_op_when_repeated() {
    let mut store = Store::new();
    let exercise = habit("Exercise");

    // Two clock readings a few milliseconds apart always land on the same
    // day-count, so the second mark reports a no-op.
    assert!(exercise.mark_habit(&mut store).expect("mark with the clock"));
    assert!(!exercise.mark_habit(&mut store).expect("already set today"));
    assert!(exercise.unmark_habit(&mut store).expect("unmark with the clock"));
    assert!(!exercise.unmark_habit(&mut store).expect("already unset"));
    assert_eq!(
        exercise.get_habit_set_today(&mut store).expect("query with the clock"),
        None
    );
}

#[test]
fn mark_reports_store_exhaustion() {
    let mut store = Store::new();
    store.next_habit_instance_id = i64::MAX;

    assert_eq!(
        habit("Exercise").mark_habit_at(&mut store, NOON).expect_err("no identifiers left"),
        Error::UnknownStore
    );
}
