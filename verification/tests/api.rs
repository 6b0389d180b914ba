use mindless::api;
use mindless::error::Error;
use mindless::instance::Instance;
use mindless::routes::{
    handle_habit_request, handle_user_request, HabitRequest, HabitResponse, UserAction,
    UserRequests,
};
use mindless::store::Store;
use mindless::task::Task;
use mindless::user::User;

/// Whether the request succeeded or failed.
fn habit_request(store: &mut Store, task: &str, mark: bool) -> bool {
    let request = HabitRequest::new(task.to_string(), mark);
    let response: HabitResponse =
        handle_habit_request(request, store).expect("habit requests do not fail");
    response.succeded
}

#[test]
fn test_habit() {
    let mut store = Store::new();

    test_single_user(&mut store);
    test_multiple_users(&mut store);
}

fn test_single_user(store: &mut Store) {
    let task_name = "Task";

    // Mark succeeds.
    assert!(habit_request(store, task_name, true));

    //// Second mark fails.
    assert!(!habit_request(store, task_name, true));

    //// Unmarking succeeds.
    assert!(habit_request(store, task_name, false));

    //// Second unmark fails.
    assert!(!habit_request(store, task_name, false));

    // Marking multiple habits.
    assert!(habit_request(store, "abc", true));
    assert!(habit_request(store, "zxc", true));
    assert!(habit_request(store, "Test habit!", true));

    // Unmark multiple habits.
    assert!(habit_request(store, "zxc", false));
    assert!(habit_request(store, "Test habit!", false));
    assert!(habit_request(store, "abc", false));
}

fn test_multiple_users(store: &mut Store) {
    let task_a = "task_a";
    let task_b = "task_b";

    assert!(habit_request(store, task_a, true));
    assert!(habit_request(store, task_b, true));
    assert!(!habit_request(store, task_b, true));
    assert!(!habit_request(store, task_a, true));

    assert!(habit_request(store, task_a, false));
    assert!(habit_request(store, task_b, false));
    assert!(!habit_request(store, task_b, false));
    assert!(!habit_request(store, task_a, false));
}

#[test]
fn end_to_end_two_users_share_the_habit_namespace() {
    let mut store = Store::new();

    // Two users exist side by side.
    assert!(handle_user_request(
        UserRequests { username: "alice".to_string(), action: UserAction::CREATE },
        &mut store,
    )
    .expect("create alice"));
    assert!(handle_user_request(
        UserRequests { username: "bob".to_string(), action: UserAction::CREATE },
        &mut store,
    )
    .expect("create bob"));

    // Alice marks "Exercise", marks again the same day, unmarks twice, and
    // marks a different habit.
    assert!(habit_request(&mut store, "Exercise", true));
    assert!(!habit_request(&mut store, "Exercise", true));
    assert!(habit_request(&mut store, "Exercise", false));
    assert!(!habit_request(&mut store, "Exercise", false));
    assert!(habit_request(&mut store, "Read", true));

    // Bob marks "Exercise" independently: habits are global by name in this
    // schema, not scoped to a user, so the unmarked habit is simply set
    // again.
    assert!(habit_request(&mut store, "Exercise", true));
}

#[test]
fn user_request_create_then_delete() {
    let mut store = Store::new();

    assert!(handle_user_request(
        UserRequests { username: "carol".to_string(), action: UserAction::CREATE },
        &mut store,
    )
    .expect("create"));

    // Deleting resolves the user first, removes the row, and reports true.
    assert!(handle_user_request(
        UserRequests { username: "carol".to_string(), action: UserAction::DELETE },
        &mut store,
    )
    .expect("delete"));

    assert_eq!(
        User::get("carol", &store).expect_err("the row is gone"),
        Error::NotFound
    );
}

#[test]
fn tagged_user_endpoint_create_update_delete() {
    let mut store = Store::new();

    let created = match api::user::user(
        api::user::Request::Create { username: "dave".to_string(), name: "Dave".to_string() },
        &mut store,
    )
    .expect("create")
    {
        api::user::Response::Create { user } => user,
        _ => panic!("expected a Create response"),
    };
    assert_eq!(created.username, "dave");

    let mut updated = User::new(created.get_id(), "dave".to_string(), "David".to_string());
    updated.set_name("David".to_string());
    match api::user::user(api::user::Request::Update { user: updated }, &mut store)
        .expect("update")
    {
        api::user::Response::Update { user } => assert_eq!(user.name, "David"),
        _ => panic!("expected an Update response"),
    }
    assert_eq!(
        User::retrieve(created.get_id(), &store).expect("still there").name,
        "David"
    );

    match api::user::user(api::user::Request::Delete { id: created.get_id() }, &mut store)
        .expect("delete")
    {
        api::user::Response::Delete => {},
        _ => panic!("expected a Delete response"),
    }
    assert_eq!(
        User::retrieve(created.get_id(), &store).expect_err("gone"),
        Error::NotFound
    );
}

#[test]
fn tagged_user_endpoint_rejects_duplicates_and_unknown_ids() {
    let mut store = Store::new();

    api::user::user(
        api::user::Request::Create { username: "erin".to_string(), name: "Erin".to_string() },
        &mut store,
    )
    .expect("create");

    let duplicate = api::user::user(
        api::user::Request::Create { username: "erin".to_string(), name: "Other".to_string() },
        &mut store,
    );
    assert!(matches!(duplicate, Err(Error::AlreadyExists)));

    let missing = api::user::user(api::user::Request::Delete { id: 999 }, &mut store);
    assert!(matches!(missing, Err(Error::NotFound)));
}

#[test]
fn tagged_task_endpoint_round_trips_a_batch() {
    let mut store = Store::new();

    let user = User::insert("frank", "Frank", &mut store).expect("user");

    let batch = vec![
        (
            Task::new(0, user.get_id(), "swim".to_string()),
            vec![Instance::new(0, 0, 10, 20), Instance::new(0, 0, 30, 40)],
        ),
        (Task::new(0, user.get_id(), "stretch".to_string()), vec![]),
    ];

    let inserted = match api::task::task(api::task::Request::InsertAll { tasks: batch }, &mut store)
        .expect("insert batch")
    {
        api::task::Response::InsertAll { tasks } => tasks,
        _ => panic!("expected an InsertAll response"),
    };
    assert_eq!(inserted.len(), 2);
    let swim_id = inserted[0].0.get_id();
    assert!(swim_id > 0);
    // The instances were pointed at the resolved task.
    assert_eq!(inserted[0].1.len(), 2);
    assert_eq!(inserted[0].1[0].task_id, swim_id);
    assert_eq!(inserted[0].1[1].task_id, swim_id);

    let retrieved = match api::task::task(
        api::task::Request::RetrieveAll { user_id: user.get_id() },
        &mut store,
    )
    .expect("retrieve")
    {
        api::task::Response::RetrieveAll { tasks } => tasks,
        _ => panic!("expected a RetrieveAll response"),
    };
    assert_eq!(retrieved.len(), 2);
    assert_eq!(retrieved[0].0.name, "swim");
    assert_eq!(retrieved[0].1.len(), 2);
    assert_eq!(retrieved[0].1[0].start, 10);
    assert_eq!(retrieved[0].1[1].end, 40);
    assert_eq!(retrieved[1].0.name, "stretch");
    assert_eq!(retrieved[1].1.len(), 0);
}

#[test]
fn tagged_task_endpoint_insert_is_idempotent() {
    let mut store = Store::new();
    let user = User::insert("grace", "Grace", &mut store).expect("user");

    let make_batch = |uid: i64| vec![(Task::new(0, uid, "swim".to_string()), vec![Instance::new(0, 0, 10, 20)])];

    let first = match api::task::task(
        api::task::Request::InsertAll { tasks: make_batch(user.get_id()) },
        &mut store,
    )
    .expect("first")
    {
        api::task::Response::InsertAll { tasks } => tasks,
        _ => panic!("expected an InsertAll response"),
    };
    let second = match api::task::task(
        api::task::Request::InsertAll { tasks: make_batch(user.get_id()) },
        &mut store,
    )
    .expect("second")
    {
        api::task::Response::InsertAll { tasks } => tasks,
        _ => panic!("expected an InsertAll response"),
    };
    assert_eq!(first[0].0.get_id(), second[0].0.get_id());
    assert_eq!(first[0].1[0].id, second[0].1[0].id);
}

#[test]
fn retrieve_all_for_an_unknown_user_is_not_found() {
    let mut store = Store::new();
    let result = api::task::task(api::task::Request::RetrieveAll { user_id: 5 }, &mut store);
    assert!(matches!(result, Err(Error::NotFound)));
}
