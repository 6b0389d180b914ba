use mindless::error::Error;
use mindless::store::Store;
use mindless::task::Task;
use mindless::user::User;

static USERNAME: &str = "test_username";
static NAME: &str = "test_name";

static TASK_NAME: &str = "Exercise";

fn create_test_user(username: &str, name: &str, store: &mut Store) -> User {
    User::insert(username, name, store).expect("Should successfully insert. ")
}

#[test]
fn insert_task() {
    let mut connection = Store::new();

    let user = create_test_user(USERNAME, NAME, &mut connection);

    let mut task = Task::new(0, user.get_id(), TASK_NAME.to_string());
    task.insert(&mut connection).expect("Should successfully insert.");

    assert_eq!(task.name, TASK_NAME);
    assert_eq!(task.user_id, user.get_id());
}

#[test]
fn delete_task() {
    let mut connection = Store::new();

    let user = create_test_user(USERNAME, NAME, &mut connection);

    let mut task = Task::new(0, user.get_id(), TASK_NAME.to_string());
    task.insert(&mut connection).expect("Should successfully insert.");

    task.delete(&mut connection)
        .expect("Should be able to remove task.");
}

#[test]
fn get_tasks() {
    let mut connection = Store::new();

    let user = create_test_user(USERNAME, NAME, &mut connection);

    let mut task1 = Task::new(0, user.get_id(), TASK_NAME.to_string());
    task1.insert(&mut connection).expect("Should successfully insert.");

    let mut task2 = Task::new(0, user.get_id(), "second_task".to_string());
    task2.insert(&mut connection).expect("Should successfully insert.");

    let tasks = Task::get_tasks(&user, &connection).expect("Should get all tasks.");

    assert_eq!(tasks.len(), 2);
    assert_eq!(tasks[0].get_id(), task1.get_id());
    assert_eq!(tasks[0].user_id, task1.user_id);
    assert_eq!(tasks[0].name, task1.name);
    assert_eq!(tasks[1].get_id(), task2.get_id());
    assert_eq!(tasks[1].user_id, task2.user_id);
    assert_eq!(tasks[1].name, task2.name);
}

#[test]
fn insert_duplicate_task_fails() {
    let mut store = Store::new();
    let user = create_test_user(USERNAME, NAME, &mut store);

    let mut task = Task::new(0, user.get_id(), TASK_NAME.to_string());
    task.insert(&mut store).expect("first insert");

    let mut duplicate = Task::new(0, user.get_id(), TASK_NAME.to_string());
    assert_eq!(
        duplicate.insert(&mut store).expect_err("same natural key"),
        Error::AlreadyExists
    );
}

#[test]
fn try_insert_is_idempotent() {
    let mut store = Store::new();
    let user = create_test_user(USERNAME, NAME, &mut store);

    let mut first = Task::new(0, user.get_id(), TASK_NAME.to_string());
    first.try_insert(&mut store).expect("first try_insert");

    let mut second = Task::new(0, user.get_id(), TASK_NAME.to_string());
    second.try_insert(&mut store).expect("second try_insert");

    assert_eq!(first.get_id(), second.get_id());
    let tasks = Task::get_tasks(&user, &store).expect("tasks");
    assert_eq!(tasks.len(), 1);
}

#[test]
fn find_adopts_the_stored_id() {
    let mut store = Store::new();
    let user = create_test_user(USERNAME, NAME, &mut store);

    let mut task = Task::new(0, user.get_id(), TASK_NAME.to_string());
    task.insert(&mut store).expect("insert");

    let mut probe = Task::new(0, user.get_id(), TASK_NAME.to_string());
    probe.find(&store).expect("the key exists");
    assert_eq!(probe.get_id(), task.get_id());

    let mut missing = Task::new(0, user.get_id(), "unseen".to_string());
    assert_eq!(missing.find(&store).expect_err("no such key"), Error::NotFound);
}

#[test]
fn retrieve_task_by_id() {
    let mut store = Store::new();
    let user = create_test_user(USERNAME, NAME, &mut store);

    let mut task = Task::new(0, user.get_id(), TASK_NAME.to_string());
    task.insert(&mut store).expect("insert");

    let fetched = Task::retrieve(task.get_id(), &store).expect("exists");
    assert_eq!(fetched.name, TASK_NAME);
    assert_eq!(
        Task::retrieve(9999, &store).expect_err("missing id"),
        Error::NotFound
    );
}

#[test]
fn delete_requires_exact_identity() {
    let mut store = Store::new();
    let user = create_test_user(USERNAME, NAME, &mut store);

    let mut task = Task::new(0, user.get_id(), TASK_NAME.to_string());
    task.insert(&mut store).expect("insert");

    let imposter = Task::new(task.get_id(), user.get_id(), "other_name".to_string());
    assert_eq!(
        imposter.delete(&mut store).expect_err("name does not match"),
        Error::NotFound
    );

    task.delete(&mut store).expect("exact identity deletes");
}

#[test]
fn try_insert_all_resolves_every_id() {
    let mut store = Store::new();
    let user = create_test_user(USERNAME, NAME, &mut store);

    let mut existing = Task::new(0, user.get_id(), "walk".to_string());
    existing.try_insert(&mut store).expect("seed one task");

    let mut batch = vec![
        Task::new(0, user.get_id(), "walk".to_string()),
        Task::new(0, user.get_id(), "read".to_string()),
    ];
    Task::try_insert_all(&mut batch, &mut store).expect("batch insert");

    assert_eq!(batch[0].get_id(), existing.get_id());
    assert!(batch[1].get_id() > 0);

    let tasks = Task::get_tasks(&user, &store).expect("tasks");
    assert_eq!(tasks.len(), 2);
}
