use mindless::error::Error;
use mindless::instance::Instance;
use mindless::store::Store;
use mindless::task::Task;
use mindless::user::User;

static USERNAME: &str = "test_username";
static NAME: &str = "test_name";

static TASK_NAME: &str = "Exercise";

fn create_test_task(username: &str, name: &str, task_name: &str, store: &mut Store) -> Task {
    let user = User::insert(username, name, store).expect("Should successfully insert. ");

    let mut task = Task::new(0, user.get_id(), task_name.to_string());
    task.insert(store).expect("Should successfully insert. ");
    task
}

#[test]
fn test_get_instances() {
    let mut connection = Store::new();

    let task = create_test_task(USERNAME, NAME, TASK_NAME, &mut connection);

    let instance1 = Instance::insert(task.get_id(), &1, &2, &mut connection)
        .expect("Should successfully insert.");

    let instance2 = Instance::insert(task.get_id(), &100, &2123, &mut connection)
        .expect("Should successfully insert.");

    let instances =
        Instance::get_instances(task.get_id(), &connection).expect("Should get all tasks.");

    assert_eq!(instances.len(), 2);
    assert_eq!(instances[0].id, instance1.id);
    assert_eq!(instances[0].start, instance1.start);
    assert_eq!(instances[0].end, instance1.end);
    assert_eq!(instances[1].id, instance2.id);
    assert_eq!(instances[1].start, instance2.start);
    assert_eq!(instances[1].end, instance2.end);
}

#[test]
fn insert_duplicate_window_fails() {
    let mut store = Store::new();
    let task = create_test_task(USERNAME, NAME, TASK_NAME, &mut store);

    Instance::insert(task.get_id(), &10, &20, &mut store).expect("first window");
    assert_eq!(
        Instance::insert(task.get_id(), &10, &20, &mut store).expect_err("same window"),
        Error::AlreadyExists
    );
}

#[test]
fn try_insert_reuses_the_existing_row() {
    let mut store = Store::new();
    let task = create_test_task(USERNAME, NAME, TASK_NAME, &mut store);

    let first = Instance::insert(task.get_id(), &10, &20, &mut store).expect("insert");

    let mut probe = Instance::new(0, task.get_id(), 10, 20);
    probe.try_insert(&mut store).expect("try_insert resolves");
    assert_eq!(probe.id, first.id);

    let instances = Instance::get_instances(task.get_id(), &store).expect("instances");
    assert_eq!(instances.len(), 1);
}

#[test]
fn retrieve_and_find_instance() {
    let mut store = Store::new();
    let task = create_test_task(USERNAME, NAME, TASK_NAME, &mut store);

    let inserted = Instance::insert(task.get_id(), &5, &6, &mut store).expect("insert");

    let fetched = Instance::retrieve(inserted.id, &store).expect("by id");
    assert_eq!(fetched.start, 5);
    assert_eq!(fetched.end, 6);

    let mut probe = Instance::new(0, task.get_id(), 5, 6);
    probe.find(&store).expect("by natural key");
    assert_eq!(probe.id, inserted.id);

    assert_eq!(
        Instance::retrieve(777, &store).expect_err("missing id"),
        Error::NotFound
    );
}

#[test]
fn delete_instance_requires_exact_identity() {
    let mut store = Store::new();
    let task = create_test_task(USERNAME, NAME, TASK_NAME, &mut store);

    let inserted = Instance::insert(task.get_id(), &5, &6, &mut store).expect("insert");

    let imposter = Instance::new(inserted.id, task.get_id(), 5, 7);
    assert_eq!(
        imposter.delete(&mut store).expect_err("window does not match"),
        Error::NotFound
    );

    inserted.delete(&mut store).expect("exact identity deletes");
    assert_eq!(
        Instance::get_instances(task.get_id(), &store)
            .expect("instances")
            .len(),
        0
    );
}

#[test]
fn try_insert_all_returns_resolved_rows() {
    let mut store = Store::new();
    let task = create_test_task(USERNAME, NAME, TASK_NAME, &mut store);

    let seeded = Instance::insert(task.get_id(), &1, &2, &mut store).expect("seed");

    let batch = vec![
        Instance::new(0, task.get_id(), 1, 2),
        Instance::new(0, task.get_id(), 3, 4),
    ];
    let resolved = Instance::try_insert_all(batch, &mut store).expect("batch");

    assert_eq!(resolved.len(), 2);
    assert_eq!(resolved[0].id, seeded.id);
    assert!(resolved[1].id > 0);
    assert_eq!(
        Instance::get_instances(task.get_id(), &store)
            .expect("instances")
            .len(),
        2
    );
}
