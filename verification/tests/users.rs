use mindless::error::Error;
use mindless::store::Store;
use mindless::user::User;

#[test]
fn create_user() {
    let mut connection = Store::new();

    let username = "justin_username";
    let name = "Justin";
    let result =
        User::insert(username, name, &mut connection).expect("Should successfully insert. ");

    assert_eq!(result.username, username);
    assert_eq!(result.name, name);
}

#[test]
fn fail_if_already_exists() {
    let mut connection = Store::new();

    let username = "duplicate_username";
    let name = "DuplicateUser";
    let result =
        User::insert(username, name, &mut connection).expect("Should successfully insert.");
    assert_eq!(result.username, username);
    assert_eq!(result.name, name);

    let result = User::insert(username, name, &mut connection);

    assert_eq!(
        result.expect_err("Should have failed due to duplication."),
        Error::AlreadyExists
    );
}

#[test]
fn delete_user() {
    let mut connection = Store::new();

    let username = "JustinUserName";
    let name = "Justin";
    let user =
        User::insert(username, name, &mut connection).expect("Should successfully insert. ");

    user.delete(&mut connection)
        .expect("Can delete newly added user.");
}

#[test]
fn fail_delete_non_existent_user() {
    let mut connection = Store::new();

    let user = User::new(123, "hello".to_string(), "justin".to_string());

    let result = user.delete(&mut connection);

    assert_eq!(
        result.expect_err("Should fail due to not existing."),
        Error::NotFound
    );
}

#[test]
fn update_user() {
    let mut connection = Store::new();

    let username = "Justin";
    let name = "name";
    let mut user =
        User::insert(username, name, &mut connection).expect("Should successfully insert. ");
    assert_eq!(user.username, username);
    assert_eq!(user.name, name);

    let new_username = "James";
    let new_name = "Foo";
    user.set_username(new_username.to_string());
    user.set_name(new_name.to_string());

    user.update(&mut connection).expect("Update should succeed.");

    // Try to extract the updated user.
    let new_user = User::retrieve(user.get_id(), &connection).expect("User should exist.");
    assert_eq!(new_user.username, new_username);
    assert_eq!(new_user.name, new_name);

    // Can insert the original user again.
    User::insert(username, name, &mut connection)
        .expect("Should successfully insert since username has changed.");
}

#[test]
fn retrieve_user() {
    let mut connection = Store::new();

    let username = "Justin";
    let name = "name";
    let result =
        User::insert(username, name, &mut connection).expect("Should successfully insert. ");
    assert_eq!(result.username, username);
    assert_eq!(result.name, name);

    let id = result.get_id();

    let user =
        User::retrieve(id, &connection).expect("Should be able to retrieve just inserted user.");
    assert_eq!(user.username, username);
    assert_eq!(user.name, name);
}

#[test]
fn fail_to_retrieve_user() {
    let connection = Store::new();

    let result = User::retrieve(123584, &connection);
    assert_eq!(
        result.expect_err("Should not be able to retrieve invalid id"),
        Error::NotFound
    );
}

#[test]
fn update_refuses_stolen_username() {
    let mut store = Store::new();

    User::insert("first", "First", &mut store).expect("insert first");
    let mut second = User::insert("second", "Second", &mut store).expect("insert second");

    second.set_username("first".to_string());
    assert_eq!(
        second.update(&mut store).expect_err("username is taken"),
        Error::AlreadyExists
    );

    // The first user is untouched.
    let first = User::get("first", &store).expect("first still there");
    assert_eq!(first.name, "First");
}

#[test]
fn update_of_missing_id_is_a_no_op() {
    let mut store = Store::new();

    let ghost_user = User::new(42, "nobody".to_string(), "Nobody".to_string());
    ghost_user
        .update(&mut store)
        .expect("updating zero rows succeeds");
    assert_eq!(
        User::retrieve(42, &store).expect_err("nothing was created"),
        Error::NotFound
    );
}

#[test]
fn resolve_or_create_is_idempotent() {
    let mut store = Store::new();

    let first = User::resolve_or_create("carol", "Carol", &mut store).expect("created");
    let second = User::resolve_or_create("carol", "Someone Else", &mut store).expect("resolved");

    assert_eq!(first.get_id(), second.get_id());
    // The existing row wins: the second display name is ignored.
    assert_eq!(second.name, "Carol");
}

#[test]
fn insert_reports_store_exhaustion() {
    let mut store = Store::new();
    store.next_user_id = i64::MAX;

    assert_eq!(
        User::insert("alice", "Alice", &mut store).expect_err("identifier space is full"),
        Error::UnknownStore
    );
}

#[test]
fn error_messages_name_the_variant() {
    assert_eq!(Error::AlreadyExists.message(), "AlreadyExists");
    assert_eq!(Error::NotFound.message(), "NotFound");
    assert_eq!(Error::UnknownStore.message(), "UnknownStore");
}
