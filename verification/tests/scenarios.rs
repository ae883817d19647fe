use sqliter::{ConnectionBuilder, ConnectionBuilderError};

fn users_table(conn: &rusqlite::Connection) -> Result<(), rusqlite::Error> {
    conn.execute_batch(
        "
        CREATE TABLE users (
            id INTEGER PRIMARY KEY NOT NULL,
            name TEXT NOT NULL
        ) STRICT;

        INSERT INTO users VALUES (1, 'James');
        INSERT INTO users VALUES (2, 'Bob');
        ",
    )?;
    Ok(())
}

fn data_table(conn: &rusqlite::Connection) -> Result<(), rusqlite::Error> {
    conn.execute_batch(
        "
        CREATE TABLE data (
            owner INTEGER NOT NULL,
            text TEXT NOT NULL,

            FOREIGN KEY(owner) REFERENCES users(id)
        ) STRICT;

        INSERT INTO data VALUES (1, 'James data');
    ",
    )
}

fn garbage(conn: &rusqlite::Connection) -> Result<(), rusqlite::Error> {
    conn.execute("SOME GARBAGE", [])?;
    Ok(())
}

fn get_app_id(conn: &rusqlite::Connection) -> i32 {
    conn.query_row("SELECT * from pragma_application_id", [], |row| row.get(0))
        .unwrap()
}

fn get_user_version_rusqlite(conn: &rusqlite::Connection) -> i32 {
    conn.pragma_query_value(None, "user_version", |row| row.get(0))
        .expect("user_version expected")
}

fn table_exists(conn: &rusqlite::Connection, name: &str) -> bool {
    let count: i32 = conn
        .query_row(
            "SELECT count(*) FROM sqlite_master WHERE type = 'table' AND name = ?1",
            [name],
            |row| row.get(0),
        )
        .unwrap();
    count == 1
}

#[test]
fn migration_is_applied() {
    let conn = ConnectionBuilder::new()
        .add_migration(7, users_table)
        .open_in_memory()
        .unwrap();

    // version should align:
    assert_eq!(get_user_version_rusqlite(&conn), 7);

    // table should be accessible and contain what the migration added:
    let name: String = conn
        .query_row("SELECT name FROM users WHERE id = 1", [], |row| row.get(0))
        .unwrap();
    assert_eq!(name, "James");
}

#[test]
fn new_migrations_applied_as_needed() {
    let tempdir = tempfile::tempdir().unwrap();
    let path = tempdir.path().join("test-db1.app");
    let path = path.to_str().unwrap();

    // open first time with 1 migration:
    let conn = ConnectionBuilder::new()
        .add_migration(1, users_table)
        .open(path)
        .unwrap();

    assert_eq!(get_user_version_rusqlite(&conn), 1);
    drop(conn);

    // open again with 2 migrations:
    let conn = ConnectionBuilder::new()
        .add_migration(1, users_table)
        .add_migration(2, data_table)
        .open(path)
        .unwrap();

    assert_eq!(get_user_version_rusqlite(&conn), 2);

    // Ensure both migrations applied:
    let id: i32 = conn
        .query_row(
            "
            SELECT users.id FROM data JOIN users ON data.owner = users.id
            WHERE data.text = 'James data';
        ",
            [],
            |row| row.get(0),
        )
        .unwrap();
    assert_eq!(id, 1);
}

#[test]
fn app_id_is_set_and_used() {
    let tempdir = tempfile::tempdir().unwrap();
    let path = tempdir.path().join("test-db2.app");
    let path = path.to_str().unwrap();

    const APP_ID: i32 = 12345;
    const DIFFERENT_APP_ID: i32 = 76543;

    // Should be no issues on initial opening:
    let conn = ConnectionBuilder::new()
        .app_id(APP_ID)
        .add_migration(1, users_table)
        .open(path)
        .expect("can open db");

    assert_eq!(get_app_id(&conn), APP_ID);
    drop(conn);

    // Open again with same app ID should work:
    let conn = ConnectionBuilder::new()
        .app_id(APP_ID)
        .add_migration(1, users_table)
        .open(path)
        .expect("can open db");

    assert_eq!(get_app_id(&conn), APP_ID);
    drop(conn);

    // Open again with different app ID should fail:
    let conn = ConnectionBuilder::new()
        .app_id(DIFFERENT_APP_ID)
        .add_migration(1, users_table)
        .open(path);

    assert!(matches!(
        conn,
        Err(ConnectionBuilderError::WrongApplicationId(APP_ID))
    ));
}

#[test]
fn older_migrations_wont_work() {
    let tempdir = tempfile::tempdir().unwrap();
    let path = tempdir.path().join("test-db1.app");
    let path = path.to_str().unwrap();

    // open with 2 migrations:
    let conn = ConnectionBuilder::new()
        .add_migration(1, users_table)
        .add_migration(2, data_table)
        .open(path)
        .unwrap();

    drop(conn);

    // open again with just one migration. This could happen
    // if eg older software tries opening newer db.
    let conn = ConnectionBuilder::new()
        .add_migration(1, users_table)
        .open(path);

    assert!(matches!(
        conn,
        Err(ConnectionBuilderError::OutOfDate {
            db_version: 2,
            latest_migration: 1
        })
    ));
}

#[test]
fn migrations_applied_up_to_broken_one() {
    let tempdir = tempfile::tempdir().unwrap();
    let path = tempdir.path().join("test-db1.app");
    let path = path.to_str().unwrap();

    // open with 1 valid migrations:
    let conn = ConnectionBuilder::new()
        .add_migration(1, users_table)
        .open(path)
        .unwrap();

    drop(conn);

    // open again with another 2 migrations, 1 valid
    // and 1 broken.
    let conn = ConnectionBuilder::new()
        .add_migration(1, users_table)
        .add_migration(2, data_table)
        .add_migration(3, garbage)
        .open(path);

    assert!(matches!(conn, Err(ConnectionBuilderError::Migration(_))));
    drop(conn);

    // The valid migration shares a transaction with the broken one, so that
    // the file is where it was before: at the version of the first open.
    let conn = rusqlite::Connection::open(path).unwrap();
    assert_eq!(get_user_version_rusqlite(&conn), 1);
    assert!(!table_exists(&conn, "data"));
    drop(conn);

    // Opening db with valid migrations set should be fine:
    let conn = ConnectionBuilder::new()
        .add_migration(1, users_table)
        .add_migration(2, data_table)
        .open(path)
        .unwrap();

    let data_call = conn.query_row("SELECT count(*) FROM data", [], |_| Ok(()));
    assert!(data_call.is_ok());
}

#[test]
fn non_transactional_migration_can_be_applied() {
    let tempdir = tempfile::tempdir().unwrap();
    let path = tempdir.path().join("test-db1.app");
    let path = path.to_str().unwrap();

    let conn = ConnectionBuilder::new()
        .add_migration_non_transactionally(1, |conn: &rusqlite::Connection| {
            // Deliberately error after adding some bits to the db:
            users_table(conn).expect("should work");
            Err(rusqlite::Error::InvalidQuery)
        })
        .open(path);

    assert!(matches!(conn, Err(ConnectionBuilderError::Migration(_))));
    drop(conn);

    // Check that user version was not updated:
    let conn = rusqlite::Connection::open(path).unwrap();
    assert_eq!(get_user_version_rusqlite(&conn), 0);

    // But, users table should be accessible and contain what the failed migration
    // added, since it wasn't in a transaction and thus wasnt rolled back.
    let name: String = conn
        .query_row("SELECT name FROM users WHERE id = 1", [], |row| row.get(0))
        .unwrap();
    assert_eq!(name, "James");
}

fn create_user(conn: &rusqlite::Connection) -> Result<(), rusqlite::Error> {
    conn.execute("CREATE TABLE user ( id INTEGER PRIMARY KEY )", ())
        .map(|_| ())
}

fn add_user_name(conn: &rusqlite::Connection) -> Result<(), rusqlite::Error> {
    conn.execute(
        "ALTER TABLE user ADD COLUMN name TEXT NOT NULL DEFAULT 'Unknown'",
        (),
    )
    .map(|_| ())
}

#[test]
fn first_migration_creates_an_empty_table() {
    let conn = ConnectionBuilder::new()
        .add_migration(1, create_user)
        .open_in_memory()
        .unwrap();

    assert_eq!(get_user_version_rusqlite(&conn), 1);
    assert!(table_exists(&conn, "user"));
    let rows: i32 = conn
        .query_row("SELECT count(*) FROM user", [], |row| row.get(0))
        .unwrap();
    assert_eq!(rows, 0);
}

#[test]
fn later_migration_keeps_existing_rows() {
    let tempdir = tempfile::tempdir().unwrap();
    let path = tempdir.path().join("users.app");
    let path = path.to_str().unwrap();

    let conn = ConnectionBuilder::new()
        .add_migration(1, create_user)
        .open(path)
        .unwrap();
    conn.execute("INSERT INTO user (id) VALUES (4)", ()).unwrap();
    drop(conn);

    let conn = ConnectionBuilder::new()
        .add_migration(1, create_user)
        .add_migration(2, add_user_name)
        .open(path)
        .unwrap();

    assert_eq!(get_user_version_rusqlite(&conn), 2);
    let name: String = conn
        .query_row("SELECT name FROM user WHERE id = 4", [], |row| row.get(0))
        .unwrap();
    assert_eq!(name, "Unknown");
}

#[test]
fn broken_migration_leaves_the_file_as_it_was() {
    let tempdir = tempfile::tempdir().unwrap();
    let path = tempdir.path().join("users.app");
    let path = path.to_str().unwrap();

    let conn = ConnectionBuilder::new()
        .add_migration(1, users_table)
        .add_migration(2, data_table)
        .open(path)
        .unwrap();
    drop(conn);

    let conn = ConnectionBuilder::new()
        .add_migration(1, users_table)
        .add_migration(2, data_table)
        .add_migration(3, garbage)
        .open(path);
    assert!(matches!(conn, Err(ConnectionBuilderError::Migration(_))));
    drop(conn);

    let conn = rusqlite::Connection::open(path).unwrap();
    assert_eq!(get_user_version_rusqlite(&conn), 2);
    let name: String = conn
        .query_row("SELECT name FROM users WHERE id = 2", [], |row| row.get(0))
        .unwrap();
    assert_eq!(name, "Bob");
    let text: String = conn
        .query_row("SELECT text FROM data WHERE owner = 1", [], |row| row.get(0))
        .unwrap();
    assert_eq!(text, "James data");
}

#[test]
fn failed_transaction_undoes_earlier_statements() {
    let tempdir = tempfile::tempdir().unwrap();
    let path = tempdir.path().join("users.app");
    let path = path.to_str().unwrap();

    // The procedure writes rows and then fails.
    let conn = ConnectionBuilder::new()
        .add_migration(1, |conn: &rusqlite::Connection| {
            users_table(conn)?;
            Err(rusqlite::Error::InvalidQuery)
        })
        .open(path);
    assert!(matches!(
        conn,
        Err(ConnectionBuilderError::Migration(rusqlite::Error::InvalidQuery))
    ));
    drop(conn);

    let conn = rusqlite::Connection::open(path).unwrap();
    assert_eq!(get_user_version_rusqlite(&conn), 0);
    assert!(!table_exists(&conn, "users"));
}

#[test]
fn reopening_applies_nothing() {
    let tempdir = tempfile::tempdir().unwrap();
    let path = tempdir.path().join("users.app");
    let path = path.to_str().unwrap();

    let conn = ConnectionBuilder::new()
        .app_id(9)
        .add_migration(1, users_table)
        .add_migration(5, data_table)
        .open(path)
        .unwrap();
    assert_eq!(get_user_version_rusqlite(&conn), 5);
    drop(conn);

    // Either procedure would fail if it ran again: the tables exist.
    let conn = ConnectionBuilder::new()
        .app_id(9)
        .add_migration(1, users_table)
        .add_migration(5, data_table)
        .open(path)
        .unwrap();
    assert_eq!(get_user_version_rusqlite(&conn), 5);
    assert_eq!(get_app_id(&conn), 9);
    let rows: i32 = conn
        .query_row("SELECT count(*) FROM users", [], |row| row.get(0))
        .unwrap();
    assert_eq!(rows, 2);
}

#[test]
fn wrong_application_id_runs_no_migration() {
    let tempdir = tempfile::tempdir().unwrap();
    let path = tempdir.path().join("users.app");
    let path = path.to_str().unwrap();

    let conn = ConnectionBuilder::new()
        .app_id(11)
        .add_migration(1, users_table)
        .open(path)
        .unwrap();
    drop(conn);

    let conn = ConnectionBuilder::new()
        .app_id(12)
        .add_migration(1, users_table)
        .add_migration(2, data_table)
        .open(path);
    assert!(matches!(
        conn,
        Err(ConnectionBuilderError::WrongApplicationId(11))
    ));
    drop(conn);

    let conn = rusqlite::Connection::open(path).unwrap();
    assert_eq!(get_app_id(&conn), 11);
    assert_eq!(get_user_version_rusqlite(&conn), 1);
    assert!(!table_exists(&conn, "data"));
}

#[test]
fn out_of_date_file_is_not_changed() {
    let tempdir = tempfile::tempdir().unwrap();
    let path = tempdir.path().join("users.app");
    let path = path.to_str().unwrap();

    let conn = ConnectionBuilder::new()
        .add_migration(1, users_table)
        .add_migration(4, data_table)
        .open(path)
        .unwrap();
    drop(conn);

    // Nothing registered at all: the highest version known is 0.
    let conn = ConnectionBuilder::<rusqlite::Error>::new().open(path);
    assert!(matches!(
        conn,
        Err(ConnectionBuilderError::OutOfDate {
            db_version: 4,
            latest_migration: 0
        })
    ));
    drop(conn);

    let conn = rusqlite::Connection::open(path).unwrap();
    assert_eq!(get_user_version_rusqlite(&conn), 4);
    assert!(table_exists(&conn, "data"));
}

#[test]
fn existing_file_is_not_taken_for_new() {
    let tempdir = tempfile::tempdir().unwrap();
    let path = tempdir.path().join("foreign.db");
    let path = path.to_str().unwrap();

    // A database that something else made; its application ID is 0.
    let conn = rusqlite::Connection::open(path).unwrap();
    conn.execute("CREATE TABLE t ( id INTEGER PRIMARY KEY )", ())
        .unwrap();
    drop(conn);

    let conn = ConnectionBuilder::new()
        .app_id(77)
        .add_migration(1, users_table)
        .open(path);
    assert!(matches!(
        conn,
        Err(ConnectionBuilderError::WrongApplicationId(0))
    ));
    drop(conn);

    let conn = rusqlite::Connection::open(path).unwrap();
    assert_eq!(get_app_id(&conn), 0);
    assert!(!table_exists(&conn, "users"));
}

#[test]
fn file_that_cannot_be_created_is_a_database_error() {
    let tempdir = tempfile::tempdir().unwrap();
    let path = tempdir.path().join("no-such-directory").join("users.app");
    let path = path.to_str().unwrap();

    let conn = ConnectionBuilder::new()
        .add_migration(1, users_table)
        .open(path);
    assert!(matches!(conn, Err(ConnectionBuilderError::Db(_))));
}

#[test]
fn new_file_gets_the_application_id() {
    let tempdir = tempfile::tempdir().unwrap();
    let path = tempdir.path().join("stamped.app");
    let path = path.to_str().unwrap();

    let conn = ConnectionBuilder::<rusqlite::Error>::new()
        .app_id(1337)
        .open(path)
        .unwrap();
    assert_eq!(get_app_id(&conn), 1337);
    assert_eq!(get_user_version_rusqlite(&conn), 0);
}

#[test]
fn foreign_keys_are_enforced_unless_switched_off() {
    let conn = ConnectionBuilder::<rusqlite::Error>::new()
        .open_in_memory()
        .unwrap();
    let on: i32 = conn
        .query_row("SELECT * FROM pragma_foreign_keys", [], |row| row.get(0))
        .unwrap();
    assert_eq!(on, 1);

    let conn = ConnectionBuilder::<rusqlite::Error>::new()
        .enforce_foreign_keys(false)
        .open_in_memory()
        .unwrap();
    let on: i32 = conn
        .query_row("SELECT * FROM pragma_foreign_keys", [], |row| row.get(0))
        .unwrap();
    assert_eq!(on, 0);
}

#[test]
fn setup_of_an_open_connection() {
    let mut conn = rusqlite::Connection::open_in_memory().unwrap();
    ConnectionBuilder::new()
        .app_id(3)
        .add_migration(2, users_table)
        .setup(&mut conn, true)
        .unwrap();
    assert_eq!(get_app_id(&conn), 3);
    assert_eq!(get_user_version_rusqlite(&conn), 2);

    // The same connection, now as one to an existing database.
    let again = ConnectionBuilder::new()
        .app_id(4)
        .add_migration(2, users_table)
        .setup(&mut conn, false);
    assert!(matches!(
        again,
        Err(ConnectionBuilderError::WrongApplicationId(3))
    ));
}

#[test]
fn migrations_run_in_order_of_version() {
    // Registered out of order: the table that `data` refers to comes first
    // all the same.
    let conn = ConnectionBuilder::new()
        .add_migration(2, data_table)
        .add_migration(1, users_table)
        .open_in_memory()
        .unwrap();
    assert_eq!(get_user_version_rusqlite(&conn), 2);
    let text: String = conn
        .query_row("SELECT text FROM data WHERE owner = 1", [], |row| row.get(0))
        .unwrap();
    assert_eq!(text, "James data");
}

#[test]
fn transaction_before_a_standalone_migration_is_kept() {
    let tempdir = tempfile::tempdir().unwrap();
    let path = tempdir.path().join("mixed.app");
    let path = path.to_str().unwrap();

    let conn = ConnectionBuilder::new()
        .add_migration(1, users_table)
        .add_migration_non_transactionally(2, |conn: &rusqlite::Connection| {
            data_table(conn)?;
            Err(rusqlite::Error::InvalidQuery)
        })
        .add_migration(3, garbage)
        .open(path);
    assert!(matches!(
        conn,
        Err(ConnectionBuilderError::Migration(rusqlite::Error::InvalidQuery))
    ));
    drop(conn);

    // Migration 1 was committed before migration 2 ran outside a
    // transaction; what migration 2 did before it failed is there too.
    let conn = rusqlite::Connection::open(path).unwrap();
    assert_eq!(get_user_version_rusqlite(&conn), 1);
    assert!(table_exists(&conn, "users"));
    assert!(table_exists(&conn, "data"));
}

#[test]
fn standalone_migration_before_a_failed_transaction_is_kept() {
    let tempdir = tempfile::tempdir().unwrap();
    let path = tempdir.path().join("mixed.app");
    let path = path.to_str().unwrap();

    let conn = ConnectionBuilder::new()
        .add_migration_non_transactionally(1, users_table)
        .add_migration(2, data_table)
        .add_migration(3, garbage)
        .open(path);
    assert!(matches!(conn, Err(ConnectionBuilderError::Migration(_))));
    drop(conn);

    let conn = rusqlite::Connection::open(path).unwrap();
    assert_eq!(get_user_version_rusqlite(&conn), 1);
    assert!(table_exists(&conn, "users"));
    assert!(!table_exists(&conn, "data"));
}

#[test]
fn standalone_migrations_record_their_versions() {
    let conn = ConnectionBuilder::new()
        .add_migration_non_transactionally(1, users_table)
        .add_migration(2, data_table)
        .add_migration_non_transactionally(6, |conn: &rusqlite::Connection| {
            conn.pragma_update(None, "foreign_keys", false)
        })
        .open_in_memory()
        .unwrap();
    assert_eq!(get_user_version_rusqlite(&conn), 6);
    // The last migration ran outside any transaction, where the switch works.
    let on: i32 = conn
        .query_row("SELECT * FROM pragma_foreign_keys", [], |row| row.get(0))
        .unwrap();
    assert_eq!(on, 0);
}

#[test]
fn caller_defined_failure_is_handed_on() {
    let conn = ConnectionBuilder::<String>::new()
        .add_migration(1, |_conn: &rusqlite::Connection| Err(String::from("no")))
        .open_in_memory();
    match conn {
        Err(ConnectionBuilderError::Migration(reason)) => assert_eq!(reason, "no"),
        _ => panic!("expected the migration's failure"),
    }
}
