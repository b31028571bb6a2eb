use gradebook::crud::{get_classes, get_students, insert_class, insert_student};
use gradebook::store::{Database, CURRENT_SCHEMA_VERSION};

fn migrated() -> Database {
    let mut db = Database::new();
    db.run_migrations().expect("migrating an empty store succeeds");
    db
}

#[test]
fn new_store_starts_unmigrated() {
    let db = Database::new();
    assert_eq!(db.schema_version, 0);
}

#[test]
fn migrations_reach_the_current_version() {
    let db = migrated();
    assert_eq!(db.schema_version, CURRENT_SCHEMA_VERSION);
}

#[test]
fn rerunning_migrations_is_a_no_op() {
    let mut db = migrated();
    insert_student(
        &mut db,
        String::from("Ada"),
        String::from("Lovelace"),
        String::from("S-001"),
    )
    .unwrap();
    insert_class(&mut db, String::from("Algebra II")).unwrap();
    let students_before = get_students(&db);
    let classes_before = get_classes(&db);
    let version_before = db.schema_version;

    let outcome = db.run_migrations();

    assert_eq!(outcome, Ok(()));
    assert_eq!(db.schema_version, version_before);
    assert_eq!(get_students(&db), students_before);
    assert_eq!(get_classes(&db), classes_before);
}

#[test]
fn a_newer_schema_than_this_build_is_fatal() {
    let mut db = Database::new();
    db.run_migrations().unwrap();
    db.schema_version = CURRENT_SCHEMA_VERSION + 1;
    assert_eq!(db.run_migrations(), Err(gradebook::models::DbError::MigrationError));
    assert_eq!(db.schema_version, CURRENT_SCHEMA_VERSION + 1);
}

#[test]
fn key_counters_start_at_one_after_migration() {
    let mut db = migrated();
    let student_id = insert_student(
        &mut db,
        String::from("Ada"),
        String::from("Lovelace"),
        String::from("S-001"),
    )
    .unwrap();
    let class_id = insert_class(&mut db, String::from("Algebra II")).unwrap();
    assert_eq!(student_id, 1);
    assert_eq!(class_id, 1);
}
