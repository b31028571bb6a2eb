use gradebook::crud::{
    delete_assignment, delete_class, delete_grade, delete_student, get_assignments, get_classes,
    get_grades, get_students, insert_assignment, insert_class, insert_grade, insert_student,
    update_assignment, update_class, update_grade, update_student,
};
use gradebook::date::Date;
use gradebook::models::{Assignment, Class, DbError, Grade, Student};
use gradebook::store::Database;

fn migrated() -> Database {
    let mut db = Database::new();
    db.run_migrations().expect("migrating an empty store succeeds");
    db
}

fn add_student(db: &mut Database, first: &str, last: &str, sid: &str) -> i64 {
    insert_student(db, String::from(first), String::from(last), String::from(sid)).unwrap()
}

#[test]
fn create_then_list_shows_the_new_student() {
    let mut db = migrated();
    let before = get_students(&db).len();
    let id = add_student(&mut db, "Ada", "Lovelace", "S-001");
    let listed = get_students(&db);
    assert_eq!(listed.len(), before + 1);
    assert_eq!(
        listed[before],
        Student {
            id,
            first_name: String::from("Ada"),
            last_name: String::from("Lovelace"),
            student_id: String::from("S-001"),
        }
    );
}

#[test]
fn update_then_list_shows_replaced_fields() {
    let mut db = migrated();
    let id = add_student(&mut db, "Ada", "Lovelace", "S-001");
    add_student(&mut db, "Alan", "Turing", "S-002");
    update_student(
        &mut db,
        id,
        String::from("Augusta"),
        String::from("King"),
        String::from("S-100"),
    )
    .unwrap();
    let listed = get_students(&db);
    assert_eq!(listed.len(), 2);
    assert_eq!(
        listed[0],
        Student {
            id,
            first_name: String::from("Augusta"),
            last_name: String::from("King"),
            student_id: String::from("S-100"),
        }
    );
    assert_eq!(listed[1].first_name, String::from("Alan"));
}

#[test]
fn delete_then_list_no_longer_contains_the_id() {
    let mut db = migrated();
    let id = add_student(&mut db, "Ada", "Lovelace", "S-001");
    let keep = add_student(&mut db, "Alan", "Turing", "S-002");
    delete_student(&mut db, id).unwrap();
    let listed = get_students(&db);
    assert_eq!(listed.len(), 1);
    assert!(listed.iter().all(|s| s.id != id));
    assert_eq!(listed[0].id, keep);
}

#[test]
fn empty_student_fields_are_rejected_without_effect() {
    let mut db = migrated();
    let r = insert_student(
        &mut db,
        String::from(""),
        String::from("Lovelace"),
        String::from("S-001"),
    );
    assert_eq!(r, Err(DbError::ValidationError));
    assert!(get_students(&db).is_empty());
}

#[test]
fn duplicate_external_identifier_is_a_store_error() {
    let mut db = migrated();
    add_student(&mut db, "Ada", "Lovelace", "S-001");
    let r = insert_student(
        &mut db,
        String::from("Alan"),
        String::from("Turing"),
        String::from("S-001"),
    );
    assert_eq!(r, Err(DbError::StoreError));
    assert_eq!(get_students(&db).len(), 1);
}

#[test]
fn updating_a_missing_student_reports_not_found() {
    let mut db = migrated();
    let r = update_student(
        &mut db,
        42,
        String::from("Ada"),
        String::from("Lovelace"),
        String::from("S-001"),
    );
    assert_eq!(r, Err(DbError::NotFoundError));
}

#[test]
fn deleting_a_missing_student_reports_not_found() {
    let mut db = migrated();
    assert_eq!(delete_student(&mut db, 42), Err(DbError::NotFoundError));
}

#[test]
fn two_serialized_creates_both_stay_visible() {
    let mut db = migrated();
    let first = add_student(&mut db, "Ada", "Lovelace", "S-001");
    let second = add_student(&mut db, "Alan", "Turing", "S-002");
    assert_ne!(first, second);
    let listed = get_students(&db);
    assert_eq!(listed.len(), 2);
    assert!(listed.iter().any(|s| s.id == first));
    assert!(listed.iter().any(|s| s.id == second));
}

#[test]
fn class_create_update_delete_round() {
    let mut db = migrated();
    let id = insert_class(&mut db, String::from("Algebra II")).unwrap();
    assert_eq!(
        get_classes(&db),
        vec![Class { id, class_name: String::from("Algebra II") }]
    );
    update_class(&mut db, id, String::from("Algebra III")).unwrap();
    assert_eq!(get_classes(&db)[0].class_name, String::from("Algebra III"));
    delete_class(&mut db, id).unwrap();
    assert!(get_classes(&db).is_empty());
}

#[test]
fn empty_class_name_is_rejected_without_effect() {
    let mut db = migrated();
    assert_eq!(insert_class(&mut db, String::from("")), Err(DbError::ValidationError));
    assert!(get_classes(&db).is_empty());
}

#[test]
fn assignment_scenario_keeps_its_due_date() {
    let mut db = migrated();
    let class_id = insert_class(&mut db, String::from("Algebra II")).unwrap();
    assert_eq!(class_id, 1);
    insert_assignment(
        &mut db,
        class_id,
        String::from("Homework 1"),
        Some(String::from("2024-09-01")),
        String::from("homework"),
        100,
    )
    .unwrap();
    let listed = get_assignments(&db);
    assert_eq!(listed.len(), 1);
    assert_eq!(
        listed[0],
        Assignment {
            id: 1,
            class_id,
            title: String::from("Homework 1"),
            due_date: Some(Date { year: 2024, month: 9, day: 1 }),
            category: String::from("homework"),
            max_score: 100,
        }
    );
}

#[test]
fn malformed_due_date_is_rejected_without_effect() {
    let mut db = migrated();
    let class_id = insert_class(&mut db, String::from("Algebra II")).unwrap();
    let r = insert_assignment(
        &mut db,
        class_id,
        String::from("Homework 1"),
        Some(String::from("13/02/2024")),
        String::from("homework"),
        100,
    );
    assert_eq!(r, Err(DbError::ValidationError));
    assert!(get_assignments(&db).is_empty());
}

#[test]
fn assignment_without_due_date_is_accepted() {
    let mut db = migrated();
    let class_id = insert_class(&mut db, String::from("Algebra II")).unwrap();
    let id = insert_assignment(
        &mut db,
        class_id,
        String::from("Quiz"),
        None,
        String::from("quiz"),
        10,
    )
    .unwrap();
    assert_eq!(get_assignments(&db)[0].id, id);
    assert_eq!(get_assignments(&db)[0].due_date, None);
}

#[test]
fn assignment_for_a_missing_class_is_a_store_error() {
    let mut db = migrated();
    let r = insert_assignment(
        &mut db,
        7,
        String::from("Homework 1"),
        None,
        String::from("homework"),
        100,
    );
    assert_eq!(r, Err(DbError::StoreError));
    assert!(get_assignments(&db).is_empty());
}

#[test]
fn empty_assignment_title_is_rejected() {
    let mut db = migrated();
    let class_id = insert_class(&mut db, String::from("Algebra II")).unwrap();
    let r = insert_assignment(
        &mut db,
        class_id,
        String::from(""),
        None,
        String::from("homework"),
        100,
    );
    assert_eq!(r, Err(DbError::ValidationError));
}

#[test]
fn update_assignment_replaces_all_fields() {
    let mut db = migrated();
    let class_id = insert_class(&mut db, String::from("Algebra II")).unwrap();
    let id = insert_assignment(
        &mut db,
        class_id,
        String::from("Homework 1"),
        Some(String::from("2024-09-01")),
        String::from("homework"),
        100,
    )
    .unwrap();
    update_assignment(
        &mut db,
        id,
        class_id,
        String::from("Homework 1 revised"),
        Some(String::from("2024-09-08")),
        String::from("homework"),
        50,
    )
    .unwrap();
    let listed = get_assignments(&db);
    assert_eq!(listed[0].title, String::from("Homework 1 revised"));
    assert_eq!(listed[0].due_date, Some(Date { year: 2024, month: 9, day: 8 }));
    assert_eq!(listed[0].max_score, 50);
    assert_eq!(listed[0].id, id);
}

#[test]
fn deleting_a_class_with_assignments_is_a_store_error() {
    let mut db = migrated();
    let class_id = insert_class(&mut db, String::from("Algebra II")).unwrap();
    insert_assignment(
        &mut db,
        class_id,
        String::from("Homework 1"),
        None,
        String::from("homework"),
        100,
    )
    .unwrap();
    assert_eq!(delete_class(&mut db, class_id), Err(DbError::StoreError));
    assert_eq!(get_classes(&db).len(), 1);
}

#[test]
fn grade_for_a_missing_student_is_a_store_error() {
    let mut db = migrated();
    let class_id = insert_class(&mut db, String::from("Algebra II")).unwrap();
    let assignment_id = insert_assignment(
        &mut db,
        class_id,
        String::from("Homework 1"),
        Some(String::from("2024-09-01")),
        String::from("homework"),
        100,
    )
    .unwrap();
    let r = insert_grade(&mut db, 999, assignment_id, 95);
    assert_eq!(r, Err(DbError::StoreError));
    assert!(get_grades(&db).is_empty());
}

#[test]
fn grade_create_update_delete_round() {
    let mut db = migrated();
    let student = add_student(&mut db, "Ada", "Lovelace", "S-001");
    let class_id = insert_class(&mut db, String::from("Algebra II")).unwrap();
    let assignment = insert_assignment(
        &mut db,
        class_id,
        String::from("Homework 1"),
        None,
        String::from("homework"),
        100,
    )
    .unwrap();
    let grade = insert_grade(&mut db, student, assignment, 95).unwrap();
    assert_eq!(
        get_grades(&db),
        vec![Grade { id: grade, student_id: student, assignment_id: assignment, score: 95 }]
    );
    update_grade(&mut db, grade, student, assignment, 88).unwrap();
    assert_eq!(get_grades(&db)[0].score, 88);
    delete_grade(&mut db, grade).unwrap();
    assert!(get_grades(&db).is_empty());
}

#[test]
fn deleting_a_graded_student_is_a_store_error() {
    let mut db = migrated();
    let student = add_student(&mut db, "Ada", "Lovelace", "S-001");
    let class_id = insert_class(&mut db, String::from("Algebra II")).unwrap();
    let assignment = insert_assignment(
        &mut db,
        class_id,
        String::from("Homework 1"),
        None,
        String::from("homework"),
        100,
    )
    .unwrap();
    insert_grade(&mut db, student, assignment, 95).unwrap();
    assert_eq!(delete_student(&mut db, student), Err(DbError::StoreError));
    assert_eq!(get_students(&db).len(), 1);
}

#[test]
fn deleting_a_graded_assignment_is_a_store_error() {
    let mut db = migrated();
    let student = add_student(&mut db, "Ada", "Lovelace", "S-001");
    let class_id = insert_class(&mut db, String::from("Algebra II")).unwrap();
    let assignment = insert_assignment(
        &mut db,
        class_id,
        String::from("Homework 1"),
        None,
        String::from("homework"),
        100,
    )
    .unwrap();
    insert_grade(&mut db, student, assignment, 95).unwrap();
    assert_eq!(delete_assignment(&mut db, assignment), Err(DbError::StoreError));
    assert_eq!(get_assignments(&db).len(), 1);
}

#[test]
fn updating_a_grade_to_a_missing_reference_is_a_store_error() {
    let mut db = migrated();
    let student = add_student(&mut db, "Ada", "Lovelace", "S-001");
    let class_id = insert_class(&mut db, String::from("Algebra II")).unwrap();
    let assignment = insert_assignment(
        &mut db,
        class_id,
        String::from("Homework 1"),
        None,
        String::from("homework"),
        100,
    )
    .unwrap();
    let grade = insert_grade(&mut db, student, assignment, 95).unwrap();
    assert_eq!(update_grade(&mut db, grade, 999, assignment, 95), Err(DbError::StoreError));
    assert_eq!(get_grades(&db)[0].student_id, student);
}

#[test]
fn generated_ids_rise_in_insertion_order() {
    let mut db = migrated();
    let a = add_student(&mut db, "Ada", "Lovelace", "S-001");
    let b = add_student(&mut db, "Alan", "Turing", "S-002");
    let c = add_student(&mut db, "Grace", "Hopper", "S-003");
    assert_eq!((a, b, c), (1, 2, 3));
}
