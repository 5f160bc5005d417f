use usercrud::error::AppError;
use usercrud::users::{create, item, list, remove, update, CreateUser, UpdateUser, UserTable};

fn create_payload(name: &str, email: &str) -> CreateUser {
    CreateUser {
        name: name.to_string(),
        email: email.to_string(),
        display_name: "display".to_string(),
    }
}

fn update_payload(name: &str, email: &str) -> UpdateUser {
    UpdateUser {
        name: name.to_string(),
        email: email.to_string(),
        display_name: "display".to_string(),
    }
}

fn seeded() -> UserTable {
    let mut table = UserTable::new();
    create(&mut table, create_payload("alice", "alice@example.com"), 100).unwrap();
    create(&mut table, create_payload("bob", "bob@example.com"), 200).unwrap();
    table
}

#[test]
fn create_assigns_ids_and_timestamps() {
    let mut table = UserTable::new();
    let u = create(&mut table, create_payload("alice", "alice@example.com"), 100).unwrap();
    assert_eq!(u.id, 1);
    assert_eq!(u.name, "alice");
    assert_eq!(u.email, "alice@example.com");
    assert_eq!(table.rows.len(), 1);
    assert_eq!(table.rows[0].created_at, 100);
    assert_eq!(table.rows[0].updated_at, 100);
    assert_eq!(table.rows[0].deleted_at, None);
    let v = create(&mut table, create_payload("bob", "bob@example.com"), 200).unwrap();
    assert_eq!(v.id, 2);
}

#[test]
fn create_rejects_taken_email_before_name() {
    let mut table = seeded();
    // Same e-mail and same name as existing users: the e-mail check wins.
    let r = create(&mut table, create_payload("bob", "alice@example.com"), 300);
    match r {
        Err(AppError::Validation(field, code)) => {
            assert_eq!(field, "email");
            assert_eq!(code, "email_exists");
        }
        _ => panic!("expected the email_exists conflict"),
    }
    assert_eq!(table.rows.len(), 2);
}

#[test]
fn create_conflict_renders_only_the_email_field() {
    let mut table = seeded();
    let e = create(&mut table, create_payload("carol", "alice@example.com"), 300).unwrap_err();
    let reply = e.into_response();
    assert_eq!(reply.status, 400);
    let errors = match &reply.body {
        usercrud::error::JsonValue::Obj(fields) => fields
            .iter()
            .find(|(k, _)| k == "errors")
            .map(|(_, v)| v)
            .unwrap(),
        _ => panic!("expected an object body"),
    };
    match errors {
        usercrud::error::JsonValue::Obj(fields) => {
            assert_eq!(fields.len(), 1);
            assert_eq!(fields[0].0, "email");
            assert!(!fields.iter().any(|(k, _)| k == "name"));
        }
        _ => panic!("expected an errors object"),
    }
}

#[test]
fn create_rejects_taken_name() {
    let mut table = seeded();
    let r = create(&mut table, create_payload("alice", "new@example.com"), 300);
    match r {
        Err(AppError::Validation(field, code)) => {
            assert_eq!(field, "name");
            assert_eq!(code, "name_exists");
        }
        _ => panic!("expected the name_exists conflict"),
    }
}

#[test]
fn soft_deleted_name_and_email_can_be_reused() {
    let mut table = seeded();
    remove(&mut table, 1, 300).unwrap();
    let u = create(&mut table, create_payload("alice", "alice@example.com"), 400).unwrap();
    assert_eq!(u.id, 3);
}

#[test]
fn list_returns_projections_in_insertion_order() {
    let table = seeded();
    let users = list(&table);
    assert_eq!(users.len(), 2);
    assert_eq!(users[0].id, 1);
    assert_eq!(users[0].name, "alice");
    assert_eq!(users[1].id, 2);
    assert_eq!(users[1].email, "bob@example.com");
}

#[test]
fn list_excludes_soft_deleted_users() {
    let mut table = seeded();
    remove(&mut table, 1, 300).unwrap();
    let users = list(&table);
    assert_eq!(users.len(), 1);
    assert_eq!(users[0].id, 2);
    // The rows themselves are kept: deletion is only a marker.
    assert_eq!(table.rows.len(), 2);
    assert_eq!(table.rows[0].deleted_at, Some(300));
}

#[test]
fn item_returns_the_projection() {
    let table = seeded();
    let u = item(&table, 2).unwrap();
    assert_eq!(u.id, 2);
    assert_eq!(u.name, "bob");
    assert_eq!(u.email, "bob@example.com");
}

#[test]
fn item_unknown_id_is_not_found() {
    let table = seeded();
    match item(&table, 99) {
        Err(AppError::ServiceError(status, code, cause)) => {
            assert_eq!(status, 404);
            assert_eq!(code, "not_found");
            assert!(cause.is_none());
        }
        _ => panic!("expected not_found"),
    }
}

#[test]
fn item_soft_deleted_id_is_not_found() {
    let mut table = seeded();
    remove(&mut table, 1, 300).unwrap();
    match item(&table, 1) {
        Err(AppError::ServiceError(status, code, _)) => {
            assert_eq!(status, 404);
            assert_eq!(code, "not_found");
        }
        _ => panic!("expected not_found for a soft-deleted id"),
    }
}

#[test]
fn remove_twice_is_not_found_the_second_time() {
    let mut table = seeded();
    assert!(remove(&mut table, 1, 300).is_ok());
    match remove(&mut table, 1, 400) {
        Err(AppError::ServiceError(status, code, _)) => {
            assert_eq!(status, 404);
            assert_eq!(code, "not_found");
        }
        _ => panic!("expected not_found on the second removal"),
    }
}

#[test]
fn remove_unknown_id_is_not_found() {
    let mut table = seeded();
    assert!(remove(&mut table, 99, 300).is_err());
    assert_eq!(table.rows.len(), 2);
}

#[test]
fn update_overwrites_fields_and_stamps_updated_at() {
    let mut table = seeded();
    let u = update(&mut table, 1, update_payload("alicia", "alicia@example.com"), 500).unwrap();
    assert_eq!(u.id, 1);
    assert_eq!(u.name, "alicia");
    assert_eq!(u.email, "alicia@example.com");
    assert_eq!(table.rows[0].updated_at, 500);
    assert_eq!(table.rows[0].created_at, 100);
}

#[test]
fn update_unknown_id_is_not_found() {
    let mut table = seeded();
    match update(&mut table, 99, update_payload("carol", "carol@example.com"), 500) {
        Err(AppError::ServiceError(status, code, _)) => {
            assert_eq!(status, 404);
            assert_eq!(code, "not_found");
        }
        _ => panic!("expected not_found"),
    }
}

#[test]
fn update_soft_deleted_id_still_updates() {
    // A soft-deleted row still exists for updating: only an id absent from
    // the table altogether answers not_found.
    let mut table = seeded();
    remove(&mut table, 1, 300).unwrap();
    let u = update(&mut table, 1, update_payload("alicia", "alicia@example.com"), 500).unwrap();
    assert_eq!(u.name, "alicia");
    assert_eq!(table.rows[0].deleted_at, Some(300));
}

#[test]
fn update_rejects_name_held_by_another_user() {
    let mut table = seeded();
    match update(&mut table, 2, update_payload("alice", "bob@example.com"), 500) {
        Err(AppError::Validation(field, code)) => {
            assert_eq!(field, "name");
            assert_eq!(code, "name_user_by_another_user");
        }
        _ => panic!("expected the name conflict"),
    }
    assert_eq!(table.rows[1].name, "bob");
}

#[test]
fn update_rejects_email_held_by_another_user() {
    let mut table = seeded();
    match update(&mut table, 2, update_payload("bob", "alice@example.com"), 500) {
        Err(AppError::Validation(field, code)) => {
            assert_eq!(field, "email");
            assert_eq!(code, "email_used_by_another_user");
        }
        _ => panic!("expected the email conflict"),
    }
    // The update was not applied.
    assert_eq!(table.rows[1].email, "bob@example.com");
    assert_eq!(table.rows[1].updated_at, 200);
}

#[test]
fn update_keeping_own_name_and_email_succeeds() {
    let mut table = seeded();
    let u = update(&mut table, 2, update_payload("bob", "bob@example.com"), 500).unwrap();
    assert_eq!(u.name, "bob");
    assert_eq!(table.rows[1].updated_at, 500);
}
