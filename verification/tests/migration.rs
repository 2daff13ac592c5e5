use lenote::error::{storage_error, StorageError};
use lenote::migrate::{check_advanced, evolution, pending_migrations, LATEST_VERSION};

#[test]
fn there_are_five_steps() {
    assert_eq!(LATEST_VERSION, 5);
    assert_eq!(evolution(0), None);
    assert!(evolution(1).unwrap().starts_with("CREATE TABLE notes("));
    assert!(evolution(2).unwrap().starts_with("CREATE TABLE tags("));
    assert!(evolution(3).unwrap().starts_with("CREATE TABLE tag_map("));
    assert!(evolution(4).unwrap().starts_with("CREATE TABLE tag_map_history("));
    assert_eq!(
        evolution(5),
        Some("ALTER TABLE notes ADD COLUMN note_type INTEGER NOT NULL DEFAULT 0")
    );
    assert_eq!(evolution(6), None);
    assert_eq!(evolution(usize::MAX), None);
}

#[test]
fn fresh_store_has_every_step_pending_in_order() {
    let plan = pending_migrations(0);
    assert_eq!(plan.iter().map(|m| m.version).collect::<Vec<_>>(), vec![1, 2, 3, 4, 5]);
    for step in &plan {
        assert_eq!(Some(step.sql), evolution(step.version as usize));
    }
}

#[test]
fn later_store_has_the_later_steps_pending() {
    let plan = pending_migrations(3);
    assert_eq!(plan.iter().map(|m| m.version).collect::<Vec<_>>(), vec![4, 5]);
    assert_eq!(pending_migrations(4).len(), 1);
}

#[test]
fn up_to_date_store_has_nothing_pending() {
    assert_eq!(pending_migrations(5).len(), 0);
    assert_eq!(pending_migrations(6).len(), 0);
    assert_eq!(pending_migrations(usize::MAX).len(), 0);
}

#[test]
fn only_one_changed_row_advances_the_version() {
    assert_eq!(check_advanced(1, 3), Ok(()));
    assert_eq!(check_advanced(0, 3), Err(StorageError::Migration { version: 3 }));
    assert_eq!(check_advanced(2, 1), Err(StorageError::Migration { version: 1 }));
}

#[test]
fn constraint_codes_are_told_apart() {
    assert_eq!(storage_error(Some(19)), StorageError::ConstraintViolation);
    assert_eq!(storage_error(Some(1555)), StorageError::ConstraintViolation);
    assert_eq!(storage_error(Some(2067)), StorageError::ConstraintViolation);
    assert_eq!(storage_error(Some(787)), StorageError::ConstraintViolation);
    assert_eq!(storage_error(Some(1)), StorageError::Database { code: Some(1) });
    assert_eq!(storage_error(Some(5)), StorageError::Database { code: Some(5) });
    assert_eq!(storage_error(Some(275)), StorageError::ConstraintViolation);
    assert_eq!(storage_error(Some(261)), StorageError::Database { code: Some(261) });
    assert_eq!(storage_error(Some(18)), StorageError::Database { code: Some(18) });
    assert_eq!(storage_error(Some(20)), StorageError::Database { code: Some(20) });
    assert_eq!(storage_error(None), StorageError::Database { code: None });
}
