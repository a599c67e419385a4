use qa_service::error::{insert_failure, storage_failure, translate_insert_failure, DBError, FOREIGN_KEY_VIOLATION};

#[test]
fn foreign_key_code_becomes_invalid_identifier() {
    let e = translate_insert_failure(Some(FOREIGN_KEY_VIOLATION.to_string()), "FOREIGN KEY constraint failed".to_string(), "42");
    assert_eq!(e, DBError::InvalidUUID("Invalid question UUID: 42".to_string()));
}

#[test]
fn other_code_stays_other() {
    let e = translate_insert_failure(Some("2067".to_string()), "UNIQUE constraint failed".to_string(), "42");
    assert_eq!(e, DBError::Other("UNIQUE constraint failed".to_string()));
}

#[test]
fn missing_code_stays_other() {
    let e = translate_insert_failure(None, "disk I/O error".to_string(), "1");
    assert_eq!(e, DBError::Other("disk I/O error".to_string()));
}

#[test]
fn non_database_failure_on_insert_is_other() {
    let e = insert_failure(sqlx::Error::RowNotFound, "5");
    assert_eq!(e, DBError::Other(sqlx::Error::RowNotFound.to_string()));
    assert_ne!(e, DBError::Other(String::new()));
}

#[test]
fn storage_failure_keeps_the_cause_text() {
    let e = storage_failure(sqlx::Error::PoolTimedOut);
    assert_eq!(e, DBError::Other(sqlx::Error::PoolTimedOut.to_string()));
    assert_ne!(e, DBError::Other(String::new()));
}

#[test]
fn insert_failure_keeps_the_cause_text() {
    let e = insert_failure(sqlx::Error::PoolTimedOut, "9");
    assert_eq!(e, DBError::Other(sqlx::Error::PoolTimedOut.to_string()));
}
