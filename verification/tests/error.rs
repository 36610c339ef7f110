use todo_cli::error::TodoError;

#[test]
fn every_failure_has_its_text() {
    assert_eq!(TodoError::Io("disk full".to_string()).message(), "IO error: disk full");
    assert_eq!(
        TodoError::Json("expected value".to_string()).message(),
        "JSON serialization error: expected value"
    );
    assert_eq!(
        TodoError::DateParse("no date".to_string()).message(),
        "Date parsing error: no date"
    );
    assert_eq!(TodoError::TaskNotFound(5).message(), "Task not found with ID: 5");
    assert_eq!(
        TodoError::TaskNotFound(u64::MAX).message(),
        "Task not found with ID: 18446744073709551615"
    );
    assert_eq!(
        TodoError::InvalidPriority(9).message(),
        "Invalid priority value: 9. Priority must be between 1 and 5"
    );
    assert_eq!(
        TodoError::InvalidPriority(0).message(),
        "Invalid priority value: 0. Priority must be between 1 and 5"
    );
    assert_eq!(
        TodoError::InvalidTag("  ".to_string()).message(),
        "Invalid tag:   . Tags cannot be empty"
    );
    assert_eq!(
        TodoError::DataCorruption("bad file".to_string()).message(),
        "Data file corruption: bad file"
    );
}

#[test]
fn a_date_failure_reads_in_full() {
    let e = todo_cli::date_parser::unparsable("soon");
    assert_eq!(
        e.message(),
        "Date parsing error: Unable to parse date: 'soon'. Try formats like: YYYY-MM-DD, today, tomorrow, monday, etc."
    );
}
