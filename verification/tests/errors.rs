use velox_core::error::{ErrorResponse, VeloxError};

fn missing_file() -> std::io::Error {
    std::io::Error::new(std::io::ErrorKind::NotFound, "no such file")
}

#[test]
fn messages_of_the_errors() {
    assert_eq!(VeloxError::ScanCancelled.to_string(), "Scan operation cancelled by user");
    assert_eq!(VeloxError::InvalidPath("/x".to_string()).to_string(), "Invalid path: /x");
    assert_eq!(VeloxError::AccessDenied("/y".to_string()).to_string(), "Access denied: /y");
    assert_eq!(
        VeloxError::ScanInProgress("s1".to_string()).to_string(),
        "Scan already in progress for session: s1"
    );
    assert_eq!(
        VeloxError::NoActiveScan("s2".to_string()).to_string(),
        "No active scan found for session: s2"
    );
    assert_eq!(
        VeloxError::Serialization("bad".to_string()).to_string(),
        "Serialization error: bad"
    );
    assert_eq!(VeloxError::StateLock("held".to_string()).to_string(), "State lock error: held");
    assert_eq!(VeloxError::Unknown("what".to_string()).to_string(), "Unknown error: what");
}

#[test]
fn message_of_an_io_error() {
    let e = VeloxError::Io(missing_file());
    assert_eq!(e.to_string(), "IO Error: no such file");
}

#[test]
fn message_with_empty_detail() {
    assert_eq!(VeloxError::InvalidPath(String::new()).to_string(), "Invalid path: ");
}

#[test]
fn codes_of_the_errors() {
    assert_eq!(VeloxError::Io(missing_file()).code_string(), "IO_ERROR");
    assert_eq!(VeloxError::ScanCancelled.code_string(), "SCAN_CANCELLED");
    assert_eq!(VeloxError::InvalidPath(String::new()).code_string(), "INVALID_PATH");
    assert_eq!(VeloxError::AccessDenied(String::new()).code_string(), "ACCESS_DENIED");
    assert_eq!(VeloxError::ScanInProgress(String::new()).code_string(), "SCAN_IN_PROGRESS");
    assert_eq!(VeloxError::NoActiveScan(String::new()).code_string(), "NO_ACTIVE_SCAN");
    assert_eq!(VeloxError::Serialization(String::new()).code_string(), "SERIALIZATION_ERROR");
    assert_eq!(VeloxError::StateLock(String::new()).code_string(), "STATE_LOCK_ERROR");
    assert_eq!(VeloxError::Unknown(String::new()).code_string(), "UNKNOWN_ERROR");
}

#[test]
fn debug_string_is_the_derived_debug_text() {
    let errors = vec![
        VeloxError::ScanCancelled,
        VeloxError::InvalidPath("/tmp/a \"b\"\n".to_string()),
        VeloxError::AccessDenied("/root".to_string()),
        VeloxError::ScanInProgress("s".to_string()),
        VeloxError::NoActiveScan("t".to_string()),
        VeloxError::Serialization("tab\there".to_string()),
        VeloxError::StateLock("back\\slash".to_string()),
        VeloxError::Unknown("\u{e9}t\u{e9}".to_string()),
        VeloxError::Io(missing_file()),
    ];
    for e in errors {
        assert_eq!(e.debug_string(), format!("{:?}", e));
    }
}

#[test]
fn debug_string_quotes_the_detail() {
    let e = VeloxError::InvalidPath("/x".to_string());
    assert_eq!(e.debug_string(), "InvalidPath(\"/x\")");
    assert_eq!(VeloxError::ScanCancelled.debug_string(), "ScanCancelled");
}

#[test]
fn clone_keeps_every_error_but_io() {
    let e = VeloxError::NoActiveScan("abc".to_string());
    assert!(matches!(e.clone(), VeloxError::NoActiveScan(s) if s == "abc"));
    assert!(matches!(VeloxError::ScanCancelled.clone(), VeloxError::ScanCancelled));
    let e = VeloxError::InvalidPath("p".to_string());
    assert!(matches!(e.clone(), VeloxError::InvalidPath(s) if s == "p"));
    let e = VeloxError::AccessDenied("p".to_string());
    assert!(matches!(e.clone(), VeloxError::AccessDenied(s) if s == "p"));
    let e = VeloxError::ScanInProgress("p".to_string());
    assert!(matches!(e.clone(), VeloxError::ScanInProgress(s) if s == "p"));
    let e = VeloxError::Serialization("p".to_string());
    assert!(matches!(e.clone(), VeloxError::Serialization(s) if s == "p"));
    let e = VeloxError::StateLock("p".to_string());
    assert!(matches!(e.clone(), VeloxError::StateLock(s) if s == "p"));
    let e = VeloxError::Unknown("p".to_string());
    assert!(matches!(e.clone(), VeloxError::Unknown(s) if s == "p"));
}

#[test]
fn clone_of_an_io_error_is_unknown_with_its_message() {
    let e = VeloxError::Io(missing_file());
    assert!(matches!(e.clone(), VeloxError::Unknown(s) if s == "no such file"));
}

#[test]
fn io_errors_convert() {
    let e: VeloxError = missing_file().into();
    assert!(matches!(e, VeloxError::Io(_)));
    let e = VeloxError::from(missing_file());
    assert_eq!(e.code_string(), "IO_ERROR");
}

#[test]
fn response_for_an_invalid_path() {
    let r = ErrorResponse::from(VeloxError::InvalidPath("/nowhere".to_string()));
    assert_eq!(r.code, "INVALID_PATH");
    assert_eq!(r.message, "Invalid path: /nowhere");
    assert_eq!(r.details, Some("InvalidPath(\"/nowhere\")".to_string()));
    assert!(chrono::DateTime::parse_from_rfc3339(&r.timestamp).is_ok());
}

#[test]
fn responses_for_the_other_errors() {
    let r = ErrorResponse::from(VeloxError::ScanCancelled);
    assert_eq!(r.code, "SCAN_CANCELLED");
    assert_eq!(r.message, "Scan operation cancelled by user");
    assert_eq!(r.details, Some("ScanCancelled".to_string()));

    let r = ErrorResponse::from(VeloxError::AccessDenied("/root".to_string()));
    assert_eq!(r.code, "ACCESS_DENIED");
    assert_eq!(r.message, "Access denied: /root");

    let r = ErrorResponse::from(VeloxError::ScanInProgress("s1".to_string()));
    assert_eq!(r.code, "SCAN_IN_PROGRESS");
    assert_eq!(r.message, "Scan already running: s1");
    assert_eq!(r.details, Some("ScanInProgress(\"s1\")".to_string()));

    let r = ErrorResponse::from(VeloxError::NoActiveScan("s2".to_string()));
    assert_eq!(r.code, "NO_ACTIVE_SCAN");
    assert_eq!(r.message, "No scan found: s2");

    let r = ErrorResponse::from(VeloxError::Serialization("bad json".to_string()));
    assert_eq!(r.code, "SERIALIZATION_ERROR");
    assert_eq!(r.message, "bad json");

    let r = ErrorResponse::from(VeloxError::StateLock("poisoned".to_string()));
    assert_eq!(r.code, "STATE_LOCK_ERROR");
    assert_eq!(r.message, "poisoned");

    let r = ErrorResponse::from(VeloxError::Unknown("odd".to_string()));
    assert_eq!(r.code, "UNKNOWN_ERROR");
    assert_eq!(r.message, "odd");
    assert_eq!(r.details, Some("Unknown(\"odd\")".to_string()));
}

#[test]
fn response_for_an_io_error() {
    let shown = format!("Io({:?})", missing_file());
    let r = ErrorResponse::from(VeloxError::Io(missing_file()));
    assert_eq!(r.code, "IO_ERROR");
    assert_eq!(r.message, "no such file");
    assert_eq!(r.details, Some(shown));
}

#[test]
fn response_through_into() {
    let r: ErrorResponse = VeloxError::Unknown("x".to_string()).into();
    assert_eq!(r.code, "UNKNOWN_ERROR");
}
