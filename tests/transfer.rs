use image_browser::transfer::{check_copy, copy_destination, finish_copy, TransferError};

#[test]
fn checks_come_in_order() {
    assert!(matches!(copy_destination("/a/x.png", "/b", false, false), Err(TransferError::SourceNotFound)));
    assert!(matches!(copy_destination("/a/x.png", "/b", true, false), Err(TransferError::TargetNotFound)));
    assert!(matches!(copy_destination("/", "/b", true, true), Err(TransferError::InvalidSourcePath)));
    assert_eq!(copy_destination("/a/x.png", "/b", true, true).ok(), Some("/b/x.png".to_string()));
    assert_eq!(copy_destination("/a/x.png", "/b/", true, true).ok(), Some("/b/x.png".to_string()));
}

#[test]
fn first_failing_check_wins() {
    assert!(matches!(check_copy("/a/x.png", "/b", false, false, true), Err(TransferError::SourceNotFound)));
    assert!(matches!(check_copy("/a/x.png", "/b", true, false, true), Err(TransferError::TargetNotFound)));
    assert!(matches!(check_copy("/a/..", "/b", true, true, true), Err(TransferError::InvalidSourcePath)));
    assert!(matches!(check_copy("/a/x.png", "/b", true, true, true), Err(TransferError::TargetAlreadyExists)));
}

#[test]
fn existing_destination_is_refused() {
    let r = check_copy("/a/x.png", "/b", true, true, true);
    assert!(matches!(r, Err(TransferError::TargetAlreadyExists)));
    assert_eq!(r.err().unwrap().message(), "Target file already exists");
    let r = finish_copy("/a/x.png", "/b", true, true, true, Ok(7));
    assert!(matches!(r, Err(TransferError::TargetAlreadyExists)));
}

#[test]
fn free_destination_is_copied_to() {
    assert_eq!(check_copy("/a/x.png", "/b/", true, true, false).ok(), Some("/b/x.png".to_string()));
    assert_eq!(
        finish_copy("/a/x.png", "/b", true, true, false, Ok(7)).ok(),
        Some("File copied successfully".to_string())
    );
}

#[test]
fn copy_failure_keeps_its_text() {
    match finish_copy("/a/x.png", "/b", true, true, false, Err("disk full".to_string())) {
        Err(TransferError::CopyIOError(m)) => assert_eq!(m, "disk full"),
        _ => panic!("expected CopyIOError"),
    }
}

#[test]
fn failed_check_hides_the_copy_result() {
    assert!(matches!(finish_copy("/a/x.png", "/b", false, true, false, Ok(7)), Err(TransferError::SourceNotFound)));
}
