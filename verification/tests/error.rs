use btree_client::{Error, ErrorKind, Op, Position};

#[test]
fn test_classification_table() {
    // The classifier's codes are the platform's raw system error codes.
    assert_eq!(Error::new(libc::EEXIST, Op::TxnPut).kind(), ErrorKind::AlreadyExists);
    assert_eq!(Error::new(libc::EBADF, Op::TxnGet).kind(), ErrorKind::BadHandle);
    assert_eq!(Error::new(libc::EBUSY, Op::TxnBegin).kind(), ErrorKind::Busy);
    assert_eq!(Error::new(libc::EIO, Op::Sync).kind(), ErrorKind::InputOutput);
    assert_eq!(Error::new(libc::EINVAL, Op::Revert).kind(), ErrorKind::InvalidArgument);
    assert_eq!(Error::new(libc::ENOENT, Op::TxnGet).kind(), ErrorKind::NotFound);
    assert_eq!(Error::new(libc::EPERM, Op::Open).kind(), ErrorKind::PermissionDenied);
    assert_eq!(Error::new(libc::ESTALE, Op::TxnBegin).kind(), ErrorKind::StaleHandle);
    assert_eq!(Error::new(libc::ENOSPC, Op::TxnPut).kind(), ErrorKind::Other);
    assert_eq!(Error::new(0, Op::TxnPut).kind(), ErrorKind::Other);
}

#[test]
fn test_equality_by_kind() {
    // Both kinds specific: equality compares kinds, whatever the codes
    // and operations.
    let a = Error::new(libc::ENOENT, Op::TxnGet);
    let b: Error = ErrorKind::NotFound.into();
    assert!(a == b);
    let c = Error::new(libc::EEXIST, Op::TxnPut);
    assert!(a != c);
}

#[test]
fn test_equality_wildcard_codes() {
    // A wildcard kind on one side: both codes set compares codes.
    let a = Error::new(libc::ENOSPC, Op::TxnPut);
    let b = Error::new(libc::ENOSPC, Op::Sync);
    assert_eq!(a.kind(), ErrorKind::Other);
    assert!(a == b);
    let c = Error::new(libc::EDOM, Op::TxnPut);
    assert!(a != c);
}

#[test]
fn test_equality_wildcard_ops() {
    // A wildcard kind and a missing code: falls back to the operation.
    let a = Error::other("bad things".to_string());
    let b = Error::other("bad things".to_string());
    let c = Error::other("other things".to_string());
    assert!(a == b);
    assert!(a != c);
    // A wildcard against a specific kind without codes: operations
    // decide, and they differ.
    let d: Error = ErrorKind::NotFound.into();
    assert!(a != d);
}

#[test]
fn test_descriptions() {
    assert_eq!(
        Error::new(libc::ENOENT, Op::TxnGet).description(),
        "Key not found in the database"
    );
    assert_eq!(
        Error::new(libc::EIO, Op::TxnGet).description(),
        "Failed to retrieve value"
    );
    assert_eq!(
        Error::new(libc::EBADF, Op::TxnPut).description(),
        "Failed to perform an operation on a bad database handle"
    );
    assert_eq!(
        Error::new(libc::ESTALE, Op::TxnBegin).description(),
        "Failed to perform an operation on a stale database handle"
    );
    assert_eq!(
        Error::new(libc::ENOENT, Op::CurGet(Position::First)).description(),
        "Failed to get the first key"
    );
    assert_eq!(
        Error::new(libc::ENOENT, Op::CurGet(Position::Next)).description(),
        "Failed to get the next key"
    );
    assert_eq!(
        Error::new(libc::EIO, Op::TxnCommit).description(),
        "Failed to commit a transaction"
    );
    assert_eq!(
        Error::other("just words".to_string()).description(),
        "just words"
    );
}

#[test]
fn test_result_from_int() {
    assert!(btree_client::error::result_from_int(0, 0, Op::Sync).is_ok());
    let err = btree_client::error::result_from_int(-1, libc::ENOENT, Op::TxnGet).unwrap_err();
    assert_eq!(err.kind(), ErrorKind::NotFound);
    assert_eq!(err.code, libc::ENOENT);
}

#[test]
fn test_equality_against_kind() {
    let a = Error::new(libc::ENOENT, Op::TxnGet);
    assert!(a == ErrorKind::NotFound);
    assert!(a != ErrorKind::Busy);
}
