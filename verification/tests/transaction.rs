use btree_client::{Database, ErrorKind, Transaction, WriteFlags};

#[test]
fn test_put_get_del() {
    let mut db = Database::new().open("test").unwrap();

    let mut txn = db.begin_rw_txn().unwrap();
    txn.put(&db, b"key1", b"val1", WriteFlags::empty()).unwrap();
    txn.put(&db, b"key2", b"val2", WriteFlags::empty()).unwrap();
    txn.put(&db, b"key3", b"val3", WriteFlags::empty()).unwrap();
    txn.commit(&mut db).unwrap();

    let mut txn = db.begin_rw_txn().unwrap();
    assert_eq!(b"val1".to_vec(), txn.get(&db, b"key1").unwrap());
    assert_eq!(b"val2".to_vec(), txn.get(&db, b"key2").unwrap());
    assert_eq!(b"val3".to_vec(), txn.get(&db, b"key3").unwrap());
    assert_eq!(txn.get(&db, b"key"), Err(ErrorKind::NotFound.into()));

    txn.del(&db, b"key1").unwrap();
    assert_eq!(txn.get(&db, b"key1"), Err(ErrorKind::NotFound.into()));
}

#[test]
fn test_no_overwrite() {
    let mut db = Database::new().open("test").unwrap();

    let mut txn = db.begin_rw_txn().unwrap();
    txn.put(&db, b"key", b"first", WriteFlags::empty()).unwrap();
    let res = txn.put(&db, b"key", b"second", WriteFlags::no_overwrite());
    assert_eq!(res.unwrap_err().kind(), ErrorKind::AlreadyExists);
    // The prior value is unchanged.
    assert_eq!(b"first".to_vec(), txn.get(&db, b"key").unwrap());
    // Without the flag the value is replaced.
    txn.put(&db, b"key", b"second", WriteFlags::empty()).unwrap();
    assert_eq!(b"second".to_vec(), txn.get(&db, b"key").unwrap());
}

#[test]
fn test_del_absent() {
    let mut db = Database::new().open("test").unwrap();
    let mut txn = db.begin_rw_txn().unwrap();
    assert_eq!(txn.del(&db, b"key"), Err(ErrorKind::NotFound.into()));
}

#[test]
fn test_single_writer() {
    let mut db = Database::new().open("test").unwrap();
    let txn = db.begin_rw_txn().unwrap();
    // A second read-write transaction while one is outstanding fails
    // busy; readers are unaffected.
    assert_eq!(db.begin_rw_txn().unwrap_err().kind(), ErrorKind::Busy);
    assert!(db.begin_ro_txn().is_ok());
    txn.abort(&mut db);
    // Once the writer is gone the slot is free again.
    assert!(db.begin_rw_txn().is_ok());
}

#[test]
fn test_snapshot_isolation() {
    let mut db = Database::new().open("test").unwrap();

    // Readers begun before the write's commit observe the key absent.
    let before = db.begin_ro_txn().unwrap();

    let mut txn = db.begin_rw_txn().unwrap();
    txn.put(&db, b"key", b"val", WriteFlags::empty()).unwrap();
    // Uncommitted changes are not visible to a reader begun now either.
    let during = db.begin_ro_txn().unwrap();
    txn.commit(&mut db).unwrap();

    // A reader begun after the commit observes the key present.
    let after = db.begin_ro_txn().unwrap();

    assert_eq!(before.get(&db, b"key"), Err(ErrorKind::NotFound.into()));
    assert_eq!(during.get(&db, b"key"), Err(ErrorKind::NotFound.into()));
    assert_eq!(b"val".to_vec(), after.get(&db, b"key").unwrap());
}

#[test]
fn test_abort_discards() {
    let mut db = Database::new().open("test").unwrap();
    let mut txn = db.begin_rw_txn().unwrap();
    txn.put(&db, b"key", b"val", WriteFlags::empty()).unwrap();
    txn.abort(&mut db);
    let ro = db.begin_ro_txn().unwrap();
    assert_eq!(ro.get(&db, b"key"), Err(ErrorKind::NotFound.into()));
}

#[test]
fn test_ro_commit() {
    let db = Database::new().open("test").unwrap();
    let txn = db.begin_ro_txn().unwrap();
    assert!(txn.commit().is_ok());
}
