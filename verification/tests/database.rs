use btree_client::{Database, DatabaseFlags, ErrorKind, Transaction, WriteFlags};

#[test]
fn test_open() {
    assert!(Database::new().open("test").is_ok());
}

#[test]
fn test_ro_txn() {
    let db = Database::new().open("test").unwrap();
    let txn = db.begin_ro_txn().unwrap();
    let res = txn.get(&db, "/non-existant".as_bytes());
    assert!(res.is_err());
    if let Err(err) = res {
        assert_eq!(err.kind(), ErrorKind::NotFound);
    }
}

#[test]
fn test_rw_txn() {
    let mut db = Database::new().open("test").unwrap();
    let mut rwtxn = db.begin_rw_txn().unwrap();
    let res = rwtxn.put(
        &db,
        "/test-key".as_bytes(),
        "Some data".as_bytes(),
        WriteFlags::empty(),
    );
    assert!(res.is_ok());
    assert!(rwtxn.commit(&mut db).is_ok());
    let rotxn = db.begin_ro_txn().unwrap();
    let res = rotxn.get(&db, "/test-key".as_bytes());
    assert!(res.is_ok());
    if let Ok(data) = res {
        assert_eq!(data, "Some data".as_bytes());
    }
}

#[test]
fn test_multi_rw_txn() {
    let mut db = Database::new().open("test").unwrap();
    for i in 0..1000 {
        let mut rwtxn = db.begin_rw_txn().unwrap();
        assert!(rwtxn
            .put(
                &db,
                format!("/test-key-{}", i).as_bytes(),
                "Some data".as_bytes(),
                WriteFlags::empty(),
            )
            .is_ok());
        assert!(rwtxn.commit(&mut db).is_ok());
    }
    for i in 0..1000 {
        let rotxn = db.begin_ro_txn().unwrap();
        assert!(rotxn
            .get(&db, format!("/test-key-{}", i).as_bytes())
            .is_ok());
    }
}

#[test]
fn test_begin_txn() {
    {
        // writable database
        let mut db = Database::new().open("test").unwrap();

        assert!(db.begin_rw_txn().is_ok());
        assert!(db.begin_ro_txn().is_ok());
    }

    {
        // read-only database
        let mut db = Database::new()
            .set_flags(DatabaseFlags::read_only())
            .open("test")
            .unwrap();

        // The engine does not refuse a read-write transaction on a
        // read-only database.
        assert!(db.begin_rw_txn().is_ok());
        assert!(db.begin_ro_txn().is_ok());
    }
}

#[test]
fn test_close_database() {
    let db = Database::new().open("test").unwrap();
    db.close();
    assert!(Database::new().open("test").is_ok());
}

#[test]
fn test_sync() {
    {
        let db = Database::new().open("test").unwrap();
        assert!(db.sync().is_ok());
    }
    {
        let db = Database::new()
            .set_flags(DatabaseFlags::read_only())
            .open("test")
            .unwrap();
        // The engine does not refuse a sync on a read-only database.
        assert!(db.sync().is_ok());
    }
}

#[test]
fn test_reopen() {
    let mut db = Database::new().open("test").unwrap();
    {
        assert!(db.begin_rw_txn().is_ok());
    }
    assert!(db.reopen().is_ok());
    {
        assert!(db.begin_rw_txn().is_ok());
    }
}

#[test]
fn test_compact() {
    let mut db = Database::new().open("test").unwrap();
    {
        assert!(db.begin_rw_txn().is_ok());
    }
    assert!(db.compact().is_ok());
    {
        match db.begin_ro_txn() {
            Ok(_) => panic!("begin_rw_txn succeeded after compact"),
            Err(err) => match err.kind() {
                ErrorKind::StaleHandle => (),
                _ => panic!("begin_rw_txn failed with: {}", err.description()),
            },
        }
    }
    {
        match db.begin_rw_txn() {
            Ok(_) => panic!("begin_rw_txn succeeded after compact"),
            Err(err) => match err.kind() {
                ErrorKind::StaleHandle => (),
                _ => panic!("begin_rw_txn failed with: {}", err.description()),
            },
        }
    }
    assert!(db.reopen().is_ok());
    {
        assert!(db.begin_rw_txn().is_ok());
    }
}

#[test]
fn test_open_invalid_path() {
    let res = Database::new().open("bad\0path");
    assert!(res.is_err());
    if let Err(err) = res {
        assert_eq!(err.kind(), ErrorKind::Other);
        assert_eq!(err.description(), "Invalid path: bad\0path");
    }
}

#[test]
fn test_revert() {
    let mut db = Database::new().open("test").unwrap();
    // Nothing committed yet: nothing to revert.
    assert_eq!(db.revert().unwrap_err().kind(), ErrorKind::InvalidArgument);

    let mut txn = db.begin_rw_txn().unwrap();
    txn.put(&db, b"key", b"one", WriteFlags::empty()).unwrap();
    txn.commit(&mut db).unwrap();

    assert!(db.revert().is_ok());
    let ro = db.begin_ro_txn().unwrap();
    assert_eq!(ro.get(&db, b"key").unwrap_err().kind(), ErrorKind::NotFound);
}

#[test]
fn test_database_flag_bits() {
    assert_eq!(DatabaseFlags::empty().bits(), 0);
    assert_eq!(DatabaseFlags::no_sync().bits(), 0x02);
    assert_eq!(DatabaseFlags::read_only().bits(), 0x04);
    assert_eq!(DatabaseFlags::reverse_key().bits(), 0x08);
    assert_eq!(WriteFlags::empty().bits(), 0);
    assert_eq!(WriteFlags::no_overwrite().bits(), 0x01);
}

#[test]
fn test_set_cache_size() {
    let mut builder = Database::new();
    assert!(builder.set_cache_size(64).open("test").is_ok());
}
