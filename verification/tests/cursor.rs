use btree_client::{Database, Iter, Position, Transaction, WriteFlags};

fn drain(mut iter: Iter) -> Vec<(Vec<u8>, Vec<u8>)> {
    let mut out = Vec::new();
    while let Some(pair) = iter.next() {
        out.push(pair);
    }
    out
}

#[test]
fn test_get() {
    let mut db = Database::new().open("test").unwrap();

    let mut txn = db.begin_rw_txn().unwrap();
    txn.put(&db, b"key1", b"val1", WriteFlags::empty()).unwrap();
    txn.put(&db, b"key2", b"val2", WriteFlags::empty()).unwrap();
    txn.put(&db, b"key3", b"val3", WriteFlags::empty()).unwrap();

    let mut cursor = txn.open_ro_cursor(&db).unwrap();
    assert_eq!(
        (Some(b"key1".to_vec()), b"val1".to_vec()),
        cursor.get(None, None, Position::First).unwrap()
    );
    assert_eq!(
        (Some(b"key1".to_vec()), b"val1".to_vec()),
        cursor
            .get(Some(&b"key1"[..]), None, Position::Current)
            .unwrap()
    );
    assert_eq!(
        (Some(b"key1".to_vec()), b"val1".to_vec()),
        cursor
            .get(Some(&b"key1"[..]), None, Position::Exact)
            .unwrap()
    );
    assert_eq!(
        (Some(b"key2".to_vec()), b"val2".to_vec()),
        cursor.get(None, None, Position::Next).unwrap()
    );
}

#[test]
fn test_iter() {
    let mut db = Database::new().open("test").unwrap();

    let items: Vec<(Vec<u8>, Vec<u8>)> = vec![
        (b"key1".to_vec(), b"val1".to_vec()),
        (b"key2".to_vec(), b"val2".to_vec()),
        (b"key3".to_vec(), b"val3".to_vec()),
        (b"key5".to_vec(), b"val5".to_vec()),
    ];

    {
        let mut txn = db.begin_rw_txn().unwrap();
        for (key, data) in &items {
            txn.put(&db, key, data, WriteFlags::empty()).unwrap();
        }
        txn.commit(&mut db).unwrap();
    }

    let txn = db.begin_ro_txn().unwrap();
    let mut cursor = txn.open_ro_cursor(&db).unwrap();
    assert_eq!(items, drain(cursor.iter()));

    cursor.get(Some(b"key2"), None, Position::Current).unwrap();
    assert_eq!(
        items.clone().into_iter().skip(2).collect::<Vec<_>>(),
        drain(cursor.iter())
    );

    assert_eq!(items, drain(cursor.iter_start()));

    assert_eq!(
        items.clone().into_iter().skip(1).collect::<Vec<_>>(),
        drain(cursor.iter_from(b"key2"))
    );

    assert_eq!(
        items.clone().into_iter().skip(3).collect::<Vec<_>>(),
        drain(cursor.iter_from(b"key4"))
    );

    assert_eq!(
        vec![].into_iter().collect::<Vec<(Vec<u8>, Vec<u8>)>>(),
        drain(cursor.iter_from(b"key6"))
    );
}

#[test]
fn test_iter_empty_database() {
    let mut db = Database::new().open("test").unwrap();
    let txn = db.begin_ro_txn().unwrap();
    let mut cursor = txn.open_ro_cursor(&db).unwrap();

    assert_eq!(0, drain(cursor.iter()).len());
    assert_eq!(0, drain(cursor.iter_start()).len());
    assert_eq!(0, drain(cursor.iter_from(b"foo")).len());
}

fn match_below<P>(pat: P) -> impl Fn(&[u8]) -> bool
where
    P: AsRef<[u8]>,
{
    move |key: &[u8]| {
        key.len() >= pat.as_ref().len() && key[..pat.as_ref().len()] == pat.as_ref()[..]
    }
}

fn lookup_filter<F, I>(iter: I, filter: F) -> Vec<(Vec<u8>, Vec<u8>)>
where
    F: Fn(&[u8]) -> bool,
    I: Iterator<Item = (Vec<u8>, Vec<u8>)>,
{
    iter.filter(|(key, _)| filter(key))
        .map(|(key, val)| (key.to_vec(), val.to_vec()))
        .collect::<Vec<_>>()
}

#[test]
fn test_iter_count_keys() {
    let mut db = Database::new().open("test").unwrap();
    let entries = 1000;

    {
        let mut txn = db.begin_rw_txn().unwrap();
        for i in 0..entries {
            let key = format!("/r/{}", i);
            let val = format!("{}", i);
            txn.put(&db, key.as_bytes(), val.as_bytes(), WriteFlags::empty())
                .unwrap();
        }
        txn.commit(&mut db).unwrap();
    }

    let mut counter: usize = 0;
    {
        let txn = db.begin_ro_txn().unwrap();
        let mut cur = txn.open_ro_cursor(&db).unwrap();
        let mut iter = cur.iter();
        while let Some(_) = iter.next() {
            counter += 1;
        }
    }

    assert_eq!(counter, entries);
}

#[test]
fn test_iter_collect_keys() {
    let mut db = Database::new().open("test").unwrap();
    let entries = 1000;

    {
        let mut txn = db.begin_rw_txn().unwrap();
        for i in 0..entries {
            let key = format!("/r/{}", i);
            let val = format!("{}", i);
            txn.put(&db, key.as_bytes(), val.as_bytes(), WriteFlags::empty())
                .unwrap();
        }
        txn.commit(&mut db).unwrap();
    }

    let nkeys = {
        let txn = db.begin_ro_txn().unwrap();
        let mut cur = txn.open_ro_cursor(&db).unwrap();
        let iter = drain(cur.iter());
        lookup_filter(iter.into_iter(), match_below(&"/r/"))
    };

    assert_eq!(nkeys.len(), entries);
}

#[test]
fn test_iter_from_scenario() {
    let mut db = Database::new().open("test").unwrap();
    {
        let mut txn = db.begin_rw_txn().unwrap();
        txn.put(&db, b"key1", b"val1", WriteFlags::empty()).unwrap();
        txn.put(&db, b"key2", b"val2", WriteFlags::empty()).unwrap();
        txn.put(&db, b"key3", b"val3", WriteFlags::empty()).unwrap();
        txn.commit(&mut db).unwrap();
    }
    let txn = db.begin_ro_txn().unwrap();
    let mut cursor = txn.open_ro_cursor(&db).unwrap();
    assert_eq!(
        vec![
            (b"key2".to_vec(), b"val2".to_vec()),
            (b"key3".to_vec(), b"val3".to_vec()),
        ],
        drain(cursor.iter_from(b"key2"))
    );
    assert_eq!(0, drain(cursor.iter_from(b"key4")).len());
}

#[test]
fn test_iter_after_failed_seek() {
    let mut db = Database::new().open("test").unwrap();
    {
        let mut txn = db.begin_rw_txn().unwrap();
        txn.put(&db, b"key1", b"val1", WriteFlags::empty()).unwrap();
        txn.commit(&mut db).unwrap();
    }
    let txn = db.begin_ro_txn().unwrap();
    let mut cursor = txn.open_ro_cursor(&db).unwrap();
    // A seek past every key fails and leaves the cursor undefined, so a
    // plain iteration from it ends at once...
    assert!(cursor.get(Some(b"key2"), None, Position::Current).is_err());
    assert_eq!(0, drain(cursor.iter()).len());
    // ...while iterating from the start is unaffected.
    assert_eq!(1, drain(cursor.iter_start()).len());
}
