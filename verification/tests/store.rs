use typed_kv::batch::{batched_op, BatchReport};
use typed_kv::{Error, ErrorClass, DB};

const MAP_SIZE: u64 = 1024 * 1024;

fn open(name: &str) -> DB {
    let dir = format!("/tmp/typed_kv_tests/{}", name);
    let db = DB::init(&dir, MAP_SIZE).unwrap();
    db.delete_range(&[0u8], &[0xFFu8; 9]).unwrap();
    db
}

#[test]
fn generic_test() {
    let db = open("generic_test");

    {
        let res: Vec<(_, u8)> = db.read_range(&[0u8; 1], &[0xFFu8; 4]).unwrap();
        assert!(res.is_empty());
    }

    {
        let res: Vec<(_, Vec<u8>)> = db.read_range(&[0u8; 1], &[0xFFu8; 4]).unwrap();
        assert!(res.is_empty());
    }

    {
        assert!(db.read::<Vec<u8>>(&[0u8; 1]).is_err());
    }

    {
        let test_value = 69;
        let test_key = &[test_value];

        let _ = db.write(test_key, test_value).unwrap();

        let res: u8 = db.read(test_key).unwrap();
        assert_eq!(res, test_value);
    }

    {
        let set: Vec<(&[u8], u16)> = vec![
            (&[0x01u8, 0xAAu8][..], 0xAAAAu16),
            (&[0x01u8, 0xABu8][..], 0xAAABu16),
            (&[0x01u8, 0xACu8][..], 0xAAACu16),
            (&[0x01u8, 0xADu8][..], 0xAAADu16),
        ];

        db.write_bulk(set.clone(), true).unwrap();

        let mut res: Vec<(_, u16)> = db.read_range(set[0].0, set[3].0).unwrap();
        assert_eq!(res.len(), 3);

        res.reverse();

        for (k, v) in set.into_iter().take(3) {
            if let Some((r_k, r_v)) = res.pop() {
                assert_eq!(r_k, k);
                assert_eq!(r_v, v);
            } else {
                panic!("failed to unwrap pop");
            }
        }
        assert!(res.is_empty());
    }

    {
        let res: Vec<(_, u16)> = db.read_range(&[0x01u8, 0xAAu8], &[0x01u8, 0xAFu8]).unwrap();
        assert_eq!(res.len(), 4);
    }

    {
        let set: Vec<(&[u8], Vec<u8>)> = vec![
            (&[0x02u8, 0xAAu8][..], vec![0xFFu8; 4]),
            (&[0x02u8, 0xABu8][..], vec![0xFFu8; 4]),
            (&[0x02u8, 0xACu8][..], vec![0xFFu8; 4]),
            (&[0x02u8, 0xADu8][..], vec![0xFFu8; 4]),
        ];

        db.write_bulk(set, true).unwrap();

        let res: Vec<(_, Vec<u8>)> = db.read_range(&[0x02u8, 0xAAu8], &[0x02u8, 0xAFu8]).unwrap();
        assert_eq!(res.len(), 4);
    }
}

#[test]
fn read_of_absent_key_is_not_found() {
    let db = open("read_absent");
    db.write(&[7u8, 1u8], 5u16).unwrap();
    let missing: Result<u16, Error> = db.read(&[7u8, 2u8]);
    let e = missing.unwrap_err();
    assert_eq!(e.kind, ErrorClass::NotFound);
    assert!(e.is_not_found());
}

#[test]
fn batch_report_of_empty_batch() {
    let db = open("empty_batch");
    let report: BatchReport = batched_op(&db, 0, |_db, _i| Ok(true)).unwrap();
    assert_eq!(report.chunks, 0);
    assert_eq!(report.entries, 0);
    assert!(report.skipped.is_empty());
}

#[test]
fn bulk_write_then_range_returns_the_set_in_key_order() {
    let db = open("bulk_then_range");
    let set: Vec<(&[u8], u16)> = vec![
        (&[0x05u8, 0x03u8][..], 3u16),
        (&[0x05u8][..], 0u16),
        (&[0x05u8, 0x01u8, 0x00u8][..], 2u16),
        (&[0x05u8, 0x01u8][..], 1u16),
        (&[0x05u8, 0xFFu8][..], 4u16),
    ];
    let report = db.write_bulk(set, true).unwrap();
    assert_eq!(report.chunks, 1);
    assert_eq!(report.entries, 5);
    assert!(report.skipped.is_empty());

    let res: Vec<(Vec<u8>, u16)> = db.read_range(&[0x05u8], &[0x06u8]).unwrap();
    assert_eq!(
        res,
        vec![
            (vec![0x05u8], 0u16),
            (vec![0x05u8, 0x01u8], 1u16),
            (vec![0x05u8, 0x01u8, 0x00u8], 2u16),
            (vec![0x05u8, 0x03u8], 3u16),
            (vec![0x05u8, 0xFFu8], 4u16),
        ]
    );
}

#[test]
fn range_starts_at_start_and_ends_before_end() {
    let db = open("range_bounds");
    for i in 1u8..=5 {
        db.write(&[0x06u8, i], i).unwrap();
    }
    let res: Vec<(Vec<u8>, u8)> = db.read_range(&[0x06u8, 2u8], &[0x06u8, 4u8]).unwrap();
    assert_eq!(res, vec![(vec![0x06u8, 2u8], 2u8), (vec![0x06u8, 3u8], 3u8)]);
    let res: Vec<(Vec<u8>, u8)> = db.read_range(&[0x06u8, 4u8], &[0x06u8, 2u8]).unwrap();
    assert!(res.is_empty());
    let res: Vec<(Vec<u8>, u8)> = db.read_range(&[0x06u8, 3u8], &[0x06u8, 3u8]).unwrap();
    assert!(res.is_empty());
    assert_eq!(
        db.key_range(&[0x06u8, 4u8], &[0x07u8]).unwrap(),
        vec![vec![0x06u8, 4u8], vec![0x06u8, 5u8]]
    );
    assert_eq!(db.read_range_vars::<u8>(&[0x06u8], &[0x06u8, 3u8]).unwrap(), vec![1u8, 2u8]);
}

#[test]
fn delete_range_empties_the_range() {
    let db = open("delete_range");
    for i in 0u8..10 {
        db.write(&[0x08u8, i], i as u64).unwrap();
    }
    let report = db.delete_range(&[0x08u8, 3u8], &[0x08u8, 7u8]).unwrap();
    assert_eq!(report.entries, 4);
    assert_eq!(report.chunks, 1);
    let gone: Vec<(Vec<u8>, u64)> = db.read_range(&[0x08u8, 3u8], &[0x08u8, 7u8]).unwrap();
    assert!(gone.is_empty());
    let left = db.key_range(&[0x08u8], &[0x09u8]).unwrap();
    assert_eq!(left.len(), 6);
    let report = db.delete_range(&[0x08u8, 3u8], &[0x08u8, 7u8]).unwrap();
    assert_eq!(report.entries, 0);
    assert_eq!(report.chunks, 0);
}

#[test]
fn delete_range_over_several_chunks() {
    let db = open("delete_range_chunks");
    let keys: Vec<Vec<u8>> = (0..230usize).map(|i| vec![0x09u8, (i / 256) as u8, (i % 256) as u8]).collect();
    let set: Vec<(&[u8], u8)> = keys.iter().map(|k| (&k[..], 1u8)).collect();
    let report = db.write_bulk(set, true).unwrap();
    assert_eq!(report.chunks, 3);
    assert_eq!(report.entries, 230);
    let report = db.delete_range(&[0x09u8], &[0x0Au8]).unwrap();
    assert_eq!(report.chunks, 3);
    assert_eq!(report.entries, 230);
    assert!(db.key_range(&[0x09u8], &[0x0Au8]).unwrap().is_empty());
}

#[test]
fn scenario_four_entries_of_16_bit_values() {
    let db = open("scenario_16_bit");
    let set: Vec<(&[u8], u16)> = vec![
        (&[0x01u8, 0xAAu8][..], 0xAAAAu16),
        (&[0x01u8, 0xABu8][..], 0xAAABu16),
        (&[0x01u8, 0xACu8][..], 0xAAACu16),
        (&[0x01u8, 0xADu8][..], 0xAAADu16),
    ];
    db.write_bulk(set, true).unwrap();
    let res: Vec<(Vec<u8>, u16)> = db.read_range(&[0x01u8, 0xAAu8], &[0x01u8, 0xAFu8]).unwrap();
    assert_eq!(
        res,
        vec![
            (vec![0x01u8, 0xAAu8], 0xAAAAu16),
            (vec![0x01u8, 0xABu8], 0xAAABu16),
            (vec![0x01u8, 0xACu8], 0xAAACu16),
            (vec![0x01u8, 0xADu8], 0xAAADu16),
        ]
    );
}

#[test]
fn search_range_returns_the_first_match() {
    let db = open("search_range");
    let set: Vec<(&[u8], u16)> = vec![
        (&[0x0Bu8, 1u8][..], 3u16),
        (&[0x0Bu8, 2u8][..], 7u16),
        (&[0x0Bu8, 3u8][..], 2u16),
        (&[0x0Bu8, 4u8][..], 9u16),
        (&[0x0Bu8, 5u8][..], 12u16),
    ];
    db.write_bulk(set, true).unwrap();
    db.write(&[0x0Bu8, 6u8], vec![1u8, 2u8, 3u8]).unwrap();
    let seen = std::cell::RefCell::new(Vec::new());
    let found: u16 = db
        .search_range(&[0x0Bu8], &[0x0Cu8], |v: &u16| {
            seen.borrow_mut().push(*v);
            *v > 8
        })
        .unwrap();
    assert_eq!(found, 9);
    assert_eq!(seen.into_inner(), vec![3u16, 7, 2, 9]);

    let e = db.search_range(&[0x0Bu8], &[0x0Bu8, 5u8], |v: &u16| *v > 100).unwrap_err();
    assert_eq!(e.kind, ErrorClass::NotFound);
    let e = db.search_range(&[0x0Bu8], &[0x0Cu8], |v: &u16| *v > 100).unwrap_err();
    assert_eq!(e.kind, ErrorClass::Serialization);
}

#[test]
fn careful_bulk_write_leaves_stored_values_and_reports_the_skipped() {
    let db = open("careful_bulk");
    db.write(&[0x0Cu8, 2u8], 20u16).unwrap();
    let set: Vec<(&[u8], u16)> = vec![
        (&[0x0Cu8, 1u8][..], 1u16),
        (&[0x0Cu8, 2u8][..], 2u16),
        (&[0x0Cu8, 3u8][..], 3u16),
        (&[0x0Cu8, 1u8][..], 4u16),
    ];
    let report = db.write_bulk(set.clone(), false).unwrap();
    assert_eq!(report.entries, 4);
    assert_eq!(report.skipped, vec![1usize, 3]);
    assert_eq!(db.read::<u16>(&[0x0Cu8, 1u8]).unwrap(), 1);
    assert_eq!(db.read::<u16>(&[0x0Cu8, 2u8]).unwrap(), 20);
    assert_eq!(db.read::<u16>(&[0x0Cu8, 3u8]).unwrap(), 3);

    let report = db.write_bulk(set, true).unwrap();
    assert!(report.skipped.is_empty());
    assert_eq!(db.read::<u16>(&[0x0Cu8, 1u8]).unwrap(), 4);
    assert_eq!(db.read::<u16>(&[0x0Cu8, 2u8]).unwrap(), 2);
}

#[test]
fn write_replaces_and_delete_removes() {
    let db = open("write_delete");
    db.write(&[0x0Du8], 1u64).unwrap();
    db.write(&[0x0Du8], 2u64).unwrap();
    assert_eq!(db.read::<u64>(&[0x0Du8]).unwrap(), 2);
    db.delete(&[0x0Du8]).unwrap();
    assert_eq!(db.read::<u64>(&[0x0Du8]).unwrap_err().kind, ErrorClass::NotFound);
    assert_eq!(db.delete(&[0x0Du8]).unwrap_err().kind, ErrorClass::NotFound);
}

#[test]
fn delete_bulk_removes_the_keys() {
    let db = open("delete_bulk");
    for i in 0u8..4 {
        db.write(&[0x0Eu8, i], i).unwrap();
    }
    let report = db.delete_bulk(vec![&[0x0Eu8, 1u8][..], &[0x0Eu8, 3u8][..]]).unwrap();
    assert_eq!(report.entries, 2);
    assert_eq!(report.chunks, 1);
    assert_eq!(db.key_range(&[0x0Eu8], &[0x0Fu8]).unwrap(), vec![vec![0x0Eu8, 0u8], vec![0x0Eu8, 2u8]]);
    let failure = db.delete_bulk(vec![&[0x0Eu8, 0u8][..], &[0x0Eu8, 1u8][..]]).unwrap_err();
    assert_eq!(failure.cause.kind, ErrorClass::NotFound);
    assert_eq!(failure.committed.entries, 0);
    assert_eq!(db.read::<u8>(&[0x0Eu8, 0u8]).unwrap(), 0);
}

#[test]
fn stored_bytes_of_another_type_are_refused() {
    let db = open("wrong_type");
    db.write(&[0x0Fu8], 0xAAAAu16).unwrap();
    assert_eq!(db.read::<u64>(&[0x0Fu8]).unwrap_err().kind, ErrorClass::Serialization);
    assert_eq!(db.read::<u8>(&[0x0Fu8]).unwrap_err().kind, ErrorClass::Serialization);
    assert_eq!(
        db.read_range::<u64>(&[0x0Fu8], &[0x10u8]).unwrap_err().kind,
        ErrorClass::Serialization
    );
    assert_eq!(
        db.read_range_vars::<Vec<u8>>(&[0x0Fu8], &[0x10u8]).unwrap_err().kind,
        ErrorClass::Serialization
    );
    assert_eq!(db.read::<u16>(&[0x0Fu8]).unwrap(), 0xAAAA);
}

#[test]
fn integer_keys_scan_in_numeric_order() {
    let db = open("integer_keys");
    for k in [300u64, 2, 255, 256, 70000, 1] {
        let bytes = typed_kv::key::key_from_u64(k);
        db.write(&bytes, k).unwrap();
    }
    assert_eq!(db.read_u64::<u64>(256).unwrap(), 256);
    assert_eq!(db.read_u64::<u64>(3).unwrap_err().kind, ErrorClass::NotFound);
    let res: Vec<(Vec<u8>, u64)> = db.read_range_u64(2, 70000).unwrap();
    let values: Vec<u64> = res.iter().map(|(_, v)| *v).collect();
    assert_eq!(values, vec![2u64, 255, 256, 300]);
    for (k, v) in res {
        assert_eq!(typed_kv::key::key_to_u64(&k).unwrap(), v);
    }
}

#[test]
fn an_empty_key_cannot_be_written() {
    let db = open("empty_key");
    let e = db.write(&[], 1u8).unwrap_err();
    assert_eq!(e.kind, ErrorClass::StoreEngine);
}

#[test]
fn failed_unit_of_work_leaves_no_trace() {
    let db = open("abandoned_write");
    let r: Result<(), Error> = typed_kv::transaction::writer(&db, |bound| {
        typed_kv::table::write(bound, &[0x11u8, 1u8], &1u8)?;
        typed_kv::table::write(bound, &[0x11u8, 2u8], &2u8)?;
        Err(Error::caller_misuse("stop"))
    });
    let e = r.unwrap_err();
    assert_eq!(e.kind, ErrorClass::CallerMisuse);
    assert_eq!(e.description(), "stop");
    assert!(db.key_range(&[0x11u8], &[0x12u8]).unwrap().is_empty());

    let n: usize = typed_kv::transaction::writer(&db, |bound| {
        typed_kv::table::write(bound, &[0x11u8, 1u8], &1u8)?;
        typed_kv::table::write(bound, &[0x11u8, 2u8], &2u8)?;
        Ok(2usize)
    })
    .unwrap();
    assert_eq!(n, 2);
    assert_eq!(db.key_range(&[0x11u8], &[0x12u8]).unwrap().len(), 2);
}

#[test]
fn open_reader_does_not_see_a_later_commit() {
    let db = open("snapshot");
    db.write(&[0x12u8, 1u8], 1u16).unwrap();
    db.write(&[0x12u8, 3u8], 3u16).unwrap();
    let (before, after): (Vec<(Vec<u8>, u16)>, Vec<(Vec<u8>, u16)>) =
        typed_kv::transaction::reader(&db, |bound| {
            let before = typed_kv::table::read_range(bound, &[0x12u8], &[0x13u8])?;
            db.write(&[0x12u8, 2u8], 2u16)?;
            let after = typed_kv::table::read_range(bound, &[0x12u8], &[0x13u8])?;
            Ok((before, after))
        })
        .unwrap();
    let old = vec![(vec![0x12u8, 1u8], 1u16), (vec![0x12u8, 3u8], 3u16)];
    assert_eq!(before, old);
    assert_eq!(after, old);
    let now: Vec<(Vec<u8>, u16)> = db.read_range(&[0x12u8], &[0x13u8]).unwrap();
    assert_eq!(now.len(), 3);
    assert_eq!(now[1], (vec![0x12u8, 2u8], 2u16));
}

#[test]
fn init_fails_where_the_path_is_no_directory() {
    let db = open("init_path");
    drop(db);
    let r = DB::init("/tmp/typed_kv_tests/init_path/data.mdb", MAP_SIZE);
    match r {
        Ok(_) => panic!("opened a file as a directory"),
        Err(e) => assert_eq!(e.kind, ErrorClass::StoreEngine),
    }
}

#[test]
fn empty_range_gives_nothing() {
    let db = open("empty_range");
    for i in 1u8..=3 {
        db.write(&[0x13u8, i], i).unwrap();
    }
    assert!(db.read_range::<u8>(&[0x13u8, 3u8], &[0x13u8, 1u8]).unwrap().is_empty());
    assert!(db.read_range_vars::<u8>(&[0x13u8, 2u8], &[0x13u8, 2u8]).unwrap().is_empty());
    assert!(db.key_range(&[0x14u8], &[0x13u8]).unwrap().is_empty());
    let report = db.delete_range(&[0x14u8], &[0x13u8]).unwrap();
    assert_eq!(report.entries, 0);
    assert_eq!(report.chunks, 0);
    assert_eq!(db.key_range(&[0x13u8], &[0x14u8]).unwrap().len(), 3);
}

#[test]
fn scan_from_the_empty_key_starts_at_the_first_entry() {
    let db = open("empty_start");
    db.write(&[0u8], 0u8).unwrap();
    db.write(&[0u8, 0u8], 1u8).unwrap();
    db.write(&[0x15u8], 2u8).unwrap();
    let res: Vec<(Vec<u8>, u8)> = db.read_range(&[], &[0x16u8]).unwrap();
    assert_eq!(
        res,
        vec![(vec![0u8], 0u8), (vec![0u8, 0u8], 1u8), (vec![0x15u8], 2u8)]
    );
    assert_eq!(db.read_range_vars::<u8>(&[], &[0x15u8]).unwrap(), vec![0u8, 1u8]);
    assert_eq!(db.key_range(&[], &[0u8, 0u8]).unwrap(), vec![vec![0u8]]);
    assert_eq!(db.search_range(&[], &[0x16u8], |v: &u8| *v > 0).unwrap(), 1);
    let report = db.delete_range(&[], &[0x16u8]).unwrap();
    assert_eq!(report.entries, 3);
    assert!(db.key_range(&[], &[0xFFu8]).unwrap().is_empty());
}

#[test]
fn later_pair_on_one_key_wins_when_replacing() {
    let db = open("later_wins");
    let report = db
        .write_bulk(vec![(&[1u8][..], 1u8), (&[1u8][..], 2u8)], true)
        .unwrap();
    assert_eq!(report.entries, 2);
    assert!(report.skipped.is_empty());
    assert_eq!(db.read::<u8>(&[1u8]).unwrap(), 2);
}

#[test]
fn bulk_write_leaves_other_entries_as_they_were() {
    let db = open("bulk_others");
    db.write(&[0x17u8, 0u8], 9u16).unwrap();
    db.write_bulk(vec![(&[0x17u8, 1u8][..], 1u16), (&[0x17u8, 2u8][..], 2u16)], true)
        .unwrap();
    let all: Vec<(Vec<u8>, u16)> = db.read_range(&[0x17u8], &[0x18u8]).unwrap();
    assert_eq!(
        all,
        vec![
            (vec![0x17u8, 0u8], 9u16),
            (vec![0x17u8, 1u8], 1u16),
            (vec![0x17u8, 2u8], 2u16),
        ]
    );
}

#[test]
fn delete_range_leaves_entries_outside_the_range() {
    let db = open("delete_range_outside");
    for i in 0u8..6 {
        db.write(&[0x18u8, i], i).unwrap();
    }
    let report = db.delete_range(&[0x18u8, 2u8], &[0x18u8, 4u8]).unwrap();
    assert_eq!(report.entries, 2);
    let left: Vec<(Vec<u8>, u8)> = db.read_range(&[0x18u8], &[0x19u8]).unwrap();
    assert_eq!(
        left,
        vec![
            (vec![0x18u8, 0u8], 0u8),
            (vec![0x18u8, 1u8], 1u8),
            (vec![0x18u8, 4u8], 4u8),
            (vec![0x18u8, 5u8], 5u8),
        ]
    );
}

#[test]
fn delete_range_outcome_hands_on_a_failed_look_up() {
    let db = open("delete_outcome");
    db.write(&[0x19u8, 1u8], 1u8).unwrap();
    let failure = db
        .delete_range_outcome(Err(Error::new(ErrorClass::StoreEngine, "no reader".to_string())))
        .unwrap_err();
    assert_eq!(failure.cause.kind, ErrorClass::StoreEngine);
    assert_eq!(failure.cause.description(), "no reader");
    assert_eq!(failure.committed.chunks, 0);
    assert_eq!(failure.committed.entries, 0);
    assert_eq!(db.read::<u8>(&[0x19u8, 1u8]).unwrap(), 1);

    let report = db.delete_range_outcome(Ok(vec![vec![0x19u8, 1u8]])).unwrap();
    assert_eq!(report.entries, 1);
    assert_eq!(report.chunks, 1);
    assert_eq!(db.read::<u8>(&[0x19u8, 1u8]).unwrap_err().kind, ErrorClass::NotFound);
}

#[test]
fn bulk_write_that_fails_in_the_second_chunk_keeps_the_first() {
    let db = open("bulk_partial");
    let keys: Vec<Vec<u8>> = (0..250usize)
        .map(|i| if i == 150 { Vec::new() } else { vec![0x1Au8, (i / 256) as u8, (i % 256) as u8] })
        .collect();
    let pairs: Vec<(&[u8], u64)> = keys.iter().enumerate().map(|(i, k)| (&k[..], i as u64)).collect();
    let failure = db.write_bulk(pairs, true).unwrap_err();
    assert_eq!(failure.cause.kind, ErrorClass::StoreEngine);
    assert_eq!(failure.committed.chunks, 1);
    assert_eq!(failure.committed.entries, 100);
    for i in 0..250usize {
        if i == 150 {
            continue;
        }
        let r = db.read::<u64>(&keys[i]);
        if i < 100 {
            assert_eq!(r.unwrap(), i as u64);
        } else {
            assert_eq!(r.unwrap_err().kind, ErrorClass::NotFound);
        }
    }
}

#[test]
fn raw_bytes_and_truth_values_go_through_the_store() {
    let db = open("raw_and_bool");
    db.write(&[0x1Bu8, 1u8], typed_kv::RawBytes(vec![2u8])).unwrap();
    db.write(&[0x1Bu8, 2u8], true).unwrap();
    assert_eq!(db.read::<typed_kv::RawBytes>(&[0x1Bu8, 2u8]).unwrap().0, vec![1u8]);
    assert_eq!(db.read::<bool>(&[0x1Bu8, 2u8]).unwrap(), true);
    assert_eq!(db.read::<bool>(&[0x1Bu8, 1u8]).unwrap_err().kind, ErrorClass::Serialization);
    assert_eq!(db.read::<u8>(&[0x1Bu8, 1u8]).unwrap(), 2);
}

#[test]
fn search_with_a_failing_predicate_fails_with_its_failure() {
    let db = open("try_search");
    let set: Vec<(&[u8], u16)> = vec![
        (&[0x1Cu8, 1u8][..], 3u16),
        (&[0x1Cu8, 2u8][..], 7u16),
        (&[0x1Cu8, 3u8][..], 9u16),
    ];
    db.write_bulk(set, true).unwrap();
    let found: u16 = db.try_search_range(&[0x1Cu8], &[0x1Du8], |v: &u16| Ok(*v > 8)).unwrap();
    assert_eq!(found, 9);
    let e = db
        .try_search_range(&[0x1Cu8], &[0x1Du8], |v: &u16| {
            if *v == 7 {
                Err(Error::caller_misuse("seven"))
            } else {
                Ok(*v > 8)
            }
        })
        .unwrap_err();
    assert_eq!(e.kind, ErrorClass::CallerMisuse);
    assert_eq!(e.description(), "seven");
    let e = db.try_search_range(&[0x1Cu8], &[0x1Du8], |v: &u16| Ok(*v > 100)).unwrap_err();
    assert_eq!(e.kind, ErrorClass::NotFound);
}
