use typed_fdb::queries::{mission_tasks_kind, missions_kind};
use typed_fdb::store::{Bucket, Field, Row, Table};
use typed_fdb::typed::{read_record, Extract, TypedRow, TypedTable};

fn missions_table() -> Table {
    Table {
        name: "Missions".to_string(),
        columns: vec![
            "id".to_string(),
            "isMission".to_string(),
            "missionIconID".to_string(),
        ],
        buckets: vec![Bucket {
            rows: vec![Row {
                fields: vec![
                    Field::Integer(5),
                    Field::Boolean(true),
                    Field::Integer(42),
                ],
            }],
        }],
    }
}

#[test]
fn serialize_emits_every_declared_field_in_order() {
    let t = missions_table();
    let (names, required) = missions_kind();
    let tt = TypedTable::new(&t, &names, &required).unwrap();
    let tr = TypedRow::new(&t.buckets[0].rows[0], &tt);
    let rec = tr.serialize(&names);
    assert_eq!(rec.len(), 6);
    for (i, entry) in rec.iter().enumerate() {
        assert_eq!(entry.name, names[i]);
    }
    assert_eq!(rec[0].value, Field::Integer(5));
    // optional columns absent from this file serialize as explicit no-value
    assert_eq!(rec[1].value, Field::Nothing);
    assert_eq!(rec[2].value, Field::Nothing);
    assert_eq!(rec[3].value, Field::Boolean(true));
    assert_eq!(rec[4].value, Field::Nothing);
    assert_eq!(rec[5].value, Field::Integer(42));
}

#[test]
fn serialize_round_trip_matches_direct_reads() {
    let t = missions_table();
    let (names, required) = missions_kind();
    let tt = TypedTable::new(&t, &names, &required).unwrap();
    let tr = TypedRow::new(&t.buckets[0].rows[0], &tt);
    let rec = tr.serialize(&names);
    for (i, name) in names.iter().enumerate() {
        let re_read = read_record(&rec, name).unwrap();
        let direct = tr.get_field(i);
        assert_eq!(*re_read, direct);
    }
}

#[test]
fn generalized_get_with_distinct_hash_and_compare_keys() {
    let t = Table {
        name: "MissionTasks".to_string(),
        columns: vec![
            "id".to_string(),
            "locStatus".to_string(),
            "taskType".to_string(),
            "IconID".to_string(),
            "uid".to_string(),
            "localize".to_string(),
        ],
        buckets: vec![Bucket {
            rows: vec![
                Row {
                    fields: vec![
                        Field::Integer(7),
                        Field::Integer(0),
                        Field::Integer(1),
                        Field::Integer(3),
                        Field::Integer(100),
                        Field::Boolean(true),
                    ],
                },
                Row {
                    fields: vec![
                        Field::Integer(7),
                        Field::Integer(0),
                        Field::Integer(1),
                        Field::Integer(4),
                        Field::Integer(101),
                        Field::Boolean(true),
                    ],
                },
            ],
        }],
    };
    let (names, required) = mission_tasks_kind();
    let tt = TypedTable::new(&t, &names, &required).unwrap();
    // bucket chosen by the mission id, equality checked on the uid column
    let hit = TypedRow::get(&tt, 7, 101, 4).unwrap();
    assert_eq!(hit.row.integer_at(3), Some(4));
    assert!(TypedRow::get(&tt, 7, 999, 4).is_none());
    // plain primary-key lookup
    let first = TypedRow::get(&tt, 7, 7, 0).unwrap();
    assert_eq!(first.row.integer_at(4), Some(100));
}

#[test]
fn extract_decodes_variants() {
    let f = Field::Integer(9);
    let v: i32 = Extract::from_field(&f);
    assert_eq!(v, 9);
    let b: bool = Extract::from_field(&Field::Boolean(true));
    assert!(b);
    let o: Option<i32> = Extract::from_field(&Field::Nothing);
    assert_eq!(o, None);
    let ob: Option<bool> = Extract::from_field(&Field::Boolean(false));
    assert_eq!(ob, Some(false));
}
