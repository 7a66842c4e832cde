use typed_fdb::store::{Bucket, Field, Row, Table};
use typed_fdb::typed::{KeyIter, RowIter, TypedTable};

fn int_row(id: i32) -> Row {
    Row { fields: vec![Field::Integer(id)] }
}

fn three_bucket_table() -> Table {
    Table {
        name: "T".to_string(),
        columns: vec!["id".to_string()],
        buckets: vec![
            Bucket { rows: vec![int_row(0)] },
            Bucket { rows: vec![] },
            Bucket { rows: vec![int_row(2), int_row(5)] },
        ],
    }
}

#[test]
fn row_iter_visits_all_in_stored_order() {
    let t = three_bucket_table();
    let mut it = RowIter::new(&t);
    let mut seen: Vec<i32> = Vec::new();
    while let Some(r) = it.next() {
        seen.push(r.integer_at(0).unwrap());
    }
    assert_eq!(seen, vec![0, 2, 5]);
    assert!(it.next().is_none());
}

#[test]
fn row_iter_is_restartable() {
    let t = three_bucket_table();
    let mut first = RowIter::new(&t);
    assert_eq!(first.next().unwrap().integer_at(0), Some(0));
    // a fresh iterator re-scans from the start
    let mut second = RowIter::new(&t);
    assert_eq!(second.next().unwrap().integer_at(0), Some(0));
}

#[test]
fn row_iter_empty_table() {
    let t = Table {
        name: "T".to_string(),
        columns: vec![],
        buckets: vec![],
    };
    let mut it = RowIter::new(&t);
    assert!(it.next().is_none());
}

#[test]
fn key_iter_scans_one_bucket_without_filtering() {
    let t = three_bucket_table();
    // key 5 hashes to bucket 5 % 3 == 2; both rows there come out,
    // including the one whose key is not 5
    let mut it = KeyIter::new(&t, 5);
    assert_eq!(it.next().unwrap().integer_at(0), Some(2));
    assert_eq!(it.next().unwrap().integer_at(0), Some(5));
    assert!(it.next().is_none());
}

#[test]
fn key_iter_empty_bucket_yields_zero_rows() {
    let t = three_bucket_table();
    // key 1 hashes to bucket 1, which is empty: no rows, no error
    let mut it = KeyIter::new(&t, 1);
    assert!(it.next().is_none());
}

#[test]
fn typed_table_offers_both_iterations() {
    let t = three_bucket_table();
    let names: Vec<String> = vec!["id".to_string()];
    let required: Vec<bool> = vec![true];
    let tt = TypedTable::new(&t, &names, &required).unwrap();
    let mut full = tt.row_iter();
    let mut count = 0;
    while full.next().is_some() {
        count += 1;
    }
    assert_eq!(count, 3);
    let mut scoped = tt.key_iter(2);
    assert_eq!(scoped.next().unwrap().integer_at(0), Some(2));
    assert_eq!(scoped.next().unwrap().integer_at(0), Some(5));
    assert!(scoped.next().is_none());
}

#[test]
fn key_iter_bucketless_table_yields_zero_rows() {
    let t = Table {
        name: "T".to_string(),
        columns: vec![],
        buckets: vec![],
    };
    let mut it = KeyIter::new(&t, 7);
    assert!(it.next().is_none());
}
