//! Plain-value model of the tabular store, and the hashed bucket
//! lookup protocol shared by every point query.
//!
//! A store is an ordered set of tables; a table distributes its rows over a
//! fixed number of buckets, chosen at file-build time from the bit pattern
//! of each row's integer primary key. Text is held decoded into `String`
//! (the file's Latin-1 bytes decode losslessly); a 32-bit float is held as
//! its raw bit pattern, since this layer never computes with floats.

use vstd::prelude::*;

verus! {

/// One value read from one column of one row.
#[derive(Debug, PartialEq)]
pub enum Field {
    /// No value stored.
    Nothing,
    /// A signed 32-bit integer.
    Integer(i32),
    /// The bit pattern of a 32-bit float.
    Float(u32),
    /// Decoded text.
    Text(String),
    /// A boolean.
    Boolean(bool),
}

/// The mathematical value of a [`Field`].
pub enum FieldV {
    /// No value stored.
    Nothing,
    /// A signed 32-bit integer.
    Integer(i32),
    /// The bit pattern of a 32-bit float.
    Float(u32),
    /// Decoded text.
    Text(Seq<char>),
    /// A boolean.
    Boolean(bool),
}

impl View for Field {
    type V = FieldV;

    open spec fn view(&self) -> FieldV {
        match self {
            Field::Nothing => FieldV::Nothing,
            Field::Integer(v) => FieldV::Integer(*v),
            Field::Float(bits) => FieldV::Float(*bits),
            Field::Text(s) => FieldV::Text(s@),
            Field::Boolean(b) => FieldV::Boolean(*b),
        }
    }
}

/// One stored row: its fields in declared column order.
#[derive(Debug, Clone, PartialEq)]
pub struct Row {
    /// The fields, in declared column order.
    pub fields: Vec<Field>,
}

impl View for Row {
    type V = Seq<FieldV>;

    open spec fn view(&self) -> Seq<FieldV> {
        self.fields@.map_values(|f: Field| f@)
    }
}

/// One bucket: the rows whose primary key hashed here, in stored order.
#[derive(Clone)]
pub struct Bucket {
    /// The rows, in stored order.
    pub rows: Vec<Row>,
}

impl View for Bucket {
    type V = Seq<Seq<FieldV>>;

    open spec fn view(&self) -> Seq<Seq<FieldV>> {
        self.rows@.map_values(|r: Row| r@)
    }
}

/// The mathematical value of a [`Table`].
pub struct TableV {
    /// The table's lookup name.
    pub name: Seq<char>,
    /// The column names, in declared order.
    pub columns: Seq<Seq<char>>,
    /// The buckets, each a sequence of rows.
    pub buckets: Seq<Seq<Seq<FieldV>>>,
}

/// One table: a name, a column schema, and rows distributed over buckets.
#[derive(Clone)]
pub struct Table {
    /// The table's lookup name.
    pub name: String,
    /// The column names, in declared order.
    pub columns: Vec<String>,
    /// The buckets, each holding its rows in stored order.
    pub buckets: Vec<Bucket>,
}

impl View for Table {
    type V = TableV;

    open spec fn view(&self) -> TableV {
        TableV {
            name: self.name@,
            columns: self.columns@.map_values(|c: String| c@),
            buckets: self.buckets@.map_values(|b: Bucket| b@),
        }
    }
}

/// An opened store: the tables of one database file.
#[derive(Clone)]
pub struct Store {
    /// The tables, in file order.
    pub tables: Vec<Table>,
}

impl View for Store {
    type V = Seq<TableV>;

    open spec fn view(&self) -> Seq<TableV> {
        self.tables@.map_values(|t: Table| t@)
    }
}

/// The unsigned 32-bit reinterpretation of a signed 32-bit key: the bit
/// image is preserved, so negative keys map to large values.
pub open spec fn key_bits(k: i32) -> int {
    if k >= 0 {
        k as int
    } else {
        k as int + 0x1_0000_0000
    }
}

/// The bucket index the lookup protocol chooses for key `k` among `n` buckets.
pub open spec fn bucket_index_spec(k: i32, n: int) -> int
    recommends
        n > 0,
{
    key_bits(k) % n
}

/// Hash determinism: two keys whose unsigned 32-bit reinterpretations agree
/// modulo the bucket count are sent to the same bucket.
pub proof fn lemma_bucket_deterministic(k1: i32, k2: i32, n: int)
    requires
        n > 0,
        key_bits(k1) % n == key_bits(k2) % n,
    ensures
        bucket_index_spec(k1, n) == bucket_index_spec(k2, n),
{
}

/// Reinterpret a signed 32-bit key as its unsigned 32-bit bit pattern.
pub fn key_hash(k: i32) -> (h: u32)
    ensures
        h as int == key_bits(k),
{
    if k >= 0 {
        k as u32
    } else {
        let wide: i64 = k as i64 + 0x1_0000_0000;
        wide as u32
    }
}

/// Compute the bucket index for key `k` among `n` buckets.
pub fn bucket_index(k: i32, n: usize) -> (i: usize)
    requires
        n > 0,
    ensures
        i as int == bucket_index_spec(k, n as int),
        i < n,
{
    let h = key_hash(k);
    ((h as u64) % (n as u64)) as usize
}

/// The field of `row` at column `i`, or "no value" when the row has no
/// such column.
pub open spec fn field_or_nothing(row: Seq<FieldV>, i: int) -> FieldV {
    if 0 <= i < row.len() {
        row[i]
    } else {
        FieldV::Nothing
    }
}

/// The integer a field decodes to, if it holds one.
pub open spec fn opt_integer(f: FieldV) -> Option<i32> {
    match f {
        FieldV::Integer(v) => Some(v),
        _ => None,
    }
}

/// The boolean a field decodes to, if it holds one.
pub open spec fn opt_boolean(f: FieldV) -> Option<bool> {
    match f {
        FieldV::Boolean(b) => Some(b),
        _ => None,
    }
}

/// The text a field decodes to, if it holds any.
pub open spec fn opt_text(f: FieldV) -> Option<Seq<char>> {
    match f {
        FieldV::Text(s) => Some(s),
        _ => None,
    }
}

/// Whether a row's designated primary-key field (column 0) equals `key`
/// exactly, on the integer variant.
pub open spec fn row_matches(row: Seq<FieldV>, key: i32) -> bool {
    field_or_nothing(row, 0) == FieldV::Integer(key)
}

/// The first row of `rows` satisfying `pred`, in stored order.
pub open spec fn first_where(rows: Seq<Seq<FieldV>>, pred: spec_fn(Seq<FieldV>) -> bool) -> Option<
    Seq<FieldV>,
>
    decreases rows.len(),
{
    if rows.len() == 0 {
        None
    } else {
        let prev = first_where(rows.drop_last(), pred);
        if prev is Some {
            prev
        } else if pred(rows.last()) {
            Some(rows.last())
        } else {
            None
        }
    }
}

/// The predicate "this row's primary key equals `key`".
pub open spec fn match_pred(key: i32) -> spec_fn(Seq<FieldV>) -> bool {
    |r: Seq<FieldV>| row_matches(r, key)
}

/// The first row of `rows` whose primary key equals `key`.
pub open spec fn first_match(rows: Seq<Seq<FieldV>>, key: i32) -> Option<Seq<FieldV>> {
    first_where(rows, match_pred(key))
}

/// Once a prefix of `rows` has a first hit, the whole sequence has the
/// same one: later rows cannot change it.
pub proof fn lemma_first_where_prefix(
    rows: Seq<Seq<FieldV>>,
    pred: spec_fn(Seq<FieldV>) -> bool,
    j: int,
)
    requires
        0 <= j <= rows.len(),
        first_where(rows.take(j), pred) is Some,
    ensures
        first_where(rows, pred) == first_where(rows.take(j), pred),
    decreases rows.len() - j,
{
    if j == rows.len() {
        assert(rows.take(j) =~= rows);
    } else {
        assert(rows.take(j + 1).drop_last() =~= rows.take(j));
        assert(first_where(rows.take(j + 1), pred) == first_where(rows.take(j), pred));
        lemma_first_where_prefix(rows, pred, j + 1);
    }
}

/// The rows the lookup protocol scans for key `k`: the rows of the chosen
/// bucket, or no rows at all when the table has no buckets.
pub open spec fn rows_for_key(t: TableV, k: i32) -> Seq<Seq<FieldV>> {
    if t.buckets.len() == 0 {
        Seq::empty()
    } else {
        t.buckets[bucket_index_spec(k, t.buckets.len() as int)]
    }
}

impl Field {
    /// The integer this field holds, if it is the integer variant.
    pub fn into_opt_integer(&self) -> (r: Option<i32>)
        ensures
            r == opt_integer(self@),
    {
        match self {
            Field::Integer(v) => Some(*v),
            _ => None,
        }
    }

    /// The boolean this field holds, if it is the boolean variant.
    pub fn into_opt_boolean(&self) -> (r: Option<bool>)
        ensures
            r == opt_boolean(self@),
    {
        match self {
            Field::Boolean(b) => Some(*b),
            _ => None,
        }
    }

    /// The text this field holds, if it is the text variant.
    pub fn into_opt_text(&self) -> (r: Option<&String>)
        ensures
            match r {
                Some(s) => opt_text(self@) == Some(s@),
                None => opt_text(self@) is None,
            },
    {
        match self {
            Field::Text(s) => Some(s),
            _ => None,
        }
    }
}

impl Clone for Field {
    /// Cloning keeps the field's value.
    fn clone(&self) -> (r: Self)
        ensures
            r@ == self@,
    {
        match self {
            Field::Nothing => Field::Nothing,
            Field::Integer(v) => Field::Integer(*v),
            Field::Float(bits) => Field::Float(*bits),
            Field::Text(s) => Field::Text(s.clone()),
            Field::Boolean(b) => Field::Boolean(*b),
        }
    }
}

impl Row {
    /// The field at column `i`, if the row has one there.
    pub fn field_at(&self, i: usize) -> (r: Option<&Field>)
        ensures
            match r {
                Some(f) => i < self@.len() && f@ == self@[i as int],
                None => i >= self@.len(),
            },
    {
        if i < self.fields.len() {
            Some(&self.fields[i])
        } else {
            None
        }
    }

    /// The field at column `i`, with "no value" standing in for a column
    /// the row does not reach.
    pub fn field_or_nothing_at(&self, i: usize) -> (r: Field)
        ensures
            r@ == field_or_nothing(self@, i as int),
    {
        match self.field_at(i) {
            Some(f) => f.clone(),
            None => Field::Nothing,
        }
    }

    /// The integer at column `i`, if that field is the integer variant.
    pub fn integer_at(&self, i: usize) -> (r: Option<i32>)
        ensures
            r == opt_integer(field_or_nothing(self@, i as int)),
    {
        match self.field_at(i) {
            Some(f) => f.into_opt_integer(),
            None => None,
        }
    }

    /// The boolean at column `i`, if that field is the boolean variant.
    pub fn boolean_at(&self, i: usize) -> (r: Option<bool>)
        ensures
            r == opt_boolean(field_or_nothing(self@, i as int)),
    {
        match self.field_at(i) {
            Some(f) => f.into_opt_boolean(),
            None => None,
        }
    }

    /// The text at column `i`, if that field is the text variant.
    pub fn text_at(&self, i: usize) -> (r: Option<&String>)
        ensures
            match r {
                Some(s) => opt_text(field_or_nothing(self@, i as int)) == Some(s@),
                None => opt_text(field_or_nothing(self@, i as int)) is None,
            },
    {
        match self.field_at(i) {
            Some(f) => f.into_opt_text(),
            None => None,
        }
    }

    /// Whether this row's designated primary-key field equals `key`.
    pub fn key_matches(&self, key: i32) -> (r: bool)
        ensures
            r == row_matches(self@, key),
    {
        match self.field_at(0) {
            Some(f) => match f {
                Field::Integer(v) => *v == key,
                _ => false,
            },
            None => false,
        }
    }
}

impl Table {
    /// The bucket the lookup protocol scans for key `k`, if the table has
    /// any buckets at all.
    pub fn bucket_for_key(&self, k: i32) -> (b: Option<&Bucket>)
        ensures
            match b {
                Some(bb) => bb@ == rows_for_key(self@, k),
                None => self@.buckets.len() == 0 && rows_for_key(self@, k) == Seq::<
                    Seq<FieldV>,
                >::empty(),
            },
    {
        let n = self.buckets.len();
        if n == 0 {
            None
        } else {
            let i = bucket_index(k, n);
            Some(&self.buckets[i])
        }
    }
}

/// The index of the first table of `tables` named `name`.
pub open spec fn table_with_name(tables: Seq<TableV>, name: Seq<char>) -> Option<int>
    decreases tables.len(),
{
    if tables.len() == 0 {
        None
    } else {
        let prev = table_with_name(tables.drop_last(), name);
        if prev is Some {
            prev
        } else if tables.last().name == name {
            Some(tables.len() - 1)
        } else {
            None
        }
    }
}

/// Once a prefix of `tables` holds the name, the whole sequence finds the
/// same index.
pub proof fn lemma_table_with_name_prefix(tables: Seq<TableV>, name: Seq<char>, j: int)
    requires
        0 <= j <= tables.len(),
        table_with_name(tables.take(j), name) is Some,
    ensures
        table_with_name(tables, name) == table_with_name(tables.take(j), name),
    decreases tables.len() - j,
{
    if j == tables.len() {
        assert(tables.take(j) =~= tables);
    } else {
        assert(tables.take(j + 1).drop_last() =~= tables.take(j));
        lemma_table_with_name_prefix(tables, name, j + 1);
    }
}

impl Store {
    /// Look a table up by its name: the first table so named, or nothing.
    pub fn by_name(&self, name: &str) -> (r: Option<&Table>)
        ensures
            match r {
                Some(t) => {
                    &&& table_with_name(self@, name@) is Some
                    &&& t@ == self@[table_with_name(self@, name@).unwrap()]
                    &&& t@.name == name@
                },
                None => table_with_name(self@, name@) is None,
            },
    {
        let key: String = name.to_owned();
        let n = self.tables.len();
        for i in 0..n
            invariant
                n == self.tables.len(),
                key@ == name@,
                table_with_name(self@.take(i as int), name@) is None,
        {
            if self.tables[i].name == key {
                proof {
                    assert(self@.take(i + 1).drop_last() =~= self@.take(i as int));
                    assert(self@.take(i + 1).last() == self@[i as int]);
                    assert(table_with_name(self@.take(i + 1), name@) == Some(i as int));
                    lemma_table_with_name_prefix(self@, name@, i + 1);
                }
                return Some(&self.tables[i]);
            }
            proof {
                assert(self@.take(i + 1).drop_last() =~= self@.take(i as int));
            }
        }
        proof {
            assert(self@.take(n as int) =~= self@);
        }
        None
    }
}

} // verus!
