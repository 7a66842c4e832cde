//! The typed-table layer: the column resolver that binds well-known column
//! names to the positions found in a concrete file, typed rows, row
//! iteration, and the structured serialization view of a row.

use vstd::prelude::*;
use crate::store::{
    field_or_nothing, first_where, opt_integer, rows_for_key, Field, FieldV, Row, Table, TableV,
};

verus! {

/// A schema mismatch found when a typed table or database is constructed.
#[derive(Debug, Clone, PartialEq, Eq)]
pub enum SchemaError {
    /// A required table is missing from the store.
    MissingTable {
        /// The lookup name of the missing table.
        table: String,
    },
    /// A required column is missing from a table that was found.
    MissingColumn {
        /// The lookup name of the table.
        table: String,
        /// The declared name of the missing column.
        column: String,
    },
}

/// The mathematical value of a [`SchemaError`].
pub enum SchemaErrorV {
    /// A required table is missing from the store.
    MissingTable {
        /// The lookup name of the missing table.
        table: Seq<char>,
    },
    /// A required column is missing from a table that was found.
    MissingColumn {
        /// The lookup name of the table.
        table: Seq<char>,
        /// The declared name of the missing column.
        column: Seq<char>,
    },
}

impl View for SchemaError {
    type V = SchemaErrorV;

    open spec fn view(&self) -> SchemaErrorV {
        match self {
            SchemaError::MissingTable { table } => SchemaErrorV::MissingTable { table: table@ },
            SchemaError::MissingColumn { table, column } => SchemaErrorV::MissingColumn {
                table: table@,
                column: column@,
            },
        }
    }
}

/// The index of the first column of `columns` named `name`.
pub open spec fn find_col(columns: Seq<Seq<char>>, name: Seq<char>) -> Option<int>
    decreases columns.len(),
{
    if columns.len() == 0 {
        None
    } else {
        let prev = find_col(columns.drop_last(), name);
        if prev is Some {
            prev
        } else if columns.last() == name {
            Some(columns.len() - 1)
        } else {
            None
        }
    }
}

/// Once a prefix of `columns` holds the name, the whole schema resolves
/// to the same index.
pub proof fn lemma_find_col_prefix(columns: Seq<Seq<char>>, name: Seq<char>, j: int)
    requires
        0 <= j <= columns.len(),
        find_col(columns.take(j), name) is Some,
    ensures
        find_col(columns, name) == find_col(columns.take(j), name),
    decreases columns.len() - j,
{
    if j == columns.len() {
        assert(columns.take(j) =~= columns);
    } else {
        assert(columns.take(j + 1).drop_last() =~= columns.take(j));
        lemma_find_col_prefix(columns, name, j + 1);
    }
}

/// The mathematical value of a resolved column index.
pub open spec fn opt_col(x: Option<usize>) -> Option<int> {
    match x {
        Some(i) => Some(i as int),
        None => None,
    }
}

/// Resolve one well-known column name against a table's schema: the
/// position of the first column so named, independent of declared order.
pub fn resolve_col(columns: &Vec<String>, name: &str) -> (r: Option<usize>)
    ensures
        opt_col(r) == find_col(columns@.map_values(|c: String| c@), name@),
{
    let key: String = name.to_owned();
    let ghost cv = columns@.map_values(|c: String| c@);
    let n = columns.len();
    for i in 0..n
        invariant
            n == columns.len(),
            key@ == name@,
            cv == columns@.map_values(|c: String| c@),
            find_col(cv.take(i as int), name@) is None,
    {
        if columns[i].eq(&key) {
            proof {
                assert(cv.take(i + 1).drop_last() =~= cv.take(i as int));
                assert(cv.take(i + 1).last() == cv[i as int]);
                assert(find_col(cv.take(i + 1), name@) == Some(i as int));
                lemma_find_col_prefix(cv, name@, i + 1);
            }
            return Some(i);
        }
        proof {
            assert(cv.take(i + 1).drop_last() =~= cv.take(i as int));
        }
    }
    proof {
        assert(cv.take(n as int) =~= cv);
    }
    None
}

/// The first well-known column, at or after position `i`, that is
/// required but absent from the schema.
pub open spec fn first_missing_from(
    columns: Seq<Seq<char>>,
    names: Seq<Seq<char>>,
    required: Seq<bool>,
    i: int,
) -> Option<int>
    decreases names.len() - i,
{
    if i < 0 || i >= names.len() {
        None
    } else if required[i] && find_col(columns, names[i]) is None {
        Some(i)
    } else {
        first_missing_from(columns, names, required, i + 1)
    }
}

/// The first well-known column that is required but absent from the schema.
pub open spec fn first_missing(
    columns: Seq<Seq<char>>,
    names: Seq<Seq<char>>,
    required: Seq<bool>,
) -> Option<int> {
    first_missing_from(columns, names, required, 0)
}

/// The binding of one raw table to the resolved positions of its
/// well-known columns: the unit of schema knowledge for one table kind.
pub struct TypedTable<'a> {
    /// The raw table.
    pub table: &'a Table,
    /// For each well-known column of this table kind, in declaration
    /// order: the real column position found in the schema, or absent.
    pub cols: Vec<Option<usize>>,
}

impl<'a> TypedTable<'a> {
    /// The resolution invariant for a table kind given by its well-known
    /// column `names` and their `required` flags: every name was looked
    /// up in the table's own schema, and every required one was found.
    pub open spec fn resolves(self, names: Seq<Seq<char>>, required: Seq<bool>) -> bool {
        &&& self.cols@.len() == names.len()
        &&& required.len() == names.len()
        &&& forall|i: int|
            0 <= i < names.len() ==> opt_col(#[trigger] self.cols@[i]) == find_col(
                self.table@.columns,
                names[i],
            )
        &&& forall|i: int| 0 <= i < names.len() && required[i] ==> self.cols@[i] is Some
    }

    /// Return the contained raw table.
    pub fn as_raw(&self) -> (t: &'a Table)
        ensures
            t == self.table,
    {
        self.table
    }

    /// The resolved position of well-known column `c`, or absent.
    pub fn get_col(&self, c: usize) -> (r: Option<usize>)
        requires
            c < self.cols@.len(),
        ensures
            r == self.cols@[c as int],
    {
        self.cols[c]
    }

    /// Bind a raw table to a table kind: resolve each well-known column
    /// name against the schema, tolerating absent optional columns, and
    /// fail on the first absent required column, naming the table and the
    /// column.
    pub fn new(table: &'a Table, names: &Vec<String>, required: &Vec<bool>) -> (r: Result<
        TypedTable<'a>,
        SchemaError,
    >)
        requires
            names@.len() == required@.len(),
        ensures
            ({
                let nv = names@.map_values(|s: String| s@);
                match r {
                    Ok(tt) => {
                        &&& first_missing(table@.columns, nv, required@) is None
                        &&& tt.table == table
                        &&& tt.resolves(nv, required@)
                    },
                    Err(e) => {
                        &&& first_missing(table@.columns, nv, required@) is Some
                        &&& e@ == (SchemaErrorV::MissingColumn {
                            table: table@.name,
                            column: nv[first_missing(table@.columns, nv, required@).unwrap()],
                        })
                    },
                }
            }),
    {
        let ghost nv = names@.map_values(|s: String| s@);
        let n = names.len();
        let mut cols: Vec<Option<usize>> = Vec::new();
        for i in 0..n
            invariant
                n == names@.len(),
                names@.len() == required@.len(),
                nv == names@.map_values(|s: String| s@),
                cols@.len() == i,
                forall|j: int|
                    0 <= j < i ==> opt_col(#[trigger] cols@[j]) == find_col(
                        table@.columns,
                        nv[j],
                    ),
                forall|j: int| 0 <= j < i && required@[j] ==> cols@[j] is Some,
                first_missing_from(table@.columns, nv, required@, 0) == first_missing_from(
                    table@.columns,
                    nv,
                    required@,
                    i as int,
                ),
        {
            let c = resolve_col(&table.columns, names[i].as_str());
            if required[i] && c.is_none() {
                return Err(
                    SchemaError::MissingColumn {
                        table: table.name.clone(),
                        column: names[i].clone(),
                    },
                );
            }
            cols.push(c);
        }
        Ok(TypedTable { table, cols })
    }
}

/// The predicate "this row's field at position `id_col` is the integer
/// `key`", used by the generalized point lookup.
pub open spec fn id_col_pred(key: i32, id_col: int) -> spec_fn(Seq<FieldV>) -> bool {
    |r: Seq<FieldV>| opt_integer(field_or_nothing(r, id_col)) == Some(key)
}

/// What a value serialized for one declared column holds: the field at
/// the column's resolved position, or the explicit no-value when the
/// column is absent from this file's schema.
pub open spec fn serialized_value(row: Seq<FieldV>, col: Option<int>) -> FieldV {
    match col {
        Some(c) => field_or_nothing(row, c),
        None => FieldV::Nothing,
    }
}

/// A typed database row: one raw row bound to its owning typed table's
/// column resolution. It borrows; no row is ever mutated.
pub struct TypedRow<'a> {
    /// The raw row.
    pub row: &'a Row,
    /// The owning typed table.
    pub table: &'a TypedTable<'a>,
}

impl<'a> TypedRow<'a> {
    /// Create a typed row from a typed table and a raw row.
    pub fn new(row: &'a Row, table: &'a TypedTable<'a>) -> (r: Self)
        ensures
            r.row == row,
            r.table == table,
    {
        TypedRow { row, table }
    }

    /// Generalized point lookup: choose the bucket with `index_key`, then
    /// return the first row of that bucket whose field at position
    /// `id_col` is the integer `key`. The hash key and the compared key
    /// may differ; this finds rows only when the caller's `index_key` is
    /// consistent with how the bucket was built.
    pub fn get(table: &'a TypedTable<'a>, index_key: i32, key: i32, id_col: usize) -> (r: Option<
        TypedRow<'a>,
    >)
        ensures
            ({
                let hit = first_where(
                    rows_for_key(table.table@, index_key),
                    id_col_pred(key, id_col as int),
                );
                match r {
                    Some(tr) => hit == Some(tr.row@) && tr.table == table,
                    None => hit is None,
                }
            }),
    {
        let ghost pred = id_col_pred(key, id_col as int);
        let bucket = match table.table.bucket_for_key(index_key) {
            Some(b) => b,
            None => {
                return None;
            },
        };
        let ghost bv = bucket@;
        let n = bucket.rows.len();
        for i in 0..n
            invariant
                n == bucket.rows.len(),
                bv == bucket@,
                bv == rows_for_key(table.table@, index_key),
                first_where(bv.take(i as int), pred) is None,
                pred == id_col_pred(key, id_col as int),
        {
            let row = &bucket.rows[i];
            let hit = match row.integer_at(id_col) {
                Some(v) => v == key,
                None => false,
            };
            proof {
                assert(bv.take(i + 1).drop_last() =~= bv.take(i as int));
                assert(bv.take(i + 1).last() == bv[i as int]);
                assert(row@ == bv[i as int]);
            }
            if hit {
                proof {
                    assert(pred(bv[i as int]));
                    assert(first_where(bv.take(i + 1), pred) == Some(bv[i as int]));
                    crate::store::lemma_first_where_prefix(bv, pred, i + 1);
                }
                return Some(TypedRow { row, table });
            }
            proof {
                assert(!pred(bv[i as int]));
            }
        }
        proof {
            assert(bv.take(n as int) =~= bv);
        }
        None
    }

    /// Read the declared column `c` of this row: the stored field, or the
    /// explicit no-value when the column is absent from the schema or the
    /// row does not reach it.
    pub fn get_field(&self, c: usize) -> (r: Field)
        requires
            c < self.table.cols@.len(),
        ensures
            r@ == serialized_value(self.row@, opt_col(self.table.cols@[c as int])),
    {
        match self.table.get_col(c) {
            Some(i) => self.row.field_or_nothing_at(i),
            None => Field::Nothing,
        }
    }

    /// Serialize this row as a structured record: one entry per declared
    /// column of the table kind, carrying the declared human-readable
    /// `names`, in declaration order. Every declared field is emitted; an
    /// absent optional one serializes as the explicit no-value.
    pub fn serialize(&self, names: &Vec<String>) -> (r: Vec<SerField>)
        requires
            names@.len() == self.table.cols@.len(),
        ensures
            r@.len() == names@.len(),
            forall|i: int|
                0 <= i < r@.len() ==> (#[trigger] r@[i]).name@ == names@[i]@ && r@[i].value@
                    == serialized_value(self.row@, opt_col(self.table.cols@[i])),
    {
        let n = names.len();
        let mut rec: Vec<SerField> = Vec::new();
        for i in 0..n
            invariant
                n == names@.len(),
                names@.len() == self.table.cols@.len(),
                rec@.len() == i,
                forall|j: int|
                    0 <= j < i ==> (#[trigger] rec@[j]).name@ == names@[j]@ && rec@[j].value@
                        == serialized_value(self.row@, opt_col(self.table.cols@[j])),
        {
            let value = self.get_field(i);
            rec.push(SerField { name: names[i].clone(), value });
        }
        rec
    }
}

/// One entry of a serialized row: a declared field name and the stored
/// value, with the explicit no-value standing for an absent optional.
#[derive(Debug, PartialEq)]
pub struct SerField {
    /// The declared human-readable field name.
    pub name: String,
    /// The stored value, or the explicit no-value.
    pub value: Field,
}

/// The value of the first entry of a record named `name`: how a reader of
/// the serialized form gets a field back.
pub open spec fn record_lookup(names: Seq<Seq<char>>, values: Seq<FieldV>, name: Seq<char>) -> Option<
    FieldV,
>
    recommends
        names.len() == values.len(),
    decreases names.len(),
{
    if names.len() == 0 || values.len() == 0 {
        None
    } else {
        let prev = record_lookup(names.drop_last(), values.drop_last(), name);
        if prev is Some {
            prev
        } else if names.last() == name {
            Some(values.last())
        } else {
            None
        }
    }
}

/// A name that occurs nowhere in the record is not found.
proof fn lemma_record_lookup_absent(names: Seq<Seq<char>>, values: Seq<FieldV>, name: Seq<char>)
    requires
        names.len() == values.len(),
        forall|j: int| 0 <= j < names.len() ==> names[j] != name,
    ensures
        record_lookup(names, values, name) is None,
    decreases names.len(),
{
    if names.len() > 0 {
        lemma_record_lookup_absent(names.drop_last(), values.drop_last(), name);
    }
}

/// With distinct names, looking a record up by the `i`-th declared name
/// yields exactly the `i`-th value.
proof fn lemma_record_lookup_found(names: Seq<Seq<char>>, values: Seq<FieldV>, i: int)
    requires
        names.len() == values.len(),
        0 <= i < names.len(),
        forall|j: int, k: int| 0 <= j < k < names.len() ==> names[j] != names[k],
    ensures
        record_lookup(names, values, names[i]) == Some(values[i]),
    decreases names.len(),
{
    if i == names.len() - 1 {
        lemma_record_lookup_absent(names.drop_last(), values.drop_last(), names[i]);
    } else {
        lemma_record_lookup_found(names.drop_last(), values.drop_last(), i);
    }
}

/// Round-trip law: serialize a typed row, then re-read any declared field
/// of the record by its declared name; the value found equals the one a
/// direct typed read of that column gives. Holds whenever the declared
/// names are distinct, for every declared column, required or optional.
pub proof fn lemma_serialize_round_trip(
    row: Seq<FieldV>,
    cols: Seq<Option<int>>,
    names: Seq<Seq<char>>,
    i: int,
)
    requires
        cols.len() == names.len(),
        0 <= i < names.len(),
        forall|j: int, k: int| 0 <= j < k < names.len() ==> names[j] != names[k],
    ensures
        record_lookup(
            names,
            Seq::new(names.len(), |j: int| serialized_value(row, cols[j])),
            names[i],
        ) == Some(serialized_value(row, cols[i])),
{
    let values = Seq::new(names.len(), |j: int| serialized_value(row, cols[j]));
    lemma_record_lookup_found(names, values, i);
}

/// Re-read a serialized record: the first entry named `name`, as the
/// serialization contract's reader sees it.
pub fn read_record<'r>(rec: &'r Vec<SerField>, name: &String) -> (r: Option<&'r Field>)
    ensures
        ({
            let ns = rec@.map_values(|s: SerField| s.name@);
            let vs = rec@.map_values(|s: SerField| s.value@);
            match r {
                Some(f) => record_lookup(ns, vs, name@) == Some(f@),
                None => record_lookup(ns, vs, name@) is None,
            }
        }),
{
    let ghost ns = rec@.map_values(|s: SerField| s.name@);
    let ghost vs = rec@.map_values(|s: SerField| s.value@);
    let n = rec.len();
    for i in 0..n
        invariant
            n == rec@.len(),
            ns == rec@.map_values(|s: SerField| s.name@),
            vs == rec@.map_values(|s: SerField| s.value@),
            record_lookup(ns.take(i as int), vs.take(i as int), name@) is None,
    {
        proof {
            assert(ns.take(i + 1).drop_last() =~= ns.take(i as int));
            assert(vs.take(i + 1).drop_last() =~= vs.take(i as int));
        }
        if rec[i].name.eq(name) {
            proof {
                assert(record_lookup(ns.take(i + 1), vs.take(i + 1), name@) == Some(vs[i as int]));
                lemma_record_lookup_take(ns, vs, name@, i + 1);
            }
            return Some(&rec[i].value);
        }
    }
    proof {
        assert(ns.take(n as int) =~= ns);
        assert(vs.take(n as int) =~= vs);
    }
    None
}

/// Decoding one field variant into a concrete value type, as the typed
/// accessors of a row projection do.
pub trait Extract where Self: Sized {
    /// Whether the field decodes into this type.
    spec fn can_extract(f: FieldV) -> bool;

    /// The value the field decodes to.
    spec fn extract_spec(f: FieldV) -> Self;

    /// Decode the field. A value of the wrong variant under a column
    /// that was declared required is a schema-contract violation, not a
    /// recoverable per-row condition, so it is excluded by contract.
    fn from_field(f: &Field) -> (r: Self)
        requires
            Self::can_extract(f@),
        ensures
            r == Self::extract_spec(f@),
    ;
}

impl Extract for i32 {
    open spec fn can_extract(f: FieldV) -> bool {
        f is Integer
    }

    open spec fn extract_spec(f: FieldV) -> i32 {
        f->Integer_0
    }

    fn from_field(f: &Field) -> (r: i32) {
        match f {
            Field::Integer(v) => *v,
            _ => vstd::pervasive::unreached(),
        }
    }
}

impl Extract for bool {
    open spec fn can_extract(f: FieldV) -> bool {
        f is Boolean
    }

    open spec fn extract_spec(f: FieldV) -> bool {
        f->Boolean_0
    }

    fn from_field(f: &Field) -> (r: bool) {
        match f {
            Field::Boolean(b) => *b,
            _ => vstd::pervasive::unreached(),
        }
    }
}

impl Extract for Option<i32> {
    open spec fn can_extract(f: FieldV) -> bool {
        true
    }

    open spec fn extract_spec(f: FieldV) -> Option<i32> {
        opt_integer(f)
    }

    fn from_field(f: &Field) -> (r: Option<i32>) {
        f.into_opt_integer()
    }
}

impl Extract for Option<bool> {
    open spec fn can_extract(f: FieldV) -> bool {
        true
    }

    open spec fn extract_spec(f: FieldV) -> Option<bool> {
        crate::store::opt_boolean(f)
    }

    fn from_field(f: &Field) -> (r: Option<bool>) {
        f.into_opt_boolean()
    }
}

/// The rows of `buckets` not yet visited from position (`b`, `r`): the
/// rest of bucket `b`, then every row of the later buckets.
pub open spec fn rows_from(buckets: Seq<Seq<Seq<FieldV>>>, b: int, r: int) -> Seq<Seq<FieldV>>
    decreases buckets.len() - b,
{
    if b < 0 || b >= buckets.len() {
        Seq::empty()
    } else {
        buckets[b].skip(r) + rows_from(buckets, b + 1, 0)
    }
}

/// Every row of a table in stored order, bucket by bucket.
pub open spec fn all_rows(t: TableV) -> Seq<Seq<FieldV>> {
    rows_from(t.buckets, 0, 0)
}

/// Lazy, restartable traversal of every row of a table in stored order.
/// Creating a new iterator re-scans from the start; iteration never
/// mutates the table.
pub struct RowIter<'a> {
    /// The table being walked.
    pub table: &'a Table,
    /// The current bucket position.
    pub bucket: usize,
    /// The next row within the current bucket.
    pub row: usize,
}

impl<'a> RowIter<'a> {
    /// The iterator's position stays within bounds.
    pub open spec fn wf(self) -> bool {
        &&& self.bucket <= self.table@.buckets.len()
        &&& (self.bucket < self.table@.buckets.len() ==> self.row
            <= self.table@.buckets[self.bucket as int].len())
        &&& (self.bucket >= self.table@.buckets.len() ==> self.row == 0)
    }

    /// The rows not yet yielded, in stored order.
    pub open spec fn remaining(self) -> Seq<Seq<FieldV>> {
        rows_from(self.table@.buckets, self.bucket as int, self.row as int)
    }

    /// Create a row iterator over a whole table.
    pub fn new(table: &'a Table) -> (it: RowIter<'a>)
        ensures
            it.wf(),
            it.table == table,
            it.remaining() == all_rows(table@),
    {
        RowIter { table, bucket: 0, row: 0 }
    }

    /// Yield the next row in stored order, or nothing once every row has
    /// been visited.
    pub fn next(&mut self) -> (r: Option<&'a Row>)
        requires
            old(self).wf(),
        ensures
            final(self).wf(),
            final(self).table == old(self).table,
            match r {
                Some(row) => {
                    &&& old(self).remaining().len() > 0
                    &&& row@ == old(self).remaining()[0]
                    &&& final(self).remaining() == old(self).remaining().drop_first()
                },
                None => old(self).remaining().len() == 0 && final(self).remaining().len() == 0,
            },
    {
        let ghost orig = *self;
        while self.bucket < self.table.buckets.len() && self.row
            >= self.table.buckets[self.bucket].rows.len()
            invariant
                self.wf(),
                self.table == orig.table,
                self.remaining() == orig.remaining(),
            decreases self.table@.buckets.len() - self.bucket,
        {
            proof {
                let bk = self.table@.buckets;
                let b = self.bucket as int;
                assert(bk[b].skip(self.row as int) =~= Seq::<Seq<FieldV>>::empty());
                assert(rows_from(bk, b, self.row as int) =~= rows_from(bk, b + 1, 0));
            }
            self.bucket = self.bucket + 1;
            self.row = 0;
        }
        if self.bucket < self.table.buckets.len() {
            let b = self.bucket;
            let i = self.row;
            let row = &self.table.buckets[b].rows[i];
            self.row = i + 1;
            proof {
                let bk = self.table@.buckets;
                assert(row@ == bk[b as int][i as int]);
                assert(rows_from(bk, b as int, i as int)[0] == bk[b as int][i as int]);
                assert(rows_from(bk, b as int, i as int + 1) =~= rows_from(
                    bk,
                    b as int,
                    i as int,
                ).drop_first());
            }
            Some(row)
        } else {
            None
        }
    }
}

/// Lazy, restartable bucket-scoped traversal: the rows of the bucket the
/// lookup protocol chooses for `key`, in stored order, without filtering
/// by key equality. A key whose bucket is empty yields no rows, never an
/// error; callers needing exact-key semantics compare fields themselves.
pub struct KeyIter<'a> {
    /// The table being walked.
    pub table: &'a Table,
    /// The key whose bucket is walked.
    pub key: i32,
    /// The next row within the bucket.
    pub row: usize,
}

impl<'a> KeyIter<'a> {
    /// The iterator's position stays within bounds.
    pub open spec fn wf(self) -> bool {
        self.row <= rows_for_key(self.table@, self.key).len()
    }

    /// The rows not yet yielded, in stored order.
    pub open spec fn remaining(self) -> Seq<Seq<FieldV>> {
        rows_for_key(self.table@, self.key).skip(self.row as int)
    }

    /// Create an iterator over the bucket chosen for `key`.
    pub fn new(table: &'a Table, key: i32) -> (it: KeyIter<'a>)
        ensures
            it.wf(),
            it.table == table,
            it.key == key,
            it.remaining() == rows_for_key(table@, key),
    {
        let it = KeyIter { table, key, row: 0 };
        proof {
            assert(it.remaining() =~= rows_for_key(table@, key));
        }
        it
    }

    /// Yield the next row of the bucket, or nothing once it is exhausted.
    pub fn next(&mut self) -> (r: Option<&'a Row>)
        requires
            old(self).wf(),
        ensures
            final(self).wf(),
            final(self).table == old(self).table,
            final(self).key == old(self).key,
            match r {
                Some(row) => {
                    &&& old(self).remaining().len() > 0
                    &&& row@ == old(self).remaining()[0]
                    &&& final(self).remaining() == old(self).remaining().drop_first()
                },
                None => old(self).remaining().len() == 0 && final(self).remaining().len() == 0,
            },
    {
        match self.table.bucket_for_key(self.key) {
            None => None,
            Some(b) => {
                if self.row < b.rows.len() {
                    let i = self.row;
                    let row = &b.rows[i];
                    self.row = i + 1;
                    proof {
                        let rows = rows_for_key(self.table@, self.key);
                        assert(row@ == rows[i as int]);
                        assert(rows.skip(i as int)[0] == rows[i as int]);
                        assert(rows.skip(i as int + 1) =~= rows.skip(i as int).drop_first());
                    }
                    Some(row)
                } else {
                    None
                }
            },
        }
    }
}

impl<'a> TypedTable<'a> {
    /// Iterate every row of this table in stored order.
    pub fn row_iter(&self) -> (it: RowIter<'a>)
        ensures
            it.wf(),
            it.table == self.table,
            it.remaining() == all_rows(self.table@),
    {
        RowIter::new(self.table)
    }

    /// Iterate the rows of the bucket chosen for `key`, without
    /// filtering by key equality.
    pub fn key_iter(&self, key: i32) -> (it: KeyIter<'a>)
        ensures
            it.wf(),
            it.table == self.table,
            it.key == key,
            it.remaining() == rows_for_key(self.table@, key),
    {
        KeyIter::new(self.table, key)
    }
}

/// Once a prefix of the record finds the name, the whole record finds
/// the same value.
proof fn lemma_record_lookup_take(names: Seq<Seq<char>>, values: Seq<FieldV>, name: Seq<char>, j: int)
    requires
        names.len() == values.len(),
        0 <= j <= names.len(),
        record_lookup(names.take(j), values.take(j), name) is Some,
    ensures
        record_lookup(names, values, name) == record_lookup(names.take(j), values.take(j), name),
    decreases names.len() - j,
{
    if j == names.len() {
        assert(names.take(j) =~= names);
        assert(values.take(j) =~= values);
    } else {
        assert(names.take(j + 1).drop_last() =~= names.take(j));
        assert(values.take(j + 1).drop_last() =~= values.take(j));
        lemma_record_lookup_take(names, values, name, j + 1);
    }
}

} // verus!

