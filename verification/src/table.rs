//! Session batches as Arrow record batches.
//!
//! The columns of a batch become Arrow arrays, and with the schema of the session
//! file a record batch, which is what the Parquet writer takes.

use std::sync::Arc;

use arrow::array::{
    Array, ArrayData, Int32Array, ListArray, StringArray, StructArray, TimestampMicrosecondArray,
    UInt16Array, UInt32Array, UInt64Array,
};
use arrow::datatypes::{DataType, Field, Int8Type, Schema, TimeUnit};
use arrow::error::ArrowError;
use arrow::record_batch::RecordBatch;
use vstd::prelude::*;

use crate::parquet_sink::{
    batch, batch_values, build_schema, fields_text, law_batch_fits_schema, schema, values_len,
    values_nullable, values_type, ColumnData, ColumnField, ColumnType, ColumnValues, FieldText,
    RowText,
};
use crate::text;

verus! {

// ── What arrays, schemas and batches hold ─────────────────────────────────

/// A value of an array.
pub enum Cell {
    Micros(i64),
    Text(Seq<char>),
    Int32(i32),
    UInt32(u32),
    UInt16(u16),
    UInt64(u64),
    Samples(Seq<i8>),
}

/// What an array holds: the type of its values, and a value or a null per row.
#[verifier::ext_equal]
pub struct ArrayText {
    pub kind: ColumnType,
    pub cells: Seq<Option<Cell>>,
}

/// The array that the values of a column make.
pub open spec fn array_of(v: ColumnValues) -> ArrayText {
    ArrayText {
        kind: values_type(v),
        cells: match v {
            ColumnValues::Micros(s) => Seq::new(s.len(), |i: int| Some(Cell::Micros(s[i]))),
            ColumnValues::Text(s) => Seq::new(s.len(), |i: int| Some(Cell::Text(s[i]))),
            ColumnValues::Int32(s) => Seq::new(s.len(), |i: int| Some(Cell::Int32(s[i]))),
            ColumnValues::UInt32(s) => Seq::new(s.len(), |i: int| Some(Cell::UInt32(s[i]))),
            ColumnValues::UInt16(s) => Seq::new(s.len(), |i: int| Some(Cell::UInt16(s[i]))),
            ColumnValues::OptUInt32(s) => Seq::new(
                s.len(),
                |i: int|
                    match s[i] {
                        Some(n) => Some(Cell::UInt32(n)),
                        None => None,
                    },
            ),
            ColumnValues::OptUInt64(s) => Seq::new(
                s.len(),
                |i: int|
                    match s[i] {
                        Some(n) => Some(Cell::UInt64(n)),
                        None => None,
                    },
            ),
            ColumnValues::Samples(s) => Seq::new(s.len(), |i: int| Some(Cell::Samples(s[i]))),
        },
    }
}

/// The arrays that the columns of a batch make.
pub open spec fn arrays_of(columns: Seq<ColumnValues>) -> Seq<ArrayText> {
    Seq::new(columns.len(), |i: int| array_of(columns[i]))
}

/// Whether a schema takes these arrays: one per field, each of the field's type, all
/// of one length, and nulls only where the field allows them.
pub open spec fn accepted(fields: Seq<FieldText>, arrays: Seq<ArrayText>) -> bool {
    &&& fields.len() == arrays.len()
    &&& arrays.len() > 0
    &&& forall|i: int|
        0 <= i < arrays.len() ==> {
            &&& (#[trigger] arrays[i]).kind == fields[i].column_type
            &&& arrays[i].cells.len() == arrays[0].cells.len()
            &&& fields[i].nullable || !arrays[i].cells.contains(None)
        }
}

/// The bytes of texts, one after the other.
pub open spec fn text_bytes(s: Seq<Seq<char>>) -> nat
    decreases s.len(),
{
    if s.len() == 0 {
        0
    } else {
        text_bytes(s.drop_last()) + text::byte_len(s.last()) as nat
    }
}

/// The samples of lists, one after the other.
pub open spec fn sample_count(s: Seq<Seq<i8>>) -> nat
    decreases s.len(),
{
    if s.len() == 0 {
        0
    } else {
        sample_count(s.drop_last()) + s.last().len()
    }
}

/// Whether the values of a column can be addressed in one array: Arrow counts the
/// bytes of texts and the elements of lists with signed 32-bit offsets.
pub open spec fn addressable(v: ColumnValues) -> bool {
    match v {
        ColumnValues::Text(s) => text_bytes(s) <= i32::MAX,
        ColumnValues::Samples(s) => sample_count(s) <= i32::MAX,
        _ => true,
    }
}

/// Whether every column of a batch can be addressed in one array.
pub open spec fn all_addressable(columns: Seq<ColumnValues>) -> bool {
    forall|i: int| 0 <= i < columns.len() ==> addressable(#[trigger] columns[i])
}

// ── Trusted: Arrow ────────────────────────────────────────────────────────

/// `arrow::array::ArrayData`, an array of any type.
#[verifier::external_type_specification]
#[verifier::external_body]
pub struct ExArrayData(arrow::array::ArrayData);

/// `arrow::datatypes::Schema`.
#[verifier::external_type_specification]
#[verifier::external_body]
pub struct ExSchema(arrow::datatypes::Schema);

/// `arrow::error::ArrowError`.
#[verifier::external_type_specification]
#[verifier::external_body]
pub struct ExArrowError(arrow::error::ArrowError);

/// What an array holds, where its type is one of [`ColumnType`].
pub uninterp spec fn array_text(a: arrow::array::ArrayData) -> Option<ArrayText>;

/// The fields of a schema, where their types are among [`ColumnType`].
pub uninterp spec fn schema_fields(s: arrow::datatypes::Schema) -> Option<Seq<FieldText>>;

/// The fields and the columns of a struct array, where their types are among
/// [`ColumnType`].
pub uninterp spec fn batch_text(b: arrow::array::ArrayData) -> Option<
    (Seq<FieldText>, Seq<ArrayText>),
>;

/// `PrimitiveArray::from` of a vector, with the time zone UTC. Claimed: the array
/// holds the values in order, none of them null.
#[verifier::external_body]
fn micros_array(v: Vec<i64>) -> (r: ArrayData)
    ensures
        array_text(r) == Some(array_of(ColumnValues::Micros(v@))),
{
    TimestampMicrosecondArray::from(v).with_timezone("UTC").into_data()
}

/// `StringArray::from` of a vector. Claimed: the array holds the texts in order, none
/// of them null. It panics where their bytes exceed its offsets.
#[verifier::external_body]
fn text_array(v: Vec<String>) -> (r: ArrayData)
    requires
        addressable(ColumnValues::Text(text::texts(v@))),
    ensures
        array_text(r) == Some(array_of(ColumnValues::Text(text::texts(v@)))),
{
    StringArray::from(v).into_data()
}

/// `PrimitiveArray::from` of a vector. Claimed: the array holds the values in order,
/// none of them null.
#[verifier::external_body]
fn i32_array(v: Vec<i32>) -> (r: ArrayData)
    ensures
        array_text(r) == Some(array_of(ColumnValues::Int32(v@))),
{
    Int32Array::from(v).into_data()
}

/// `PrimitiveArray::from` of a vector. Claimed: the array holds the values in order,
/// none of them null.
#[verifier::external_body]
fn u32_array(v: Vec<u32>) -> (r: ArrayData)
    ensures
        array_text(r) == Some(array_of(ColumnValues::UInt32(v@))),
{
    UInt32Array::from(v).into_data()
}

/// `PrimitiveArray::from` of a vector. Claimed: the array holds the values in order,
/// none of them null.
#[verifier::external_body]
fn u16_array(v: Vec<u16>) -> (r: ArrayData)
    ensures
        array_text(r) == Some(array_of(ColumnValues::UInt16(v@))),
{
    UInt16Array::from(v).into_data()
}

/// `PrimitiveArray::from` of a vector of optional values. Claimed: the array holds the
/// values in order, with a null in the place of each missing one.
#[verifier::external_body]
fn opt_u32_array(v: Vec<Option<u32>>) -> (r: ArrayData)
    ensures
        array_text(r) == Some(array_of(ColumnValues::OptUInt32(v@))),
{
    UInt32Array::from(v).into_data()
}

/// `PrimitiveArray::from` of a vector of optional values. Claimed: the array holds the
/// values in order, with a null in the place of each missing one.
#[verifier::external_body]
fn opt_u64_array(v: Vec<Option<u64>>) -> (r: ArrayData)
    ensures
        array_text(r) == Some(array_of(ColumnValues::OptUInt64(v@))),
{
    UInt64Array::from(v).into_data()
}

/// The lists of samples of a column.
pub open spec fn lists(v: Seq<Vec<i8>>) -> Seq<Seq<i8>> {
    Seq::new(v.len(), |i: int| v[i]@)
}

/// `ListArray::from_iter_primitive`. Claimed: the array holds the lists in order, none
/// of them null. It panics where their elements exceed its offsets.
#[verifier::external_body]
fn samples_array(v: Vec<Vec<i8>>) -> (r: ArrayData)
    requires
        addressable(ColumnValues::Samples(lists(v@))),
    ensures
        array_text(r) == Some(array_of(ColumnValues::Samples(lists(v@)))),
{
    let rows = v.into_iter().map(|s| Some(s.into_iter().map(Some)));
    ListArray::from_iter_primitive::<Int8Type, _, _>(rows).into_data()
}

/// `Schema::new` over `Field::new`. Claimed: the schema has these fields, in order.
#[verifier::external_body]
fn schema_of(fields: Vec<ColumnField>) -> (r: Schema)
    ensures
        schema_fields(r) == Some(fields_text(fields@)),
{
    let field = |f: ColumnField| Field::new(f.name, match f.column_type {
        ColumnType::TimestampMicrosUtc => DataType::Timestamp(TimeUnit::Microsecond, Some("UTC".into())),
        ColumnType::Utf8 => DataType::Utf8,
        ColumnType::Int32 => DataType::Int32,
        ColumnType::UInt32 => DataType::UInt32,
        ColumnType::UInt16 => DataType::UInt16,
        ColumnType::UInt64 => DataType::UInt64,
        ColumnType::ListInt8 => DataType::List(Arc::new(Field::new("item", DataType::Int8, true))),
    }, f.nullable);
    Schema::new(fields.into_iter().map(field).collect::<Vec<_>>())
}

/// What arrays hold.
pub open spec fn array_texts(arrays: Seq<arrow::array::ArrayData>) -> Seq<ArrayText> {
    Seq::new(arrays.len(), |i: int| array_text(arrays[i])->0)
}

/// `RecordBatch::try_new`, the batch as a struct array. Claimed: it succeeds exactly
/// where the schema takes the arrays, and the batch then has the schema's fields and
/// these arrays. The text of its error is left unsaid.
#[verifier::external_body]
fn batch_of(schema: Schema, arrays: Vec<ArrayData>) -> (r: Result<ArrayData, ArrowError>)
    requires
        schema_fields(schema) is Some,
        forall|i: int| 0 <= i < arrays@.len() ==> array_text(#[trigger] arrays@[i]) is Some,
    ensures
        r is Ok <==> accepted(schema_fields(schema)->0, array_texts(arrays@)),
        r is Ok ==> batch_text(r->Ok_0) == Some((schema_fields(schema)->0, array_texts(arrays@))),
{
    let columns = arrays.into_iter().map(arrow::array::make_array).collect();
    let made = RecordBatch::try_new(Arc::new(schema), columns);
    made.map(|b| StructArray::from(b).into_data())
}

// ── Batches ───────────────────────────────────────────────────────────────

/// The schema of a session file.
pub fn arrow_schema() -> (r: Schema)
    ensures
        schema_fields(r) == Some(schema()),
{
    schema_of(build_schema())
}

/// The array of a column.
fn array(c: ColumnData) -> (r: ArrayData)
    requires
        addressable(c@),
    ensures
        array_text(r) == Some(array_of(c@)),
{
    match c {
        ColumnData::Micros(v) => micros_array(v),
        ColumnData::Text(v) => text_array(v),
        ColumnData::Int32(v) => i32_array(v),
        ColumnData::UInt32(v) => u32_array(v),
        ColumnData::UInt16(v) => u16_array(v),
        ColumnData::OptUInt32(v) => opt_u32_array(v),
        ColumnData::OptUInt64(v) => opt_u64_array(v),
        ColumnData::Samples(v) => samples_array(v),
    }
}

/// The record batch of a session file's columns, as a struct array. It is refused
/// exactly where the columns do not fit the schema; those of
/// [`ParquetSink::build_batch`](crate::parquet_sink::ParquetSink::build_batch) always
/// do.
pub fn record_batch(columns: Vec<ColumnData>) -> (r: Result<ArrayData, ArrowError>)
    requires
        all_addressable(batch_values(columns@)),
    ensures
        r is Ok <==> accepted(schema(), arrays_of(batch_values(columns@))),
        r matches Ok(b) ==> batch_text(b) == Some(
            (schema(), arrays_of(batch_values(columns@))),
        ),
{
    let ghost values = batch_values(columns@);
    let mut arrays: Vec<ArrayData> = Vec::new();
    let ghost all = columns@;
    let mut rest = columns;
    assert(all.skip(0) =~= all);
    while rest.len() > 0
        invariant
            values == batch_values(all),
            all_addressable(values),
            rest@.len() + arrays@.len() == all.len(),
            rest@ == all.skip(arrays@.len() as int),
            forall|i: int|
                0 <= i < arrays@.len() ==> array_text(#[trigger] arrays@[i]) == Some(
                    array_of(values[i]),
                ),
        decreases rest@.len(),
    {
        let ghost at: int = arrays@.len() as int;
        assert(rest@[0] == all[at]);
        assert(addressable(values[at]));
        let c = rest.remove(0);
        arrays.push(array(c));
        assert(rest@ =~= all.skip(at + 1));
    }
    assert(array_texts(arrays@) =~= arrays_of(values));
    batch_of(arrow_schema(), arrays)
}

proof fn lemma_text_bytes_grow(s: Seq<Seq<char>>, k: int)
    requires
        0 <= k <= s.len(),
    ensures
        text_bytes(s.take(k)) <= text_bytes(s),
    decreases s.len() - k,
{
    if k < s.len() {
        assert(s.take(k + 1).drop_last() =~= s.take(k));
        lemma_text_bytes_grow(s, k + 1);
    } else {
        assert(s.take(k) =~= s);
    }
}

proof fn lemma_sample_count_grows(s: Seq<Seq<i8>>, k: int)
    requires
        0 <= k <= s.len(),
    ensures
        sample_count(s.take(k)) <= sample_count(s),
    decreases s.len() - k,
{
    if k < s.len() {
        assert(s.take(k + 1).drop_last() =~= s.take(k));
        lemma_sample_count_grows(s, k + 1);
    } else {
        assert(s.take(k) =~= s);
    }
}

fn texts_fit(v: &Vec<String>) -> (r: bool)
    ensures
        r == (text_bytes(text::texts(v@)) <= i32::MAX),
{
    let ghost all = text::texts(v@);
    let mut total: u64 = 0;
    let mut i: usize = 0;
    assert(all.take(0) =~= Seq::empty());
    while i < v.len()
        invariant
            all == text::texts(v@),
            i <= v@.len(),
            total == text_bytes(all.take(i as int)),
            total <= i32::MAX,
        decreases v@.len() - i,
    {
        let ghost so_far = all.take(i + 1);
        assert(so_far.drop_last() =~= all.take(i as int));
        assert(so_far.last() == v@[i as int]@);
        proof {
            lemma_text_bytes_grow(all, i + 1);
        }
        let n: u64 = v[i].as_str().len() as u64;
        if n > 0x7fff_ffff - total {
            return false;
        }
        total = total + n;
        i += 1;
    }
    assert(all.take(i as int) =~= all);
    true
}

fn samples_fit(v: &Vec<Vec<i8>>) -> (r: bool)
    ensures
        r == (sample_count(lists(v@)) <= i32::MAX),
{
    let ghost all = lists(v@);
    let mut total: u64 = 0;
    let mut i: usize = 0;
    assert(all.take(0) =~= Seq::empty());
    while i < v.len()
        invariant
            all == lists(v@),
            i <= v@.len(),
            total == sample_count(all.take(i as int)),
            total <= i32::MAX,
        decreases v@.len() - i,
    {
        let ghost so_far = all.take(i + 1);
        assert(so_far.drop_last() =~= all.take(i as int));
        assert(so_far.last() == v@[i as int]@);
        proof {
            lemma_sample_count_grows(all, i + 1);
        }
        let n: u64 = v[i].len() as u64;
        if n > 0x7fff_ffff - total {
            return false;
        }
        total = total + n;
        i += 1;
    }
    assert(all.take(i as int) =~= all);
    true
}

/// Whether a batch can be handed to [`record_batch`].
pub fn fits_offsets(columns: &Vec<ColumnData>) -> (r: bool)
    ensures
        r == all_addressable(batch_values(columns@)),
{
    let ghost values = batch_values(columns@);
    let mut i: usize = 0;
    while i < columns.len()
        invariant
            values == batch_values(columns@),
            i <= columns@.len(),
            forall|k: int| 0 <= k < i ==> addressable(#[trigger] values[k]),
        decreases columns@.len() - i,
    {
        assert(values[i as int] == columns@[i as int]@);
        let fits = match &columns[i] {
            ColumnData::Text(v) => texts_fit(v),
            ColumnData::Samples(v) => {
                assert(Seq::new(v@.len(), |k: int| v@[k]@) =~= lists(v@));
                samples_fit(v)
            },
            _ => true,
        };
        if !fits {
            return false;
        }
        i += 1;
    }
    true
}

// ── Laws ──────────────────────────────────────────────────────────────────

/// The batch of a sink's rows is always taken by the schema of the session file.
pub proof fn law_batches_are_accepted(rows: Seq<RowText>, chip: Seq<char>)
    ensures
        accepted(schema(), arrays_of(batch(rows, chip))),
{
    law_batch_fits_schema(rows, chip);
    let columns = batch(rows, chip);
    let arrays = arrays_of(columns);
    assert forall|i: int| 0 <= i < arrays.len() implies {
        &&& (#[trigger] arrays[i]).kind == schema()[i].column_type
        &&& arrays[i].cells.len() == arrays[0].cells.len()
        &&& schema()[i].nullable || !arrays[i].cells.contains(None)
    } by {
        assert(values_type(columns[i]) == schema()[i].column_type);
        assert(values_len(columns[0]) == rows.len());
        lemma_array_len(columns[i]);
        lemma_array_len(columns[0]);
        if !schema()[i].nullable {
            assert(!values_nullable(columns[i]));
            lemma_no_nulls(columns[i]);
        }
    }
}

proof fn lemma_array_len(v: ColumnValues)
    ensures
        array_of(v).cells.len() == values_len(v),
{
}

proof fn lemma_no_nulls(v: ColumnValues)
    requires
        !values_nullable(v),
    ensures
        !array_of(v).cells.contains(None),
{
    let cells = array_of(v).cells;
    assert forall|i: int| 0 <= i < cells.len() implies cells[i] is Some by {}
}

/// An array holds the cells of its column in their order and type, and has a null exactly
/// where the column has none.
pub proof fn law_arrays_hold_their_columns(v: ColumnValues, i: int)
    ensures
        v matches ColumnValues::Micros(s) ==> array_of(v).cells.len() == s.len() && (0 <= i
            < s.len() ==> array_of(v).cells[i] == Some(Cell::Micros(s[i]))),
        v matches ColumnValues::Text(s) ==> array_of(v).cells.len() == s.len() && (0 <= i < s.len()
            ==> array_of(v).cells[i] == Some(Cell::Text(s[i]))),
        v matches ColumnValues::Int32(s) ==> array_of(v).cells.len() == s.len() && (0 <= i < s.len()
            ==> array_of(v).cells[i] == Some(Cell::Int32(s[i]))),
        v matches ColumnValues::UInt32(s) ==> array_of(v).cells.len() == s.len() && (0 <= i
            < s.len() ==> array_of(v).cells[i] == Some(Cell::UInt32(s[i]))),
        v matches ColumnValues::UInt16(s) ==> array_of(v).cells.len() == s.len() && (0 <= i
            < s.len() ==> array_of(v).cells[i] == Some(Cell::UInt16(s[i]))),
        v matches ColumnValues::OptUInt32(s) ==> array_of(v).cells.len() == s.len() && (0 <= i
            < s.len() ==> (array_of(v).cells[i] is None <==> s[i] is None) && (s[i] is Some
            ==> array_of(v).cells[i] == Some(Cell::UInt32(s[i]->0)))),
        v matches ColumnValues::OptUInt64(s) ==> array_of(v).cells.len() == s.len() && (0 <= i
            < s.len() ==> (array_of(v).cells[i] is None <==> s[i] is None) && (s[i] is Some
            ==> array_of(v).cells[i] == Some(Cell::UInt64(s[i]->0)))),
        v matches ColumnValues::Samples(s) ==> array_of(v).cells.len() == s.len() && (0 <= i
            < s.len() ==> array_of(v).cells[i] == Some(Cell::Samples(s[i]))),
{
}

/// Columns become arrays one by one, in order.
pub proof fn law_columns_keep_their_order(columns: Seq<ColumnValues>)
    ensures
        arrays_of(columns).len() == columns.len(),
        forall|i: int|
            0 <= i < columns.len() ==> #[trigger] arrays_of(columns)[i] == array_of(columns[i]),
{
}

/// What a column needs to address its contents is the bytes of all its text, or the number
/// of all its samples: it grows with each cell by what that cell holds, and must stay in
/// the range of a 32-bit offset. Columns of numbers need none.
pub proof fn law_what_columns_address(
    t: Seq<Seq<char>>,
    a: Seq<char>,
    s: Seq<Seq<i8>>,
    b: Seq<i8>,
    other: ColumnValues,
)
    ensures
        text_bytes(Seq::empty()) == 0,
        text_bytes(t.push(a)) == text_bytes(t) + text::byte_len(a),
        sample_count(Seq::empty()) == 0,
        sample_count(s.push(b)) == sample_count(s) + b.len(),
        addressable(ColumnValues::Text(t)) <==> text_bytes(t) < 0x8000_0000,
        addressable(ColumnValues::Samples(s)) <==> sample_count(s) < 0x8000_0000,
        !(other is Text) && !(other is Samples) ==> addressable(other),
{
    assert(t.push(a).drop_last() =~= t);
    assert(s.push(b).drop_last() =~= s);
}

/// A batch can be written exactly where every one of its columns can.
pub proof fn law_one_column_decides(columns: Seq<ColumnValues>, i: int, v: ColumnValues)
    ensures
        0 <= i < columns.len() && !addressable(columns[i]) ==> !all_addressable(columns),
        all_addressable(columns) && addressable(v) ==> all_addressable(columns.push(v)),
        all_addressable(Seq::empty()),
{
}

} // verus!
