//! The engine's arrays: what they hold, and how the library reads and makes
//! them.

use std::sync::Arc;
use arrow_array::builder::{BooleanBuilder, ListBuilder, StringBuilder, StructBuilder};
use arrow_array::types::Int32Type;
use arrow_array::{
    Array, ArrayRef, BooleanArray, DictionaryArray, ListArray, StringArray, StructArray,
};
use arrow_schema::{DataType, Field, Fields};
use vstd::prelude::*;
use vstd::utf8::encode_utf8;
use crate::column::{
    list_shape, Column, ColumnModel, DictionaryColumn, EncodedColumn, EncodedModel, FlagsModel,
    Indicator, RowModel, KEY_FIELD, VALUE_FIELD,
};
use crate::encoder::{encoded_row, encoding};
use crate::error::UdfError;

verus! {

/// An array of the engine, of any data type. The array itself is hidden from
/// the verifier; `arrow_model` stands for what it holds.
#[verifier::external_body]
pub struct ArrowColumn {
    pub array: ArrayRef,
}

/// What an array holds, as the readers below hand it out: the cells of a
/// `StringArray`; the values and the keys of a `DictionaryArray` with 32-bit
/// keys and string values; of a `ListArray` the rows, as far as its structs
/// hold strings in their first column and booleans in their second, and
/// else which of the two it lacks; and for any other array the name of its
/// data type.
pub uninterp spec fn arrow_model(column: ArrowColumn) -> ColumnModel;

/// The name of the data type of an array, as `DataType` prints it for
/// debugging. It is the text of this one array: two arrays of one data type
/// may print the metadata of their fields in different orders.
pub uninterp spec fn arrow_data_type(column: ArrowColumn) -> Seq<char>;

/// The names of the first two fields of the structs of a list array that a
/// builder of this library has made.
pub uninterp spec fn arrow_fields(column: ArrowColumn) -> (Seq<char>, Seq<char>);

impl View for ArrowColumn {
    type V = ColumnModel;

    open spec fn view(&self) -> ColumnModel {
        arrow_model(*self)
    }
}

impl DeepView for ArrowColumn {
    type V = ColumnModel;

    open spec fn deep_view(&self) -> ColumnModel {
        arrow_model(*self)
    }
}

/// Hands out the cells of a `StringArray`, in order, a null cell as `None`
/// (`StringArray::iter`); `None` for an array of another type.
#[verifier::external_body]
fn read_utf8(column: &ArrowColumn) -> (cells: Option<Vec<Option<String>>>)
    ensures
        match cells {
            Some(cells) => arrow_model(*column) == ColumnModel::Utf8(cells.deep_view()),
            None => !(arrow_model(*column) is Utf8),
        },
{
    let text = column.array.as_any().downcast_ref::<StringArray>()?;
    Some(text.iter().map(|cell| cell.map(str::to_string)).collect())
}

/// Hands out the values and the keys of a `DictionaryArray` with 32-bit keys
/// and string values, each in order, a null as `None`
/// (`DictionaryArray::values`, `DictionaryArray::keys`); `None` for an array
/// of another type.
#[verifier::external_body]
fn read_dictionary(column: &ArrowColumn) -> (parts: Option<DictionaryColumn>)
    ensures
        match parts {
            Some(d) => arrow_model(*column) == ColumnModel::Dictionary(
                d.labels.deep_view(),
                d.keys.deep_view(),
            ),
            None => !(arrow_model(*column) is Dictionary),
        },
{
    let dictionary = column.array.as_any().downcast_ref::<DictionaryArray<Int32Type>>()?;
    let labels = dictionary.values().as_any().downcast_ref::<StringArray>()?;
    Some(
        DictionaryColumn {
            labels: labels.iter().map(|label| label.map(str::to_string)).collect(),
            keys: dictionary.keys().iter().collect(),
        },
    )
}

/// What a `ListArray` is made of: its number of rows (`ListArray::len`),
/// whether its values are a `StructArray` (`ListArray::values`), whether the
/// first column of that is a `StringArray` and whether the second is a
/// `BooleanArray` (`StructArray::columns`); `None` for an array that is no
/// `ListArray`.
#[verifier::external_body]
fn list_facts(column: &ArrowColumn) -> (facts: Option<(usize, bool, bool, bool)>)
    ensures
        match facts {
            Some((len, structs, strings, booleans)) => {
                &&& arrow_model(*column).shape() == list_shape(structs, strings, booleans)
                &&& arrow_model(*column) matches ColumnModel::Encoded(rows) ==> rows.len() == len
                &&& arrow_model(*column) matches ColumnModel::Flags(rows) ==> rows.len() == len
            },
            None => !is_list(arrow_model(*column)),
        },
{
    let list = column.array.as_any().downcast_ref::<ListArray>()?;
    let pairs = list.values().as_any().downcast_ref::<StructArray>();
    let first = pairs.and_then(|p| p.columns().first());
    let second = pairs.and_then(|p| p.columns().get(1));
    Some(
        (
            list.len(),
            pairs.is_some(),
            first.map_or(false, |c| c.as_any().is::<StringArray>()),
            second.map_or(false, |c| c.as_any().is::<BooleanArray>()),
        ),
    )
}

/// Whether `model` is one of the five shapes of a list.
pub open spec fn is_list(model: ColumnModel) -> bool {
    model is Encoded || model is Flags || model is Labels || model is Structs || model is List
}

/// Hands out row `r` of a `ListArray` of structs with strings and booleans:
/// `None` for a null row (`Array::is_null`), and else the strings and
/// booleans of the row's structs, in order (`ListArray::value`,
/// `StructArray::column`).
#[verifier::external_body]
fn read_row(column: &ArrowColumn, r: usize) -> (row: Option<Vec<Indicator>>)
    requires
        arrow_model(*column) matches ColumnModel::Encoded(rows) && r < rows.len(),
    ensures
        row.deep_view() == rows_held(*column)[r as int],
{
    let list = column.array.as_any().downcast_ref::<ListArray>()?;
    if list.is_null(r) {
        return None;
    }
    let item = list.value(r);
    let pairs = item.as_any().downcast_ref::<StructArray>()?;
    let keys = pairs.column(0).as_any().downcast_ref::<StringArray>()?;
    let values = pairs.column(1).as_any().downcast_ref::<BooleanArray>()?;
    Some(
        (0..pairs.len()).map(
            |j| Indicator { key: keys.value(j).to_string(), value: values.value(j) },
        ).collect(),
    )
}

/// Hands out row `r` of a `ListArray` of structs with booleans and without
/// strings: `None` for a null row (`Array::is_null`), and else the booleans
/// of the row's structs, in order (`ListArray::value`,
/// `StructArray::column`).
#[verifier::external_body]
fn read_flags(column: &ArrowColumn, r: usize) -> (row: Option<Vec<bool>>)
    requires
        arrow_model(*column) matches ColumnModel::Flags(rows) && r < rows.len(),
    ensures
        row.deep_view() == flags_held(*column)[r as int],
{
    let list = column.array.as_any().downcast_ref::<ListArray>()?;
    if list.is_null(r) {
        return None;
    }
    let item = list.value(r);
    let pairs = item.as_any().downcast_ref::<StructArray>()?;
    let values = pairs.column(1).as_any().downcast_ref::<BooleanArray>()?;
    Some((0..pairs.len()).map(|j| values.value(j)).collect())
}

/// The name of the data type of an array, as `DataType` prints it for
/// debugging (`Array::data_type`).
#[verifier::external_body]
pub(crate) fn read_data_type(column: &ArrowColumn) -> (name: String)
    ensures
        name@ == arrow_data_type(*column),
        arrow_model(*column) matches ColumnModel::Other(other) ==> name@ == other,
{
    format!("{:?}", column.array.data_type())
}

/// Reads an array into the column that holds the same.
pub fn read_column(column: &ArrowColumn) -> (plain: Column)
    ensures
        plain@ == column@,
{
    if let Some(cells) = read_utf8(column) {
        return Column::Utf8(cells);
    }
    if let Some(dictionary) = read_dictionary(column) {
        return Column::Dictionary(dictionary);
    }
    match list_facts(column) {
        Some((len, structs, strings, booleans)) => {
            if !structs {
                Column::List
            } else if strings && booleans {
                let mut rows: Vec<Option<Vec<Indicator>>> = Vec::new();
                let mut r: usize = 0;
                while r < len
                    invariant
                        r <= len,
                        rows.len() == r,
                        arrow_model(*column) matches ColumnModel::Encoded(held) && held.len()
                            == len,
                        forall|q: int| 0 <= q < r ==> rows[q].deep_view() == rows_held(*column)[q],
                    decreases len - r,
                {
                    rows.push(read_row(column, r));
                    r += 1;
                }
                let encoded = EncodedColumn { rows };
                assert(encoded@ =~= rows_held(*column));
                Column::Encoded(encoded)
            } else if booleans {
                let mut rows: Vec<Option<Vec<bool>>> = Vec::new();
                let mut r: usize = 0;
                while r < len
                    invariant
                        r <= len,
                        rows.len() == r,
                        arrow_model(*column) matches ColumnModel::Flags(held) && held.len() == len,
                        forall|q: int| 0 <= q < r ==> rows[q].deep_view() == flags_held(*column)[q],
                    decreases len - r,
                {
                    rows.push(read_flags(column, r));
                    r += 1;
                }
                assert(rows.deep_view() =~= flags_held(*column));
                Column::Flags(rows)
            } else if strings {
                Column::Labels
            } else {
                Column::Structs
            }
        },
        None => Column::Other(read_data_type(column)),
    }
}

/// The rows of indicators that an array holds where it is a column of
/// indicators without labels.
pub open spec fn flags_held(column: ArrowColumn) -> FlagsModel {
    match arrow_model(column) {
        ColumnModel::Flags(rows) => rows,
        _ => Seq::empty(),
    }
}

/// The rows that an array holds where it is an encoded column.
pub open spec fn rows_held(column: ArrowColumn) -> EncodedModel {
    match arrow_model(column) {
        ColumnModel::Encoded(rows) => rows,
        _ => Seq::empty(),
    }
}

/// Reads a batch of arrays into the columns that hold the same.
pub fn read_batch(batch: &[ArrowColumn]) -> (plain: Vec<Column>)
    ensures
        plain.deep_view() == batch.deep_view(),
{
    let mut plain: Vec<Column> = Vec::new();
    let mut c: usize = 0;
    while c < batch.len()
        invariant
            c <= batch.len(),
            plain.len() == c,
            forall|k: int| 0 <= k < c ==> plain[k]@ == batch[k]@,
        decreases batch.len() - c,
    {
        plain.push(read_column(&batch[c]));
        c += 1;
    }
    assert(plain.deep_view() =~= batch.deep_view());
    plain
}

/// The number of entries, and the number of bytes of labels, that a list
/// array can hold at most: its offsets are 32-bit integers.
pub const LIST_LIMIT: usize = 2147483647;

/// The number of bytes that a label takes in an array.
pub open spec fn label_bytes(label: Seq<char>) -> nat {
    encode_utf8(label).len()
}

/// The number of bytes that the labels of a row take together.
pub open spec fn row_bytes(row: RowModel) -> nat
    decreases row.len(),
{
    if row.len() == 0 {
        0
    } else {
        row_bytes(row.drop_last()) + label_bytes(row.last().0)
    }
}

/// The number of entries of all rows of an encoded column together.
pub open spec fn held_entries(rows: EncodedModel) -> nat
    decreases rows.len(),
{
    if rows.len() == 0 {
        0
    } else {
        held_entries(rows.drop_last()) + match rows.last() {
            Some(row) => row.len(),
            None => 0,
        }
    }
}

/// The number of bytes that the labels of all rows of an encoded column take
/// together.
pub open spec fn held_bytes(rows: EncodedModel) -> nat
    decreases rows.len(),
{
    if rows.len() == 0 {
        0
    } else {
        held_bytes(rows.drop_last()) + match rows.last() {
            Some(row) => row_bytes(row),
            None => 0,
        }
    }
}

/// Whether a list array can hold an encoded column.
pub open spec fn fits(rows: EncodedModel) -> bool {
    held_entries(rows) <= LIST_LIMIT && held_bytes(rows) <= LIST_LIMIT
}

/// The number of bytes that the labels of a dictionary take together.
pub open spec fn dictionary_bytes(labels: Seq<Option<Seq<char>>>) -> nat
    decreases labels.len(),
{
    if labels.len() == 0 {
        0
    } else {
        dictionary_bytes(labels.drop_last()) + label_bytes(labels.last().unwrap())
    }
}

/// The labels of an encoded row take as many bytes as the labels of the
/// dictionary.
pub proof fn lemma_encoded_row_bytes(labels: Seq<Option<Seq<char>>>, key: Option<i32>)
    ensures
        row_bytes(encoded_row(labels, key)) == dictionary_bytes(labels),
    decreases labels.len(),
{
    if labels.len() > 0 {
        assert(encoded_row(labels, key).drop_last() =~= encoded_row(labels.drop_last(), key));
        lemma_encoded_row_bytes(labels.drop_last(), key);
    }
}

/// The encoding of a column holds one entry for each row and label, and
/// the labels of the dictionary once for each row: a list array can hold it
/// where neither the number of rows times the number of labels nor the
/// number of rows times the bytes of the labels is above its limit.
pub proof fn lemma_encoding_size(labels: Seq<Option<Seq<char>>>, keys: Seq<Option<i32>>)
    ensures
        held_entries(encoding(labels, keys)) == keys.len() * labels.len(),
        held_bytes(encoding(labels, keys)) == keys.len() * dictionary_bytes(labels),
        fits(encoding(labels, keys)) <==> keys.len() * labels.len() <= LIST_LIMIT && keys.len()
            * dictionary_bytes(labels) <= LIST_LIMIT,
    decreases keys.len(),
{
    let rows = keys.len();
    let width = labels.len();
    let bytes = dictionary_bytes(labels);
    if rows == 0 {
        assert(rows * width == 0 && rows * bytes == 0) by (nonlinear_arith)
            requires
                rows == 0,
        ;
    } else {
        assert(encoding(labels, keys).drop_last() =~= encoding(labels, keys.drop_last()));
        lemma_encoding_size(labels, keys.drop_last());
        lemma_encoded_row_bytes(labels, keys.last());
        assert((rows - 1) * width + width == rows * width && (rows - 1) * bytes + bytes == rows
            * bytes) by (nonlinear_arith);
    }
}

/// A list array of (label, indicator) structs in the making. The builder
/// itself is hidden from the verifier; the four names below stand for what
/// has been put into it.
#[verifier::external_body]
pub struct EncodedBuilder {
    builder: ListBuilder<StructBuilder>,
}

/// The rows that have been closed in a builder, in order.
pub uninterp spec fn builder_rows(builder: EncodedBuilder) -> Seq<Option<Seq<(Seq<char>, bool)>>>;

/// The entries that have been put into a builder since a row was last closed.
pub uninterp spec fn builder_open_row(builder: EncodedBuilder) -> Seq<(Seq<char>, bool)>;

/// The number of entries that have been put into a builder.
pub uninterp spec fn builder_entries(builder: EncodedBuilder) -> nat;

/// The number of bytes that the labels put into a builder take together.
pub uninterp spec fn builder_bytes(builder: EncodedBuilder) -> nat;

/// The names of the string field and of the boolean field that a builder was
/// made with.
pub uninterp spec fn builder_fields(builder: EncodedBuilder) -> (Seq<char>, Seq<char>);

/// Makes a builder of lists of structs with a string field and a boolean
/// field of the given names (`StructBuilder::from_fields`,
/// `ListBuilder::new`). Nothing has been put into it.
#[verifier::external_body]
fn new_builder(key_field: &str, value_field: &str) -> (builder: EncodedBuilder)
    ensures
        builder_rows(builder) == Seq::<Option<Seq<(Seq<char>, bool)>>>::empty(),
        builder_open_row(builder) == Seq::<(Seq<char>, bool)>::empty(),
        builder_entries(builder) == 0,
        builder_bytes(builder) == 0,
        builder_fields(builder) == (key_field@, value_field@),
{
    let fields = Fields::from(
        vec![
            Field::new(key_field, DataType::Utf8, false),
            Field::new(value_field, DataType::Boolean, false),
        ],
    );
    EncodedBuilder { builder: ListBuilder::new(StructBuilder::from_fields(fields, 2)) }
}

/// Puts one struct into the open row: the string and the boolean go to the
/// two field builders, and the struct is marked as present
/// (`StringBuilder::append_value`, `BooleanBuilder::append_value`,
/// `StructBuilder::append`). The string builder panics where its bytes
/// outgrow a 32-bit offset, which `requires` leaves out.
#[verifier::external_body]
fn push_indicator(builder: &mut EncodedBuilder, key: &str, value: bool)
    requires
        builder_bytes(*old(builder)) + label_bytes(key@) <= LIST_LIMIT,
    ensures
        builder_rows(*final(builder)) == builder_rows(*old(builder)),
        builder_open_row(*final(builder)) == builder_open_row(*old(builder)).push((key@, value)),
        builder_entries(*final(builder)) == builder_entries(*old(builder)) + 1,
        builder_bytes(*final(builder)) == builder_bytes(*old(builder)) + label_bytes(key@),
        builder_fields(*final(builder)) == builder_fields(*old(builder)),
{
    let pairs = builder.builder.values();
    pairs.field_builder::<StringBuilder>(0).unwrap().append_value(key);
    pairs.field_builder::<BooleanBuilder>(1).unwrap().append_value(value);
    pairs.append(true);
}

/// Closes the open row as a present row of the list (`ListBuilder::append`
/// with `true`). The list builder panics where its entries outgrow a 32-bit
/// offset, which `requires` leaves out.
#[verifier::external_body]
fn close_row(builder: &mut EncodedBuilder)
    requires
        builder_entries(*old(builder)) <= LIST_LIMIT,
    ensures
        builder_rows(*final(builder)) == builder_rows(*old(builder)).push(
            Some(builder_open_row(*old(builder))),
        ),
        builder_open_row(*final(builder)) == Seq::<(Seq<char>, bool)>::empty(),
        builder_entries(*final(builder)) == builder_entries(*old(builder)),
        builder_bytes(*final(builder)) == builder_bytes(*old(builder)),
        builder_fields(*final(builder)) == builder_fields(*old(builder)),
{
    builder.builder.append(true);
}

/// Closes an empty open row as a null row of the list (`ListBuilder::append`
/// with `false`), under the same limit.
#[verifier::external_body]
fn close_null_row(builder: &mut EncodedBuilder)
    requires
        builder_open_row(*old(builder)).len() == 0,
        builder_entries(*old(builder)) <= LIST_LIMIT,
    ensures
        builder_rows(*final(builder)) == builder_rows(*old(builder)).push(None),
        builder_open_row(*final(builder)) == Seq::<(Seq<char>, bool)>::empty(),
        builder_entries(*final(builder)) == builder_entries(*old(builder)),
        builder_bytes(*final(builder)) == builder_bytes(*old(builder)),
        builder_fields(*final(builder)) == builder_fields(*old(builder)),
{
    builder.builder.append(false);
}

/// Ends a builder with no open entries (`ListBuilder::finish`): the array
/// holds the rows that were closed, reads as an encoded column, and its
/// structs have the fields that the builder was made with.
#[verifier::external_body]
fn finish_builder(builder: EncodedBuilder) -> (column: ArrowColumn)
    requires
        builder_open_row(builder).len() == 0,
    ensures
        arrow_model(column) == ColumnModel::Encoded(builder_rows(builder)),
        arrow_fields(column) == builder_fields(builder),
{
    let mut builder = builder;
    ArrowColumn { array: Arc::new(builder.builder.finish()) }
}

/// The labels of the first entries of a row take no more bytes than those of
/// the whole row.
proof fn lemma_row_bytes_grow(row: RowModel, j: int)
    requires
        0 <= j <= row.len(),
    ensures
        row_bytes(row.take(j)) <= row_bytes(row),
    decreases row.len(),
{
    if j < row.len() {
        assert(row.drop_last().take(j) =~= row.take(j));
        lemma_row_bytes_grow(row.drop_last(), j);
    } else {
        assert(row.take(j) =~= row);
    }
}

/// The first rows of a column hold no more entries, and no more bytes of
/// labels, than the whole column.
proof fn lemma_held_grows(rows: EncodedModel, r: int)
    requires
        0 <= r <= rows.len(),
    ensures
        held_entries(rows.take(r)) <= held_entries(rows),
        held_bytes(rows.take(r)) <= held_bytes(rows),
    decreases rows.len(),
{
    if r < rows.len() {
        assert(rows.drop_last().take(r) =~= rows.take(r));
        lemma_held_grows(rows.drop_last(), r);
    } else {
        assert(rows.take(r) =~= rows);
    }
}

/// Puts the entries of `row` into the empty open row of `builder`, as far as
/// the limit of a list array lets it. `entries` and `bytes` count what the
/// builder holds before, and the result counts what it holds after; it is
/// `None` where the row does not fit.
fn push_row(builder: &mut EncodedBuilder, row: &Vec<Indicator>, entries: usize, bytes: usize) -> (now: Option<
    (usize, usize),
>)
    requires
        builder_open_row(*old(builder)).len() == 0,
        builder_entries(*old(builder)) == entries <= LIST_LIMIT,
        builder_bytes(*old(builder)) == bytes <= LIST_LIMIT,
    ensures
        match now {
            Some((entries_now, bytes_now)) => {
                &&& builder_rows(*final(builder)) == builder_rows(*old(builder))
                &&& builder_open_row(*final(builder)) == row.deep_view()
                &&& builder_entries(*final(builder)) == entries_now == entries + row.len()
                &&& builder_bytes(*final(builder)) == bytes_now == bytes + row_bytes(
                    row.deep_view(),
                )
                &&& entries_now <= LIST_LIMIT
                &&& bytes_now <= LIST_LIMIT
                &&& builder_fields(*final(builder)) == builder_fields(*old(builder))
            },
            None => entries + row.len() > LIST_LIMIT || bytes + row_bytes(row.deep_view())
                > LIST_LIMIT,
        },
{
    let ghost model = row.deep_view();
    let mut entries_now = entries;
    let mut bytes_now = bytes;
    let mut j: usize = 0;
    while j < row.len()
        invariant
            j <= row.len(),
            model == row.deep_view(),
            builder_rows(*builder) == builder_rows(*old(builder)),
            builder_fields(*builder) == builder_fields(*old(builder)),
            builder_open_row(*builder) == model.take(j as int),
            builder_entries(*builder) == entries_now == entries + j,
            builder_bytes(*builder) == bytes_now == bytes + row_bytes(model.take(j as int)),
            entries_now <= LIST_LIMIT,
            bytes_now <= LIST_LIMIT,
        decreases row.len() - j,
    {
        let key = row[j].key.as_str();
        let size = key.as_bytes().len();
        proof {
            assert(model.take(j + 1).drop_last() =~= model.take(j as int));
            assert(model.take(j + 1).last() == model[j as int]);
            lemma_row_bytes_grow(model, j + 1);
        }
        if entries_now == LIST_LIMIT || size > LIST_LIMIT - bytes_now {
            return None;
        }
        push_indicator(builder, key, row[j].value);
        entries_now += 1;
        bytes_now += size;
        assert(model.take(j + 1) =~= model.take(j as int).push(model[j as int]));
        j += 1;
    }
    assert(model.take(j as int) =~= model);
    Some((entries_now, bytes_now))
}

/// Makes the array that holds an encoded column, where a list array can hold
/// it.
pub fn write_encoded(encoded: &EncodedColumn) -> (r: Result<ArrowColumn, UdfError>)
    ensures
        match r {
            Ok(column) => {
                &&& column@ == ColumnModel::Encoded(encoded@)
                &&& arrow_fields(column) == (KEY_FIELD@, VALUE_FIELD@)
            },
            Err(e) => e == UdfError::TooLarge,
        },
        r is Ok <==> fits(encoded@),
{
    let mut builder = new_builder(KEY_FIELD, VALUE_FIELD);
    let mut entries: usize = 0;
    let mut bytes: usize = 0;
    let mut r: usize = 0;
    while r < encoded.rows.len()
        invariant
            r <= encoded.rows.len(),
            builder_rows(builder) == encoded@.take(r as int),
            builder_fields(builder) == (KEY_FIELD@, VALUE_FIELD@),
            builder_open_row(builder).len() == 0,
            builder_entries(builder) == entries == held_entries(encoded@.take(r as int)),
            builder_bytes(builder) == bytes == held_bytes(encoded@.take(r as int)),
            entries <= LIST_LIMIT,
            bytes <= LIST_LIMIT,
        decreases encoded.rows.len() - r,
    {
        proof {
            assert(encoded@.take(r + 1).drop_last() =~= encoded@.take(r as int));
            assert(encoded@.take(r + 1).last() == encoded@[r as int]);
            lemma_held_grows(encoded@, r + 1);
        }
        match &encoded.rows[r] {
            Some(row) => {
                match push_row(&mut builder, row, entries, bytes) {
                    Some((entries_now, bytes_now)) => {
                        entries = entries_now;
                        bytes = bytes_now;
                    },
                    None => {
                        return Err(UdfError::TooLarge);
                    },
                }
                close_row(&mut builder);
            },
            None => {
                close_null_row(&mut builder);
            },
        }
        assert(encoded@.take(r + 1) =~= encoded@.take(r as int).push(encoded@[r as int]));
        r += 1;
    }
    assert(encoded@.take(r as int) =~= encoded@);
    Ok(finish_builder(builder))
}

} // verus!
