//! The encoder: from a dictionary-encoded column to its one-hot encoding.

use vstd::prelude::*;
use crate::column::{
    first_key_fault, first_label_fault, key_fault, key_selects, label_fault, row_fault, row_labels,
    uniform, valid_dictionary, valid_keys, valid_labels, Column, ColumnModel, EncodedColumn,
    EncodedModel, Indicator, LabelColumn, RowModel, Shape,
};
use crate::error::UdfError;

verus! {

/// The name under which a query engine knows `onehot`.
pub const ONEHOT_NAME: &'static str = "onehot";

/// The encoding of one row: every label of the dictionary, in dictionary
/// order, with the indicator true where the row's key selects it.
pub open spec fn encoded_row(labels: Seq<Option<Seq<char>>>, key: Option<i32>) -> RowModel {
    Seq::new(labels.len(), |j: int| (labels[j].unwrap(), key_selects(key, j)))
}

/// The encoding of a column: one encoded row per key, in row order.
pub open spec fn encoding(labels: Seq<Option<Seq<char>>>, keys: Seq<Option<i32>>) -> EncodedModel {
    Seq::new(keys.len(), |r: int| Some(encoded_row(labels, keys[r])))
}

/// Whether `j` is a position of `row`, the indicator there is true, and no
/// other indicator of `row` is true.
pub open spec fn sole_indicator(row: RowModel, j: int) -> bool {
    &&& 0 <= j < row.len()
    &&& row[j].1
    &&& forall|i: int| 0 <= i < row.len() && i != j ==> !row[i].1
}

/// Whether row `r` of `encoded` has exactly one true indicator, which stands
/// at the position that the row's key gives and beside the label that the
/// key selects in `labels`.
pub open spec fn one_hot_row(
    encoded: EncodedModel,
    labels: Seq<Option<Seq<char>>>,
    keys: Seq<Option<i32>>,
    r: int,
) -> bool {
    &&& encoded[r] matches Some(row)
    &&& keys[r] matches Some(k)
    &&& sole_indicator(row, k as int)
    &&& row[k as int].0 == labels[k as int].unwrap()
}

/// Whether `encoded` has a row for each key, and each row is one-hot.
pub open spec fn one_hot(
    encoded: EncodedModel,
    labels: Seq<Option<Seq<char>>>,
    keys: Seq<Option<i32>>,
) -> bool {
    &&& encoded.len() == keys.len()
    &&& forall|r: int| 0 <= r < keys.len() ==> one_hot_row(encoded, labels, keys, r)
}

/// Whether `column` can be encoded: it is a dictionary-encoded column, its
/// labels are a dictionary, and every key selects a label.
pub open spec fn encodable(column: ColumnModel) -> bool {
    column matches ColumnModel::Dictionary(labels, keys) && valid_dictionary(labels, keys)
}

/// What the encoding of `column` holds, where `column` is dictionary-encoded.
pub open spec fn encoding_of(column: ColumnModel) -> EncodedModel {
    match column {
        ColumnModel::Dictionary(labels, keys) => encoding(labels, keys),
        _ => Seq::empty(),
    }
}

/// Whether `e` is the fault for which `column` cannot be encoded: another
/// shape than a dictionary, else the first label at fault, else the first key
/// at fault.
pub open spec fn encode_fault(column: ColumnModel, e: UdfError) -> bool {
    match e {
        UdfError::TypeMismatch { position, expected, actual } => {
            &&& !(column is Dictionary)
            &&& position == 0
            &&& expected == Shape::Dictionary
            &&& actual == column.shape()
        },
        UdfError::InvalidLabel { position, index } => {
            &&& column matches ColumnModel::Dictionary(labels, keys)
            &&& position == 0
            &&& first_label_fault(labels, index as int)
        },
        UdfError::InvalidKey { position, row } => {
            &&& column matches ColumnModel::Dictionary(labels, keys)
            &&& position == 0
            &&& valid_labels(labels)
            &&& first_key_fault(labels.len(), keys, row as int)
        },
        _ => false,
    }
}

/// The encoding of a column category by category: every label of the
/// dictionary, in dictionary order, with the indicators of all rows for it,
/// in row order.
pub open spec fn encoding_by_label(
    labels: Seq<Option<Seq<char>>>,
    keys: Seq<Option<i32>>,
) -> Seq<(Seq<char>, Seq<bool>)> {
    Seq::new(
        labels.len(),
        |j: int| (labels[j].unwrap(), Seq::new(keys.len(), |r: int| key_selects(keys[r], j))),
    )
}

/// The position of the first label at fault, if there is one.
fn find_label_fault(labels: &Vec<Option<String>>) -> (found: Option<usize>)
    ensures
        match found {
            Some(i) => first_label_fault(labels.deep_view(), i as int),
            None => valid_labels(labels.deep_view()),
        },
{
    let ghost model = labels.deep_view();
    let mut i: usize = 0;
    while i < labels.len()
        invariant
            i <= labels.len(),
            model == labels.deep_view(),
            forall|k: int| 0 <= k < i ==> !label_fault(model, k),
        decreases labels.len() - i,
    {
        match &labels[i] {
            None => {
                return Some(i);
            },
            Some(label) => {
                let mut k: usize = 0;
                while k < i
                    invariant
                        k <= i < labels.len(),
                        model == labels.deep_view(),
                        labels[i as int] == Some(*label),
                        forall|q: int| 0 <= q < i ==> !label_fault(model, q),
                        forall|q: int| 0 <= q < k ==> model[q] != model[i as int],
                    decreases i - k,
                {
                    match &labels[k] {
                        Some(earlier) => {
                            if *earlier == *label {
                                assert(model[k as int] == model[i as int]);
                                return Some(i);
                            }
                        },
                        None => {},
                    }
                    k += 1;
                }
            },
        }
        i += 1;
    }
    None
}

/// Whether `key` selects a label of a dictionary of `n` labels.
fn key_in_range(n: usize, key: &Option<i32>) -> (ok: bool)
    ensures
        ok == !key_fault(n as nat, *key),
{
    if n == 0 {
        return true;
    }
    match key {
        Some(k) => {
            *k >= 0 && (*k as usize) < n
        },
        None => false,
    }
}

/// The first row whose key is at fault, if there is one.
fn find_key_fault(n: usize, keys: &Vec<Option<i32>>) -> (found: Option<usize>)
    ensures
        match found {
            Some(r) => first_key_fault(n as nat, keys.deep_view(), r as int),
            None => valid_keys(n as nat, keys.deep_view()),
        },
{
    let ghost model = keys.deep_view();
    let mut r: usize = 0;
    while r < keys.len()
        invariant
            r <= keys.len(),
            model == keys.deep_view(),
            forall|q: int| 0 <= q < r ==> !key_fault(n as nat, model[q]),
        decreases keys.len() - r,
    {
        if !key_in_range(n, &keys[r]) {
            return Some(r);
        }
        r += 1;
    }
    None
}

/// Encodes one row of a column whose labels are all present.
fn encode_row(labels: &Vec<Option<String>>, key: &Option<i32>) -> (row: Vec<Indicator>)
    requires
        forall|j: int| 0 <= j < labels.len() ==> labels[j] is Some,
    ensures
        row.deep_view() == encoded_row(labels.deep_view(), *key),
{
    let mut row: Vec<Indicator> = Vec::new();
    let mut j: usize = 0;
    while j < labels.len()
        invariant
            j <= labels.len(),
            row.len() == j,
            forall|j: int| 0 <= j < labels.len() ==> labels[j] is Some,
            forall|q: int| 0 <= q < j ==> row[q]@ == encoded_row(labels.deep_view(), *key)[q],
        decreases labels.len() - j,
    {
        let value = selects(key, j);
        let label = match &labels[j] {
            Some(label) => label.clone(),
            None => String::new(),
        };
        row.push(Indicator { key: label, value });
        j += 1;
    }
    assert(row.deep_view() =~= encoded_row(labels.deep_view(), *key));
    row
}

/// Whether `key` selects the label at position `j`.
fn selects(key: &Option<i32>, j: usize) -> (yes: bool)
    ensures
        yes == key_selects(*key, j as int),
{
    match key {
        Some(k) => *k >= 0 && *k as usize == j,
        None => false,
    }
}

/// One-hot encodes a dictionary-encoded column category by category.
///
/// The result has one entry per label of the dictionary, in dictionary
/// order, and each entry holds the label and one indicator per row of
/// `column`, true where the row's key selects the label. A column is
/// rejected where `encode` rejects it, and for the same fault.
pub fn encode_by_label(column: &Column) -> (r: Result<Vec<LabelColumn>, UdfError>)
    ensures
        match r {
            Ok(columns) => {
                &&& column@ matches ColumnModel::Dictionary(labels, keys)
                &&& columns.deep_view() == encoding_by_label(labels, keys)
            },
            Err(e) => encode_fault(column@, e),
        },
        r is Ok <==> encodable(column@),
{
    match column {
        Column::Dictionary(d) => {
            if let Some(index) = find_label_fault(&d.labels) {
                return Err(UdfError::InvalidLabel { position: 0, index });
            }
            if let Some(row) = find_key_fault(d.labels.len(), &d.keys) {
                return Err(UdfError::InvalidKey { position: 0, row });
            }
            let ghost labels = d.labels.deep_view();
            let ghost keys = d.keys.deep_view();
            let mut columns: Vec<LabelColumn> = Vec::new();
            let mut j: usize = 0;
            while j < d.labels.len()
                invariant
                    j <= d.labels.len(),
                    columns.len() == j,
                    labels == d.labels.deep_view(),
                    keys == d.keys.deep_view(),
                    valid_labels(labels),
                    forall|q: int|
                        0 <= q < j ==> columns[q]@ == encoding_by_label(labels, keys)[q],
                decreases d.labels.len() - j,
            {
                let mut values: Vec<bool> = Vec::new();
                let mut r: usize = 0;
                while r < d.keys.len()
                    invariant
                        r <= d.keys.len(),
                        j < d.labels.len(),
                        values.len() == r,
                        keys == d.keys.deep_view(),
                        forall|q: int| 0 <= q < r ==> values[q] == key_selects(keys[q], j as int),
                    decreases d.keys.len() - r,
                {
                    values.push(selects(&d.keys[r], j));
                    r += 1;
                }
                assert(!label_fault(labels, j as int));
                let label = match &d.labels[j] {
                    Some(label) => label.clone(),
                    None => String::new(),
                };
                assert(values@ =~= encoding_by_label(labels, keys)[j as int].1);
                columns.push(LabelColumn { label, values });
                j += 1;
            }
            assert(columns.deep_view() =~= encoding_by_label(labels, keys));
            Ok(columns)
        },
        other => Err(
            UdfError::TypeMismatch {
                position: 0,
                expected: Shape::Dictionary,
                actual: other.shape(),
            },
        ),
    }
}

/// One-hot encodes a dictionary-encoded column.
///
/// The result has one row per row of `column`, and each row lists every
/// label of the dictionary, in dictionary order, with a true indicator beside
/// the label that the row's key selects and false ones elsewhere. A column
/// of another shape, a dictionary with a null or repeated label, and a key
/// that selects no label of a non-empty dictionary are rejected, the first
/// fault found in that order.
pub fn encode(column: &Column) -> (r: Result<EncodedColumn, UdfError>)
    ensures
        match r {
            Ok(encoded) => {
                &&& column@ matches ColumnModel::Dictionary(labels, keys)
                &&& encoded@ == encoding(labels, keys)
                &&& encoded.wf()
                &&& labels.len() > 0 ==> one_hot(encoded@, labels, keys)
            },
            Err(e) => encode_fault(column@, e),
        },
        r is Ok <==> encodable(column@),
{
    match column {
        Column::Dictionary(d) => {
            if let Some(index) = find_label_fault(&d.labels) {
                return Err(UdfError::InvalidLabel { position: 0, index });
            }
            if let Some(row) = find_key_fault(d.labels.len(), &d.keys) {
                return Err(UdfError::InvalidKey { position: 0, row });
            }
            let ghost labels = d.labels.deep_view();
            let ghost keys = d.keys.deep_view();
            assert forall|j: int| 0 <= j < d.labels.len() implies d.labels[j] is Some by {
                assert(!label_fault(labels, j));
            }
            let mut rows: Vec<Option<Vec<Indicator>>> = Vec::new();
            let mut r: usize = 0;
            while r < d.keys.len()
                invariant
                    r <= d.keys.len(),
                    rows.len() == r,
                    labels == d.labels.deep_view(),
                    keys == d.keys.deep_view(),
                    forall|j: int| 0 <= j < d.labels.len() ==> d.labels[j] is Some,
                    forall|q: int| 0 <= q < r ==> rows[q].deep_view() == encoding(labels, keys)[q],
                decreases d.keys.len() - r,
            {
                let row = encode_row(&d.labels, &d.keys[r]);
                rows.push(Some(row));
                r += 1;
            }
            let encoded = EncodedColumn { rows };
            proof {
                assert(encoded@ =~= encoding(labels, keys));
                lemma_encoding_uniform(labels, keys);
                if d.labels.len() > 0 {
                    lemma_encoding_one_hot(labels, keys);
                }
            }
            Ok(encoded)
        },
        other => Err(
            UdfError::TypeMismatch {
                position: 0,
                expected: Shape::Dictionary,
                actual: other.shape(),
            },
        ),
    }
}

/// A column has at most one fault for which it cannot be encoded, and none
/// where it can be: the error that rejects it is determined.
pub proof fn lemma_encode_fault_unique(column: ColumnModel, first: UdfError, second: UdfError)
    requires
        encode_fault(column, first),
        encode_fault(column, second),
    ensures
        first == second,
        !encodable(column),
{
}

/// The encoding of a column over a non-empty dictionary whose keys all
/// select a label is one-hot: in each row exactly one indicator is true, and
/// the label beside it is the label that the row's key selects.
pub proof fn lemma_encoding_one_hot(labels: Seq<Option<Seq<char>>>, keys: Seq<Option<i32>>)
    requires
        labels.len() > 0,
        valid_keys(labels.len(), keys),
    ensures
        one_hot(encoding(labels, keys), labels, keys),
{
    let encoded = encoding(labels, keys);
    assert forall|r: int| 0 <= r < keys.len() implies one_hot_row(encoded, labels, keys, r) by {
        assert(!key_fault(labels.len(), keys[r]));
    }
}

/// In the encoding of a column over a dictionary, an indicator is true
/// exactly where its label is the label of the row: to tell the categories
/// apart by their labels is the same as to tell them apart by their
/// positions.
pub proof fn lemma_indicator_by_label(
    labels: Seq<Option<Seq<char>>>,
    keys: Seq<Option<i32>>,
    row: int,
    j: int,
)
    requires
        valid_labels(labels),
        valid_keys(labels.len(), keys),
        0 <= row < keys.len(),
        0 <= j < labels.len(),
    ensures
        keys[row] is Some,
        0 <= keys[row].unwrap() < labels.len(),
        encoding(labels, keys)[row].unwrap()[j].1 <==> labels[j] == labels[keys[row].unwrap() as int],
{
    assert(!key_fault(labels.len(), keys[row]));
    let k = keys[row].unwrap() as int;
    if j < k {
        assert(!label_fault(labels, k));
    } else if k < j {
        assert(!label_fault(labels, j));
    }
}

/// The encoding of a dictionary-encoded column is a uniform column: every
/// row is present and lists the labels of the dictionary, in dictionary
/// order.
pub proof fn lemma_encoding_uniform(labels: Seq<Option<Seq<char>>>, keys: Seq<Option<i32>>)
    ensures
        uniform(encoding(labels, keys)),
        forall|r: int|
            0 <= r < keys.len() ==> (#[trigger] encoding(labels, keys)[r]).unwrap().len()
                == labels.len(),
        forall|r: int|
            0 <= r < keys.len() ==> row_labels((#[trigger] encoding(labels, keys)[r]).unwrap())
                == Seq::new(labels.len(), |j: int| labels[j].unwrap()),
{
    let encoded = encoding(labels, keys);
    let listed = Seq::new(labels.len(), |j: int| labels[j].unwrap());
    assert forall|r: int| 0 <= r < keys.len() implies row_labels(
        (#[trigger] encoded[r]).unwrap(),
    ) == listed by {
        assert(row_labels(encoded[r].unwrap()) =~= listed);
    }
    assert forall|r: int| 0 <= r < encoded.len() implies !row_fault(encoded, r) by {
        assert(row_labels(encoded[r].unwrap()) == row_labels(encoded[0].unwrap()));
    }
}

/// The encoding by label holds what the encoding by row holds, turned
/// around: the indicator of row `row` in the entry of category `j` is the
/// indicator of category `j` in row `row`, and beside the same label.
pub proof fn lemma_by_label_transposes(
    labels: Seq<Option<Seq<char>>>,
    keys: Seq<Option<i32>>,
    row: int,
    j: int,
)
    requires
        0 <= row < keys.len(),
        0 <= j < labels.len(),
    ensures
        encoding_by_label(labels, keys)[j].1[row] == encoding(labels, keys)[row].unwrap()[j].1,
        encoding_by_label(labels, keys)[j].0 == encoding(labels, keys)[row].unwrap()[j].0,
{
    assert(encoding(labels, keys)[row] == Some(encoded_row(labels, keys[row])));
}

/// Two columns over one dictionary are laid out alike: any row of the one
/// encoding lists the same labels, in the same order, as any row of the
/// other, namely the labels of the dictionary.
pub proof fn lemma_encoding_order_stable(
    labels: Seq<Option<Seq<char>>>,
    keys_a: Seq<Option<i32>>,
    keys_b: Seq<Option<i32>>,
    row_a: int,
    row_b: int,
)
    requires
        0 <= row_a < keys_a.len(),
        0 <= row_b < keys_b.len(),
    ensures
        row_labels(encoding(labels, keys_a)[row_a].unwrap()) == row_labels(
            encoding(labels, keys_b)[row_b].unwrap(),
        ),
        row_labels(encoding(labels, keys_a)[row_a].unwrap()) == Seq::new(
            labels.len(),
            |j: int| labels[j].unwrap(),
        ),
{
    let listed = Seq::new(labels.len(), |j: int| labels[j].unwrap());
    assert(row_labels(encoding(labels, keys_a)[row_a].unwrap()) =~= listed);
    assert(row_labels(encoding(labels, keys_b)[row_b].unwrap()) =~= listed);
}

/// Over an empty dictionary every row is encoded as the empty sequence.
pub proof fn lemma_encoding_of_empty_dictionary(
    labels: Seq<Option<Seq<char>>>,
    keys: Seq<Option<i32>>,
    row: int,
)
    requires
        labels.len() == 0,
        0 <= row < keys.len(),
    ensures
        valid_labels(labels),
        valid_keys(labels.len(), keys),
        encoding(labels, keys)[row] == Some(Seq::<(Seq<char>, bool)>::empty()),
{
    assert(encoding(labels, keys)[row].unwrap() =~= Seq::<(Seq<char>, bool)>::empty());
}

} // verus!
