//! The functions on the engine's arrays: each reads its arrays, does its
//! work on the columns that hold the same, and where it returns an array,
//! makes it.

use vstd::prelude::*;
use crate::arrow::{arrow_fields, fits, read_batch, read_column, write_encoded, ArrowColumn};
use crate::column::{uniform, ColumnModel, KEY_FIELD, VALUE_FIELD};
use crate::dense::{
    batch_fault, batch_labels, batch_model, batch_ok, batch_rows, batch_width, category_flags,
    column_inspected, column_labels, dense_matrix, dense_matrix_of, flat_rows, flatten,
    flags_of, flatten_column, has_indicator_column, indicator_column, indicator_fault, rows_of,
    DenseMatrix,
};
use crate::encoder::{encodable, encode, encode_fault, encoding, encoding_of, one_hot};
use crate::error::UdfError;
use crate::predict::{answers_each_row, score_batch, settled};

verus! {

/// One-hot encodes a dictionary-encoded array, the first of `args`.
///
/// The result is a list array of structs with the fields `key` and `value`,
/// with one row per row of the argument, and each
/// row lists every label of the dictionary, in dictionary order, with a true
/// indicator beside the label that the row's key selects and false ones
/// elsewhere. An array of another type, a dictionary with a null or repeated
/// label, and a key that selects no label of a non-empty dictionary are
/// rejected, the first fault found in that order; and so is an array whose
/// encoding is too large for a list array.
pub fn onehot(args: &[ArrowColumn]) -> (r: Result<ArrowColumn, UdfError>)
    requires
        args.len() > 0,
    ensures
        match r {
            Ok(encoded) => {
                &&& args[0]@ matches ColumnModel::Dictionary(labels, keys)
                &&& encoded@ == ColumnModel::Encoded(encoding(labels, keys))
                &&& arrow_fields(encoded) == (KEY_FIELD@, VALUE_FIELD@)
                &&& uniform(encoding(labels, keys))
                &&& labels.len() > 0 ==> one_hot(encoding(labels, keys), labels, keys)
            },
            Err(UdfError::TooLarge) => encodable(args[0]@) && !fits(encoding_of(args[0]@)),
            Err(e) => encode_fault(args[0]@, e),
        },
        r is Ok <==> encodable(args[0]@) && fits(encoding_of(args[0]@)),
{
    let column = read_column(&args[0]);
    match encode(&column) {
        Ok(encoded) => write_encoded(&encoded),
        Err(e) => Err(e),
    }
}

/// Reads one category out of an encoded array: for each row the indicator
/// at position `column`, together with the number of rows.
///
/// The array is a list of structs whose second column holds booleans; what
/// the first column holds is not looked at. An array of another type is
/// rejected, and so is the first row that is null or has no indicator at
/// that position.
pub fn convert_to_native(batch: &ArrowColumn, column: usize) -> (r: Result<
    (Vec<bool>, usize),
    UdfError,
>)
    ensures
        match r {
            Ok((flags, num_rows)) => {
                &&& num_rows == flags_of(batch@).len()
                &&& flags@ == indicator_column(flags_of(batch@), column as int)
            },
            Err(e) => indicator_fault(batch@, column, e),
        },
        r is Ok <==> has_indicator_column(batch@, column as int),
{
    let plain = read_column(batch);
    category_flags(&plain, column)
}

/// Flattens one encoded array: the indicators of its rows, one row after
/// the other, with the number of rows and the labels that the rows list.
///
/// An array of another type is rejected. So is an array with a null row,
/// for its first null row, and an array without one for the first row that
/// does not list the labels of the first row.
pub fn to_dense(batch: &ArrowColumn) -> (r: Result<(Vec<bool>, usize, Vec<String>), UdfError>)
    ensures
        match r {
            Ok((cells, num_rows, names)) => {
                &&& num_rows == rows_of(batch@).len()
                &&& cells@ == flat_rows(seq![rows_of(batch@)], num_rows as nat)
                &&& names.deep_view() == column_labels(rows_of(batch@))
            },
            Err(e) => column_inspected(batch@, 0, Err(e)),
        },
        r is Ok <==> batch@ is Encoded && uniform(rows_of(batch@)),
{
    let plain = read_column(batch);
    flatten_column(&plain)
}

/// Flattens a batch of encoded arrays, row by row: row `r` of the result is
/// made of the indicators of row `r` of each array, in the order of the
/// arrays, and the rows follow one another. With the cells come the number
/// of rows and the labels of all arrays, in the same order.
///
/// The batch is rejected with the fault of its first array that is not a
/// uniform encoded column or has not as many rows as the first.
pub fn records_to_dense(batch: &[ArrowColumn]) -> (r: Result<
    (Vec<bool>, usize, Vec<String>),
    UdfError,
>)
    ensures
        match r {
            Ok((cells, num_rows, names)) => {
                &&& num_rows == batch_rows(batch_model(batch.deep_view()))
                &&& cells@ == flat_rows(batch_model(batch.deep_view()), num_rows as nat)
                &&& names.deep_view() == batch_labels(batch_model(batch.deep_view()))
            },
            Err(e) => batch_fault(batch.deep_view(), e),
        },
        r is Ok <==> batch_ok(batch.deep_view()),
{
    let plain = read_batch(batch);
    flatten(plain.as_slice())
}

/// Builds the dense matrix of a batch of encoded arrays.
///
/// The batch is rejected with the fault of its first array that is not a
/// uniform encoded column or has not as many rows as the first.
pub fn create_dmatrix(data: &[ArrowColumn]) -> (r: Result<DenseMatrix, UdfError>)
    ensures
        match r {
            Ok(matrix) => dense_matrix_of(data.deep_view(), matrix),
            Err(e) => batch_fault(data.deep_view(), e),
        },
        r is Ok <==> batch_ok(data.deep_view()),
{
    let plain = read_batch(data);
    dense_matrix(plain.as_slice())
}

/// Scores a batch of encoded arrays, one score per row.
///
/// The arrays are flattened into their dense matrix, the matrix is handed to
/// `score`, which stands for the model, and what it answers is settled as
/// `settled` says. The model is not consulted for a batch that is rejected,
/// for one without rows, which has no scores, or for a matrix that is not as
/// wide as `model_width` says that the model's rows are.
pub fn predict<T, F>(args: &[ArrowColumn], model_width: Option<usize>, score: F) -> (r: Result<
    Vec<T>,
    UdfError,
>) where F: FnOnce(DenseMatrix) -> Result<Vec<T>, UdfError>
    requires
        forall|matrix: DenseMatrix|
            dense_matrix_of(args.deep_view(), matrix) ==> call_requires(score, (matrix,)),
    ensures
        !batch_ok(args.deep_view()) ==> (r matches Err(e) && batch_fault(args.deep_view(), e)),
        batch_ok(args.deep_view()) && batch_rows(batch_model(args.deep_view())) == 0 ==> (
        r matches Ok(scores) && scores.len() == 0),
        batch_ok(args.deep_view()) && batch_rows(batch_model(args.deep_view())) > 0
            ==> match model_width {
            Some(width) if width != batch_width(batch_model(args.deep_view())) => {
                &&& r matches Err(UdfError::WidthMismatch { expected_width, actual_width })
                &&& expected_width == width
                &&& actual_width == batch_width(batch_model(args.deep_view()))
            },
            _ => exists|matrix: DenseMatrix, outcome: Result<Vec<T>, UdfError>|
                {
                    &&& dense_matrix_of(args.deep_view(), matrix)
                    &&& call_ensures(score, (matrix,), outcome)
                    &&& r == settled(matrix.num_rows, outcome)
                },
        },
        r matches Ok(scores) ==> scores.len() == batch_rows(batch_model(args.deep_view())),
        batch_ok(args.deep_view()) && answers_each_row(score) && (model_width matches Some(width)
            ==> width == batch_width(batch_model(args.deep_view()))) ==> r is Ok,
{
    let plain = read_batch(args);
    score_batch(plain.as_slice(), model_width, score)
}

} // verus!
