//! The prediction adapter: the verified steps around the model.

use vstd::prelude::*;
use crate::column::Column;
use crate::dense::{
    batch_fault, batch_model, batch_ok, batch_rows, batch_width, dense_matrix, dense_matrix_of,
    DenseMatrix,
};
use crate::error::UdfError;

verus! {

/// The name under which a query engine knows `predict`.
pub const PREDICT_NAME: &'static str = "predict";

/// The file that holds the trained model, in the working directory.
pub const MODEL_FILE: &'static str = "model.xgb";

/// What a prediction returns once the model has answered for a matrix of
/// `num_rows` rows: the model's scores where it gave one per row, the
/// model's own failure where it failed, and a mismatch otherwise.
pub open spec fn settled<T>(num_rows: usize, outcome: Result<Vec<T>, UdfError>) -> Result<
    Vec<T>,
    UdfError,
> {
    match outcome {
        Ok(scores) => if scores.len() == num_rows {
            Ok(scores)
        } else {
            Err(
                UdfError::ScoreCountMismatch {
                    expected_scores: num_rows,
                    actual_scores: scores.len(),
                },
            )
        },
        Err(e) => Err(e),
    }
}

/// Whether a model answers every matrix with one score for each of its rows.
pub open spec fn answers_each_row<T, F: FnOnce(DenseMatrix) -> Result<Vec<T>, UdfError>>(
    score: F,
) -> bool {
    forall|matrix: DenseMatrix, outcome: Result<Vec<T>, UdfError>|
        call_ensures(score, (matrix,), outcome) ==> (outcome matches Ok(scores) && scores.len()
            == matrix.num_rows)
}

/// Settles what the model answered for a matrix of `num_rows` rows.
pub fn finish_prediction<T>(num_rows: usize, outcome: Result<Vec<T>, UdfError>) -> (r: Result<
    Vec<T>,
    UdfError,
>)
    ensures
        r == settled(num_rows, outcome),
        r matches Ok(scores) ==> scores.len() == num_rows,
{
    match outcome {
        Ok(scores) => {
            if scores.len() == num_rows {
                Ok(scores)
            } else {
                Err(
                    UdfError::ScoreCountMismatch {
                        expected_scores: num_rows,
                        actual_scores: scores.len(),
                    },
                )
            }
        },
        Err(e) => Err(e),
    }
}

/// Scores a batch of encoded columns, one score per row.
///
/// The columns are flattened into their dense matrix, the matrix is handed
/// to `score`, which stands for the model, and what it answers is settled as
/// `settled` says. The model is not consulted for a batch that is rejected,
/// for one without rows, which has no scores, or for a matrix that is not as
/// wide as `model_width` says that the model's rows are.
pub fn score_batch<T, F>(args: &[Column], model_width: Option<usize>, score: F) -> (r: Result<
    Vec<T>,
    UdfError,
>) where F: FnOnce(DenseMatrix) -> Result<Vec<T>, UdfError>
    requires
        forall|matrix: DenseMatrix|
            dense_matrix_of(args.deep_view(), matrix) ==> call_requires(score, (matrix,)),
    ensures
        !batch_ok(args.deep_view()) ==> (r matches Err(e) && batch_fault(args.deep_view(), e)),
        batch_ok(args.deep_view()) && batch_rows(batch_model(args.deep_view())) == 0 ==> (r matches Ok(scores)
            && scores.len() == 0),
        batch_ok(args.deep_view()) && batch_rows(batch_model(args.deep_view())) > 0 ==> match model_width {
            Some(width) if width != batch_width(batch_model(args.deep_view())) => {
                &&& r matches Err(UdfError::WidthMismatch { expected_width, actual_width })
                &&& expected_width == width
                &&& actual_width == batch_width(batch_model(args.deep_view()))
            },
            _ => exists|matrix: DenseMatrix, outcome: Result<Vec<T>, UdfError>|
                {
                    &&& dense_matrix_of(args.deep_view(), matrix)
                    &&& call_ensures(score, (matrix,), outcome)
                    &&& r == settled(matrix.num_rows, outcome)
                },
        },
        r matches Ok(scores) ==> scores.len() == batch_rows(batch_model(args.deep_view())),
        batch_ok(args.deep_view()) && answers_each_row(score) && (model_width matches Some(width)
            ==> width == batch_width(batch_model(args.deep_view()))) ==> r is Ok,
{
    let matrix = match dense_matrix(args) {
        Ok(matrix) => matrix,
        Err(e) => {
            return Err(e);
        },
    };
    if matrix.num_rows == 0 {
        return Ok(Vec::new());
    }
    match model_width {
        Some(width) => {
            if width != matrix.num_cols {
                return Err(
                    UdfError::WidthMismatch { expected_width: width, actual_width: matrix.num_cols },
                );
            }
        },
        None => {},
    }
    let num_rows = matrix.num_rows;
    let ghost handed = matrix;
    let outcome = score(matrix);
    let r = finish_prediction(num_rows, outcome);
    assert(dense_matrix_of(args.deep_view(), handed) && call_ensures(score, (handed,), outcome)
        && r == settled(handed.num_rows, outcome));
    r
}

} // verus!
