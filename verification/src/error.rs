//! The failures that the library reports.

use vstd::prelude::*;
use vstd::string::StringExecFns;
use crate::column::Shape;

verus! {

/// Why a column, a batch of columns, or a prediction was rejected.
#[derive(Debug, Clone, PartialEq, Eq)]
pub enum UdfError {
    /// The argument at `position` has the shape `actual` where `expected` is
    /// called for.
    TypeMismatch { position: usize, expected: Shape, actual: Shape },
    /// The dictionary of the argument at `position` has no usable label at
    /// `index`: the label is null, or an earlier label is equal to it.
    InvalidLabel { position: usize, index: usize },
    /// The key of row `row` of the argument at `position` is null or is not a
    /// position in its dictionary, and the dictionary is not empty.
    InvalidKey { position: usize, row: usize },
    /// Row `row` of the argument at `position` is null.
    NullRow { position: usize, row: usize },
    /// Row `row` of the argument at `position` does not list the labels that
    /// the first row of that argument lists.
    LayoutMismatch { position: usize, row: usize },
    /// Row `row` of the argument at `position` has no indicator at `index`.
    MissingIndicator { position: usize, row: usize, index: usize },
    /// The argument at `position` has `actual_rows` rows where the first
    /// argument has `expected_rows`.
    RowCountMismatch { position: usize, expected_rows: usize, actual_rows: usize },
    /// The matrix is `actual_width` cells wide where the model takes rows of
    /// `expected_width` cells.
    WidthMismatch { expected_width: usize, actual_width: usize },
    /// The model gave `actual_scores` scores for `expected_scores` rows.
    ScoreCountMismatch { expected_scores: usize, actual_scores: usize },
    /// The encoded column holds more entries, or more bytes of labels, than a
    /// list array can.
    TooLarge,
    /// The matrix has no rows: the inference library takes no such matrix.
    NoRows,
    /// The matrix could not be handed to the inference library.
    MatrixConstruction { cause: String },
    /// The model at `path` could not be loaded.
    ModelLoad { path: String, cause: String },
    /// The inference library failed while it scored the matrix.
    Inference { cause: String },
}

/// What is said of a column of the shape `actual` where `expected` is called
/// for: the first thing that the column lacks, a list before structs, and
/// of the two columns of the structs the one that is looked at first.
pub open spec fn mismatch_message(expected: Shape, actual: Shape) -> Seq<char> {
    match expected {
        Shape::Utf8 => "Expected StringArray"@,
        Shape::Dictionary => "Expected DictionaryArray"@,
        Shape::Encoded => match actual {
            Shape::List => "Expected StructArray"@,
            Shape::Structs => "Expected StringArray"@,
            Shape::Flags => "Expected StringArray"@,
            Shape::Labels => "Expected BooleanArray"@,
            _ => "Expected ListArray"@,
        },
        Shape::Flags => match actual {
            Shape::List => "Expected StructArray"@,
            Shape::Structs => "Expected BooleanArray"@,
            Shape::Labels => "Expected BooleanArray"@,
            _ => "Expected ListArray"@,
        },
        _ => "Unexpected array"@,
    }
}

/// The text of `mismatch_message`.
fn mismatch_text(expected: Shape, actual: Shape) -> (text: &'static str)
    ensures
        text@ == mismatch_message(expected, actual),
{
    match expected {
        Shape::Utf8 => "Expected StringArray",
        Shape::Dictionary => "Expected DictionaryArray",
        Shape::Encoded => match actual {
            Shape::List => "Expected StructArray",
            Shape::Structs => "Expected StringArray",
            Shape::Flags => "Expected StringArray",
            Shape::Labels => "Expected BooleanArray",
            _ => "Expected ListArray",
        },
        Shape::Flags => match actual {
            Shape::List => "Expected StructArray",
            Shape::Structs => "Expected BooleanArray",
            Shape::Labels => "Expected BooleanArray",
            _ => "Expected ListArray",
        },
        _ => "Unexpected array",
    }
}

impl UdfError {
    /// The position of the argument that the error is about, where it is
    /// about one.
    pub open spec fn position_spec(&self) -> Option<usize> {
        match self {
            UdfError::TypeMismatch { position, .. } => Some(*position),
            UdfError::InvalidLabel { position, .. } => Some(*position),
            UdfError::InvalidKey { position, .. } => Some(*position),
            UdfError::NullRow { position, .. } => Some(*position),
            UdfError::LayoutMismatch { position, .. } => Some(*position),
            UdfError::MissingIndicator { position, .. } => Some(*position),
            UdfError::RowCountMismatch { position, .. } => Some(*position),
            _ => None,
        }
    }

    /// The position of the argument that the error is about, where it is
    /// about one.
    #[verifier::when_used_as_spec(position_spec)]
    pub fn position(&self) -> (p: Option<usize>)
        ensures
            p == self.position_spec(),
    {
        match self {
            UdfError::TypeMismatch { position, .. } => Some(*position),
            UdfError::InvalidLabel { position, .. } => Some(*position),
            UdfError::InvalidKey { position, .. } => Some(*position),
            UdfError::NullRow { position, .. } => Some(*position),
            UdfError::LayoutMismatch { position, .. } => Some(*position),
            UdfError::MissingIndicator { position, .. } => Some(*position),
            UdfError::RowCountMismatch { position, .. } => Some(*position),
            _ => None,
        }
    }

    /// The text that describes the kind of the error.
    pub open spec fn message_spec(&self) -> Seq<char> {
        match self {
            UdfError::TypeMismatch { expected, actual, .. } => mismatch_message(
                *expected,
                *actual,
            ),
            UdfError::InvalidLabel { .. } => "Null or repeated label in dictionary"@,
            UdfError::InvalidKey { .. } => "Key outside of dictionary"@,
            UdfError::NullRow { .. } => "Null struct in ListArray"@,
            UdfError::LayoutMismatch { .. } => "Rows of one column differ in their labels"@,
            UdfError::MissingIndicator { .. } => "Row is too short"@,
            UdfError::RowCountMismatch { .. } => "Columns differ in their number of rows"@,
            UdfError::WidthMismatch { .. } => "Matrix width differs from that of the model"@,
            UdfError::ScoreCountMismatch { .. } => "Number of scores differs from that of rows"@,
            UdfError::TooLarge => "Encoded column is too large for a list array"@,
            UdfError::NoRows => "Failed to create dmatrix"@,
            UdfError::MatrixConstruction { .. } => "Failed to create dmatrix"@,
            UdfError::ModelLoad { .. } => "Failed to load model"@,
            UdfError::Inference { .. } => "Failed to predict"@,
        }
    }

    /// The text that describes the kind of the error.
    pub fn message(&self) -> (text: String)
        ensures
            text@ == self.message_spec(),
    {
        match self {
            UdfError::TypeMismatch { expected, actual, .. } => String::from_str(
                mismatch_text(*expected, *actual),
            ),
            UdfError::InvalidLabel { .. } => String::from_str("Null or repeated label in dictionary"),
            UdfError::InvalidKey { .. } => String::from_str("Key outside of dictionary"),
            UdfError::NullRow { .. } => String::from_str("Null struct in ListArray"),
            UdfError::LayoutMismatch { .. } => String::from_str(
                "Rows of one column differ in their labels",
            ),
            UdfError::MissingIndicator { .. } => String::from_str("Row is too short"),
            UdfError::RowCountMismatch { .. } => String::from_str(
                "Columns differ in their number of rows",
            ),
            UdfError::WidthMismatch { .. } => String::from_str(
                "Matrix width differs from that of the model",
            ),
            UdfError::ScoreCountMismatch { .. } => String::from_str(
                "Number of scores differs from that of rows",
            ),
            UdfError::TooLarge => String::from_str("Encoded column is too large for a list array"),
            UdfError::NoRows => String::from_str("Failed to create dmatrix"),
            UdfError::MatrixConstruction { .. } => String::from_str("Failed to create dmatrix"),
            UdfError::ModelLoad { .. } => String::from_str("Failed to load model"),
            UdfError::Inference { .. } => String::from_str("Failed to predict"),
        }
    }
}

} // verus!
