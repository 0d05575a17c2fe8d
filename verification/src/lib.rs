//! One-hot encoding of dictionary-encoded categorical columns, and the dense
//! row-major matrices that a gradient-boosted-tree model is fed with.
//!
//! The functions of `udf` work on the arrays of a query engine. They read
//! their arrays into plain columns, on which `encoder`, `dense` and
//! `predict` do the work, and `arrow` holds what the library takes on trust
//! of the arrays.

pub mod arrow;
pub mod column;
pub mod dense;
pub mod encoder;
pub mod error;
pub mod predict;
pub mod scalar;
pub mod udf;

pub use arrow::{read_batch, read_column, write_encoded, ArrowColumn};
pub use column::{
    Column, ColumnModel, DictionaryColumn, EncodedColumn, Indicator, LabelColumn, Shape,
    KEY_FIELD, VALUE_FIELD,
};
pub use dense::{category_flags, dense_matrix, flatten, flatten_column, DenseMatrix};
pub use encoder::{encode, encode_by_label, ONEHOT_NAME};
pub use error::UdfError;
pub use predict::{finish_prediction, score_batch, MODEL_FILE, PREDICT_NAME};
pub use scalar::ScalarValue;
pub use udf::{convert_to_native, create_dmatrix, onehot, predict, records_to_dense, to_dense};
