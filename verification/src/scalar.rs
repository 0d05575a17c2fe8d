//! Single cells of a column.

use vstd::prelude::*;
use vstd::string::StringExecFns;
use crate::arrow::{arrow_data_type, read_column, read_data_type, ArrowColumn};
use crate::column::{Column, ColumnModel};

verus! {

/// A single cell read out of a column.
#[derive(Debug, Clone, PartialEq)]
pub enum ScalarValue {
    /// A text cell; `None` where the cell is null.
    Utf8(Option<String>),
}

/// What is said of a column whose data type, of the given name, has no
/// scalar value.
pub open spec fn unsupported_message(data_type: Seq<char>) -> Seq<char> {
    "Unsupported data type "@ + data_type + " for ScalarValue"@
}

impl View for ScalarValue {
    type V = Option<Seq<char>>;

    open spec fn view(&self) -> Option<Seq<char>> {
        match self {
            ScalarValue::Utf8(cell) => cell.deep_view(),
        }
    }
}

/// Whether `r` is what reading the cell at `index` of `column` gives: the
/// cell of a column of strings, and for any other column the text that
/// names its shape.
pub open spec fn scalar_read(column: ColumnModel, index: int, r: Result<ScalarValue, String>) -> bool {
    match r {
        Ok(value) => column matches ColumnModel::Utf8(cells) && value@ == cells[index],
        Err(text) => !(column is Utf8) && text@ == unsupported_message(column.shape_name()),
    }
}

/// Whether `column` has a cell at `index` to read, or is no column of strings.
pub open spec fn cell_in_reach(column: ColumnModel, index: int) -> bool {
    column matches ColumnModel::Utf8(cells) ==> index < cells.len()
}

/// Whether `r` is what reading the cell at `index` of `array` gives: the
/// cell of an array of strings, and for any other array the text that names
/// its data type as the array's own data type prints.
pub open spec fn array_read(array: ArrowColumn, index: int, r: Result<ScalarValue, String>) -> bool {
    match r {
        Ok(value) => array@ matches ColumnModel::Utf8(cells) && value@ == cells[index],
        Err(text) => !(array@ is Utf8) && text@ == unsupported_message(arrow_data_type(array)),
    }
}

impl ScalarValue {
    /// Reads the cell at `index` of an array of strings. An array of any
    /// other data type has no scalar value, and the error names that type.
    pub fn try_from_array(array: &ArrowColumn, index: usize) -> (r: Result<ScalarValue, String>)
        requires
            cell_in_reach(array@, index as int),
        ensures
            array_read(*array, index as int, r),
    {
        let plain = read_column(array);
        match &plain {
            Column::Utf8(_) => ScalarValue::from_column(&plain, index),
            _ => {
                let name = read_data_type(array);
                Err(
                    String::from_str("Unsupported data type ").concat(name.as_str()).concat(
                        " for ScalarValue",
                    ),
                )
            },
        }
    }

    /// Reads the cell at `index` of an array as `try_from_array` does, and
    /// gives `None` where an array of strings has no cell at `index`.
    pub fn checked_from_array(array: &ArrowColumn, index: usize) -> (r: Option<
        Result<ScalarValue, String>,
    >)
        ensures
            match r {
                Some(read) => cell_in_reach(array@, index as int) && array_read(
                    *array,
                    index as int,
                    read,
                ),
                None => !cell_in_reach(array@, index as int),
            },
    {
        let plain = read_column(array);
        let in_reach = match &plain {
            Column::Utf8(cells) => index < cells.len(),
            _ => true,
        };
        if in_reach {
            Some(ScalarValue::try_from_array(array, index))
        } else {
            None
        }
    }

    /// Reads the cell at `index` of a column of strings. A column of any
    /// other shape has no scalar value, and the error names that shape.
    pub fn from_column(array: &Column, index: usize) -> (r: Result<ScalarValue, String>)
        requires
            cell_in_reach(array@, index as int),
        ensures
            scalar_read(array@, index as int, r),
    {
        match array {
            Column::Utf8(cells) => {
                let cell = match &cells[index] {
                    Some(text) => Some(text.clone()),
                    None => None,
                };
                Ok(ScalarValue::Utf8(cell))
            },
            other => {
                let name = other.shape_name();
                let text = String::from_str("Unsupported data type ").concat(name.as_str()).concat(
                    " for ScalarValue",
                );
                Err(text)
            },
        }
    }
}

} // verus!
