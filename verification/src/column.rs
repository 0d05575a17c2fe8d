//! Plain-data columns: what the encoder and the matrix adapter read and write.

use vstd::prelude::*;
use vstd::string::StringExecFns;

verus! {

/// A row of an encoded column as a mathematical value: the labels of the
/// dictionary, in dictionary order, each with the row's indicator.
pub type RowModel = Seq<(Seq<char>, bool)>;

/// An encoded column as a mathematical value; `None` stands for a null row.
pub type EncodedModel = Seq<Option<RowModel>>;

/// The representation of a column, as far as this library tells columns apart.
#[derive(Debug, Clone, Copy, PartialEq, Eq, Structural)]
pub enum Shape {
    /// Plain strings.
    Utf8,
    /// A string dictionary with 32-bit keys.
    Dictionary,
    /// A list of structs per row whose first column holds strings, the
    /// labels, and whose second column holds booleans, the indicators.
    Encoded,
    /// A list of structs per row whose second column holds booleans and whose
    /// first column holds no strings.
    Flags,
    /// A list of structs per row whose first column holds strings and whose
    /// second column holds no booleans.
    Labels,
    /// A list of structs per row with neither.
    Structs,
    /// A list of anything but structs per row.
    List,
    /// Anything else.
    Other,
}

/// The shape of a list whose rows hold structs or not, whose structs hold
/// strings in their first column or not, and booleans in their second column
/// or not.
pub open spec fn list_shape(structs: bool, strings: bool, booleans: bool) -> Shape {
    if !structs {
        Shape::List
    } else if strings && booleans {
        Shape::Encoded
    } else if booleans {
        Shape::Flags
    } else if strings {
        Shape::Labels
    } else {
        Shape::Structs
    }
}

/// The indicators of the rows of a column, without their labels; `None`
/// stands for a null row.
pub type FlagsModel = Seq<Option<Seq<bool>>>;

/// The name of the field that holds the label in an entry of an encoded row.
pub const KEY_FIELD: &'static str = "key";

/// The name of the field that holds the indicator in an entry of an encoded
/// row.
pub const VALUE_FIELD: &'static str = "value";

/// One entry of an encoded row: a category label and whether the row belongs
/// to that category.
#[derive(Debug, Clone, PartialEq, Eq)]
pub struct Indicator {
    pub key: String,
    pub value: bool,
}

impl View for Indicator {
    type V = (Seq<char>, bool);

    open spec fn view(&self) -> (Seq<char>, bool) {
        (self.key@, self.value)
    }
}

impl DeepView for Indicator {
    type V = (Seq<char>, bool);

    open spec fn deep_view(&self) -> (Seq<char>, bool) {
        self@
    }
}

/// One category of a column: its label and, for each row, whether the row
/// belongs to the category.
#[derive(Debug, Clone, PartialEq, Eq)]
pub struct LabelColumn {
    pub label: String,
    pub values: Vec<bool>,
}

impl View for LabelColumn {
    type V = (Seq<char>, Seq<bool>);

    open spec fn view(&self) -> (Seq<char>, Seq<bool>) {
        (self.label@, self.values@)
    }
}

impl DeepView for LabelColumn {
    type V = (Seq<char>, Seq<bool>);

    open spec fn deep_view(&self) -> (Seq<char>, Seq<bool>) {
        self@
    }
}

/// A categorical column in dictionary encoding: the category labels, and for
/// each row the position of its label among them. Either may hold nulls.
#[derive(Debug, Clone, PartialEq, Eq)]
pub struct DictionaryColumn {
    pub labels: Vec<Option<String>>,
    pub keys: Vec<Option<i32>>,
}

/// A one-hot encoded column: for each row one `Indicator` per category, or
/// `None` where the row is null.
#[derive(Debug, Clone, PartialEq, Eq)]
pub struct EncodedColumn {
    pub rows: Vec<Option<Vec<Indicator>>>,
}

impl View for EncodedColumn {
    type V = EncodedModel;

    open spec fn view(&self) -> EncodedModel {
        self.rows.deep_view()
    }
}

/// Whether labels and keys make a well-formed dictionary-encoded column: the
/// labels are a dictionary, and every key selects one of them.
pub open spec fn valid_dictionary(labels: Seq<Option<Seq<char>>>, keys: Seq<Option<i32>>) -> bool {
    valid_labels(labels) && valid_keys(labels.len(), keys)
}

impl DictionaryColumn {
    /// Whether the column is well formed.
    pub open spec fn wf(&self) -> bool {
        valid_dictionary(self.labels.deep_view(), self.keys.deep_view())
    }
}

impl EncodedColumn {
    /// Whether the column is well formed: every row is present, and all rows
    /// list the same labels in the same order.
    pub open spec fn wf(&self) -> bool {
        uniform(self@)
    }
}

/// A column as a mathematical value: what a column holds, whatever holds it.
pub enum ColumnModel {
    /// The cells of a column of strings; `None` is a null cell.
    Utf8(Seq<Option<Seq<char>>>),
    /// The labels and the keys of a dictionary-encoded string column.
    Dictionary(Seq<Option<Seq<char>>>, Seq<Option<i32>>),
    /// The rows of a one-hot encoded column.
    Encoded(EncodedModel),
    /// The rows of a column of indicators without labels.
    Flags(FlagsModel),
    /// A list of structs with labels and without indicators.
    Labels,
    /// A list of structs without labels and without indicators.
    Structs,
    /// A list of anything but structs.
    List,
    /// The name of the data type of a column of any other representation.
    Other(Seq<char>),
}

impl ColumnModel {
    /// The shape of the column.
    pub open spec fn shape(self) -> Shape {
        match self {
            ColumnModel::Utf8(_) => Shape::Utf8,
            ColumnModel::Dictionary(_, _) => Shape::Dictionary,
            ColumnModel::Encoded(_) => Shape::Encoded,
            ColumnModel::Flags(_) => Shape::Flags,
            ColumnModel::Labels => Shape::Labels,
            ColumnModel::Structs => Shape::Structs,
            ColumnModel::List => Shape::List,
            ColumnModel::Other(_) => Shape::Other,
        }
    }

    /// The name by which this library calls the shape of the column; for a
    /// column of another representation, the name of its data type. The
    /// name of a shape is the library's own and not the text that an array
    /// of that shape prints for its data type.
    pub open spec fn shape_name(self) -> Seq<char> {
        match self {
            ColumnModel::Utf8(_) => "Utf8"@,
            ColumnModel::Dictionary(_, _) => "Dictionary(Int32, Utf8)"@,
            ColumnModel::Encoded(_) => "List(Struct(key: Utf8, value: Boolean))"@,
            ColumnModel::Flags(_) => "List(Struct(value: Boolean))"@,
            ColumnModel::Labels => "List(Struct(key: Utf8))"@,
            ColumnModel::Structs => "List(Struct)"@,
            ColumnModel::List => "List"@,
            ColumnModel::Other(name) => name,
        }
    }
}

/// A column handed to one of the library's functions.
#[derive(Debug, Clone, PartialEq, Eq)]
pub enum Column {
    /// A column of strings; `None` is a null cell.
    Utf8(Vec<Option<String>>),
    /// A dictionary-encoded string column.
    Dictionary(DictionaryColumn),
    /// A one-hot encoded column.
    Encoded(EncodedColumn),
    /// A column of indicators without labels: for each row its indicators,
    /// or `None` where the row is null.
    Flags(Vec<Option<Vec<bool>>>),
    /// A list of structs with labels and without indicators.
    Labels,
    /// A list of structs without labels and without indicators.
    Structs,
    /// A list of anything but structs.
    List,
    /// A column of any other representation, with the name of its data type.
    Other(String),
}

impl View for Column {
    type V = ColumnModel;

    open spec fn view(&self) -> ColumnModel {
        match self {
            Column::Utf8(cells) => ColumnModel::Utf8(cells.deep_view()),
            Column::Dictionary(d) => ColumnModel::Dictionary(
                d.labels.deep_view(),
                d.keys.deep_view(),
            ),
            Column::Encoded(e) => ColumnModel::Encoded(e@),
            Column::Flags(rows) => ColumnModel::Flags(rows.deep_view()),
            Column::Labels => ColumnModel::Labels,
            Column::Structs => ColumnModel::Structs,
            Column::List => ColumnModel::List,
            Column::Other(name) => ColumnModel::Other(name@),
        }
    }
}

impl DeepView for Column {
    type V = ColumnModel;

    open spec fn deep_view(&self) -> ColumnModel {
        self@
    }
}

impl Column {
    /// The shape of this column.
    pub fn shape(&self) -> (s: Shape)
        ensures
            s == self@.shape(),
    {
        match self {
            Column::Utf8(_) => Shape::Utf8,
            Column::Dictionary(_) => Shape::Dictionary,
            Column::Encoded(_) => Shape::Encoded,
            Column::Flags(_) => Shape::Flags,
            Column::Labels => Shape::Labels,
            Column::Structs => Shape::Structs,
            Column::List => Shape::List,
            Column::Other(_) => Shape::Other,
        }
    }

    /// The name by which this library calls the shape of this column; for a
    /// column of another representation, the name of its data type.
    pub fn shape_name(&self) -> (name: String)
        ensures
            name@ == self@.shape_name(),
    {
        match self {
            Column::Utf8(_) => String::from_str("Utf8"),
            Column::Dictionary(_) => String::from_str("Dictionary(Int32, Utf8)"),
            Column::Encoded(_) => String::from_str("List(Struct(key: Utf8, value: Boolean))"),
            Column::Flags(_) => String::from_str("List(Struct(value: Boolean))"),
            Column::Labels => String::from_str("List(Struct(key: Utf8))"),
            Column::Structs => String::from_str("List(Struct)"),
            Column::List => String::from_str("List"),
            Column::Other(name) => name.clone(),
        }
    }
}

/// The labels of a row, in order.
pub open spec fn row_labels(row: RowModel) -> Seq<Seq<char>> {
    Seq::new(row.len(), |j: int| row[j].0)
}

/// The indicators of a row, in order.
pub open spec fn row_flags(row: RowModel) -> Seq<bool> {
    Seq::new(row.len(), |j: int| row[j].1)
}

/// Whether `labels[i]` cannot serve as a category label: it is null, or an
/// earlier label is equal to it.
pub open spec fn label_fault(labels: Seq<Option<Seq<char>>>, i: int) -> bool {
    labels[i] is None || exists|k: int| 0 <= k < i && labels[k] == labels[i]
}

/// Whether `i` is the first position of `labels` with a fault.
pub open spec fn first_label_fault(labels: Seq<Option<Seq<char>>>, i: int) -> bool {
    &&& 0 <= i < labels.len()
    &&& label_fault(labels, i)
    &&& forall|k: int| 0 <= k < i ==> !label_fault(labels, k)
}

/// Whether `labels` is a dictionary: no label is null and no two are equal.
pub open spec fn valid_labels(labels: Seq<Option<Seq<char>>>) -> bool {
    forall|i: int| 0 <= i < labels.len() ==> !label_fault(labels, i)
}

/// Whether `key` selects the label at position `j`.
pub open spec fn key_selects(key: Option<i32>, j: int) -> bool {
    key matches Some(k) && k == j
}

/// Whether `key` fails to select a label of a dictionary of `n` labels: the
/// key is null or is not a position in the dictionary. An empty dictionary
/// has no label to select, and no key is at fault for that.
pub open spec fn key_fault(n: nat, key: Option<i32>) -> bool {
    n > 0 && match key {
        Some(k) => k < 0 || k >= n,
        None => true,
    }
}

/// Whether `r` is the first row of `keys` whose key is at fault.
pub open spec fn first_key_fault(n: nat, keys: Seq<Option<i32>>, r: int) -> bool {
    &&& 0 <= r < keys.len()
    &&& key_fault(n, keys[r])
    &&& forall|q: int| 0 <= q < r ==> !key_fault(n, keys[q])
}

/// Whether every key selects a label of a dictionary of `n` labels.
pub open spec fn valid_keys(n: nat, keys: Seq<Option<i32>>) -> bool {
    forall|r: int| 0 <= r < keys.len() ==> !key_fault(n, keys[r])
}

/// Whether row `r` of an encoded column is at fault: it is null, or it does
/// not list the labels that the first row lists.
pub open spec fn row_fault(rows: EncodedModel, r: int) -> bool {
    rows[r] is None || row_labels(rows[r].unwrap()) != row_labels(rows[0].unwrap())
}

/// Whether `r` is the first null row of `rows`.
pub open spec fn first_null_row(rows: EncodedModel, r: int) -> bool {
    &&& 0 <= r < rows.len()
    &&& rows[r] is None
    &&& forall|q: int| 0 <= q < r ==> rows[q] is Some
}

/// Whether no row of `rows` is null.
pub open spec fn no_null_row(rows: EncodedModel) -> bool {
    forall|r: int| 0 <= r < rows.len() ==> rows[r] is Some
}

/// Whether `r` is the first row of `rows` that does not list the labels that
/// the first row lists, in a column without null rows.
pub open spec fn first_layout_fault(rows: EncodedModel, r: int) -> bool {
    &&& no_null_row(rows)
    &&& 0 <= r < rows.len()
    &&& row_fault(rows, r)
    &&& forall|q: int| 0 <= q < r ==> !row_fault(rows, q)
}

/// Whether every row of an encoded column is present and lists the same
/// labels in the same order.
pub open spec fn uniform(rows: EncodedModel) -> bool {
    forall|r: int| 0 <= r < rows.len() ==> !row_fault(rows, r)
}

} // verus!
