//! The matrix adapter: from encoded columns to a dense row-major buffer.

use vstd::prelude::*;
use crate::column::{
    first_layout_fault, first_null_row, key_selects, no_null_row, row_fault, row_flags,
    row_labels, uniform, Column, ColumnModel, EncodedModel, FlagsModel, Indicator, Shape,
};
use crate::encoder::{encoding, encoding_by_label};
use crate::error::UdfError;

verus! {

/// The rows of `column` where it is an encoded column; no rows otherwise.
pub open spec fn rows_of(column: ColumnModel) -> EncodedModel {
    match column {
        ColumnModel::Encoded(rows) => rows,
        _ => Seq::empty(),
    }
}

/// The rows of each column of a batch.
pub open spec fn batch_model(batch: Seq<ColumnModel>) -> Seq<EncodedModel> {
    Seq::new(batch.len(), |c: int| rows_of(batch[c]))
}

/// Whether `r` is what inspecting the column at `position` by itself gives:
/// `Ok` for a uniform encoded column, and else its fault: another shape,
/// else the first null row, else the first row that does not list the
/// labels of the first row.
pub open spec fn column_inspected(
    column: ColumnModel,
    position: usize,
    r: Result<(), UdfError>,
) -> bool {
    match r {
        Ok(_) => column is Encoded && uniform(rows_of(column)),
        Err(UdfError::TypeMismatch { position: p, expected, actual }) => {
            &&& !(column is Encoded)
            &&& p == position
            &&& expected == Shape::Encoded
            &&& actual == column.shape()
        },
        Err(UdfError::NullRow { position: p, row }) => {
            &&& column is Encoded
            &&& p == position
            &&& first_null_row(rows_of(column), row as int)
        },
        Err(UdfError::LayoutMismatch { position: p, row }) => {
            &&& column is Encoded
            &&& p == position
            &&& first_layout_fault(rows_of(column), row as int)
        },
        Err(_) => false,
    }
}

/// The number of indicators that each row of a uniform column holds; zero
/// for a column without rows.
pub open spec fn column_width(rows: EncodedModel) -> nat {
    if rows.len() == 0 {
        0
    } else {
        rows[0].unwrap().len()
    }
}

/// The labels that the rows of a uniform column list; none for a column
/// without rows.
pub open spec fn column_labels(rows: EncodedModel) -> Seq<Seq<char>> {
    if rows.len() == 0 {
        Seq::empty()
    } else {
        row_labels(rows[0].unwrap())
    }
}

/// The number of rows of a batch: that of its first column, and zero for a
/// batch without columns.
pub open spec fn batch_rows(batch: Seq<EncodedModel>) -> nat {
    if batch.len() == 0 {
        0
    } else {
        batch[0].len()
    }
}

/// The width of a batch: the sum of the widths of its columns.
pub open spec fn batch_width(batch: Seq<EncodedModel>) -> nat
    decreases batch.len(),
{
    if batch.len() == 0 {
        0
    } else {
        batch_width(batch.drop_last()) + column_width(batch.last())
    }
}

/// The labels of a batch: those of its columns, one column after the other.
pub open spec fn batch_labels(batch: Seq<EncodedModel>) -> Seq<Seq<char>>
    decreases batch.len(),
{
    if batch.len() == 0 {
        Seq::empty()
    } else {
        batch_labels(batch.drop_last()) + column_labels(batch.last())
    }
}

/// Row `r` of a batch, flattened: the indicators of row `r` of each column,
/// one column after the other, each in its own order.
pub open spec fn flat_row(batch: Seq<EncodedModel>, r: int) -> Seq<bool>
    decreases batch.len(),
{
    if batch.len() == 0 {
        Seq::empty()
    } else {
        flat_row(batch.drop_last(), r) + row_flags(batch.last()[r].unwrap())
    }
}

/// The first `n` rows of a batch, flattened one row after the other.
pub open spec fn flat_rows(batch: Seq<EncodedModel>, n: nat) -> Seq<bool>
    decreases n,
{
    if n == 0 {
        Seq::empty()
    } else {
        flat_rows(batch, (n - 1) as nat) + flat_row(batch, n - 1)
    }
}

/// Whether every column of a batch is uniform and has a row `r`.
pub open spec fn reaches(batch: Seq<EncodedModel>, r: int) -> bool {
    &&& 0 <= r
    &&& forall|c: int| 0 <= c < batch.len() ==> uniform(#[trigger] batch[c]) && r < batch[c].len()
}

/// Whether two rows list the same labels in the same order.
fn same_labels(a: &Vec<Indicator>, b: &Vec<Indicator>) -> (same: bool)
    ensures
        same == (row_labels(a.deep_view()) == row_labels(b.deep_view())),
{
    if a.len() != b.len() {
        assert(row_labels(a.deep_view()).len() != row_labels(b.deep_view()).len());
        return false;
    }
    let mut j: usize = 0;
    while j < a.len()
        invariant
            j <= a.len() == b.len(),
            forall|q: int| 0 <= q < j ==> a[q].key@ == b[q].key@,
        decreases a.len() - j,
    {
        if !(a[j].key == b[j].key) {
            assert(row_labels(a.deep_view())[j as int] != row_labels(b.deep_view())[j as int]);
            return false;
        }
        j += 1;
    }
    assert(row_labels(a.deep_view()) =~= row_labels(b.deep_view()));
    true
}

/// Inspects `column`: whether it is a uniform encoded column, and what its
/// fault is where it is not. Null rows are looked for before rows that
/// differ in their labels.
fn inspect_column(column: &Column, position: usize) -> (r: Result<(), UdfError>)
    ensures
        column_inspected(column@, position, r),
{
    match column {
        Column::Encoded(e) => {
            let ghost model = e@;
            let mut r: usize = 0;
            while r < e.rows.len()
                invariant
                    r <= e.rows.len(),
                    model == e@,
                    *column == Column::Encoded(*e),
                    forall|q: int| 0 <= q < r ==> model[q] is Some,
                decreases e.rows.len() - r,
            {
                if e.rows[r].is_none() {
                    assert(first_null_row(model, r as int));
                    return Err(UdfError::NullRow { position, row: r });
                }
                r += 1;
            }
            assert(no_null_row(model));
            let mut r: usize = 1;
            while r < e.rows.len()
                invariant
                    1 <= r,
                    model == e@,
                    *column == Column::Encoded(*e),
                    no_null_row(model),
                    forall|q: int| 0 <= q < r && q < model.len() ==> !row_fault(model, q),
                decreases e.rows.len() - r,
            {
                match (&e.rows[r], &e.rows[0]) {
                    (Some(row), Some(first)) => {
                        if !same_labels(row, first) {
                            assert(first_layout_fault(model, r as int));
                            return Err(UdfError::LayoutMismatch { position, row: r });
                        }
                    },
                    _ => {},
                }
                r += 1;
            }
            assert(uniform(model));
            Ok(())
        },
        other => Err(
            UdfError::TypeMismatch { position, expected: Shape::Encoded, actual: other.shape() },
        ),
    }
}

/// The indicators of the rows of an encoded column, without their labels.
pub open spec fn encoded_flags(rows: EncodedModel) -> FlagsModel {
    Seq::new(
        rows.len(),
        |r: int|
            match rows[r] {
                Some(row) => Some(row_flags(row)),
                None => None,
            },
    )
}

/// Whether `column` holds indicators: it is an encoded column, or a column
/// of indicators without labels.
pub open spec fn has_flags(column: ColumnModel) -> bool {
    column is Encoded || column is Flags
}

/// The indicators of the rows of `column` where it holds indicators; no rows
/// otherwise.
pub open spec fn flags_of(column: ColumnModel) -> FlagsModel {
    match column {
        ColumnModel::Encoded(rows) => encoded_flags(rows),
        ColumnModel::Flags(rows) => rows,
        _ => Seq::empty(),
    }
}

/// Whether row `r` has no indicator at `index`: the row is null or too short.
pub open spec fn lacks_indicator(rows: FlagsModel, index: int, r: int) -> bool {
    rows[r] is None || rows[r].unwrap().len() <= index
}

/// Whether `r` is the first row of `rows` without an indicator at `index`.
pub open spec fn first_lacking_row(rows: FlagsModel, index: int, r: int) -> bool {
    &&& 0 <= r < rows.len()
    &&& lacks_indicator(rows, index, r)
    &&& forall|q: int| 0 <= q < r ==> !lacks_indicator(rows, index, q)
}

/// Whether `column` holds indicators, and each of its rows has one at
/// `index`.
pub open spec fn has_indicator_column(column: ColumnModel, index: int) -> bool {
    &&& has_flags(column)
    &&& forall|r: int|
        0 <= r < flags_of(column).len() ==> !lacks_indicator(flags_of(column), index, r)
}

/// Whether `e` is the fault for which no indicator at `index` can be read
/// out of every row of `column`: a shape without indicators, else the first
/// row that is null or too short.
pub open spec fn indicator_fault(column: ColumnModel, index: usize, e: UdfError) -> bool {
    match e {
        UdfError::TypeMismatch { position, expected, actual } => {
            &&& !has_flags(column)
            &&& position == 0
            &&& expected == Shape::Flags
            &&& actual == column.shape()
        },
        UdfError::NullRow { position, row } => {
            &&& has_flags(column)
            &&& position == 0
            &&& first_lacking_row(flags_of(column), index as int, row as int)
            &&& flags_of(column)[row as int] is None
        },
        UdfError::MissingIndicator { position, row, index: at } => {
            &&& has_flags(column)
            &&& position == 0
            &&& at == index
            &&& first_lacking_row(flags_of(column), index as int, row as int)
            &&& flags_of(column)[row as int] is Some
        },
        _ => false,
    }
}

/// The indicator at `index` of every row, in row order.
pub open spec fn indicator_column(rows: FlagsModel, index: int) -> Seq<bool> {
    Seq::new(rows.len(), |r: int| rows[r].unwrap()[index])
}

/// Reads one category out of a column that holds indicators: for each row
/// the indicator at position `column`, together with the number of rows.
/// The labels of the column, if it has any, are not looked at.
///
/// A column of a shape without indicators is rejected, and so is the first
/// row that is null or has no indicator at that position.
pub fn category_flags(batch: &Column, column: usize) -> (r: Result<(Vec<bool>, usize), UdfError>)
    ensures
        match r {
            Ok((flags, num_rows)) => {
                &&& num_rows == flags_of(batch@).len()
                &&& flags@ == indicator_column(flags_of(batch@), column as int)
            },
            Err(e) => indicator_fault(batch@, column, e),
        },
        r is Ok <==> has_indicator_column(batch@, column as int),
{
    match batch {
        Column::Encoded(e) => {
            let ghost model = flags_of(batch@);
            let mut flags: Vec<bool> = Vec::new();
            let mut r: usize = 0;
            while r < e.rows.len()
                invariant
                    r <= e.rows.len(),
                    *batch == Column::Encoded(*e),
                    model == flags_of(batch@),
                    model.len() == e.rows.len(),
                    flags.len() == r,
                    forall|q: int| 0 <= q < r ==> !lacks_indicator(model, column as int, q),
                    forall|q: int| 0 <= q < r ==> flags[q] == model[q].unwrap()[column as int],
                decreases e.rows.len() - r,
            {
                assert(model[r as int] == encoded_flags(e@)[r as int]);
                match &e.rows[r] {
                    None => {
                        assert(lacks_indicator(model, column as int, r as int));
                        return Err(UdfError::NullRow { position: 0, row: r });
                    },
                    Some(row) => {
                        assert(model[r as int] == Some(row_flags(row.deep_view())));
                        if column >= row.len() {
                            assert(lacks_indicator(model, column as int, r as int));
                            return Err(
                                UdfError::MissingIndicator { position: 0, row: r, index: column },
                            );
                        }
                        flags.push(row[column].value);
                    },
                }
                r += 1;
            }
            assert(flags@ =~= indicator_column(model, column as int));
            Ok((flags, e.rows.len()))
        },
        Column::Flags(rows) => {
            let ghost model = rows.deep_view();
            let mut flags: Vec<bool> = Vec::new();
            let mut r: usize = 0;
            while r < rows.len()
                invariant
                    r <= rows.len(),
                    *batch == Column::Flags(*rows),
                    model == rows.deep_view(),
                    flags.len() == r,
                    forall|q: int| 0 <= q < r ==> !lacks_indicator(model, column as int, q),
                    forall|q: int| 0 <= q < r ==> flags[q] == model[q].unwrap()[column as int],
                decreases rows.len() - r,
            {
                match &rows[r] {
                    None => {
                        assert(lacks_indicator(model, column as int, r as int));
                        return Err(UdfError::NullRow { position: 0, row: r });
                    },
                    Some(row) => {
                        assert(model[r as int] == Some(row.deep_view()));
                        if column >= row.len() {
                            assert(lacks_indicator(model, column as int, r as int));
                            return Err(
                                UdfError::MissingIndicator { position: 0, row: r, index: column },
                            );
                        }
                        flags.push(row[column]);
                    },
                }
                r += 1;
            }
            assert(flags@ =~= indicator_column(model, column as int));
            Ok((flags, rows.len()))
        },
        other => Err(
            UdfError::TypeMismatch { position: 0, expected: Shape::Flags, actual: other.shape() },
        ),
    }
}

/// Appends the indicators of `row` to `cells`.
fn append_flags(cells: &mut Vec<bool>, row: &Vec<Indicator>)
    ensures
        final(cells)@ == old(cells)@ + row_flags(row.deep_view()),
{
    let mut j: usize = 0;
    while j < row.len()
        invariant
            j <= row.len(),
            cells@ == old(cells)@ + row_flags(row.deep_view()).take(j as int),
        decreases row.len() - j,
    {
        cells.push(row[j].value);
        assert(row_flags(row.deep_view()).take(j + 1) =~= row_flags(row.deep_view()).take(
            j as int,
        ).push(row[j as int].value));
        j += 1;
    }
    assert(row_flags(row.deep_view()).take(j as int) =~= row_flags(row.deep_view()));
}

/// Appends the labels of `row` to `names`.
fn append_labels(names: &mut Vec<String>, row: &Vec<Indicator>)
    ensures
        final(names).deep_view() == old(names).deep_view() + row_labels(row.deep_view()),
{
    let mut j: usize = 0;
    while j < row.len()
        invariant
            j <= row.len(),
            names.deep_view() == old(names).deep_view() + row_labels(row.deep_view()).take(
                j as int,
            ),
        decreases row.len() - j,
    {
        let ghost before = names.deep_view();
        names.push(row[j].key.clone());
        assert(names.deep_view() =~= before.push(row[j as int].key@));
        assert(row_labels(row.deep_view()).take(j + 1) =~= row_labels(row.deep_view()).take(
            j as int,
        ).push(row[j as int].key@));
        j += 1;
    }
    assert(row_labels(row.deep_view()).take(j as int) =~= row_labels(row.deep_view()));
}

/// The one row of a batch of one column is that column's row.
proof fn lemma_flat_row_single(rows: EncodedModel, r: int)
    ensures
        flat_row(seq![rows], r) == row_flags(rows[r].unwrap()),
{
    let batch = seq![rows];
    assert(batch.drop_last() =~= Seq::<EncodedModel>::empty());
    assert(flat_row(batch.drop_last(), r) =~= Seq::<bool>::empty());
    assert(batch.last() == rows);
    assert(flat_row(batch, r) =~= row_flags(rows[r].unwrap()));
}

/// Flattens one encoded column: the indicators of its rows, one row after
/// the other, with the number of rows and the labels that the rows list.
///
/// A column of another shape is rejected. So is a column with a null row,
/// for its first null row, and a column without one for the first row that
/// does not list the labels of the first row.
pub fn flatten_column(batch: &Column) -> (r: Result<(Vec<bool>, usize, Vec<String>), UdfError>)
    ensures
        match r {
            Ok((cells, num_rows, names)) => {
                &&& num_rows == rows_of(batch@).len()
                &&& cells@ == flat_rows(seq![rows_of(batch@)], num_rows as nat)
                &&& names.deep_view() == column_labels(rows_of(batch@))
            },
            Err(e) => column_inspected(batch@, 0, Err(e)),
        },
        r is Ok <==> batch@ is Encoded && uniform(rows_of(batch@)),
{
    match inspect_column(batch, 0) {
        Err(e) => {
            proof {
                lemma_column_fault_excludes_ok(batch@, 0, e);
            }
            return Err(e);
        },
        Ok(_) => {},
    }
    let mut cells: Vec<bool> = Vec::new();
    let mut names: Vec<String> = Vec::new();
    let mut num_rows: usize = 0;
    match batch {
        Column::Encoded(e) => {
            let ghost model = e@;
            num_rows = e.rows.len();
            let mut r: usize = 0;
            while r < e.rows.len()
                invariant
                    r <= e.rows.len(),
                    model == e@,
                    uniform(model),
                    cells@ == flat_rows(seq![model], r as nat),
                    names.deep_view() == if r == 0 {
                        Seq::<Seq<char>>::empty()
                    } else {
                        column_labels(model)
                    },
                decreases e.rows.len() - r,
            {
                assert(!row_fault(model, r as int));
                match &e.rows[r] {
                    Some(row) => {
                        if r == 0 {
                            append_labels(&mut names, row);
                        }
                        append_flags(&mut cells, row);
                        proof {
                            lemma_flat_row_single(model, r as int);
                        }
                    },
                    None => {},
                }
                r += 1;
            }
        },
        _ => {},
    }
    Ok((cells, num_rows, names))
}

/// Whether the column at position `c` of a batch can be flattened: it is a
/// uniform encoded column with as many rows as the first column.
pub open spec fn column_ok(batch: Seq<ColumnModel>, c: int) -> bool {
    &&& batch[c] is Encoded
    &&& uniform(rows_of(batch[c]))
    &&& rows_of(batch[c]).len() == rows_of(batch[0]).len()
}

/// Whether every column of a batch can be flattened.
pub open spec fn batch_ok(batch: Seq<ColumnModel>) -> bool {
    forall|c: int| 0 <= c < batch.len() ==> column_ok(batch, c)
}

/// Whether `e` is the fault of a batch: it names the first column that
/// cannot be flattened, and says of that column what is wrong first: its
/// shape, else its first null row, else its first row of other labels, else
/// the number of its rows.
pub open spec fn batch_fault(batch: Seq<ColumnModel>, e: UdfError) -> bool {
    &&& e.position() matches Some(p)
    &&& p < batch.len()
    &&& forall|c: int| 0 <= c < p ==> column_ok(batch, c)
    &&& match e {
        UdfError::RowCountMismatch { expected_rows, actual_rows, .. } => {
            &&& column_inspected(batch[p as int], p, Ok(()))
            &&& expected_rows == rows_of(batch[0]).len()
            &&& actual_rows == rows_of(batch[p as int]).len()
            &&& expected_rows != actual_rows
        },
        _ => column_inspected(batch[p as int], p, Err(e)),
    }
}

/// Flattens a batch of encoded columns, row by row: row `r` of the result is
/// made of the indicators of row `r` of each column, in the order of the
/// columns, and the rows follow one another. With the cells come the number
/// of rows and the labels of all columns, in the same order.
///
/// The batch is rejected with the fault of its first column that is not a
/// uniform encoded column or has not as many rows as the first.
pub fn flatten(batch: &[Column]) -> (r: Result<(Vec<bool>, usize, Vec<String>), UdfError>)
    ensures
        match r {
            Ok((cells, num_rows, names)) => {
                &&& num_rows == batch_rows(batch_model(batch.deep_view()))
                &&& cells@ == flat_rows(batch_model(batch.deep_view()), num_rows as nat)
                &&& names.deep_view() == batch_labels(batch_model(batch.deep_view()))
            },
            Err(e) => batch_fault(batch.deep_view(), e),
        },
        r is Ok <==> batch_ok(batch.deep_view()),
{
    let ghost model = batch_model(batch.deep_view());
    let mut names: Vec<String> = Vec::new();
    let mut num_rows: usize = 0;
    let mut c: usize = 0;
    while c < batch.len()
        invariant
            c <= batch.len(),
            model == batch_model(batch.deep_view()),
            forall|k: int| 0 <= k < c ==> column_ok(batch.deep_view(), k),
            num_rows == batch_rows(model.take(c as int)),
            names.deep_view() == batch_labels(model.take(c as int)),
        decreases batch.len() - c,
    {
        match inspect_column(&batch[c], c) {
            Err(e) => {
                proof {
                    lemma_batch_fault_excludes_ok(batch.deep_view(), e);
                }
                return Err(e);
            },
            Ok(_) => {},
        }
        assert(model.take(c + 1).drop_last() =~= model.take(c as int));
        assert(model.take(c + 1).last() == model[c as int]);
        match &batch[c] {
            Column::Encoded(e) => {
                let n = e.rows.len();
                if c == 0 {
                    num_rows = n;
                } else if n != num_rows {
                    let e = UdfError::RowCountMismatch {
                        position: c,
                        expected_rows: num_rows,
                        actual_rows: n,
                    };
                    proof {
                        lemma_batch_fault_excludes_ok(batch.deep_view(), e);
                    }
                    return Err(e);
                }
                if n > 0 {
                    assert(!row_fault(e@, 0));
                    match &e.rows[0] {
                        Some(row) => {
                            append_labels(&mut names, row);
                        },
                        None => {},
                    }
                }
            },
            _ => {},
        }
        c += 1;
    }
    assert(model.take(c as int) =~= model);
    let mut cells: Vec<bool> = Vec::new();
    let mut r: usize = 0;
    while r < num_rows
        invariant
            r <= num_rows,
            model == batch_model(batch.deep_view()),
            batch_ok(batch.deep_view()),
            num_rows == batch_rows(model),
            cells@ == flat_rows(model, r as nat),
        decreases num_rows - r,
    {
        let ghost before = cells@;
        let mut c: usize = 0;
        while c < batch.len()
            invariant
                c <= batch.len(),
                r < num_rows,
                model == batch_model(batch.deep_view()),
                batch_ok(batch.deep_view()),
                num_rows == batch_rows(model),
                cells@ == before + flat_row(model.take(c as int), r as int),
            decreases batch.len() - c,
        {
            assert(column_ok(batch.deep_view(), c as int));
            assert(model.take(c + 1).drop_last() =~= model.take(c as int));
            assert(model.take(c + 1).last() == model[c as int]);
            match &batch[c] {
                Column::Encoded(e) => {
                    assert(!row_fault(e@, r as int));
                    match &e.rows[r] {
                        Some(row) => {
                            append_flags(&mut cells, row);
                            assert(cells@ =~= before + flat_row(model.take(c + 1), r as int));
                        },
                        None => {},
                    }
                },
                _ => {},
            }
            c += 1;
        }
        assert(model.take(c as int) =~= model);
        r += 1;
    }
    Ok((cells, num_rows, names))
}

/// The numeric cell that stands for an indicator in a dense matrix: one for
/// true and zero for false.
pub open spec fn indicator_cell(flag: bool) -> u8 {
    if flag {
        1
    } else {
        0
    }
}

/// The numeric cells that stand for a sequence of indicators.
pub open spec fn numeric(flags: Seq<bool>) -> Seq<u8> {
    Seq::new(flags.len(), |i: int| indicator_cell(flags[i]))
}

/// A dense matrix: its cells row by row, with its dimensions.
#[derive(Debug, Clone, PartialEq, Eq)]
pub struct DenseMatrix {
    pub data: Vec<u8>,
    pub num_rows: usize,
    pub num_cols: usize,
}

impl DenseMatrix {
    /// Whether the matrix holds one cell for each row and column.
    pub open spec fn wf(&self) -> bool {
        self.data.len() == self.num_rows * self.num_cols
    }

    /// The number of rows, as the inference library takes it together with
    /// the cells: it takes no matrix without rows.
    pub fn rows_to_hand_over(&self) -> (r: Result<usize, UdfError>)
        ensures
            r == if self.num_rows > 0 {
                Ok::<usize, UdfError>(self.num_rows)
            } else {
                Err::<usize, UdfError>(UdfError::NoRows)
            },
    {
        if self.num_rows > 0 {
            Ok(self.num_rows)
        } else {
            Err(UdfError::NoRows)
        }
    }

    /// The number of rows and the number of columns.
    pub fn shape(&self) -> (dims: (usize, usize))
        ensures
            dims == (self.num_rows, self.num_cols),
    {
        (self.num_rows, self.num_cols)
    }
}

/// Whether `matrix` is the dense matrix of a batch that can be flattened:
/// it has the rows of the batch and the width of the batch, and its cells
/// are the flattened rows, one for true and zero for false.
pub open spec fn dense_matrix_of(batch: Seq<ColumnModel>, matrix: DenseMatrix) -> bool {
    &&& matrix.num_rows == batch_rows(batch_model(batch))
    &&& matrix.num_cols == batch_width(batch_model(batch))
    &&& matrix.data@ == numeric(flat_rows(batch_model(batch), matrix.num_rows as nat))
    &&& matrix.wf()
}

/// Builds the dense matrix of a batch of encoded columns.
///
/// The batch is rejected with the fault of its first column that is not a
/// uniform encoded column or has not as many rows as the first.
pub fn dense_matrix(data: &[Column]) -> (r: Result<DenseMatrix, UdfError>)
    ensures
        match r {
            Ok(matrix) => dense_matrix_of(data.deep_view(), matrix),
            Err(e) => batch_fault(data.deep_view(), e),
        },
        r is Ok <==> batch_ok(data.deep_view()),
{
    let (cells, num_rows, names) = match flatten(data) {
        Ok(flat) => flat,
        Err(e) => {
            return Err(e);
        },
    };
    let mut numbers: Vec<u8> = Vec::new();
    let mut i: usize = 0;
    while i < cells.len()
        invariant
            i <= cells.len(),
            numbers.len() == i,
            forall|k: int| 0 <= k < i ==> numbers[k] == indicator_cell(cells[k]),
        decreases cells.len() - i,
    {
        numbers.push(if cells[i] { 1u8 } else { 0u8 });
        i += 1;
    }
    assert(numbers@ =~= numeric(cells@));
    proof {
        let model = batch_model(data.deep_view());
        lemma_batch_labels_len(model);
        assert forall|c: int| 0 <= c < model.len() implies uniform(#[trigger] model[c])
            && num_rows <= model[c].len() by {
            assert(column_ok(data.deep_view(), c));
        }
        lemma_flat_rows_len(model, num_rows as nat);
    }
    Ok(DenseMatrix { data: numbers, num_rows, num_cols: names.len() })
}

/// A column that has a fault is no uniform encoded column.
pub proof fn lemma_column_fault_excludes_ok(column: ColumnModel, position: usize, e: UdfError)
    requires
        column_inspected(column, position, Err(e)),
    ensures
        !(column is Encoded && uniform(rows_of(column))),
{
    match e {
        UdfError::NullRow { row, .. } => {
            assert(row_fault(rows_of(column), row as int));
        },
        UdfError::LayoutMismatch { row, .. } => {
            assert(row_fault(rows_of(column), row as int));
        },
        _ => {},
    }
}

/// A column has at most one fault: the error that rejects it is determined.
pub proof fn lemma_column_fault_unique(
    column: ColumnModel,
    position: usize,
    first: UdfError,
    second: UdfError,
)
    requires
        column_inspected(column, position, Err(first)),
        column_inspected(column, position, Err(second)),
    ensures
        first == second,
{
    let rows = rows_of(column);
    match (first, second) {
        (UdfError::NullRow { row: a, .. }, UdfError::NullRow { row: b, .. }) => {
            assert(a == b);
        },
        (UdfError::LayoutMismatch { row: a, .. }, UdfError::LayoutMismatch { row: b, .. }) => {
            assert(a == b);
        },
        (UdfError::NullRow { row: a, .. }, UdfError::LayoutMismatch { .. }) => {
            assert(rows[a as int] is None);
        },
        (UdfError::LayoutMismatch { .. }, UdfError::NullRow { row: b, .. }) => {
            assert(rows[b as int] is None);
        },
        _ => {},
    }
}

/// The column that a fault of a batch names cannot be flattened.
pub proof fn lemma_fault_names_faulty_column(batch: Seq<ColumnModel>, e: UdfError)
    requires
        batch_fault(batch, e),
    ensures
        e.position() matches Some(p) && p < batch.len() && !column_ok(batch, p as int),
{
    let p = e.position().unwrap();
    if !(e is RowCountMismatch) {
        lemma_column_fault_excludes_ok(batch[p as int], p, e);
    }
}

/// A batch that has a fault cannot be flattened.
pub proof fn lemma_batch_fault_excludes_ok(batch: Seq<ColumnModel>, e: UdfError)
    requires
        batch_fault(batch, e),
    ensures
        !batch_ok(batch),
{
    lemma_fault_names_faulty_column(batch, e);
}

/// A batch has at most one fault: the error that rejects it is determined.
pub proof fn lemma_batch_fault_unique(
    batch: Seq<ColumnModel>,
    first: UdfError,
    second: UdfError,
)
    requires
        batch_fault(batch, first),
        batch_fault(batch, second),
    ensures
        first == second,
{
    let p = first.position().unwrap();
    let q = second.position().unwrap();
    lemma_fault_names_faulty_column(batch, first);
    lemma_fault_names_faulty_column(batch, second);
    assert(p == q);
    if first is RowCountMismatch {
        if !(second is RowCountMismatch) {
            lemma_column_fault_excludes_ok(batch[p as int], p, second);
        }
    } else if second is RowCountMismatch {
        lemma_column_fault_excludes_ok(batch[p as int], p, first);
    } else {
        lemma_column_fault_unique(batch[p as int], p, first, second);
    }
}

/// The dense matrix of a batch is determined by what the columns of the
/// batch hold: two matrices of batches that hold the same rows have the same
/// dimensions and the same cells.
pub proof fn lemma_dense_matrix_determined(
    first_batch: Seq<ColumnModel>,
    second_batch: Seq<ColumnModel>,
    first: DenseMatrix,
    second: DenseMatrix,
)
    requires
        batch_model(first_batch) == batch_model(second_batch),
        dense_matrix_of(first_batch, first),
        dense_matrix_of(second_batch, second),
    ensures
        first.num_rows == second.num_rows,
        first.num_cols == second.num_cols,
        first.data@ == second.data@,
{
}

/// A column whose rows are empty adds nothing to a flattened row, and
/// nothing to the width of a batch.
pub proof fn lemma_empty_column_adds_nothing(batch: Seq<EncodedModel>, column: EncodedModel, r: int)
    requires
        0 <= r < column.len(),
        column[r] == Some(Seq::<(Seq<char>, bool)>::empty()),
        column[0] == Some(Seq::<(Seq<char>, bool)>::empty()),
    ensures
        flat_row(batch.push(column), r) == flat_row(batch, r),
        batch_width(batch.push(column)) == batch_width(batch),
        batch_labels(batch.push(column)) == batch_labels(batch),
{
    let wider = batch.push(column);
    assert(wider.drop_last() =~= batch);
    assert(wider.last() == column);
    assert(row_flags(column[r].unwrap()) =~= Seq::<bool>::empty());
    assert(flat_row(wider, r) =~= flat_row(batch, r));
    assert(column_labels(column) =~= Seq::<Seq<char>>::empty());
    assert(batch_labels(wider) =~= batch_labels(batch));
}

/// Where a column starts in the flattened rows of a batch: the sum of the
/// widths of the columns before it.
pub open spec fn column_offset(batch: Seq<EncodedModel>, c: int) -> nat {
    batch_width(batch.take(c))
}

/// The flattened row of a batch holds the indicators of each column at that
/// column's offset: cell `column_offset(batch, c) + j` of row `r` is the
/// indicator at position `j` of row `r` of column `c`.
pub proof fn lemma_flat_row_cell(batch: Seq<EncodedModel>, r: int, c: int, j: int)
    requires
        reaches(batch, r),
        0 <= c < batch.len(),
        0 <= j < column_width(batch[c]),
    ensures
        column_offset(batch, c) + j < flat_row(batch, r).len(),
        flat_row(batch, r)[column_offset(batch, c) + j] == batch[c][r].unwrap()[j].1,
    decreases batch.len(),
{
    let rest = batch.drop_last();
    assert(batch.last() == batch[batch.len() - 1]);
    assert(reaches(rest, r)) by {
        assert forall|k: int| 0 <= k < rest.len() implies uniform(#[trigger] rest[k]) && r
            < rest[k].len() by {
            assert(rest[k] == batch[k]);
        }
    }
    lemma_flat_row_width(rest, r);
    assert(!row_fault(batch[c], r));
    assert(!row_fault(batch[c], 0));
    assert(row_labels(batch[c][r].unwrap()).len() == row_labels(batch[c][0].unwrap()).len());
    if c < batch.len() - 1 {
        assert(rest.take(c) =~= batch.take(c));
        assert(rest[c] == batch[c]);
        lemma_flat_row_cell(rest, r, c, j);
    } else {
        assert(batch.take(c) =~= rest);
    }
}

/// The labels of a batch hold the labels of each column at that column's
/// offset: label `column_offset(batch, c) + j` of the batch is label `j` of
/// column `c`, so the labels stand in the order of the cells of a row.
pub proof fn lemma_batch_label(batch: Seq<EncodedModel>, c: int, j: int)
    requires
        0 <= c < batch.len(),
        0 <= j < column_width(batch[c]),
    ensures
        column_offset(batch, c) + j < batch_labels(batch).len(),
        batch_labels(batch)[column_offset(batch, c) + j] == column_labels(batch[c])[j],
    decreases batch.len(),
{
    let rest = batch.drop_last();
    lemma_batch_labels_len(rest);
    lemma_batch_labels_len(batch);
    assert(batch.last() == batch[batch.len() - 1]);
    if c < batch.len() - 1 {
        assert(rest.take(c) =~= batch.take(c));
        assert(rest[c] == batch[c]);
        lemma_batch_label(rest, c, j);
    } else {
        assert(batch.take(c) =~= rest);
    }
}

/// The flattened rows of a batch are laid out row after row: cell `k` of
/// row `r` stands at position `r * batch_width(batch) + k`.
pub proof fn lemma_flat_rows_cell(batch: Seq<EncodedModel>, n: nat, r: int, k: int)
    requires
        forall|c: int| 0 <= c < batch.len() ==> uniform(#[trigger] batch[c]) && n <= batch[c].len(),
        0 <= r < n,
        0 <= k < batch_width(batch),
    ensures
        0 <= r * batch_width(batch) + k < flat_rows(batch, n).len(),
        flat_rows(batch, n)[r * batch_width(batch) + k] == flat_row(batch, r)[k],
    decreases n,
{
    let width = batch_width(batch);
    lemma_flat_rows_len(batch, (n - 1) as nat);
    lemma_flat_rows_len(batch, n);
    assert(reaches(batch, n - 1));
    lemma_flat_row_width(batch, n - 1);
    assert(0 <= r * width) by (nonlinear_arith)
        requires
            0 <= r,
            0 <= width,
    ;
    if r < n - 1 {
        assert((r + 1) * width <= (n - 1) * width) by (nonlinear_arith)
            requires
                r + 1 <= n - 1,
                0 <= width,
        ;
        assert((r + 1) * width == r * width + width) by (nonlinear_arith);
        lemma_flat_rows_cell(batch, (n - 1) as nat, r, k);
    }
}

/// The indicators that are read for category `j` out of the encoding of a
/// column are the indicators of the entry for `j` in the encoding by label.
pub proof fn lemma_indicator_column_of_encoding(
    labels: Seq<Option<Seq<char>>>,
    keys: Seq<Option<i32>>,
    j: int,
)
    requires
        0 <= j < labels.len(),
    ensures
        indicator_column(encoded_flags(encoding(labels, keys)), j) == encoding_by_label(
            labels,
            keys,
        )[j].1,
        forall|r: int|
            0 <= r < keys.len() ==> !lacks_indicator(encoded_flags(encoding(labels, keys)), j, r),
{
}

/// The encodings of several dictionary-encoded columns, as a batch.
pub open spec fn encodings(
    labels: Seq<Seq<Option<Seq<char>>>>,
    keys: Seq<Seq<Option<i32>>>,
) -> Seq<EncodedModel> {
    Seq::new(labels.len(), |c: int| encoding(labels[c], keys[c]))
}

/// The sum of the sizes of several dictionaries.
pub open spec fn total_size(labels: Seq<Seq<Option<Seq<char>>>>) -> nat
    decreases labels.len(),
{
    if labels.len() == 0 {
        0
    } else {
        total_size(labels.drop_last()) + labels.last().len()
    }
}

/// Every flattened row of the encodings of several columns is as long as
/// the dictionaries of the columns are large together.
pub proof fn lemma_encodings_row_width(
    labels: Seq<Seq<Option<Seq<char>>>>,
    keys: Seq<Seq<Option<i32>>>,
    r: int,
)
    requires
        labels.len() == keys.len(),
        0 <= r,
        forall|c: int| 0 <= c < keys.len() ==> r < (#[trigger] keys[c]).len(),
    ensures
        flat_row(encodings(labels, keys), r).len() == total_size(labels),
    decreases labels.len(),
{
    if labels.len() > 0 {
        let fewer_labels = labels.drop_last();
        let fewer_keys = keys.drop_last();
        let last = keys.len() - 1;
        assert(encodings(labels, keys).drop_last() =~= encodings(fewer_labels, fewer_keys));
        assert forall|c: int| 0 <= c < fewer_keys.len() implies r < (#[trigger] fewer_keys[c]).len() by {
            assert(r < keys[c].len());
        }
        lemma_encodings_row_width(fewer_labels, fewer_keys, r);
        assert(r < keys[last].len());
        assert(encodings(labels, keys).last() == encoding(labels[last], keys[last]));
        assert(row_flags(encoding(labels[last], keys[last])[r].unwrap()).len() == labels[last].len());
    }
}

/// In the flattened row `r` of the encodings of several columns, the cell
/// for category `j` of column `c` stands behind the cells of the columns
/// before it, and it is set exactly where the key of row `r` of column `c`
/// selects category `j`.
pub proof fn lemma_encodings_cell(
    labels: Seq<Seq<Option<Seq<char>>>>,
    keys: Seq<Seq<Option<i32>>>,
    r: int,
    c: int,
    j: int,
)
    requires
        labels.len() == keys.len(),
        0 <= r,
        forall|k: int| 0 <= k < keys.len() ==> r < (#[trigger] keys[k]).len(),
        0 <= c < labels.len(),
        0 <= j < labels[c].len(),
    ensures
        total_size(labels.take(c)) + j < flat_row(encodings(labels, keys), r).len(),
        flat_row(encodings(labels, keys), r)[total_size(labels.take(c)) + j] == key_selects(
            keys[c][r],
            j,
        ),
    decreases labels.len(),
{
    let fewer_labels = labels.drop_last();
    let fewer_keys = keys.drop_last();
    let last = keys.len() - 1;
    assert(encodings(labels, keys).drop_last() =~= encodings(fewer_labels, fewer_keys));
    assert forall|k: int| 0 <= k < fewer_keys.len() implies r < (#[trigger] fewer_keys[k]).len() by {
        assert(r < keys[k].len());
    }
    lemma_encodings_row_width(fewer_labels, fewer_keys, r);
    assert(r < keys[last].len());
    assert(encodings(labels, keys).last() == encoding(labels[last], keys[last]));
    if c < last {
        assert(fewer_labels.take(c) =~= labels.take(c));
        lemma_encodings_cell(fewer_labels, fewer_keys, r, c, j);
    } else {
        assert(labels.take(c) =~= fewer_labels);
        assert(encoding(labels[c], keys[c])[r].unwrap()[j].1 == key_selects(keys[c][r], j));
    }
}

/// A batch lists as many labels as it is wide.
pub proof fn lemma_batch_labels_len(batch: Seq<EncodedModel>)
    ensures
        batch_labels(batch).len() == batch_width(batch),
    decreases batch.len(),
{
    if batch.len() > 0 {
        lemma_batch_labels_len(batch.drop_last());
    }
}

/// Every flattened row of a batch of uniform columns has the width of the
/// batch, the sum of the numbers of categories of its columns.
pub proof fn lemma_flat_row_width(batch: Seq<EncodedModel>, r: int)
    requires
        reaches(batch, r),
    ensures
        flat_row(batch, r).len() == batch_width(batch),
    decreases batch.len(),
{
    if batch.len() > 0 {
        let rest = batch.drop_last();
        assert(reaches(rest, r)) by {
            assert forall|c: int| 0 <= c < rest.len() implies uniform(#[trigger] rest[c]) && r
                < rest[c].len() by {
                assert(rest[c] == batch[c]);
            }
        }
        lemma_flat_row_width(rest, r);
        let column = batch.last();
        assert(column == batch[batch.len() - 1]);
        assert(!row_fault(column, r));
        assert(!row_fault(column, 0));
        assert(row_labels(column[r].unwrap()).len() == row_labels(column[0].unwrap()).len());
    }
}

/// The first `n` flattened rows of a batch of uniform columns hold `n` times
/// the width of the batch in cells.
pub proof fn lemma_flat_rows_len(batch: Seq<EncodedModel>, n: nat)
    requires
        forall|c: int| 0 <= c < batch.len() ==> uniform(#[trigger] batch[c]) && n <= batch[c].len(),
    ensures
        flat_rows(batch, n).len() == n * batch_width(batch),
    decreases n,
{
    let width = batch_width(batch);
    if n > 0 {
        lemma_flat_rows_len(batch, (n - 1) as nat);
        assert(reaches(batch, n - 1));
        lemma_flat_row_width(batch, n - 1);
        assert((n - 1) * width + width == n * width) by (nonlinear_arith);
    } else {
        assert(n * width == 0) by (nonlinear_arith)
            requires
                n == 0,
        ;
    }
}

} // verus!
