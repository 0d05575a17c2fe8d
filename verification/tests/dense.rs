use xgboost_udf::{
    category_flags, dense_matrix, encode, flatten, flatten_column, Column, DenseMatrix,
    DictionaryColumn, EncodedColumn, Indicator, Shape, UdfError,
};

fn row(pairs: &[(&str, bool)]) -> Option<Vec<Indicator>> {
    Some(pairs.iter().map(|(key, value)| Indicator { key: key.to_string(), value: *value }).collect())
}

fn encoded(rows: Vec<Option<Vec<Indicator>>>) -> Column {
    Column::Encoded(EncodedColumn { rows })
}

fn feature(labels: &[&str], keys: &[i32]) -> Column {
    let dictionary = Column::Dictionary(DictionaryColumn {
        labels: labels.iter().map(|l| Some(l.to_string())).collect(),
        keys: keys.iter().map(|k| Some(*k)).collect(),
    });
    Column::Encoded(encode(&dictionary).unwrap())
}

fn cycling_keys(rows: usize, categories: usize, step: usize) -> Vec<i32> {
    (0..rows).map(|r| ((r * step + r / 7) % categories) as i32).collect()
}

#[test]
fn one_category_of_one_row() {
    let array = encoded(vec![row(&[("a", true)])]);
    let (result, num_rows) = category_flags(&array, 0).unwrap();
    assert_eq!(result, vec![true]);
    assert_eq!(num_rows, 1);
}

#[test]
fn one_row_of_two_categories() {
    let array = encoded(vec![row(&[("a", true), ("b", false)])]);
    let (result, num_rows, dim_names) = flatten_column(&array).unwrap();
    assert_eq!(result.len(), 2);
    assert_eq!(num_rows, 1);
    assert_eq!(dim_names, vec!["a", "b"]);
    assert_eq!(result, vec![true, false]);
}

#[test]
fn batch_of_one_column_and_one_row() {
    let record_batch = vec![encoded(vec![row(&[("a", true)])])];
    let (result, num_rows, dim_names) = flatten(&record_batch).unwrap();
    assert_eq!(result.len(), 1);
    assert_eq!(num_rows, 1);
    assert_eq!(dim_names, vec!["a"]);
}

#[test]
fn matrix_of_one_cell() {
    let record_batch = vec![encoded(vec![row(&[("a", true)])])];
    let dm = dense_matrix(&record_batch).unwrap();
    assert_eq!(dm.shape(), (1, 1));
    assert_eq!(dm.data, vec![1u8]);
}

#[test]
fn matrix_of_four_features() {
    let cap_shape = feature(&["x", "b", "s", "f", "k", "c"], &cycling_keys(8124, 6, 1));
    let cap_surface = feature(&["s", "y", "f", "g"], &cycling_keys(8124, 4, 3));
    let cap_color =
        feature(&["n", "y", "w", "g", "e", "p", "b", "u", "c", "r"], &cycling_keys(8124, 10, 7));
    let bruises = feature(&["t", "f"], &cycling_keys(8124, 2, 1));
    let dmat = dense_matrix(&[cap_shape, cap_surface, cap_color, bruises]).unwrap();
    assert_eq!(dmat.shape(), (8124, 22));
    assert_eq!(dmat.data.len(), 8124 * 22);
    for r in 0..8124 {
        let ones: usize = dmat.data[r * 22..(r + 1) * 22].iter().map(|c| *c as usize).sum();
        assert_eq!(ones, 4);
    }
}

#[test]
fn training_data_is_a_matrix_and_one_label_per_row() {
    let sizes = [6, 4, 10, 2, 9, 2, 2, 2, 12, 2, 5, 4, 4, 9, 9, 1, 4, 3, 5, 6, 7];
    let labels = ["a", "b", "c", "d", "e", "f", "g", "h", "i", "j", "k", "l"];
    let features: Vec<Column> = sizes
        .iter()
        .enumerate()
        .map(|(c, size)| feature(&labels[..*size], &cycling_keys(8124, *size, c + 1)))
        .collect();
    let dmat = dense_matrix(&features).unwrap();
    assert_eq!(dmat.shape(), (8124, 108));
    let class_keys: Vec<i32> = (0..8124).map(|r| if r % 3 == 0 { 0 } else { 1 }).collect();
    let classes = feature(&["p", "e"], &class_keys);
    let (classes, num_rows) = category_flags(&classes, 1).unwrap();
    assert_eq!(num_rows, dmat.num_rows);
    assert_eq!(classes.len(), 8124);
    assert_eq!(classes[0..4].to_vec(), vec![false, true, true, false]);
}

#[test]
fn class_and_id_give_a_matrix_of_two_rows_and_four_columns() {
    let class = feature(&["a", "b"], &[0, 1]);
    let id = feature(&["c", "d"], &[0, 1]);
    let batch = vec![class, id];
    let (cells, num_rows, names) = flatten(&batch).unwrap();
    assert_eq!(num_rows, 2);
    assert_eq!(cells.len(), 8);
    assert_eq!(names, vec!["a", "b", "c", "d"]);
    let matrix = dense_matrix(&batch).unwrap();
    assert_eq!(matrix.shape(), (2, 4));
    assert_eq!(matrix.data, vec![1, 0, 1, 0, 0, 1, 0, 1]);
}

#[test]
fn two_columns_flatten_row_by_row() {
    let class = feature(&["a", "b"], &[0, 1]);
    let id = feature(&["c", "d"], &[1, 1]);
    let batch = vec![class, id];
    let (cells, num_rows, names) = flatten(&batch).unwrap();
    assert_eq!(num_rows, 2);
    assert_eq!(names, vec!["a", "b", "c", "d"]);
    assert_eq!(cells, vec![true, false, false, true, false, true, false, true]);
    let matrix = dense_matrix(&batch).unwrap();
    assert_eq!(
        matrix,
        DenseMatrix { data: vec![1, 0, 0, 1, 0, 1, 0, 1], num_rows: 2, num_cols: 4 }
    );
    assert_eq!(matrix.shape(), (2, 4));
}

#[test]
fn one_column_flattens_row_by_row() {
    let column = feature(&["a", "b", "c"], &[2, 0]);
    let (cells, num_rows, names) = flatten_column(&column).unwrap();
    assert_eq!(cells, vec![false, false, true, true, false, false]);
    assert_eq!(num_rows, 2);
    assert_eq!(names, vec!["a", "b", "c"]);
}

#[test]
fn category_flags_reads_one_category() {
    let class = feature(&["p", "e"], &[0, 1, 1, 0, 1]);
    let (edible, num_rows) = category_flags(&class, 1).unwrap();
    assert_eq!(edible, vec![false, true, true, false, true]);
    assert_eq!(num_rows, 5);
    let (poisonous, _) = category_flags(&class, 0).unwrap();
    assert_eq!(poisonous, vec![true, false, false, true, false]);
}

#[test]
fn category_flags_rejects_what_it_cannot_read() {
    let class = feature(&["p", "e"], &[0, 1]);
    assert_eq!(
        category_flags(&class, 2),
        Err(UdfError::MissingIndicator { position: 0, row: 0, index: 2 })
    );
    let ragged = encoded(vec![row(&[("a", true), ("b", false)]), row(&[("a", true)])]);
    assert_eq!(
        category_flags(&ragged, 1),
        Err(UdfError::MissingIndicator { position: 0, row: 1, index: 1 })
    );
    let holed = encoded(vec![row(&[("a", true)]), None, None]);
    assert_eq!(category_flags(&holed, 0), Err(UdfError::NullRow { position: 0, row: 1 }));
    assert_eq!(
        category_flags(&Column::Utf8(vec![]), 0),
        Err(UdfError::TypeMismatch { position: 0, expected: Shape::Flags, actual: Shape::Utf8 })
    );
    assert_eq!(
        category_flags(&Column::Labels, 0),
        Err(UdfError::TypeMismatch { position: 0, expected: Shape::Flags, actual: Shape::Labels })
    );
}

#[test]
fn category_flags_reads_indicators_without_labels() {
    let flags = Column::Flags(vec![Some(vec![true, false]), Some(vec![false, true])]);
    assert_eq!(category_flags(&flags, 0), Ok((vec![true, false], 2)));
    assert_eq!(category_flags(&flags, 1), Ok((vec![false, true], 2)));
    assert_eq!(
        category_flags(&flags, 2),
        Err(UdfError::MissingIndicator { position: 0, row: 0, index: 2 })
    );
    let holed = Column::Flags(vec![Some(vec![true]), None]);
    assert_eq!(category_flags(&holed, 0), Err(UdfError::NullRow { position: 0, row: 1 }));
    assert_eq!(
        flatten_column(&flags),
        Err(UdfError::TypeMismatch { position: 0, expected: Shape::Encoded, actual: Shape::Flags })
    );
}

#[test]
fn null_row_is_reported_before_a_row_of_other_labels() {
    let column = encoded(vec![
        row(&[("a", true), ("b", false)]),
        row(&[("a", true), ("c", false)]),
        row(&[("a", true)]),
        None,
        None,
    ]);
    assert_eq!(flatten_column(&column), Err(UdfError::NullRow { position: 0, row: 3 }));
    assert_eq!(flatten(&[column.clone()]), Err(UdfError::NullRow { position: 0, row: 3 }));
    let class = feature(&["x"], &[0, 0, 0, 0, 0]);
    assert_eq!(
        dense_matrix(&[class, column]),
        Err(UdfError::NullRow { position: 1, row: 3 })
    );
    let unholed = encoded(vec![
        row(&[("a", true), ("b", false)]),
        row(&[("a", true), ("c", false)]),
        row(&[("a", true)]),
    ]);
    assert_eq!(flatten_column(&unholed), Err(UdfError::LayoutMismatch { position: 0, row: 1 }));
}

#[test]
fn matrix_without_rows_is_not_handed_over() {
    let empty = dense_matrix(&[]).unwrap();
    assert_eq!(empty.rows_to_hand_over(), Err(UdfError::NoRows));
    let one = dense_matrix(&[feature(&["a", "b"], &[1, 0, 1])]).unwrap();
    assert_eq!(one.rows_to_hand_over(), Ok(3));
}

#[test]
fn every_row_is_as_wide_as_the_dictionaries_together() {
    let widths = [3usize, 1, 5, 2];
    let labels = ["a", "b", "c", "d", "e"];
    let rows = 9;
    let batch: Vec<Column> = widths
        .iter()
        .enumerate()
        .map(|(c, w)| feature(&labels[..*w], &cycling_keys(rows, *w, c + 1)))
        .collect();
    let (cells, num_rows, names) = flatten(&batch).unwrap();
    assert_eq!(num_rows, rows);
    assert_eq!(names.len(), 11);
    assert_eq!(cells.len(), rows * 11);
    let matrix = dense_matrix(&batch).unwrap();
    assert_eq!(matrix.shape(), (rows, 11));
}

#[test]
fn flattening_twice_gives_the_same_cells() {
    let batch = vec![feature(&["a", "b", "c"], &[2, 0, 1, 1]), feature(&["u", "v"], &[1, 0, 0, 1])];
    let copy = batch.clone();
    assert_eq!(flatten(&batch), flatten(&batch));
    assert_eq!(flatten(&batch), flatten(&copy));
    assert_eq!(dense_matrix(&batch), dense_matrix(&copy));
}

#[test]
fn empty_dictionary_adds_no_width() {
    let empty = Column::Dictionary(DictionaryColumn { labels: vec![], keys: vec![None, None] });
    let degenerate = Column::Encoded(encode(&empty).unwrap());
    let class = feature(&["a", "b"], &[1, 0]);
    let with = flatten(&[class.clone(), degenerate.clone()]).unwrap();
    let without = flatten(&[class.clone()]).unwrap();
    assert_eq!(with, without);
    assert_eq!(with, (vec![false, true, true, false], 2, vec!["a".to_string(), "b".to_string()]));
    let alone = dense_matrix(&[degenerate]).unwrap();
    assert_eq!(alone, DenseMatrix { data: vec![], num_rows: 2, num_cols: 0 });
}

#[test]
fn batch_without_columns_or_rows() {
    assert_eq!(flatten(&[]), Ok((vec![], 0, vec![])));
    assert_eq!(dense_matrix(&[]), Ok(DenseMatrix { data: vec![], num_rows: 0, num_cols: 0 }));
    let no_rows = encoded(vec![]);
    assert_eq!(flatten_column(&no_rows), Ok((vec![], 0, vec![])));
    assert_eq!(category_flags(&no_rows, 3), Ok((vec![], 0)));
    assert_eq!(
        dense_matrix(&[no_rows.clone(), no_rows]),
        Ok(DenseMatrix { data: vec![], num_rows: 0, num_cols: 0 })
    );
}

#[test]
fn columns_of_other_shapes_are_rejected_by_position() {
    let class = feature(&["a", "b"], &[1, 0]);
    let dictionary =
        Column::Dictionary(DictionaryColumn { labels: vec![], keys: vec![None, None] });
    assert_eq!(
        flatten(&[class.clone(), class.clone(), dictionary.clone()]),
        Err(UdfError::TypeMismatch {
            position: 2,
            expected: Shape::Encoded,
            actual: Shape::Dictionary
        })
    );
    assert_eq!(
        dense_matrix(&[Column::Other("Float32".to_string()), dictionary]),
        Err(UdfError::TypeMismatch { position: 0, expected: Shape::Encoded, actual: Shape::Other })
    );
    assert_eq!(
        flatten_column(&Column::Utf8(vec![None])),
        Err(UdfError::TypeMismatch { position: 0, expected: Shape::Encoded, actual: Shape::Utf8 })
    );
}

#[test]
fn null_rows_are_rejected() {
    let holed = encoded(vec![row(&[("a", true)]), None, row(&[("b", true)])]);
    assert_eq!(flatten_column(&holed), Err(UdfError::NullRow { position: 0, row: 1 }));
    let class = feature(&["a", "b"], &[1, 0, 0]);
    assert_eq!(
        flatten(&[class, holed]),
        Err(UdfError::NullRow { position: 1, row: 1 })
    );
    let first_null = encoded(vec![None, row(&[("a", true)])]);
    assert_eq!(dense_matrix(&[first_null]), Err(UdfError::NullRow { position: 0, row: 0 }));
}

#[test]
fn rows_that_differ_in_their_labels_are_rejected() {
    let renamed =
        encoded(vec![row(&[("a", true), ("b", false)]), row(&[("a", true), ("c", false)])]);
    assert_eq!(flatten_column(&renamed), Err(UdfError::LayoutMismatch { position: 0, row: 1 }));
    let ragged = encoded(vec![
        row(&[("a", true), ("b", false)]),
        row(&[("a", true), ("b", false)]),
        row(&[("a", true)]),
    ]);
    assert_eq!(
        flatten(&[ragged.clone()]),
        Err(UdfError::LayoutMismatch { position: 0, row: 2 })
    );
    let swapped =
        encoded(vec![row(&[("a", true), ("b", false)]), row(&[("b", false), ("a", true)])]);
    assert_eq!(
        dense_matrix(&[feature(&["x"], &[0, 0]), swapped]),
        Err(UdfError::LayoutMismatch { position: 1, row: 1 })
    );
}

#[test]
fn columns_that_differ_in_their_rows_are_rejected() {
    let two = feature(&["a", "b"], &[1, 0]);
    let three = feature(&["c", "d"], &[1, 0, 0]);
    assert_eq!(
        flatten(&[two.clone(), two.clone(), three.clone()]),
        Err(UdfError::RowCountMismatch { position: 2, expected_rows: 2, actual_rows: 3 })
    );
    assert_eq!(
        dense_matrix(&[three, two]),
        Err(UdfError::RowCountMismatch { position: 1, expected_rows: 3, actual_rows: 2 })
    );
}

#[test]
fn the_first_column_at_fault_decides() {
    let two = feature(&["a", "b"], &[1, 0]);
    let three = feature(&["c", "d"], &[1, 0, 0]);
    let holed = encoded(vec![None]);
    assert_eq!(
        flatten(&[two.clone(), holed.clone(), three.clone()]),
        Err(UdfError::NullRow { position: 1, row: 0 })
    );
    assert_eq!(
        flatten(&[two, three, holed]),
        Err(UdfError::RowCountMismatch { position: 1, expected_rows: 2, actual_rows: 3 })
    );
}

#[test]
fn indicators_need_not_be_one_hot_to_be_flattened() {
    let column = encoded(vec![row(&[("a", true), ("b", true)]), row(&[("a", false), ("b", false)])]);
    assert_eq!(
        dense_matrix(&[column]),
        Ok(DenseMatrix { data: vec![1, 1, 0, 0], num_rows: 2, num_cols: 2 })
    );
}
