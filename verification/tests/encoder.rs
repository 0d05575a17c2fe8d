use xgboost_udf::{
    encode, encode_by_label, Column, DictionaryColumn, EncodedColumn, Indicator, LabelColumn, Shape,
    UdfError,
};

fn dictionary(labels: &[&str], keys: &[i32]) -> Column {
    Column::Dictionary(DictionaryColumn {
        labels: labels.iter().map(|l| Some(l.to_string())).collect(),
        keys: keys.iter().map(|k| Some(*k)).collect(),
    })
}

fn row(pairs: &[(&str, bool)]) -> Option<Vec<Indicator>> {
    Some(pairs.iter().map(|(key, value)| Indicator { key: key.to_string(), value: *value }).collect())
}

fn mushroom_classes() -> Vec<i32> {
    let mut keys = vec![0, 1, 1, 0, 1];
    for i in 5..8124 {
        keys.push(if i % 3 == 0 { 0 } else { 1 });
    }
    keys
}

#[test]
fn encoding_has_a_row_for_each_row() {
    let dict = dictionary(&["a", "b"], &[0, 1]);
    let result = encode(&dict).unwrap();
    assert_eq!(result.rows.len(), 2);
}

#[test]
fn encoding_marks_the_category_of_each_row() {
    let result = encode(&dictionary(&["a", "b"], &[0, 1])).unwrap();
    assert_eq!(
        result,
        EncodedColumn {
            rows: vec![row(&[("a", true), ("b", false)]), row(&[("a", false), ("b", true)])],
        }
    );
}

#[test]
fn encoding_of_many_rows() {
    let result = encode(&dictionary(&["p", "e"], &mushroom_classes())).unwrap();
    assert_eq!(result.rows.len(), 8124);
    let expected = vec![
        row(&[("p", true), ("e", false)]),
        row(&[("p", false), ("e", true)]),
        row(&[("p", false), ("e", true)]),
        row(&[("p", true), ("e", false)]),
        row(&[("p", false), ("e", true)]),
    ];
    assert_eq!(result.rows[0..5].to_vec(), expected);
}

#[test]
fn encoding_by_label_of_many_rows() {
    let result = encode_by_label(&dictionary(&["p", "e"], &mushroom_classes())).unwrap();
    assert_eq!(result.len(), 2);
    for category in result.iter() {
        assert_eq!(category.values.len(), 8124);
    }
    assert_eq!(result[0].label, "p");
    assert_eq!(result[1].label, "e");
    assert_eq!(result[0].values[0..5].to_vec(), vec![true, false, false, true, false]);
    assert_eq!(result[1].values[0..5].to_vec(), vec![false, true, true, false, true]);
}

#[test]
fn encoding_by_label_is_the_encoding_by_row_turned_around() {
    let column = dictionary(&["x", "b", "s"], &[2, 0, 0, 1]);
    let by_row = encode(&column).unwrap();
    let by_label = encode_by_label(&column).unwrap();
    assert_eq!(
        by_label,
        vec![
            LabelColumn { label: "x".to_string(), values: vec![false, true, true, false] },
            LabelColumn { label: "b".to_string(), values: vec![false, false, false, true] },
            LabelColumn { label: "s".to_string(), values: vec![true, false, false, false] },
        ]
    );
    for (j, category) in by_label.iter().enumerate() {
        for (r, row) in by_row.rows.iter().enumerate() {
            let row = row.as_ref().unwrap();
            assert_eq!(category.values[r], row[j].value);
            assert_eq!(category.label, row[j].key);
        }
    }
}

#[test]
fn encoding_by_label_rejects_what_the_encoding_by_row_rejects() {
    let columns = vec![
        Column::Utf8(vec![None]),
        dictionary(&["a", "a"], &[0]),
        dictionary(&["a", "b"], &[0, 2]),
        Column::Dictionary(DictionaryColumn { labels: vec![None], keys: vec![] }),
    ];
    for column in columns.iter() {
        assert_eq!(encode_by_label(column).unwrap_err(), encode(column).unwrap_err());
    }
    let empty = Column::Dictionary(DictionaryColumn { labels: vec![], keys: vec![None] });
    assert_eq!(encode_by_label(&empty), Ok(vec![]));
}

#[test]
fn encoding_keeps_dictionary_order() {
    let result = encode(&dictionary(&["p", "e"], &mushroom_classes())).unwrap();
    assert_eq!(result.rows[0], row(&[("p", true), ("e", false)]));
    assert_eq!(result.rows[1], row(&[("p", false), ("e", true)]));
    let unsorted = encode(&dictionary(&["z", "m", "a"], &[2, 0])).unwrap();
    assert_eq!(unsorted.rows[0], row(&[("z", false), ("m", false), ("a", true)]));
    assert_eq!(unsorted.rows[1], row(&[("z", true), ("m", false), ("a", false)]));
}

#[test]
fn every_row_has_one_true_indicator_beside_its_label() {
    let labels = ["x", "b", "s", "f", "k", "c"];
    let keys = [5, 0, 3, 3, 1, 4, 2, 0];
    let result = encode(&dictionary(&labels, &keys)).unwrap();
    assert_eq!(result.rows.len(), keys.len());
    for (r, encoded) in result.rows.iter().enumerate() {
        let encoded = encoded.as_ref().unwrap();
        assert_eq!(encoded.len(), labels.len());
        let chosen: Vec<&Indicator> = encoded.iter().filter(|i| i.value).collect();
        assert_eq!(chosen.len(), 1);
        assert_eq!(chosen[0].key, labels[keys[r] as usize]);
        assert!(encoded[keys[r] as usize].value);
    }
}

#[test]
fn columns_over_one_dictionary_are_laid_out_alike() {
    let first = encode(&dictionary(&["n", "y", "w"], &[0, 1, 2, 2])).unwrap();
    let second = encode(&dictionary(&["n", "y", "w"], &[2, 2])).unwrap();
    let labels_of = |r: &Option<Vec<Indicator>>| -> Vec<String> {
        r.as_ref().unwrap().iter().map(|i| i.key.clone()).collect()
    };
    for a in first.rows.iter() {
        for b in second.rows.iter() {
            assert_eq!(labels_of(a), labels_of(b));
            assert_eq!(labels_of(a), vec!["n", "y", "w"]);
        }
    }
}

#[test]
fn empty_dictionary_gives_empty_rows() {
    let column = Column::Dictionary(DictionaryColumn {
        labels: vec![],
        keys: vec![None, Some(7), Some(-1)],
    });
    let result = encode(&column).unwrap();
    assert_eq!(result.rows, vec![Some(vec![]), Some(vec![]), Some(vec![])]);
}

#[test]
fn column_without_rows_gives_no_rows() {
    let result = encode(&dictionary(&["a", "b"], &[])).unwrap();
    assert_eq!(result.rows, vec![]);
}

#[test]
fn other_shapes_are_a_type_mismatch() {
    let text = Column::Utf8(vec![Some("a".to_string())]);
    assert_eq!(
        encode(&text),
        Err(UdfError::TypeMismatch { position: 0, expected: Shape::Dictionary, actual: Shape::Utf8 })
    );
    let encoded = Column::Encoded(EncodedColumn { rows: vec![] });
    assert_eq!(
        encode(&encoded),
        Err(UdfError::TypeMismatch {
            position: 0,
            expected: Shape::Dictionary,
            actual: Shape::Encoded
        })
    );
    let other = Column::Other("Int64".to_string());
    assert_eq!(
        encode(&other),
        Err(UdfError::TypeMismatch { position: 0, expected: Shape::Dictionary, actual: Shape::Other })
    );
}

#[test]
fn null_label_is_rejected() {
    let column = Column::Dictionary(DictionaryColumn {
        labels: vec![Some("a".to_string()), None, None],
        keys: vec![Some(0)],
    });
    assert_eq!(encode(&column), Err(UdfError::InvalidLabel { position: 0, index: 1 }));
}

#[test]
fn repeated_label_is_rejected() {
    let column = dictionary(&["a", "b", "c", "b", "a"], &[0]);
    assert_eq!(encode(&column), Err(UdfError::InvalidLabel { position: 0, index: 3 }));
}

#[test]
fn label_faults_come_before_key_faults() {
    let column = dictionary(&["a", "a"], &[9]);
    assert_eq!(encode(&column), Err(UdfError::InvalidLabel { position: 0, index: 1 }));
}

#[test]
fn key_outside_of_the_dictionary_is_rejected() {
    assert_eq!(
        encode(&dictionary(&["a", "b"], &[0, 1, 2, 3])),
        Err(UdfError::InvalidKey { position: 0, row: 2 })
    );
    assert_eq!(
        encode(&dictionary(&["a", "b"], &[1, -1])),
        Err(UdfError::InvalidKey { position: 0, row: 1 })
    );
}

#[test]
fn null_key_is_rejected() {
    let column = Column::Dictionary(DictionaryColumn {
        labels: vec![Some("a".to_string())],
        keys: vec![Some(0), Some(0), None],
    });
    assert_eq!(encode(&column), Err(UdfError::InvalidKey { position: 0, row: 2 }));
}
