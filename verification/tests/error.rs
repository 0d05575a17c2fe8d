use xgboost_udf::{Shape, UdfError};

#[test]
fn errors_about_an_argument_give_its_position() {
    let mismatch =
        UdfError::TypeMismatch { position: 3, expected: Shape::Encoded, actual: Shape::Utf8 };
    assert_eq!(mismatch.position(), Some(3));
    assert_eq!(UdfError::InvalidLabel { position: 1, index: 4 }.position(), Some(1));
    assert_eq!(UdfError::InvalidKey { position: 2, row: 4 }.position(), Some(2));
    assert_eq!(UdfError::NullRow { position: 5, row: 0 }.position(), Some(5));
    assert_eq!(UdfError::LayoutMismatch { position: 6, row: 0 }.position(), Some(6));
    assert_eq!(UdfError::MissingIndicator { position: 7, row: 0, index: 1 }.position(), Some(7));
    let rows = UdfError::RowCountMismatch { position: 8, expected_rows: 1, actual_rows: 2 };
    assert_eq!(rows.position(), Some(8));
    assert_eq!(UdfError::WidthMismatch { expected_width: 1, actual_width: 2 }.position(), None);
    assert_eq!(UdfError::Inference { cause: "x".to_string() }.position(), None);
}

#[test]
fn each_error_has_its_message() {
    let expecting = |expected: Shape| {
        UdfError::TypeMismatch { position: 0, expected, actual: Shape::Other }.message()
    };
    assert_eq!(expecting(Shape::Encoded), "Expected ListArray");
    assert_eq!(expecting(Shape::Dictionary), "Expected DictionaryArray");
    assert_eq!(expecting(Shape::Utf8), "Expected StringArray");
    assert_eq!(expecting(Shape::Other), "Unexpected array");
    let mismatch = |expected: Shape, actual: Shape| {
        UdfError::TypeMismatch { position: 0, expected, actual }.message()
    };
    assert_eq!(mismatch(Shape::Encoded, Shape::Utf8), "Expected ListArray");
    assert_eq!(mismatch(Shape::Encoded, Shape::Dictionary), "Expected ListArray");
    assert_eq!(mismatch(Shape::Encoded, Shape::List), "Expected StructArray");
    assert_eq!(mismatch(Shape::Encoded, Shape::Structs), "Expected StringArray");
    assert_eq!(mismatch(Shape::Encoded, Shape::Flags), "Expected StringArray");
    assert_eq!(mismatch(Shape::Encoded, Shape::Labels), "Expected BooleanArray");
    assert_eq!(mismatch(Shape::Flags, Shape::Other), "Expected ListArray");
    assert_eq!(mismatch(Shape::Flags, Shape::List), "Expected StructArray");
    assert_eq!(mismatch(Shape::Flags, Shape::Structs), "Expected BooleanArray");
    assert_eq!(mismatch(Shape::Flags, Shape::Labels), "Expected BooleanArray");
    assert_eq!(mismatch(Shape::Dictionary, Shape::Encoded), "Expected DictionaryArray");
    assert_eq!(mismatch(Shape::List, Shape::Utf8), "Unexpected array");
    assert_eq!(UdfError::NoRows.message(), "Failed to create dmatrix");
    assert_eq!(UdfError::NoRows.position(), None);
    assert_eq!(UdfError::TooLarge.position(), None);
    assert_eq!(UdfError::NullRow { position: 0, row: 1 }.message(), "Null struct in ListArray");
    assert_eq!(
        UdfError::MatrixConstruction { cause: "x".to_string() }.message(),
        "Failed to create dmatrix"
    );
    assert_eq!(
        UdfError::InvalidLabel { position: 0, index: 1 }.message(),
        "Null or repeated label in dictionary"
    );
    assert_eq!(UdfError::InvalidKey { position: 0, row: 1 }.message(), "Key outside of dictionary");
    assert_eq!(
        UdfError::LayoutMismatch { position: 0, row: 1 }.message(),
        "Rows of one column differ in their labels"
    );
    assert_eq!(
        UdfError::MissingIndicator { position: 0, row: 1, index: 2 }.message(),
        "Row is too short"
    );
    assert_eq!(
        UdfError::RowCountMismatch { position: 1, expected_rows: 1, actual_rows: 2 }.message(),
        "Columns differ in their number of rows"
    );
    assert_eq!(
        UdfError::WidthMismatch { expected_width: 1, actual_width: 2 }.message(),
        "Matrix width differs from that of the model"
    );
    assert_eq!(
        UdfError::ScoreCountMismatch { expected_scores: 1, actual_scores: 2 }.message(),
        "Number of scores differs from that of rows"
    );
    assert_eq!(
        UdfError::ModelLoad { path: "model.xgb".to_string(), cause: "x".to_string() }.message(),
        "Failed to load model"
    );
    assert_eq!(UdfError::Inference { cause: "x".to_string() }.message(), "Failed to predict");
}
