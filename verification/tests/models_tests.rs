use dbbridge::models::{CellValue, DatabaseItem, DatabaseStructure, DbError};

#[test]
fn every_error_kind_carries_its_message() {
    let cases = vec![
        DbError::ConnectionNotFound("a".to_string()),
        DbError::FileNotFound("b".to_string()),
        DbError::InvalidConnectionString("c".to_string()),
        DbError::ConnectionFailed("d".to_string()),
        DbError::MalformedQuery("e".to_string()),
        DbError::UnsupportedOperation("f".to_string()),
        DbError::StatementPrepareFailed("g".to_string()),
        DbError::StatementExecutionFailed("h".to_string()),
        DbError::CatalogQueryFailed("i".to_string()),
    ];
    let expected = ["a", "b", "c", "d", "e", "f", "g", "h", "i"];
    for (e, want) in cases.iter().zip(expected) {
        assert_eq!(e.message(), want);
    }
}

#[test]
fn cell_values_compare_structurally() {
    let a = CellValue::Obj(vec![
        ("k".to_string(), CellValue::Arr(vec![CellValue::Int(1), CellValue::Null])),
    ]);
    let b = CellValue::Obj(vec![
        ("k".to_string(), CellValue::Arr(vec![CellValue::Int(1), CellValue::Null])),
    ]);
    assert_eq!(a, b);
    assert_ne!(a, CellValue::Obj(vec![]));
}

#[test]
fn schema_listings_nest_items() {
    let s = DatabaseStructure {
        items: vec![DatabaseItem {
            name: "mydb".to_string(),
            item_type: "database".to_string(),
            children: Some(vec![DatabaseItem {
                name: "users".to_string(),
                item_type: "collection".to_string(),
                children: None,
            }]),
        }],
    };
    assert_eq!(s.items.len(), 1);
    assert_eq!(s.items[0].children.as_ref().unwrap()[0].name, "users");
}
