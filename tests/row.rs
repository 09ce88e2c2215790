use catalog_mirror::codec::{Cell, JsonValue};
use catalog_mirror::row::{build_row, build_rows};

fn names(v: &[&str]) -> Vec<String> {
    v.iter().map(|s| s.to_string()).collect()
}

fn entry(k: &str, v: JsonValue) -> (String, JsonValue) {
    (k.to_string(), v)
}

#[test]
fn version_row_has_numbers_and_strings() {
    let cols = names(&["id", "gameVersionTypeID", "name", "slug"]);
    let cells = vec![
        Cell::Integer(1),
        Cell::Integer(2),
        Cell::Text(b"1.20".to_vec()),
        Cell::Text(b"1-20".to_vec()),
    ];
    let row = build_row(&cols, cells);
    assert_eq!(
        row,
        vec![
            entry("id", JsonValue::Number(1)),
            entry("gameVersionTypeID", JsonValue::Number(2)),
            entry("name", JsonValue::Str("1.20".to_string())),
            entry("slug", JsonValue::Str("1-20".to_string())),
        ]
    );
}

#[test]
fn repeated_column_keeps_place_and_last_value() {
    let cols = names(&["a", "b", "a"]);
    let cells = vec![Cell::Integer(1), Cell::Integer(2), Cell::Integer(3)];
    let row = build_row(&cols, cells);
    assert_eq!(row, vec![entry("a", JsonValue::Number(3)), entry("b", JsonValue::Number(2))]);
}

#[test]
fn no_columns_give_empty_object() {
    let row = build_row(&Vec::new(), Vec::new());
    assert!(row.is_empty());
}

#[test]
fn rows_keep_their_order() {
    let cols = names(&["id", "data"]);
    let rows = vec![
        vec![Cell::Integer(7), Cell::Null],
        vec![Cell::Integer(8), Cell::Blob(vec![0xde, 0xad])],
    ];
    let out = build_rows(&cols, rows);
    assert_eq!(
        out,
        vec![
            vec![entry("id", JsonValue::Number(7)), entry("data", JsonValue::Null)],
            vec![entry("id", JsonValue::Number(8)), entry("data", JsonValue::Str("dead".to_string()))],
        ]
    );
}

#[test]
fn empty_result_gives_no_rows() {
    let out = build_rows(&names(&["id"]), Vec::new());
    assert!(out.is_empty());
}
