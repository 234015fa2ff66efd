use irodori_trino::catalog::{metadata_from_columns, string_cell};
use irodori_trino::codec::render_json;
use irodori_trino::json::{Json, JsonNumber};
use serde_json::Value;

fn text(value: &str) -> Json {
    Json::String(value.to_string())
}

fn columns() -> Vec<String> {
    vec![
        "table_schema".to_string(),
        "table_name".to_string(),
        "column_name".to_string(),
        "data_type".to_string(),
        "ordinal_position".to_string(),
    ]
}

fn row(schema: &str, table: &str, column: &str, ordinal: i64) -> Vec<Json> {
    vec![
        text(schema),
        text(table),
        text(column),
        text("bigint"),
        Json::Number(JsonNumber::Signed(ordinal)),
    ]
}

fn catalog(columns: &[String], rows: Vec<Vec<Json>>) -> Value {
    serde_json::from_str(&render_json(metadata_from_columns(columns, rows))).unwrap()
}

fn names(list: &Value) -> Vec<&str> {
    list.as_array()
        .unwrap()
        .iter()
        .map(|item| item["name"].as_str().unwrap())
        .collect()
}

#[test]
fn builds_metadata_from_columns() {
    let columns = vec![
        "table_schema".to_string(),
        "table_name".to_string(),
        "column_name".to_string(),
        "data_type".to_string(),
        "ordinal_position".to_string(),
    ];
    let rows = vec![vec![
        text("public"),
        text("orders"),
        text("id"),
        text("bigint"),
        Json::Number(JsonNumber::Unsigned(1)),
    ]];
    let metadata = catalog(&columns, rows);
    assert_eq!(metadata["schemas"][0]["objects"][0]["name"], "orders");
}

#[test]
fn tables_are_described_in_full() {
    let metadata = render_json(metadata_from_columns(
        &columns(),
        vec![row("s", "t", "c", -3)],
    ));
    assert_eq!(
        metadata,
        "{\"schemas\":[{\"name\":\"s\",\"objects\":[{\"columns\":[{\"dataType\":\"bigint\",\"name\":\"c\",\"nullable\":true,\"ordinal\":-3}],\"foreignKeys\":[],\"indexes\":[],\"kind\":\"table\",\"name\":\"t\",\"primaryKey\":[],\"schema\":\"s\"}]}]}"
    );
}

#[test]
fn schemas_and_tables_are_in_order_and_columns_as_they_came() {
    let metadata = catalog(
        &columns(),
        vec![
            row("b", "y", "c2", 2),
            row("a", "z", "c1", 1),
            row("b", "x", "c1", 1),
            row("b", "y", "c1", 1),
            row("a", "Z", "c9", 9),
            row("\u{e9}", "t", "c", 0),
        ],
    );
    let schemas = &metadata["schemas"];
    assert_eq!(names(schemas), vec!["a", "b", "\u{e9}"]);
    assert_eq!(names(&schemas[0]["objects"]), vec!["Z", "z"]);
    assert_eq!(names(&schemas[1]["objects"]), vec!["x", "y"]);
    assert_eq!(names(&schemas[1]["objects"][1]["columns"]), vec!["c2", "c1"]);
    for schema in schemas.as_array().unwrap() {
        assert!(!names(&schema["objects"]).is_empty());
        for object in schema["objects"].as_array().unwrap() {
            assert!(!names(&object["columns"]).is_empty());
        }
    }
}

#[test]
fn every_complete_row_is_listed_and_no_other() {
    let mut rows = vec![
        row("", "t", "c", 1),
        row("s", "", "c", 1),
        row("s", "t", "", 1),
        row("s", "t", "kept", 1),
        vec![text("s"), text("t")],
        vec![],
        vec![Json::Null, text("t"), text("c"), text("x")],
    ];
    rows.push(vec![text("s"), text("t"), text("bare")]);
    let metadata = catalog(&columns(), rows);
    let table = &metadata["schemas"][0]["objects"][0];
    assert_eq!(metadata["schemas"].as_array().unwrap().len(), 1);
    assert_eq!(names(&table["columns"]), vec!["kept", "bare"]);
    assert_eq!(table["columns"][1]["dataType"], "");
    assert_eq!(table["columns"][1]["ordinal"], 0);
}

#[test]
fn a_listing_without_its_columns_gives_nothing() {
    for missing in 0..4 {
        let mut columns = columns();
        columns.remove(missing);
        let metadata = catalog(&columns, vec![row("s", "t", "c", 1)]);
        assert_eq!(metadata.to_string(), "{\"schemas\":[]}");
    }
    let mut columns = columns();
    columns.pop();
    let metadata = catalog(&columns, vec![row("s", "t", "c", 7)]);
    let column = &metadata["schemas"][0]["objects"][0]["columns"][0];
    assert_eq!(column["ordinal"], 0);
}

#[test]
fn columns_are_found_by_name_and_the_first_counts() {
    let columns = vec![
        "data_type".to_string(),
        "column_name".to_string(),
        "table_name".to_string(),
        "table_schema".to_string(),
        "table_schema".to_string(),
    ];
    let rows = vec![vec![text("d"), text("c"), text("t"), text("s"), text("x")]];
    let metadata = catalog(&columns, rows);
    assert_eq!(names(&metadata["schemas"]), vec!["s"]);
    let column = &metadata["schemas"][0]["objects"][0]["columns"][0];
    assert_eq!(column["dataType"], "d");
}

#[test]
fn ordinals_are_integers_or_zero() {
    let mut float = row("s", "t", "c", 0);
    float[4] = Json::Number(JsonNumber::Other(
        serde_json::Number::from_f64(2.5).unwrap(),
    ));
    let mut large = row("s", "t", "d", 0);
    large[4] = Json::Number(JsonNumber::Unsigned(u64::MAX));
    let mut word = row("s", "t", "e", 0);
    word[4] = text("4");
    let metadata = catalog(&columns(), vec![float, large, word]);
    let columns = &metadata["schemas"][0]["objects"][0]["columns"];
    for at in 0..3 {
        assert_eq!(columns[at]["ordinal"], 0);
    }
}

#[test]
fn cells_are_texts_or_empty() {
    let row = vec![text("x"), Json::Null];
    assert_eq!(string_cell(&row, 0), "x");
    assert_eq!(string_cell(&row, 1), "");
    assert_eq!(string_cell(&row, 2), "");
}
