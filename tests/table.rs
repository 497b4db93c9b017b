use dgraph_cli::schema::{format_table, requested_fields, schema_query, Field, SchemaRecord};

fn record(predicate: &str, ty: Option<&str>) -> SchemaRecord {
    SchemaRecord {
        predicate: predicate.to_string(),
        ty: ty.map(|t| t.to_string()),
        index: None,
        reverse: None,
        tokenizer: None,
        list: None,
        count: None,
        upsert: None,
        lang: None,
    }
}

#[test]
fn predicate_and_type_table_widens_predicate_column() {
    let fields = vec![Field::Predicate, Field::Type];
    let records = vec![
        record("name", Some("string")),
        record("very_long_predicate_name", Some("int")),
    ];
    let expected = format!(
        "{:27}{:10}\n{}\n{:27}{:10}\n{:27}{:10}\n",
        "Predicate",
        "Type",
        "-".repeat(37),
        "name",
        "string",
        "very_long_predicate_name",
        "int"
    );
    assert_eq!(format_table(&fields, &records), expected);
}

#[test]
fn header_follows_column_order_not_request_order() {
    let records = vec![record("name", None)];
    let a = format_table(&vec![Field::Lang, Field::Type, Field::Predicate], &records);
    let b = format_table(&vec![Field::Predicate, Field::Lang, Field::Type, Field::Lang], &records);
    assert_eq!(a, b);
    let header = a.lines().next().unwrap().to_string();
    assert_eq!(header, format!("{:12}{:10}{:8}", "Predicate", "Type", "Lang"));
}

#[test]
fn all_columns_with_defaults() {
    let fields = Field::all();
    let records = vec![record("age", None)];
    let expected = format!(
        "{:12}{:10}{:8}{:10}{:13}{:8}{:8}{:9}{:8}\n{}\n{:12}{:10}{:8}{:10}{:13}{:8}{:8}{:9}{:8}\n",
        "Predicate", "Type", "Index", "Reverse", "Tokenizers", "List", "Count", "Upsert", "Lang",
        "-".repeat(86),
        "age", "", "false", "false", "", "false", "false", "false", "false"
    );
    assert_eq!(format_table(&fields, &records), expected);
}

#[test]
fn predicate_column_keeps_minimum_for_short_names() {
    let records = vec![record("a", None), record("bb", None)];
    let out = format_table(&vec![Field::Predicate], &records);
    assert_eq!(out, format!("{:12}\n{}\n{:12}\n{:12}\n", "Predicate", "-".repeat(12), "a", "bb"));
}

#[test]
fn tokenizer_column_fits_longest_list() {
    let mut r = record("name", None);
    r.tokenizer = Some(vec!["exact".to_string(), "term".to_string()]);
    r.index = Some(true);
    let records = vec![r, record("age", None)];
    let out = format_table(&vec![Field::Tokenizer, Field::Index], &records);
    let expected = format!(
        "{:8}{:14}\n{}\n{:8}{:14}\n{:8}{:14}\n",
        "Index", "Tokenizers", "-".repeat(22), "true", "exact,term", "false", ""
    );
    assert_eq!(out, expected);
}

#[test]
fn empty_record_list_prints_header_and_rule() {
    let out = format_table(&vec![Field::Count, Field::Upsert], &Vec::new());
    assert_eq!(out, format!("{:8}{:9}\n{}\n", "Count", "Upsert", "-".repeat(17)));
}

#[test]
fn no_width_is_lost_for_long_values() {
    let name = "x".repeat(40);
    let records = vec![record(&name, Some("a_type_longer_than_ten"))];
    let out = format_table(&vec![Field::Predicate, Field::Type], &records);
    let row = out.lines().nth(2).unwrap().to_string();
    assert_eq!(row, format!("{}   a_type_longer_than_ten", name));
}

#[test]
fn schema_query_lists_fields_in_column_order() {
    assert_eq!(
        schema_query(&vec![Field::Type, Field::Predicate]),
        "schema { predicate type }"
    );
    assert_eq!(
        schema_query(&Field::all()),
        "schema { predicate type index reverse tokenizer list count upsert lang }"
    );
}

#[test]
fn requested_fields_parses_names() {
    let names = vec!["type".to_string(), "predicate".to_string()];
    assert_eq!(requested_fields(&names), Some(vec![Field::Type, Field::Predicate]));
    assert_eq!(requested_fields(&Vec::new()), Some(Field::all()));
    let bad = vec!["predicate".to_string(), "colour".to_string()];
    assert_eq!(requested_fields(&bad), None);
}

#[test]
fn field_names_round_trip() {
    for f in Field::all() {
        assert_eq!(Field::from_name(f.name()), Some(f));
    }
    assert_eq!(Field::from_name("Predicate"), None);
    assert_eq!(Field::Tokenizer.label(), "Tokenizers");
}
