use search_projection::document::{FieldId, LeafScalar, Posting, Value};
use search_projection::fixtures::{
    chinese_fields, default_fields, default_schema, simple_doc, simple_schema,
};
use search_projection::schema::{FieldConfig, SchemaCatalog, Tokenizer};

#[test]
fn default_fields_are_the_product_table() {
    let text = FieldConfig::Text { tokenizer: Tokenizer::Default };
    assert_eq!(
        default_fields(),
        vec![
            ("id".to_string(), FieldConfig::Key),
            ("ctid".to_string(), FieldConfig::RowLocator),
            ("description".to_string(), text),
            ("rating".to_string(), FieldConfig::Numeric),
            ("category".to_string(), text),
            ("in_stock".to_string(), FieldConfig::Boolean),
            ("metadata".to_string(), FieldConfig::Json),
        ]
    );
}

#[test]
fn chinese_fields_are_the_message_table() {
    let text = FieldConfig::Text { tokenizer: Tokenizer::ChineseCompatible };
    assert_eq!(
        chinese_fields(),
        vec![
            ("id".to_string(), FieldConfig::Key),
            ("ctid".to_string(), FieldConfig::RowLocator),
            ("author".to_string(), text),
            ("title".to_string(), text),
            ("message".to_string(), FieldConfig::Numeric),
            ("content".to_string(), FieldConfig::Json),
            ("like_count".to_string(), FieldConfig::Numeric),
            ("dislike_count".to_string(), FieldConfig::Numeric),
            ("comment_count".to_string(), FieldConfig::Numeric),
            ("unix_timestamp_milli".to_string(), FieldConfig::Numeric),
        ]
    );
}

#[test]
fn simple_schema_is_the_built_catalog() {
    let schema = simple_schema(default_fields());
    assert_eq!(schema, SchemaCatalog::build(default_fields()).unwrap());
    assert!(schema.is_well_formed());
    assert_eq!(schema, default_schema());
    assert!(simple_schema(chinese_fields()).is_well_formed());
}

#[test]
fn hand_made_catalogs_are_tested_for_form() {
    let mut schema = default_schema();
    schema.key = 2;
    assert!(!schema.is_well_formed());
    let mut schema = default_schema();
    schema.fields[3].id = FieldId(4);
    assert!(!schema.is_well_formed());
    let mut schema = default_schema();
    schema.fields[4].name = "rating".to_string();
    assert!(!schema.is_well_formed());
    let mut schema = default_schema();
    schema.fields[5].config = FieldConfig::RowLocator;
    assert!(!schema.is_well_formed());
    let mut schema = default_schema();
    schema.locator = 7;
    assert!(!schema.is_well_formed());
    let mut schema = default_schema();
    schema.fields.clear();
    assert!(!schema.is_well_formed());
}

#[test]
fn simple_doc_holds_the_keyboard() {
    let document = simple_doc(&default_schema());
    let posting = |field: usize, value: Value| Posting { field: FieldId(field), value };
    assert_eq!(
        document.postings,
        vec![
            posting(0, Value::Signed(0)),
            posting(1, Value::Unsigned(0)),
            posting(2, Value::Text("Ergonomic metal keyboard".to_string())),
            posting(3, Value::Signed(4)),
            posting(4, Value::Text("Electronics".to_string())),
            posting(5, Value::Boolean(true)),
            posting(6, Value::Leaf(LeafScalar::Text("Silver".to_string()))),
            posting(6, Value::Leaf(LeafScalar::Text("United States".to_string()))),
        ]
    );
}
