use search_projection::document::FieldId;
use search_projection::fixtures::{chinese_fields, default_fields, simple_schema};
use search_projection::schema::{FieldConfig, SchemaCatalog, SchemaError, Tokenizer};

fn text() -> FieldConfig {
    FieldConfig::Text { tokenizer: Tokenizer::Default }
}

#[test]
fn build_assigns_ids_in_list_order() {
    let catalog = simple_schema(default_fields());
    assert_eq!(catalog.fields.len(), 7);
    for (i, field) in catalog.fields.iter().enumerate() {
        assert_eq!(field.id, FieldId(i));
        assert_eq!(field.name, default_fields()[i].0);
        assert_eq!(field.config, default_fields()[i].1);
    }
    assert_eq!(catalog.key, 0);
    assert_eq!(catalog.locator, 1);
}

#[test]
fn build_keeps_tokenizers() {
    let catalog = SchemaCatalog::build(chinese_fields()).unwrap();
    assert_eq!(catalog.fields.len(), 10);
    assert_eq!(
        catalog.lookup(&"title".to_string()),
        Some((FieldConfig::Text { tokenizer: Tokenizer::ChineseCompatible }, FieldId(3)))
    );
    assert_eq!(
        catalog.lookup(&"unix_timestamp_milli".to_string()),
        Some((FieldConfig::Numeric, FieldId(9)))
    );
}

#[test]
fn reserved_fields_are_found() {
    let catalog = simple_schema(default_fields());
    assert_eq!(catalog.key_field().name, "id");
    assert_eq!(catalog.key_field().config, FieldConfig::Key);
    assert_eq!(catalog.key_field().id, FieldId(0));
    assert_eq!(catalog.locator_field().name, "ctid");
    assert_eq!(catalog.locator_field().config, FieldConfig::RowLocator);
    assert_eq!(catalog.locator_field().id, FieldId(1));
}

#[test]
fn reserved_fields_need_not_come_first() {
    let catalog = SchemaCatalog::build(vec![
        ("body".to_string(), text()),
        ("where".to_string(), FieldConfig::RowLocator),
        ("pk".to_string(), FieldConfig::Key),
    ])
    .unwrap();
    assert_eq!(catalog.key_field().id, FieldId(2));
    assert_eq!(catalog.locator_field().id, FieldId(1));
}

#[test]
fn lookup_finds_config_and_id() {
    let catalog = simple_schema(default_fields());
    assert_eq!(catalog.lookup(&"rating".to_string()), Some((FieldConfig::Numeric, FieldId(3))));
    assert_eq!(catalog.lookup(&"metadata".to_string()), Some((FieldConfig::Json, FieldId(6))));
    assert_eq!(catalog.lookup(&"id".to_string()), Some((FieldConfig::Key, FieldId(0))));
}

#[test]
fn lookup_of_unknown_name_is_none() {
    let catalog = simple_schema(default_fields());
    assert_eq!(catalog.lookup(&"price".to_string()), None);
    assert_eq!(catalog.lookup(&"".to_string()), None);
    assert_eq!(catalog.lookup(&"Rating".to_string()), None);
}

#[test]
fn new_document_is_empty() {
    let catalog = simple_schema(default_fields());
    let doc = catalog.new_document();
    assert!(doc.is_empty());
    assert_eq!(doc.len(), 0);
}

#[test]
fn empty_list_is_rejected() {
    assert_eq!(SchemaCatalog::build(vec![]).unwrap_err(), SchemaError::Empty);
}

#[test]
fn missing_key_is_rejected() {
    let defs = vec![("ctid".to_string(), FieldConfig::RowLocator), ("body".to_string(), text())];
    assert_eq!(SchemaCatalog::build(defs).unwrap_err(), SchemaError::MissingKey);
}

#[test]
fn second_key_is_rejected() {
    let defs = vec![
        ("id".to_string(), FieldConfig::Key),
        ("ctid".to_string(), FieldConfig::RowLocator),
        ("other".to_string(), FieldConfig::Key),
    ];
    assert_eq!(SchemaCatalog::build(defs).unwrap_err(), SchemaError::DuplicateKey);
}

#[test]
fn missing_locator_is_rejected() {
    let defs = vec![("id".to_string(), FieldConfig::Key), ("body".to_string(), text())];
    assert_eq!(SchemaCatalog::build(defs).unwrap_err(), SchemaError::MissingLocator);
}

#[test]
fn second_locator_is_rejected() {
    let defs = vec![
        ("id".to_string(), FieldConfig::Key),
        ("ctid".to_string(), FieldConfig::RowLocator),
        ("ctid2".to_string(), FieldConfig::RowLocator),
    ];
    assert_eq!(SchemaCatalog::build(defs).unwrap_err(), SchemaError::DuplicateLocator);
}

#[test]
fn repeated_name_is_rejected() {
    let defs = vec![
        ("id".to_string(), FieldConfig::Key),
        ("ctid".to_string(), FieldConfig::RowLocator),
        ("body".to_string(), text()),
        ("body".to_string(), FieldConfig::Numeric),
    ];
    assert_eq!(SchemaCatalog::build(defs).unwrap_err(), SchemaError::DuplicateName);
}

#[test]
fn role_errors_come_before_name_errors() {
    let defs = vec![
        ("body".to_string(), text()),
        ("body".to_string(), FieldConfig::RowLocator),
    ];
    assert_eq!(SchemaCatalog::build(defs).unwrap_err(), SchemaError::MissingKey);
}
