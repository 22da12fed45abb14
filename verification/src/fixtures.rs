//! Ready-made field lists, catalog and document for trying the library out.

use crate::document::{Document, FieldId, LeafModel, LeafScalar, PostingModel, Value, ValueModel};
use crate::schema::{
    build_error, config_count, names_distinct, FieldConfig, SchemaCatalog, Tokenizer,
};
use vstd::prelude::*;

verus! {

/// Name and config of one field definition, as models.
pub open spec fn definition(def: (String, FieldConfig)) -> (Seq<char>, FieldConfig) {
    (def.0@, def.1)
}

/// The names and configs of a small product table.
pub open spec fn default_definitions() -> Seq<(Seq<char>, FieldConfig)> {
    seq![
        ("id"@, FieldConfig::Key),
        ("ctid"@, FieldConfig::RowLocator),
        ("description"@, FieldConfig::Text { tokenizer: Tokenizer::Default }),
        ("rating"@, FieldConfig::Numeric),
        ("category"@, FieldConfig::Text { tokenizer: Tokenizer::Default }),
        ("in_stock"@, FieldConfig::Boolean),
        ("metadata"@, FieldConfig::Json),
    ]
}

/// The names and configs of a message table whose texts are split by the
/// tokenizer for Chinese.
pub open spec fn chinese_definitions() -> Seq<(Seq<char>, FieldConfig)> {
    seq![
        ("id"@, FieldConfig::Key),
        ("ctid"@, FieldConfig::RowLocator),
        ("author"@, FieldConfig::Text { tokenizer: Tokenizer::ChineseCompatible }),
        ("title"@, FieldConfig::Text { tokenizer: Tokenizer::ChineseCompatible }),
        ("message"@, FieldConfig::Numeric),
        ("content"@, FieldConfig::Json),
        ("like_count"@, FieldConfig::Numeric),
        ("dislike_count"@, FieldConfig::Numeric),
        ("comment_count"@, FieldConfig::Numeric),
        ("unix_timestamp_milli"@, FieldConfig::Numeric),
    ]
}

/// `fields` holds exactly the names and configs of `definitions`, in order.
pub open spec fn defines(
    fields: Seq<(String, FieldConfig)>,
    definitions: Seq<(Seq<char>, FieldConfig)>,
) -> bool {
    &&& fields.len() == definitions.len()
    &&& forall|i: int| 0 <= i < fields.len() ==> definition(#[trigger] fields[i]) == definitions[i]
}

/// The field definitions of the product table.
pub fn default_fields() -> (fields: Vec<(String, FieldConfig)>)
    ensures
        defines(fields@, default_definitions()),
{
    let text = FieldConfig::Text { tokenizer: Tokenizer::Default };
    let numeric = FieldConfig::Numeric;
    let json = FieldConfig::Json;
    let boolean = FieldConfig::Boolean;
    let mut fields: Vec<(String, FieldConfig)> = Vec::new();
    fields.push(("id".to_owned(), FieldConfig::Key));
    fields.push(("ctid".to_owned(), FieldConfig::RowLocator));
    fields.push(("description".to_owned(), text));
    fields.push(("rating".to_owned(), numeric));
    fields.push(("category".to_owned(), text));
    fields.push(("in_stock".to_owned(), boolean));
    fields.push(("metadata".to_owned(), json));
    fields
}

/// The field definitions of the message table.
pub fn chinese_fields() -> (fields: Vec<(String, FieldConfig)>)
    ensures
        defines(fields@, chinese_definitions()),
{
    let text = FieldConfig::Text { tokenizer: Tokenizer::ChineseCompatible };
    let numeric = FieldConfig::Numeric;
    let json = FieldConfig::Json;
    let mut fields: Vec<(String, FieldConfig)> = Vec::new();
    fields.push(("id".to_owned(), FieldConfig::Key));
    fields.push(("ctid".to_owned(), FieldConfig::RowLocator));
    fields.push(("author".to_owned(), text));
    fields.push(("title".to_owned(), text));
    fields.push(("message".to_owned(), numeric));
    fields.push(("content".to_owned(), json));
    fields.push(("like_count".to_owned(), numeric));
    fields.push(("dislike_count".to_owned(), numeric));
    fields.push(("comment_count".to_owned(), numeric));
    fields.push(("unix_timestamp_milli".to_owned(), numeric));
    fields
}

/// The product table's definitions make a catalog: one key, one row locator,
/// and seven names that all differ.
pub proof fn law_default_fields_make_a_catalog(fields: Seq<(String, FieldConfig)>)
    requires
        defines(fields, default_definitions()),
    ensures
        build_error(fields) is None,
{
    reveal_strlit("id");
    reveal_strlit("ctid");
    reveal_strlit("description");
    reveal_strlit("rating");
    reveal_strlit("category");
    reveal_strlit("in_stock");
    reveal_strlit("metadata");
    assert("category"@[0] == 'c' && "in_stock"@[0] == 'i' && "metadata"@[0] == 'm');
    assert(definition(fields[0]) == default_definitions()[0]);
    assert(definition(fields[1]) == default_definitions()[1]);
    assert(definition(fields[2]) == default_definitions()[2]);
    assert(definition(fields[3]) == default_definitions()[3]);
    assert(definition(fields[4]) == default_definitions()[4]);
    assert(definition(fields[5]) == default_definitions()[5]);
    assert(definition(fields[6]) == default_definitions()[6]);
    let f6 = fields.drop_last();
    let f5 = f6.drop_last();
    let f4 = f5.drop_last();
    let f3 = f4.drop_last();
    let f2 = f3.drop_last();
    let f1 = f2.drop_last();
    let f0 = f1.drop_last();
    assert(config_count(f0, FieldConfig::Key) == 0);
    assert(config_count(f1, FieldConfig::Key) == 1);
    assert(config_count(f2, FieldConfig::Key) == 1);
    assert(config_count(f3, FieldConfig::Key) == 1);
    assert(config_count(f4, FieldConfig::Key) == 1);
    assert(config_count(f5, FieldConfig::Key) == 1);
    assert(config_count(f6, FieldConfig::Key) == 1);
    assert(config_count(fields, FieldConfig::Key) == 1);
    assert(config_count(f0, FieldConfig::RowLocator) == 0);
    assert(config_count(f1, FieldConfig::RowLocator) == 0);
    assert(config_count(f2, FieldConfig::RowLocator) == 1);
    assert(config_count(f3, FieldConfig::RowLocator) == 1);
    assert(config_count(f4, FieldConfig::RowLocator) == 1);
    assert(config_count(f5, FieldConfig::RowLocator) == 1);
    assert(config_count(f6, FieldConfig::RowLocator) == 1);
    assert(config_count(fields, FieldConfig::RowLocator) == 1);
    assert forall|i: int, j: int| 0 <= i < j < fields.len() implies (#[trigger] fields[i]).0@ != (
    #[trigger] fields[j]).0@ by {
        assert(definition(fields[0]).0.len() == 2);
        assert(definition(fields[1]).0.len() == 4);
        assert(definition(fields[2]).0.len() == 11);
        assert(definition(fields[3]).0.len() == 6);
        assert(definition(fields[4]).0.len() == 8 && definition(fields[4]).0[0] == 'c');
        assert(definition(fields[5]).0.len() == 8 && definition(fields[5]).0[0] == 'i');
        assert(definition(fields[6]).0.len() == 8 && definition(fields[6]).0[0] == 'm');
    }
}

/// The catalog of the product table.
pub fn default_schema() -> (schema: SchemaCatalog)
    ensures
        schema.wf(),
        schema.fields@.len() == 7,
        forall|i: int|
            0 <= i < 7 ==> ((#[trigger] schema.fields@[i]).name@, schema.fields@[i].config)
                == default_definitions()[i],
        schema.key == 0,
        schema.locator == 1,
{
    let fields = default_fields();
    proof {
        law_default_fields_make_a_catalog(fields@);
    }
    let schema = simple_schema(fields);
    proof {
        assert forall|i: int| 0 <= i < 7 implies ((#[trigger] schema.fields@[i]).name@, schema.fields@[i].config)
            == default_definitions()[i] by {
            assert(definition(fields@[i]) == default_definitions()[i]);
        }
        assert(schema.fields@[0].config == FieldConfig::Key);
        assert(schema.fields@[1].config == FieldConfig::RowLocator);
    }
    schema
}

/// The catalog of a list of definitions that is known to be one.
pub fn simple_schema(default_fields: Vec<(String, FieldConfig)>) -> (schema: SchemaCatalog)
    requires
        build_error(default_fields@) is None,
    ensures
        schema.wf(),
        schema.fields@.len() == default_fields@.len(),
        forall|i: int|
            0 <= i < default_fields@.len() ==> {
                &&& (#[trigger] schema.fields@[i]).name@ == default_fields@[i].0@
                &&& schema.fields@[i].config == default_fields@[i].1
            },
{
    match SchemaCatalog::build(default_fields) {
        Ok(schema) => schema,
        Err(_) => vstd::pervasive::unreached(),
    }
}

/// The postings of [`simple_doc`] for a catalog's first seven field ids.
pub open spec fn simple_postings() -> Seq<PostingModel> {
    seq![
        (FieldId(0), ValueModel::Signed(0)),
        (FieldId(1), ValueModel::Unsigned(0)),
        (FieldId(2), ValueModel::Text("Ergonomic metal keyboard"@)),
        (FieldId(3), ValueModel::Signed(4)),
        (FieldId(4), ValueModel::Text("Electronics"@)),
        (FieldId(5), ValueModel::Boolean(true)),
        (FieldId(6), ValueModel::Leaf(LeafModel::Text("Silver"@))),
        (FieldId(6), ValueModel::Leaf(LeafModel::Text("United States"@))),
    ]
}

/// The document of one keyboard, filed under the first seven fields of a
/// catalog that has as many.
pub fn simple_doc(simple_schema: &SchemaCatalog) -> (document: Document)
    requires
        simple_schema.wf(),
        simple_schema.fields@.len() >= 7,
    ensures
        document@ == simple_postings(),
{
    let mut search_document = simple_schema.new_document();
    let fields = &simple_schema.fields;
    search_document.insert(fields[0].id, Value::Signed(0));
    search_document.insert(fields[1].id, Value::Unsigned(0));
    search_document.insert(fields[2].id, Value::Text("Ergonomic metal keyboard".to_owned()));
    search_document.insert(fields[3].id, Value::Signed(4));
    search_document.insert(fields[4].id, Value::Text("Electronics".to_owned()));
    search_document.insert(fields[5].id, Value::Boolean(true));
    search_document.insert(fields[6].id, Value::Leaf(LeafScalar::Text("Silver".to_owned())));
    search_document.insert(
        fields[6].id,
        Value::Leaf(LeafScalar::Text("United States".to_owned())),
    );
    assert(search_document@ =~= simple_postings());
    search_document
}

} // verus!
