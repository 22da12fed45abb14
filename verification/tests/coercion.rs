use search_projection::coerce::{
    BaseType, CoercionDetail, JsonNode, Member, ProjectionError, RawCell, RawScalar, Shape,
    StorageType, ValueCoercer,
};
use search_projection::document::{LeafScalar, Value};

fn member(key: &str, value: JsonNode) -> Member {
    Member { key: key.to_string(), value }
}

fn leaf_text(s: &str) -> Value {
    Value::Leaf(LeafScalar::Text(s.to_string()))
}

#[test]
fn classify_puts_arrays_first() {
    let shape = |base, is_array| ValueCoercer::classify(StorageType { base, is_array });
    assert_eq!(shape(BaseType::Int4, false), Shape::Scalar);
    assert_eq!(shape(BaseType::Text, true), Shape::Array);
    assert_eq!(shape(BaseType::Json, false), Shape::Structured);
    assert_eq!(shape(BaseType::Jsonb, false), Shape::Structured);
    assert_eq!(shape(BaseType::Jsonb, true), Shape::Array);
    assert_eq!(shape(BaseType::Other(600), false), Shape::Scalar);
}

#[test]
fn scalar_of_each_supported_type() {
    let scalar = |raw, t| ValueCoercer::scalar(&RawCell::Scalar(raw), t);
    assert_eq!(scalar(RawScalar::Bool(true), BaseType::Bool), Ok(Value::Boolean(true)));
    assert_eq!(scalar(RawScalar::Int(-7), BaseType::Int2), Ok(Value::Signed(-7)));
    assert_eq!(scalar(RawScalar::Int(4), BaseType::Int4), Ok(Value::Signed(4)));
    assert_eq!(scalar(RawScalar::Int(i64::MIN), BaseType::Int8), Ok(Value::Signed(i64::MIN)));
    assert_eq!(scalar(RawScalar::UInt(16384), BaseType::Oid), Ok(Value::Unsigned(16384)));
    assert_eq!(
        scalar(RawScalar::Text("Electronics".to_string()), BaseType::Text),
        Ok(Value::Text("Electronics".to_string()))
    );
    assert_eq!(
        scalar(RawScalar::Text("".to_string()), BaseType::Varchar),
        Ok(Value::Text("".to_string()))
    );
}

#[test]
fn scalar_range_limits() {
    let scalar = |i, t| ValueCoercer::scalar(&RawCell::Scalar(RawScalar::Int(i)), t);
    let out_of_range = Err(ProjectionError::CoercionFailure(CoercionDetail::OutOfRange));
    assert_eq!(scalar(32767, BaseType::Int2), Ok(Value::Signed(32767)));
    assert_eq!(scalar(32768, BaseType::Int2), out_of_range);
    assert_eq!(scalar(-32768, BaseType::Int2), Ok(Value::Signed(-32768)));
    assert_eq!(scalar(-32769, BaseType::Int2), out_of_range);
    assert_eq!(scalar(2147483647, BaseType::Int4), Ok(Value::Signed(2147483647)));
    assert_eq!(scalar(2147483648, BaseType::Int4), out_of_range);
    assert_eq!(scalar(-2147483648, BaseType::Int4), Ok(Value::Signed(-2147483648)));
    assert_eq!(scalar(-2147483649, BaseType::Int4), out_of_range);
    assert_eq!(
        ValueCoercer::scalar(&RawCell::Scalar(RawScalar::UInt(4294967295)), BaseType::Oid),
        Ok(Value::Unsigned(4294967295))
    );
    assert_eq!(
        ValueCoercer::scalar(&RawCell::Scalar(RawScalar::UInt(4294967296)), BaseType::Oid),
        out_of_range
    );
}

#[test]
fn scalar_of_unsupported_type() {
    let raw = RawCell::Scalar(RawScalar::Int(1));
    assert_eq!(
        ValueCoercer::scalar(&raw, BaseType::Other(600)),
        Err(ProjectionError::UnsupportedType(BaseType::Other(600)))
    );
    assert_eq!(
        ValueCoercer::scalar(&raw, BaseType::Json),
        Err(ProjectionError::UnsupportedType(BaseType::Json))
    );
    assert_eq!(
        ValueCoercer::scalar(&RawCell::Null, BaseType::Jsonb),
        Err(ProjectionError::UnsupportedType(BaseType::Jsonb))
    );
}

#[test]
fn scalar_of_wrong_kind() {
    let mismatch = Err(ProjectionError::CoercionFailure(CoercionDetail::KindMismatch));
    let scalar = |raw, t| ValueCoercer::scalar(&RawCell::Scalar(raw), t);
    assert_eq!(scalar(RawScalar::Int(1), BaseType::Bool), mismatch);
    assert_eq!(scalar(RawScalar::Bool(true), BaseType::Int4), mismatch);
    assert_eq!(scalar(RawScalar::Int(1), BaseType::Oid), mismatch);
    assert_eq!(scalar(RawScalar::UInt(1), BaseType::Text), mismatch);
}

#[test]
fn scalar_of_a_cell_without_scalar() {
    let not_scalar = Err(ProjectionError::CoercionFailure(CoercionDetail::NotScalar));
    assert_eq!(ValueCoercer::scalar(&RawCell::Null, BaseType::Int4), not_scalar);
    assert_eq!(ValueCoercer::scalar(&RawCell::Array(vec![]), BaseType::Int4), not_scalar);
    assert_eq!(
        ValueCoercer::scalar(&RawCell::Structured(JsonNode::Null), BaseType::Text),
        not_scalar
    );
}

#[test]
fn array_skips_nulls_and_keeps_order() {
    let raw = RawCell::Array(vec![
        Some(RawScalar::Int(3)),
        None,
        Some(RawScalar::Int(1)),
        Some(RawScalar::Int(2)),
        None,
    ]);
    assert_eq!(
        ValueCoercer::array(&raw, BaseType::Int4),
        Ok(vec![Value::Signed(3), Value::Signed(1), Value::Signed(2)])
    );
}

#[test]
fn empty_array_gives_no_value() {
    assert_eq!(ValueCoercer::array(&RawCell::Array(vec![]), BaseType::Text), Ok(vec![]));
}

#[test]
fn array_of_nulls_gives_no_value() {
    assert_eq!(ValueCoercer::array(&RawCell::Array(vec![None, None]), BaseType::Bool), Ok(vec![]));
}

#[test]
fn array_errors() {
    assert_eq!(
        ValueCoercer::array(&RawCell::Array(vec![]), BaseType::Other(17)),
        Err(ProjectionError::UnsupportedType(BaseType::Other(17)))
    );
    assert_eq!(
        ValueCoercer::array(&RawCell::Array(vec![]), BaseType::Json),
        Err(ProjectionError::UnsupportedType(BaseType::Json))
    );
    assert_eq!(
        ValueCoercer::array(&RawCell::Scalar(RawScalar::Int(1)), BaseType::Int4),
        Err(ProjectionError::CoercionFailure(CoercionDetail::NotArray))
    );
    assert_eq!(
        ValueCoercer::array(&RawCell::Null, BaseType::Int4),
        Err(ProjectionError::CoercionFailure(CoercionDetail::NotArray))
    );
}

#[test]
fn array_reports_its_first_bad_element() {
    let raw = RawCell::Array(vec![
        Some(RawScalar::Int(1)),
        Some(RawScalar::Int(40000)),
        Some(RawScalar::Bool(true)),
    ]);
    assert_eq!(
        ValueCoercer::array(&raw, BaseType::Int2),
        Err(ProjectionError::CoercionFailure(CoercionDetail::OutOfRange))
    );
    let raw = RawCell::Array(vec![Some(RawScalar::Bool(true)), Some(RawScalar::Int(40000))]);
    assert_eq!(
        ValueCoercer::array(&raw, BaseType::Int2),
        Err(ProjectionError::CoercionFailure(CoercionDetail::KindMismatch))
    );
}

#[test]
fn structured_gives_one_value_per_leaf() {
    let raw = RawCell::Structured(JsonNode::Object(vec![
        member("color", JsonNode::Text("Silver".to_string())),
        member("location", JsonNode::Text("United States".to_string())),
    ]));
    assert_eq!(
        ValueCoercer::structured(&raw),
        Ok(vec![leaf_text("Silver"), leaf_text("United States")])
    );
}

#[test]
fn structured_walks_in_pre_order() {
    let raw = RawCell::Structured(JsonNode::Object(vec![
        member("a", JsonNode::Array(vec![
            JsonNode::Int(-1),
            JsonNode::Object(vec![
                member("b", JsonNode::Bool(false)),
                member("c", JsonNode::Null),
                member("d", JsonNode::Array(vec![])),
            ]),
            JsonNode::UInt(2),
        ])),
        member("e", JsonNode::Object(vec![])),
        member("f", JsonNode::Text("last".to_string())),
    ]));
    assert_eq!(
        ValueCoercer::structured(&raw),
        Ok(vec![
            Value::Leaf(LeafScalar::Signed(-1)),
            Value::Leaf(LeafScalar::Boolean(false)),
            Value::Leaf(LeafScalar::Unsigned(2)),
            leaf_text("last"),
        ])
    );
}

#[test]
fn structured_of_a_bare_scalar() {
    assert_eq!(
        ValueCoercer::structured(&RawCell::Structured(JsonNode::Bool(true))),
        Ok(vec![Value::Leaf(LeafScalar::Boolean(true))])
    );
    assert_eq!(ValueCoercer::structured(&RawCell::Structured(JsonNode::Null)), Ok(vec![]));
}

#[test]
fn structured_of_a_cell_without_structure() {
    let not_structured = Err(ProjectionError::CoercionFailure(CoercionDetail::NotStructured));
    assert_eq!(ValueCoercer::structured(&RawCell::Null), not_structured);
    assert_eq!(ValueCoercer::structured(&RawCell::Array(vec![])), not_structured);
    assert_eq!(
        ValueCoercer::structured(&RawCell::Scalar(RawScalar::Text("{}".to_string()))),
        not_structured
    );
}
