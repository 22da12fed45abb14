//! Conversion of raw stored cells into typed index values.

use crate::document::{LeafModel, LeafScalar, Value, ValueModel, value_models};
use vstd::prelude::*;

verus! {

/// The element type that the row store declares for an attribute.
#[derive(Clone, Copy, Debug, PartialEq, Eq, Structural)]
pub enum BaseType {
    Bool,
    Int2,
    Int4,
    Int8,
    Oid,
    Text,
    Varchar,
    Json,
    Jsonb,
    /// A type of the row store for which nothing is known here, by its identifier.
    Other(u32),
}

/// The declared storage type of an attribute: its base type, and whether the
/// attribute is an array of it.
#[derive(Clone, Copy, Debug, PartialEq, Eq, Structural)]
pub struct StorageType {
    pub base: BaseType,
    pub is_array: bool,
}

/// The three ways in which a cell is turned into values.
#[derive(Clone, Copy, Debug, PartialEq, Eq, Structural)]
pub enum Shape {
    Scalar,
    Array,
    Structured,
}

/// A materialized cell of a primitive type.
#[derive(Clone, Debug, PartialEq, Eq)]
pub enum RawScalar {
    Bool(bool),
    Int(i64),
    UInt(u64),
    Text(String),
}

/// A named member of a nested object.
#[derive(Debug)]
pub struct Member {
    pub key: String,
    pub value: JsonNode,
}

/// A nested, json-like value.
#[derive(Debug)]
pub enum JsonNode {
    Null,
    Bool(bool),
    Int(i64),
    UInt(u64),
    Text(String),
    Array(Vec<JsonNode>),
    Object(Vec<Member>),
}

/// What the row store holds for one attribute of one row.
#[derive(Debug)]
pub enum RawCell {
    Null,
    Scalar(RawScalar),
    Array(Vec<Option<RawScalar>>),
    Structured(JsonNode),
}

/// In what way a cell did not fit its declared type.
#[derive(Clone, Copy, Debug, PartialEq, Eq, Structural)]
pub enum CoercionDetail {
    /// A scalar was declared and the cell holds none.
    NotScalar,
    /// An array was declared and the cell holds none.
    NotArray,
    /// A structured value was declared and the cell holds none.
    NotStructured,
    /// The cell holds a scalar of another kind than the declared one.
    KindMismatch,
    /// The cell holds a number outside the declared type's range.
    OutOfRange,
}

/// Why a row could not be projected.
#[derive(Clone, Debug, PartialEq, Eq)]
pub enum ProjectionError {
    KeyFieldNull(String),
    UnsupportedType(BaseType),
    CoercionFailure(CoercionDetail),
}

/// Mathematical model of a [`ProjectionError`].
pub enum ProjectionErrorModel {
    KeyFieldNull(Seq<char>),
    UnsupportedType(BaseType),
    CoercionFailure(CoercionDetail),
}

impl View for ProjectionError {
    type V = ProjectionErrorModel;

    open spec fn view(&self) -> ProjectionErrorModel {
        match *self {
            ProjectionError::KeyFieldNull(name) => ProjectionErrorModel::KeyFieldNull(name@),
            ProjectionError::UnsupportedType(t) => ProjectionErrorModel::UnsupportedType(t),
            ProjectionError::CoercionFailure(d) => ProjectionErrorModel::CoercionFailure(d),
        }
    }
}

/// The way in which cells of the declared type are converted: arrays first,
/// then the structured types, scalars otherwise.
pub open spec fn shape_of(declared: StorageType) -> Shape {
    if declared.is_array {
        Shape::Array
    } else if declared.base == BaseType::Json || declared.base == BaseType::Jsonb {
        Shape::Structured
    } else {
        Shape::Scalar
    }
}

/// The base types that have a scalar index value.
pub open spec fn scalar_supported(declared: BaseType) -> bool {
    match declared {
        BaseType::Bool
        | BaseType::Int2
        | BaseType::Int4
        | BaseType::Int8
        | BaseType::Oid
        | BaseType::Text
        | BaseType::Varchar => true,
        BaseType::Json | BaseType::Jsonb | BaseType::Other(_) => false,
    }
}

/// The least integer of a signed base type.
pub open spec fn least_of(declared: BaseType) -> int {
    match declared {
        BaseType::Int2 => -0x8000,
        BaseType::Int4 => -0x8000_0000,
        _ => -0x8000_0000_0000_0000,
    }
}

/// The greatest integer of a signed base type.
pub open spec fn greatest_of(declared: BaseType) -> int {
    match declared {
        BaseType::Int2 => 0x7fff,
        BaseType::Int4 => 0x7fff_ffff,
        _ => 0x7fff_ffff_ffff_ffff,
    }
}

/// The index value of one primitive cell under its declared type.
pub open spec fn scalar_value(raw: RawScalar, declared: BaseType) -> Result<
    ValueModel,
    ProjectionErrorModel,
> {
    match declared {
        BaseType::Bool => match raw {
            RawScalar::Bool(b) => Ok(ValueModel::Boolean(b)),
            _ => Err(ProjectionErrorModel::CoercionFailure(CoercionDetail::KindMismatch)),
        },
        BaseType::Int2 | BaseType::Int4 | BaseType::Int8 => match raw {
            RawScalar::Int(i) => if least_of(declared) <= i <= greatest_of(declared) {
                Ok(ValueModel::Signed(i))
            } else {
                Err(ProjectionErrorModel::CoercionFailure(CoercionDetail::OutOfRange))
            },
            _ => Err(ProjectionErrorModel::CoercionFailure(CoercionDetail::KindMismatch)),
        },
        BaseType::Oid => match raw {
            RawScalar::UInt(u) => if u <= 0xffff_ffff {
                Ok(ValueModel::Unsigned(u))
            } else {
                Err(ProjectionErrorModel::CoercionFailure(CoercionDetail::OutOfRange))
            },
            _ => Err(ProjectionErrorModel::CoercionFailure(CoercionDetail::KindMismatch)),
        },
        BaseType::Text | BaseType::Varchar => match raw {
            RawScalar::Text(s) => Ok(ValueModel::Text(s@)),
            _ => Err(ProjectionErrorModel::CoercionFailure(CoercionDetail::KindMismatch)),
        },
        BaseType::Json | BaseType::Jsonb | BaseType::Other(_) => Err(
            ProjectionErrorModel::UnsupportedType(declared),
        ),
    }
}

/// What [`ValueCoercer::scalar`] returns.
pub open spec fn scalar_spec(raw: RawCell, declared: BaseType) -> Result<
    ValueModel,
    ProjectionErrorModel,
> {
    if !scalar_supported(declared) {
        Err(ProjectionErrorModel::UnsupportedType(declared))
    } else {
        match raw {
            RawCell::Scalar(s) => scalar_value(s, declared),
            _ => Err(ProjectionErrorModel::CoercionFailure(CoercionDetail::NotScalar)),
        }
    }
}

/// The elements of an array that are not null, in storage order.
pub open spec fn present(items: Seq<Option<RawScalar>>) -> Seq<RawScalar>
    decreases items.len(),
{
    if items.len() == 0 {
        Seq::empty()
    } else {
        match items.last() {
            Some(s) => present(items.drop_last()).push(s),
            None => present(items.drop_last()),
        }
    }
}

/// The values of an array's elements: one per element that is not null, in
/// storage order, or the error of the first element that has no value.
pub open spec fn element_values(items: Seq<Option<RawScalar>>, element: BaseType) -> Result<
    Seq<ValueModel>,
    ProjectionErrorModel,
>
    decreases items.len(),
{
    if items.len() == 0 {
        Ok(Seq::empty())
    } else {
        match element_values(items.drop_last(), element) {
            Err(e) => Err(e),
            Ok(values) => match items.last() {
                None => Ok(values),
                Some(s) => match scalar_value(s, element) {
                    Ok(v) => Ok(values.push(v)),
                    Err(e) => Err(e),
                },
            },
        }
    }
}

/// What [`ValueCoercer::array`] returns.
pub open spec fn array_spec(raw: RawCell, element: BaseType) -> Result<
    Seq<ValueModel>,
    ProjectionErrorModel,
> {
    if !scalar_supported(element) {
        Err(ProjectionErrorModel::UnsupportedType(element))
    } else {
        match raw {
            RawCell::Array(items) => element_values(items@, element),
            _ => Err(ProjectionErrorModel::CoercionFailure(CoercionDetail::NotArray)),
        }
    }
}

/// The leaf scalars of a nested value in pre-order: an array's elements in
/// their order, an object's members in their order, each subtree whole before
/// the next begins. A null is no scalar and gives no leaf.
pub open spec fn leaves(node: JsonNode) -> Seq<ValueModel>
    decreases node, 0nat,
{
    match node {
        JsonNode::Null => Seq::empty(),
        JsonNode::Bool(b) => seq![ValueModel::Leaf(LeafModel::Boolean(b))],
        JsonNode::Int(i) => seq![ValueModel::Leaf(LeafModel::Signed(i))],
        JsonNode::UInt(u) => seq![ValueModel::Leaf(LeafModel::Unsigned(u))],
        JsonNode::Text(s) => seq![ValueModel::Leaf(LeafModel::Text(s@))],
        JsonNode::Array(items) => leaves_of_items(items@, items@.len()),
        JsonNode::Object(members) => leaves_of_members(members@, members@.len()),
    }
}

/// The leaves of the first `n` of `items`.
pub open spec fn leaves_of_items(items: Seq<JsonNode>, n: nat) -> Seq<ValueModel>
    decreases items, n,
{
    if n == 0 || n > items.len() {
        Seq::empty()
    } else {
        leaves_of_items(items, (n - 1) as nat) + leaves(items[n - 1])
    }
}

/// The leaves of the first `n` of `members`.
pub open spec fn leaves_of_members(members: Seq<Member>, n: nat) -> Seq<ValueModel>
    decreases members, n,
{
    if n == 0 || n > members.len() {
        Seq::empty()
    } else {
        leaves_of_members(members, (n - 1) as nat) + leaves(members[n - 1].value)
    }
}

/// What [`ValueCoercer::structured`] returns.
pub open spec fn structured_spec(raw: RawCell) -> Result<Seq<ValueModel>, ProjectionErrorModel> {
    match raw {
        RawCell::Structured(node) => Ok(leaves(node)),
        _ => Err(ProjectionErrorModel::CoercionFailure(CoercionDetail::NotStructured)),
    }
}

/// The conversions from raw cells to index values. They keep no state.
pub struct ValueCoercer;

impl ValueCoercer {
    /// The way in which cells of the declared type are converted.
    pub fn classify(declared: StorageType) -> (shape: Shape)
        ensures
            shape == shape_of(declared),
    {
        if declared.is_array {
            Shape::Array
        } else {
            match declared.base {
                BaseType::Json | BaseType::Jsonb => Shape::Structured,
                _ => Shape::Scalar,
            }
        }
    }

    /// Whether the base type has a scalar index value.
    pub fn supports(declared: BaseType) -> (supported: bool)
        ensures
            supported == scalar_supported(declared),
    {
        match declared {
            BaseType::Json | BaseType::Jsonb | BaseType::Other(_) => false,
            _ => true,
        }
    }

    /// The index value of one primitive cell under its declared type. Fails
    /// with `UnsupportedType` where the type has no scalar value, and with
    /// `CoercionFailure` where the cell is of another kind or out of range.
    pub fn primitive(raw: &RawScalar, declared: BaseType) -> (result: Result<
        Value,
        ProjectionError,
    >)
        ensures
            match result {
                Ok(value) => scalar_value(*raw, declared) == Ok::<_, ProjectionErrorModel>(value@),
                Err(e) => scalar_value(*raw, declared) == Err::<ValueModel, _>(e@),
            },
    {
        match declared {
            BaseType::Bool => match raw {
                RawScalar::Bool(b) => Ok(Value::Boolean(*b)),
                _ => Err(ProjectionError::CoercionFailure(CoercionDetail::KindMismatch)),
            },
            BaseType::Int2 => match raw {
                RawScalar::Int(i) => if -0x8000 <= *i && *i <= 0x7fff {
                    Ok(Value::Signed(*i))
                } else {
                    Err(ProjectionError::CoercionFailure(CoercionDetail::OutOfRange))
                },
                _ => Err(ProjectionError::CoercionFailure(CoercionDetail::KindMismatch)),
            },
            BaseType::Int4 => match raw {
                RawScalar::Int(i) => if -0x8000_0000 <= *i && *i <= 0x7fff_ffff {
                    Ok(Value::Signed(*i))
                } else {
                    Err(ProjectionError::CoercionFailure(CoercionDetail::OutOfRange))
                },
                _ => Err(ProjectionError::CoercionFailure(CoercionDetail::KindMismatch)),
            },
            BaseType::Int8 => match raw {
                RawScalar::Int(i) => Ok(Value::Signed(*i)),
                _ => Err(ProjectionError::CoercionFailure(CoercionDetail::KindMismatch)),
            },
            BaseType::Oid => match raw {
                RawScalar::UInt(u) => if *u <= 0xffff_ffff {
                    Ok(Value::Unsigned(*u))
                } else {
                    Err(ProjectionError::CoercionFailure(CoercionDetail::OutOfRange))
                },
                _ => Err(ProjectionError::CoercionFailure(CoercionDetail::KindMismatch)),
            },
            BaseType::Text | BaseType::Varchar => match raw {
                RawScalar::Text(s) => Ok(Value::Text(s.clone())),
                _ => Err(ProjectionError::CoercionFailure(CoercionDetail::KindMismatch)),
            },
            BaseType::Json | BaseType::Jsonb | BaseType::Other(_) => Err(
                ProjectionError::UnsupportedType(declared),
            ),
        }
    }

    /// One value for a cell that holds a scalar of the declared type.
    pub fn scalar(raw: &RawCell, declared: BaseType) -> (result: Result<Value, ProjectionError>)
        ensures
            match result {
                Ok(value) => scalar_spec(*raw, declared) == Ok::<_, ProjectionErrorModel>(value@),
                Err(e) => scalar_spec(*raw, declared) == Err::<ValueModel, _>(e@),
            },
    {
        if !Self::supports(declared) {
            return Err(ProjectionError::UnsupportedType(declared));
        }
        match raw {
            RawCell::Scalar(s) => Self::primitive(s, declared),
            _ => Err(ProjectionError::CoercionFailure(CoercionDetail::NotScalar)),
        }
    }

    /// One value for each element of the array that is not null, in storage
    /// order. An empty array gives no value and is no error.
    pub fn array(raw: &RawCell, element: BaseType) -> (result: Result<Vec<Value>, ProjectionError>)
        ensures
            match result {
                Ok(values) => array_spec(*raw, element) == Ok::<_, ProjectionErrorModel>(
                    value_models(values@),
                ),
                Err(e) => array_spec(*raw, element) == Err::<Seq<ValueModel>, _>(e@),
            },
    {
        if !Self::supports(element) {
            return Err(ProjectionError::UnsupportedType(element));
        }
        match raw {
            RawCell::Array(items) => {
                let mut values: Vec<Value> = Vec::new();
                let mut i: usize = 0;
                assert(value_models(values@) =~= Seq::empty());
                while i < items.len()
                    invariant
                        i <= items@.len(),
                        scalar_supported(element),
                        *raw == RawCell::Array(*items),
                        element_values(items@.take(i as int), element) == Ok::<
                            _,
                            ProjectionErrorModel,
                        >(value_models(values@)),
                    decreases items@.len() - i,
                {
                    proof {
                        assert(items@.take(i + 1).drop_last() =~= items@.take(i as int));
                    }
                    let ghost before = value_models(values@);
                    match &items[i] {
                        None => {},
                        Some(s) => match Self::primitive(s, element) {
                            Ok(v) => {
                                values.push(v);
                                assert(value_models(values@) =~= before.push(v@));
                            },
                            Err(e) => {
                                proof {
                                    assert(items@.take(i + 1).last() == items@[i as int]);
                                    assert(scalar_value(*s, element) == Err::<ValueModel, _>(e@));
                                    assert(element_values(items@.take(i + 1), element) == Err::<
                                        Seq<ValueModel>,
                                        _,
                                    >(e@));
                                    lemma_element_error_stays(items@, i + 1, element);
                                }
                                return Err(e);
                            },
                        },
                    }
                    i = i + 1;
                }
                proof {
                    assert(items@.take(i as int) =~= items@);
                }
                Ok(values)
            },
            _ => Err(ProjectionError::CoercionFailure(CoercionDetail::NotArray)),
        }
    }

    /// One value for each leaf scalar of a nested value, in pre-order.
    pub fn structured(raw: &RawCell) -> (result: Result<Vec<Value>, ProjectionError>)
        ensures
            match result {
                Ok(values) => structured_spec(*raw) == Ok::<_, ProjectionErrorModel>(
                    value_models(values@),
                ),
                Err(e) => structured_spec(*raw) == Err::<Seq<ValueModel>, _>(e@),
            },
    {
        match raw {
            RawCell::Structured(node) => {
                let mut values: Vec<Value> = Vec::new();
                assert(value_models(values@) =~= Seq::empty());
                collect_leaves(node, &mut values);
                assert(value_models(values@) =~= leaves(*node));
                Ok(values)
            },
            _ => Err(ProjectionError::CoercionFailure(CoercionDetail::NotStructured)),
        }
    }
}

/// An error among the first `n` elements is the error of the whole array.
pub proof fn lemma_element_error_stays(items: Seq<Option<RawScalar>>, n: int, element: BaseType)
    requires
        0 <= n <= items.len(),
        element_values(items.take(n), element) is Err,
    ensures
        element_values(items, element) == element_values(items.take(n), element),
    decreases items.len() - n,
{
    if n == items.len() {
        assert(items.take(n) =~= items);
    } else {
        assert(items.take(n + 1).drop_last() =~= items.take(n));
        lemma_element_error_stays(items, n + 1, element);
    }
}

/// Appends the leaves of `node` to `out`, in pre-order.
fn collect_leaves(node: &JsonNode, out: &mut Vec<Value>)
    ensures
        value_models(final(out)@) == value_models(old(out)@) + leaves(*node),
    decreases *node,
{
    let ghost before = value_models(out@);
    match node {
        JsonNode::Null => {
            assert(before + leaves(*node) =~= before);
        },
        JsonNode::Bool(b) => {
            out.push(Value::Leaf(LeafScalar::Boolean(*b)));
            assert(value_models(out@) =~= before + leaves(*node));
        },
        JsonNode::Int(i) => {
            out.push(Value::Leaf(LeafScalar::Signed(*i)));
            assert(value_models(out@) =~= before + leaves(*node));
        },
        JsonNode::UInt(u) => {
            out.push(Value::Leaf(LeafScalar::Unsigned(*u)));
            assert(value_models(out@) =~= before + leaves(*node));
        },
        JsonNode::Text(s) => {
            out.push(Value::Leaf(LeafScalar::Text(s.clone())));
            assert(value_models(out@) =~= before + leaves(*node));
        },
        JsonNode::Array(items) => {
            let mut i: usize = 0;
            assert(before + leaves_of_items(items@, 0) =~= before);
            while i < items.len()
                invariant
                    i <= items@.len(),
                    *node == JsonNode::Array(*items),
                    value_models(out@) == before + leaves_of_items(items@, i as nat),
                decreases items@.len() - i,
            {
                let ghost so_far = value_models(out@);
                proof {
                    assert(node->Array_0 == *items);
                    assert(decreases_to!(*node => node->Array_0));
                    assert(decreases_to!(node->Array_0 => node->Array_0@));
                    assert(decreases_to!(node->Array_0@ => node->Array_0@[i as int]));
                }
                collect_leaves(&items[i], out);
                assert(so_far + leaves(items@[i as int]) =~= before + leaves_of_items(
                    items@,
                    (i + 1) as nat,
                ));
                i = i + 1;
            }
        },
        JsonNode::Object(members) => {
            let mut i: usize = 0;
            assert(before + leaves_of_members(members@, 0) =~= before);
            while i < members.len()
                invariant
                    i <= members@.len(),
                    *node == JsonNode::Object(*members),
                    value_models(out@) == before + leaves_of_members(members@, i as nat),
                decreases members@.len() - i,
            {
                let ghost so_far = value_models(out@);
                proof {
                    assert(node->Object_0 == *members);
                    assert(decreases_to!(*node => node->Object_0));
                    assert(decreases_to!(node->Object_0 => node->Object_0@));
                    assert(decreases_to!(node->Object_0@ => node->Object_0@[i as int]));
                    assert(decreases_to!(node->Object_0@[i as int] => node->Object_0@[i as int].value));
                }
                collect_leaves(&members[i].value, out);
                assert(so_far + leaves(members@[i as int].value) =~= before + leaves_of_members(
                    members@,
                    (i + 1) as nat,
                ));
                i = i + 1;
            }
        },
    }
}

/// An array whose elements all have a value gives exactly one value for each
/// element that is not null, in the order of the elements.
pub proof fn law_array_values_in_order(
    items: Seq<Option<RawScalar>>,
    element: BaseType,
    values: Seq<ValueModel>,
)
    requires
        element_values(items, element) == Ok::<_, ProjectionErrorModel>(values),
    ensures
        values.len() == present(items).len(),
        forall|k: int|
            0 <= k < values.len() ==> scalar_value(#[trigger] present(items)[k], element) == Ok::<
                _,
                ProjectionErrorModel,
            >(values[k]),
    decreases items.len(),
{
    if items.len() > 0 {
        let rest = items.drop_last();
        let before = element_values(rest, element)->Ok_0;
        law_array_values_in_order(rest, element, before);
        match items.last() {
            None => {},
            Some(s) => {
                assert forall|k: int| 0 <= k < values.len() implies scalar_value(
                    #[trigger] present(items)[k],
                    element,
                ) == Ok::<_, ProjectionErrorModel>(values[k]) by {
                    if k < before.len() {
                        assert(present(items)[k] == present(rest)[k]);
                        assert(values[k] == before[k]);
                    }
                }
            },
        }
    }
}

/// An array without elements gives no value and no error, whatever supported
/// type its elements are declared with.
pub proof fn law_empty_array_gives_nothing(element: BaseType)
    requires
        scalar_supported(element),
    ensures
        element_values(Seq::empty(), element) == Ok::<_, ProjectionErrorModel>(
            Seq::<ValueModel>::empty(),
        ),
{
}

/// Number of leaf scalars of a nested value: one for each boolean, number
/// and text in it, none for a null or an empty array or object.
pub open spec fn leaf_count(node: JsonNode) -> nat
    decreases node, 0nat,
{
    match node {
        JsonNode::Null => 0,
        JsonNode::Bool(_) | JsonNode::Int(_) | JsonNode::UInt(_) | JsonNode::Text(_) => 1,
        JsonNode::Array(items) => leaf_count_of_items(items@, items@.len()),
        JsonNode::Object(members) => leaf_count_of_members(members@, members@.len()),
    }
}

/// Number of leaf scalars in the first `n` of `items`.
pub open spec fn leaf_count_of_items(items: Seq<JsonNode>, n: nat) -> nat
    decreases items, n,
{
    if n == 0 || n > items.len() {
        0
    } else {
        leaf_count_of_items(items, (n - 1) as nat) + leaf_count(items[n - 1])
    }
}

/// Number of leaf scalars in the first `n` of `members`.
pub open spec fn leaf_count_of_members(members: Seq<Member>, n: nat) -> nat
    decreases members, n,
{
    if n == 0 || n > members.len() {
        0
    } else {
        leaf_count_of_members(members, (n - 1) as nat) + leaf_count(members[n - 1].value)
    }
}

/// A nested value gives exactly one value for each of its leaf scalars.
pub proof fn law_one_value_per_leaf(node: JsonNode)
    ensures
        leaves(node).len() == leaf_count(node),
    decreases node, 0nat,
{
    match node {
        JsonNode::Array(items) => lemma_one_value_per_item_leaf(items@, items@.len()),
        JsonNode::Object(members) => lemma_one_value_per_member_leaf(members@, members@.len()),
        _ => {},
    }
}

/// The first `n` items give one value for each of their leaf scalars.
pub proof fn lemma_one_value_per_item_leaf(items: Seq<JsonNode>, n: nat)
    ensures
        leaves_of_items(items, n).len() == leaf_count_of_items(items, n),
    decreases items, n,
{
    if n != 0 && n <= items.len() {
        lemma_one_value_per_item_leaf(items, (n - 1) as nat);
        law_one_value_per_leaf(items[n - 1]);
    }
}

/// The first `n` members give one value for each of their leaf scalars.
pub proof fn lemma_one_value_per_member_leaf(members: Seq<Member>, n: nat)
    ensures
        leaves_of_members(members, n).len() == leaf_count_of_members(members, n),
    decreases members, n,
{
    if n != 0 && n <= members.len() {
        lemma_one_value_per_member_leaf(members, (n - 1) as nat);
        law_one_value_per_leaf(members[n - 1].value);
    }
}

} // verus!
