//! Index values, postings and the document that collects them.

use vstd::prelude::*;

verus! {

/// Identifier of an indexed field: its position in the catalog's field list.
#[derive(Clone, Copy, Debug, PartialEq, Eq, Structural)]
pub struct FieldId(pub usize);

/// A scalar found at a leaf of a structured value.
#[derive(Clone, Debug, PartialEq, Eq)]
pub enum LeafScalar {
    Signed(i64),
    Unsigned(u64),
    Text(String),
    Boolean(bool),
}

/// One typed index value. There is no null: a null is the absence of a posting.
#[derive(Clone, Debug, PartialEq, Eq)]
pub enum Value {
    Signed(i64),
    Unsigned(u64),
    Text(String),
    Boolean(bool),
    Leaf(LeafScalar),
}

/// Mathematical model of a [`LeafScalar`].
pub enum LeafModel {
    Signed(i64),
    Unsigned(u64),
    Text(Seq<char>),
    Boolean(bool),
}

/// Mathematical model of a [`Value`].
pub enum ValueModel {
    Signed(i64),
    Unsigned(u64),
    Text(Seq<char>),
    Boolean(bool),
    Leaf(LeafModel),
}

impl View for LeafScalar {
    type V = LeafModel;

    open spec fn view(&self) -> LeafModel {
        match *self {
            LeafScalar::Signed(i) => LeafModel::Signed(i),
            LeafScalar::Unsigned(u) => LeafModel::Unsigned(u),
            LeafScalar::Text(s) => LeafModel::Text(s@),
            LeafScalar::Boolean(b) => LeafModel::Boolean(b),
        }
    }
}

impl View for Value {
    type V = ValueModel;

    open spec fn view(&self) -> ValueModel {
        match *self {
            Value::Signed(i) => ValueModel::Signed(i),
            Value::Unsigned(u) => ValueModel::Unsigned(u),
            Value::Text(s) => ValueModel::Text(s@),
            Value::Boolean(b) => ValueModel::Boolean(b),
            Value::Leaf(l) => ValueModel::Leaf(l@),
        }
    }
}

/// The models of a sequence of values, element by element.
pub open spec fn value_models(values: Seq<Value>) -> Seq<ValueModel> {
    Seq::new(values.len(), |i: int| values[i]@)
}

/// One entry of a document: a value filed under a field id.
#[derive(Clone, Debug, PartialEq, Eq)]
pub struct Posting {
    pub field: FieldId,
    pub value: Value,
}

/// Mathematical model of a posting.
pub type PostingModel = (FieldId, ValueModel);

impl View for Posting {
    type V = PostingModel;

    open spec fn view(&self) -> PostingModel {
        (self.field, self.value@)
    }
}

/// The values that `postings` files under `id`, in insertion order.
pub open spec fn values_under(postings: Seq<PostingModel>, id: FieldId) -> Seq<ValueModel>
    decreases postings.len(),
{
    if postings.len() == 0 {
        Seq::empty()
    } else if postings.last().0 == id {
        values_under(postings.drop_last(), id).push(postings.last().1)
    } else {
        values_under(postings.drop_last(), id)
    }
}

/// `values` filed one by one under `id`.
pub open spec fn filed_under(id: FieldId, values: Seq<ValueModel>) -> Seq<PostingModel> {
    Seq::new(values.len(), |i: int| (id, values[i]))
}

/// The values under `id` of a concatenation are those of the first part
/// followed by those of the second.
pub proof fn lemma_values_under_concat(a: Seq<PostingModel>, b: Seq<PostingModel>, id: FieldId)
    ensures
        values_under(a + b, id) == values_under(a, id) + values_under(b, id),
    decreases b.len(),
{
    if b.len() == 0 {
        assert(a + b =~= a);
        assert(values_under(a, id) + values_under(b, id) =~= values_under(a, id));
    } else {
        assert((a + b).drop_last() =~= a + b.drop_last());
        assert((a + b).last() == b.last());
        lemma_values_under_concat(a, b.drop_last(), id);
        if b.last().0 == id {
            assert(values_under(a + b, id) =~= values_under(a, id) + values_under(b, id));
        }
    }
}

/// Values filed under one id are found again under it, and under no other.
pub proof fn lemma_values_under_filed(id: FieldId, values: Seq<ValueModel>, other: FieldId)
    ensures
        values_under(filed_under(id, values), other) == if other == id {
            values
        } else {
            Seq::empty()
        },
    decreases values.len(),
{
    let filed = filed_under(id, values);
    if values.len() > 0 {
        assert(filed.drop_last() =~= filed_under(id, values.drop_last()));
        lemma_values_under_filed(id, values.drop_last(), other);
        if other == id {
            assert(values_under(filed, other) =~= values);
        }
    } else {
        assert(values =~= Seq::empty());
    }
}

/// A bag of postings derived from one row. Several postings may share a field
/// id; their insertion order is kept.
#[derive(Clone, Debug, PartialEq, Eq)]
pub struct Document {
    pub postings: Vec<Posting>,
}

impl View for Document {
    type V = Seq<PostingModel>;

    open spec fn view(&self) -> Seq<PostingModel> {
        Seq::new(self.postings@.len(), |i: int| self.postings@[i]@)
    }
}

impl Document {
    /// A document without postings.
    pub fn new() -> (doc: Document)
        ensures
            doc@ == Seq::<PostingModel>::empty(),
    {
        let doc = Document { postings: Vec::new() };
        assert(doc@ =~= Seq::<PostingModel>::empty());
        doc
    }

    /// Files `value` under `field`, after every posting already present.
    pub fn insert(&mut self, field: FieldId, value: Value)
        ensures
            final(self)@ == old(self)@.push((field, value@)),
    {
        self.postings.push(Posting { field, value });
        assert(self@ =~= old(self)@.push((field, value@)));
    }

    /// Number of postings in the document.
    pub fn len(&self) -> (n: usize)
        ensures
            n == self@.len(),
    {
        self.postings.len()
    }

    /// Whether the document has no posting.
    pub fn is_empty(&self) -> (empty: bool)
        ensures
            empty == (self@.len() == 0),
    {
        self.postings.len() == 0
    }

    /// Number of postings filed under `field`.
    pub fn count(&self, field: FieldId) -> (n: usize)
        ensures
            n == values_under(self@, field).len(),
    {
        let mut n: usize = 0;
        let mut i: usize = 0;
        while i < self.postings.len()
            invariant
                i <= self.postings.len(),
                n <= i,
                n == values_under(self@.take(i as int), field).len(),
            decreases self.postings.len() - i,
        {
            proof {
                assert(self@.take(i + 1).drop_last() =~= self@.take(i as int));
            }
            if self.postings[i].field.0 == field.0 {
                n = n + 1;
            }
            i = i + 1;
        }
        proof {
            assert(self@.take(i as int) =~= self@);
        }
        n
    }

    /// The values filed under `field`, in insertion order.
    pub fn values(&self, field: FieldId) -> (found: Vec<Value>)
        ensures
            value_models(found@) == values_under(self@, field),
    {
        let mut found: Vec<Value> = Vec::new();
        let mut i: usize = 0;
        while i < self.postings.len()
            invariant
                i <= self.postings.len(),
                value_models(found@) =~= values_under(self@.take(i as int), field),
            decreases self.postings.len() - i,
        {
            proof {
                assert(self@.take(i + 1).drop_last() =~= self@.take(i as int));
            }
            if self.postings[i].field.0 == field.0 {
                let value = clone_value(&self.postings[i].value);
                found.push(value);
            }
            i = i + 1;
        }
        proof {
            assert(self@.take(i as int) =~= self@);
        }
        found
    }
}

/// A copy of a leaf scalar with the same model.
pub fn clone_leaf(leaf: &LeafScalar) -> (copy: LeafScalar)
    ensures
        copy@ == leaf@,
{
    match leaf {
        LeafScalar::Signed(i) => LeafScalar::Signed(*i),
        LeafScalar::Unsigned(u) => LeafScalar::Unsigned(*u),
        LeafScalar::Text(s) => LeafScalar::Text(s.clone()),
        LeafScalar::Boolean(b) => LeafScalar::Boolean(*b),
    }
}

/// A copy of a value with the same model.
pub fn clone_value(value: &Value) -> (copy: Value)
    ensures
        copy@ == value@,
{
    match value {
        Value::Signed(i) => Value::Signed(*i),
        Value::Unsigned(u) => Value::Unsigned(*u),
        Value::Text(s) => Value::Text(s.clone()),
        Value::Boolean(b) => Value::Boolean(*b),
        Value::Leaf(l) => Value::Leaf(clone_leaf(l)),
    }
}

} // verus!
