//! Projection of one row into a document.

use crate::coerce::{
    array_spec, element_values, law_array_values_in_order, leaves, present, scalar_spec,
    scalar_value, shape_of, structured_spec, JsonNode, ProjectionError, ProjectionErrorModel,
    RawCell, RawScalar, Shape, StorageType, ValueCoercer,
};
use crate::document::{
    clone_value, filed_under, lemma_values_under_concat, lemma_values_under_filed, value_models,
    values_under, Document, FieldId, PostingModel, Value, ValueModel,
};
use crate::locator::RowLocator;
use crate::schema::{lemma_position_holds_name, lemma_position_of_field, SchemaCatalog};
use vstd::prelude::*;

verus! {

/// One attribute of a row, as the row store hands it over.
#[derive(Debug)]
pub struct Attribute {
    pub name: String,
    pub declared: StorageType,
    pub raw: RawCell,
}

/// The values of a cell that is not null, by the shape of its declared type.
pub open spec fn cell_values(raw: RawCell, declared: StorageType) -> Result<
    Seq<ValueModel>,
    ProjectionErrorModel,
> {
    match shape_of(declared) {
        Shape::Array => array_spec(raw, declared.base),
        Shape::Structured => structured_spec(raw),
        Shape::Scalar => match scalar_spec(raw, declared.base) {
            Ok(v) => Ok(seq![v]),
            Err(e) => Err(e),
        },
    }
}

/// The postings that one attribute contributes: none where its name is not
/// in the catalog, none for a null that is not the key's, one per value
/// otherwise; or the error that ends the projection.
pub open spec fn attribute_postings(attr: Attribute, catalog: SchemaCatalog) -> Result<
    Seq<PostingModel>,
    ProjectionErrorModel,
> {
    match catalog.position(attr.name@) {
        None => Ok(Seq::empty()),
        Some(p) => if attr.raw is Null {
            if p == catalog.key {
                Err(ProjectionErrorModel::KeyFieldNull(attr.name@))
            } else {
                Ok(Seq::empty())
            }
        } else {
            match cell_values(attr.raw, attr.declared) {
                Ok(values) => Ok(filed_under(FieldId(p as usize), values)),
                Err(e) => Err(e),
            }
        },
    }
}

/// One result after another: the first error, or both lists of postings.
pub open spec fn chain(
    first: Result<Seq<PostingModel>, ProjectionErrorModel>,
    second: Result<Seq<PostingModel>, ProjectionErrorModel>,
) -> Result<Seq<PostingModel>, ProjectionErrorModel> {
    match first {
        Err(e) => Err(e),
        Ok(p) => match second {
            Err(e) => Err(e),
            Ok(q) => Ok(p + q),
        },
    }
}

/// The postings of the attributes of a row, in ordinal order, or the error of
/// the first attribute that has one.
pub open spec fn row_postings(row: Seq<Attribute>, catalog: SchemaCatalog) -> Result<
    Seq<PostingModel>,
    ProjectionErrorModel,
>
    decreases row.len(),
{
    if row.len() == 0 {
        Ok(Seq::empty())
    } else {
        chain(row_postings(row.drop_last(), catalog), attribute_postings(row.last(), catalog))
    }
}

/// The posting that carries the row's locator.
pub open spec fn locator_posting(locator: RowLocator, catalog: SchemaCatalog) -> PostingModel {
    (catalog.locator_id(), ValueModel::Unsigned(locator.packed()))
}

/// The document of a row: the postings of its attributes, then the locator's.
pub open spec fn projection(
    locator: RowLocator,
    row: Seq<Attribute>,
    catalog: SchemaCatalog,
) -> Result<Seq<PostingModel>, ProjectionErrorModel> {
    match row_postings(row, catalog) {
        Ok(postings) => Ok(postings.push(locator_posting(locator, catalog))),
        Err(e) => Err(e),
    }
}

/// The values of a cell that is not null, by the shape of its declared type.
pub fn coerce_cell(raw: &RawCell, declared: StorageType) -> (result: Result<
    Vec<Value>,
    ProjectionError,
>)
    ensures
        match result {
            Ok(values) => cell_values(*raw, declared) == Ok::<_, ProjectionErrorModel>(
                value_models(values@),
            ),
            Err(e) => cell_values(*raw, declared) == Err::<Seq<ValueModel>, _>(e@),
        },
{
    match ValueCoercer::classify(declared) {
        Shape::Array => ValueCoercer::array(raw, declared.base),
        Shape::Structured => ValueCoercer::structured(raw),
        Shape::Scalar => match ValueCoercer::scalar(raw, declared.base) {
            Ok(v) => {
                let mut values: Vec<Value> = Vec::new();
                values.push(v);
                assert(value_models(values@) =~= seq![v@]);
                Ok(values)
            },
            Err(e) => Err(e),
        },
    }
}

/// Files every one of `values` under `field`, in order.
pub fn insert_all(document: &mut Document, field: FieldId, values: &Vec<Value>)
    ensures
        final(document)@ == old(document)@ + filed_under(field, value_models(values@)),
{
    let ghost before = document@;
    let mut k: usize = 0;
    assert(before + filed_under(field, value_models(values@).take(0)) =~= before);
    while k < values.len()
        invariant
            k <= values@.len(),
            document@ == before + filed_under(field, value_models(values@).take(k as int)),
        decreases values@.len() - k,
    {
        let ghost so_far = document@;
        let value = clone_value(&values[k]);
        document.insert(field, value);
        assert(so_far.push((field, value@)) =~= before + filed_under(
            field,
            value_models(values@).take(k + 1),
        ));
        k = k + 1;
    }
    assert(value_models(values@).take(k as int) =~= value_models(values@));
}

/// Projects one row into a document. Attributes whose name the catalog does
/// not hold are skipped; a null gives no posting, but for the key, where it
/// ends the projection; every other cell gives one posting per value; the
/// locator's posting comes last. On an error no document is returned.
pub fn row_to_search_document(
    ctid: RowLocator,
    row: &Vec<Attribute>,
    schema: &SchemaCatalog,
) -> (result: Result<Document, ProjectionError>)
    requires
        schema.wf(),
    ensures
        match result {
            Ok(document) => projection(ctid, row@, *schema) == Ok::<_, ProjectionErrorModel>(
                document@,
            ),
            Err(e) => projection(ctid, row@, *schema) == Err::<Seq<PostingModel>, _>(e@),
        },
{
    let mut document = schema.new_document();
    let mut attno: usize = 0;
    assert(row@.take(0) =~= Seq::empty());
    while attno < row.len()
        invariant
            schema.wf(),
            attno <= row@.len(),
            row_postings(row@.take(attno as int), *schema) == Ok::<_, ProjectionErrorModel>(
                document@,
            ),
        decreases row@.len() - attno,
    {
        let attribute = &row[attno];
        proof {
            assert(row@.take(attno + 1).drop_last() =~= row@.take(attno as int));
            assert(row@.take(attno + 1).last() == row@[attno as int]);
        }
        let ghost so_far = document@;
        match schema.lookup(&attribute.name) {
            None => {
                assert(so_far + Seq::<PostingModel>::empty() =~= so_far);
            },
            Some((_, id)) => {
                let is_null = match &attribute.raw {
                    RawCell::Null => true,
                    _ => false,
                };
                if is_null {
                    if id.0 == schema.key {
                        proof {
                            lemma_row_error_stays(row@, attno + 1, *schema);
                        }
                        return Err(ProjectionError::KeyFieldNull(attribute.name.clone()));
                    }
                    assert(so_far + Seq::<PostingModel>::empty() =~= so_far);
                } else {
                    match coerce_cell(&attribute.raw, attribute.declared) {
                        Ok(values) => {
                            insert_all(&mut document, id, &values);
                        },
                        Err(e) => {
                            proof {
                                lemma_row_error_stays(row@, attno + 1, *schema);
                            }
                            return Err(e);
                        },
                    }
                }
            },
        }
        attno = attno + 1;
    }
    proof {
        assert(row@.take(attno as int) =~= row@);
    }
    let ctid_index_value = ctid.to_u64();
    document.insert(schema.locator_field().id, Value::Unsigned(ctid_index_value));
    Ok(document)
}

/// An error among the first `n` attributes is the error of the whole row.
pub proof fn lemma_row_error_stays(row: Seq<Attribute>, n: int, catalog: SchemaCatalog)
    requires
        0 <= n <= row.len(),
        row_postings(row.take(n), catalog) is Err,
    ensures
        row_postings(row, catalog) == row_postings(row.take(n), catalog),
    decreases row.len() - n,
{
    if n == row.len() {
        assert(row.take(n) =~= row);
    } else {
        assert(row.take(n + 1).drop_last() =~= row.take(n));
        lemma_row_error_stays(row, n + 1, catalog);
    }
}

/// The postings of two rows laid end to end are those of the first, then
/// those of the second, unless one of them has an error.
pub proof fn lemma_row_postings_concat(a: Seq<Attribute>, b: Seq<Attribute>, catalog: SchemaCatalog)
    ensures
        row_postings(a + b, catalog) == chain(row_postings(a, catalog), row_postings(b, catalog)),
    decreases b.len(),
{
    let ra = row_postings(a, catalog);
    if b.len() == 0 {
        assert(a + b =~= a);
        if let Ok(p) = ra {
            assert(p + Seq::<PostingModel>::empty() =~= p);
        }
    } else {
        assert((a + b).drop_last() =~= a + b.drop_last());
        assert((a + b).last() == b.last());
        lemma_row_postings_concat(a, b.drop_last(), catalog);
        let rb = row_postings(b.drop_last(), catalog);
        let rx = attribute_postings(b.last(), catalog);
        if let Ok(p) = ra {
            if let Ok(q) = rb {
                if let Ok(r) = rx {
                    assert((p + q) + r =~= p + (q + r));
                }
            }
        }
    }
}

/// The postings of a row of one attribute are that attribute's.
pub proof fn lemma_row_postings_single(attr: Attribute, catalog: SchemaCatalog)
    ensures
        row_postings(seq![attr], catalog) == attribute_postings(attr, catalog),
{
    let row = seq![attr];
    assert(row.drop_last() =~= Seq::<Attribute>::empty());
    assert(row.last() == attr);
    assert(row_postings(Seq::<Attribute>::empty(), catalog) == Ok::<_, ProjectionErrorModel>(
        Seq::<PostingModel>::empty(),
    ));
    if let Ok(q) = attribute_postings(attr, catalog) {
        assert(Seq::<PostingModel>::empty() + q =~= q);
    }
}

/// A row is projected when none of its attributes has an error of its own:
/// each is absent from the catalog, or a null that is not the key's, or a cell
/// that has values.
pub proof fn law_projection_succeeds(locator: RowLocator, row: Seq<Attribute>, catalog: SchemaCatalog)
    requires
        forall|i: int| 0 <= i < row.len() ==> attribute_postings(#[trigger] row[i], catalog) is Ok,
    ensures
        projection(locator, row, catalog) is Ok,
    decreases row.len(),
{
    if row.len() > 0 {
        let rest = row.drop_last();
        assert forall|i: int| 0 <= i < rest.len() implies attribute_postings(
            #[trigger] rest[i],
            catalog,
        ) is Ok by {
            assert(rest[i] == row[i]);
        }
        law_projection_succeeds(locator, rest, catalog);
        assert(attribute_postings(row[row.len() - 1], catalog) is Ok);
    }
}

/// A projected document ends with the posting of the row's locator, and
/// where no attribute of the row holds a value under the locator field's
/// name, that posting is the only one under the locator field's id.
pub proof fn law_one_locator_posting(
    locator: RowLocator,
    row: Seq<Attribute>,
    catalog: SchemaCatalog,
    document: Seq<PostingModel>,
)
    requires
        catalog.wf(),
        projection(locator, row, catalog) == Ok::<_, ProjectionErrorModel>(document),
    ensures
        document.len() > 0,
        document.last() == locator_posting(locator, catalog),
        (forall|i: int|
            0 <= i < row.len() && (#[trigger] row[i]).name@
                == catalog.fields@[catalog.locator as int].name@ ==> row[i].raw is Null)
            ==> values_under(document, catalog.locator_id()) == seq![
            ValueModel::Unsigned(locator.packed()),
        ],
{
    let postings = row_postings(row, catalog)->Ok_0;
    let last = locator_posting(locator, catalog);
    if forall|i: int|
        0 <= i < row.len() && (#[trigger] row[i]).name@
            == catalog.fields@[catalog.locator as int].name@ ==> row[i].raw is Null {
        assert forall|i: int|
            0 <= i < row.len() && catalog.position((#[trigger] row[i]).name@) == Some(
                catalog.locator as int,
            ) implies row[i].raw is Null by {
            lemma_position_holds_name(catalog, row[i].name@);
        }
        lemma_nothing_filed(row, catalog, catalog.locator_id());
        assert(document.drop_last() =~= postings);
        assert(values_under(document, catalog.locator_id()) =~= seq![
            ValueModel::Unsigned(locator.packed()),
        ]);
    }
}

/// A field for which every attribute of its name is null has no posting
/// among those of the row's attributes.
pub proof fn lemma_nothing_filed(row: Seq<Attribute>, catalog: SchemaCatalog, id: FieldId)
    requires
        row_postings(row, catalog) is Ok,
        forall|i: int|
            0 <= i < row.len() && catalog.position((#[trigger] row[i]).name@) == Some(id.0 as int)
                ==> row[i].raw is Null,
    ensures
        values_under(row_postings(row, catalog)->Ok_0, id) == Seq::<ValueModel>::empty(),
    decreases row.len(),
{
    if row.len() > 0 {
        let rest = row.drop_last();
        let attr = row.last();
        assert forall|i: int|
            0 <= i < rest.len() && catalog.position((#[trigger] rest[i]).name@) == Some(
                id.0 as int,
            ) implies rest[i].raw is Null by {
            assert(rest[i] == row[i]);
        }
        lemma_nothing_filed(rest, catalog, id);
        let p = row_postings(rest, catalog)->Ok_0;
        let q = attribute_postings(attr, catalog)->Ok_0;
        lemma_values_under_concat(p, q, id);
        assert(attr == row[row.len() - 1]);
        assert(row_postings(row, catalog) == chain(
            row_postings(rest, catalog),
            attribute_postings(attr, catalog),
        ));
        match catalog.position(attr.name@) {
            None => {
                assert(q =~= Seq::<PostingModel>::empty());
            },
            Some(at) => {
                lemma_position_holds_name(catalog, attr.name@);
                if attr.raw is Null {
                    assert(q =~= Seq::<PostingModel>::empty());
                } else {
                    assert(at != id.0 as int);
                    let values = cell_values(attr.raw, attr.declared)->Ok_0;
                    assert(q == filed_under(FieldId(at as usize), values));
                    lemma_values_under_filed(FieldId(at as usize), values, id);
                }
            },
        }
        assert(values_under(q, id) =~= Seq::<ValueModel>::empty());
        assert(values_under(p, id) + values_under(q, id) =~= Seq::<ValueModel>::empty());
    }
}

/// A projected document holds a key posting when the row has an attribute
/// of the key field's name whose cell is not null and of a scalar type.
pub proof fn law_key_posting_present(
    locator: RowLocator,
    row: Seq<Attribute>,
    catalog: SchemaCatalog,
    document: Seq<PostingModel>,
    k: int,
)
    requires
        catalog.wf(),
        projection(locator, row, catalog) == Ok::<_, ProjectionErrorModel>(document),
        0 <= k < row.len(),
        row[k].name@ == catalog.fields@[catalog.key as int].name@,
        !(row[k].raw is Null),
        shape_of(row[k].declared) == Shape::Scalar,
    ensures
        values_under(document, catalog.key_id()).len() >= 1,
{
    let id = catalog.key_id();
    let a = row.take(k);
    let x = seq![row[k]];
    let b = row.skip(k + 1);
    assert(row =~= (a + x) + b);
    lemma_row_postings_concat(a + x, b, catalog);
    lemma_row_postings_concat(a, x, catalog);
    lemma_row_postings_single(row[k], catalog);
    lemma_position_of_field(catalog, catalog.key as int);
    let pa = row_postings(a, catalog)->Ok_0;
    let px = attribute_postings(row[k], catalog)->Ok_0;
    let pb = row_postings(b, catalog)->Ok_0;
    let values = cell_values(row[k].raw, row[k].declared)->Ok_0;
    assert(values.len() == 1);
    lemma_values_under_filed(id, values, id);
    let postings = (pa + px) + pb;
    assert(document =~= postings + seq![locator_posting(locator, catalog)]);
    lemma_values_under_concat(postings, seq![locator_posting(locator, catalog)], id);
    lemma_values_under_concat(pa + px, pb, id);
    lemma_values_under_concat(pa, px, id);
}

/// A row in which an attribute of the key field's name is null is not
/// projected, and where no attribute before it has an error of its own, the
/// error is `KeyFieldNull` with that name.
pub proof fn law_null_key_fails(
    locator: RowLocator,
    row: Seq<Attribute>,
    catalog: SchemaCatalog,
    k: int,
)
    requires
        catalog.wf(),
        0 <= k < row.len(),
        row[k].name@ == catalog.fields@[catalog.key as int].name@,
        row[k].raw is Null,
    ensures
        projection(locator, row, catalog) is Err,
        row_postings(row.take(k), catalog) is Ok ==> projection(locator, row, catalog) == Err::<
            Seq<PostingModel>,
            _,
        >(ProjectionErrorModel::KeyFieldNull(row[k].name@)),
{
    lemma_position_of_field(catalog, catalog.key as int);
    assert(row.take(k + 1).drop_last() =~= row.take(k));
    assert(row.take(k + 1).last() == row[k]);
    lemma_row_error_stays(row, k + 1, catalog);
}

/// An attribute whose name the catalog does not hold contributes no posting:
/// the row without it is projected to the same document, or fails with the
/// same error.
pub proof fn law_absent_attribute_ignored(
    locator: RowLocator,
    row: Seq<Attribute>,
    catalog: SchemaCatalog,
    k: int,
)
    requires
        0 <= k < row.len(),
        catalog.position(row[k].name@) is None,
    ensures
        attribute_postings(row[k], catalog) == Ok::<_, ProjectionErrorModel>(
            Seq::<PostingModel>::empty(),
        ),
        projection(locator, row.remove(k), catalog) == projection(locator, row, catalog),
{
    let a = row.take(k);
    let x = seq![row[k]];
    let b = row.skip(k + 1);
    assert(row =~= (a + x) + b);
    assert(row.remove(k) =~= a + b);
    lemma_row_postings_concat(a + x, b, catalog);
    lemma_row_postings_concat(a, x, catalog);
    lemma_row_postings_concat(a, b, catalog);
    lemma_row_postings_single(row[k], catalog);
    if let Ok(p) = row_postings(a, catalog) {
        assert(p + Seq::<PostingModel>::empty() =~= p);
    }
}

/// An indexed array attribute that is projected contributes exactly one
/// posting for each of its elements that is not null, in element order and
/// under the attribute's field id; an empty array contributes none.
pub proof fn law_array_attribute_postings(
    attr: Attribute,
    catalog: SchemaCatalog,
    items: Vec<Option<RawScalar>>,
    postings: Seq<PostingModel>,
)
    requires
        catalog.position(attr.name@) is Some,
        attr.declared.is_array,
        attr.raw == RawCell::Array(items),
        attribute_postings(attr, catalog) == Ok::<_, ProjectionErrorModel>(postings),
    ensures
        postings.len() == present(items@).len(),
        forall|i: int|
            0 <= i < postings.len() ==> {
                &&& (#[trigger] postings[i]).0 == FieldId(
                    catalog.position(attr.name@)->Some_0 as usize,
                )
                &&& scalar_value(present(items@)[i], attr.declared.base) == Ok::<
                    _,
                    ProjectionErrorModel,
                >(postings[i].1)
            },
{
    let values = element_values(items@, attr.declared.base)->Ok_0;
    law_array_values_in_order(items@, attr.declared.base, values);
}

/// An indexed structured attribute contributes exactly one posting for each
/// leaf scalar of its value, in pre-order and under the attribute's field id.
pub proof fn law_structured_attribute_postings(
    attr: Attribute,
    catalog: SchemaCatalog,
    node: JsonNode,
)
    requires
        catalog.position(attr.name@) is Some,
        shape_of(attr.declared) == Shape::Structured,
        attr.raw == RawCell::Structured(node),
    ensures
        attribute_postings(attr, catalog) == Ok::<_, ProjectionErrorModel>(
            filed_under(FieldId(catalog.position(attr.name@)->Some_0 as usize), leaves(node)),
        ),
{
}

} // verus!
