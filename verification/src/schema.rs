//! The catalog of indexed fields.

use crate::document::{Document, FieldId, PostingModel};
use vstd::prelude::*;

verus! {

/// How a text field is split into terms.
#[derive(Clone, Copy, Debug, PartialEq, Eq, Structural)]
pub enum Tokenizer {
    Default,
    Raw,
    Whitespace,
    ChineseCompatible,
}

/// What a field is to the index. `Key` and `RowLocator` are reserved roles.
#[derive(Clone, Copy, Debug, PartialEq, Eq, Structural)]
pub enum FieldConfig {
    Key,
    RowLocator,
    Text { tokenizer: Tokenizer },
    Numeric,
    Boolean,
    Json,
}

/// One catalog entry.
#[derive(Clone, Debug, PartialEq, Eq)]
pub struct SearchField {
    pub name: String,
    pub config: FieldConfig,
    pub id: FieldId,
}

/// Why a list of field definitions is no catalog.
#[derive(Clone, Copy, Debug, PartialEq, Eq, Structural)]
pub enum SchemaError {
    Empty,
    MissingKey,
    DuplicateKey,
    MissingLocator,
    DuplicateLocator,
    DuplicateName,
}

/// Number of definitions in `defs` whose config is `config`.
pub open spec fn config_count(defs: Seq<(String, FieldConfig)>, config: FieldConfig) -> nat
    decreases defs.len(),
{
    if defs.len() == 0 {
        0
    } else {
        config_count(defs.drop_last(), config) + if defs.last().1 == config {
            1nat
        } else {
            0nat
        }
    }
}

/// No two definitions in `defs` share a name.
pub open spec fn names_distinct(defs: Seq<(String, FieldConfig)>) -> bool {
    forall|i: int, j: int|
        0 <= i < j < defs.len() ==> (#[trigger] defs[i]).0@ != (#[trigger] defs[j]).0@
}

/// The error that `defs` is rejected with, if any. Where several apply, the
/// first in this order is reported.
pub open spec fn build_error(defs: Seq<(String, FieldConfig)>) -> Option<SchemaError> {
    if defs.len() == 0 {
        Some(SchemaError::Empty)
    } else if config_count(defs, FieldConfig::Key) == 0 {
        Some(SchemaError::MissingKey)
    } else if config_count(defs, FieldConfig::Key) > 1 {
        Some(SchemaError::DuplicateKey)
    } else if config_count(defs, FieldConfig::RowLocator) == 0 {
        Some(SchemaError::MissingLocator)
    } else if config_count(defs, FieldConfig::RowLocator) > 1 {
        Some(SchemaError::DuplicateLocator)
    } else if !names_distinct(defs) {
        Some(SchemaError::DuplicateName)
    } else {
        None
    }
}

/// The index in `fields` of the entry named `name`, if there is one.
pub open spec fn index_of(fields: Seq<SearchField>, name: Seq<char>) -> Option<int> {
    if exists|i: int| 0 <= i < fields.len() && (#[trigger] fields[i]).name@ == name {
        Some(choose|i: int| 0 <= i < fields.len() && (#[trigger] fields[i]).name@ == name)
    } else {
        None
    }
}

/// Immutable description of the indexed fields.
#[derive(Clone, Debug, PartialEq, Eq)]
pub struct SchemaCatalog {
    pub fields: Vec<SearchField>,
    pub key: usize,
    pub locator: usize,
}

impl SchemaCatalog {
    /// A catalog is well formed when it is not empty, ids are positions, names
    /// are unique, and `key` and `locator` point at the only entries with the
    /// two reserved roles.
    pub open spec fn wf(&self) -> bool {
        &&& self.fields@.len() > 0
        &&& self.key < self.fields@.len()
        &&& self.locator < self.fields@.len()
        &&& forall|i: int|
            0 <= i < self.fields@.len() ==> (#[trigger] self.fields@[i]).id == FieldId(i as usize)
        &&& forall|i: int|
            0 <= i < self.fields@.len() ==> ((#[trigger] self.fields@[i]).config
                == FieldConfig::Key <==> i == self.key)
        &&& forall|i: int|
            0 <= i < self.fields@.len() ==> ((#[trigger] self.fields@[i]).config
                == FieldConfig::RowLocator <==> i == self.locator)
        &&& forall|i: int, j: int|
            0 <= i < j < self.fields@.len() ==> (#[trigger] self.fields@[i]).name@ != (
            #[trigger] self.fields@[j]).name@
    }

    /// The id under which the key's postings are filed.
    pub open spec fn key_id(&self) -> FieldId {
        FieldId(self.key)
    }

    /// The id under which the row locator's posting is filed.
    pub open spec fn locator_id(&self) -> FieldId {
        FieldId(self.locator)
    }

    /// The position of the field named `name`, if it is indexed.
    pub open spec fn position(&self, name: Seq<char>) -> Option<int> {
        index_of(self.fields@, name)
    }

    /// Whether the catalog is well formed. A catalog that `build` returned is.
    pub fn is_well_formed(&self) -> (ok: bool)
        ensures
            ok == self.wf(),
    {
        let n = self.fields.len();
        if n == 0 || self.key >= n || self.locator >= n {
            return false;
        }
        let mut i: usize = 0;
        while i < n
            invariant
                n == self.fields@.len(),
                i <= n,
                self.key < n,
                self.locator < n,
                forall|k: int|
                    0 <= k < i ==> {
                        &&& (#[trigger] self.fields@[k]).id == FieldId(k as usize)
                        &&& (self.fields@[k].config == FieldConfig::Key <==> k == self.key)
                        &&& (self.fields@[k].config == FieldConfig::RowLocator <==> k
                            == self.locator)
                    },
            decreases n - i,
        {
            let field = &self.fields[i];
            let is_key = field.config == FieldConfig::Key;
            let is_locator = field.config == FieldConfig::RowLocator;
            if field.id.0 != i || is_key != (i == self.key) || is_locator != (i == self.locator) {
                assert(self.fields@[i as int] == *field);
                return false;
            }
            i = i + 1;
        }
        field_names_distinct(&self.fields)
    }

    /// Builds the catalog of `field_defs`. Ids are assigned in list order.
    /// The list is rejected when it is empty, when it does not hold exactly
    /// one key and exactly one row locator, or when a name occurs twice.
    pub fn build(field_defs: Vec<(String, FieldConfig)>) -> (result: Result<
        SchemaCatalog,
        SchemaError,
    >)
        ensures
            match result {
                Ok(catalog) => {
                    &&& build_error(field_defs@) is None
                    &&& catalog.wf()
                    &&& catalog.fields@.len() == field_defs@.len()
                    &&& forall|i: int|
                        0 <= i < field_defs@.len() ==> {
                            &&& (#[trigger] catalog.fields@[i]).name@ == field_defs@[i].0@
                            &&& catalog.fields@[i].config == field_defs@[i].1
                        }
                },
                Err(e) => build_error(field_defs@) == Some(e),
            },
    {
        let n = field_defs.len();
        if n == 0 {
            return Err(SchemaError::Empty);
        }
        let (keys, key) = count_role(&field_defs, FieldConfig::Key);
        if keys == 0 {
            return Err(SchemaError::MissingKey);
        }
        if keys > 1 {
            return Err(SchemaError::DuplicateKey);
        }
        let (locators, locator) = count_role(&field_defs, FieldConfig::RowLocator);
        if locators == 0 {
            return Err(SchemaError::MissingLocator);
        }
        if locators > 1 {
            return Err(SchemaError::DuplicateLocator);
        }
        if !all_names_distinct(&field_defs) {
            return Err(SchemaError::DuplicateName);
        }
        let mut fields: Vec<SearchField> = Vec::new();
        let mut i: usize = 0;
        while i < n
            invariant
                n == field_defs@.len(),
                i <= n,
                fields@.len() == i,
                forall|k: int|
                    0 <= k < i ==> {
                        &&& (#[trigger] fields@[k]).name@ == field_defs@[k].0@
                        &&& fields@[k].config == field_defs@[k].1
                        &&& fields@[k].id == FieldId(k as usize)
                    },
            decreases n - i,
        {
            let name = field_defs[i].0.clone();
            fields.push(SearchField { name, config: field_defs[i].1, id: FieldId(i) });
            i = i + 1;
        }
        proof {
            lemma_single_role(field_defs@, FieldConfig::Key, key as int);
            lemma_single_role(field_defs@, FieldConfig::RowLocator, locator as int);
            assert forall|a: int, b: int| 0 <= a < b < fields@.len() implies (
            #[trigger] fields@[a]).name@ != (#[trigger] fields@[b]).name@ by {
                assert(field_defs@[a].0@ != field_defs@[b].0@);
            }
        }
        Ok(SchemaCatalog { fields, key, locator })
    }

    /// Config and id of the field named `name`; `None` means that the
    /// attribute is not indexed.
    pub fn lookup(&self, name: &String) -> (found: Option<(FieldConfig, FieldId)>)
        requires
            self.wf(),
        ensures
            match found {
                Some((config, id)) => {
                    &&& self.position(name@) == Some(id.0 as int)
                    &&& id.0 < self.fields@.len()
                    &&& self.fields@[id.0 as int].name@ == name@
                    &&& self.fields@[id.0 as int].config == config
                },
                None => self.position(name@) is None,
            },
    {
        let mut i: usize = 0;
        while i < self.fields.len()
            invariant
                self.wf(),
                i <= self.fields@.len(),
                forall|k: int| 0 <= k < i ==> (#[trigger] self.fields@[k]).name@ != name@,
            decreases self.fields@.len() - i,
        {
            if self.fields[i].name == *name {
                proof {
                    assert(self.fields@[i as int].name@ == name@);
                    let j = choose|j: int|
                        0 <= j < self.fields@.len() && (#[trigger] self.fields@[j]).name@ == name@;
                    assert(self.fields@[j].name@ == name@);
                    if j < i {
                        assert(self.fields@[j].name@ != self.fields@[i as int].name@);
                    }
                    if i < j {
                        assert(self.fields@[i as int].name@ != self.fields@[j].name@);
                    }
                }
                return Some((self.fields[i].config, FieldId(i)));
            }
            i = i + 1;
        }
        None
    }

    /// The entry with the key role.
    pub fn key_field(&self) -> (field: &SearchField)
        requires
            self.wf(),
        ensures
            *field == self.fields@[self.key as int],
            field.config == FieldConfig::Key,
            field.id == self.key_id(),
    {
        &self.fields[self.key]
    }

    /// The entry with the row locator role.
    pub fn locator_field(&self) -> (field: &SearchField)
        requires
            self.wf(),
        ensures
            *field == self.fields@[self.locator as int],
            field.config == FieldConfig::RowLocator,
            field.id == self.locator_id(),
    {
        &self.fields[self.locator]
    }

    /// An empty document for this catalog's fields.
    pub fn new_document(&self) -> (doc: Document)
        ensures
            doc@ == Seq::<PostingModel>::empty(),
    {
        Document::new()
    }
}

/// In a list that holds `config` exactly once, the one place where it stands.
pub proof fn lemma_single_role(defs: Seq<(String, FieldConfig)>, config: FieldConfig, at: int)
    requires
        config_count(defs, config) == 1,
        0 <= at < defs.len(),
        defs[at].1 == config,
    ensures
        forall|i: int| 0 <= i < defs.len() && (#[trigger] defs[i]).1 == config ==> i == at,
    decreases defs.len(),
{
    let rest = defs.drop_last();
    if defs.last().1 == config {
        lemma_no_role(rest, config);
        assert forall|i: int| 0 <= i < defs.len() && (#[trigger] defs[i]).1 == config implies i
            == at by {
            if i < rest.len() {
                assert(defs[i] == rest[i]);
            }
            if at < rest.len() {
                assert(defs[at] == rest[at]);
            }
        }
    } else {
        assert(defs[at] == rest[at]);
        lemma_single_role(rest, config, at);
        assert forall|i: int| 0 <= i < defs.len() && (#[trigger] defs[i]).1 == config implies i
            == at by {
            assert(defs[i] == rest[i]);
        }
    }
}

/// A list that counts no `config` holds none.
pub proof fn lemma_no_role(defs: Seq<(String, FieldConfig)>, config: FieldConfig)
    requires
        config_count(defs, config) == 0,
    ensures
        forall|i: int| 0 <= i < defs.len() ==> (#[trigger] defs[i]).1 != config,
    decreases defs.len(),
{
    if defs.len() > 0 {
        let rest = defs.drop_last();
        lemma_no_role(rest, config);
        assert forall|i: int| 0 <= i < defs.len() implies (#[trigger] defs[i]).1 != config by {
            if i < rest.len() {
                assert(defs[i] == rest[i]);
            }
        }
    }
}

/// Counts the definitions with `config`, and gives the place of the last one.
fn count_role(defs: &Vec<(String, FieldConfig)>, config: FieldConfig) -> (found: (usize, usize))
    ensures
        found.0 == config_count(defs@, config),
        found.0 > 0 ==> found.1 < defs@.len() && defs@[found.1 as int].1 == config,
{
    let mut count: usize = 0;
    let mut place: usize = 0;
    let mut i: usize = 0;
    while i < defs.len()
        invariant
            i <= defs@.len(),
            count <= i,
            count == config_count(defs@.take(i as int), config),
            count > 0 ==> place < i && defs@[place as int].1 == config,
        decreases defs@.len() - i,
    {
        proof {
            assert(defs@.take(i + 1).drop_last() =~= defs@.take(i as int));
        }
        if defs[i].1 == config {
            count = count + 1;
            place = i;
        }
        i = i + 1;
    }
    proof {
        assert(defs@.take(i as int) =~= defs@);
    }
    (count, place)
}

/// Whether no name occurs twice in `fields`.
fn field_names_distinct(fields: &Vec<SearchField>) -> (distinct: bool)
    ensures
        distinct == (forall|a: int, b: int|
            0 <= a < b < fields@.len() ==> (#[trigger] fields@[a]).name@ != (
            #[trigger] fields@[b]).name@),
{
    let mut j: usize = 0;
    while j < fields.len()
        invariant
            j <= fields@.len(),
            forall|a: int, b: int|
                0 <= a < b < j ==> (#[trigger] fields@[a]).name@ != (#[trigger] fields@[b]).name@,
        decreases fields@.len() - j,
    {
        let mut i: usize = 0;
        while i < j
            invariant
                i <= j,
                j < fields@.len(),
                forall|a: int| 0 <= a < i ==> (#[trigger] fields@[a]).name@ != fields@[j as int].name@,
            decreases j - i,
        {
            if fields[i].name == fields[j].name {
                return false;
            }
            i = i + 1;
        }
        j = j + 1;
    }
    true
}

/// Whether no name occurs twice in `defs`.
fn all_names_distinct(defs: &Vec<(String, FieldConfig)>) -> (distinct: bool)
    ensures
        distinct == names_distinct(defs@),
{
    let mut j: usize = 0;
    while j < defs.len()
        invariant
            j <= defs@.len(),
            forall|a: int, b: int|
                0 <= a < b < j ==> (#[trigger] defs@[a]).0@ != (#[trigger] defs@[b]).0@,
        decreases defs@.len() - j,
    {
        let mut i: usize = 0;
        while i < j
            invariant
                i <= j,
                j < defs@.len(),
                forall|a: int| 0 <= a < i ==> (#[trigger] defs@[a]).0@ != defs@[j as int].0@,
            decreases j - i,
        {
            if defs[i].0 == defs[j].0 {
                return false;
            }
            i = i + 1;
        }
        j = j + 1;
    }
    true
}

/// In a well-formed catalog every field is found under its own name, at its
/// own place.
pub proof fn lemma_position_of_field(catalog: SchemaCatalog, k: int)
    requires
        catalog.wf(),
        0 <= k < catalog.fields@.len(),
    ensures
        catalog.position(catalog.fields@[k].name@) == Some(k),
{
    let name = catalog.fields@[k].name@;
    assert(catalog.fields@[k].name@ == name);
    let j = choose|j: int|
        0 <= j < catalog.fields@.len() && (#[trigger] catalog.fields@[j]).name@ == name;
    if j < k {
        assert(catalog.fields@[j].name@ != catalog.fields@[k].name@);
    }
    if k < j {
        assert(catalog.fields@[k].name@ != catalog.fields@[j].name@);
    }
}

/// A position that a name is found at lies in the catalog and holds the name.
pub proof fn lemma_position_holds_name(catalog: SchemaCatalog, name: Seq<char>)
    requires
        catalog.position(name) is Some,
    ensures
        0 <= catalog.position(name)->Some_0 < catalog.fields@.len(),
        catalog.position(name)->Some_0 <= usize::MAX,
        catalog.fields@[catalog.position(name)->Some_0].name@ == name,
{
    assert(catalog.fields.len() == catalog.fields@.len());
}

} // verus!
