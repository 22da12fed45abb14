//! Which storage engine a statement's relations are backed by.

use vstd::prelude::*;

verus! {

/// One entry of a statement's range table, as far as routing reads it.
#[derive(Clone, Copy, Debug, PartialEq, Eq, Structural)]
pub struct RangeEntry {
    /// Whether the entry is a plain relation.
    pub is_relation: bool,
    /// Whether that relation is a table.
    pub is_table: bool,
    /// The identifier of the handler of the relation's access method.
    pub handler: u32,
}

/// Whether routing looks at the entry: only tables count.
pub open spec fn counted(entry: RangeEntry) -> bool {
    entry.is_relation && entry.is_table
}

/// Whether some table among `entries` is backed by `handler`.
pub open spec fn some_backed_by(entries: Seq<RangeEntry>, handler: u32) -> bool {
    exists|i: int|
        0 <= i < entries.len() && counted(#[trigger] entries[i]) && entries[i].handler == handler
}

/// Whether some table among `entries` is backed by another handler.
pub open spec fn some_backed_otherwise(entries: Seq<RangeEntry>, handler: u32) -> bool {
    exists|i: int|
        0 <= i < entries.len() && counted(#[trigger] entries[i]) && entries[i].handler != handler
}

/// Decisions on whether a statement runs on the columnar engine.
pub struct ColumnarStmt;

impl ColumnarStmt {
    /// Whether a planned statement runs on the columnar engine: it does when
    /// one of its tables is backed by the columnar handler. A statement
    /// without range table, an unknown columnar handler and a statement that
    /// mixes columnar tables with others are errors, looked for in this order.
    pub fn planned_is_columnar(
        rtable: Option<&Vec<RangeEntry>>,
        columnar_handler: Option<u32>,
    ) -> (result: Result<bool, String>)
        ensures
            match result {
                Ok(columnar) => {
                    &&& rtable is Some
                    &&& columnar_handler is Some
                    &&& columnar == some_backed_by(rtable->Some_0@, columnar_handler->Some_0)
                    &&& !(columnar && some_backed_otherwise(
                        rtable->Some_0@,
                        columnar_handler->Some_0,
                    ))
                },
                Err(message) => if rtable is None {
                    message@ == "rtable is null"@
                } else if columnar_handler is None {
                    message@ == "Columnar handler not found"@
                } else {
                    &&& message@ == "Mixing table types in a single query is not supported yet"@
                    &&& some_backed_by(rtable->Some_0@, columnar_handler->Some_0)
                    &&& some_backed_otherwise(rtable->Some_0@, columnar_handler->Some_0)
                },
            },
    {
        let entries = match rtable {
            Some(entries) => entries,
            None => {
                return Err("rtable is null".to_owned());
            },
        };
        let columnar_handler_oid = match columnar_handler {
            Some(oid) => oid,
            None => {
                return Err("Columnar handler not found".to_owned());
            },
        };
        let mut using_noncol: bool = false;
        let mut using_col: bool = false;
        let mut i: usize = 0;
        while i < entries.len()
            invariant
                i <= entries@.len(),
                using_col == some_backed_by(entries@.take(i as int), columnar_handler_oid),
                using_noncol == some_backed_otherwise(
                    entries@.take(i as int),
                    columnar_handler_oid,
                ),
            decreases entries@.len() - i,
        {
            let entry = entries[i];
            proof {
                lemma_backed_step(entries@, i as int, columnar_handler_oid);
            }
            if entry.is_relation && entry.is_table {
                if entry.handler == columnar_handler_oid {
                    using_col = true;
                } else {
                    using_noncol = true;
                }
            }
            i = i + 1;
        }
        proof {
            assert(entries@.take(i as int) =~= entries@);
        }
        if using_col && using_noncol {
            return Err("Mixing table types in a single query is not supported yet".to_owned());
        }
        Ok(using_col)
    }

    /// Whether the relation that a copy statement names is backed by the
    /// columnar handler.
    pub fn copy_is_columnar(relation_handler: u32, columnar_handler: Option<u32>) -> (result:
        Result<bool, String>)
        ensures
            match result {
                Ok(columnar) => columnar_handler is Some && columnar == (relation_handler
                    == columnar_handler->Some_0),
                Err(message) => columnar_handler is None && message@
                    == "Columnar handler not found"@,
            },
    {
        Self::relation_is_columnar(relation_handler, columnar_handler)
    }

    /// Whether a relation is backed by the columnar handler.
    pub fn relation_is_columnar(relation_handler: u32, columnar_handler: Option<u32>) -> (result:
        Result<bool, String>)
        ensures
            match result {
                Ok(columnar) => columnar_handler is Some && columnar == (relation_handler
                    == columnar_handler->Some_0),
                Err(message) => columnar_handler is None && message@
                    == "Columnar handler not found"@,
            },
    {
        match columnar_handler {
            Some(columnar_handler_oid) => Ok(relation_handler == columnar_handler_oid),
            None => Err("Columnar handler not found".to_owned()),
        }
    }
}

/// What one more entry adds to the two questions.
pub proof fn lemma_backed_step(entries: Seq<RangeEntry>, i: int, handler: u32)
    requires
        0 <= i < entries.len(),
    ensures
        some_backed_by(entries.take(i + 1), handler) == (some_backed_by(entries.take(i), handler)
            || (counted(entries[i]) && entries[i].handler == handler)),
        some_backed_otherwise(entries.take(i + 1), handler) == (some_backed_otherwise(
            entries.take(i),
            handler,
        ) || (counted(entries[i]) && entries[i].handler != handler)),
{
    let longer = entries.take(i + 1);
    let shorter = entries.take(i);
    assert(longer[i] == entries[i]);
    assert forall|k: int| 0 <= k < i implies longer[k] == shorter[k] by {}
    if some_backed_by(shorter, handler) {
        let k = choose|k: int|
            0 <= k < shorter.len() && counted(#[trigger] shorter[k]) && shorter[k].handler
                == handler;
        assert(counted(longer[k]) && longer[k].handler == handler);
    }
    if some_backed_by(longer, handler) {
        let k = choose|k: int|
            0 <= k < longer.len() && counted(#[trigger] longer[k]) && longer[k].handler == handler;
        if k < i {
            assert(counted(shorter[k]) && shorter[k].handler == handler);
        }
    }
    if some_backed_otherwise(shorter, handler) {
        let k = choose|k: int|
            0 <= k < shorter.len() && counted(#[trigger] shorter[k]) && shorter[k].handler
                != handler;
        assert(counted(longer[k]) && longer[k].handler != handler);
    }
    if some_backed_otherwise(longer, handler) {
        let k = choose|k: int|
            0 <= k < longer.len() && counted(#[trigger] longer[k]) && longer[k].handler != handler;
        if k < i {
            assert(counted(shorter[k]) && shorter[k].handler != handler);
        }
    }
}

} // verus!
