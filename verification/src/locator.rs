//! Physical positions of row versions, and their packed form.

use vstd::prelude::*;

verus! {

/// The packed form holds the block above this factor and the slot below it.
pub const BLOCK_FACTOR: u64 = 0x1_0000_0000;

/// Number of slot values; the slot is the packed form modulo this.
pub const SLOT_LIMIT: u64 = 0x1_0000;

/// Why a visibility check could not be made.
#[derive(Clone, Copy, Debug, PartialEq, Eq, Structural)]
pub enum VisibilityError {
    /// The locator names no physical position.
    UnresolvableLocator,
}

/// The physical position of a row version: a block of the relation and a slot
/// in it. Slot 0 is no position.
#[derive(Clone, Copy, Debug, PartialEq, Eq, Structural)]
pub struct RowLocator {
    pub block: u32,
    pub slot: u16,
}

/// The block that a packed locator names.
pub open spec fn block_of(packed: u64) -> int {
    packed as int / 0x1_0000_0000
}

/// The slot that a packed locator names.
pub open spec fn slot_of(packed: u64) -> int {
    packed as int % 0x1_0000
}

impl RowLocator {
    /// The packed form: the block in the upper half, the slot below it.
    pub open spec fn packed(&self) -> u64 {
        (self.block as int * 0x1_0000_0000 + self.slot as int) as u64
    }

    /// Whether the locator names a position.
    pub open spec fn is_position(&self) -> bool {
        self.slot != 0
    }

    /// Packs the locator into one integer.
    pub fn to_u64(&self) -> (packed: u64)
        ensures
            packed == self.packed(),
            packed as int == self.block as int * 0x1_0000_0000 + self.slot as int,
    {
        (self.block as u64) * BLOCK_FACTOR + (self.slot as u64)
    }

    /// Resolves a packed locator to a position. Fails exactly when the slot
    /// that it names is 0.
    pub fn from_u64(packed: u64) -> (result: Result<RowLocator, VisibilityError>)
        ensures
            match result {
                Ok(locator) => {
                    &&& slot_of(packed) != 0
                    &&& locator.block as int == block_of(packed)
                    &&& locator.slot as int == slot_of(packed)
                },
                Err(e) => slot_of(packed) == 0 && e == VisibilityError::UnresolvableLocator,
            },
    {
        let block: u32 = (packed / BLOCK_FACTOR) as u32;
        let slot: u16 = (packed % SLOT_LIMIT) as u16;
        if slot == 0 {
            Err(VisibilityError::UnresolvableLocator)
        } else {
            Ok(RowLocator { block, slot })
        }
    }
}

/// A position that is packed and resolved again is the same position.
pub proof fn law_pack_then_resolve(locator: RowLocator)
    ensures
        block_of(locator.packed()) == locator.block,
        slot_of(locator.packed()) == locator.slot,
{
}

/// A packed locator with nothing between slot and block is what its
/// position packs to.
pub proof fn law_resolve_then_pack(packed: u64, locator: RowLocator)
    requires
        locator.block as int == block_of(packed),
        locator.slot as int == slot_of(packed),
        packed as int % 0x1_0000_0000 < 0x1_0000,
    ensures
        locator.packed() == packed,
{
}

} // verus!
