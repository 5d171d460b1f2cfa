//! The protocol revisions that a chain can run under.

use vstd::prelude::*;

verus! {

/// A revision of the protocol's rules. Each revision keeps the rules of all
/// the revisions before it.
#[allow(non_camel_case_types)]
#[derive(Clone, Copy, Debug, PartialEq, Eq, Structural, Hash)]
pub enum SpecId {
    FRONTIER,
    FRONTIER_THAWING,
    HOMESTEAD,
    DAO_FORK,
    TANGERINE,
    SPURIOUS_DRAGON,
    BYZANTIUM,
    CONSTANTINOPLE,
    PETERSBURG,
    ISTANBUL,
    MUIR_GLACIER,
    BERLIN,
    LONDON,
    ARROW_GLACIER,
    GRAY_GLACIER,
    MERGE,
    SHANGHAI,
    CANCUN,
    LATEST,
}

impl SpecId {
    /// The place of a revision in the order of their activation.
    pub open spec fn ordinal(self) -> nat {
        match self {
            SpecId::FRONTIER => 0,
            SpecId::FRONTIER_THAWING => 1,
            SpecId::HOMESTEAD => 2,
            SpecId::DAO_FORK => 3,
            SpecId::TANGERINE => 4,
            SpecId::SPURIOUS_DRAGON => 5,
            SpecId::BYZANTIUM => 6,
            SpecId::CONSTANTINOPLE => 7,
            SpecId::PETERSBURG => 8,
            SpecId::ISTANBUL => 9,
            SpecId::MUIR_GLACIER => 10,
            SpecId::BERLIN => 11,
            SpecId::LONDON => 12,
            SpecId::ARROW_GLACIER => 13,
            SpecId::GRAY_GLACIER => 14,
            SpecId::MERGE => 15,
            SpecId::SHANGHAI => 16,
            SpecId::CANCUN => 17,
            SpecId::LATEST => 255,
        }
    }

    /// Whether a chain that runs under `self` follows the rules that `other`
    /// brought in.
    pub open spec fn includes(self, other: SpecId) -> bool {
        self.ordinal() >= other.ordinal()
    }

    /// The number that [`SpecId::ordinal`] names.
    pub fn number(self) -> (n: u8)
        ensures
            n == self.ordinal(),
    {
        match self {
            SpecId::FRONTIER => 0,
            SpecId::FRONTIER_THAWING => 1,
            SpecId::HOMESTEAD => 2,
            SpecId::DAO_FORK => 3,
            SpecId::TANGERINE => 4,
            SpecId::SPURIOUS_DRAGON => 5,
            SpecId::BYZANTIUM => 6,
            SpecId::CONSTANTINOPLE => 7,
            SpecId::PETERSBURG => 8,
            SpecId::ISTANBUL => 9,
            SpecId::MUIR_GLACIER => 10,
            SpecId::BERLIN => 11,
            SpecId::LONDON => 12,
            SpecId::ARROW_GLACIER => 13,
            SpecId::GRAY_GLACIER => 14,
            SpecId::MERGE => 15,
            SpecId::SHANGHAI => 16,
            SpecId::CANCUN => 17,
            SpecId::LATEST => 255,
        }
    }

    /// Whether a chain that runs under `our` follows the rules that `other`
    /// brought in.
    pub fn enabled(our: SpecId, other: SpecId) -> (active: bool)
        ensures
            active == our.includes(other),
    {
        our.number() >= other.number()
    }
}

} // verus!
