//! A logical record position in the transaction file and its order.

use vstd::prelude::*;
use std::cmp::Ordering;
use vstd::std_specs::cmp::PartialOrdSpecImpl;

verus! {

/// A structure referring to a potential logical record position in the
/// transaction file.
#[derive(Debug, Copy, Clone, PartialEq, Eq, Structural, Ord)]
pub struct Position {
    /// Commit position of the record.
    pub commit: u64,
    /// Prepare position of the record.
    pub prepare: u64,
}

/// Positions are ordered by commit position first and by prepare position
/// among equal commit positions.
pub open spec fn position_le(a: Position, b: Position) -> bool {
    a.commit < b.commit || (a.commit == b.commit && a.prepare <= b.prepare)
}

/// The three-way comparison that `position_le` induces.
pub open spec fn position_order(a: Position, b: Position) -> Ordering {
    if a == b {
        Ordering::Equal
    } else if position_le(a, b) {
        Ordering::Less
    } else {
        Ordering::Greater
    }
}

impl PartialOrd for Position {
    fn partial_cmp(&self, other: &Position) -> (r: Option<Ordering>) {
        if self.commit < other.commit {
            Some(Ordering::Less)
        } else if self.commit > other.commit {
            Some(Ordering::Greater)
        } else if self.prepare < other.prepare {
            Some(Ordering::Less)
        } else if self.prepare > other.prepare {
            Some(Ordering::Greater)
        } else {
            Some(Ordering::Equal)
        }
    }
}

impl PartialOrdSpecImpl for Position {
    open spec fn obeys_partial_cmp_spec() -> bool {
        true
    }

    open spec fn partial_cmp_spec(&self, other: &Position) -> Option<Ordering> {
        Some(position_order(*self, *other))
    }
}

/// Every position is at most itself.
pub proof fn lemma_position_le_reflexive(a: Position)
    ensures
        position_le(a, a),
{
}

/// Two positions each at most the other are the same position.
pub proof fn lemma_position_le_antisymmetric(a: Position, b: Position)
    requires
        position_le(a, b),
        position_le(b, a),
    ensures
        a == b,
{
}

/// The order of positions is transitive.
pub proof fn lemma_position_le_transitive(a: Position, b: Position, c: Position)
    requires
        position_le(a, b),
        position_le(b, c),
    ensures
        position_le(a, c),
{
}

/// Any two positions are ordered one way or the other.
pub proof fn lemma_position_le_total(a: Position, b: Position)
    ensures
        position_le(a, b) || position_le(b, a),
{
}

/// Comparing two positions one way gives the opposite of comparing them the
/// other way.
pub proof fn lemma_position_order_flips(a: Position, b: Position)
    ensures
        position_order(a, b) == Ordering::Less <==> position_order(b, a) == Ordering::Greater,
        position_order(a, b) == Ordering::Equal <==> position_order(b, a) == Ordering::Equal,
{
}

} // verus!
