use vstd::prelude::*;

verus! {

/// A chain height: a revision number and a block height inside that revision.
#[derive(Clone, Copy, Debug, PartialEq, Eq, Structural)]
pub struct Height {
    pub revision_number: u64,
    pub revision_height: u64,
}

impl Height {
    /// Lexicographic order: first by revision, within a revision by block height.
    pub open spec fn before(self, other: Height) -> bool {
        self.revision_number < other.revision_number || (self.revision_number
            == other.revision_number && self.revision_height < other.revision_height)
    }

    pub fn new(revision_number: u64, revision_height: u64) -> (h: Height)
        ensures
            h.revision_number == revision_number,
            h.revision_height == revision_height,
    {
        Height { revision_number, revision_height }
    }

    /// Whether `self` lies strictly below `other`.
    pub fn is_before(&self, other: &Height) -> (r: bool)
        ensures
            r == self.before(*other),
    {
        self.revision_number < other.revision_number || (self.revision_number
            == other.revision_number && self.revision_height < other.revision_height)
    }
}

/// The order on heights is a strict total order.
pub proof fn height_order_is_strict_total(a: Height, b: Height, c: Height)
    ensures
        !a.before(a),
        a.before(b) && b.before(c) ==> a.before(c),
        a.before(b) || b.before(a) || a == b,
        !(a.before(b) && b.before(a)),
{
}

} // verus!
