use vstd::prelude::*;

verus! {

// Sets of enum variants are kept as bit masks, one bit per variant, as
// `BitFlags` lays them out: these are its set operations.

/// Every flag of `b` is set in `a`.
pub open spec fn spec_contains(a: u64, b: u64) -> bool {
    a & b == b
}

/// `a` and `b` have a flag in common.
pub open spec fn spec_intersects(a: u64, b: u64) -> bool {
    a & b != 0
}

pub fn contains(a: u64, b: u64) -> (r: bool)
    ensures
        r == spec_contains(a, b),
{
    a & b == b
}

pub fn intersects(a: u64, b: u64) -> (r: bool)
    ensures
        r == spec_intersects(a, b),
{
    a & b != 0
}

/// The union of two sets of flags.
pub fn union(a: u64, b: u64) -> (r: u64)
    ensures
        r == a | b,
{
    a | b
}

} // verus!
