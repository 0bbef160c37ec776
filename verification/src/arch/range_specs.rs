//! Contracts of the accessors of `RangeInclusive`.

use std::ops::RangeInclusive;
use vstd::prelude::*;

verus! {

/// `RangeInclusive::start` gives the lower bound. Of a range that was iterated over
/// to its end the standard library says nothing, and neither is anything said here.
pub assume_specification<Idx>[ RangeInclusive::<Idx>::start ](range: &RangeInclusive<Idx>) -> (bound:
    &Idx)
    ensures
        !range@.exhausted ==> *bound == range@.start,
;

/// `RangeInclusive::end` gives the upper bound. Of a range that was iterated over to
/// its end the standard library says nothing, and neither is anything said here.
pub assume_specification<Idx>[ RangeInclusive::<Idx>::end ](range: &RangeInclusive<Idx>) -> (bound:
    &Idx)
    ensures
        !range@.exhausted ==> *bound == range@.end,
;

/// Cloning a `RangeInclusive` that was not iterated over to its end clones its
/// bounds.
pub assume_specification<Idx: Clone>[ <RangeInclusive<Idx> as Clone>::clone ](
    range: &RangeInclusive<Idx>,
) -> (copy: RangeInclusive<Idx>)
    ensures
        !range@.exhausted ==> {
            &&& cloned::<Idx>(range@.start, copy@.start)
            &&& cloned::<Idx>(range@.end, copy@.end)
            &&& !copy@.exhausted
        },
;

} // verus!
