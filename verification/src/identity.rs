use vstd::prelude::*;

verus! {

/// `usize::hash` of std's `Hash`: feeds the number to the hasher. Nothing
/// is claimed of what the hasher then holds.
pub assume_specification<H: core::hash::Hasher>[ <usize as core::hash::Hash>::hash ](
    value: &usize,
    state: &mut H,
);

} // verus!
