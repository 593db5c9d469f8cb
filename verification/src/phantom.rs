//! Runs of unit values. A unit value takes no space, so a run of any length
//! takes none either: it stands for a length and for nothing else.

use vstd::prelude::*;

verus! {

/// `Vec::leak` of the standard library: gives up the vector and hands out its
/// contents for the rest of the program. The contract claims that the slice
/// holds what the vector held.
#[verifier::external_body]
fn leak_units(units: Vec<()>) -> (out: &'static [()])
    ensures
        out@ == units@,
{
    units.leak()
}

/// A run of `len` unit values that lives as long as the program. Nothing is
/// allocated for it.
pub fn slice_with_len(len: usize) -> (out: &'static [()])
    ensures
        out@ == Seq::new(len as nat, |i: int| ()),
{
    leak_units(vec![(); len])
}

} // verus!
