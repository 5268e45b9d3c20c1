//! The example fuzzer with inputs of plain bytes.
use vstd::prelude::*;
use crate::inputs::{BytesInput, HasMutatorBytes};

verus! {

/// The bytes the harness looks at.
pub fn harness_bytes(input: &BytesInput) -> (bytes: Vec<u8>)
    ensures
        bytes@ == input@,
{
    vstd::slice::slice_to_vec(input.mutator_bytes())
}

} // verus!
