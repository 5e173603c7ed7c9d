//! Small value types used to demonstrate moves of plain and owning
//! structs.

use vstd::prelude::*;

verus! {

/// A copyable pair of numbers.
#[derive(Debug, Copy, Clone)]
pub struct OwnerTest {
    pub num_1: u64,
    pub num_2: u64,
}

impl OwnerTest {
    pub fn new(num_1: u64, num_2: u64) -> (r: Self)
        ensures
            r.num_1 == num_1,
            r.num_2 == num_2,
    {
        OwnerTest { num_1, num_2 }
    }
}

/// A pair that owns a string, so moving it transfers the allocation.
#[derive(Debug)]
pub struct OwnerTestOfRef {
    pub str_1: String,
    pub num_1: u64,
}

impl OwnerTestOfRef {
    pub fn new(str_1: String, num_1: u64) -> (r: Self)
        ensures
            r.str_1 == str_1,
            r.num_1 == num_1,
    {
        OwnerTestOfRef { str_1, num_1 }
    }
}

} // verus!
