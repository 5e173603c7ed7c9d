//! Small value types used to demonstrate sharing and copying of
//! objects across owners.

use vstd::prelude::*;

verus! {

/// An object owning a string.
#[derive(Debug, Clone)]
pub struct SharedStringObj {
    pub name: String,
}

impl SharedStringObj {
    pub fn new(name: String) -> (r: SharedStringObj)
        ensures
            r.name == name,
    {
        SharedStringObj { name }
    }
}

/// Builds a `SharedStringObj` without naming the type.
pub fn new(name: String) -> (r: SharedStringObj)
    ensures
        r.name == name,
{
    SharedStringObj { name }
}

/// A copyable object holding one small number.
#[derive(Debug, Copy, Clone)]
pub struct SharedNumObj {
    pub age: u8,
}

impl SharedNumObj {
    pub fn new(age: u8) -> (r: SharedNumObj)
        ensures
            r.age == age,
    {
        SharedNumObj { age }
    }
}

/// A copyable object holding another copyable object.
#[derive(Debug, Copy, Clone)]
pub struct SharedPointerObj {
    pub pointer: SharedNumObj,
}

impl SharedPointerObj {
    pub fn new(pointer: SharedNumObj) -> (r: SharedPointerObj)
        ensures
            r.pointer == pointer,
    {
        SharedPointerObj { pointer }
    }
}

/// A clonable object holding an owning object, so it cannot be copied.
#[derive(Debug, Clone)]
pub struct ShardPointerObj2 {
    pub pointer: SharedStringObj,
}

impl ShardPointerObj2 {
    pub fn new(pointer: SharedStringObj) -> (r: ShardPointerObj2)
        ensures
            r.pointer == pointer,
    {
        ShardPointerObj2 { pointer }
    }
}

/// A pair of numbers: all fields copy, so the struct does.
#[derive(Debug, Copy, Clone)]
pub struct CopyableObj {
    pub num1: i64,
    pub num2: u64,
}

impl CopyableObj {
    pub fn new(num1: i64, num2: u64) -> (r: CopyableObj)
        ensures
            r.num1 == num1,
            r.num2 == num2,
    {
        CopyableObj { num1, num2 }
    }
}

/// An object whose clone is a fresh placeholder rather than a copy.
#[derive(Debug)]
pub struct UncopiableObj {
    pub str1: String,
}

impl Clone for UncopiableObj {
    fn clone(&self) -> Self {
        UncopiableObj { str1: String::new() }
    }
}

impl UncopiableObj {
    pub fn new(str1: String) -> (r: UncopiableObj)
        ensures
            r.str1 == str1,
    {
        UncopiableObj { str1 }
    }
}

} // verus!
