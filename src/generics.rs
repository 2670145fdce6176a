//! Generic functions and structures, and impls chosen by type arguments.
use vstd::prelude::*;

verus! {

/// Picks `first` when `choice` holds and `second` otherwise.
pub fn get_sum<T>(choice: bool, first: T, second: T) -> (r: T)
    ensures
        r == (if choice { first } else { second }),
{
    if choice {
        first
    } else {
        second
    }
}

/// A structure whose first two fields have type parameters.
pub struct MyStructure<T, U> {
    pub first: T,
    pub second: U,
    pub third: bool,
}

impl<T, U> MyStructure<T, U> {
    pub fn get_first(&self) -> (r: &T)
        ensures
            *r == self.first,
    {
        &self.first
    }
}

/// A structure with one `get_first` per pair of field types: the `u32` field
/// is returned, wherever it stands.
pub struct MyOtherStructure<T, U> {
    pub first: T,
    pub second: U,
    pub third: bool,
}

impl MyOtherStructure<u32, bool> {
    pub fn get_first(&self) -> (r: &u32)
        ensures
            *r == self.first,
    {
        &self.first
    }
}

impl MyOtherStructure<bool, u32> {
    pub fn get_first(&self) -> (r: &u32)
        ensures
            *r == self.second,
    {
        &self.second
    }
}

} // verus!
