//! Traits as bounds on generic functions and on impl blocks.
use vstd::prelude::*;

verus! {

/// A value that exposes an unsigned integer by reference.
pub trait MyTrait {
    /// The integer that `get_first` exposes.
    spec fn first_value(&self) -> u32;

    fn get_first(&self) -> (r: &u32)
        ensures
            *r == self.first_value(),
    ;
}

/// A cloneable holder of one integer.
#[derive(Clone)]
pub struct MyStructure {
    pub first: u32,
}

impl MyTrait for MyStructure {
    open spec fn first_value(&self) -> u32 {
        self.first
    }

    fn get_first(&self) -> (r: &u32) {
        &self.first
    }
}

/// Reads the integer of any cloneable value that implements `MyTrait`.
pub fn function<T: MyTrait + Clone>(value: &T) -> (r: &u32)
    ensures
        *r == value.first_value(),
{
    value.get_first()
}

/// A pair whose getters exist only when `T: MyTrait` and `U: Clone`.
pub struct OtherStructure<T, U> {
    pub first: T,
    pub second: U,
}

impl<T: MyTrait, U: Clone> OtherStructure<T, U> {
    pub fn get_first_value(&self) -> (r: &T)
        ensures
            *r == self.first,
    {
        &self.first
    }

    pub fn get_second_value(&self) -> (r: &U)
        ensures
            *r == self.second,
    {
        &self.second
    }
}

} // verus!
