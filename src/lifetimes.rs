//! Functions and a structure whose returned references carry lifetimes.
use vstd::prelude::*;

verus! {

/// Returns the string it is given.
pub fn get_longest_string(first: &str) -> (r: &str)
    ensures
        r@ == first@,
{
    first
}

/// Returns `first` when it points to zero, `second` otherwise; both borrows
/// share one lifetime, which the result carries.
pub fn get_highest<'a>(first: &'a i32, second: &'a i32) -> (r: &'a i32)
    ensures
        *r == (if *first == 0 { *first } else { *second }),
{
    if *first == 0 {
        first
    } else {
        second
    }
}

/// Returns `first`; `second` may live shorter than the result.
pub fn get_one_reference<'a>(first: &'a i32, second: &i32) -> (r: &'a i32)
    ensures
        *r == *first,
{
    first
}

/// Two borrowed integers of one lifetime.
pub struct MyStructure<'a> {
    pub reference: &'a i32,
    pub other_reference: &'a i32,
}

impl<'a> MyStructure<'a> {
    /// Returns the second reference, with the lifetime of the structure's
    /// borrows rather than that of `self`.
    pub fn get_reference(&self) -> (r: &'a i32)
        ensures
            *r == *self.other_reference,
    {
        self.other_reference
    }
}

} // verus!
