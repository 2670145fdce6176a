//! Moving a field out of a structure behind `&mut` by putting another value in
//! its place.
use vstd::prelude::*;

verus! {

/// A structure that owns a byte vector.
pub struct MyStructure {
    pub array: Vec<u8>,
}

impl MyStructure {
    /// Borrows the vector.
    pub fn get_array_reference(&mut self) -> (r: &Vec<u8>)
        ensures
            r@ == old(self).array@,
            final(self).array@ == old(self).array@,
    {
        &self.array
    }

    /// Takes the vector out and leaves `[100, 200]` in its place.
    pub fn move_out_array(&mut self) -> (r: Vec<u8>)
        ensures
            r@ == old(self).array@,
            final(self).array@ == seq![100u8, 200u8],
    {
        let mut other: Vec<u8> = vec![100, 200];
        core::mem::swap(&mut self.array, &mut other);
        other
    }

    /// Takes the vector out and leaves `new_array` in its place.
    pub fn move_out_and_replace(&mut self, new_array: Vec<u8>) -> (r: Vec<u8>)
        ensures
            r@ == old(self).array@,
            final(self).array@ == new_array@,
    {
        let mut other = new_array;
        core::mem::swap(&mut self.array, &mut other);
        other
    }
}

} // verus!
