//! Boxes that own a single value; two of them can be dereferenced.
use vstd::prelude::*;

verus! {

/// An owning box that dereferences to the value it holds.
pub struct CustomBox<T> {
    param: T,
}

impl<T> CustomBox<T> {
    /// The value held by the box.
    pub closed spec fn value(&self) -> T {
        self.param
    }

    pub fn new(param: T) -> (b: CustomBox<T>)
        ensures
            b.value() == param,
    {
        CustomBox { param }
    }
}

impl<T> core::ops::Deref for CustomBox<T> {
    type Target = T;

    fn deref(&self) -> (r: &T)
        ensures
            *r == self.value(),
    {
        &self.param
    }
}

/// An owning box without dereferencing: its value is reached only by moving
/// the box apart.
pub struct OtherCustomBox<T> {
    param: T,
}

impl<T> OtherCustomBox<T> {
    /// The value held by the box.
    pub closed spec fn value(&self) -> T {
        self.param
    }

    pub fn new(param: T) -> (b: OtherCustomBox<T>)
        ensures
            b.value() == param,
    {
        OtherCustomBox { param }
    }
}

/// An owning box that dereferences both shared and mutably.
pub struct ThirdCustomBox<T> {
    param: T,
}

impl<T> ThirdCustomBox<T> {
    /// The value held by the box.
    pub closed spec fn value(&self) -> T {
        self.param
    }

    pub fn new(param: T) -> (b: ThirdCustomBox<T>)
        ensures
            b.value() == param,
    {
        ThirdCustomBox { param }
    }
}

impl<T> core::ops::Deref for ThirdCustomBox<T> {
    type Target = T;

    fn deref(&self) -> (r: &T)
        ensures
            *r == self.value(),
    {
        &self.param
    }
}

impl<T> core::ops::DerefMut for ThirdCustomBox<T> {
    fn deref_mut(&mut self) -> (r: &mut T)
        ensures
            *r == old(self).value(),
            final(self).value() == *final(r),
    {
        &mut self.param
    }
}

} // verus!
