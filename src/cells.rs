//! Inherited and interior mutability: a structure that a `&self` method
//! cannot change, and one whose cell field a `&self` method can write.
use vstd::prelude::*;
use vstd::cell::invcell::InvCell;

verus! {

/// A structure that a `&self` method cannot change.
pub struct StructureWithoutRefCell {
    pub value: u8,
}

impl StructureWithoutRefCell {
    /// Has a shared borrow only, so it leaves the structure as it was.
    pub fn try_update(&self) {
    }
}

/// A structure with a cell that a `&self` method can write. Through shared
/// borrows only the cell's invariant is known: it holds the value it was made
/// with or the updated value 20.
pub struct StructureWithRefCell {
    value: InvCell<u8, spec_fn(u8) -> bool>,
    initial: Ghost<u8>,
}

impl StructureWithRefCell {
    /// The cell admits exactly the initial value and 20.
    #[verifier::type_invariant]
    spec fn admits_initial_or_updated(&self) -> bool {
        forall|v: u8| #[trigger] self.value.inv(v) <==> (v == self.initial@ || v == 20)
    }

    /// The value the cell was made with.
    pub closed spec fn initial(&self) -> u8 {
        self.initial@
    }

    pub fn new(value: u8) -> (s: StructureWithRefCell)
        ensures
            s.initial() == value,
    {
        let pred = Ghost(|v: u8| v == value || v == 20);
        StructureWithRefCell { value: InvCell::new(value, pred), initial: Ghost(value) }
    }

    /// Writes 20 into the cell through a shared borrow.
    pub fn try_update(&self) {
        proof {
            use_type_invariant(self);
            assert(self.value.inv(20));
        }
        self.value.set(20);
    }

    /// Reads the cell: the initial value or 20.
    pub fn value(&self) -> (r: u8)
        ensures
            r == self.initial() || r == 20,
    {
        proof {
            use_type_invariant(self);
        }
        self.value.get()
    }
}

} // verus!
