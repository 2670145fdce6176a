//! Constants, expression values and returned ownership.
use vstd::prelude::*;

verus! {

/// A constant of the global scope.
pub const GLOBAL_CONSTANT: u8 = 0;

/// A constant built from other constants and a literal.
pub const ANOTHER_CONSTANT: u8 = GLOBAL_CONSTANT + GLOBAL_CONSTANT + 25;

/// Always ten.
pub fn get_constant() -> (r: u8)
    ensures
        r == 10,
{
    10
}

/// The value of the block's last expression, `10 + 5`.
pub fn get() -> (r: u8)
    ensures
        r == 15,
{
    10 + 5
}

/// Hands a newly allocated string to the caller, who then owns it.
pub fn third_function() -> (r: String)
    ensures
        r@ == "my string"@,
{
    "my string".to_owned()
}

} // verus!
