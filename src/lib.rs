//! Zero-knowledge relations of a data-trading protocol, modelled over the
//! scalar field of BN254.

use vstd::prelude::*;

pub mod cat;
pub mod constraints;
pub mod dog;
pub mod error;
pub mod field;
pub mod laws;
pub mod lifecycle;
pub mod registerdata;
pub mod relation;
pub mod tiger;

verus! {

/// The sum of two integers that fit together in an `i32`.
pub fn add_numbers(a: i32, b: i32) -> (r: i32)
    requires
        i32::MIN <= a + b <= i32::MAX,
    ensures
        r == a + b,
{
    a + b
}

} // verus!
