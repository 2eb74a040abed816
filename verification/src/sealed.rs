//! A marker that only this crate's integer types carry, so that no other crate can add element
//! types with arithmetic of their own.
use vstd::prelude::*;

verus! {

pub trait Sealed {}

} // verus!
