use vstd::prelude::*;

verus! {

/// Keeps `ReadLE` to the scalar types that this crate implements it for.
pub trait Sealed {}

impl Sealed for u8 {}

impl Sealed for u16 {}

impl Sealed for u32 {}

impl Sealed for u64 {}

impl Sealed for i8 {}

impl Sealed for i16 {}

impl Sealed for i32 {}

impl Sealed for i64 {}

} // verus!
