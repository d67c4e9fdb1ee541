//! Resource, suspense and hydration core of a reactive UI runtime.
//!
//! Text travels as UTF-8 bytes; every decoder here is checked against the
//! matching encoder, so values with code points outside 7-bit ASCII survive
//! the trip between the producing and the displaying side unchanged.
use vstd::prelude::*;

pub mod codec;
pub mod envelope;
pub mod gateway;
pub mod hydration;
pub mod resource;
pub mod signal;
pub mod suspense;

verus! {

} // verus!
