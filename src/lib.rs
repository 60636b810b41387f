//! Typed access to memory-mapped register blocks.
//!
//! A register block is described as an ordered list of fields, each with a
//! byte size, a shape and an access annotation. The description is parsed
//! and validated, and an accessor table is synthesized for it: for every
//! field the set of read, write, modify, pointer and nested-block
//! operations that a handle to the block offers, with their receivers and
//! their safety. Handles then check each register access against the
//! derived definition and resolve it to an address: capability checks and
//! bounds checks are decided here, and the memory access itself is made on
//! a memory (a simulated one here, or real hardware by the caller).
use vstd::prelude::*;

pub mod access;
pub mod block;
pub mod error;
pub mod handle;
pub mod laws;
pub mod layout;
pub mod synth;

verus! {

/// The error of a bounds-checked access: the index that was out of range.
#[derive(Debug, PartialEq, Eq, Structural, Clone, Copy)]
pub struct OutOfBoundsError(pub usize);

impl OutOfBoundsError {
    /// The offending index.
    pub fn index(&self) -> (r: usize)
        ensures
            r == self.0,
    {
        self.0
    }

    /// The message of the error: `out of bounds access at index <i>`.
    pub fn message(&self) -> (r: String)
        ensures
            r@ == out_of_bounds_message(self.0),
    {
        out_of_bounds_text(self.0)
    }
}

/// The decimal digit of `d < 10`.
pub open spec fn digit(d: nat) -> char {
    if d == 0 { '0' } else if d == 1 { '1' } else if d == 2 { '2' } else if d == 3 { '3' }
    else if d == 4 { '4' } else if d == 5 { '5' } else if d == 6 { '6' } else if d == 7 { '7' }
    else if d == 8 { '8' } else { '9' }
}

/// The decimal digits of `n`, without leading zeros.
pub open spec fn decimal(n: nat) -> Seq<char>
    decreases n,
{
    if n < 10 {
        seq![digit(n)]
    } else {
        decimal(n / 10) + seq![digit(n % 10)]
    }
}

/// The text of the error for index `i`.
pub open spec fn out_of_bounds_message(i: usize) -> Seq<char> {
    "out of bounds access at index "@ + decimal(i as nat)
}

/// Relies on std's `format!`, whose `{}` writes a `usize` in decimal
/// digits without leading zeros.
#[verifier::external_body]
fn out_of_bounds_text(i: usize) -> (r: String)
    ensures
        r@ == out_of_bounds_message(i),
{
    format!("out of bounds access at index {}", i)
}

/// A read-only projection of a handle to a nested block: it hands out only
/// a shared reference to the handle, so only the non-mutating accessors can
/// be used through it.
pub struct SharedInnerMmio<T>(T);

impl<T> SharedInnerMmio<T> {
    /// The projected handle.
    pub closed spec fn value(self) -> T {
        self.0
    }

    /// Wraps a handle.
    pub fn __new_internal(t: T) -> (r: Self)
        ensures
            r.value() == t,
    {
        SharedInnerMmio(t)
    }

    /// A shared reference to the handle.
    pub fn inner(&self) -> (r: &T)
        ensures
            *r == self.value(),
    {
        &self.0
    }
}

impl<T> core::ops::Deref for SharedInnerMmio<T> {
    type Target = T;

    fn deref(&self) -> &T {
        self.inner()
    }
}

/// The marker of a handle type derived from a register-block declaration.
/// A nested block must have such a handle.
pub trait _MmioMarker {

}

impl _MmioMarker for handle::MmioHandle<'_> {

}

/// Compiles only for a type that carries the marker: a call checks the bound.
pub fn is_mmio<M: _MmioMarker>() {
}

} // verus!
