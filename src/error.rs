use vstd::prelude::*;

verus! {

/// The failures that the store's logic reports.
#[derive(Clone, Copy, Debug, PartialEq, Eq, Structural)]
pub enum StoreError {
    /// A record, link or list does not have the shape the store writes.
    InvalidData,
    /// A record ends before the header or salt it announces.
    Truncated,
    /// The record is present but marked disabled.
    AuthDisabled,
    /// The candidate password does not produce the stored digest.
    IncorrectPassword,
    /// The random source could not produce a salt.
    Io,
}

} // verus!
