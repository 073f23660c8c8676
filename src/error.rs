use vstd::prelude::*;

verus! {

/// The ways in which building or signing a transfer can fail.
#[derive(Debug, Clone, Copy, PartialEq, Eq, Structural)]
pub enum TransferError {
    /// The private key is not a valid secp256k1 scalar.
    InvalidKey,
    /// The amount does not fit in 256 bits.
    AmountOverflow,
    /// A transaction field holds a value the builder refuses.
    InvalidField,
    /// Signing could not be carried out with the given key.
    SigningError,
}

} // verus!
