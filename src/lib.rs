//! Construction and signing of a fungible-token transfer transaction for an
//! Ethereum-compatible ledger: key-to-address derivation, call-data encoding,
//! legacy transaction assembly, RLP serialization and recoverable ECDSA signing.

pub mod error;
pub mod hash;
pub mod uint;
pub mod keys;
pub mod calldata;
pub mod rlp;
pub mod tx;
pub mod signer;
pub mod transfer;

pub use calldata::{decode_transfer, encode_transfer};
pub use error::TransferError;
pub use keys::{derive_address, derive_public_key, Address, PublicKey};
pub use signer::{assemble_signed, sign, SignedTransaction};
pub use transfer::prepare_transfer;
pub use tx::{build, UnsignedTransaction};
pub use uint::Uint256;
