//! The error taxonomy: schema lookups that cannot be answered, and byte
//! decoding that cannot complete. Either is fatal to the single operation
//! that raised it and is never retried inside the library.

use crate::metadata::StorageHasher;
use vstd::prelude::*;

verus! {

/// The metadata does not describe what was asked of it.
#[derive(Debug)]
pub enum SchemaError {
    /// No pallet answers to this call-pallet index.
    PalletIndexNotFound { index: u8 },
    /// No pallet has this name.
    PalletNotFound { name: String },
    /// The pallet declares no calls.
    NoCallsInPallet { pallet: String },
    /// The pallet has no call with this index.
    CallNotFound { pallet: String, index: u8 },
    /// A declared type name does not parse as a type path.
    InvalidTypeName { name: String },
    /// The pallet declares no storage entries.
    NoStorageInPallet { pallet: String },
    /// The pallet has no storage entry with this name.
    StorageEntryNotFound { pallet: String, entry: String },
    /// A multi-key entry declares neither one hasher for all keys nor one
    /// hasher per key.
    HasherKeyCountMismatch { hashers: usize, keys: usize },
    /// The type table has no entry with this id.
    TypeNotFound { id: u32 },
    /// The pallet's calls type is not a tagged union.
    CallsTypeNotVariant { pallet: String },
    /// The extrinsic type lacks a required generic parameter.
    MissingTypeParam { name: String },
    /// A call argument carries no name.
    UnnamedCallArgument { pallet: String, call: String },
}

/// A byte buffer does not hold what the schema says it should.
#[derive(Debug)]
pub enum DecodeError {
    /// The schema lookup behind the decode failed.
    Schema(SchemaError),
    /// The leading compact length prefix is malformed.
    CannotDecodeLength,
    /// The bytes after the length prefix are not exactly as many as it
    /// declares.
    WrongLength { expected: u64, have: usize },
    /// The extrinsic body is empty where an envelope byte is required.
    MissingEnvelope,
    /// The envelope byte names a transaction format this library does not
    /// decode.
    UnsupportedVersion { version: u8 },
    /// A typed value would not decode; the message is the resolver's.
    CannotDecodeValue { context: String, message: String },
    /// Bytes remain after a fully decoded extrinsic; the decoded call is
    /// carried for diagnostics.
    LeftoverBytes {
        pallet_name: String,
        call_name: String,
        args: Vec<(String, scale_value::Value<String>)>,
        leftover: usize,
    },
    /// The storage key does not start with the two 128-bit hashes of the
    /// pallet and entry names.
    PrefixMismatch { pallet: String, entry: String },
    /// The storage key ends before the declared key parts do.
    KeyBytesExhausted { hasher: StorageHasher },
    /// Bytes remain after the declared storage key parts.
    LeftoverKeyBytes { leftover: usize },
    /// Bytes remain after a fully decoded storage value.
    LeftoverValueBytes { leftover: usize },
}

} // verus!
