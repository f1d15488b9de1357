//! The ways in which a storage operation can fail.

use vstd::prelude::*;

verus! {

/// Why a storage operation did not do what was asked.
#[derive(Debug, PartialEq, Eq)]
pub enum StorageError {
    /// The record at `address`, `len` bytes long, is not the encoding of a
    /// value or key of the expected type.
    DecodeFailure { address: Vec<u8>, len: usize },
    /// The value is too large for the codec; nothing was written.
    EncodingOverflow,
    /// The entry's hashing scheme does not keep keys, so its records cannot
    /// be enumerated by key.
    KeysNotRecoverable,
}

/// The mathematical content of a [`StorageError`].
pub enum StorageErrorView {
    DecodeFailure { address: Seq<u8>, len: nat },
    EncodingOverflow,
    KeysNotRecoverable,
}

impl View for StorageError {
    type V = StorageErrorView;

    open spec fn view(&self) -> StorageErrorView {
        match self {
            StorageError::DecodeFailure { address, len } => StorageErrorView::DecodeFailure {
                address: address@,
                len: *len as nat,
            },
            StorageError::EncodingOverflow => StorageErrorView::EncodingOverflow,
            StorageError::KeysNotRecoverable => StorageErrorView::KeysNotRecoverable,
        }
    }
}

/// `out` reports a key or a value without an encoding.
pub open spec fn is_overflow<T>(out: Result<T, StorageError>) -> bool {
    out matches Err(e) && e@ == StorageErrorView::EncodingOverflow
}

impl StorageError {
    /// A short description of the error.
    pub fn message(&self) -> (text: String)
        ensures
            text@ == (match self@ {
                StorageErrorView::DecodeFailure { .. } => "stored bytes do not decode"@,
                StorageErrorView::EncodingOverflow => "value too large to encode"@,
                StorageErrorView::KeysNotRecoverable => "hashing scheme does not keep keys"@,
            }),
    {
        match self {
            StorageError::DecodeFailure { .. } => "stored bytes do not decode".to_owned(),
            StorageError::EncodingOverflow => "value too large to encode".to_owned(),
            StorageError::KeysNotRecoverable => "hashing scheme does not keep keys".to_owned(),
        }
    }
}

} // verus!
