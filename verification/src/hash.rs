//! Key hashing schemes.
//!
//! A scheme turns the encoding of a key into the bytes that stand for the key
//! inside an address. The digests themselves come from `sp_crypto_hashing`;
//! everything around them (which digest a scheme uses, whether the key is
//! appended, how a key is read back out of an address) is defined and proved
//! here.

use vstd::prelude::*;
use vstd::slice::slice_to_vec;
use crate::bytes::{join, tail};

verus! {

/// The digest that `sp_crypto_hashing::twox_64` returns for `data`.
pub uninterp spec fn twox_64_digest(data: Seq<u8>) -> [u8; 8];

/// The digest that `sp_crypto_hashing::twox_128` returns for `data`.
pub uninterp spec fn twox_128_digest(data: Seq<u8>) -> [u8; 16];

/// The digest that `sp_crypto_hashing::twox_256` returns for `data`.
pub uninterp spec fn twox_256_digest(data: Seq<u8>) -> [u8; 32];

/// The digest that `sp_crypto_hashing::blake2_128` returns for `data`.
pub uninterp spec fn blake2_128_digest(data: Seq<u8>) -> [u8; 16];

/// The digest that `sp_crypto_hashing::blake2_256` returns for `data`.
pub uninterp spec fn blake2_256_digest(data: Seq<u8>) -> [u8; 32];

/// `sp_crypto_hashing::twox_64` is a function of the input bytes alone; its
/// result is the 8-byte array named `twox_64_digest`.
pub assume_specification[ sp_crypto_hashing::twox_64 ](data: &[u8]) -> (out: [u8; 8])
    ensures
        out == twox_64_digest(data@),
;

/// `sp_crypto_hashing::twox_128` is a function of the input bytes alone; its
/// result is the 16-byte array named `twox_128_digest`.
pub assume_specification[ sp_crypto_hashing::twox_128 ](data: &[u8]) -> (out: [u8; 16])
    ensures
        out == twox_128_digest(data@),
;

/// `sp_crypto_hashing::twox_256` is a function of the input bytes alone; its
/// result is the 32-byte array named `twox_256_digest`.
pub assume_specification[ sp_crypto_hashing::twox_256 ](data: &[u8]) -> (out: [u8; 32])
    ensures
        out == twox_256_digest(data@),
;

/// `sp_crypto_hashing::blake2_128` is a function of the input bytes alone; its
/// result is the 16-byte array named `blake2_128_digest`.
pub assume_specification[ sp_crypto_hashing::blake2_128 ](data: &[u8]) -> (out: [u8; 16])
    ensures
        out == blake2_128_digest(data@),
;

/// `sp_crypto_hashing::blake2_256` is a function of the input bytes alone; its
/// result is the 32-byte array named `blake2_256_digest`.
pub assume_specification[ sp_crypto_hashing::blake2_256 ](data: &[u8]) -> (out: [u8; 32])
    ensures
        out == blake2_256_digest(data@),
;


/// A key hashing scheme.
///
/// The three schemes that append the key after the digest (`Identity` has
/// an empty digest) keep the key recoverable from the hashed bytes; the
/// other four do not.
#[allow(non_camel_case_types)]
#[derive(Clone, Copy, Debug, PartialEq, Eq, Structural)]
pub enum StorageHasher {
    Blake2_128,
    Blake2_256,
    Blake2_128Concat,
    Twox128,
    Twox256,
    Twox64Concat,
    Identity,
}

impl StorageHasher {
    /// The number of digest bytes at the start of every hashed key.
    pub open spec fn digest_len(self) -> nat {
        match self {
            StorageHasher::Blake2_128 => 16,
            StorageHasher::Blake2_256 => 32,
            StorageHasher::Blake2_128Concat => 16,
            StorageHasher::Twox128 => 16,
            StorageHasher::Twox256 => 32,
            StorageHasher::Twox64Concat => 8,
            StorageHasher::Identity => 0,
        }
    }

    /// Whether the scheme appends the key itself after the digest, so that
    /// the key can be read back out of the hashed bytes.
    pub open spec fn reversible(self) -> bool {
        match self {
            StorageHasher::Blake2_128Concat => true,
            StorageHasher::Twox64Concat => true,
            StorageHasher::Identity => true,
            _ => false,
        }
    }

    /// The digest part of the hashed key.
    pub open spec fn spec_digest(self, data: Seq<u8>) -> Seq<u8> {
        match self {
            StorageHasher::Blake2_128 => blake2_128_digest(data)@,
            StorageHasher::Blake2_256 => blake2_256_digest(data)@,
            StorageHasher::Blake2_128Concat => blake2_128_digest(data)@,
            StorageHasher::Twox128 => twox_128_digest(data)@,
            StorageHasher::Twox256 => twox_256_digest(data)@,
            StorageHasher::Twox64Concat => twox_64_digest(data)@,
            StorageHasher::Identity => Seq::empty(),
        }
    }

    /// The hashed key, given the digest of the key: the digest alone, or the
    /// digest followed by the key for a reversible scheme.
    pub open spec fn assembled(self, digest: Seq<u8>, data: Seq<u8>) -> Seq<u8> {
        if self.reversible() {
            digest + data
        } else {
            digest
        }
    }

    /// The bytes that stand for the encoded key `data` inside an address.
    pub open spec fn transform(self, data: Seq<u8>) -> Seq<u8> {
        self.assembled(self.spec_digest(data), data)
    }

    /// The key that a hashed key was made from, where the scheme keeps it:
    /// what follows the digest. `None` for a scheme that keeps no key and for
    /// bytes shorter than a digest.
    pub open spec fn spec_reverse(self, hashed: Seq<u8>) -> Option<Seq<u8>> {
        if self.reversible() && hashed.len() >= self.digest_len() {
            Some(hashed.subrange(self.digest_len() as int, hashed.len() as int))
        } else {
            None
        }
    }

    /// Every digest of a scheme has the scheme's digest length.
    pub proof fn lemma_digest_len(self, data: Seq<u8>)
        ensures
            self.spec_digest(data).len() == self.digest_len(),
    {
    }

    /// Reading the key back out of a hashed key gives the key that went in,
    /// for every reversible scheme.
    pub proof fn lemma_reverse_transform(self, data: Seq<u8>)
        requires
            self.reversible(),
        ensures
            self.spec_reverse(self.transform(data)) == Some(data),
    {
        let hashed = self.transform(data);
        self.lemma_digest_len(data);
        assert(hashed.subrange(self.digest_len() as int, hashed.len() as int) =~= data);
    }

    /// Two keys that a reversible scheme hashes to the same bytes are the
    /// same key.
    pub proof fn lemma_transform_injective(self, a: Seq<u8>, b: Seq<u8>)
        requires
            self.reversible(),
            self.transform(a) == self.transform(b),
        ensures
            a == b,
    {
        self.lemma_reverse_transform(a);
        self.lemma_reverse_transform(b);
    }

    /// Whether the scheme keeps the key recoverable.
    pub fn is_reversible(&self) -> (yes: bool)
        ensures
            yes == self.reversible(),
    {
        match self {
            StorageHasher::Blake2_128Concat => true,
            StorageHasher::Twox64Concat => true,
            StorageHasher::Identity => true,
            _ => false,
        }
    }

    /// The length of the scheme's digest in bytes.
    pub fn digest_length(&self) -> (len: usize)
        ensures
            len == self.digest_len(),
    {
        match self {
            StorageHasher::Blake2_128 => 16,
            StorageHasher::Blake2_256 => 32,
            StorageHasher::Blake2_128Concat => 16,
            StorageHasher::Twox128 => 16,
            StorageHasher::Twox256 => 32,
            StorageHasher::Twox64Concat => 8,
            StorageHasher::Identity => 0,
        }
    }

    /// Computes the digest part of the hashed key.
    pub fn digest(&self, data: &[u8]) -> (out: Vec<u8>)
        ensures
            out@ == self.spec_digest(data@),
            out@.len() == self.digest_len(),
    {
        match self {
            StorageHasher::Blake2_128 => slice_to_vec(
                sp_crypto_hashing::blake2_128(data).as_slice(),
            ),
            StorageHasher::Blake2_256 => slice_to_vec(
                sp_crypto_hashing::blake2_256(data).as_slice(),
            ),
            StorageHasher::Blake2_128Concat => slice_to_vec(
                sp_crypto_hashing::blake2_128(data).as_slice(),
            ),
            StorageHasher::Twox128 => slice_to_vec(sp_crypto_hashing::twox_128(data).as_slice()),
            StorageHasher::Twox256 => slice_to_vec(sp_crypto_hashing::twox_256(data).as_slice()),
            StorageHasher::Twox64Concat => slice_to_vec(
                sp_crypto_hashing::twox_64(data).as_slice(),
            ),
            StorageHasher::Identity => Vec::new(),
        }
    }

    /// Puts a hashed key together from the digest of the key and the key.
    pub fn assemble(&self, digest: Vec<u8>, data: &[u8]) -> (out: Vec<u8>)
        ensures
            out@ == self.assembled(digest@, data@),
    {
        if self.is_reversible() {
            join(digest.as_slice(), data)
        } else {
            digest
        }
    }

    /// Hashes the encoded key `data`.
    pub fn hash(&self, data: &[u8]) -> (out: Vec<u8>)
        ensures
            out@ == self.transform(data@),
    {
        let digest = self.digest(data);
        self.assemble(digest, data)
    }

    /// Reads the encoded key back out of a hashed key.
    pub fn reverse(&self, hashed: &[u8]) -> (out: Option<Vec<u8>>)
        ensures
            match out {
                Some(key) => self.spec_reverse(hashed@) == Some(key@),
                None => self.spec_reverse(hashed@) is None,
            },
    {
        let skip = self.digest_length();
        if self.is_reversible() && hashed.len() >= skip {
            Some(tail(hashed, skip))
        } else {
            None
        }
    }
}

/// The digest that fixes the place of a module or an entry inside an address:
/// the 128-bit xxHash of the identity's bytes.
pub open spec fn spec_hash128(data: Seq<u8>) -> Seq<u8> {
    twox_128_digest(data)@
}

/// Computes the 16-byte digest of an identity.
pub fn hash128(data: &[u8]) -> (out: Vec<u8>)
    ensures
        out@ == spec_hash128(data@),
        out@.len() == 16,
{
    slice_to_vec(sp_crypto_hashing::twox_128(data).as_slice())
}

} // verus!
