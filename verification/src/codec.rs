//! The byte encoding of keys and values.
//!
//! The encoding is SCALE, as `parity_scale_codec` implements it. [`Codec`]
//! states, for each supported type, which bytes a value encodes to and which
//! value a byte string decodes to, and proves that decoding undoes encoding.
//! The calls into `parity_scale_codec` stand in small functions whose
//! contracts restate what the crate does for that type.

use vstd::prelude::*;
use vstd::bytes::{
    spec_u16_from_le_bytes, spec_u16_to_le_bytes, spec_u32_from_le_bytes, spec_u32_to_le_bytes,
    spec_u64_from_le_bytes, spec_u64_to_le_bytes, spec_u128_from_le_bytes, spec_u128_to_le_bytes,
    lemma_auto_spec_u16_to_from_le_bytes, lemma_auto_spec_u32_to_from_le_bytes,
    lemma_auto_spec_u64_to_from_le_bytes, lemma_auto_spec_u128_to_from_le_bytes,
};
use vstd::slice::{slice_subrange, slice_to_vec};
use crate::error::{StorageError, StorageErrorView};

verus! {

/// The error that `parity_scale_codec` reports when bytes do not decode.
#[verifier::external_type_specification]
#[verifier::external_body]
pub struct ExScaleError(parity_scale_codec::Error);

/// A type with a byte encoding.
///
/// `decoding` reads a value from the front of a byte string and ignores what
/// follows it, as stored records and hashed keys are read.
pub trait Codec: Sized + View {
    /// Whether the value has an encoding at all: a codec may bound sizes.
    spec fn encodable(value: Self::V) -> bool;

    /// The bytes that the value encodes to.
    spec fn encoding(value: Self::V) -> Seq<u8>;

    /// The value at the front of `bytes`, if there is one.
    spec fn decoding(bytes: Seq<u8>) -> Option<Self::V>;

    /// Decoding undoes encoding.
    proof fn lemma_round_trip(value: Self::V)
        requires
            Self::encodable(value),
        ensures
            Self::decoding(Self::encoding(value)) == Some(value),
    ;

    /// Encodes the value, or reports that it is too large.
    fn encode(&self) -> (out: Result<Vec<u8>, StorageError>)
        ensures
            match out {
                Ok(bytes) => Self::encodable(self@) && bytes@ == Self::encoding(self@),
                Err(e) => !Self::encodable(self@) && e@ == StorageErrorView::EncodingOverflow,
            },
    ;

    /// Decodes the value at the front of `bytes`.
    fn decode(bytes: &[u8]) -> (out: Option<Self>)
        ensures
            match out {
                Some(value) => Self::decoding(bytes@) == Some(value@),
                None => Self::decoding(bytes@) is None,
            },
    ;
}

/// `<u8 as Encode>::encode`: the byte itself.
#[verifier::external_body]
fn scale_encode_u8(value: u8) -> (out: Vec<u8>)
    ensures
        out@ == seq![value],
{
    parity_scale_codec::Encode::encode(&value)
}

/// `<u8 as Decode>::decode` on a byte slice: the first byte; an error on an
/// empty slice.
#[verifier::external_body]
fn scale_decode_u8(bytes: &[u8]) -> (out: Result<u8, parity_scale_codec::Error>)
    ensures
        out is Ok <==> bytes@.len() >= 1,
        out is Ok ==> out->Ok_0 == bytes@[0],
{
    let mut input = bytes;
    <u8 as parity_scale_codec::Decode>::decode(&mut input)
}

/// `<bool as Encode>::encode`: one byte, 1 for `true` and 0 for `false`.
#[verifier::external_body]
fn scale_encode_bool(value: bool) -> (out: Vec<u8>)
    ensures
        out@ == seq![if value { 1u8 } else { 0u8 }],
{
    parity_scale_codec::Encode::encode(&value)
}

/// `<bool as Decode>::decode` on a byte slice: `false` for a first byte 0,
/// `true` for 1; an error for any other first byte and on an empty slice.
#[verifier::external_body]
fn scale_decode_bool(bytes: &[u8]) -> (out: Result<bool, parity_scale_codec::Error>)
    ensures
        out is Ok <==> (bytes@.len() >= 1 && (bytes@[0] == 0 || bytes@[0] == 1)),
        out is Ok ==> out->Ok_0 == (bytes@[0] == 1),
{
    let mut input = bytes;
    <bool as parity_scale_codec::Decode>::decode(&mut input)
}

/// `<u16 as Encode>::encode`: the two bytes of the value, least significant
/// first.
#[verifier::external_body]
fn scale_encode_u16(value: u16) -> (out: Vec<u8>)
    ensures
        out@ == spec_u16_to_le_bytes(value),
{
    parity_scale_codec::Encode::encode(&value)
}

/// `<u16 as Decode>::decode` on a byte slice: the value whose little-endian
/// bytes are the first two; an error on a shorter slice.
#[verifier::external_body]
fn scale_decode_u16(bytes: &[u8]) -> (out: Result<u16, parity_scale_codec::Error>)
    ensures
        out is Ok <==> bytes@.len() >= 2,
        out is Ok ==> out->Ok_0 == spec_u16_from_le_bytes(bytes@.subrange(0, 2)),
{
    let mut input = bytes;
    <u16 as parity_scale_codec::Decode>::decode(&mut input)
}

/// `<u32 as Encode>::encode`: the four bytes of the value, least significant
/// first.
#[verifier::external_body]
fn scale_encode_u32(value: u32) -> (out: Vec<u8>)
    ensures
        out@ == spec_u32_to_le_bytes(value),
{
    parity_scale_codec::Encode::encode(&value)
}

/// `<u32 as Decode>::decode` on a byte slice: the value whose little-endian
/// bytes are the first four; an error on a shorter slice.
#[verifier::external_body]
fn scale_decode_u32(bytes: &[u8]) -> (out: Result<u32, parity_scale_codec::Error>)
    ensures
        out is Ok <==> bytes@.len() >= 4,
        out is Ok ==> out->Ok_0 == spec_u32_from_le_bytes(bytes@.subrange(0, 4)),
{
    let mut input = bytes;
    <u32 as parity_scale_codec::Decode>::decode(&mut input)
}

/// `<u64 as Encode>::encode`: the eight bytes of the value, least
/// significant first.
#[verifier::external_body]
fn scale_encode_u64(value: u64) -> (out: Vec<u8>)
    ensures
        out@ == spec_u64_to_le_bytes(value),
{
    parity_scale_codec::Encode::encode(&value)
}

/// `<u64 as Decode>::decode` on a byte slice: the value whose little-endian
/// bytes are the first eight; an error on a shorter slice.
#[verifier::external_body]
fn scale_decode_u64(bytes: &[u8]) -> (out: Result<u64, parity_scale_codec::Error>)
    ensures
        out is Ok <==> bytes@.len() >= 8,
        out is Ok ==> out->Ok_0 == spec_u64_from_le_bytes(bytes@.subrange(0, 8)),
{
    let mut input = bytes;
    <u64 as parity_scale_codec::Decode>::decode(&mut input)
}

/// `<u128 as Encode>::encode`: the sixteen bytes of the value, least
/// significant first.
#[verifier::external_body]
fn scale_encode_u128(value: u128) -> (out: Vec<u8>)
    ensures
        out@ == spec_u128_to_le_bytes(value),
{
    parity_scale_codec::Encode::encode(&value)
}

/// `<u128 as Decode>::decode` on a byte slice: the value whose little-endian
/// bytes are the first sixteen; an error on a shorter slice.
#[verifier::external_body]
fn scale_decode_u128(bytes: &[u8]) -> (out: Result<u128, parity_scale_codec::Error>)
    ensures
        out is Ok <==> bytes@.len() >= 16,
        out is Ok ==> out->Ok_0 == spec_u128_from_le_bytes(bytes@.subrange(0, 16)),
{
    let mut input = bytes;
    <u128 as parity_scale_codec::Decode>::decode(&mut input)
}

impl Codec for u8 {
    open spec fn encodable(value: u8) -> bool {
        true
    }

    open spec fn encoding(value: u8) -> Seq<u8> {
        seq![value]
    }

    open spec fn decoding(bytes: Seq<u8>) -> Option<u8> {
        if bytes.len() >= 1 {
            Some(bytes[0])
        } else {
            None
        }
    }

    proof fn lemma_round_trip(value: u8) {
    }

    fn encode(&self) -> (out: Result<Vec<u8>, StorageError>) {
        Ok(scale_encode_u8(*self))
    }

    fn decode(bytes: &[u8]) -> (out: Option<u8>) {
        match scale_decode_u8(bytes) {
            Ok(value) => Some(value),
            Err(_) => None,
        }
    }
}

impl Codec for bool {
    open spec fn encodable(value: bool) -> bool {
        true
    }

    open spec fn encoding(value: bool) -> Seq<u8> {
        seq![if value { 1u8 } else { 0u8 }]
    }

    open spec fn decoding(bytes: Seq<u8>) -> Option<bool> {
        if bytes.len() >= 1 && bytes[0] <= 1 {
            Some(bytes[0] == 1)
        } else {
            None
        }
    }

    proof fn lemma_round_trip(value: bool) {
    }

    fn encode(&self) -> (out: Result<Vec<u8>, StorageError>) {
        Ok(scale_encode_bool(*self))
    }

    fn decode(bytes: &[u8]) -> (out: Option<bool>) {
        match scale_decode_bool(bytes) {
            Ok(value) => Some(value),
            Err(_) => None,
        }
    }
}

impl Codec for u16 {
    open spec fn encodable(value: u16) -> bool {
        true
    }

    open spec fn encoding(value: u16) -> Seq<u8> {
        spec_u16_to_le_bytes(value)
    }

    open spec fn decoding(bytes: Seq<u8>) -> Option<u16> {
        if bytes.len() >= 2 {
            Some(spec_u16_from_le_bytes(bytes.subrange(0, 2)))
        } else {
            None
        }
    }

    proof fn lemma_round_trip(value: u16) {
        lemma_auto_spec_u16_to_from_le_bytes();
        let bytes = spec_u16_to_le_bytes(value);
        assert(bytes.subrange(0, 2) =~= bytes);
    }

    fn encode(&self) -> (out: Result<Vec<u8>, StorageError>) {
        Ok(scale_encode_u16(*self))
    }

    fn decode(bytes: &[u8]) -> (out: Option<u16>) {
        match scale_decode_u16(bytes) {
            Ok(value) => Some(value),
            Err(_) => None,
        }
    }
}

impl Codec for u32 {
    open spec fn encodable(value: u32) -> bool {
        true
    }

    open spec fn encoding(value: u32) -> Seq<u8> {
        spec_u32_to_le_bytes(value)
    }

    open spec fn decoding(bytes: Seq<u8>) -> Option<u32> {
        if bytes.len() >= 4 {
            Some(spec_u32_from_le_bytes(bytes.subrange(0, 4)))
        } else {
            None
        }
    }

    proof fn lemma_round_trip(value: u32) {
        lemma_auto_spec_u32_to_from_le_bytes();
        let bytes = spec_u32_to_le_bytes(value);
        assert(bytes.subrange(0, 4) =~= bytes);
    }

    fn encode(&self) -> (out: Result<Vec<u8>, StorageError>) {
        Ok(scale_encode_u32(*self))
    }

    fn decode(bytes: &[u8]) -> (out: Option<u32>) {
        match scale_decode_u32(bytes) {
            Ok(value) => Some(value),
            Err(_) => None,
        }
    }
}

impl Codec for u64 {
    open spec fn encodable(value: u64) -> bool {
        true
    }

    open spec fn encoding(value: u64) -> Seq<u8> {
        spec_u64_to_le_bytes(value)
    }

    open spec fn decoding(bytes: Seq<u8>) -> Option<u64> {
        if bytes.len() >= 8 {
            Some(spec_u64_from_le_bytes(bytes.subrange(0, 8)))
        } else {
            None
        }
    }

    proof fn lemma_round_trip(value: u64) {
        lemma_auto_spec_u64_to_from_le_bytes();
        let bytes = spec_u64_to_le_bytes(value);
        assert(bytes.subrange(0, 8) =~= bytes);
    }

    fn encode(&self) -> (out: Result<Vec<u8>, StorageError>) {
        Ok(scale_encode_u64(*self))
    }

    fn decode(bytes: &[u8]) -> (out: Option<u64>) {
        match scale_decode_u64(bytes) {
            Ok(value) => Some(value),
            Err(_) => None,
        }
    }
}

impl Codec for u128 {
    open spec fn encodable(value: u128) -> bool {
        true
    }

    open spec fn encoding(value: u128) -> Seq<u8> {
        spec_u128_to_le_bytes(value)
    }

    open spec fn decoding(bytes: Seq<u8>) -> Option<u128> {
        if bytes.len() >= 16 {
            Some(spec_u128_from_le_bytes(bytes.subrange(0, 16)))
        } else {
            None
        }
    }

    proof fn lemma_round_trip(value: u128) {
        lemma_auto_spec_u128_to_from_le_bytes();
        let bytes = spec_u128_to_le_bytes(value);
        assert(bytes.subrange(0, 16) =~= bytes);
    }

    fn encode(&self) -> (out: Result<Vec<u8>, StorageError>) {
        Ok(scale_encode_u128(*self))
    }

    fn decode(bytes: &[u8]) -> (out: Option<u128>) {
        match scale_decode_u128(bytes) {
            Ok(value) => Some(value),
            Err(_) => None,
        }
    }
}


/// The compact encoding of a length below 2^32: one, two or four bytes whose
/// two lowest bits say which and whose other bits hold the length, least
/// significant byte first; or, from 2^30 on, the byte 3 and the four bytes of
/// the length.
pub open spec fn compact_encoding(n: nat) -> Seq<u8> {
    if n < 64 {
        seq![(4 * n) as u8]
    } else if n < 16384 {
        seq![((4 * n + 1) % 256) as u8, ((4 * n + 1) / 256) as u8]
    } else if n < 1073741824 {
        seq![
            ((4 * n + 2) % 256) as u8,
            ((4 * n + 2) / 256 % 256) as u8,
            ((4 * n + 2) / 65536 % 256) as u8,
            ((4 * n + 2) / 16777216) as u8,
        ]
    } else {
        seq![
            3u8,
            (n % 256) as u8,
            (n / 256 % 256) as u8,
            (n / 65536 % 256) as u8,
            (n / 16777216) as u8,
        ]
    }
}

/// The length in compact encoding at the front of `bytes`, with the number
/// of bytes that it takes. A length that a shorter form could hold is not
/// accepted in a longer one.
pub open spec fn compact_decoding(bytes: Seq<u8>) -> Option<(nat, nat)> {
    if bytes.len() < 1 {
        None
    } else if bytes[0] % 4 == 0 {
        Some(((bytes[0] / 4) as nat, 1))
    } else if bytes[0] % 4 == 1 {
        if bytes.len() >= 2 && (bytes[0] + 256 * bytes[1]) / 4 > 63 {
            Some((((bytes[0] + 256 * bytes[1]) / 4) as nat, 2))
        } else {
            None
        }
    } else if bytes[0] % 4 == 2 {
        if bytes.len() >= 4 && (bytes[0] + 256 * bytes[1] + 65536 * bytes[2] + 16777216 * bytes[3])
            / 4 > 16383 {
            Some(
                (
                    ((bytes[0] + 256 * bytes[1] + 65536 * bytes[2] + 16777216 * bytes[3])
                        / 4) as nat,
                    4,
                ),
            )
        } else {
            None
        }
    } else {
        if bytes[0] == 3 && bytes.len() >= 5 && bytes[1] + 256 * bytes[2] + 65536 * bytes[3]
            + 16777216 * bytes[4] > 1073741823 {
            Some(((bytes[1] + 256 * bytes[2] + 65536 * bytes[3] + 16777216 * bytes[4]) as nat, 5))
        } else {
            None
        }
    }
}

proof fn lemma_split_two(x: int)
    requires
        0 <= x < 65536,
    ensures
        x % 256 + 256 * (x / 256) == x,
        0 <= x / 256 < 256,
        (x % 256) % 4 == x % 4,
{
}

proof fn lemma_split_four(x: int)
    requires
        0 <= x < 4294967296,
    ensures
        x % 256 + 256 * (x / 256 % 256) + 65536 * (x / 65536 % 256) + 16777216 * (x / 16777216)
            == x,
        0 <= x / 16777216 < 256,
        (x % 256) % 4 == x % 4,
{
    let low = x % 65536;
    let high = x / 65536;
    assert(x == low + 65536 * high);
    lemma_split_two(low);
    lemma_split_two(high);
    assert(low / 256 == x / 256 % 256);
    assert(low % 256 == x % 256);
    assert(high % 256 == x / 65536 % 256);
    assert(high / 256 == x / 16777216);
}

/// A compact length is read back from the front of whatever it is followed
/// by.
pub proof fn lemma_compact_round_trip(n: nat, rest: Seq<u8>)
    requires
        n <= u32::MAX,
    ensures
        compact_decoding(compact_encoding(n) + rest) == Some((n, compact_encoding(n).len())),
{
    let header = compact_encoding(n);
    let bytes = header + rest;
    if n < 64 {
        assert(bytes[0] == header[0]);
        assert(bytes[0] as int == 4 * n);
    } else if n < 16384 {
        let x = (4 * n + 1) as int;
        lemma_split_two(x);
        assert(bytes[0] == header[0] && bytes[1] == header[1]);
        assert(bytes[0] as int == x % 256);
        assert(bytes[1] as int == x / 256);
        assert(bytes[0] + 256 * bytes[1] == x);
    } else if n < 1073741824 {
        let x = (4 * n + 2) as int;
        lemma_split_four(x);
        assert(bytes[0] == header[0] && bytes[1] == header[1] && bytes[2] == header[2] && bytes[3]
            == header[3]);
        assert(bytes[0] as int == x % 256);
        assert(bytes[1] as int == x / 256 % 256);
        assert(bytes[2] as int == x / 65536 % 256);
        assert(bytes[3] as int == x / 16777216);
        assert(bytes[0] + 256 * bytes[1] + 65536 * bytes[2] + 16777216 * bytes[3] == x);
    } else {
        let x = n as int;
        lemma_split_four(x);
        assert(bytes[0] == header[0] && bytes[1] == header[1] && bytes[2] == header[2] && bytes[3]
            == header[3] && bytes[4] == header[4]);
        assert(bytes[0] == 3);
        assert(bytes[1] as int == x % 256);
        assert(bytes[2] as int == x / 256 % 256);
        assert(bytes[3] as int == x / 65536 % 256);
        assert(bytes[4] as int == x / 16777216);
        assert(bytes[1] + 256 * bytes[2] + 65536 * bytes[3] + 16777216 * bytes[4] == x);
    }
}

/// The byte string in SCALE encoding at the front of `bytes`: a compact
/// length and as many bytes after it.
pub open spec fn bytes_decoding(bytes: Seq<u8>) -> Option<Seq<u8>> {
    match compact_decoding(bytes) {
        None => None,
        Some((n, header)) => if bytes.len() - header >= n {
            Some(bytes.subrange(header as int, (header + n) as int))
        } else {
            None
        },
    }
}

/// `<Vec<u8> as Encode>::encode`: the compact encoding of the length,
/// followed by the bytes. The crate panics on a length above `u32::MAX`.
#[verifier::external_body]
fn scale_encode_bytes(value: &Vec<u8>) -> (out: Vec<u8>)
    requires
        value@.len() <= u32::MAX,
    ensures
        out@ == compact_encoding(value@.len()) + value@,
{
    parity_scale_codec::Encode::encode(value)
}

/// `<Vec<u8> as Decode>::decode` on a byte slice: the bytes that follow a
/// compact length at the front, as many as the length says; an error where
/// the length is malformed or more than the bytes that are left.
#[verifier::external_body]
fn scale_decode_bytes(bytes: &[u8]) -> (out: Result<Vec<u8>, parity_scale_codec::Error>)
    ensures
        out is Ok <==> bytes_decoding(bytes@) is Some,
        out is Ok ==> Some(out->Ok_0@) == bytes_decoding(bytes@),
{
    let mut input = bytes;
    <Vec<u8> as parity_scale_codec::Decode>::decode(&mut input)
}

impl Codec for Vec<u8> {
    open spec fn encodable(value: Seq<u8>) -> bool {
        value.len() <= u32::MAX
    }

    open spec fn encoding(value: Seq<u8>) -> Seq<u8> {
        compact_encoding(value.len()) + value
    }

    open spec fn decoding(bytes: Seq<u8>) -> Option<Seq<u8>> {
        bytes_decoding(bytes)
    }

    proof fn lemma_round_trip(value: Seq<u8>) {
        lemma_compact_round_trip(value.len(), value);
        let header = compact_encoding(value.len());
        let bytes = header + value;
        assert(bytes.subrange(header.len() as int, (header.len() + value.len()) as int) =~= value);
    }

    fn encode(&self) -> (out: Result<Vec<u8>, StorageError>) {
        if self.len() > 0xffff_ffff {
            Err(StorageError::EncodingOverflow)
        } else {
            Ok(scale_encode_bytes(self))
        }
    }

    fn decode(bytes: &[u8]) -> (out: Option<Vec<u8>>) {
        match scale_decode_bytes(bytes) {
            Ok(value) => Some(value),
            Err(_) => None,
        }
    }
}

/// The sequence of `n` unit items.
pub open spec fn units(n: nat) -> Seq<()> {
    Seq::new(n, |i: int| ())
}

/// `<Vec<()> as Encode>::encode`: the compact encoding of the length; the
/// items add no bytes. The crate panics on a length above `u32::MAX`.
#[verifier::external_body]
fn scale_encode_units(value: &Vec<()>) -> (out: Vec<u8>)
    requires
        value@.len() <= u32::MAX,
    ensures
        out@ == compact_encoding(value@.len()),
{
    parity_scale_codec::Encode::encode(value)
}

/// `<Vec<()> as Decode>::decode` on a byte slice: as many unit items as the
/// compact length at the front says; an error where the length is malformed.
#[verifier::external_body]
fn scale_decode_units(bytes: &[u8]) -> (out: Result<Vec<()>, parity_scale_codec::Error>)
    ensures
        out is Ok <==> compact_decoding(bytes@) is Some,
        out is Ok ==> out->Ok_0@.len() == compact_decoding(bytes@)->Some_0.0,
{
    let mut input = bytes;
    <Vec<()> as parity_scale_codec::Decode>::decode(&mut input)
}

/// A sequence of unit items is a tally: only its length is encoded.
impl Codec for Vec<()> {
    open spec fn encodable(value: Seq<()>) -> bool {
        value.len() <= u32::MAX
    }

    open spec fn encoding(value: Seq<()>) -> Seq<u8> {
        compact_encoding(value.len())
    }

    open spec fn decoding(bytes: Seq<u8>) -> Option<Seq<()>> {
        match compact_decoding(bytes) {
            None => None,
            Some((n, header)) => Some(units(n)),
        }
    }

    proof fn lemma_round_trip(value: Seq<()>) {
        lemma_compact_round_trip(value.len(), Seq::empty());
        assert(compact_encoding(value.len()) + Seq::<u8>::empty() =~= compact_encoding(
            value.len(),
        ));
        assert(units(value.len()) =~= value);
    }

    fn encode(&self) -> (out: Result<Vec<u8>, StorageError>) {
        if self.len() > 0xffff_ffff {
            Err(StorageError::EncodingOverflow)
        } else {
            Ok(scale_encode_units(self))
        }
    }

    fn decode(bytes: &[u8]) -> (out: Option<Vec<()>>) {
        match scale_decode_units(bytes) {
            Ok(value) => {
                assert(value@ =~= units(value@.len()));
                Some(value)
            },
            Err(_) => None,
        }
    }
}

/// The number of bytes of the compact encoding of a length.
pub fn compact_size(n: u32) -> (size: usize)
    ensures
        size == compact_encoding(n as nat).len(),
{
    if n < 64 {
        1
    } else if n < 16384 {
        2
    } else if n < 1073741824 {
        4
    } else {
        5
    }
}

/// A compact length that is read from the front of a byte string is below
/// 2^32 and takes as many bytes there as its encoding has.
pub proof fn lemma_compact_header(bytes: Seq<u8>)
    requires
        compact_decoding(bytes) is Some,
    ensures
        compact_decoding(bytes)->Some_0.0 <= u32::MAX,
        compact_decoding(bytes)->Some_0.1 == compact_encoding(compact_decoding(bytes)->Some_0.0).len(),
        compact_decoding(bytes)->Some_0.1 <= bytes.len(),
{
}

/// `<Compact<u32> as Decode>::decode` on a byte slice: the length in compact
/// encoding at the front; an error where there is none or it is not in its
/// shortest form.
#[verifier::external_body]
fn scale_decode_compact(bytes: &[u8]) -> (out: Result<u32, parity_scale_codec::Error>)
    ensures
        out is Ok <==> compact_decoding(bytes@) is Some,
        out is Ok ==> out->Ok_0 == compact_decoding(bytes@)->Some_0.0,
{
    let mut input = bytes;
    <parity_scale_codec::Compact<u32> as parity_scale_codec::Decode>::decode(&mut input).map(|n| n.0)
}

/// `<Compact<u32> as Encode>::encode`: the compact encoding of the length.
#[verifier::external_body]
fn scale_encode_compact(n: u32) -> (out: Vec<u8>)
    ensures
        out@ == compact_encoding(n as nat),
{
    parity_scale_codec::Encode::encode(&parity_scale_codec::Compact(n))
}

/// What appending one byte to an encoded byte string gives without decoding
/// it: for no bytes at all, the encoding of the one byte; else the bytes with
/// the compact length at their front replaced by its successor and the byte
/// added at their end; nothing where the front is no compact length or the
/// length has no successor below 2^32.
pub open spec fn patched(encoded: Seq<u8>, item: u8) -> Option<Seq<u8>> {
    if encoded.len() == 0 {
        Some(seq![4u8, item])
    } else {
        match compact_decoding(encoded) {
            None => None,
            Some((n, header)) => if n < u32::MAX {
                Some(
                    compact_encoding(n + 1) + encoded.subrange(
                        header as int,
                        encoded.len() as int,
                    ).push(item),
                )
            } else {
                None
            },
        }
    }
}

/// `<Vec<u8> as EncodeAppend>::append_or_new` with one item: the bytes that
/// `patched` describes, or an error where it describes none.
#[verifier::external_body]
fn scale_append_byte(encoded: Vec<u8>, item: u8) -> (out: Result<
    Vec<u8>,
    parity_scale_codec::Error,
>)
    ensures
        out is Ok <==> patched(encoded@, item) is Some,
        out is Ok ==> Some(out->Ok_0@) == patched(encoded@, item),
{
    <Vec<u8> as parity_scale_codec::EncodeAppend>::append_or_new(encoded, core::iter::once(item))
}

/// What appending an item to a sequence in its encoded form gives.
#[derive(Debug, PartialEq, Eq)]
pub enum Appended {
    /// The encoding of the sequence with the item at its end.
    Encoded(Vec<u8>),
    /// The bytes do not decode to a sequence.
    Undecodable,
    /// The sequence is full: with one more item it has no encoding.
    Full,
}

/// A value that is a sequence of items and grows by one item at its end.
pub trait Appendable: Codec {
    /// What the sequence is made of.
    type Item: View;

    /// The sequence without items.
    spec fn nothing() -> Self::V;

    /// The sequence with one more item at its end.
    spec fn appended(sequence: Self::V, item: <Self::Item as View>::V) -> Self::V;

    /// Makes the sequence without items.
    fn empty() -> (out: Self)
        ensures
            out@ == Self::nothing(),
    ;

    /// Adds an item at the end.
    fn with(self, item: Self::Item) -> (out: Self)
        ensures
            out@ == Self::appended(self@, item@),
    ;

    /// Adds an item at the end of a sequence that is given in its encoded
    /// form. However an implementation goes about it, the bytes that come
    /// out are those of decoding the sequence, adding the item and encoding
    /// the result.
    fn append_encoded(encoded: Vec<u8>, item: Self::Item) -> (out: Appended)
        ensures
            match Self::decoding(encoded@) {
                None => out is Undecodable,
                Some(sequence) => if Self::encodable(Self::appended(sequence, item@)) {
                    out matches Appended::Encoded(bytes) && bytes@ == Self::encoding(
                        Self::appended(sequence, item@),
                    )
                } else {
                    out is Full
                },
            },
    ;
}

impl Appendable for Vec<u8> {
    type Item = u8;

    open spec fn nothing() -> Seq<u8> {
        Seq::empty()
    }

    open spec fn appended(sequence: Seq<u8>, item: u8) -> Seq<u8> {
        sequence.push(item)
    }

    fn empty() -> (out: Vec<u8>) {
        Vec::new()
    }

    fn with(self, item: u8) -> (out: Vec<u8>) {
        let mut out = self;
        out.push(item);
        out
    }

    /// Where the encoded bytes end with the sequence, the length at their
    /// front is patched and the item added at their end, without decoding;
    /// where other bytes follow the sequence, it is decoded, extended and
    /// encoded.
    fn append_encoded(encoded: Vec<u8>, item: u8) -> (out: Appended) {
        let n = match scale_decode_compact(encoded.as_slice()) {
            Ok(n) => n,
            Err(_) => {
                return Appended::Undecodable;
            },
        };
        proof {
            lemma_compact_header(encoded@);
        }
        let header = compact_size(n);
        let rest = encoded.len() - header;
        if rest < n as usize {
            Appended::Undecodable
        } else if n == 0xffff_ffff {
            Appended::Full
        } else if rest == n as usize {
            let ghost sequence = encoded@.subrange(header as int, encoded@.len() as int);
            match scale_append_byte(encoded, item) {
                Ok(bytes) => Appended::Encoded(bytes),
                Err(_) => Appended::Undecodable,
            }
        } else {
            let mut sequence = slice_to_vec(
                slice_subrange(encoded.as_slice(), header, header + n as usize),
            );
            sequence.push(item);
            Appended::Encoded(scale_encode_bytes(&sequence))
        }
    }
}

impl Appendable for Vec<()> {
    type Item = ();

    open spec fn nothing() -> Seq<()> {
        Seq::empty()
    }

    open spec fn appended(sequence: Seq<()>, item: ()) -> Seq<()> {
        sequence.push(item)
    }

    fn empty() -> (out: Vec<()>) {
        Vec::new()
    }

    fn with(self, item: ()) -> (out: Vec<()>) {
        let mut out = self;
        out.push(item);
        out
    }

    /// Only the length is encoded, so only the length is read and its
    /// successor written.
    fn append_encoded(encoded: Vec<u8>, item: ()) -> (out: Appended) {
        match scale_decode_compact(encoded.as_slice()) {
            Err(_) => Appended::Undecodable,
            Ok(n) => {
                proof {
                    lemma_compact_header(encoded@);
                }
                if n == 0xffff_ffff {
                    Appended::Full
                } else {
                    Appended::Encoded(scale_encode_compact(n + 1))
                }
            },
        }
    }
}

} // verus!
