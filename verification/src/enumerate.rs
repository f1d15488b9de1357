//! Enumeration of the records under an address prefix, with keys read back
//! out of the addresses.

use vstd::prelude::*;
use vstd::slice::slice_to_vec;
use crate::backend::{is_scan_of, record_views, Backend, Record};
use crate::bytes::lemma_lex_lt_irreflexive;
use crate::bytes::tail;
use crate::codec::Codec;
use crate::error::{is_overflow, StorageError, StorageErrorView};
use crate::query::option_view;
use crate::hash::StorageHasher;

verus! {

/// The failure that enumeration reports for a record it cannot decode.
pub open spec fn failure(record: (Seq<u8>, Seq<u8>)) -> StorageErrorView {
    StorageErrorView::DecodeFailure { address: record.0, len: record.1.len() }
}

/// What enumeration makes of one record whose address begins with a prefix
/// of `skip` bytes: what follows the prefix is a hashed key, from which the
/// scheme gives back the encoded key; key and value are then decoded. A
/// record for which any of these steps fails is a decode failure.
pub open spec fn decoded<K: Codec, V: Codec>(
    hasher: StorageHasher,
    skip: nat,
    record: (Seq<u8>, Seq<u8>),
) -> Result<(K::V, V::V), StorageErrorView> {
    if record.0.len() < skip {
        Err(failure(record))
    } else {
        match hasher.spec_reverse(record.0.subrange(skip as int, record.0.len() as int)) {
            None => Err(failure(record)),
            Some(key_bytes) => match K::decoding(key_bytes) {
                None => Err(failure(record)),
                Some(key) => match V::decoding(record.1) {
                    None => Err(failure(record)),
                    Some(value) => Ok((key, value)),
                },
            },
        }
    }
}

/// The mathematical content of an enumerated item.
pub open spec fn item_view<K: View, V: View>(item: Result<(K, V), StorageError>) -> Result<
    (K::V, V::V),
    StorageErrorView,
> {
    match item {
        Ok((key, value)) => Ok((key@, value@)),
        Err(e) => Err(e@),
    }
}

/// `items` is the enumeration of the records of `contents` under `prefix`:
/// one item for each record, in ascending address order, each what
/// `decoded` makes of its record.
pub open spec fn is_enumeration<K: Codec, V: Codec>(
    items: Seq<Result<(K, V), StorageError>>,
    contents: Map<Seq<u8>, Seq<u8>>,
    prefix: Seq<u8>,
    hasher: StorageHasher,
) -> bool {
    exists|records: Seq<(Seq<u8>, Seq<u8>)>|
        {
            &&& #[trigger] is_scan_of(records, contents, prefix)
            &&& items.len() == records.len()
            &&& forall|i: int|
                0 <= i < items.len() ==> item_view(#[trigger] items[i]) == decoded::<K, V>(
                    hasher,
                    prefix.len(),
                    records[i],
                )
        }
}

/// Decodes one record found under a prefix of `skip` bytes.
pub fn decode_record<K: Codec, V: Codec>(
    hasher: StorageHasher,
    skip: usize,
    address: &[u8],
    bytes: &[u8],
) -> (out: Result<(K, V), StorageError>)
    ensures
        item_view(out) == decoded::<K, V>(hasher, skip as nat, (address@, bytes@)),
{
    if address.len() < skip {
        return Err(
            StorageError::DecodeFailure { address: slice_to_vec(address), len: bytes.len() },
        );
    }
    let hashed = tail(address, skip);
    let key = match hasher.reverse(hashed.as_slice()) {
        None => None,
        Some(key_bytes) => K::decode(key_bytes.as_slice()),
    };
    match key {
        None => Err(
            StorageError::DecodeFailure { address: slice_to_vec(address), len: bytes.len() },
        ),
        Some(key) => match V::decode(bytes) {
            None => Err(
                StorageError::DecodeFailure { address: slice_to_vec(address), len: bytes.len() },
            ),
            Some(value) => Ok((key, value)),
        },
    }
}

/// Enumerates the records under `prefix`. A scheme that does not keep keys
/// is refused.
pub fn enumerate<K: Codec, V: Codec, B: Backend>(
    backend: &B,
    prefix: &[u8],
    hasher: StorageHasher,
) -> (out: Result<Vec<Result<(K, V), StorageError>>, StorageError>)
    ensures
        if hasher.reversible() {
            out matches Ok(items) && is_enumeration::<K, V>(
                items@,
                backend.contents(),
                prefix@,
                hasher,
            )
        } else {
            out matches Err(e) && e@ == StorageErrorView::KeysNotRecoverable
        },
{
    if !hasher.is_reversible() {
        return Err(StorageError::KeysNotRecoverable);
    }
    let records: Vec<Record> = backend.scan_prefix(prefix);
    let ghost scanned = record_views(records@);
    let mut items: Vec<Result<(K, V), StorageError>> = Vec::new();
    let mut i: usize = 0;
    while i < records.len()
        invariant
            i <= records@.len(),
            scanned == record_views(records@),
            items@.len() == i,
            forall|j: int|
                0 <= j < i ==> item_view(#[trigger] items@[j]) == decoded::<K, V>(
                    hasher,
                    prefix@.len(),
                    scanned[j],
                ),
        decreases records@.len() - i,
    {
        let item = decode_record::<K, V>(
            hasher,
            prefix.len(),
            records[i].0.as_slice(),
            records[i].1.as_slice(),
        );
        assert(scanned[i as int] == (records@[i as int].0@, records@[i as int].1@));
        items.push(item);
        i += 1;
    }
    assert(is_scan_of(scanned, backend.contents(), prefix@));
    Ok(items)
}

/// Under a scheme that keeps keys, the record that a write makes for a key
/// and a value is enumerated as that key and that value.
pub proof fn lemma_written_record_is_enumerated<K: Codec, V: Codec>(
    hasher: StorageHasher,
    prefix: Seq<u8>,
    key: K::V,
    value: V::V,
)
    requires
        hasher.reversible(),
        K::encodable(key),
        V::encodable(value),
    ensures
        decoded::<K, V>(
            hasher,
            prefix.len(),
            (prefix + hasher.transform(K::encoding(key)), V::encoding(value)),
        ) == Ok::<(K::V, V::V), StorageErrorView>((key, value)),
{
    let hashed = hasher.transform(K::encoding(key));
    let address = prefix + hashed;
    assert(address.subrange(prefix.len() as int, address.len() as int) =~= hashed);
    hasher.lemma_reverse_transform(K::encoding(key));
    K::lemma_round_trip(key);
    V::lemma_round_trip(value);
}


/// What enumeration without keys makes of one record: its value, or a decode
/// failure.
pub open spec fn decoded_value<V: Codec>(record: (Seq<u8>, Seq<u8>)) -> Result<
    V::V,
    StorageErrorView,
> {
    match V::decoding(record.1) {
        None => Err(failure(record)),
        Some(value) => Ok(value),
    }
}

/// The mathematical content of an item enumerated without its key.
pub open spec fn value_view<V: View>(item: Result<V, StorageError>) -> Result<
    V::V,
    StorageErrorView,
> {
    match item {
        Ok(value) => Ok(value@),
        Err(e) => Err(e@),
    }
}

/// `items` is the enumeration without keys of the records of `contents`
/// under `prefix`: one item for each record, in ascending address order,
/// each what `decoded_value` makes of its record.
pub open spec fn is_value_enumeration<V: Codec>(
    items: Seq<Result<V, StorageError>>,
    contents: Map<Seq<u8>, Seq<u8>>,
    prefix: Seq<u8>,
) -> bool {
    exists|records: Seq<(Seq<u8>, Seq<u8>)>|
        {
            &&& #[trigger] is_scan_of(records, contents, prefix)
            &&& items.len() == records.len()
            &&& forall|i: int|
                0 <= i < items.len() ==> value_view(#[trigger] items[i]) == decoded_value::<V>(
                    records[i],
                )
        }
}

/// Enumerates the values of the records under `prefix`, without their keys.
/// This works under every scheme.
pub fn enumerate_values<V: Codec, B: Backend>(backend: &B, prefix: &[u8]) -> (items: Vec<
    Result<V, StorageError>,
>)
    ensures
        is_value_enumeration::<V>(items@, backend.contents(), prefix@),
{
    let records: Vec<Record> = backend.scan_prefix(prefix);
    let ghost scanned = record_views(records@);
    let mut items: Vec<Result<V, StorageError>> = Vec::new();
    let mut i: usize = 0;
    while i < records.len()
        invariant
            i <= records@.len(),
            scanned == record_views(records@),
            items@.len() == i,
            forall|j: int|
                0 <= j < i ==> value_view(#[trigger] items@[j]) == decoded_value::<V>(scanned[j]),
        decreases records@.len() - i,
    {
        let item = match V::decode(records[i].1.as_slice()) {
            Some(value) => Ok(value),
            None => Err(
                StorageError::DecodeFailure {
                    address: slice_to_vec(records[i].0.as_slice()),
                    len: records[i].1.len(),
                },
            ),
        };
        assert(scanned[i as int] == (records@[i as int].0@, records@[i as int].1@));
        items.push(item);
        i += 1;
    }
    assert(is_scan_of(scanned, backend.contents(), prefix@));
    items
}

/// The records under a prefix are enumerated in one way only: two
/// enumerations of one store have the same items in the same order.
pub proof fn lemma_enumeration_is_determined<K: Codec, V: Codec>(
    a: Seq<Result<(K, V), StorageError>>,
    b: Seq<Result<(K, V), StorageError>>,
    contents: Map<Seq<u8>, Seq<u8>>,
    prefix: Seq<u8>,
    hasher: StorageHasher,
)
    requires
        is_enumeration::<K, V>(a, contents, prefix, hasher),
        is_enumeration::<K, V>(b, contents, prefix, hasher),
    ensures
        a.len() == b.len(),
        forall|i: int| 0 <= i < a.len() ==> item_view(#[trigger] a[i]) == item_view(b[i]),
{
    let ra = choose|records: Seq<(Seq<u8>, Seq<u8>)>|
        {
            &&& #[trigger] is_scan_of(records, contents, prefix)
            &&& a.len() == records.len()
            &&& forall|i: int|
                0 <= i < a.len() ==> item_view(#[trigger] a[i]) == decoded::<K, V>(
                    hasher,
                    prefix.len(),
                    records[i],
                )
        };
    let rb = choose|records: Seq<(Seq<u8>, Seq<u8>)>|
        {
            &&& #[trigger] is_scan_of(records, contents, prefix)
            &&& b.len() == records.len()
            &&& forall|i: int|
                0 <= i < b.len() ==> item_view(#[trigger] b[i]) == decoded::<K, V>(
                    hasher,
                    prefix.len(),
                    records[i],
                )
        };
    crate::backend::lemma_scan_unique(ra, rb, contents, prefix);
}

/// An enumeration misses nothing: under a scheme that keeps keys, a record
/// that lies under the prefix and holds what a write makes for `key` and
/// `value` is enumerated as that key and that value.
pub proof fn lemma_enumeration_finds_written<K: Codec, V: Codec>(
    items: Seq<Result<(K, V), StorageError>>,
    contents: Map<Seq<u8>, Seq<u8>>,
    prefix: Seq<u8>,
    hasher: StorageHasher,
    key: K::V,
    value: V::V,
)
    requires
        hasher.reversible(),
        K::encodable(key),
        V::encodable(value),
        is_enumeration::<K, V>(items, contents, prefix, hasher),
        contents.contains_key(prefix + hasher.transform(K::encoding(key))),
        contents[prefix + hasher.transform(K::encoding(key))] == V::encoding(value),
    ensures
        exists|i: int|
            0 <= i < items.len() && item_view(#[trigger] items[i]) == Ok::<
                (K::V, V::V),
                StorageErrorView,
            >((key, value)),
{
    let address = prefix + hasher.transform(K::encoding(key));
    assert(address.subrange(0, prefix.len() as int) =~= prefix);
    let records = choose|records: Seq<(Seq<u8>, Seq<u8>)>|
        {
            &&& #[trigger] is_scan_of(records, contents, prefix)
            &&& items.len() == records.len()
            &&& forall|i: int|
                0 <= i < items.len() ==> item_view(#[trigger] items[i]) == decoded::<K, V>(
                    hasher,
                    prefix.len(),
                    records[i],
                )
        };
    assert(contents.contains_key(address) && prefix.is_prefix_of(address));
    let i = choose|i: int| 0 <= i < records.len() && #[trigger] records[i].0 == address;
    assert(records[i] == (address, V::encoding(value)));
    lemma_written_record_is_enumerated::<K, V>(hasher, prefix, key, value);
    assert(item_view(items[i]) == decoded::<K, V>(hasher, prefix.len(), records[i]));
}

/// The record at an address, if there is one.
pub open spec fn at(contents: Map<Seq<u8>, Seq<u8>>, address: Seq<u8>) -> Option<Seq<u8>> {
    if contents.contains_key(address) {
        Some(contents[address])
    } else {
        None
    }
}

/// `outcome` and `after` are the result and the effect of rewriting a record
/// that held `before` with a new optional value: an absent value removes the
/// record, a present one replaces it with its encoding, and one without an
/// encoding is reported and leaves the record as it was.
pub open spec fn is_rewritten<V: Codec>(
    new_value: Option<V::V>,
    before: Seq<u8>,
    outcome: Result<(), StorageError>,
    after: Option<Seq<u8>>,
) -> bool {
    match new_value {
        None => after is None && outcome is Ok,
        Some(v) => if V::encodable(v) {
            after == Some(V::encoding(v)) && outcome is Ok
        } else {
            after == Some(before) && is_overflow(outcome)
        },
    }
}

/// `outcome` and `after` are the result and the effect of translating one
/// record: a record that does not decode is reported and stays as it was;
/// one that decodes is rewritten with what `f` makes of its key and value.
pub open spec fn is_translated<K: Codec, O: Codec, V: Codec, F: Fn(K, O) -> Option<V>>(
    hasher: StorageHasher,
    skip: nat,
    f: F,
    record: (Seq<u8>, Seq<u8>),
    outcome: Result<(), StorageError>,
    after: Option<Seq<u8>>,
) -> bool {
    match decoded::<K, O>(hasher, skip, record) {
        Err(e) => {
            &&& after == Some(record.1)
            &&& outcome matches Err(reported) && reported@ == e
        },
        Ok((k, o)) => exists|key: K, old_value: O, new_value: Option<V>|
            {
                &&& key@ == k
                &&& old_value@ == o
                &&& #[trigger] call_ensures(f, (key, old_value), new_value)
                &&& is_rewritten::<V>(option_view(new_value), record.1, outcome, after)
            },
    }
}

/// `outcomes` and `after` are the results and the effect of translating the
/// records of `before` under `prefix` with `f`: there is one outcome for each
/// such record, in ascending address order; each record is translated on its
/// own; no record appears that was not there; and the records elsewhere are
/// untouched.
pub open spec fn is_translation<K: Codec, O: Codec, V: Codec, F: Fn(K, O) -> Option<V>>(
    outcomes: Seq<Result<(), StorageError>>,
    before: Map<Seq<u8>, Seq<u8>>,
    after: Map<Seq<u8>, Seq<u8>>,
    prefix: Seq<u8>,
    hasher: StorageHasher,
    f: F,
) -> bool {
    &&& exists|records: Seq<(Seq<u8>, Seq<u8>)>|
        {
            &&& #[trigger] is_scan_of(records, before, prefix)
            &&& outcomes.len() == records.len()
            &&& forall|i: int|
                0 <= i < records.len() ==> is_translated::<K, O, V, F>(
                    hasher,
                    prefix.len(),
                    f,
                    records[i],
                    #[trigger] outcomes[i],
                    at(after, records[i].0),
                )
        }
    &&& forall|address: Seq<u8>|
        !prefix.is_prefix_of(address) ==> #[trigger] at(after, address) == at(before, address)
    &&& forall|address: Seq<u8>|
        #[trigger] after.contains_key(address) ==> before.contains_key(address)
}

/// `f` accepts the key and the old value of every record under `prefix` that
/// decodes.
pub open spec fn accepts_records<K: Codec, O: Codec, V: Codec, F: Fn(K, O) -> Option<V>>(
    contents: Map<Seq<u8>, Seq<u8>>,
    prefix: Seq<u8>,
    hasher: StorageHasher,
    f: F,
) -> bool {
    forall|key: K, old_value: O|
        is_record_of::<K, O>(contents, prefix, hasher, key@, old_value@) ==> #[trigger] call_requires(
            f,
            (key, old_value),
        )
}

/// Some record of `contents` under `prefix` decodes to `key` and `value`.
pub open spec fn is_record_of<K: Codec, V: Codec>(
    contents: Map<Seq<u8>, Seq<u8>>,
    prefix: Seq<u8>,
    hasher: StorageHasher,
    key: K::V,
    value: V::V,
) -> bool {
    exists|address: Seq<u8>|
        {
            &&& #[trigger] contents.contains_key(address)
            &&& prefix.is_prefix_of(address)
            &&& decoded::<K, V>(hasher, prefix.len(), (address, contents[address])) == Ok::<
                (K::V, V::V),
                StorageErrorView,
            >((key, value))
        }
}

/// Rewrites every record under `prefix`: each is decoded as a key and an old
/// value, and replaced by the encoding of what `f` makes of them, or removed
/// where `f` gives nothing. A record that does not decode is skipped and
/// reported, and the pass goes on. A scheme that does not keep keys is
/// refused and nothing changes.
pub fn translate<K: Codec, O: Codec, V: Codec, B: Backend, F: Fn(K, O) -> Option<V>>(
    backend: &mut B,
    prefix: &[u8],
    hasher: StorageHasher,
    f: F,
) -> (out: Result<Vec<Result<(), StorageError>>, StorageError>)
    requires
        hasher.reversible() ==> accepts_records::<K, O, V, F>(
            old(backend).contents(),
            prefix@,
            hasher,
            f,
        ),
    ensures
        if hasher.reversible() {
            out matches Ok(outcomes) && is_translation::<K, O, V, F>(
                outcomes@,
                old(backend).contents(),
                final(backend).contents(),
                prefix@,
                hasher,
                f,
            )
        } else {
            &&& out matches Err(e) && e@ == StorageErrorView::KeysNotRecoverable
            &&& final(backend).contents() == old(backend).contents()
        },
{
    if !hasher.is_reversible() {
        return Err(StorageError::KeysNotRecoverable);
    }
    let ghost before = backend.contents();
    let records: Vec<Record> = backend.scan_prefix(prefix);
    let ghost scanned = record_views(records@);
    let mut outcomes: Vec<Result<(), StorageError>> = Vec::new();
    let mut i: usize = 0;
    while i < records.len()
        invariant
            i <= records@.len(),
            scanned == record_views(records@),
            is_scan_of(scanned, before, prefix@),
            accepts_records::<K, O, V, F>(before, prefix@, hasher, f),
            outcomes@.len() == i,
            forall|j: int|
                0 <= j < i ==> is_translated::<K, O, V, F>(
                    hasher,
                    prefix@.len(),
                    f,
                    scanned[j],
                    #[trigger] outcomes@[j],
                    at(backend.contents(), scanned[j].0),
                ),
            forall|j: int|
                i <= j < scanned.len() ==> at(backend.contents(), #[trigger] scanned[j].0) == Some(
                    scanned[j].1,
                ),
            forall|address: Seq<u8>|
                !prefix@.is_prefix_of(address) ==> #[trigger] at(backend.contents(), address) == at(
                    before,
                    address,
                ),
            forall|address: Seq<u8>|
                #[trigger] backend.contents().contains_key(address) ==> before.contains_key(
                    address,
                ),
        decreases records@.len() - i,
    {
        let ghost current = backend.contents();
        let ghost record = scanned[i as int];
        assert(record == (records@[i as int].0@, records@[i as int].1@));
        assert(prefix@.is_prefix_of(record.0) && before.contains_key(record.0));
        let address = records[i].0.as_slice();
        let bytes = records[i].1.as_slice();
        let item = decode_record::<K, O>(hasher, prefix.len(), address, bytes);
        let outcome = match item {
            Err(e) => Err(e),
            Ok((key, old_value)) => {
                let ghost given_key = key;
                let ghost given_value = old_value;
                assert(is_record_of::<K, O>(before, prefix@, hasher, key@, old_value@)) by {
                    assert(before.contains_key(record.0) && before[record.0] == record.1);
                }
                let new_value = f(key, old_value);
                let ghost made = new_value;
                let outcome = match new_value {
                    None => {
                        backend.remove(address);
                        Ok(())
                    },
                    Some(v) => match v.encode() {
                        Ok(encoded) => {
                            backend.put(address, encoded.as_slice());
                            Ok(())
                        },
                        Err(e) => Err(e),
                    },
                };
                proof {
                    assert(call_ensures(f, (given_key, given_value), made));
                    assert(is_rewritten::<V>(
                        option_view(made),
                        record.1,
                        outcome,
                        at(backend.contents(), record.0),
                    ));
                }
                outcome
            },
        };
        proof {
            assert(is_translated::<K, O, V, F>(
                hasher,
                prefix@.len(),
                f,
                record,
                outcome,
                at(backend.contents(), record.0),
            ));
            assert forall|j: int| 0 <= j < scanned.len() && j != i implies at(
                backend.contents(),
                #[trigger] scanned[j].0,
            ) == at(current, scanned[j].0) by {
                lemma_lex_lt_irreflexive(record.0);
                if j < i {
                    assert(crate::bytes::lex_lt(scanned[j].0, scanned[i as int].0));
                } else {
                    assert(crate::bytes::lex_lt(scanned[i as int].0, scanned[j].0));
                }
            }
        }
        proof {
            assert forall|address: Seq<u8>| !prefix@.is_prefix_of(address) implies #[trigger] at(
                backend.contents(),
                address,
            ) == at(before, address) by {
                assert(address != record.0);
                assert(at(current, address) == at(before, address));
            }
        }
        let ghost previous = outcomes@;
        outcomes.push(outcome);
        proof {
            assert forall|j: int| 0 <= j < i + 1 implies is_translated::<K, O, V, F>(
                hasher,
                prefix@.len(),
                f,
                scanned[j],
                #[trigger] outcomes@[j],
                at(backend.contents(), scanned[j].0),
            ) by {
                if j < i {
                    assert(outcomes@[j] == previous[j]);
                    assert(at(backend.contents(), scanned[j].0) == at(current, scanned[j].0));
                }
            }
        }
        i += 1;
    }
    Ok(outcomes)
}

} // verus!
