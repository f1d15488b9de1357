//! Typed reads and writes of the record at one address.
//!
//! The three kinds of entry differ in how they derive an address; what they
//! do at the address is the same and is defined here, together with the
//! laws that relate the operations to each other.

use vstd::prelude::*;
use vstd::slice::slice_to_vec;
use crate::backend::Backend;
use crate::codec::{Appendable, Appended, Codec};
use crate::error::{StorageError, StorageErrorView};
use crate::query::{option_view, Get, OptionQuery, QueryKind, ValueQuery};

verus! {

/// The value stored at `address`: none where the store has no record there,
/// the decoded record where it decodes, and a decode failure where it does
/// not.
pub open spec fn stored<V: Codec>(contents: Map<Seq<u8>, Seq<u8>>, address: Seq<u8>) -> Result<
    Option<V::V>,
    StorageErrorView,
> {
    if !contents.contains_key(address) {
        Ok(None)
    } else {
        match V::decoding(contents[address]) {
            Some(value) => Ok(Some(value)),
            None => Err(
                StorageErrorView::DecodeFailure { address, len: contents[address].len() },
            ),
        }
    }
}

/// The store after an optional value has been written to `address`: the
/// encoding is kept there for a present value, and the record is removed for
/// an absent one.
pub open spec fn written<V: Codec>(
    contents: Map<Seq<u8>, Seq<u8>>,
    address: Seq<u8>,
    value: Option<V::V>,
) -> Map<Seq<u8>, Seq<u8>> {
    match value {
        Some(v) => contents.insert(address, V::encoding(v)),
        None => contents.remove(address),
    }
}

/// Whether an optional value can be written: an absent one always, a present
/// one if it has an encoding.
pub open spec fn writable<V: Codec>(value: Option<V::V>) -> bool {
    match value {
        Some(v) => V::encodable(v),
        None => true,
    }
}

/// `out` is what a read of `address` as a query of kind `Q` returns: a query
/// that stands for the stored value resolved against the default, or the
/// decode failure of the record.
pub open spec fn is_read<V: Codec, Q: QueryKind<V>>(
    out: Result<Q::Query, StorageError>,
    contents: Map<Seq<u8>, Seq<u8>>,
    address: Seq<u8>,
    on_empty: V::V,
) -> bool {
    match out {
        Ok(query) => stored::<V>(contents, address) is Ok && Q::optional(query) == Q::resolved(
            stored::<V>(contents, address)->Ok_0,
            on_empty,
        ),
        Err(e) => stored::<V>(contents, address) == Err::<Option<V::V>, StorageErrorView>(e@),
    }
}

/// `out` and `after` are the result and the effect of writing an optional
/// value to `address` in the store `before`: the value is written, or it has
/// no encoding and the store is as it was.
pub open spec fn is_write<V: Codec>(
    out: Result<(), StorageError>,
    before: Map<Seq<u8>, Seq<u8>>,
    after: Map<Seq<u8>, Seq<u8>>,
    address: Seq<u8>,
    value: Option<V::V>,
) -> bool {
    match out {
        Ok(()) => writable::<V>(value) && after == written::<V>(before, address, value),
        Err(e) => !writable::<V>(value) && e@ == StorageErrorView::EncodingOverflow && after
            == before,
    }
}

/// `f` may turn the query read from `contents` at `address` into `result`.
pub open spec fn mutated<V: Codec, Q: QueryKind<V>, F: FnOnce(Q::Query) -> Q::Query>(
    contents: Map<Seq<u8>, Seq<u8>>,
    address: Seq<u8>,
    on_empty: V::V,
    f: F,
    result: Q::Query,
) -> bool {
    exists|query: Q::Query|
        {
            &&& is_read::<V, Q>(Ok(query), contents, address, on_empty)
            &&& #[trigger] call_ensures(f, (query,), result)
        }
}

/// `out` and `after` are the result and the effect of reading `address` in
/// the store `before`, applying `f` and writing the result back: either the
/// read fails and nothing changes, or some result of `f` on the query read
/// is written as `put_or_remove` writes it.
pub open spec fn is_mutation<V: Codec, Q: QueryKind<V>, F: FnOnce(Q::Query) -> Q::Query>(
    out: Result<(), StorageError>,
    before: Map<Seq<u8>, Seq<u8>>,
    after: Map<Seq<u8>, Seq<u8>>,
    address: Seq<u8>,
    on_empty: V::V,
    f: F,
) -> bool {
    if stored::<V>(before, address) is Err {
        &&& after == before
        &&& out matches Err(e) && stored::<V>(before, address) == Err::<
            Option<V::V>,
            StorageErrorView,
        >(e@)
    } else {
        exists|result: Q::Query|
            {
                &&& #[trigger] mutated::<V, Q, F>(before, address, on_empty, f, result)
                &&& is_write::<V>(out, before, after, address, Q::optional(result))
            }
    }
}

/// `f` accepts every query that a read of `address` can return.
pub open spec fn accepts_read<V: Codec, Q: QueryKind<V>, F: FnOnce(Q::Query) -> Q::Query>(
    contents: Map<Seq<u8>, Seq<u8>>,
    address: Seq<u8>,
    on_empty: V::V,
    f: F,
) -> bool {
    forall|query: Q::Query|
        is_read::<V, Q>(Ok(query), contents, address, on_empty) ==> #[trigger] call_requires(
            f,
            (query,),
        )
}

/// Reads the optional value stored at `address`.
pub fn read<V: Codec, B: Backend>(backend: &B, address: &[u8]) -> (out: Result<
    Option<V>,
    StorageError,
>)
    ensures
        match out {
            Ok(value) => stored::<V>(backend.contents(), address@) == Ok::<
                Option<V::V>,
                StorageErrorView,
            >(option_view(value)),
            Err(e) => stored::<V>(backend.contents(), address@) == Err::<
                Option<V::V>,
                StorageErrorView,
            >(e@),
        },
{
    match backend.get(address) {
        None => Ok(None),
        Some(bytes) => match V::decode(bytes.as_slice()) {
            Some(value) => Ok(Some(value)),
            None => Err(
                StorageError::DecodeFailure { address: slice_to_vec(address), len: bytes.len() },
            ),
        },
    }
}

/// Reads the record at `address` as a query of kind `Q`.
pub fn get<V: Codec, Q: QueryKind<V>, E: Get<V>, B: Backend>(
    backend: &B,
    address: &[u8],
    on_empty: &E,
) -> (out: Result<Q::Query, StorageError>)
    ensures
        is_read::<V, Q>(out, backend.contents(), address@, on_empty.value()),
{
    match read::<V, B>(backend, address) {
        Ok(value) => Ok(Q::from_optional_value_to_query(value, on_empty)),
        Err(e) => Err(e),
    }
}

/// Writes the encoding of `value` to `address`. A value without an encoding
/// leaves the store as it was.
pub fn put<V: Codec, B: Backend>(backend: &mut B, address: &[u8], value: &V) -> (out: Result<
    (),
    StorageError,
>)
    ensures
        is_write::<V>(
            out,
            old(backend).contents(),
            final(backend).contents(),
            address@,
            Some(value@),
        ),
{
    match value.encode() {
        Ok(bytes) => {
            backend.put(address, bytes.as_slice());
            Ok(())
        },
        Err(e) => Err(e),
    }
}

/// Whether the store has a record at `address`.
pub fn is_present<B: Backend>(backend: &B, address: &[u8]) -> (present: bool)
    ensures
        present == backend.contents().contains_key(address@),
{
    backend.get(address).is_some()
}

/// Removes the record at `address`.
pub fn kill<B: Backend>(backend: &mut B, address: &[u8])
    ensures
        final(backend).contents() == old(backend).contents().remove(address@),
{
    backend.remove(address);
}

/// Writes what a query converts back to: the value if it is present, the
/// removal of the record if it is absent. A value without an encoding leaves
/// the store as it was.
pub fn put_or_remove<V: Codec, Q: QueryKind<V>, B: Backend>(
    backend: &mut B,
    address: &[u8],
    query: Q::Query,
) -> (out: Result<(), StorageError>)
    ensures
        is_write::<V>(
            out,
            old(backend).contents(),
            final(backend).contents(),
            address@,
            Q::optional(query),
        ),
{
    match Q::from_query_to_optional_value(query) {
        Some(value) => put::<V, B>(backend, address, &value),
        None => {
            backend.remove(address);
            Ok(())
        },
    }
}

/// Reads the record at `address` as a query and removes it, whatever was
/// read.
pub fn take<V: Codec, Q: QueryKind<V>, E: Get<V>, B: Backend>(
    backend: &mut B,
    address: &[u8],
    on_empty: &E,
) -> (out: Result<Q::Query, StorageError>)
    ensures
        is_read::<V, Q>(out, old(backend).contents(), address@, on_empty.value()),
        final(backend).contents() == old(backend).contents().remove(address@),
{
    let out = get::<V, Q, E, B>(backend, address, on_empty);
    backend.remove(address);
    out
}

/// Reads the record at `address` as a query, applies `f` to it and writes
/// the result back, in one step: the store ends as `put_or_remove` of the
/// result leaves it, or, on an error, as it began.
pub fn mutate<V: Codec, Q: QueryKind<V>, E: Get<V>, B: Backend, F: FnOnce(Q::Query) -> Q::Query>(
    backend: &mut B,
    address: &[u8],
    on_empty: &E,
    f: F,
) -> (out: Result<(), StorageError>)
    requires
        accepts_read::<V, Q, F>(old(backend).contents(), address@, on_empty.value(), f),
    ensures
        is_mutation::<V, Q, F>(
            out,
            old(backend).contents(),
            final(backend).contents(),
            address@,
            on_empty.value(),
            f,
        ),
{
    let read = get::<V, Q, E, B>(backend, address, on_empty);
    match read {
        Ok(query) => {
            assert(is_read::<V, Q>(Ok(query), backend.contents(), address@, on_empty.value()));
            let result = f(query);
            let ghost witness = result;
            let out = put_or_remove::<V, Q, B>(backend, address, result);
            proof {
                assert(mutated::<V, Q, F>(
                    old(backend).contents(),
                    address@,
                    on_empty.value(),
                    f,
                    witness,
                ));
            }
            out
        },
        Err(e) => Err(e),
    }
}

/// `out` and `after` are the result and the effect of appending `item` to
/// the sequence stored at `address` in the store `before`: the sequence that
/// is there, or the empty one where no record is, grows by the item and is
/// written back; a record that does not decode is reported and stays.
pub open spec fn is_append<V: Appendable>(
    out: Result<(), StorageError>,
    before: Map<Seq<u8>, Seq<u8>>,
    after: Map<Seq<u8>, Seq<u8>>,
    address: Seq<u8>,
    item: <V::Item as View>::V,
) -> bool {
    match stored::<V>(before, address) {
        Err(e) => {
            &&& after == before
            &&& out matches Err(reported) && reported@ == e
        },
        Ok(current) => is_write::<V>(
            out,
            before,
            after,
            address,
            Some(
                V::appended(
                    match current {
                        Some(sequence) => sequence,
                        None => V::nothing(),
                    },
                    item,
                ),
            ),
        ),
    }
}

/// Appends `item` to the sequence stored at `address`. The record that
/// results is that of decoding the record, adding the item and encoding the
/// result, also where the sequence type gets there without decoding.
pub fn append<V: Appendable, B: Backend>(backend: &mut B, address: &[u8], item: V::Item) -> (out:
    Result<(), StorageError>)
    ensures
        is_append::<V>(
            out,
            old(backend).contents(),
            final(backend).contents(),
            address@,
            item@,
        ),
{
    match backend.get(address) {
        None => {
            let grown = V::empty().with(item);
            put::<V, B>(backend, address, &grown)
        },
        Some(bytes) => {
            let len = bytes.len();
            match V::append_encoded(bytes, item) {
                Appended::Encoded(grown) => {
                    backend.put(address, grown.as_slice());
                    Ok(())
                },
                Appended::Undecodable => Err(
                    StorageError::DecodeFailure { address: slice_to_vec(address), len },
                ),
                Appended::Full => Err(StorageError::EncodingOverflow),
            }
        },
    }
}

/// A read after a write returns the value written: whatever a read of
/// `address` returns in the store that a successful write of `value` left,
/// it is a query for `value`, the query that is made for a stored `value`.
pub proof fn lemma_get_after_put<V: Codec, Q: QueryKind<V>>(
    before: Map<Seq<u8>, Seq<u8>>,
    after: Map<Seq<u8>, Seq<u8>>,
    address: Seq<u8>,
    value: V::V,
    on_empty: V::V,
    read: Result<Q::Query, StorageError>,
)
    requires
        is_write::<V>(Ok(()), before, after, address, Some(value)),
        is_read::<V, Q>(read, after, address, on_empty),
    ensures
        read matches Ok(query) && Q::optional(query) == Q::resolved(Some(value), on_empty),
        <ValueQuery as QueryKind<V>>::resolved(Some(value), on_empty) == Some(value),
        <OptionQuery as QueryKind<V>>::resolved(Some(value), on_empty) == Some(value),
{
    V::lemma_round_trip(value);
}

/// A read of an address that holds no record returns the query that is made
/// for an absent value: the default for a `ValueQuery`, nothing for an
/// `OptionQuery`.
pub proof fn lemma_get_unwritten<V: Codec, Q: QueryKind<V>>(
    contents: Map<Seq<u8>, Seq<u8>>,
    address: Seq<u8>,
    on_empty: V::V,
    read: Result<Q::Query, StorageError>,
)
    requires
        !contents.contains_key(address),
        is_read::<V, Q>(read, contents, address, on_empty),
    ensures
        read matches Ok(query) && Q::optional(query) == Q::resolved(None, on_empty),
        <ValueQuery as QueryKind<V>>::resolved(None, on_empty) == Some(on_empty),
        <OptionQuery as QueryKind<V>>::resolved(None, on_empty) == None::<V::V>,
{
}

/// After a removal the address holds no record, whatever it held, and a
/// read finds none.
pub proof fn lemma_absent_after_kill<V: Codec>(contents: Map<Seq<u8>, Seq<u8>>, address: Seq<u8>)
    ensures
        !contents.remove(address).contains_key(address),
        stored::<V>(contents.remove(address), address) == Ok::<Option<V::V>, StorageErrorView>(
            None,
        ),
{
}

/// A write touches one address: every other address reads as before.
pub proof fn lemma_write_is_local<V: Codec>(
    contents: Map<Seq<u8>, Seq<u8>>,
    address: Seq<u8>,
    value: Option<V::V>,
    other: Seq<u8>,
)
    requires
        other != address,
    ensures
        written::<V>(contents, address, value).contains_key(other) == contents.contains_key(
            other,
        ),
        stored::<V>(written::<V>(contents, address, value), other) == stored::<V>(contents, other),
{
}

/// A mutation is a read followed by `put_or_remove` of what `f` makes of the
/// query read, with no state in between: whenever `query` is what the read
/// returns, `result` what `f` returns for it, and `out` and `after` what
/// `put_or_remove` of `result` gives, then `out` and `after` are a result and
/// an effect of the mutation; and a read that fails makes the mutation fail
/// alike, with the store unchanged.
pub proof fn lemma_mutation_is_read_then_write<
    V: Codec,
    Q: QueryKind<V>,
    F: FnOnce(Q::Query) -> Q::Query,
>(
    before: Map<Seq<u8>, Seq<u8>>,
    after: Map<Seq<u8>, Seq<u8>>,
    address: Seq<u8>,
    on_empty: V::V,
    f: F,
    read: Result<Q::Query, StorageError>,
    result: Q::Query,
    out: Result<(), StorageError>,
)
    requires
        is_read::<V, Q>(read, before, address, on_empty),
        read matches Ok(query) ==> call_ensures(f, (query,), result) && is_write::<V>(
            out,
            before,
            after,
            address,
            Q::optional(result),
        ),
        read matches Err(e) ==> out matches Err(e2) && e2@ == e@ && after == before,
    ensures
        is_mutation::<V, Q, F>(out, before, after, address, on_empty, f),
{
    match read {
        Ok(query) => {
            assert(is_read::<V, Q>(Ok(query), before, address, on_empty));
            assert(mutated::<V, Q, F>(before, address, on_empty, f, result));
        },
        Err(e) => {},
    }
}

} // verus!
