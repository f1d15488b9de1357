//! Entries that map one key to a value.

use core::marker::PhantomData;
use vstd::prelude::*;
use crate::backend::Backend;
use crate::bytes::join;
use crate::codec::{Appendable, Codec};
use crate::enumerate::{
    accepts_records, decoded, is_enumeration, is_translation, is_value_enumeration,
};
use crate::error::{is_overflow, StorageError, StorageErrorView};
use crate::hash::StorageHasher;
use crate::instance::{InstanceView, StorageInstance};
use crate::metadata::{
    own_lines, str_lines_view, StorageEntryMetadata, StorageEntryMetadataView,
    StorageEntryModifier, StorageEntryType, StorageEntryTypeView, StorageMetadataMofidierGetter,
};
use crate::query::{option_view, Get, QueryKind};
use crate::slot::{accepts_read, is_append, is_mutation, is_read, is_write, stored, written};

verus! {

/// An entry that maps keys of type `K` to values of type `V`, read as
/// queries of kind `Q`, with the default that `E` provides.
///
/// The record of a key lives at the address prefix of the entry's identity
/// followed by the hashed encoding of the key.
pub struct StorageMapType<K: Codec, V: Codec, Q: QueryKind<V>, E: Get<V>> {
    instance: StorageInstance,
    hasher: StorageHasher,
    on_empty: E,
    default_bytes: Vec<u8>,
    marker: PhantomData<(K, V, Q)>,
}

impl<K: Codec, V: Codec, Q: QueryKind<V>, E: Get<V>> StorageMapType<K, V, Q, E> {
    #[verifier::type_invariant]
    spec fn composed(&self) -> bool {
        &&& V::encodable(self.on_empty.value())
        &&& self.default_bytes@ == V::encoding(self.on_empty.value())
    }

    /// The identity of the entry.
    pub closed spec fn identity(&self) -> InstanceView {
        self.instance@
    }

    /// The hashing scheme of the entry's keys.
    pub closed spec fn scheme(&self) -> StorageHasher {
        self.hasher
    }

    /// The default of the entry.
    pub closed spec fn on_empty(&self) -> V::V {
        self.on_empty.value()
    }

    /// The address of the record of `key`.
    pub open spec fn address(&self, key: K::V) -> Seq<u8> {
        self.identity().value_prefix() + self.scheme().transform(K::encoding(key))
    }

    /// The descriptor of the entry for the given type names and
    /// documentation.
    pub open spec fn descriptor(
        &self,
        key_metadata: Seq<char>,
        value_metadata: Seq<char>,
        doc: Seq<Seq<char>>,
    ) -> StorageEntryMetadataView {
        StorageEntryMetadataView {
            name: self.identity().entry_identity,
            modifier: Q::spec_modifier(),
            ty: StorageEntryTypeView::SingleMap {
                hasher: self.scheme(),
                key: key_metadata,
                value: value_metadata,
                unused: false,
            },
            default: V::encoding(self.on_empty()),
            documentation: doc,
        }
    }

    /// The descriptor of an entry is the same on every call: two descriptors
    /// built for the same type names and documentation are equal, whatever
    /// the store held when each was built.
    pub proof fn lemma_descriptor_is_determined(
        &self,
        a: StorageEntryMetadata,
        b: StorageEntryMetadata,
        key_metadata: Seq<char>,
        value_metadata: Seq<char>,
        doc: Seq<Seq<char>>,
    )
        requires
            a@ == self.descriptor(key_metadata, value_metadata, doc),
            b@ == self.descriptor(key_metadata, value_metadata, doc),
        ensures
            a@ == b@,
            a.default@ == b.default@,
    {
    }

    /// Composes the entry. The default is encoded here, once; a default
    /// without an encoding is refused.
    pub fn new(instance: StorageInstance, hasher: StorageHasher, on_empty: E) -> (out: Result<
        Self,
        StorageError,
    >)
        ensures
            match out {
                Ok(entry) => {
                    &&& V::encodable(on_empty.value())
                    &&& entry.identity() == instance@
                    &&& entry.scheme() == hasher
                    &&& entry.on_empty() == on_empty.value()
                },
                Err(e) => !V::encodable(on_empty.value()) && e@
                    == StorageErrorView::EncodingOverflow,
            },
    {
        match on_empty.get().encode() {
            Ok(default_bytes) => Ok(
                StorageMapType { instance, hasher, on_empty, default_bytes, marker: PhantomData },
            ),
            Err(e) => Err(e),
        }
    }

    /// The bytes of the module's name.
    pub fn module_prefix(&self) -> (bytes: &[u8])
        ensures
            bytes@ == self.identity().module_prefix(),
    {
        self.instance.module_prefix()
    }

    /// The bytes of the entry's name.
    pub fn storage_prefix(&self) -> (bytes: &[u8])
        ensures
            bytes@ == self.identity().storage_prefix(),
    {
        self.instance.storage_prefix()
    }

    /// The address prefix shared by all records of the entry.
    pub fn prefix_hash(&self) -> (prefix: Vec<u8>)
        ensures
            prefix@ == self.identity().value_prefix(),
            prefix@.len() == 32,
    {
        self.instance.value_prefix()
    }

    /// The address of the record of `key`, unless the key has no encoding.
    pub fn storage_map_final_key(&self, key: &K) -> (out: Result<Vec<u8>, StorageError>)
        ensures
            match out {
                Ok(address) => K::encodable(key@) && address@ == self.address(key@),
                Err(e) => !K::encodable(key@) && e@ == StorageErrorView::EncodingOverflow,
            },
    {
        match key.encode() {
            Ok(encoded) => {
                let prefix = self.instance.value_prefix();
                let hashed = self.hasher.hash(encoded.as_slice());
                Ok(join(prefix.as_slice(), hashed.as_slice()))
            },
            Err(e) => Err(e),
        }
    }

    /// Makes the query for an optional stored value.
    pub fn from_optional_value_to_query(&self, value: Option<V>) -> (query: Q::Query)
        ensures
            Q::optional(query) == Q::resolved(option_view(value), self.on_empty()),
    {
        Q::from_optional_value_to_query(value, &self.on_empty)
    }

    /// Converts a query back to an optional value.
    pub fn from_query_to_optional_value(query: Q::Query) -> (value: Option<V>)
        ensures
            option_view(value) == Q::optional(query),
    {
        Q::from_query_to_optional_value(query)
    }

    /// Reads the record of `key`: the stored value as a query, or what the
    /// kind of query makes of absence.
    pub fn get<B: Backend>(&self, backend: &B, key: &K) -> (out: Result<Q::Query, StorageError>)
        ensures
            if K::encodable(key@) {
                is_read::<V, Q>(out, backend.contents(), self.address(key@), self.on_empty())
            } else {
                is_overflow(out)
            },
    {
        match self.storage_map_final_key(key) {
            Ok(address) => crate::slot::get::<V, Q, E, B>(
                backend,
                address.as_slice(),
                &self.on_empty,
            ),
            Err(e) => Err(e),
        }
    }

    /// Whether `key` has a record, whatever it holds.
    pub fn contains_key<B: Backend>(&self, backend: &B, key: &K) -> (out: Result<
        bool,
        StorageError,
    >)
        ensures
            if K::encodable(key@) {
                out matches Ok(present) && present == backend.contents().contains_key(
                    self.address(key@),
                )
            } else {
                is_overflow(out)
            },
    {
        match self.storage_map_final_key(key) {
            Ok(address) => Ok(crate::slot::is_present::<B>(backend, address.as_slice())),
            Err(e) => Err(e),
        }
    }

    /// Writes `value` as the record of `key`. A key or value without an
    /// encoding leaves the store as it was.
    pub fn insert<B: Backend>(&self, backend: &mut B, key: &K, value: &V) -> (out: Result<
        (),
        StorageError,
    >)
        ensures
            if K::encodable(key@) {
                is_write::<V>(
                    out,
                    old(backend).contents(),
                    final(backend).contents(),
                    self.address(key@),
                    Some(value@),
                )
            } else {
                is_overflow(out) && final(backend).contents() == old(backend).contents()
            },
    {
        match self.storage_map_final_key(key) {
            Ok(address) => crate::slot::put::<V, B>(backend, address.as_slice(), value),
            Err(e) => Err(e),
        }
    }

    /// Removes the record of `key`.
    pub fn remove<B: Backend>(&self, backend: &mut B, key: &K) -> (out: Result<(), StorageError>)
        ensures
            if K::encodable(key@) {
                out is Ok && final(backend).contents() == old(backend).contents().remove(
                    self.address(key@),
                )
            } else {
                is_overflow(out) && final(backend).contents() == old(backend).contents()
            },
    {
        match self.storage_map_final_key(key) {
            Ok(address) => {
                crate::slot::kill::<B>(backend, address.as_slice());
                Ok(())
            },
            Err(e) => Err(e),
        }
    }

    /// Reads the record of `key`, applies `f` to the query and writes the
    /// result back, in one step: a present result is stored, an absent one
    /// removes the record.
    pub fn mutate<B: Backend, F: FnOnce(Q::Query) -> Q::Query>(
        &self,
        backend: &mut B,
        key: &K,
        f: F,
    ) -> (out: Result<(), StorageError>)
        requires
            K::encodable(key@) ==> accepts_read::<V, Q, F>(
                old(backend).contents(),
                self.address(key@),
                self.on_empty(),
                f,
            ),
        ensures
            if K::encodable(key@) {
                is_mutation::<V, Q, F>(
                    out,
                    old(backend).contents(),
                    final(backend).contents(),
                    self.address(key@),
                    self.on_empty(),
                    f,
                )
            } else {
                is_overflow(out) && final(backend).contents() == old(backend).contents()
            },
    {
        match self.storage_map_final_key(key) {
            Ok(address) => crate::slot::mutate::<V, Q, E, B, F>(
                backend,
                address.as_slice(),
                &self.on_empty,
                f,
            ),
            Err(e) => Err(e),
        }
    }

    /// Reads the record of `key` and removes it, whatever was read.
    pub fn take<B: Backend>(&self, backend: &mut B, key: &K) -> (out: Result<
        Q::Query,
        StorageError,
    >)
        ensures
            if K::encodable(key@) {
                &&& is_read::<V, Q>(
                    out,
                    old(backend).contents(),
                    self.address(key@),
                    self.on_empty(),
                )
                &&& final(backend).contents() == old(backend).contents().remove(
                    self.address(key@),
                )
            } else {
                is_overflow(out) && final(backend).contents() == old(backend).contents()
            },
    {
        match self.storage_map_final_key(key) {
            Ok(address) => crate::slot::take::<V, Q, E, B>(
                backend,
                address.as_slice(),
                &self.on_empty,
            ),
            Err(e) => Err(e),
        }
    }

    /// Enumerates the records of the entry in ascending address order, each
    /// as its key and value or, where it does not decode, as the failure. An
    /// entry whose scheme does not keep keys is refused.
    pub fn iterate<B: Backend>(&self, backend: &B) -> (out: Result<
        Vec<Result<(K, V), StorageError>>,
        StorageError,
    >)
        ensures
            if self.scheme().reversible() {
                out matches Ok(items) && is_enumeration::<K, V>(
                    items@,
                    backend.contents(),
                    self.identity().value_prefix(),
                    self.scheme(),
                )
            } else {
                out matches Err(e) && e@ == StorageErrorView::KeysNotRecoverable
            },
    {
        let prefix = self.instance.value_prefix();
        crate::enumerate::enumerate::<K, V, B>(backend, prefix.as_slice(), self.hasher)
    }

    /// Enumerates the values of the entry in ascending address order,
    /// without their keys, each as the value or, where it does not decode,
    /// as the failure. This is what is left of enumeration under a scheme
    /// that does not keep keys.
    pub fn iterate_values<B: Backend>(&self, backend: &B) -> (items: Vec<Result<V, StorageError>>)
        ensures
            is_value_enumeration::<V>(
                items@,
                backend.contents(),
                self.identity().value_prefix(),
            ),
    {
        let prefix = self.instance.value_prefix();
        crate::enumerate::enumerate_values::<V, B>(backend, prefix.as_slice())
    }

    /// Rewrites every record of the entry: each is decoded as a key and a
    /// value of the old type `O`, and replaced by the encoding of what `f`
    /// makes of them, or removed where `f` gives nothing. A record that does
    /// not decode is skipped and reported, and the pass goes on. An entry
    /// whose scheme does not keep keys is refused and nothing changes.
    pub fn translate<O: Codec, B: Backend, F: Fn(K, O) -> Option<V>>(
        &self,
        backend: &mut B,
        f: F,
    ) -> (out: Result<Vec<Result<(), StorageError>>, StorageError>)
        requires
            self.scheme().reversible() ==> accepts_records::<K, O, V, F>(
                old(backend).contents(),
                self.identity().value_prefix(),
                self.scheme(),
                f,
            ),
        ensures
            if self.scheme().reversible() {
                out matches Ok(outcomes) && is_translation::<K, O, V, F>(
                    outcomes@,
                    old(backend).contents(),
                    final(backend).contents(),
                    self.identity().value_prefix(),
                    self.scheme(),
                    f,
                )
            } else {
                &&& out matches Err(e) && e@ == StorageErrorView::KeysNotRecoverable
                &&& final(backend).contents() == old(backend).contents()
            },
    {
        let prefix = self.instance.value_prefix();
        crate::enumerate::translate::<K, O, V, B, F>(backend, prefix.as_slice(), self.hasher, f)
    }

    /// Every record of the entry lies under the entry's address prefix.
    pub proof fn lemma_address_under_prefix(&self, key: K::V)
        ensures
            self.identity().value_prefix().is_prefix_of(self.address(key)),
    {
        let prefix = self.identity().value_prefix();
        assert(self.address(key).subrange(0, prefix.len() as int) =~= prefix);
    }

    /// Under a scheme that keeps keys, different keys have different
    /// addresses.
    pub proof fn lemma_address_injective(&self, a: K::V, b: K::V)
        requires
            self.scheme().reversible(),
            K::encodable(a),
            K::encodable(b),
            self.address(a) == self.address(b),
        ensures
            a == b,
    {
        let prefix = self.identity().value_prefix();
        let ha = self.scheme().transform(K::encoding(a));
        let hb = self.scheme().transform(K::encoding(b));
        assert(ha =~= self.address(a).subrange(prefix.len() as int, self.address(a).len() as int));
        assert(hb =~= self.address(b).subrange(prefix.len() as int, self.address(b).len() as int));
        self.scheme().lemma_transform_injective(K::encoding(a), K::encoding(b));
        K::lemma_round_trip(a);
        K::lemma_round_trip(b);
    }

    /// Under a scheme that keeps keys, a write to the record of one key
    /// leaves the records of all other keys as they were.
    pub proof fn lemma_other_keys_untouched(
        &self,
        contents: Map<Seq<u8>, Seq<u8>>,
        key: K::V,
        value: Option<V::V>,
        other: K::V,
    )
        requires
            self.scheme().reversible(),
            K::encodable(key),
            K::encodable(other),
            key != other,
        ensures
            self.address(key) != self.address(other),
            stored::<V>(written::<V>(contents, self.address(key), value), self.address(other))
                == stored::<V>(contents, self.address(other)),
    {
        if self.address(key) == self.address(other) {
            self.lemma_address_injective(key, other);
        }
    }

    /// Under a scheme that keeps keys, the record that `insert` writes for a
    /// key and a value is enumerated as that key and that value.
    pub proof fn lemma_inserted_is_enumerated(&self, key: K::V, value: V::V)
        requires
            self.scheme().reversible(),
            K::encodable(key),
            V::encodable(value),
        ensures
            decoded::<K, V>(
                self.scheme(),
                self.identity().value_prefix().len(),
                (self.address(key), V::encoding(value)),
            ) == Ok::<(K::V, V::V), StorageErrorView>((key, value)),
    {
        crate::enumerate::lemma_written_record_is_enumerated::<K, V>(
            self.scheme(),
            self.identity().value_prefix(),
            key,
            value,
        );
    }

    /// The hashing scheme of the entry's keys.
    pub fn hasher(&self) -> (hasher: StorageHasher)
        ensures
            hasher == self.scheme(),
    {
        self.hasher
    }

    /// The name of the entry in its descriptor.
    pub fn name(&self) -> (name: &str)
        ensures
            name@ == self.identity().entry_identity,
    {
        self.instance.entry_identity()
    }

    /// The encoding of the entry's default.
    pub fn default_byte(&self) -> (bytes: Vec<u8>)
        ensures
            bytes@ == V::encoding(self.on_empty()),
    {
        proof {
            use_type_invariant(self);
        }
        vstd::slice::slice_to_vec(self.default_bytes.as_slice())
    }

    /// Builds the descriptor of the entry. The result depends on the entry
    /// and the arguments alone.
    pub fn storage_entry_metadata_builder(
        &self,
        key_metadata: &str,
        value_metadata: &str,
        doc: &[&str],
    ) -> (out: StorageEntryMetadata)
        ensures
            out@ == self.descriptor(key_metadata@, value_metadata@, str_lines_view(doc@)),
    {
        StorageEntryMetadata {
            name: self.instance.entry_identity().to_owned(),
            modifier: Q::modifier(),
            ty: StorageEntryType::SingleMap {
                hasher: self.hasher,
                key: key_metadata.to_owned(),
                value: value_metadata.to_owned(),
                unused: false,
            },
            default: self.default_byte(),
            documentation: own_lines(doc),
        }
    }
}

impl<K: Codec, V: Appendable, Q: QueryKind<V>, E: Get<V>> StorageMapType<K, V, Q, E> {
    /// Appends `item` to the sequence that is the value of `key`; a key
    /// without a record has the empty sequence.
    pub fn append<B: Backend>(&self, backend: &mut B, key: &K, item: V::Item) -> (out: Result<
        (),
        StorageError,
    >)
        ensures
            if K::encodable(key@) {
                is_append::<V>(
                    out,
                    old(backend).contents(),
                    final(backend).contents(),
                    self.address(key@),
                    item@,
                )
            } else {
                is_overflow(out) && final(backend).contents() == old(backend).contents()
            },
    {
        match self.storage_map_final_key(key) {
            Ok(address) => crate::slot::append::<V, B>(backend, address.as_slice(), item),
            Err(e) => Err(e),
        }
    }
}

impl<K: Codec, V: Codec, Q: QueryKind<V>, E: Get<V>> StorageMetadataMofidierGetter for StorageMapType<
    K,
    V,
    Q,
    E,
> {
    open spec fn spec_modifier() -> StorageEntryModifier {
        Q::spec_modifier()
    }

    fn modifier() -> (modifier: StorageEntryModifier) {
        Q::modifier()
    }
}

} // verus!
