//! Entries that map a pair of keys to a value.

use core::marker::PhantomData;
use vstd::prelude::*;
use crate::backend::Backend;
use crate::bytes::join;
use crate::codec::{Appendable, Codec};
use crate::enumerate::{
    accepts_records, decoded, is_enumeration, is_translation, is_value_enumeration,
};
use crate::error::{is_overflow, StorageError, StorageErrorView};
use crate::hash::StorageHasher;
use crate::instance::{InstanceView, StorageInstance};
use crate::metadata::{
    own_lines, str_lines_view, StorageEntryMetadata, StorageEntryMetadataView,
    StorageEntryModifier, StorageEntryType, StorageEntryTypeView, StorageMetadataMofidierGetter,
};
use crate::query::{option_view, Get, QueryKind};
use crate::slot::{accepts_read, is_append, is_mutation, is_read, is_write};

verus! {

/// An entry that maps pairs of keys of types `K1` and `K2` to values of
/// type `V`, read as queries of kind `Q`, with the default that `E`
/// provides.
///
/// The record of a pair lives at the address prefix of the entry's identity
/// followed by the hashed encoding of the first key and then that of the
/// second, each under its own scheme. All records of one first key share the
/// prefix that ends with the hashed first key.
pub struct StorageDoubleMapType<K1: Codec, K2: Codec, V: Codec, Q: QueryKind<V>, E: Get<V>> {
    instance: StorageInstance,
    hasher1: StorageHasher,
    hasher2: StorageHasher,
    on_empty: E,
    default_bytes: Vec<u8>,
    marker: PhantomData<(K1, K2, V, Q)>,
}

impl<K1: Codec, K2: Codec, V: Codec, Q: QueryKind<V>, E: Get<V>> StorageDoubleMapType<
    K1,
    K2,
    V,
    Q,
    E,
> {
    #[verifier::type_invariant]
    spec fn composed(&self) -> bool {
        &&& V::encodable(self.on_empty.value())
        &&& self.default_bytes@ == V::encoding(self.on_empty.value())
    }

    /// The identity of the entry.
    pub closed spec fn identity(&self) -> InstanceView {
        self.instance@
    }

    /// The hashing scheme of the first keys.
    pub closed spec fn scheme1(&self) -> StorageHasher {
        self.hasher1
    }

    /// The hashing scheme of the second keys.
    pub closed spec fn scheme2(&self) -> StorageHasher {
        self.hasher2
    }

    /// The default of the entry.
    pub closed spec fn on_empty(&self) -> V::V {
        self.on_empty.value()
    }

    /// The prefix of the addresses of all records under `key1`.
    pub open spec fn prefix(&self, key1: K1::V) -> Seq<u8> {
        self.identity().value_prefix() + self.scheme1().transform(K1::encoding(key1))
    }

    /// The address of the record of the pair `key1`, `key2`.
    pub open spec fn address(&self, key1: K1::V, key2: K2::V) -> Seq<u8> {
        self.prefix(key1) + self.scheme2().transform(K2::encoding(key2))
    }

    /// Whether both keys of a pair have an encoding.
    pub open spec fn encodable(key1: K1::V, key2: K2::V) -> bool {
        K1::encodable(key1) && K2::encodable(key2)
    }

    /// The descriptor of the entry for the given type names and
    /// documentation.
    pub open spec fn descriptor(
        &self,
        key1_metadata: Seq<char>,
        key2_metadata: Seq<char>,
        value_metadata: Seq<char>,
        doc: Seq<Seq<char>>,
    ) -> StorageEntryMetadataView {
        StorageEntryMetadataView {
            name: self.identity().entry_identity,
            modifier: Q::spec_modifier(),
            ty: StorageEntryTypeView::DoubleMap {
                hasher: self.scheme1(),
                key1: key1_metadata,
                key2: key2_metadata,
                value: value_metadata,
                key2_hasher: self.scheme2(),
            },
            default: V::encoding(self.on_empty()),
            documentation: doc,
        }
    }

    /// The descriptor of an entry is the same on every call: two descriptors
    /// built for the same type names and documentation are equal, whatever
    /// the store held when each was built.
    pub proof fn lemma_descriptor_is_determined(
        &self,
        a: StorageEntryMetadata,
        b: StorageEntryMetadata,
        key1_metadata: Seq<char>,
        key2_metadata: Seq<char>,
        value_metadata: Seq<char>,
        doc: Seq<Seq<char>>,
    )
        requires
            a@ == self.descriptor(key1_metadata, key2_metadata, value_metadata, doc),
            b@ == self.descriptor(key1_metadata, key2_metadata, value_metadata, doc),
        ensures
            a@ == b@,
            a.default@ == b.default@,
    {
    }

    /// Composes the entry. The default is encoded here, once; a default
    /// without an encoding is refused.
    pub fn new(
        instance: StorageInstance,
        hasher1: StorageHasher,
        hasher2: StorageHasher,
        on_empty: E,
    ) -> (out: Result<Self, StorageError>)
        ensures
            match out {
                Ok(entry) => {
                    &&& V::encodable(on_empty.value())
                    &&& entry.identity() == instance@
                    &&& entry.scheme1() == hasher1
                    &&& entry.scheme2() == hasher2
                    &&& entry.on_empty() == on_empty.value()
                },
                Err(e) => !V::encodable(on_empty.value()) && e@
                    == StorageErrorView::EncodingOverflow,
            },
    {
        match on_empty.get().encode() {
            Ok(default_bytes) => Ok(
                StorageDoubleMapType {
                    instance,
                    hasher1,
                    hasher2,
                    on_empty,
                    default_bytes,
                    marker: PhantomData,
                },
            ),
            Err(e) => Err(e),
        }
    }

    /// The bytes of the module's name.
    pub fn module_prefix(&self) -> (bytes: &[u8])
        ensures
            bytes@ == self.identity().module_prefix(),
    {
        self.instance.module_prefix()
    }

    /// The bytes of the entry's name.
    pub fn storage_prefix(&self) -> (bytes: &[u8])
        ensures
            bytes@ == self.identity().storage_prefix(),
    {
        self.instance.storage_prefix()
    }

    /// The address prefix shared by all records of the entry.
    pub fn prefix_hash(&self) -> (prefix: Vec<u8>)
        ensures
            prefix@ == self.identity().value_prefix(),
            prefix@.len() == 32,
    {
        self.instance.value_prefix()
    }

    /// The prefix of the addresses of all records under `key1`, unless the
    /// key has no encoding.
    pub fn storage_double_map_final_key1(&self, key1: &K1) -> (out: Result<Vec<u8>, StorageError>)
        ensures
            match out {
                Ok(prefix) => K1::encodable(key1@) && prefix@ == self.prefix(key1@),
                Err(e) => !K1::encodable(key1@) && e@ == StorageErrorView::EncodingOverflow,
            },
    {
        match key1.encode() {
            Ok(encoded) => {
                let prefix = self.instance.value_prefix();
                let hashed = self.hasher1.hash(encoded.as_slice());
                Ok(join(prefix.as_slice(), hashed.as_slice()))
            },
            Err(e) => Err(e),
        }
    }

    /// The address of the record of the pair, unless one of the keys has no
    /// encoding.
    pub fn storage_double_map_final_key(&self, key1: &K1, key2: &K2) -> (out: Result<
        Vec<u8>,
        StorageError,
    >)
        ensures
            match out {
                Ok(address) => Self::encodable(key1@, key2@) && address@ == self.address(
                    key1@,
                    key2@,
                ),
                Err(e) => !Self::encodable(key1@, key2@) && e@
                    == StorageErrorView::EncodingOverflow,
            },
    {
        match self.storage_double_map_final_key1(key1) {
            Ok(prefix) => match key2.encode() {
                Ok(encoded) => {
                    let hashed = self.hasher2.hash(encoded.as_slice());
                    Ok(join(prefix.as_slice(), hashed.as_slice()))
                },
                Err(e) => Err(e),
            },
            Err(e) => Err(e),
        }
    }

    /// Makes the query for an optional stored value.
    pub fn from_optional_value_to_query(&self, value: Option<V>) -> (query: Q::Query)
        ensures
            Q::optional(query) == Q::resolved(option_view(value), self.on_empty()),
    {
        Q::from_optional_value_to_query(value, &self.on_empty)
    }

    /// Converts a query back to an optional value.
    pub fn from_query_to_optional_value(query: Q::Query) -> (value: Option<V>)
        ensures
            option_view(value) == Q::optional(query),
    {
        Q::from_query_to_optional_value(query)
    }

    /// Reads the record of the pair: the stored value as a query, or what the
    /// kind of query makes of absence.
    pub fn get<B: Backend>(&self, backend: &B, key1: &K1, key2: &K2) -> (out: Result<
        Q::Query,
        StorageError,
    >)
        ensures
            if Self::encodable(key1@, key2@) {
                is_read::<V, Q>(
                    out,
                    backend.contents(),
                    self.address(key1@, key2@),
                    self.on_empty(),
                )
            } else {
                is_overflow(out)
            },
    {
        match self.storage_double_map_final_key(key1, key2) {
            Ok(address) => crate::slot::get::<V, Q, E, B>(
                backend,
                address.as_slice(),
                &self.on_empty,
            ),
            Err(e) => Err(e),
        }
    }

    /// Whether the pair has a record, whatever it holds.
    pub fn contains_key<B: Backend>(&self, backend: &B, key1: &K1, key2: &K2) -> (out: Result<
        bool,
        StorageError,
    >)
        ensures
            if Self::encodable(key1@, key2@) {
                out matches Ok(present) && present == backend.contents().contains_key(
                    self.address(key1@, key2@),
                )
            } else {
                is_overflow(out)
            },
    {
        match self.storage_double_map_final_key(key1, key2) {
            Ok(address) => Ok(crate::slot::is_present::<B>(backend, address.as_slice())),
            Err(e) => Err(e),
        }
    }

    /// Writes `value` as the record of the pair. A key or value without an
    /// encoding leaves the store as it was.
    pub fn insert<B: Backend>(
        &self,
        backend: &mut B,
        key1: &K1,
        key2: &K2,
        value: &V,
    ) -> (out: Result<(), StorageError>)
        ensures
            if Self::encodable(key1@, key2@) {
                is_write::<V>(
                    out,
                    old(backend).contents(),
                    final(backend).contents(),
                    self.address(key1@, key2@),
                    Some(value@),
                )
            } else {
                is_overflow(out) && final(backend).contents() == old(backend).contents()
            },
    {
        match self.storage_double_map_final_key(key1, key2) {
            Ok(address) => crate::slot::put::<V, B>(backend, address.as_slice(), value),
            Err(e) => Err(e),
        }
    }

    /// Removes the record of the pair.
    pub fn remove<B: Backend>(&self, backend: &mut B, key1: &K1, key2: &K2) -> (out: Result<
        (),
        StorageError,
    >)
        ensures
            if Self::encodable(key1@, key2@) {
                out is Ok && final(backend).contents() == old(backend).contents().remove(
                    self.address(key1@, key2@),
                )
            } else {
                is_overflow(out) && final(backend).contents() == old(backend).contents()
            },
    {
        match self.storage_double_map_final_key(key1, key2) {
            Ok(address) => {
                crate::slot::kill::<B>(backend, address.as_slice());
                Ok(())
            },
            Err(e) => Err(e),
        }
    }

    /// Reads the record of the pair, applies `f` to the query and writes the
    /// result back, in one step: a present result is stored, an absent one
    /// removes the record.
    pub fn mutate<B: Backend, F: FnOnce(Q::Query) -> Q::Query>(
        &self,
        backend: &mut B,
        key1: &K1, key2: &K2,
        f: F,
    ) -> (out: Result<(), StorageError>)
        requires
            Self::encodable(key1@, key2@) ==> accepts_read::<V, Q, F>(
                old(backend).contents(),
                self.address(key1@, key2@),
                self.on_empty(),
                f,
            ),
        ensures
            if Self::encodable(key1@, key2@) {
                is_mutation::<V, Q, F>(
                    out,
                    old(backend).contents(),
                    final(backend).contents(),
                    self.address(key1@, key2@),
                    self.on_empty(),
                    f,
                )
            } else {
                is_overflow(out) && final(backend).contents() == old(backend).contents()
            },
    {
        match self.storage_double_map_final_key(key1, key2) {
            Ok(address) => crate::slot::mutate::<V, Q, E, B, F>(
                backend,
                address.as_slice(),
                &self.on_empty,
                f,
            ),
            Err(e) => Err(e),
        }
    }

    /// Reads the record of the pair and removes it, whatever was read.
    pub fn take<B: Backend>(&self, backend: &mut B, key1: &K1, key2: &K2) -> (out: Result<
        Q::Query,
        StorageError,
    >)
        ensures
            if Self::encodable(key1@, key2@) {
                &&& is_read::<V, Q>(
                    out,
                    old(backend).contents(),
                    self.address(key1@, key2@),
                    self.on_empty(),
                )
                &&& final(backend).contents() == old(backend).contents().remove(
                    self.address(key1@, key2@),
                )
            } else {
                is_overflow(out) && final(backend).contents() == old(backend).contents()
            },
    {
        match self.storage_double_map_final_key(key1, key2) {
            Ok(address) => crate::slot::take::<V, Q, E, B>(
                backend,
                address.as_slice(),
                &self.on_empty,
            ),
            Err(e) => Err(e),
        }
    }

    /// Enumerates the records under `key1` in ascending address order, each
    /// as its second key and value or, where it does not decode, as the
    /// failure. The scheme of the first keys may be any; an entry whose
    /// second scheme does not keep keys is refused.
    pub fn iterate_prefix<B: Backend>(&self, backend: &B, key1: &K1) -> (out: Result<
        Vec<Result<(K2, V), StorageError>>,
        StorageError,
    >)
        ensures
            if !K1::encodable(key1@) {
                is_overflow(out)
            } else if self.scheme2().reversible() {
                out matches Ok(items) && is_enumeration::<K2, V>(
                    items@,
                    backend.contents(),
                    self.prefix(key1@),
                    self.scheme2(),
                )
            } else {
                out matches Err(e) && e@ == StorageErrorView::KeysNotRecoverable
            },
    {
        match self.storage_double_map_final_key1(key1) {
            Ok(prefix) => crate::enumerate::enumerate::<K2, V, B>(
                backend,
                prefix.as_slice(),
                self.hasher2,
            ),
            Err(e) => Err(e),
        }
    }

    /// Enumerates the values of the records under `key1` in ascending
    /// address order, without their second keys, each as the value or, where
    /// it does not decode, as the failure. This is what is left of
    /// enumeration under a second scheme that does not keep keys.
    pub fn iterate_prefix_values<B: Backend>(&self, backend: &B, key1: &K1) -> (out: Result<
        Vec<Result<V, StorageError>>,
        StorageError,
    >)
        ensures
            if K1::encodable(key1@) {
                out matches Ok(items) && is_value_enumeration::<V>(
                    items@,
                    backend.contents(),
                    self.prefix(key1@),
                )
            } else {
                is_overflow(out)
            },
    {
        match self.storage_double_map_final_key1(key1) {
            Ok(prefix) => Ok(crate::enumerate::enumerate_values::<V, B>(backend, prefix.as_slice())),
            Err(e) => Err(e),
        }
    }

    /// Rewrites every record under `key1`: each is decoded as a second key
    /// and a value of the old type `O`, and replaced by the encoding of what
    /// `f` makes of them, or removed where `f` gives nothing. A record that
    /// does not decode is skipped and reported, and the pass goes on. An
    /// entry whose second scheme does not keep keys is refused and nothing
    /// changes.
    pub fn translate_prefix<O: Codec, B: Backend, F: Fn(K2, O) -> Option<V>>(
        &self,
        backend: &mut B,
        key1: &K1,
        f: F,
    ) -> (out: Result<Vec<Result<(), StorageError>>, StorageError>)
        requires
            K1::encodable(key1@) && self.scheme2().reversible() ==> accepts_records::<K2, O, V, F>(
                old(backend).contents(),
                self.prefix(key1@),
                self.scheme2(),
                f,
            ),
        ensures
            if !K1::encodable(key1@) {
                is_overflow(out) && final(backend).contents() == old(backend).contents()
            } else if self.scheme2().reversible() {
                out matches Ok(outcomes) && is_translation::<K2, O, V, F>(
                    outcomes@,
                    old(backend).contents(),
                    final(backend).contents(),
                    self.prefix(key1@),
                    self.scheme2(),
                    f,
                )
            } else {
                &&& out matches Err(e) && e@ == StorageErrorView::KeysNotRecoverable
                &&& final(backend).contents() == old(backend).contents()
            },
    {
        match self.storage_double_map_final_key1(key1) {
            Ok(prefix) => crate::enumerate::translate::<K2, O, V, B, F>(
                backend,
                prefix.as_slice(),
                self.hasher2,
                f,
            ),
            Err(e) => Err(e),
        }
    }

    /// Every record under a first key lies under the prefix of that key.
    pub proof fn lemma_address_under_prefix(&self, key1: K1::V, key2: K2::V)
        ensures
            self.prefix(key1).is_prefix_of(self.address(key1, key2)),
    {
        let prefix = self.prefix(key1);
        assert(self.address(key1, key2).subrange(0, prefix.len() as int) =~= prefix);
    }

    /// Where the first scheme keeps keys and the two first keys have
    /// encodings of one length, a record of one first key does not lie under
    /// the prefix of another.
    pub proof fn lemma_prefixes_apart(&self, a: K1::V, b: K1::V, key2: K2::V)
        requires
            self.scheme1().reversible(),
            K1::encodable(a),
            K1::encodable(b),
            K1::encoding(a).len() == K1::encoding(b).len(),
            self.prefix(a).is_prefix_of(self.address(b, key2)),
        ensures
            a == b,
    {
        let root = self.identity().value_prefix();
        let ha = self.scheme1().transform(K1::encoding(a));
        let hb = self.scheme1().transform(K1::encoding(b));
        self.scheme1().lemma_digest_len(K1::encoding(a));
        self.scheme1().lemma_digest_len(K1::encoding(b));
        assert(ha.len() == hb.len());
        let whole = self.address(b, key2);
        assert(self.prefix(a) == whole.subrange(0, self.prefix(a).len() as int));
        assert(self.prefix(b) =~= whole.subrange(0, self.prefix(b).len() as int));
        assert(ha =~= self.prefix(a).subrange(root.len() as int, self.prefix(a).len() as int));
        assert(hb =~= self.prefix(b).subrange(root.len() as int, self.prefix(b).len() as int));
        self.scheme1().lemma_transform_injective(K1::encoding(a), K1::encoding(b));
        K1::lemma_round_trip(a);
        K1::lemma_round_trip(b);
    }

    /// Under a second scheme that keeps keys, the record that `insert`
    /// writes for a pair and a value is enumerated under the first key as
    /// the second key and that value.
    pub proof fn lemma_inserted_is_enumerated(&self, key1: K1::V, key2: K2::V, value: V::V)
        requires
            self.scheme2().reversible(),
            K2::encodable(key2),
            V::encodable(value),
        ensures
            decoded::<K2, V>(
                self.scheme2(),
                self.prefix(key1).len(),
                (self.address(key1, key2), V::encoding(value)),
            ) == Ok::<(K2::V, V::V), StorageErrorView>((key2, value)),
    {
        crate::enumerate::lemma_written_record_is_enumerated::<K2, V>(
            self.scheme2(),
            self.prefix(key1),
            key2,
            value,
        );
    }

    /// The hashing scheme of the first keys.
    pub fn hasher1(&self) -> (hasher: StorageHasher)
        ensures
            hasher == self.scheme1(),
    {
        self.hasher1
    }

    /// The hashing scheme of the second keys.
    pub fn hasher2(&self) -> (hasher: StorageHasher)
        ensures
            hasher == self.scheme2(),
    {
        self.hasher2
    }

    /// The name of the entry in its descriptor.
    pub fn name(&self) -> (name: &str)
        ensures
            name@ == self.identity().entry_identity,
    {
        self.instance.entry_identity()
    }

    /// The encoding of the entry's default.
    pub fn default_byte(&self) -> (bytes: Vec<u8>)
        ensures
            bytes@ == V::encoding(self.on_empty()),
    {
        proof {
            use_type_invariant(self);
        }
        vstd::slice::slice_to_vec(self.default_bytes.as_slice())
    }

    /// Builds the descriptor of the entry. The result depends on the entry
    /// and the arguments alone.
    pub fn storage_entry_metadata_builder(
        &self,
        key1_metadata: &str,
        key2_metadata: &str,
        value_metadata: &str,
        doc: &[&str],
    ) -> (out: StorageEntryMetadata)
        ensures
            out@ == self.descriptor(
                key1_metadata@,
                key2_metadata@,
                value_metadata@,
                str_lines_view(doc@),
            ),
    {
        StorageEntryMetadata {
            name: self.instance.entry_identity().to_owned(),
            modifier: Q::modifier(),
            ty: StorageEntryType::DoubleMap {
                hasher: self.hasher1,
                key1: key1_metadata.to_owned(),
                key2: key2_metadata.to_owned(),
                value: value_metadata.to_owned(),
                key2_hasher: self.hasher2,
            },
            default: self.default_byte(),
            documentation: own_lines(doc),
        }
    }
}

impl<K1: Codec, K2: Codec, V: Appendable, Q: QueryKind<V>, E: Get<V>> StorageDoubleMapType<
    K1,
    K2,
    V,
    Q,
    E,
> {
    /// Appends `item` to the sequence that is the value of the pair; a pair
    /// without a record has the empty sequence.
    pub fn append<B: Backend>(&self, backend: &mut B, key1: &K1, key2: &K2, item: V::Item) -> (out:
        Result<(), StorageError>)
        ensures
            if Self::encodable(key1@, key2@) {
                is_append::<V>(
                    out,
                    old(backend).contents(),
                    final(backend).contents(),
                    self.address(key1@, key2@),
                    item@,
                )
            } else {
                is_overflow(out) && final(backend).contents() == old(backend).contents()
            },
    {
        match self.storage_double_map_final_key(key1, key2) {
            Ok(address) => crate::slot::append::<V, B>(backend, address.as_slice(), item),
            Err(e) => Err(e),
        }
    }
}

impl<
    K1: Codec,
    K2: Codec,
    V: Codec,
    Q: QueryKind<V>,
    E: Get<V>,
> StorageMetadataMofidierGetter for StorageDoubleMapType<K1, K2, V, Q, E> {
    open spec fn spec_modifier() -> StorageEntryModifier {
        Q::spec_modifier()
    }

    fn modifier() -> (modifier: StorageEntryModifier) {
        Q::modifier()
    }
}

} // verus!
