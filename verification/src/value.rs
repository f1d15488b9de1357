//! Single-value entries.

use core::marker::PhantomData;
use vstd::prelude::*;
use crate::backend::Backend;
use crate::codec::{Appendable, Codec};
use crate::error::{StorageError, StorageErrorView};
use crate::instance::{InstanceView, StorageInstance};
use crate::metadata::{
    own_lines, str_lines_view, StorageEntryMetadata, StorageEntryMetadataView,
    StorageEntryModifier, StorageEntryTypeView, StorageEntryType, StorageMetadataMofidierGetter,
};
use crate::query::{option_view, Get, QueryKind};
use crate::slot::{accepts_read, is_append, is_mutation, is_read, is_write};

verus! {

/// An entry that holds one value of type `V`, read as a query of kind `Q`,
/// with the default that `E` provides.
///
/// The entry lives at a fixed address, the address prefix of its identity.
pub struct StorageValueType<V: Codec, Q: QueryKind<V>, E: Get<V>> {
    instance: StorageInstance,
    on_empty: E,
    default_bytes: Vec<u8>,
    marker: PhantomData<(V, Q)>,
}

impl<V: Codec, Q: QueryKind<V>, E: Get<V>> StorageValueType<V, Q, E> {
    #[verifier::type_invariant]
    spec fn composed(&self) -> bool {
        &&& V::encodable(self.on_empty.value())
        &&& self.default_bytes@ == V::encoding(self.on_empty.value())
    }

    /// The identity of the entry.
    pub closed spec fn identity(&self) -> InstanceView {
        self.instance@
    }

    /// The default of the entry.
    pub closed spec fn on_empty(&self) -> V::V {
        self.on_empty.value()
    }

    /// The address of the entry.
    pub open spec fn address(&self) -> Seq<u8> {
        self.identity().value_prefix()
    }

    /// The descriptor of the entry for the given type name and
    /// documentation.
    pub open spec fn descriptor(
        &self,
        value_metadata: Seq<char>,
        doc: Seq<Seq<char>>,
    ) -> StorageEntryMetadataView {
        StorageEntryMetadataView {
            name: self.identity().entry_identity,
            modifier: Q::spec_modifier(),
            ty: StorageEntryTypeView::Plain(value_metadata),
            default: V::encoding(self.on_empty()),
            documentation: doc,
        }
    }

    /// The descriptor of an entry is the same on every call: two descriptors
    /// built for the same type name and documentation are equal, whatever
    /// the store held when each was built.
    pub proof fn lemma_descriptor_is_determined(
        &self,
        a: StorageEntryMetadata,
        b: StorageEntryMetadata,
        value_metadata: Seq<char>,
        doc: Seq<Seq<char>>,
    )
        requires
            a@ == self.descriptor(value_metadata, doc),
            b@ == self.descriptor(value_metadata, doc),
        ensures
            a@ == b@,
            a.default@ == b.default@,
    {
    }

    /// Composes the entry. The default is encoded here, once; a default
    /// without an encoding is refused.
    pub fn new(instance: StorageInstance, on_empty: E) -> (out: Result<Self, StorageError>)
        ensures
            match out {
                Ok(entry) => {
                    &&& V::encodable(on_empty.value())
                    &&& entry.identity() == instance@
                    &&& entry.on_empty() == on_empty.value()
                },
                Err(e) => !V::encodable(on_empty.value()) && e@
                    == StorageErrorView::EncodingOverflow,
            },
    {
        match on_empty.get().encode() {
            Ok(default_bytes) => Ok(
                StorageValueType { instance, on_empty, default_bytes, marker: PhantomData },
            ),
            Err(e) => Err(e),
        }
    }

    /// The bytes of the module's name.
    pub fn module_prefix(&self) -> (bytes: &[u8])
        ensures
            bytes@ == self.identity().module_prefix(),
    {
        self.instance.module_prefix()
    }

    /// The bytes of the entry's name.
    pub fn storage_prefix(&self) -> (bytes: &[u8])
        ensures
            bytes@ == self.identity().storage_prefix(),
    {
        self.instance.storage_prefix()
    }

    /// The address of the entry.
    pub fn storage_value_final_key(&self) -> (address: Vec<u8>)
        ensures
            address@ == self.address(),
            address@.len() == 32,
    {
        self.instance.value_prefix()
    }

    /// Makes the query for an optional stored value.
    pub fn from_optional_value_to_query(&self, value: Option<V>) -> (query: Q::Query)
        ensures
            Q::optional(query) == Q::resolved(option_view(value), self.on_empty()),
    {
        Q::from_optional_value_to_query(value, &self.on_empty)
    }

    /// Converts a query back to an optional value.
    pub fn from_query_to_optional_value(query: Q::Query) -> (value: Option<V>)
        ensures
            option_view(value) == Q::optional(query),
    {
        Q::from_query_to_optional_value(query)
    }

    /// Reads the entry: the stored value as a query, or what the kind of
    /// query makes of absence.
    pub fn get<B: Backend>(&self, backend: &B) -> (out: Result<Q::Query, StorageError>)
        ensures
            is_read::<V, Q>(out, backend.contents(), self.address(), self.on_empty()),
    {
        let address = self.instance.value_prefix();
        crate::slot::get::<V, Q, E, B>(backend, address.as_slice(), &self.on_empty)
    }

    /// Writes `value` to the entry. A value without an encoding leaves the
    /// store as it was.
    pub fn put<B: Backend>(&self, backend: &mut B, value: &V) -> (out: Result<(), StorageError>)
        ensures
            is_write::<V>(
                out,
                old(backend).contents(),
                final(backend).contents(),
                self.address(),
                Some(value@),
            ),
    {
        let address = self.instance.value_prefix();
        crate::slot::put::<V, B>(backend, address.as_slice(), value)
    }

    /// Reads the entry, applies `f` to the query and writes the result
    /// back, in one step: a present result is stored, an absent one removes
    /// the record.
    pub fn mutate<B: Backend, F: FnOnce(Q::Query) -> Q::Query>(&self, backend: &mut B, f: F) -> (out:
        Result<(), StorageError>)
        requires
            accepts_read::<V, Q, F>(old(backend).contents(), self.address(), self.on_empty(), f),
        ensures
            is_mutation::<V, Q, F>(
                out,
                old(backend).contents(),
                final(backend).contents(),
                self.address(),
                self.on_empty(),
                f,
            ),
    {
        let address = self.instance.value_prefix();
        crate::slot::mutate::<V, Q, E, B, F>(backend, address.as_slice(), &self.on_empty, f)
    }

    /// Reads the entry and removes its record, whatever was read.
    pub fn take<B: Backend>(&self, backend: &mut B) -> (out: Result<Q::Query, StorageError>)
        ensures
            is_read::<V, Q>(out, old(backend).contents(), self.address(), self.on_empty()),
            final(backend).contents() == old(backend).contents().remove(self.address()),
    {
        let address = self.instance.value_prefix();
        crate::slot::take::<V, Q, E, B>(backend, address.as_slice(), &self.on_empty)
    }

    /// Whether the entry has a record, whatever it holds.
    pub fn is_present<B: Backend>(&self, backend: &B) -> (present: bool)
        ensures
            present == backend.contents().contains_key(self.address()),
    {
        let address = self.instance.value_prefix();
        crate::slot::is_present::<B>(backend, address.as_slice())
    }

    /// Removes the entry's record.
    pub fn kill<B: Backend>(&self, backend: &mut B)
        ensures
            final(backend).contents() == old(backend).contents().remove(self.address()),
    {
        let address = self.instance.value_prefix();
        crate::slot::kill::<B>(backend, address.as_slice())
    }

    /// The name of the entry in its descriptor.
    pub fn name(&self) -> (name: &str)
        ensures
            name@ == self.identity().entry_identity,
    {
        self.instance.entry_identity()
    }

    /// The encoding of the entry's default.
    pub fn default_byte(&self) -> (bytes: Vec<u8>)
        ensures
            bytes@ == V::encoding(self.on_empty()),
    {
        proof {
            use_type_invariant(self);
        }
        vstd::slice::slice_to_vec(self.default_bytes.as_slice())
    }

    /// Builds the descriptor of the entry. The result depends on the entry
    /// and the arguments alone.
    pub fn storage_entry_metadata_builder(&self, value_metadata: &str, doc: &[&str]) -> (out:
        StorageEntryMetadata)
        ensures
            out@ == self.descriptor(value_metadata@, str_lines_view(doc@)),
    {
        StorageEntryMetadata {
            name: self.instance.entry_identity().to_owned(),
            modifier: Q::modifier(),
            ty: StorageEntryType::Plain(value_metadata.to_owned()),
            default: self.default_byte(),
            documentation: own_lines(doc),
        }
    }
}

impl<V: Appendable, Q: QueryKind<V>, E: Get<V>> StorageValueType<V, Q, E> {
    /// Appends `item` to the sequence that the entry holds; an entry without
    /// a record holds the empty sequence.
    pub fn append<B: Backend>(&self, backend: &mut B, item: V::Item) -> (out: Result<
        (),
        StorageError,
    >)
        ensures
            is_append::<V>(
                out,
                old(backend).contents(),
                final(backend).contents(),
                self.address(),
                item@,
            ),
    {
        let address = self.storage_value_final_key();
        crate::slot::append::<V, B>(backend, address.as_slice(), item)
    }
}

impl<V: Codec, Q: QueryKind<V>, E: Get<V>> StorageMetadataMofidierGetter for StorageValueType<
    V,
    Q,
    E,
> {
    open spec fn spec_modifier() -> StorageEntryModifier {
        Q::spec_modifier()
    }

    fn modifier() -> (modifier: StorageEntryModifier) {
        Q::modifier()
    }
}

} // verus!
