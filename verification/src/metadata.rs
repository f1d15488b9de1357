//! Descriptors of storage entries for tools that inspect a composition:
//! what an entry is called, how absence reads, which shape it has, what its
//! default encodes to, and its documentation.

use vstd::prelude::*;
use crate::hash::StorageHasher;

verus! {

/// How an entry reads when nothing is stored.
#[derive(Clone, Copy, Debug, PartialEq, Eq, Structural)]
pub enum StorageEntryModifier {
    /// Reads give an optional value, absent when nothing is stored.
    Optional,
    /// Reads give a value, the default when nothing is stored.
    Default,
}

/// The shape of an entry, with the names of its types and its hashing
/// schemes.
#[derive(Debug, PartialEq, Eq)]
pub enum StorageEntryType {
    Plain(String),
    SingleMap { hasher: StorageHasher, key: String, value: String, unused: bool },
    DoubleMap {
        hasher: StorageHasher,
        key1: String,
        key2: String,
        value: String,
        key2_hasher: StorageHasher,
    },
}

/// The mathematical content of a [`StorageEntryType`].
pub enum StorageEntryTypeView {
    Plain(Seq<char>),
    SingleMap { hasher: StorageHasher, key: Seq<char>, value: Seq<char>, unused: bool },
    DoubleMap {
        hasher: StorageHasher,
        key1: Seq<char>,
        key2: Seq<char>,
        value: Seq<char>,
        key2_hasher: StorageHasher,
    },
}

impl View for StorageEntryType {
    type V = StorageEntryTypeView;

    open spec fn view(&self) -> StorageEntryTypeView {
        match self {
            StorageEntryType::Plain(value) => StorageEntryTypeView::Plain(value@),
            StorageEntryType::SingleMap { hasher, key, value, unused } => StorageEntryTypeView::SingleMap {
                hasher: *hasher,
                key: key@,
                value: value@,
                unused: *unused,
            },
            StorageEntryType::DoubleMap {
                hasher,
                key1,
                key2,
                value,
                key2_hasher,
            } => StorageEntryTypeView::DoubleMap {
                hasher: *hasher,
                key1: key1@,
                key2: key2@,
                value: value@,
                key2_hasher: *key2_hasher,
            },
        }
    }
}

/// The descriptor of one entry.
#[derive(Debug, PartialEq, Eq)]
pub struct StorageEntryMetadata {
    pub name: String,
    pub modifier: StorageEntryModifier,
    pub ty: StorageEntryType,
    pub default: Vec<u8>,
    pub documentation: Vec<String>,
}

/// The mathematical content of a [`StorageEntryMetadata`].
pub struct StorageEntryMetadataView {
    pub name: Seq<char>,
    pub modifier: StorageEntryModifier,
    pub ty: StorageEntryTypeView,
    pub default: Seq<u8>,
    pub documentation: Seq<Seq<char>>,
}

/// The lines of a documentation text as sequences of characters.
pub open spec fn lines_view(lines: Seq<String>) -> Seq<Seq<char>> {
    Seq::new(lines.len(), |i: int| lines[i]@)
}

/// The lines of a borrowed documentation text as sequences of characters.
pub open spec fn str_lines_view(lines: Seq<&str>) -> Seq<Seq<char>> {
    Seq::new(lines.len(), |i: int| lines[i]@)
}

impl View for StorageEntryMetadata {
    type V = StorageEntryMetadataView;

    open spec fn view(&self) -> StorageEntryMetadataView {
        StorageEntryMetadataView {
            name: self.name@,
            modifier: self.modifier,
            ty: self.ty@,
            default: self.default@,
            documentation: lines_view(self.documentation@),
        }
    }
}

/// Copies the lines of a documentation text.
pub fn own_lines(lines: &[&str]) -> (out: Vec<String>)
    ensures
        lines_view(out@) == str_lines_view(lines@),
{
    let mut out: Vec<String> = Vec::new();
    let mut i: usize = 0;
    while i < lines.len()
        invariant
            i <= lines@.len(),
            out@.len() == i,
            forall|j: int| 0 <= j < i ==> out@[j]@ == lines@[j]@,
        decreases lines@.len() - i,
    {
        out.push(lines[i].to_owned());
        i += 1;
    }
    assert(lines_view(out@) =~= str_lines_view(lines@));
    out
}

/// An entry type that announces, in its descriptor, how absence reads.
pub trait StorageMetadataMofidierGetter {
    /// The modifier of the entry type.
    spec fn spec_modifier() -> StorageEntryModifier;

    /// The modifier of the entry type.
    fn modifier() -> (modifier: StorageEntryModifier)
        ensures
            modifier == Self::spec_modifier(),
    ;
}

/// The descriptors of the entries of one module.
#[derive(Debug, PartialEq, Eq)]
pub struct StorageMetadata {
    /// The name of the module, which every entry's address begins with the
    /// digest of.
    pub prefix: String,
    /// The descriptors of the entries, in the order of their declaration.
    pub entries: Vec<StorageEntryMetadata>,
}

impl StorageMetadata {
    /// Collects the descriptors of a module's entries under the module's
    /// name.
    pub fn new(prefix: &str, entries: Vec<StorageEntryMetadata>) -> (out: StorageMetadata)
        ensures
            out.prefix@ == prefix@,
            out.entries == entries,
    {
        StorageMetadata { prefix: prefix.to_owned(), entries }
    }
}

} // verus!
