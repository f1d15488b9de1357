//! What the declarations of a module's entries expand to: for each entry the
//! name of its identity and the prefix it stores under, and the call that
//! builds its descriptor.
//!
//! The declarations come in as plain data and the expansion goes out as
//! plain data; turning source text into the one and the other into source
//! text is left to the embedding.

use vstd::prelude::*;
use vstd::string::StringExecFns;
use crate::metadata::lines_view;

verus! {

/// The instance that an entry's identity belongs to where its module is not
/// generic over instances.
pub const INHERENT_INSTANCE_NAME: &'static str = "__InherentHiddenInstance";

/// The names of the declared types of an entry, by its shape.
#[derive(Debug, PartialEq, Eq)]
pub enum Metadata {
    Value { value: String },
    SingleMap { key: String, value: String },
    DoubleMap { key1: String, key2: String, value: String },
}

impl Metadata {
    /// The type names in the order in which a descriptor builder takes them:
    /// keys first, the value last.
    pub open spec fn type_names(&self) -> Seq<Seq<char>> {
        match self {
            Metadata::Value { value } => seq![value@],
            Metadata::SingleMap { key, value } => seq![key@, value@],
            Metadata::DoubleMap { key1, key2, value } => seq![key1@, key2@, value@],
        }
    }
}

/// The declaration of one entry.
#[derive(Debug, PartialEq, Eq)]
pub struct StorageDef {
    /// The name under which the entry is declared.
    pub ident: String,
    /// The names of its declared types.
    pub metadata: Metadata,
    /// Its documentation, line by line.
    pub docs: Vec<String>,
    /// Whether the entry's type is generic over the module's instance.
    pub has_instance: bool,
    /// Whether the entry's type is generic over the module's configuration.
    pub has_trait: bool,
}

/// The declarations of a module's entries.
#[derive(Debug, PartialEq, Eq)]
pub struct Def {
    /// Whether the module is generic over instances.
    pub has_instance: bool,
    /// The entries in the order of their declaration.
    pub storages: Vec<StorageDef>,
}

/// The identity generated for one entry.
#[derive(Debug, PartialEq, Eq)]
pub struct PrefixStruct {
    /// The name of the identity: the entry's name followed by `P`.
    pub ident: String,
    /// The prefix that the entry stores under: the entry's name.
    pub storage_prefix: String,
    /// Whether the identity is generic over the module's instance.
    pub generic: bool,
}

/// The call that builds the descriptor of one entry.
#[derive(Debug, PartialEq, Eq)]
pub struct BuilderCall {
    /// The entry whose builder is called.
    pub ident: String,
    /// Whether the entry's type takes the module's configuration.
    pub has_trait: bool,
    /// Whether the entry's type takes the module's instance.
    pub has_instance: bool,
    /// The type names handed to the builder, keys first, the value last.
    pub type_names: Vec<String>,
    /// The documentation handed to the builder.
    pub docs: Vec<String>,
}

/// What the declarations of a module's entries expand to.
#[derive(Debug, PartialEq, Eq)]
pub struct Expansion {
    /// The name of the instance that every identity belongs to.
    pub instance: String,
    /// One identity for each entry, in the order of declaration.
    pub prefix_structs: Vec<PrefixStruct>,
    /// One builder call for each entry, in the order of declaration.
    pub entries: Vec<BuilderCall>,
}

/// The name of the instance of a module: `I` where the module is generic
/// over instances, the hidden inherent instance where it is not.
pub open spec fn instance_name(has_instance: bool) -> Seq<char> {
    if has_instance {
        "I"@
    } else {
        INHERENT_INSTANCE_NAME@
    }
}

/// `out` is the identity generated for the entry `storage` of a module.
pub open spec fn is_prefix_struct(out: PrefixStruct, storage: StorageDef, has_instance: bool) -> bool {
    &&& out.ident@ == storage.ident@ + "P"@
    &&& out.storage_prefix@ == storage.ident@
    &&& out.generic == has_instance
}

/// `out` is the builder call for the entry `storage`.
pub open spec fn is_builder_call(out: BuilderCall, storage: StorageDef) -> bool {
    &&& out.ident@ == storage.ident@
    &&& out.has_trait == storage.has_trait
    &&& out.has_instance == storage.has_instance
    &&& lines_view(out.type_names@) == storage.metadata.type_names()
    &&& lines_view(out.docs@) == lines_view(storage.docs@)
}

/// Copies a list of strings.
pub fn copy_lines(lines: &Vec<String>) -> (out: Vec<String>)
    ensures
        lines_view(out@) == lines_view(lines@),
{
    let mut out: Vec<String> = Vec::new();
    let mut i: usize = 0;
    while i < lines.len()
        invariant
            i <= lines@.len(),
            out@.len() == i,
            forall|j: int| 0 <= j < i ==> out@[j]@ == lines@[j]@,
        decreases lines@.len() - i,
    {
        out.push(lines[i].clone());
        i += 1;
    }
    assert(lines_view(out@) =~= lines_view(lines@));
    out
}

/// The type names of an entry in the order in which its descriptor builder
/// takes them.
pub fn builder_arguments(metadata: &Metadata) -> (out: Vec<String>)
    ensures
        lines_view(out@) == metadata.type_names(),
{
    let mut out: Vec<String> = Vec::new();
    match metadata {
        Metadata::Value { value } => {
            out.push(value.clone());
        },
        Metadata::SingleMap { key, value } => {
            out.push(key.clone());
            out.push(value.clone());
        },
        Metadata::DoubleMap { key1, key2, value } => {
            out.push(key1.clone());
            out.push(key2.clone());
            out.push(value.clone());
        },
    }
    assert(lines_view(out@) =~= metadata.type_names());
    out
}

/// Expands the declarations of a module's entries: the instance that the
/// identities belong to, and for each entry, in the order of declaration,
/// its identity and the call that builds its descriptor.
pub fn expand_storages(def: &Def) -> (out: Expansion)
    ensures
        out.instance@ == instance_name(def.has_instance),
        out.prefix_structs@.len() == def.storages@.len(),
        out.entries@.len() == def.storages@.len(),
        forall|i: int|
            0 <= i < def.storages@.len() ==> is_prefix_struct(
                #[trigger] out.prefix_structs@[i],
                def.storages@[i],
                def.has_instance,
            ),
        forall|i: int|
            0 <= i < def.storages@.len() ==> is_builder_call(
                #[trigger] out.entries@[i],
                def.storages@[i],
            ),
{
    let instance = if def.has_instance {
        "I".to_owned()
    } else {
        INHERENT_INSTANCE_NAME.to_owned()
    };
    let mut prefix_structs: Vec<PrefixStruct> = Vec::new();
    let mut entries: Vec<BuilderCall> = Vec::new();
    let mut i: usize = 0;
    while i < def.storages.len()
        invariant
            i <= def.storages@.len(),
            prefix_structs@.len() == i,
            entries@.len() == i,
            forall|j: int|
                0 <= j < i ==> is_prefix_struct(
                    #[trigger] prefix_structs@[j],
                    def.storages@[j],
                    def.has_instance,
                ),
            forall|j: int| 0 <= j < i ==> is_builder_call(#[trigger] entries@[j], def.storages@[j]),
        decreases def.storages@.len() - i,
    {
        let storage = &def.storages[i];
        prefix_structs.push(
            PrefixStruct {
                ident: storage.ident.clone().concat("P"),
                storage_prefix: storage.ident.clone(),
                generic: def.has_instance,
            },
        );
        entries.push(
            BuilderCall {
                ident: storage.ident.clone(),
                has_trait: storage.has_trait,
                has_instance: storage.has_instance,
                type_names: builder_arguments(&storage.metadata),
                docs: copy_lines(&storage.docs),
            },
        );
        i += 1;
    }
    Expansion { instance, prefix_structs, entries }
}

/// Whether no two entries of the module are declared under one name, as the
/// identities of a composition must differ.
pub fn has_distinct_idents(def: &Def) -> (distinct: bool)
    ensures
        distinct == forall|i: int, j: int|
            0 <= i < j < def.storages@.len() ==> def.storages@[i].ident@ != def.storages@[j].ident@,
{
    let mut j: usize = 0;
    while j < def.storages.len()
        invariant
            j <= def.storages@.len(),
            forall|a: int, b: int|
                0 <= a < b < j ==> def.storages@[a].ident@ != def.storages@[b].ident@,
        decreases def.storages@.len() - j,
    {
        let mut i: usize = 0;
        while i < j
            invariant
                i <= j < def.storages@.len(),
                forall|a: int| 0 <= a < i ==> def.storages@[a].ident@ != def.storages@[j as int].ident@,
            decreases j - i,
        {
            if def.storages[i].ident == def.storages[j].ident {
                return false;
            }
            i += 1;
        }
        j += 1;
    }
    true
}

} // verus!
