//! The identity of a storage entry and the address prefix that follows from
//! it.

use vstd::prelude::*;
use vstd::utf8::encode_utf8;
use crate::bytes::join;
use crate::hash::{hash128, spec_hash128};

verus! {

/// The two names that identify an entry: that of its module and its own.
pub struct InstanceView {
    pub module_identity: Seq<char>,
    pub entry_identity: Seq<char>,
}

impl InstanceView {
    /// The bytes of the module's name.
    pub open spec fn module_prefix(self) -> Seq<u8> {
        encode_utf8(self.module_identity)
    }

    /// The bytes of the entry's name.
    pub open spec fn storage_prefix(self) -> Seq<u8> {
        encode_utf8(self.entry_identity)
    }

    /// The address prefix of the entry: the digest of the module's name
    /// followed by the digest of the entry's name, 32 bytes in all.
    pub open spec fn value_prefix(self) -> Seq<u8> {
        spec_hash128(self.module_prefix()) + spec_hash128(self.storage_prefix())
    }
}

/// The identity of one storage entry. Both names are non-empty and never
/// change.
pub struct StorageInstance {
    module_identity: String,
    entry_identity: String,
}

impl View for StorageInstance {
    type V = InstanceView;

    closed spec fn view(&self) -> InstanceView {
        InstanceView {
            module_identity: self.module_identity@,
            entry_identity: self.entry_identity@,
        }
    }
}

impl StorageInstance {
    #[verifier::type_invariant]
    spec fn named(&self) -> bool {
        self.module_identity@.len() > 0 && self.entry_identity@.len() > 0
    }

    /// The identity made of the two names, unless one of them is empty.
    pub fn new(module_identity: &str, entry_identity: &str) -> (out: Option<StorageInstance>)
        ensures
            out is Some <==> module_identity@.len() > 0 && entry_identity@.len() > 0,
            out matches Some(instance) ==> instance@ == (InstanceView {
                module_identity: module_identity@,
                entry_identity: entry_identity@,
            }),
    {
        if module_identity.is_empty() || entry_identity.is_empty() {
            None
        } else {
            Some(
                StorageInstance {
                    module_identity: module_identity.to_owned(),
                    entry_identity: entry_identity.to_owned(),
                },
            )
        }
    }

    /// The module's name.
    pub fn module_identity(&self) -> (name: &str)
        ensures
            name@ == self@.module_identity,
            name@.len() > 0,
    {
        proof {
            use_type_invariant(self);
        }
        self.module_identity.as_str()
    }

    /// The entry's name.
    pub fn entry_identity(&self) -> (name: &str)
        ensures
            name@ == self@.entry_identity,
            name@.len() > 0,
    {
        proof {
            use_type_invariant(self);
        }
        self.entry_identity.as_str()
    }

    /// The bytes of the module's name.
    pub fn module_prefix(&self) -> (bytes: &[u8])
        ensures
            bytes@ == self@.module_prefix(),
    {
        self.module_identity.as_str().as_bytes()
    }

    /// The bytes of the entry's name.
    pub fn storage_prefix(&self) -> (bytes: &[u8])
        ensures
            bytes@ == self@.storage_prefix(),
    {
        self.entry_identity.as_str().as_bytes()
    }

    /// The address prefix of the entry.
    pub fn value_prefix(&self) -> (prefix: Vec<u8>)
        ensures
            prefix@ == self@.value_prefix(),
            prefix@.len() == 32,
    {
        let module = hash128(self.module_prefix());
        let entry = hash128(self.storage_prefix());
        join(module.as_slice(), entry.as_slice())
    }
}

} // verus!
