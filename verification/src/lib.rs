//! Typed access to a byte-keyed store: single values, maps and double maps
//! whose addresses are derived from a module identity, an entry identity and
//! the hashed encodings of their keys.

pub mod backend;
pub mod bytes;
pub mod codec;
pub mod composition;
pub mod double_map;
pub mod enumerate;
pub mod error;
pub mod hash;
pub mod instance;
pub mod map;
pub mod metadata;
pub mod query;
pub mod slot;
pub mod value;
