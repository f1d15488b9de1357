//! What a read gives when nothing is stored: the two kinds of query and the
//! providers of default values.

use vstd::prelude::*;
use vstd::slice::slice_to_vec;
use crate::codec::Codec;
use crate::metadata::StorageEntryModifier;

verus! {

/// The mathematical content of an optional value.
pub open spec fn option_view<V: View>(value: Option<V>) -> Option<V::V> {
    match value {
        Some(v) => Some(v@),
        None => None,
    }
}

/// A provider of a value that is fixed when an entry is composed.
pub trait Get<V: View> {
    /// The value that the provider supplies, the same on every call.
    spec fn value(&self) -> V::V;

    /// Supplies the value.
    fn get(&self) -> (out: V)
        ensures
            out@ == self.value(),
    ;
}

/// The provider of the zero of an integer type, of `false` and of the empty
/// sequence.
#[derive(Clone, Copy, Debug)]
pub struct GetDefault;

impl Get<u8> for GetDefault {
    open spec fn value(&self) -> u8 {
        0
    }

    fn get(&self) -> (out: u8) {
        0
    }
}

impl Get<u16> for GetDefault {
    open spec fn value(&self) -> u16 {
        0
    }

    fn get(&self) -> (out: u16) {
        0
    }
}

impl Get<u32> for GetDefault {
    open spec fn value(&self) -> u32 {
        0
    }

    fn get(&self) -> (out: u32) {
        0
    }
}

impl Get<u64> for GetDefault {
    open spec fn value(&self) -> u64 {
        0
    }

    fn get(&self) -> (out: u64) {
        0
    }
}

impl Get<u128> for GetDefault {
    open spec fn value(&self) -> u128 {
        0
    }

    fn get(&self) -> (out: u128) {
        0
    }
}

impl Get<bool> for GetDefault {
    open spec fn value(&self) -> bool {
        false
    }

    fn get(&self) -> (out: bool) {
        false
    }
}

impl<T> Get<Vec<T>> for GetDefault {
    open spec fn value(&self) -> Seq<T> {
        Seq::empty()
    }

    fn get(&self) -> (out: Vec<T>) {
        Vec::new()
    }
}

/// The provider of a value that it holds.
#[derive(Debug)]
pub struct Fixed<V>(pub V);

impl<V: View + Copy> Get<V> for Fixed<V> {
    open spec fn value(&self) -> V::V {
        self.0@
    }

    fn get(&self) -> (out: V) {
        self.0
    }
}

/// The provider of a sequence that it holds.
#[derive(Debug)]
pub struct FixedVec<T>(pub Vec<T>);

impl<T: Copy> Get<Vec<T>> for FixedVec<T> {
    open spec fn value(&self) -> Seq<T> {
        self.0@
    }

    fn get(&self) -> (out: Vec<T>) {
        slice_to_vec(self.0.as_slice())
    }
}

/// A kind of query: how the optional value read from the store becomes what
/// a read returns, and how what a caller hands back becomes an optional
/// value again.
///
/// In contracts a query stands for the optional value that it converts back
/// to, `optional`.
pub trait QueryKind<V: Codec>: Sized {
    /// What a read returns.
    type Query;

    /// The optional value that a query converts back to.
    spec fn optional(query: Self::Query) -> Option<V::V>;

    /// The optional value of the query that a read makes of what is stored,
    /// given the entry's default.
    spec fn resolved(stored: Option<V::V>, on_empty: V::V) -> Option<V::V>;

    /// The modifier by which a descriptor announces the kind.
    spec fn spec_modifier() -> StorageEntryModifier;

    /// Makes the query for an optional stored value. The default is taken
    /// from `on_empty` only where it is used.
    fn from_optional_value_to_query<E: Get<V>>(value: Option<V>, on_empty: &E) -> (query:
        Self::Query)
        ensures
            Self::optional(query) == Self::resolved(option_view(value), on_empty.value()),
    ;

    /// Converts a query back to an optional value.
    fn from_query_to_optional_value(query: Self::Query) -> (value: Option<V>)
        ensures
            option_view(value) == Self::optional(query),
    ;

    /// The modifier by which a descriptor announces the kind.
    fn modifier() -> (modifier: StorageEntryModifier)
        ensures
            modifier == Self::spec_modifier(),
    ;
}

/// Reads return a value: the stored one, or the default when nothing is
/// stored. Whatever a caller hands back counts as present.
#[derive(Clone, Copy, Debug)]
pub struct ValueQuery;

/// Reads return an optional value: the stored one, or `None` when nothing is
/// stored. Handing back `None` clears the record.
#[derive(Clone, Copy, Debug)]
pub struct OptionQuery;

impl<V: Codec> QueryKind<V> for ValueQuery {
    type Query = V;

    open spec fn optional(query: V) -> Option<V::V> {
        Some(query@)
    }

    open spec fn resolved(stored: Option<V::V>, on_empty: V::V) -> Option<V::V> {
        match stored {
            Some(value) => Some(value),
            None => Some(on_empty),
        }
    }

    open spec fn spec_modifier() -> StorageEntryModifier {
        StorageEntryModifier::Default
    }

    fn from_optional_value_to_query<E: Get<V>>(value: Option<V>, on_empty: &E) -> (query: V) {
        match value {
            Some(v) => v,
            None => on_empty.get(),
        }
    }

    fn from_query_to_optional_value(query: V) -> (value: Option<V>) {
        Some(query)
    }

    fn modifier() -> (modifier: StorageEntryModifier) {
        StorageEntryModifier::Default
    }
}

impl<V: Codec> QueryKind<V> for OptionQuery {
    type Query = Option<V>;

    open spec fn optional(query: Option<V>) -> Option<V::V> {
        option_view(query)
    }

    open spec fn resolved(stored: Option<V::V>, on_empty: V::V) -> Option<V::V> {
        stored
    }

    open spec fn spec_modifier() -> StorageEntryModifier {
        StorageEntryModifier::Optional
    }

    fn from_optional_value_to_query<E: Get<V>>(value: Option<V>, on_empty: &E) -> (query: Option<
        V,
    >) {
        value
    }

    fn from_query_to_optional_value(query: Option<V>) -> (value: Option<V>) {
        query
    }

    fn modifier() -> (modifier: StorageEntryModifier) {
        StorageEntryModifier::Optional
    }
}

} // verus!
