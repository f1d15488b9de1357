//! The byte-keyed store underneath the typed entries.
//!
//! [`Backend`] is the interface the entries work against: read, write and
//! remove one record, and list the records under a prefix in ascending
//! address order. [`MemoryBackend`] is an implementation that keeps its
//! records in a sorted vector.

use vstd::prelude::*;
use vstd::slice::slice_to_vec;
use crate::bytes::{
    bytes_eq, bytes_lt, lemma_lex_lt_irreflexive, lemma_lex_lt_total, lemma_lex_lt_transitive,
    lex_lt, starts_with,
};

verus! {

/// A record of a store: an address and the bytes kept there.
pub type Record = (Vec<u8>, Vec<u8>);

/// The records of a vector as pairs of byte strings.
pub open spec fn record_views(records: Seq<Record>) -> Seq<(Seq<u8>, Seq<u8>)> {
    Seq::new(records.len(), |i: int| (records[i].0@, records[i].1@))
}

/// The addresses of `records` ascend strictly in lexicographic byte order.
pub open spec fn ascending(records: Seq<(Seq<u8>, Seq<u8>)>) -> bool {
    forall|i: int, j: int| 0 <= i < j < records.len() ==> lex_lt(records[i].0, records[j].0)
}

/// `records` lists exactly the records of `contents` whose address begins
/// with `prefix`, each once, in ascending address order.
pub open spec fn is_scan_of(
    records: Seq<(Seq<u8>, Seq<u8>)>,
    contents: Map<Seq<u8>, Seq<u8>>,
    prefix: Seq<u8>,
) -> bool {
    &&& ascending(records)
    &&& forall|i: int|
        0 <= i < records.len() ==> {
            &&& prefix.is_prefix_of(#[trigger] records[i].0)
            &&& contents.contains_key(records[i].0)
            &&& contents[records[i].0] == records[i].1
        }
    &&& forall|address: Seq<u8>|
        #![trigger contents.contains_key(address)]
        contents.contains_key(address) && prefix.is_prefix_of(address) ==> exists|i: int|
            0 <= i < records.len() && #[trigger] records[i].0 == address
}

/// There is only one scan of a store under a prefix.
pub proof fn lemma_scan_unique(
    a: Seq<(Seq<u8>, Seq<u8>)>,
    b: Seq<(Seq<u8>, Seq<u8>)>,
    contents: Map<Seq<u8>, Seq<u8>>,
    prefix: Seq<u8>,
)
    requires
        is_scan_of(a, contents, prefix),
        is_scan_of(b, contents, prefix),
    ensures
        a == b,
    decreases a.len(),
{
    if a.len() == 0 {
        if b.len() > 0 {
            assert(contents.contains_key(b[0].0) && prefix.is_prefix_of(b[0].0));
        }
        assert(a =~= b);
    } else if b.len() == 0 {
        assert(contents.contains_key(a[0].0) && prefix.is_prefix_of(a[0].0));
    } else {
        let la = a.len() - 1;
        let lb = b.len() - 1;
        // The greatest address of either list is the greatest of the other.
        assert(contents.contains_key(a[la].0) && prefix.is_prefix_of(a[la].0));
        let ib = choose|i: int| 0 <= i < b.len() && #[trigger] b[i].0 == a[la].0;
        assert(contents.contains_key(b[lb].0) && prefix.is_prefix_of(b[lb].0));
        let ia = choose|i: int| 0 <= i < a.len() && #[trigger] a[i].0 == b[lb].0;
        if ib < lb {
            assert(lex_lt(b[ib].0, b[lb].0));
            if ia < la {
                assert(lex_lt(a[ia].0, a[la].0));
                lemma_lex_lt_transitive(a[la].0, b[lb].0, a[la].0);
            }
            lemma_lex_lt_irreflexive(a[la].0);
        }
        assert(a[la].0 == b[lb].0);
        assert(a[la] == b[lb]);
        let a0 = a.drop_last();
        let b0 = b.drop_last();
        assert(is_scan_of(a0, contents.remove(a[la].0), prefix)) by {
            lemma_drop_last_scan(a, contents, prefix);
        }
        assert(is_scan_of(b0, contents.remove(a[la].0), prefix)) by {
            lemma_drop_last_scan(b, contents, prefix);
        }
        lemma_scan_unique(a0, b0, contents.remove(a[la].0), prefix);
        assert(a =~= a0.push(a[la]));
        assert(b =~= b0.push(b[lb]));
    }
}

proof fn lemma_drop_last_scan(
    a: Seq<(Seq<u8>, Seq<u8>)>,
    contents: Map<Seq<u8>, Seq<u8>>,
    prefix: Seq<u8>,
)
    requires
        is_scan_of(a, contents, prefix),
        a.len() > 0,
    ensures
        is_scan_of(a.drop_last(), contents.remove(a.last().0), prefix),
{
    let a0 = a.drop_last();
    let last = a.last().0;
    let rest = contents.remove(last);
    assert forall|i: int| 0 <= i < a0.len() implies {
        &&& prefix.is_prefix_of(#[trigger] a0[i].0)
        &&& rest.contains_key(a0[i].0)
        &&& rest[a0[i].0] == a0[i].1
    } by {
        assert(a0[i] == a[i]);
        assert(lex_lt(a[i].0, a[a.len() - 1].0));
        lemma_lex_lt_irreflexive(last);
    }
    assert forall|address: Seq<u8>|
        #![trigger rest.contains_key(address)]
        rest.contains_key(address) && prefix.is_prefix_of(address) implies exists|i: int|
        0 <= i < a0.len() && #[trigger] a0[i].0 == address by {
        assert(contents.contains_key(address));
        let i = choose|i: int| 0 <= i < a.len() && #[trigger] a[i].0 == address;
        assert(i < a.len() - 1);
        assert(a0[i].0 == address);
    }
    assert(ascending(a0)) by {
        assert forall|i: int, j: int| 0 <= i < j < a0.len() implies lex_lt(a0[i].0, a0[j].0) by {
            assert(a0[i] == a[i] && a0[j] == a[j]);
        }
    }
}

/// A store of byte records keyed by byte addresses.
///
/// Each operation takes effect on the contents as a whole or not at all.
pub trait Backend {
    /// The records of the store, by address.
    spec fn contents(&self) -> Map<Seq<u8>, Seq<u8>>;

    /// The bytes kept at `address`, if there are any.
    fn get(&self, address: &[u8]) -> (out: Option<Vec<u8>>)
        ensures
            match out {
                Some(bytes) => self.contents().contains_key(address@) && self.contents()[address@]
                    == bytes@,
                None => !self.contents().contains_key(address@),
            },
    ;

    /// Keeps `value` at `address`, in place of what was there.
    fn put(&mut self, address: &[u8], value: &[u8])
        ensures
            final(self).contents() == old(self).contents().insert(address@, value@),
    ;

    /// Removes the record at `address`, if there is one.
    fn remove(&mut self, address: &[u8])
        ensures
            final(self).contents() == old(self).contents().remove(address@),
    ;

    /// The records whose address begins with `prefix`, in ascending address
    /// order.
    fn scan_prefix(&self, prefix: &[u8]) -> (out: Vec<Record>)
        ensures
            is_scan_of(record_views(out@), self.contents(), prefix@),
    ;
}

/// The map that a list of records with distinct addresses stands for.
spec fn contents_of(records: Seq<(Seq<u8>, Seq<u8>)>) -> Map<Seq<u8>, Seq<u8>> {
    Map::new(
        |address: Seq<u8>| exists|i: int| 0 <= i < records.len() && #[trigger] records[i].0 == address,
        |address: Seq<u8>| records[index_of(records, address)].1,
    )
}

/// A position of `address` in `records`.
spec fn index_of(records: Seq<(Seq<u8>, Seq<u8>)>, address: Seq<u8>) -> int {
    choose|i: int| 0 <= i < records.len() && #[trigger] records[i].0 == address
}

proof fn lemma_ascending_distinct(records: Seq<(Seq<u8>, Seq<u8>)>, i: int, j: int)
    requires
        ascending(records),
        0 <= i < records.len(),
        0 <= j < records.len(),
        records[i].0 == records[j].0,
    ensures
        i == j,
{
    lemma_lex_lt_irreflexive(records[i].0);
    if i < j {
        assert(lex_lt(records[i].0, records[j].0));
    } else if j < i {
        assert(lex_lt(records[j].0, records[i].0));
    }
}

proof fn lemma_contents_at(records: Seq<(Seq<u8>, Seq<u8>)>, i: int)
    requires
        ascending(records),
        0 <= i < records.len(),
    ensures
        contents_of(records).contains_key(records[i].0),
        contents_of(records)[records[i].0] == records[i].1,
{
    let j = index_of(records, records[i].0);
    lemma_ascending_distinct(records, i, j);
}

proof fn lemma_insert_record(
    records: Seq<(Seq<u8>, Seq<u8>)>,
    at: int,
    address: Seq<u8>,
    value: Seq<u8>,
)
    requires
        ascending(records),
        0 <= at <= records.len(),
        forall|i: int| 0 <= i < at ==> lex_lt(#[trigger] records[i].0, address),
        forall|i: int| at <= i < records.len() ==> lex_lt(address, #[trigger] records[i].0),
    ensures
        ascending(records.insert(at, (address, value))),
        contents_of(records.insert(at, (address, value))) == contents_of(records).insert(
            address,
            value,
        ),
{
    let after = records.insert(at, (address, value));
    assert(ascending(after)) by {
        assert forall|i: int, j: int| 0 <= i < j < after.len() implies lex_lt(
            after[i].0,
            after[j].0,
        ) by {
            if j < at {
                assert(after[i] == records[i] && after[j] == records[j]);
            } else if j == at {
                assert(after[i] == records[i]);
            } else if i < at {
                assert(after[i] == records[i] && after[j] == records[j - 1]);
                lemma_lex_lt_transitive(records[i].0, address, records[j - 1].0);
            } else if i == at {
                assert(after[j] == records[j - 1]);
            } else {
                assert(after[i] == records[i - 1] && after[j] == records[j - 1]);
            }
        }
    }
    let lhs = contents_of(after);
    let rhs = contents_of(records).insert(address, value);
    assert forall|k: Seq<u8>| lhs.contains_key(k) <==> rhs.contains_key(k) by {
        if lhs.contains_key(k) {
            let i = choose|i: int| 0 <= i < after.len() && #[trigger] after[i].0 == k;
            if i < at {
                assert(records[i].0 == k);
            } else if i > at {
                assert(records[i - 1].0 == k);
            }
        }
        if rhs.contains_key(k) {
            if k == address {
                assert(after[at].0 == k);
            } else {
                let i = choose|i: int| 0 <= i < records.len() && #[trigger] records[i].0 == k;
                if i < at {
                    assert(after[i].0 == k);
                } else {
                    assert(after[i + 1].0 == k);
                }
            }
        }
    }
    assert forall|k: Seq<u8>| lhs.contains_key(k) implies lhs[k] == rhs[k] by {
        let i = choose|i: int| 0 <= i < after.len() && #[trigger] after[i].0 == k;
        lemma_contents_at(after, i);
        if i < at {
            assert(after[i] == records[i]);
            lemma_contents_at(records, i);
            lemma_lex_lt_irreflexive(address);
        } else if i > at {
            assert(after[i] == records[i - 1]);
            lemma_contents_at(records, i - 1);
            lemma_lex_lt_irreflexive(address);
        }
    }
    assert(lhs =~= rhs);
}

proof fn lemma_update_record(records: Seq<(Seq<u8>, Seq<u8>)>, at: int, value: Seq<u8>)
    requires
        ascending(records),
        0 <= at < records.len(),
    ensures
        ascending(records.update(at, (records[at].0, value))),
        contents_of(records.update(at, (records[at].0, value))) == contents_of(records).insert(
            records[at].0,
            value,
        ),
{
    let address = records[at].0;
    let after = records.update(at, (address, value));
    assert(ascending(after)) by {
        assert forall|i: int, j: int| 0 <= i < j < after.len() implies lex_lt(
            after[i].0,
            after[j].0,
        ) by {
            assert(after[i].0 == records[i].0 && after[j].0 == records[j].0);
        }
    }
    let lhs = contents_of(after);
    let rhs = contents_of(records).insert(address, value);
    assert forall|k: Seq<u8>| lhs.contains_key(k) <==> rhs.contains_key(k) by {
        if lhs.contains_key(k) {
            let i = choose|i: int| 0 <= i < after.len() && #[trigger] after[i].0 == k;
            assert(records[i].0 == k);
        }
        if rhs.contains_key(k) {
            if k == address {
                assert(after[at].0 == k);
            } else {
                let i = choose|i: int| 0 <= i < records.len() && #[trigger] records[i].0 == k;
                assert(after[i].0 == k);
            }
        }
    }
    assert forall|k: Seq<u8>| lhs.contains_key(k) implies lhs[k] == rhs[k] by {
        let i = choose|i: int| 0 <= i < after.len() && #[trigger] after[i].0 == k;
        lemma_contents_at(after, i);
        if i != at {
            assert(after[i] == records[i]);
            lemma_contents_at(records, i);
            if k == address {
                lemma_ascending_distinct(records, i, at);
            }
        }
    }
    assert(lhs =~= rhs);
}

proof fn lemma_remove_record(records: Seq<(Seq<u8>, Seq<u8>)>, at: int)
    requires
        ascending(records),
        0 <= at < records.len(),
    ensures
        ascending(records.remove(at)),
        contents_of(records.remove(at)) == contents_of(records).remove(records[at].0),
{
    let address = records[at].0;
    let after = records.remove(at);
    assert(ascending(after)) by {
        assert forall|i: int, j: int| 0 <= i < j < after.len() implies lex_lt(
            after[i].0,
            after[j].0,
        ) by {
            let i0 = if i < at {
                i
            } else {
                i + 1
            };
            let j0 = if j < at {
                j
            } else {
                j + 1
            };
            assert(after[i] == records[i0] && after[j] == records[j0]);
        }
    }
    let lhs = contents_of(after);
    let rhs = contents_of(records).remove(address);
    assert forall|k: Seq<u8>| lhs.contains_key(k) <==> rhs.contains_key(k) by {
        if lhs.contains_key(k) {
            let i = choose|i: int| 0 <= i < after.len() && #[trigger] after[i].0 == k;
            let i0 = if i < at {
                i
            } else {
                i + 1
            };
            assert(records[i0].0 == k);
            if k == address {
                lemma_ascending_distinct(records, i0, at);
            }
        }
        if rhs.contains_key(k) {
            let i = choose|i: int| 0 <= i < records.len() && #[trigger] records[i].0 == k;
            if i < at {
                assert(after[i].0 == k);
            } else {
                assert(after[i - 1].0 == k);
            }
        }
    }
    assert forall|k: Seq<u8>| lhs.contains_key(k) implies lhs[k] == rhs[k] by {
        let i = choose|i: int| 0 <= i < after.len() && #[trigger] after[i].0 == k;
        let i0 = if i < at {
            i
        } else {
            i + 1
        };
        lemma_contents_at(after, i);
        assert(after[i] == records[i0]);
        lemma_contents_at(records, i0);
    }
    assert(lhs =~= rhs);
}

proof fn lemma_absent(records: Seq<(Seq<u8>, Seq<u8>)>, address: Seq<u8>)
    requires
        forall|i: int| 0 <= i < records.len() ==> #[trigger] records[i].0 != address,
    ensures
        !contents_of(records).contains_key(address),
        contents_of(records).remove(address) == contents_of(records),
{
    assert(contents_of(records).remove(address) =~= contents_of(records));
}

/// A store that keeps its records in memory, sorted by address.
pub struct MemoryBackend {
    entries: Vec<Record>,
}

impl MemoryBackend {
    #[verifier::type_invariant]
    spec fn sorted(&self) -> bool {
        ascending(record_views(self.entries@))
    }

    /// A store without records.
    pub fn new() -> (store: MemoryBackend)
        ensures
            store.contents() == Map::<Seq<u8>, Seq<u8>>::empty(),
    {
        let store = MemoryBackend { entries: Vec::new() };
        assert(store.contents() =~= Map::<Seq<u8>, Seq<u8>>::empty());
        store
    }

    /// The number of records in the store.
    pub fn len(&self) -> (count: usize)
        ensures
            count == self.contents().len(),
            self.contents().dom().finite(),
    {
        proof {
            use_type_invariant(self);
            lemma_contents_len(record_views(self.entries@));
        }
        self.entries.len()
    }

    /// The position of the first record whose address is not below
    /// `address`.
    fn position(&self, address: &[u8]) -> (at: usize)
        ensures
            at <= self.entries@.len(),
            forall|i: int|
                0 <= i < at ==> lex_lt(#[trigger] record_views(self.entries@)[i].0, address@),
            forall|i: int|
                at <= i < self.entries@.len() ==> !lex_lt(
                    #[trigger] record_views(self.entries@)[i].0,
                    address@,
                ),
    {
        proof {
            use_type_invariant(self);
        }
        let ghost records = record_views(self.entries@);
        let mut at: usize = 0;
        while at < self.entries.len() && bytes_lt(self.entries[at].0.as_slice(), address)
            invariant
                at <= self.entries@.len(),
                records == record_views(self.entries@),
                forall|i: int| 0 <= i < at ==> lex_lt(#[trigger] records[i].0, address@),
            decreases self.entries@.len() - at,
        {
            at += 1;
        }
        proof {
            assert forall|i: int| at <= i < self.entries@.len() implies !lex_lt(
                #[trigger] records[i].0,
                address@,
            ) by {
                if i > at && lex_lt(records[i].0, address@) {
                    assert(lex_lt(records[at as int].0, records[i].0));
                    lemma_lex_lt_transitive(records[at as int].0, records[i].0, address@);
                }
            }
        }
        at
    }
}

proof fn lemma_contents_len(records: Seq<(Seq<u8>, Seq<u8>)>)
    requires
        ascending(records),
    ensures
        contents_of(records).dom().finite(),
        contents_of(records).len() == records.len(),
    decreases records.len(),
{
    if records.len() == 0 {
        assert(contents_of(records) =~= Map::<Seq<u8>, Seq<u8>>::empty());
    } else {
        let at = records.len() - 1;
        let rest = records.remove(at);
        lemma_remove_record(records, at);
        lemma_contents_len(rest);
        lemma_contents_at(records, at);
        let whole = contents_of(records);
        assert(whole.dom() =~= contents_of(rest).dom().insert(records[at].0));
    }
}

impl Backend for MemoryBackend {
    closed spec fn contents(&self) -> Map<Seq<u8>, Seq<u8>> {
        contents_of(record_views(self.entries@))
    }

    fn get(&self, address: &[u8]) -> (out: Option<Vec<u8>>) {
        proof {
            use_type_invariant(self);
        }
        let ghost records = record_views(self.entries@);
        let mut i: usize = 0;
        while i < self.entries.len()
            invariant
                i <= self.entries@.len(),
                records == record_views(self.entries@),
                ascending(records),
                forall|j: int| 0 <= j < i ==> #[trigger] records[j].0 != address@,
            decreases self.entries@.len() - i,
        {
            if bytes_eq(self.entries[i].0.as_slice(), address) {
                proof {
                    lemma_contents_at(records, i as int);
                }
                return Some(slice_to_vec(self.entries[i].1.as_slice()));
            }
            i += 1;
        }
        proof {
            lemma_absent(records, address@);
        }
        None
    }

    fn put(&mut self, address: &[u8], value: &[u8]) {
        proof {
            use_type_invariant(&*self);
        }
        let ghost records = record_views(self.entries@);
        let at = self.position(address);
        let replace = at < self.entries.len() && bytes_eq(self.entries[at].0.as_slice(), address);
        let mut entries: Vec<Record> = Vec::new();
        core::mem::swap(&mut self.entries, &mut entries);
        if replace {
            proof {
                lemma_update_record(records, at as int, value@);
            }
            entries.remove(at);
            entries.insert(at, (slice_to_vec(address), slice_to_vec(value)));
            assert(record_views(entries@) =~= records.update(at as int, (address@, value@)));
        } else {
            proof {
                assert forall|i: int| at <= i < records.len() implies lex_lt(
                    address@,
                    #[trigger] records[i].0,
                ) by {
                    lemma_lex_lt_total(address@, records[at as int].0);
                    if i > at {
                        assert(lex_lt(records[at as int].0, records[i].0));
                        lemma_lex_lt_transitive(address@, records[at as int].0, records[i].0);
                    }
                }
                lemma_insert_record(records, at as int, address@, value@);
            }
            entries.insert(at, (slice_to_vec(address), slice_to_vec(value)));
            assert(record_views(entries@) =~= records.insert(at as int, (address@, value@)));
        }
        self.entries = entries;
    }

    fn remove(&mut self, address: &[u8]) {
        proof {
            use_type_invariant(&*self);
        }
        let ghost records = record_views(self.entries@);
        let at = self.position(address);
        if at < self.entries.len() && bytes_eq(self.entries[at].0.as_slice(), address) {
            proof {
                lemma_remove_record(records, at as int);
            }
            let mut entries: Vec<Record> = Vec::new();
            core::mem::swap(&mut self.entries, &mut entries);
            entries.remove(at);
            assert(record_views(entries@) =~= records.remove(at as int));
            self.entries = entries;
        } else {
            proof {
                assert forall|i: int| 0 <= i < records.len() implies #[trigger] records[i].0
                    != address@ by {
                    lemma_lex_lt_irreflexive(address@);
                    if i > at {
                        assert(lex_lt(records[at as int].0, records[i].0));
                    }
                }
                lemma_absent(records, address@);
            }
        }
    }

    fn scan_prefix(&self, prefix: &[u8]) -> (out: Vec<Record>) {
        proof {
            use_type_invariant(self);
        }
        let ghost records = record_views(self.entries@);
        let ghost mut source: Seq<int> = Seq::empty();
        let mut out: Vec<Record> = Vec::new();
        let mut i: usize = 0;
        while i < self.entries.len()
            invariant
                i <= self.entries@.len(),
                records == record_views(self.entries@),
                ascending(records),
                source.len() == out@.len(),
                forall|m: int|
                    0 <= m < source.len() ==> 0 <= #[trigger] source[m] < i && record_views(
                        out@,
                    )[m] == records[source[m]] && prefix@.is_prefix_of(records[source[m]].0),
                forall|m: int, n: int| 0 <= m < n < source.len() ==> source[m] < source[n],
                forall|j: int|
                    0 <= j < i && prefix@.is_prefix_of(#[trigger] records[j].0) ==> exists|m: int|
                        0 <= m < source.len() && #[trigger] source[m] == j,
            decreases self.entries@.len() - i,
        {
            if starts_with(self.entries[i].0.as_slice(), prefix) {
                let ghost before = record_views(out@);
                let ghost old_source = source;
                out.push(
                    (
                        slice_to_vec(self.entries[i].0.as_slice()),
                        slice_to_vec(self.entries[i].1.as_slice()),
                    ),
                );
                proof {
                    source = source.push(i as int);
                    assert(record_views(out@) =~= before.push(records[i as int]));
                    assert forall|j: int|
                        0 <= j < i + 1 && prefix@.is_prefix_of(
                            #[trigger] records[j].0,
                        ) implies exists|m: int|
                        0 <= m < source.len() && #[trigger] source[m] == j by {
                        if j < i {
                            let m = choose|m: int|
                                0 <= m < old_source.len() && #[trigger] old_source[m] == j;
                            assert(source[m] == j);
                        } else {
                            assert(source[source.len() - 1] == j);
                        }
                    }
                }
            }
            i += 1;
        }
        proof {
            let found = record_views(out@);
            assert(ascending(found)) by {
                assert forall|m: int, n: int| 0 <= m < n < found.len() implies lex_lt(
                    found[m].0,
                    found[n].0,
                ) by {
                    assert(source[m] < source[n]);
                }
            }
            assert forall|m: int| 0 <= m < found.len() implies {
                &&& prefix@.is_prefix_of(#[trigger] found[m].0)
                &&& self.contents().contains_key(found[m].0)
                &&& self.contents()[found[m].0] == found[m].1
            } by {
                lemma_contents_at(records, source[m]);
            }
            assert forall|address: Seq<u8>|
                #![trigger self.contents().contains_key(address)]
                self.contents().contains_key(address) && prefix@.is_prefix_of(
                    address,
                ) implies exists|m: int|
                0 <= m < found.len() && #[trigger] found[m].0 == address by {
                let j = choose|j: int| 0 <= j < records.len() && #[trigger] records[j].0 == address;
                let m = choose|m: int| 0 <= m < source.len() && #[trigger] source[m] == j;
                assert(found[m].0 == address);
            }
        }
        out
    }
}

} // verus!
