//! The local store: metadata rows, creator links and holder rows.
use vstd::prelude::*;
use crate::layout::{bytes_eq, copy_bytes};

verus! {

/// A pair of addresses.
pub type Pair = (Seq<u8>, Seq<u8>);

/// One row of a two-column table.
#[derive(Clone, Debug)]
pub struct Row {
    pub key: Vec<u8>,
    pub value: Vec<u8>,
}

impl View for Row {
    type V = Pair;

    open spec fn view(&self) -> Pair {
        (self.key@, self.value@)
    }
}

pub open spec fn rows_set(rows: Seq<Row>) -> Set<Pair> {
    Set::new(|q: Pair| exists|j: int| 0 <= j < rows.len() && #[trigger] rows[j]@ == q)
}

/// Whether `e` shares its key with `p`, or also its value when `by_value`.
pub open spec fn conflicts(e: Pair, p: Pair, by_value: bool) -> bool {
    e.0 == p.0 || (by_value && e.1 == p.1)
}

/// Replaces every pair that conflicts with `p` by `p`.
pub open spec fn put(s: Set<Pair>, p: Pair, by_value: bool) -> Set<Pair> {
    s.filter(|e: Pair| !conflicts(e, p, by_value)).insert(p)
}

/// Some pair has key `k`.
pub open spec fn has_key(s: Set<Pair>, k: Seq<u8>) -> bool {
    exists|v: Seq<u8>| s.contains((k, v))
}

/// Some pair has value `v`.
pub open spec fn has_value(s: Set<Pair>, v: Seq<u8>) -> bool {
    exists|k: Seq<u8>| s.contains((k, v))
}

/// No two pairs share a key.
pub open spec fn keys_unique(s: Set<Pair>) -> bool {
    forall|a: Pair, b: Pair| s.contains(a) && s.contains(b) && a.0 == b.0 ==> a == b
}

/// No two pairs share a value.
pub open spec fn values_unique(s: Set<Pair>) -> bool {
    forall|a: Pair, b: Pair| s.contains(a) && s.contains(b) && a.1 == b.1 ==> a == b
}

proof fn lemma_rows_set_push(rows: Seq<Row>, r: Row)
    ensures
        rows_set(rows.push(r)) == rows_set(rows).insert(r@),
{
    let s = rows.push(r);
    assert forall|q: Pair| rows_set(s).contains(q) implies rows_set(rows).insert(r@).contains(q) by {
        let j = choose|j: int| 0 <= j < s.len() && #[trigger] s[j]@ == q;
        if j < rows.len() {
            assert(rows[j]@ == q);
        }
    }
    assert forall|q: Pair| rows_set(rows).insert(r@).contains(q) implies rows_set(s).contains(q) by {
        if q == r@ {
            assert(s[rows.len() as int]@ == q);
        } else {
            let j = choose|j: int| 0 <= j < rows.len() && #[trigger] rows[j]@ == q;
            assert(s[j]@ == q);
        }
    }
    assert(rows_set(s) =~= rows_set(rows).insert(r@));
}

/// A table of address pairs, seen as a set.
pub struct Table {
    rows: Vec<Row>,
}

impl View for Table {
    type V = Set<Pair>;

    closed spec fn view(&self) -> Set<Pair> {
        rows_set(self.rows@)
    }
}

impl Table {
    pub fn new() -> (t: Table)
        ensures
            t@ == Set::<Pair>::empty(),
    {
        let t = Table { rows: Vec::new() };
        assert(t@ =~= Set::<Pair>::empty());
        t
    }

    /// Whether the table holds the pair `(key, value)`.
    pub fn contains(&self, key: &Vec<u8>, value: &Vec<u8>) -> (r: bool)
        ensures
            r == self@.contains((key@, value@)),
    {
        let mut i: usize = 0;
        while i < self.rows.len()
            invariant
                i <= self.rows@.len(),
                forall|j: int| 0 <= j < i ==> #[trigger] self.rows@[j]@ != (key@, value@),
            decreases self.rows@.len() - i,
        {
            if bytes_eq(&self.rows[i].key, key) && bytes_eq(&self.rows[i].value, value) {
                assert(self.rows@[i as int]@ == (key@, value@));
                return true;
            }
            i = i + 1;
        }
        false
    }

    /// The value paired with `key`, when there is one.
    pub fn lookup(&self, key: &Vec<u8>) -> (r: Option<Vec<u8>>)
        ensures
            r is Some <==> exists|v: Seq<u8>| self@.contains((key@, v)),
            r is Some ==> self@.contains((key@, r->0@)),
    {
        let mut i: usize = 0;
        while i < self.rows.len()
            invariant
                i <= self.rows@.len(),
                forall|j: int| 0 <= j < i ==> #[trigger] self.rows@[j]@.0 != key@,
            decreases self.rows@.len() - i,
        {
            if bytes_eq(&self.rows[i].key, key) {
                let v = copy_bytes(&self.rows[i].value);
                assert(self.rows@[i as int]@ == (key@, v@));
                assert(self@.contains((key@, v@)));
                return Some(v);
            }
            i = i + 1;
        }
        assert forall|v: Seq<u8>| !self@.contains((key@, v)) by {
            if self@.contains((key@, v)) {
                let j = choose|j: int|
                    0 <= j < self.rows@.len() && #[trigger] self.rows@[j]@ == (key@, v);
                assert(self.rows@[j]@.0 == key@);
            }
        }
        None
    }

    /// Every row, in order.
    pub fn pairs(&self) -> (r: Vec<Row>)
        ensures
            forall|i: int| 0 <= i < r@.len() ==> self@.contains(#[trigger] r@[i]@),
            forall|q: Pair| #[trigger]
                self@.contains(q) ==> exists|i: int| 0 <= i < r@.len() && r@[i]@ == q,
    {
        let mut r: Vec<Row> = Vec::new();
        let mut i: usize = 0;
        while i < self.rows.len()
            invariant
                i <= self.rows@.len(),
                r@.len() == i,
                forall|j: int| 0 <= j < i ==> #[trigger] r@[j]@ == self.rows@[j]@,
            decreases self.rows@.len() - i,
        {
            r.push(Row { key: copy_bytes(&self.rows[i].key), value: copy_bytes(&self.rows[i].value) });
            i = i + 1;
        }
        assert forall|i: int| 0 <= i < r@.len() implies self@.contains(#[trigger] r@[i]@) by {
            assert(self.rows@[i]@ == r@[i]@);
        }
        assert forall|q: Pair| #[trigger] self@.contains(q) implies exists|i: int|
            0 <= i < r@.len() && r@[i]@ == q by {
            let j = choose|j: int| 0 <= j < self.rows@.len() && #[trigger] self.rows@[j]@ == q;
            assert(r@[j]@ == q);
        }
        r
    }

    /// Every value, in row order.
    pub fn values(&self) -> (r: Vec<Vec<u8>>)
        ensures
            forall|i: int| 0 <= i < r@.len() ==> has_value(self@, #[trigger] r@[i]@),
            forall|q: Pair| #[trigger]
                self@.contains(q) ==> exists|i: int| 0 <= i < r@.len() && r@[i]@ == q.1,
    {
        let mut r: Vec<Vec<u8>> = Vec::new();
        let mut i: usize = 0;
        while i < self.rows.len()
            invariant
                i <= self.rows@.len(),
                r@.len() == i,
                forall|j: int| 0 <= j < i ==> #[trigger] r@[j]@ == self.rows@[j]@.1,
            decreases self.rows@.len() - i,
        {
            r.push(copy_bytes(&self.rows[i].value));
            i = i + 1;
        }
        assert forall|i: int| 0 <= i < r@.len() implies has_value(self@, #[trigger] r@[i]@) by {
            assert(self.rows@[i]@ == (self.rows@[i]@.0, r@[i]@));
            assert(self@.contains((self.rows@[i]@.0, r@[i]@)));
        }
        assert forall|q: Pair| #[trigger] self@.contains(q) implies exists|i: int|
            0 <= i < r@.len() && r@[i]@ == q.1 by {
            let j = choose|j: int| 0 <= j < self.rows@.len() && #[trigger] self.rows@[j]@ == q;
            assert(r@[j]@ == q.1);
        }
        r
    }

    /// Every key, in row order.
    pub fn keys(&self) -> (r: Vec<Vec<u8>>)
        ensures
            forall|i: int| 0 <= i < r@.len() ==> has_key(self@, #[trigger] r@[i]@),
            forall|q: Pair| #[trigger]
                self@.contains(q) ==> exists|i: int| 0 <= i < r@.len() && r@[i]@ == q.0,
    {
        let mut r: Vec<Vec<u8>> = Vec::new();
        let mut i: usize = 0;
        while i < self.rows.len()
            invariant
                i <= self.rows@.len(),
                r@.len() == i,
                forall|j: int| 0 <= j < i ==> #[trigger] r@[j]@ == self.rows@[j]@.0,
            decreases self.rows@.len() - i,
        {
            r.push(copy_bytes(&self.rows[i].key));
            i = i + 1;
        }
        assert forall|i: int| 0 <= i < r@.len() implies has_key(self@, #[trigger] r@[i]@) by {
            assert(self.rows@[i]@ == (r@[i]@, self.rows@[i]@.1));
            assert(self@.contains((r@[i]@, self.rows@[i]@.1)));
        }
        assert forall|q: Pair| #[trigger] self@.contains(q) implies exists|i: int|
            0 <= i < r@.len() && r@[i]@ == q.0 by {
            let j = choose|j: int| 0 <= j < self.rows@.len() && #[trigger] self.rows@[j]@ == q;
            assert(r@[j]@ == q.0);
        }
        r
    }

    /// Replaces every pair that conflicts with `(key, value)` by that pair.
    pub fn put(&mut self, key: &Vec<u8>, value: &Vec<u8>, by_value: bool)
        ensures
            final(self)@ == put(old(self)@, (key@, value@), by_value),
    {
        let p: Ghost<Pair> = Ghost((key@, value@));
        let mut kept: Vec<Row> = Vec::new();
        let mut i: usize = 0;
        while i < self.rows.len()
            invariant
                i <= self.rows@.len(),
                rows_set(kept@) == rows_set(self.rows@.subrange(0, i as int)).filter(
                    |e: Pair| !conflicts(e, p@, by_value),
                ),
                p@ == (key@, value@),
            decreases self.rows@.len() - i,
        {
            let row = &self.rows[i];
            let same = bytes_eq(&row.key, key) || (by_value && bytes_eq(&row.value, value));
            proof {
                lemma_rows_set_push(self.rows@.subrange(0, i as int), self.rows@[i as int]);
                assert(self.rows@.subrange(0, i as int).push(self.rows@[i as int])
                    =~= self.rows@.subrange(0, i + 1));
            }
            let ghost pre = rows_set(self.rows@.subrange(0, i as int));
            assert(same == conflicts(row@, p@, by_value));
            if !same {
                let copy = Row { key: copy_bytes(&row.key), value: copy_bytes(&row.value) };
                proof {
                    lemma_rows_set_push(kept@, copy);
                    assert(pre.insert(row@).filter(|e: Pair| !conflicts(e, p@, by_value)) =~= pre.filter(
                        |e: Pair| !conflicts(e, p@, by_value),
                    ).insert(row@));
                }
                kept.push(copy);
            } else {
                assert(pre.insert(row@).filter(|e: Pair| !conflicts(e, p@, by_value)) =~= pre.filter(
                    |e: Pair| !conflicts(e, p@, by_value),
                ));
            }
            i = i + 1;
        }
        proof {
            assert(self.rows@.subrange(0, self.rows@.len() as int) =~= self.rows@);
        }
        let fresh = Row { key: copy_bytes(key), value: copy_bytes(value) };
        proof {
            lemma_rows_set_push(kept@, fresh);
        }
        kept.push(fresh);
        self.rows = kept;
    }

    /// Adds the pair `(key, value)` unless the table holds it.
    pub fn insert(&mut self, key: &Vec<u8>, value: &Vec<u8>)
        ensures
            final(self)@ == old(self)@.insert((key@, value@)),
    {
        if self.contains(key, value) {
            assert(self@.insert((key@, value@)) =~= self@);
        } else {
            let fresh = Row { key: copy_bytes(key), value: copy_bytes(value) };
            proof {
                lemma_rows_set_push(self.rows@, fresh);
            }
            self.rows.push(fresh);
        }
    }
}

/// Replacing by key keeps keys unique; replacing by key and value keeps keys
/// and values unique.
pub proof fn lemma_put_keeps_unique(s: Set<Pair>, p: Pair, by_value: bool)
    requires
        keys_unique(s),
        by_value ==> values_unique(s),
    ensures
        keys_unique(put(s, p, by_value)),
        by_value ==> values_unique(put(s, p, by_value)),
{
}

/// The three relations of the store: metadata address to mint address,
/// creator address to metadata address, mint address to holder address.
pub struct StoreView {
    pub metadata: Set<Pair>,
    pub creators: Set<Pair>,
    pub holders: Set<Pair>,
}

/// Metadata addresses and mint addresses are each unique; a mint has at most
/// one holder.
pub open spec fn store_wf(v: StoreView) -> bool {
    &&& keys_unique(v.metadata)
    &&& values_unique(v.metadata)
    &&& keys_unique(v.holders)
}

/// The local store.
pub struct Store {
    metadata: Table,
    creators: Table,
    holders: Table,
}

impl View for Store {
    type V = StoreView;

    closed spec fn view(&self) -> StoreView {
        StoreView { metadata: self.metadata@, creators: self.creators@, holders: self.holders@ }
    }
}

impl Store {
    pub fn new() -> (s: Store)
        ensures
            s@.metadata == Set::<Pair>::empty(),
            s@.creators == Set::<Pair>::empty(),
            s@.holders == Set::<Pair>::empty(),
            store_wf(s@),
    {
        Store { metadata: Table::new(), creators: Table::new(), holders: Table::new() }
    }

    /// Inserts the metadata row, replacing any row with the same metadata
    /// address or the same mint address.
    pub fn upsert_metadata(&mut self, metadata_address: &Vec<u8>, mint_address: &Vec<u8>)
        requires
            store_wf(old(self)@),
        ensures
            store_wf(final(self)@),
            final(self)@ == (StoreView {
                metadata: put(old(self)@.metadata, (metadata_address@, mint_address@), true),
                ..old(self)@
            }),
    {
        proof {
            lemma_put_keeps_unique(self@.metadata, (metadata_address@, mint_address@), true);
        }
        self.metadata.put(metadata_address, mint_address, true);
    }

    /// Records that `creator_address` is a creator of `metadata_address`,
    /// unless that link is already there.
    pub fn upsert_creator_link(&mut self, creator_address: &Vec<u8>, metadata_address: &Vec<u8>)
        requires
            store_wf(old(self)@),
        ensures
            store_wf(final(self)@),
            final(self)@ == (StoreView {
                creators: old(self)@.creators.insert((creator_address@, metadata_address@)),
                ..old(self)@
            }),
    {
        self.creators.insert(creator_address, metadata_address);
    }

    /// Makes `holder_address` the only holder of `mint_address`.
    pub fn replace_holder(&mut self, mint_address: &Vec<u8>, holder_address: &Vec<u8>)
        requires
            store_wf(old(self)@),
        ensures
            store_wf(final(self)@),
            final(self)@ == (StoreView {
                holders: put(old(self)@.holders, (mint_address@, holder_address@), false),
                ..old(self)@
            }),
    {
        proof {
            lemma_put_keeps_unique(self@.holders, (mint_address@, holder_address@), false);
        }
        self.holders.put(mint_address, holder_address, false);
    }

    /// Every metadata row: metadata address, then mint address.
    pub fn metadata_rows(&self) -> (r: Vec<Row>)
        ensures
            forall|i: int| 0 <= i < r@.len() ==> self@.metadata.contains(#[trigger] r@[i]@),
            forall|q: Pair| #[trigger]
                self@.metadata.contains(q) ==> exists|i: int| 0 <= i < r@.len() && r@[i]@ == q,
    {
        self.metadata.pairs()
    }

    /// Every creator link: creator address, then metadata address.
    pub fn creator_links(&self) -> (r: Vec<Row>)
        ensures
            forall|i: int| 0 <= i < r@.len() ==> self@.creators.contains(#[trigger] r@[i]@),
            forall|q: Pair| #[trigger]
                self@.creators.contains(q) ==> exists|i: int| 0 <= i < r@.len() && r@[i]@ == q,
    {
        self.creators.pairs()
    }

    /// Every holder row: mint address, then holder address.
    pub fn holder_rows(&self) -> (r: Vec<Row>)
        ensures
            forall|i: int| 0 <= i < r@.len() ==> self@.holders.contains(#[trigger] r@[i]@),
            forall|q: Pair| #[trigger]
                self@.holders.contains(q) ==> exists|i: int| 0 <= i < r@.len() && r@[i]@ == q,
    {
        self.holders.pairs()
    }

    /// The mint address of every metadata row.
    pub fn list_mint_addresses(&self) -> (r: Vec<Vec<u8>>)
        ensures
            forall|i: int| 0 <= i < r@.len() ==> has_value(self@.metadata, #[trigger] r@[i]@),
            forall|q: Pair| #[trigger]
                self@.metadata.contains(q) ==> exists|i: int| 0 <= i < r@.len() && r@[i]@ == q.1,
    {
        self.metadata.values()
    }

    /// The metadata address of every metadata row.
    pub fn list_metadata_addresses(&self) -> (r: Vec<Vec<u8>>)
        ensures
            forall|i: int| 0 <= i < r@.len() ==> has_key(self@.metadata, #[trigger] r@[i]@),
            forall|q: Pair| #[trigger]
                self@.metadata.contains(q) ==> exists|i: int| 0 <= i < r@.len() && r@[i]@ == q.0,
    {
        self.metadata.keys()
    }

    /// Whether a metadata row has this metadata address.
    pub fn metadata_exists(&self, metadata_address: &Vec<u8>) -> (r: bool)
        ensures
            r == has_key(self@.metadata, metadata_address@),
    {
        self.metadata.lookup(metadata_address).is_some()
    }

    /// Whether some metadata address is linked to this creator.
    pub fn metadata_exists_for_creator(&self, creator_address: &Vec<u8>) -> (r: bool)
        ensures
            r == has_key(self@.creators, creator_address@),
    {
        self.creators.lookup(creator_address).is_some()
    }

    /// The mint address of the metadata row with this metadata address.
    pub fn mint_of(&self, metadata_address: &Vec<u8>) -> (r: Option<Vec<u8>>)
        ensures
            r is Some <==> has_key(self@.metadata, metadata_address@),
            r is Some ==> self@.metadata.contains((metadata_address@, r->0@)),
    {
        self.metadata.lookup(metadata_address)
    }

    /// The holder recorded for this mint.
    pub fn holder_of(&self, mint_address: &Vec<u8>) -> (r: Option<Vec<u8>>)
        ensures
            r is Some <==> has_key(self@.holders, mint_address@),
            r is Some ==> self@.holders.contains((mint_address@, r->0@)),
    {
        self.holders.lookup(mint_address)
    }
}

} // verus!
