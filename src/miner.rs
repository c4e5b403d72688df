//! Reconciles a filtered scan of metadata accounts into the store.
use vstd::prelude::*;
use crate::decode::{decode_metadata, metadata_ok, metadata_of, DecodeError};
use crate::store::{
    conflicts, keys_unique, lemma_put_keeps_unique, put, store_wf, values_unique, Pair, Row, Store,
    StoreView,
};

verus! {

/// An account returned by the filtered scan: its address and its payload.
pub struct ScannedAccount {
    pub address: Vec<u8>,
    pub data: Vec<u8>,
}

impl View for ScannedAccount {
    type V = (Seq<u8>, Seq<u8>);

    open spec fn view(&self) -> (Seq<u8>, Seq<u8>) {
        (self.address@, self.data@)
    }
}

pub open spec fn accounts_view(accounts: Seq<ScannedAccount>) -> Seq<(Seq<u8>, Seq<u8>)> {
    accounts.map_values(|a: ScannedAccount| a@)
}

/// Every payload of the scan is a well-formed metadata account.
pub open spec fn scan_ok(accounts: Seq<(Seq<u8>, Seq<u8>)>) -> bool {
    forall|i: int| 0 <= i < accounts.len() ==> #[trigger] metadata_ok(accounts[i].1)
}

/// The metadata rows that a scan yields: each account's address and mint.
pub open spec fn scanned_rows(accounts: Seq<(Seq<u8>, Seq<u8>)>) -> Seq<Pair> {
    Seq::new(accounts.len(), |i: int| (accounts[i].0, metadata_of(accounts[i].1).mint))
}

/// Upserts the rows in order, each replacing rows with its key or its value.
pub open spec fn put_all(s: Set<Pair>, rows: Seq<Pair>) -> Set<Pair>
    decreases rows.len(),
{
    if rows.len() == 0 {
        s
    } else {
        put(put_all(s, rows.drop_last()), rows.last(), true)
    }
}

/// Links `creator` to the key of each row, in order.
pub open spec fn link_all(c: Set<Pair>, creator: Seq<u8>, rows: Seq<Pair>) -> Set<Pair>
    decreases rows.len(),
{
    if rows.len() == 0 {
        c
    } else {
        link_all(c, creator, rows.drop_last()).insert((creator, rows.last().0))
    }
}

/// The store after a scan for `creator` has been reconciled into it.
pub open spec fn mine_view(s: StoreView, creator: Seq<u8>, accounts: Seq<(Seq<u8>, Seq<u8>)>) -> StoreView {
    StoreView {
        metadata: put_all(s.metadata, scanned_rows(accounts)),
        creators: link_all(s.creators, creator, scanned_rows(accounts)),
        holders: s.holders,
    }
}

/// Decodes every scanned account, then upserts its metadata row and the link
/// from `creator` to it. A payload that does not decode fails the whole pass
/// and leaves the store unchanged.
pub fn mine_metadata(store: &mut Store, creator: &Vec<u8>, accounts: &Vec<ScannedAccount>) -> (r:
    Result<(), DecodeError>)
    requires
        store_wf(old(store)@),
    ensures
        store_wf(final(store)@),
        r is Ok <==> scan_ok(accounts_view(accounts@)),
        r is Ok ==> final(store)@ == mine_view(old(store)@, creator@, accounts_view(accounts@)),
        r is Err ==> final(store)@ == old(store)@,
{
    let ghost acc = accounts_view(accounts@);
    let mut rows: Vec<Row> = Vec::new();
    let mut i: usize = 0;
    while i < accounts.len()
        invariant
            i <= accounts@.len(),
            acc == accounts_view(accounts@),
            store_wf(store@),
            rows@.len() == i,
            forall|j: int| 0 <= j < i ==> #[trigger] metadata_ok(acc[j].1),
            forall|j: int| 0 <= j < i ==> #[trigger] rows@[j]@ == scanned_rows(acc)[j],
        decreases accounts@.len() - i,
    {
        match decode_metadata(accounts[i].data.as_slice()) {
            Ok(m) => {
                rows.push(Row { key: crate::layout::copy_bytes(&accounts[i].address), value: m.mint });
            },
            Err(e) => {
                assert(!metadata_ok(acc[i as int].1));
                return Err(e);
            },
        }
        i = i + 1;
    }
    let ghost s0 = store@;
    let mut k: usize = 0;
    while k < rows.len()
        invariant
            k <= rows@.len(),
            rows@.len() == acc.len(),
            forall|j: int| 0 <= j < rows@.len() ==> #[trigger] rows@[j]@ == scanned_rows(acc)[j],
            store_wf(store@),
            store@ == (StoreView {
                metadata: put_all(s0.metadata, scanned_rows(acc).take(k as int)),
                creators: link_all(s0.creators, creator@, scanned_rows(acc).take(k as int)),
                holders: s0.holders,
            }),
        decreases rows@.len() - k,
    {
        store.upsert_metadata(&rows[k].key, &rows[k].value);
        store.upsert_creator_link(creator, &rows[k].key);
        assert(scanned_rows(acc).take(k + 1).drop_last() =~= scanned_rows(acc).take(k as int));
        assert(scanned_rows(acc).take(k + 1).last() == rows@[k as int]@);
        k = k + 1;
    }
    assert(scanned_rows(acc).take(k as int) =~= scanned_rows(acc));
    Ok(())
}

/// The pairs of `s` that no row conflicts with.
pub open spec fn untouched(s: Set<Pair>, rows: Seq<Pair>) -> Set<Pair> {
    s.filter(|e: Pair| forall|i: int| 0 <= i < rows.len() ==> !conflicts(e, #[trigger] rows[i], true))
}

/// The links that a scan adds.
pub open spec fn links_of(creator: Seq<u8>, rows: Seq<Pair>) -> Set<Pair> {
    Set::new(|q: Pair| q.0 == creator && exists|i: int| 0 <= i < rows.len() && #[trigger] rows[i].0 == q.1)
}

proof fn lemma_put_all_split(s: Set<Pair>, rows: Seq<Pair>)
    ensures
        put_all(s, rows) == untouched(s, rows).union(put_all(Set::empty(), rows)),
    decreases rows.len(),
{
    if rows.len() == 0 {
        assert(untouched(s, rows).union(Set::empty()) =~= s);
    } else {
        let pre = rows.drop_last();
        let p = rows.last();
        lemma_put_all_split(s, pre);
        assert forall|e: Pair| untouched(s, rows).contains(e) <==> #[trigger] untouched(s, pre).contains(e)
            && !conflicts(e, p, true) by {
            if untouched(s, pre).contains(e) && !conflicts(e, p, true) {
                assert forall|i: int| 0 <= i < rows.len() implies !conflicts(e, #[trigger] rows[i], true) by {
                    if i < pre.len() {
                        assert(rows[i] == pre[i]);
                    }
                }
            }
            if untouched(s, rows).contains(e) {
                assert(!conflicts(e, rows[rows.len() - 1], true));
                assert forall|i: int| 0 <= i < pre.len() implies !conflicts(e, #[trigger] pre[i], true) by {
                    assert(rows[i] == pre[i]);
                }
            }
        }
        assert(put_all(s, rows) =~= untouched(s, rows).union(put_all(Set::empty(), rows)));
    }
}

proof fn lemma_put_all_from_rows(rows: Seq<Pair>, e: Pair)
    requires
        put_all(Set::empty(), rows).contains(e),
    ensures
        exists|i: int| 0 <= i < rows.len() && rows[i] == e,
    decreases rows.len(),
{
    if rows.len() > 0 {
        let pre = rows.drop_last();
        if e != rows.last() {
            lemma_put_all_from_rows(pre, e);
            let i = choose|i: int| 0 <= i < pre.len() && pre[i] == e;
            assert(rows[i] == e);
        }
    }
}

proof fn lemma_link_all_union(c: Set<Pair>, creator: Seq<u8>, rows: Seq<Pair>)
    ensures
        link_all(c, creator, rows) == c.union(links_of(creator, rows)),
    decreases rows.len(),
{
    if rows.len() > 0 {
        let pre = rows.drop_last();
        lemma_link_all_union(c, creator, pre);
        assert forall|q: Pair| #[trigger] links_of(creator, rows).contains(q) <==> links_of(creator, pre).contains(q)
            || q == (creator, rows.last().0) by {
            if links_of(creator, rows).contains(q) && q != (creator, rows.last().0) {
                let i = choose|i: int| 0 <= i < rows.len() && #[trigger] rows[i].0 == q.1;
                assert(pre[i].0 == q.1);
            }
            if links_of(creator, pre).contains(q) {
                let i = choose|i: int| 0 <= i < pre.len() && #[trigger] pre[i].0 == q.1;
                assert(rows[i].0 == q.1);
            }
            if q == (creator, rows.last().0) {
                assert(rows[rows.len() - 1].0 == q.1);
            }
        }
        assert(link_all(c, creator, rows) =~= c.union(links_of(creator, rows)));
    } else {
        assert(c.union(links_of(creator, rows)) =~= c);
    }
}

/// Reconciling the same scan a second time leaves the store as the first
/// pass left it.
pub proof fn lemma_mine_idempotent(s: StoreView, creator: Seq<u8>, accounts: Seq<(Seq<u8>, Seq<u8>)>)
    ensures
        mine_view(mine_view(s, creator, accounts), creator, accounts) == mine_view(s, creator, accounts),
{
    let rows = scanned_rows(accounts);
    let r = put_all(Set::empty(), rows);
    let once = put_all(s.metadata, rows);
    lemma_put_all_split(s.metadata, rows);
    lemma_put_all_split(once, rows);
    assert forall|e: Pair| #[trigger] r.contains(e) implies !untouched(once, rows).contains(e) by {
        lemma_put_all_from_rows(rows, e);
        let i = choose|i: int| 0 <= i < rows.len() && rows[i] == e;
        assert(conflicts(e, rows[i], true));
    }
    assert(untouched(once, rows) =~= untouched(s.metadata, rows));
    assert(put_all(once, rows) =~= once);
    lemma_link_all_union(s.creators, creator, rows);
    lemma_link_all_union(link_all(s.creators, creator, rows), creator, rows);
    assert(link_all(link_all(s.creators, creator, rows), creator, rows) =~= link_all(s.creators, creator, rows));
}

/// Reconciling a scan keeps metadata addresses and mint addresses unique.
pub proof fn lemma_mine_keeps_unique(s: StoreView, creator: Seq<u8>, accounts: Seq<(Seq<u8>, Seq<u8>)>)
    requires
        store_wf(s),
    ensures
        store_wf(mine_view(s, creator, accounts)),
{
    lemma_put_all_keeps_unique(s.metadata, scanned_rows(accounts));
}

proof fn lemma_put_all_keeps_unique(s: Set<Pair>, rows: Seq<Pair>)
    requires
        keys_unique(s),
        values_unique(s),
    ensures
        keys_unique(put_all(s, rows)),
        values_unique(put_all(s, rows)),
    decreases rows.len(),
{
    if rows.len() > 0 {
        lemma_put_all_keeps_unique(s, rows.drop_last());
        lemma_put_keeps_unique(put_all(s, rows.drop_last()), rows.last(), true);
    }
}

} // verus!
