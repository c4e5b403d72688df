//! Resolution of the sole holder of each known mint.
use vstd::prelude::*;
use crate::store::{put, store_wf, Pair, Store, StoreView};
use crate::token::{decode_token_account, token_account_ok};

verus! {

/// The owner recorded in the last payload that decodes as a token account.
pub open spec fn last_owner(observed: Seq<Seq<u8>>) -> Option<Seq<u8>>
    decreases observed.len(),
{
    if observed.len() == 0 {
        None
    } else if token_account_ok(observed.last()) {
        Some(observed.last().subrange(32, 64))
    } else {
        last_owner(observed.drop_last())
    }
}

/// The store after the holder of `mint` has been resolved from `observed`.
pub open spec fn resolved_view(s: StoreView, mint: Seq<u8>, observed: Seq<Seq<u8>>) -> StoreView {
    match last_owner(observed) {
        Some(owner) => StoreView { holders: put(s.holders, (mint, owner), false), ..s },
        None => s,
    }
}

/// Commits the holder of `mint` from the payloads of its qualifying token
/// accounts, in the order they were listed: each one that decodes replaces the
/// holder row of `mint`, so the last one wins. A payload that does not decode
/// is skipped.
pub fn resolve_holder(store: &mut Store, mint: &Vec<u8>, observed: &Vec<Vec<u8>>)
    requires
        store_wf(old(store)@),
    ensures
        store_wf(final(store)@),
        final(store)@ == resolved_view(old(store)@, mint@, observed@.map_values(|v: Vec<u8>| v@)),
{
    let ghost obs = observed@.map_values(|v: Vec<u8>| v@);
    let ghost s0 = store@;
    let mut i: usize = 0;
    while i < observed.len()
        invariant
            i <= observed@.len(),
            obs == observed@.map_values(|v: Vec<u8>| v@),
            store_wf(store@),
            store@ == resolved_view(s0, mint@, obs.take(i as int)),
        decreases observed@.len() - i,
    {
        assert(obs.take(i + 1).drop_last() =~= obs.take(i as int));
        assert(obs.take(i + 1).last() == observed@[i as int]@);
        match decode_token_account(observed[i].as_slice()) {
            Ok(account) => {
                store.replace_holder(mint, &account.owner);
                proof {
                    let p: Pair = (mint@, account.owner@);
                    assert(put(put(s0.holders, (mint@, last_owner(obs.take(i as int))->0), false), p, false)
                        =~= put(s0.holders, p, false));
                }
            },
            Err(_) => {},
        }
        i = i + 1;
    }
    assert(obs.take(i as int) =~= obs);
}

} // verus!
