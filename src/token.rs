//! Token accounts: decoding and the largest-balance listing of a mint.
use vstd::prelude::*;
use spl_token::solana_program::program_pack::Pack;
use crate::decode::DecodeError;
use crate::layout::u64_le;

verus! {

/// The fields of a token account that holder resolution reads.
pub struct TokenAccount {
    pub owner: Vec<u8>,
    pub amount: u64,
}

/// The four tag bytes of an optional field at `p` are `[0, 0, 0, 0]` or
/// `[1, 0, 0, 0]`.
pub open spec fn option_tag_ok(b: Seq<u8>, p: int) -> bool {
    (b[p] == 0 || b[p] == 1) && b[p + 1] == 0 && b[p + 2] == 0 && b[p + 3] == 0
}

/// The bytes are an initialized or frozen token account: 165 bytes, valid tags
/// for the delegate, native amount and close authority, and a state byte of
/// 1 or 2.
pub open spec fn token_account_ok(b: Seq<u8>) -> bool {
    &&& b.len() == 165
    &&& option_tag_ok(b, 72)
    &&& (b[108] == 1 || b[108] == 2)
    &&& option_tag_ok(b, 109)
    &&& option_tag_ok(b, 129)
}

/// Relies on spl_token's `Account::unpack`: it accepts exactly 165 bytes whose
/// optional-field tags are `[0, 0, 0, 0]` or `[1, 0, 0, 0]` and whose state
/// byte is initialized or frozen; the owner is bytes 32..64 and the amount
/// the little-endian integer at 64..72.
#[verifier::external_body]
fn unpack_token_account(data: &[u8]) -> (r: Option<TokenAccount>)
    ensures
        r is Some <==> token_account_ok(data@),
        r is Some ==> r->0.owner@ == data@.subrange(32, 64) && r->0.amount == u64_le(data@, 64),
{
    match spl_token::state::Account::unpack(data) {
        Ok(a) => Some(TokenAccount { owner: a.owner.to_bytes().to_vec(), amount: a.amount }),
        Err(_) => None,
    }
}

/// Decodes a token account.
pub fn decode_token_account(data: &[u8]) -> (r: Result<TokenAccount, DecodeError>)
    ensures
        r is Ok <==> token_account_ok(data@),
        r is Ok ==> r->Ok_0.owner@ == data@.subrange(32, 64) && r->Ok_0.amount == u64_le(data@, 64),
{
    match unpack_token_account(data) {
        Some(a) => Ok(a),
        None => Err(DecodeError::Malformed),
    }
}

/// One entry of the largest-balance listing of a mint; the amount is a
/// decimal string.
pub struct RpcTokenAccounts {
    pub address: String,
    pub amount: String,
    pub decimals: u8,
}

/// Addresses of the entries whose amount is exactly one unit, in order.
pub open spec fn qualifying(accounts: Seq<RpcTokenAccounts>) -> Seq<Seq<char>>
    decreases accounts.len(),
{
    if accounts.len() == 0 {
        Seq::empty()
    } else {
        let pre = qualifying(accounts.drop_last());
        if accounts.last().amount@ == "1"@ {
            pre.push(accounts.last().address@)
        } else {
            pre
        }
    }
}

/// The addresses of the listed accounts that hold exactly one unit, in the
/// order of the listing.
pub fn qualifying_accounts(accounts: &Vec<RpcTokenAccounts>) -> (r: Vec<String>)
    ensures
        r@.map_values(|s: String| s@) == qualifying(accounts@),
{
    let one = "1".to_owned();
    let mut r: Vec<String> = Vec::new();
    let mut i: usize = 0;
    while i < accounts.len()
        invariant
            i <= accounts@.len(),
            one@ == "1"@,
            r@.map_values(|s: String| s@) == qualifying(accounts@.take(i as int)),
        decreases accounts@.len() - i,
    {
        assert(accounts@.take(i + 1).drop_last() =~= accounts@.take(i as int));
        if accounts[i].amount == one {
            r.push(accounts[i].address.clone());
            assert(r@.map_values(|s: String| s@) =~= qualifying(accounts@.take(i + 1)));
        } else {
            assert(r@.map_values(|s: String| s@) =~= qualifying(accounts@.take(i + 1)));
        }
        i = i + 1;
    }
    assert(accounts@.take(i as int) =~= accounts@);
    r
}

} // verus!
