use collier::holders::resolve_holder;
use collier::retry::{FetchDecision, FetchRetry, MAX_FETCH_ATTEMPTS};
use collier::store::Store;
use collier::token::{decode_token_account, qualifying_accounts, RpcTokenAccounts};

fn token_account(owner: u8, amount: u64) -> Vec<u8> {
    let mut v = vec![3u8; 32];
    v.extend_from_slice(&[owner; 32]);
    v.extend_from_slice(&amount.to_le_bytes());
    v.extend_from_slice(&[0u8; 36]);
    v.push(1);
    v.extend_from_slice(&[0u8; 12]);
    v.extend_from_slice(&[0u8; 8]);
    v.extend_from_slice(&[0u8; 36]);
    v
}

fn listed(address: &str, amount: &str) -> RpcTokenAccounts {
    RpcTokenAccounts { address: address.to_string(), amount: amount.to_string(), decimals: 0 }
}

#[test]
fn decodes_token_account() {
    let data = token_account(5, 1);
    assert_eq!(data.len(), 165);
    let a = decode_token_account(&data).unwrap();
    assert_eq!(a.owner, vec![5u8; 32]);
    assert_eq!(a.amount, 1);
    assert!(decode_token_account(&data[..164]).is_err());
    let mut uninitialized = data.clone();
    uninitialized[108] = 0;
    assert!(decode_token_account(&uninitialized).is_err());
    let mut bad_tag = data.clone();
    bad_tag[72] = 2;
    assert!(decode_token_account(&bad_tag).is_err());
}

#[test]
fn selects_single_unit_accounts() {
    let accounts = vec![listed("a", "1"), listed("b", "0"), listed("c", "10"), listed("d", "1")];
    assert_eq!(qualifying_accounts(&accounts), vec!["a".to_string(), "d".to_string()]);
    assert!(qualifying_accounts(&vec![]).is_empty());
}

#[test]
fn single_holder_is_committed() {
    let mut store = Store::new();
    let mint = vec![7u8; 32];
    resolve_holder(&mut store, &mint, &vec![token_account(5, 1)]);
    assert_eq!(store.holder_rows().len(), 1);
    assert_eq!(store.holder_of(&mint), Some(vec![5u8; 32]));
    resolve_holder(&mut store, &mint, &vec![token_account(6, 1)]);
    assert_eq!(store.holder_rows().len(), 1);
    assert_eq!(store.holder_of(&mint), Some(vec![6u8; 32]));
}

#[test]
fn last_observed_holder_wins() {
    let mut store = Store::new();
    let mint = vec![7u8; 32];
    resolve_holder(&mut store, &mint, &vec![token_account(5, 1), token_account(6, 1), vec![1, 2]]);
    assert_eq!(store.holder_rows().len(), 1);
    assert_eq!(store.holder_of(&mint), Some(vec![6u8; 32]));
}

#[test]
fn no_qualifying_account_commits_nothing() {
    let mut store = Store::new();
    let mint = vec![7u8; 32];
    resolve_holder(&mut store, &mint, &vec![]);
    assert!(store.holder_rows().is_empty());
    assert_eq!(store.holder_of(&mint), None);
}

#[test]
fn always_failing_fetch_stops_after_five() {
    let mut retry = FetchRetry::new();
    let mut attempts = 0;
    loop {
        attempts += 1;
        if retry.record_failure() == FetchDecision::GiveUp {
            break;
        }
    }
    assert_eq!(attempts, 5);
    assert_eq!(retry.attempts_failed(), MAX_FETCH_ATTEMPTS);
}
