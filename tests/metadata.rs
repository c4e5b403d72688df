use collier::config::{default_db_path, default_rpc_url};
use collier::decode::{decode_metadata, metadata_uri, trim_trailing_nul_bytes, DecodeError};
use collier::layout::CREATOR_FILTER_OFFSET;
use collier::miner::{mine_metadata, ScannedAccount};
use collier::remediation::{
    build_update, creator_shares_valid, plan_remediation, total_share, RemediationStep,
};
use collier::store::Store;

fn padded(s: &str, cap: usize) -> Vec<u8> {
    let mut v = (cap as u32).to_le_bytes().to_vec();
    v.extend_from_slice(s.as_bytes());
    v.resize(4 + cap, 0);
    v
}

fn creator(fill: u8, verified: bool, share: u8) -> Vec<u8> {
    let mut v = vec![fill; 32];
    v.push(verified as u8);
    v.push(share);
    v
}

/// A metadata account with padded strings and the given creators.
fn payload(mint: u8, creators: &[(u8, u8)]) -> Vec<u8> {
    let mut v = vec![4u8];
    v.extend_from_slice(&[9u8; 32]);
    v.extend_from_slice(&[mint; 32]);
    v.extend_from_slice(&padded("Slatt", 32));
    v.extend_from_slice(&padded("SLT", 10));
    v.extend_from_slice(&padded("https://example.org/1.json", 200));
    v.extend_from_slice(&500u16.to_le_bytes());
    v.push(1);
    v.extend_from_slice(&(creators.len() as u32).to_le_bytes());
    for (fill, share) in creators {
        v.extend_from_slice(&creator(*fill, true, *share));
    }
    v.push(0);
    v.push(1);
    v.push(0);
    v
}

#[test]
fn filter_offset_matches_reference_payload() {
    assert_eq!(CREATOR_FILTER_OFFSET, 326);
    let p = payload(7, &[(0xAB, 100)]);
    assert_eq!(&p[CREATOR_FILTER_OFFSET..CREATOR_FILTER_OFFSET + 32], &[0xABu8; 32][..]);
    let m = decode_metadata(&p).unwrap();
    assert_eq!(m.creators.unwrap()[0].address, vec![0xABu8; 32]);
}

#[test]
fn decodes_fields() {
    let p = payload(7, &[(1, 40), (2, 60)]);
    let m = decode_metadata(&p).unwrap();
    assert_eq!(m.update_authority, vec![9u8; 32]);
    assert_eq!(m.mint, vec![7u8; 32]);
    assert_eq!(m.name.len(), 32);
    assert_eq!(&m.symbol[..3], b"SLT");
    assert_eq!(m.seller_fee_basis_points, 500);
    let cs = m.creators.unwrap();
    assert_eq!(cs.len(), 2);
    assert_eq!(cs[1].share, 60);
    assert!(cs[1].verified);
    assert!(!m.primary_sale_happened);
    assert!(m.is_mutable);
    assert_eq!(m.edition_nonce, None);
}

#[test]
fn decode_rejects_malformed() {
    let p = payload(7, &[(1, 100)]);
    let mut wrong_key = p.clone();
    wrong_key[0] = 6;
    assert_eq!(decode_metadata(&wrong_key).unwrap_err(), DecodeError::Malformed);
    assert!(decode_metadata(&p[..p.len() - 3]).is_err());
    assert!(decode_metadata(&p[..100]).is_err());
    assert!(decode_metadata(&[]).is_err());
    let mut bad_bool = p.clone();
    bad_bool[CREATOR_FILTER_OFFSET + 32] = 2;
    assert!(decode_metadata(&bad_bool).is_err());
    let mut bad_utf8 = p.clone();
    bad_utf8[69] = 0xFF;
    assert!(decode_metadata(&bad_utf8).is_err());
    let mut bad_tag = p.clone();
    bad_tag[CREATOR_FILTER_OFFSET - 5] = 3;
    assert!(decode_metadata(&bad_tag).is_err());
}

#[test]
fn decodes_without_creators() {
    let mut v = payload(7, &[]);
    let tag = CREATOR_FILTER_OFFSET - 5;
    v.truncate(tag);
    v.extend_from_slice(&[0, 1, 0, 1, 42]);
    let m = decode_metadata(&v).unwrap();
    assert!(m.creators.is_none());
    assert!(m.primary_sale_happened);
    assert!(!m.is_mutable);
    assert_eq!(m.edition_nonce, Some(42));
}

#[test]
fn uri_is_trimmed() {
    let p = payload(7, &[(1, 100)]);
    assert_eq!(metadata_uri(&p).unwrap(), b"https://example.org/1.json".to_vec());
    assert_eq!(trim_trailing_nul_bytes(&vec![0, 65, 0, 0]), vec![0, 65]);
    assert_eq!(trim_trailing_nul_bytes(&vec![0, 0]), Vec::<u8>::new());
}

fn account(addr: u8, mint: u8) -> ScannedAccount {
    ScannedAccount { address: vec![addr; 32], data: payload(mint, &[(0xAB, 100)]) }
}

#[test]
fn scan_ingest_scenario() {
    let mut store = Store::new();
    let creator = vec![0xABu8; 32];
    let scan = vec![account(1, 7)];
    mine_metadata(&mut store, &creator, &scan).unwrap();
    assert_eq!(store.metadata_rows().len(), 1);
    assert_eq!(store.creator_links().len(), 1);
    assert_eq!(store.mint_of(&vec![1u8; 32]), Some(vec![7u8; 32]));
    mine_metadata(&mut store, &creator, &scan).unwrap();
    assert_eq!(store.metadata_rows().len(), 1);
    assert_eq!(store.creator_links().len(), 1);
}

#[test]
fn mining_twice_is_idempotent() {
    let mut store = Store::new();
    let creator = vec![0xABu8; 32];
    let scan = vec![account(1, 7), account(2, 8), account(3, 7)];
    mine_metadata(&mut store, &creator, &scan).unwrap();
    let mut first: Vec<_> = store.metadata_rows().into_iter().map(|r| (r.key, r.value)).collect();
    mine_metadata(&mut store, &creator, &scan).unwrap();
    let mut second: Vec<_> = store.metadata_rows().into_iter().map(|r| (r.key, r.value)).collect();
    first.sort();
    second.sort();
    assert_eq!(first, second);
    assert_eq!(store.creator_links().len(), 3);
}

#[test]
fn mint_and_metadata_addresses_stay_unique() {
    let mut store = Store::new();
    let creator = vec![0xABu8; 32];
    mine_metadata(&mut store, &creator, &vec![account(1, 7), account(3, 7)]).unwrap();
    let rows = store.metadata_rows();
    assert_eq!(rows.len(), 1);
    assert_eq!(rows[0].key, vec![3u8; 32]);
    mine_metadata(&mut store, &creator, &vec![account(3, 9)]).unwrap();
    assert_eq!(store.metadata_rows().len(), 1);
    assert_eq!(store.mint_of(&vec![3u8; 32]), Some(vec![9u8; 32]));
    assert!(store.metadata_exists(&vec![3u8; 32]));
    assert!(!store.metadata_exists(&vec![1u8; 32]));
    assert!(store.metadata_exists_for_creator(&creator));
}

#[test]
fn decode_failure_fails_the_pass() {
    let mut store = Store::new();
    let creator = vec![0xABu8; 32];
    let bad = ScannedAccount { address: vec![5u8; 32], data: vec![4u8; 10] };
    assert!(mine_metadata(&mut store, &creator, &vec![account(1, 7), bad]).is_err());
    assert!(store.metadata_rows().is_empty());
    assert!(store.creator_links().is_empty());
}

#[test]
fn remediation_skips_wrong_cardinality() {
    let operator = vec![0xEEu8; 32];
    let two = payload(7, &[(1, 0), (2, 100)]);
    assert!(matches!(plan_remediation(&Some(two), &operator), RemediationStep::Skipped));
    assert!(matches!(plan_remediation(&Some(vec![1, 2, 3]), &operator), RemediationStep::Skipped));
    assert!(matches!(plan_remediation(&None, &operator), RemediationStep::Failed));
}

#[test]
fn remediation_builds_update() {
    let operator = vec![0xEEu8; 32];
    let four = payload(7, &[(1, 0), (2, 30), (3, 30), (4, 40)]);
    match plan_remediation(&Some(four.clone()), &operator) {
        RemediationStep::Update(u) => {
            assert_eq!(u.creators.len(), 2);
            assert_eq!(u.creators[0].address, vec![1u8; 32]);
            assert_eq!(u.creators[0].share, 0);
            assert_eq!(u.creators[1].address, operator);
            assert!(u.creators[1].verified);
            assert_eq!(u.creators[1].share, 100);
            assert_eq!(u.seller_fee_basis_points, 500);
            assert_eq!(u.uri.len(), 200);
            assert_eq!(total_share(&u.creators), 100);
        }
        _ => panic!("expected an update"),
    }
    let m = decode_metadata(&four).unwrap();
    assert!(build_update(&m, &operator).is_some());
}

#[test]
fn creator_shares_sum_to_hundred() {
    assert!(creator_shares_valid(&decode_metadata(&payload(7, &[(1, 40), (2, 60)])).unwrap()));
    assert!(!creator_shares_valid(&decode_metadata(&payload(7, &[(1, 40), (2, 50)])).unwrap()));
    assert!(creator_shares_valid(&decode_metadata(&payload(7, &[])).unwrap()));
}

#[test]
fn defaults() {
    assert_eq!(default_db_path(), "collier.db");
    assert_eq!(default_rpc_url(), "https://api.mainnet-beta.solana.com");
}
