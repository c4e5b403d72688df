//! Planning of the corrective update of a metadata record's creators.
use vstd::prelude::*;
use crate::decode::{
    creators_view, decode_metadata, metadata_ok, metadata_of, Creator, CreatorView, MetadataRecord,
    MetadataView,
};
use crate::layout::copy_bytes;

verus! {

/// Number of creators that a record awaiting remediation lists.
pub const EXPECTED_CREATOR_COUNT: usize = 4;

/// Share granted to the operator by the corrected creators list.
pub const OPERATOR_SHARE: u8 = 100;

/// The corrected data of a metadata record.
pub struct DataUpdate {
    pub name: Vec<u8>,
    pub symbol: Vec<u8>,
    pub uri: Vec<u8>,
    pub seller_fee_basis_points: u16,
    pub creators: Vec<Creator>,
}

/// Outcome of the checks that precede signing.
pub enum RemediationStep {
    /// The record could not be fetched.
    Failed,
    /// The record does not decode, or does not list the expected number of
    /// creators.
    Skipped,
    /// The record is to be updated with this data.
    Update(DataUpdate),
}

/// The record lists exactly the expected number of creators.
pub open spec fn needs_remediation(m: MetadataView) -> bool {
    m.creators is Some && m.creators->0.len() == EXPECTED_CREATOR_COUNT
}

/// The corrected creators: the first creator unchanged, then the operator,
/// verified, with the whole share.
pub open spec fn remediated_creators(m: MetadataView, operator: Seq<u8>) -> Seq<CreatorView> {
    seq![m.creators->0[0], CreatorView { address: operator, verified: true, share: OPERATOR_SHARE }]
}

/// `u` keeps the strings and fee of `m` and holds its corrected creators.
pub open spec fn is_update_of(u: DataUpdate, m: MetadataView, operator: Seq<u8>) -> bool {
    &&& u.name@ == m.name
    &&& u.symbol@ == m.symbol
    &&& u.uri@ == m.uri
    &&& u.seller_fee_basis_points == m.seller_fee_basis_points
    &&& creators_view(u.creators@) == remediated_creators(m, operator)
}

/// Builds the corrected data of `record`, granting `operator` the creators'
/// share, when the record lists the expected number of creators.
pub fn build_update(record: &MetadataRecord, operator: &Vec<u8>) -> (r: Option<DataUpdate>)
    ensures
        r is Some <==> needs_remediation(record@),
        r is Some ==> is_update_of(r->0, record@, operator@),
{
    match &record.creators {
        None => None,
        Some(cs) => {
            if cs.len() != EXPECTED_CREATOR_COUNT {
                return None;
            }
            let first = Creator {
                address: copy_bytes(&cs[0].address),
                verified: cs[0].verified,
                share: cs[0].share,
            };
            let operator_entry = Creator {
                address: copy_bytes(operator),
                verified: true,
                share: OPERATOR_SHARE,
            };
            let creators = vec![first, operator_entry];
            let u = DataUpdate {
                name: copy_bytes(&record.name),
                symbol: copy_bytes(&record.symbol),
                uri: copy_bytes(&record.uri),
                seller_fee_basis_points: record.seller_fee_basis_points,
                creators,
            };
            assert(creators_view(u.creators@) =~= remediated_creators(record@, operator@));
            Some(u)
        },
    }
}

/// The checks on one metadata record before signing: `fetched` is its payload,
/// or `None` when every fetch attempt failed.
pub fn plan_remediation(fetched: &Option<Vec<u8>>, operator: &Vec<u8>) -> (r: RemediationStep)
    ensures
        fetched is None ==> r is Failed,
        fetched is Some ==> {
            let b = fetched->0@;
            &&& r is Skipped <==> !(metadata_ok(b) && needs_remediation(metadata_of(b)))
            &&& r is Update ==> is_update_of(r->Update_0, metadata_of(b), operator@)
            &&& !(r is Failed)
        },
{
    match fetched {
        None => RemediationStep::Failed,
        Some(data) => match decode_metadata(data.as_slice()) {
            Err(_) => RemediationStep::Skipped,
            Ok(record) => match build_update(&record, operator) {
                None => RemediationStep::Skipped,
                Some(u) => RemediationStep::Update(u),
            },
        },
    }
}

/// Sum of the creators' shares.
pub open spec fn shares_total(cs: Seq<CreatorView>) -> int
    decreases cs.len(),
{
    if cs.len() == 0 {
        0
    } else {
        shares_total(cs.drop_last()) + cs.last().share
    }
}

/// Sum of the creators' shares.
pub fn total_share(cs: &Vec<Creator>) -> (r: u128)
    ensures
        r == shares_total(creators_view(cs@)),
{
    let mut total: u128 = 0;
    let mut i: usize = 0;
    while i < cs.len()
        invariant
            i <= cs@.len(),
            total == shares_total(creators_view(cs@).take(i as int)),
            total <= 255 * i,
            i <= usize::MAX,
        decreases cs@.len() - i,
    {
        assert(creators_view(cs@).take(i + 1).drop_last() =~= creators_view(cs@).take(i as int));
        total = total + cs[i].share as u128;
        i = i + 1;
    }
    assert(creators_view(cs@).take(i as int) =~= creators_view(cs@));
    total
}

/// The record's creators, when it lists any, have shares summing to 100.
pub open spec fn shares_valid(m: MetadataView) -> bool {
    m.creators is Some && m.creators->0.len() > 0 ==> shares_total(m.creators->0) == 100
}

/// Whether the record's creators, when it lists any, have shares summing to
/// 100.
pub fn creator_shares_valid(record: &MetadataRecord) -> (r: bool)
    ensures
        r == shares_valid(record@),
{
    match &record.creators {
        None => true,
        Some(cs) => cs.len() == 0 || total_share(cs) == 100,
    }
}

/// The corrected creators sum to 100 exactly when the first creator's share
/// is zero.
pub proof fn lemma_remediated_shares(m: MetadataView, operator: Seq<u8>)
    requires
        needs_remediation(m),
    ensures
        shares_total(remediated_creators(m, operator)) == m.creators->0[0].share + 100,
        shares_valid(MetadataView { creators: Some(remediated_creators(m, operator)), ..m })
            <==> m.creators->0[0].share == 0,
{
    let cs = remediated_creators(m, operator);
    assert(cs.drop_last().drop_last() =~= Seq::<CreatorView>::empty());
    assert(cs.drop_last().last() == m.creators->0[0]);
    assert(shares_total(cs.drop_last()) == shares_total(cs.drop_last().drop_last()) + m.creators->0[0].share);
    assert(shares_total(cs) == shares_total(cs.drop_last()) + 100);
}

} // verus!
