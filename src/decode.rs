//! Decoding of metadata accounts.
use vstd::prelude::*;
use vstd::utf8::valid_utf8;
use crate::layout::{
    CREATOR_FILTER_OFFSET, MAX_NAME_LENGTH, MAX_SYMBOL_LENGTH, MAX_URI_LENGTH, copy_range, read_u16, read_u32, u16_le, u32_le, CREATOR_LEN, METADATA_KEY, PUBKEY_LEN,
};

verus! {

/// A creator of a metadata record as it is encoded.
#[derive(Clone, Debug)]
pub struct Creator {
    pub address: Vec<u8>,
    pub verified: bool,
    /// Percentage of royalties.
    pub share: u8,
}

pub struct CreatorView {
    pub address: Seq<u8>,
    pub verified: bool,
    pub share: u8,
}

impl View for Creator {
    type V = CreatorView;

    open spec fn view(&self) -> CreatorView {
        CreatorView { address: self.address@, verified: self.verified, share: self.share }
    }
}

pub open spec fn creators_view(cs: Seq<Creator>) -> Seq<CreatorView> {
    cs.map_values(|c: Creator| c@)
}

/// A decoded metadata account. String fields hold their raw bytes, padding
/// included.
#[derive(Clone, Debug)]
pub struct MetadataRecord {
    pub update_authority: Vec<u8>,
    pub mint: Vec<u8>,
    pub name: Vec<u8>,
    pub symbol: Vec<u8>,
    pub uri: Vec<u8>,
    pub seller_fee_basis_points: u16,
    pub creators: Option<Vec<Creator>>,
    pub primary_sale_happened: bool,
    pub is_mutable: bool,
    pub edition_nonce: Option<u8>,
}

pub struct MetadataView {
    pub update_authority: Seq<u8>,
    pub mint: Seq<u8>,
    pub name: Seq<u8>,
    pub symbol: Seq<u8>,
    pub uri: Seq<u8>,
    pub seller_fee_basis_points: u16,
    pub creators: Option<Seq<CreatorView>>,
    pub primary_sale_happened: bool,
    pub is_mutable: bool,
    pub edition_nonce: Option<u8>,
}

impl View for MetadataRecord {
    type V = MetadataView;

    open spec fn view(&self) -> MetadataView {
        MetadataView {
            update_authority: self.update_authority@,
            mint: self.mint@,
            name: self.name@,
            symbol: self.symbol@,
            uri: self.uri@,
            seller_fee_basis_points: self.seller_fee_basis_points,
            creators: match self.creators {
                Some(cs) => Some(creators_view(cs@)),
                None => None,
            },
            primary_sale_happened: self.primary_sale_happened,
            is_mutable: self.is_mutable,
            edition_nonce: self.edition_nonce,
        }
    }
}

/// The payload does not follow the metadata layout.
#[derive(Clone, Copy, Debug, PartialEq, Eq, Structural)]
pub enum DecodeError {
    Malformed,
}

pub open spec fn is_bool_byte(x: u8) -> bool {
    x == 0 || x == 1
}

/// End of the length-prefixed string at `p`.
pub open spec fn str_end(b: Seq<u8>, p: int) -> int {
    p + 4 + u32_le(b, p)
}

/// A length-prefixed UTF-8 string starts at `p`.
pub open spec fn str_ok(b: Seq<u8>, p: int) -> bool {
    &&& 0 <= p
    &&& p + 4 <= b.len()
    &&& str_end(b, p) <= b.len()
    &&& valid_utf8(b.subrange(p + 4, str_end(b, p)))
}

pub open spec fn str_at(b: Seq<u8>, p: int) -> Seq<u8> {
    b.subrange(p + 4, str_end(b, p))
}

/// `n` encoded creators start at `p`.
pub open spec fn creators_ok(b: Seq<u8>, p: int, n: int) -> bool {
    &&& 0 <= p
    &&& p + 34 * n <= b.len()
    &&& forall|k: int| 0 <= k < n ==> #[trigger] is_bool_byte(b[p + 34 * k + 32])
}

pub open spec fn creator_at(b: Seq<u8>, p: int) -> CreatorView {
    CreatorView { address: b.subrange(p, p + 32), verified: b[p + 32] == 1, share: b[p + 33] }
}

pub open spec fn creators_at(b: Seq<u8>, p: int, n: int) -> Seq<CreatorView> {
    Seq::new(n as nat, |k: int| creator_at(b, p + 34 * k))
}

/// Position of the name field.
pub open spec fn name_pos() -> int {
    65
}

pub open spec fn symbol_pos(b: Seq<u8>) -> int {
    str_end(b, name_pos())
}

pub open spec fn uri_pos(b: Seq<u8>) -> int {
    str_end(b, symbol_pos(b))
}

pub open spec fn fee_pos(b: Seq<u8>) -> int {
    str_end(b, uri_pos(b))
}

/// Position of the presence flag of the creators list.
pub open spec fn creators_tag_pos(b: Seq<u8>) -> int {
    fee_pos(b) + 2
}

pub open spec fn creators_count(b: Seq<u8>) -> int {
    u32_le(b, creators_tag_pos(b) + 1)
}

/// Position of the fields after the creators list.
pub open spec fn tail_pos(b: Seq<u8>) -> int {
    if b[creators_tag_pos(b)] == 0 {
        creators_tag_pos(b) + 1
    } else {
        creators_tag_pos(b) + 5 + 34 * creators_count(b)
    }
}

/// The bytes begin with a well-formed metadata account.
pub open spec fn metadata_ok(b: Seq<u8>) -> bool {
    &&& b.len() >= name_pos()
    &&& b[0] == METADATA_KEY
    &&& str_ok(b, name_pos())
    &&& str_ok(b, symbol_pos(b))
    &&& str_ok(b, uri_pos(b))
    &&& creators_tag_pos(b) + 1 <= b.len()
    &&& (b[creators_tag_pos(b)] == 0 || (b[creators_tag_pos(b)] == 1 && creators_tag_pos(b) + 5
        <= b.len() && creators_ok(b, creators_tag_pos(b) + 5, creators_count(b))))
    &&& tail_pos(b) + 3 <= b.len()
    &&& is_bool_byte(b[tail_pos(b)])
    &&& is_bool_byte(b[tail_pos(b) + 1])
    &&& (b[tail_pos(b) + 2] == 0 || (b[tail_pos(b) + 2] == 1 && tail_pos(b) + 4 <= b.len()))
}

/// The metadata that well-formed bytes encode.
pub open spec fn metadata_of(b: Seq<u8>) -> MetadataView {
    let t = tail_pos(b);
    MetadataView {
        update_authority: b.subrange(1, 33),
        mint: b.subrange(33, 65),
        name: str_at(b, name_pos()),
        symbol: str_at(b, symbol_pos(b)),
        uri: str_at(b, uri_pos(b)),
        seller_fee_basis_points: u16_le(b, fee_pos(b)) as u16,
        creators: if b[creators_tag_pos(b)] == 0 {
            None
        } else {
            Some(creators_at(b, creators_tag_pos(b) + 5, creators_count(b)))
        },
        primary_sale_happened: b[t] == 1,
        is_mutable: b[t + 1] == 1,
        edition_nonce: if b[t + 2] == 0 {
            None
        } else {
            Some(b[t + 3])
        },
    }
}

/// Relies on std::str::from_utf8, which succeeds exactly on valid UTF-8.
#[verifier::external_body]
fn is_utf8(b: &[u8]) -> (r: bool)
    ensures
        r == valid_utf8(b@),
{
    std::str::from_utf8(b).is_ok()
}

/// Reads the length-prefixed UTF-8 string at `p`; returns its bytes and the
/// position after it.
pub fn read_string(data: &[u8], p: usize) -> (r: Option<(Vec<u8>, usize)>)
    requires
        p <= data@.len(),
    ensures
        r is Some <==> str_ok(data@, p as int),
        r is Some ==> (r->0).0@ == str_at(data@, p as int) && (r->0).1 == str_end(data@, p as int),
{
    if data.len() - p < 4 {
        return None;
    }
    let n = read_u32(data, p) as usize;
    if data.len() - p - 4 < n {
        return None;
    }
    let end = p + 4 + n;
    let s = copy_range(data, p + 4, end);
    if !is_utf8(s.as_slice()) {
        return None;
    }
    Some((s, end))
}

/// Reads `n` encoded creators starting at `p`; returns them and the position
/// after them.
pub fn read_creators(data: &[u8], p: usize, n: u32) -> (r: Option<(Vec<Creator>, usize)>)
    requires
        p <= data@.len(),
    ensures
        r is Some <==> creators_ok(data@, p as int, n as int),
        r is Some ==> creators_view((r->0).0@) == creators_at(data@, p as int, n as int) && (r->0).1
            == p + 34 * n,
{
    if ((data.len() - p) as u64) < (n as u64) * (CREATOR_LEN as u64) {
        return None;
    }
    let len = data.len();
    let mut cs: Vec<Creator> = Vec::new();
    let mut k: u32 = 0;
    let mut q: usize = p;
    while k < n
        invariant
            k <= n,
            len == data@.len(),
            p <= data@.len(),
            p + 34 * n <= data@.len(),
            q == p + 34 * k,
            cs@.len() == k,
            forall|j: int| 0 <= j < k ==> is_bool_byte(#[trigger] data@[p + 34 * j + 32]),
            forall|j: int| 0 <= j < k ==> #[trigger] cs@[j]@ == creator_at(data@, p + 34 * j),
        decreases n - k,
    {
        assert(q + 34 <= data@.len()) by (nonlinear_arith)
            requires
                q == p + 34 * k,
                k < n,
                p + 34 * n <= data@.len(),
        ;
        let flag = data[q + PUBKEY_LEN];
        if flag != 0 && flag != 1 {
            assert(!is_bool_byte(data@[p + 34 * (k as int) + 32]));
            return None;
        }
        let address = copy_range(data, q, q + PUBKEY_LEN);
        let c = Creator { address, verified: flag == 1, share: data[q + PUBKEY_LEN + 1] };
        cs.push(c);
        k = k + 1;
        q = q + CREATOR_LEN;
    }
    assert(creators_view(cs@) =~= creators_at(data@, p as int, n as int));
    Some((cs, q))
}

/// Decodes a metadata account.
pub fn decode_metadata(data: &[u8]) -> (r: Result<MetadataRecord, DecodeError>)
    ensures
        r is Ok <==> metadata_ok(data@),
        r is Ok ==> r->Ok_0@ == metadata_of(data@),
{
    let b = Ghost(data@);
    if data.len() < 65 || data[0] != METADATA_KEY {
        return Err(DecodeError::Malformed);
    }
    let update_authority = copy_range(data, 1, 33);
    let mint = copy_range(data, 33, 65);
    let (name, p) = match read_string(data, 65) {
        Some(x) => x,
        None => return Err(DecodeError::Malformed),
    };
    let (symbol, p) = match read_string(data, p) {
        Some(x) => x,
        None => return Err(DecodeError::Malformed),
    };
    let (uri, p) = match read_string(data, p) {
        Some(x) => x,
        None => return Err(DecodeError::Malformed),
    };
    assert(p == fee_pos(b@));
    if data.len() - p < 3 {
        return Err(DecodeError::Malformed);
    }
    let fee = read_u16(data, p);
    let tag = data[p + 2];
    let (creators, t) = if tag == 0 {
        (None, p + 3)
    } else if tag == 1 {
        if data.len() - p - 3 < 4 {
            return Err(DecodeError::Malformed);
        }
        let n = read_u32(data, p + 3);
        match read_creators(data, p + 7, n) {
            Some((cs, q)) => (Some(cs), q),
            None => return Err(DecodeError::Malformed),
        }
    } else {
        return Err(DecodeError::Malformed);
    };
    assert(t == tail_pos(b@));
    if data.len() - t < 3 {
        return Err(DecodeError::Malformed);
    }
    let sale = data[t];
    let mutable = data[t + 1];
    let nonce_tag = data[t + 2];
    if (sale != 0 && sale != 1) || (mutable != 0 && mutable != 1) {
        return Err(DecodeError::Malformed);
    }
    let edition_nonce = if nonce_tag == 0 {
        None
    } else if nonce_tag == 1 && data.len() - t >= 4 {
        Some(data[t + 3])
    } else {
        return Err(DecodeError::Malformed);
    };
    let record = MetadataRecord {
        update_authority,
        mint,
        name,
        symbol,
        uri,
        seller_fee_basis_points: fee,
        creators,
        primary_sale_happened: sale == 1,
        is_mutable: mutable == 1,
        edition_nonce,
    };
    assert(record@.creators == metadata_of(b@).creators);
    Ok(record)
}

/// In a well-formed metadata account whose name, symbol and uri fill their
/// capacities and which lists at least one creator, the first creator's
/// address stands at `CREATOR_FILTER_OFFSET`.
pub proof fn lemma_creator_filter_offset(b: Seq<u8>)
    requires
        metadata_ok(b),
        metadata_of(b).name.len() == MAX_NAME_LENGTH,
        metadata_of(b).symbol.len() == MAX_SYMBOL_LENGTH,
        metadata_of(b).uri.len() == MAX_URI_LENGTH,
        metadata_of(b).creators is Some,
        metadata_of(b).creators->0.len() > 0,
    ensures
        b.subrange(CREATOR_FILTER_OFFSET as int, CREATOR_FILTER_OFFSET + PUBKEY_LEN)
            == metadata_of(b).creators->0[0].address,
{
    assert(creators_tag_pos(b) + 5 == CREATOR_FILTER_OFFSET);
}

/// `s` without its trailing NUL padding.
pub open spec fn trim_trailing_nul(s: Seq<u8>) -> Seq<u8>
    decreases s.len(),
{
    if s.len() > 0 && s.last() == 0 {
        trim_trailing_nul(s.drop_last())
    } else {
        s
    }
}

/// `s` without its trailing NUL padding.
pub fn trim_trailing_nul_bytes(s: &Vec<u8>) -> (r: Vec<u8>)
    ensures
        r@ == trim_trailing_nul(s@),
{
    let mut n: usize = s.len();
    assert(s@.take(n as int) =~= s@);
    while n > 0 && s[n - 1] == 0
        invariant
            n <= s@.len(),
            trim_trailing_nul(s@.take(n as int)) == trim_trailing_nul(s@),
        decreases n,
    {
        assert(s@.take(n as int).drop_last() =~= s@.take(n - 1));
        n = n - 1;
    }
    assert(s@.subrange(0, n as int) =~= s@.take(n as int));
    copy_range(s.as_slice(), 0, n)
}

/// The uri of a metadata account, without its trailing NUL padding.
pub fn metadata_uri(data: &[u8]) -> (r: Result<Vec<u8>, DecodeError>)
    ensures
        r is Ok <==> metadata_ok(data@),
        r is Ok ==> r->Ok_0@ == trim_trailing_nul(metadata_of(data@).uri),
{
    match decode_metadata(data) {
        Ok(record) => Ok(trim_trailing_nul_bytes(&record.uri)),
        Err(e) => Err(e),
    }
}

} // verus!
