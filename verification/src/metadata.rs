use vstd::prelude::*;
use crate::address::Address;

verus! {

/// Reserved width, in bytes, of the stored name field.
pub const MAX_NAME_BYTES: usize = 32;

/// Reserved width, in bytes, of the stored symbol field.
pub const MAX_SYMBOL_BYTES: usize = 10;

/// Reserved width, in bytes, of the stored URI field.
pub const MAX_URI_BYTES: usize = 200;

/// Largest admissible seller fee, in basis points.
pub const MAX_FEE_BASIS_POINTS: u16 = 10000;

/// Largest admissible creator share, in percent.
pub const MAX_CREATOR_SHARE: u8 = 100;

/// A creator attribution carried by the metadata.
#[derive(Clone, Copy, Debug)]
pub struct Creator {
    pub address: Address,
    pub verified: bool,
    pub share: u8,
}

/// The descriptive input handed to `issue`.  The three byte strings are
/// bounded by the widths reserved in the stored record.
#[derive(Debug)]
pub struct NftMetadata {
    pub name: Vec<u8>,
    pub symbol: Vec<u8>,
    pub uri: Vec<u8>,
    pub seller_fee_basis_points: u16,
    pub creators: Creator,
}

/// The record persisted for one issued token: the validated input plus
/// the mint it describes.
#[derive(Debug)]
pub struct TokenMetadata {
    pub mint: Address,
    pub name: Vec<u8>,
    pub symbol: Vec<u8>,
    pub uri: Vec<u8>,
    pub seller_fee_basis_points: u16,
    pub creator_address: Address,
    pub creator_verified: bool,
    pub creator_share: u8,
}

/// The mathematical content of a stored record.
pub struct RecordView {
    pub mint: Seq<u8>,
    pub name: Seq<u8>,
    pub symbol: Seq<u8>,
    pub uri: Seq<u8>,
    pub seller_fee_basis_points: u16,
    pub creator_address: Seq<u8>,
    pub creator_verified: bool,
    pub creator_share: u8,
}

impl View for TokenMetadata {
    type V = RecordView;

    open spec fn view(&self) -> RecordView {
        RecordView {
            mint: self.mint@,
            name: self.name@,
            symbol: self.symbol@,
            uri: self.uri@,
            seller_fee_basis_points: self.seller_fee_basis_points,
            creator_address: self.creator_address@,
            creator_verified: self.creator_verified,
            creator_share: self.creator_share,
        }
    }
}

/// Every field of the input lies within its reserved bound.
pub open spec fn spec_valid_metadata(m: &NftMetadata) -> bool {
    &&& m.name@.len() <= MAX_NAME_BYTES
    &&& m.symbol@.len() <= MAX_SYMBOL_BYTES
    &&& m.uri@.len() <= MAX_URI_BYTES
    &&& m.seller_fee_basis_points <= MAX_FEE_BASIS_POINTS
    &&& m.creators.share <= MAX_CREATOR_SHARE
}

/// Every field of a record lies within its reserved bound.
pub open spec fn spec_valid_record(v: RecordView) -> bool {
    &&& v.mint.len() == 32
    &&& v.name.len() <= MAX_NAME_BYTES
    &&& v.symbol.len() <= MAX_SYMBOL_BYTES
    &&& v.uri.len() <= MAX_URI_BYTES
    &&& v.seller_fee_basis_points <= MAX_FEE_BASIS_POINTS
    &&& v.creator_address.len() == 32
    &&& v.creator_share <= MAX_CREATOR_SHARE
}

/// Whether the input meets every reserved bound; issuance rejects the
/// input before touching any account when this is false.
pub fn metadata_is_valid(m: &NftMetadata) -> (r: bool)
    ensures
        r == spec_valid_metadata(m),
{
    m.name.len() <= MAX_NAME_BYTES && m.symbol.len() <= MAX_SYMBOL_BYTES && m.uri.len()
        <= MAX_URI_BYTES && m.seller_fee_basis_points <= MAX_FEE_BASIS_POINTS && m.creators.share
        <= MAX_CREATOR_SHARE
}

} // verus!
