use vstd::prelude::*;
use vstd::arithmetic::div_mod::lemma_fundamental_div_mod;
use crate::address::Address;
use crate::metadata::{RecordView, TokenMetadata, spec_valid_record, MAX_NAME_BYTES,
    MAX_SYMBOL_BYTES, MAX_URI_BYTES};
use crate::store::spec_zeros;

verus! {

/// Size of a stored record: 32 mint bytes, the three bounded string
/// fields at their reserved widths of 32, 10 and 200 bytes (each framed
/// by one length byte), a two-byte little-endian fee, 32 creator-address
/// bytes, one verified byte and one share byte.
pub const RECORD_SIZE: usize = 32 + 33 + 11 + 201 + 2 + 32 + 1 + 1;

/// A bounded string field: one length byte, the data, and zero padding
/// up to the reserved width.
pub open spec fn spec_enc_bounded(data: Seq<u8>, width: int) -> Seq<u8>
    recommends
        data.len() <= width,
{
    seq![data.len() as u8] + data + spec_zeros((width - data.len()) as nat)
}

/// The durable byte layout of a record.  Field order and widths are part
/// of the format.
pub open spec fn spec_encode(v: RecordView) -> Seq<u8> {
    v.mint + spec_enc_bounded(v.name, MAX_NAME_BYTES as int) + spec_enc_bounded(
        v.symbol,
        MAX_SYMBOL_BYTES as int,
    ) + spec_enc_bounded(v.uri, MAX_URI_BYTES as int) + seq![
        (v.seller_fee_basis_points % 256) as u8,
        (v.seller_fee_basis_points / 256) as u8,
    ] + v.creator_address + seq![if v.creator_verified { 1u8 } else { 0u8 }, v.creator_share]
}

/// The record a well-formed byte string holds, if any.
pub open spec fn spec_decode(b: Seq<u8>) -> Option<RecordView> {
    if b.len() != RECORD_SIZE {
        None
    } else {
        let name_len = b[32] as int;
        let symbol_len = b[65] as int;
        let uri_len = b[76] as int;
        let verified_byte = b[311];
        if name_len > MAX_NAME_BYTES || symbol_len > MAX_SYMBOL_BYTES || uri_len > MAX_URI_BYTES
            || (verified_byte != 0 && verified_byte != 1) {
            None
        } else {
            Some(
                RecordView {
                    mint: b.subrange(0, 32),
                    name: b.subrange(33, 33 + name_len),
                    symbol: b.subrange(66, 66 + symbol_len),
                    uri: b.subrange(77, 77 + uri_len),
                    seller_fee_basis_points: (b[277] + 256 * b[278]) as u16,
                    creator_address: b.subrange(279, 311),
                    creator_verified: verified_byte == 1,
                    creator_share: b[312],
                },
            )
        }
    }
}

/// Round-trip fidelity: decoding an encoded record yields exactly the
/// record that was stored.
pub proof fn lemma_record_round_trip(v: RecordView)
    requires
        spec_valid_record(v),
    ensures
        spec_decode(spec_encode(v)) == Some(v),
{
    let e = spec_encode(v);
    assert(e.len() == RECORD_SIZE);
    assert(e[32] == v.name.len() as u8);
    assert(e[65] == v.symbol.len() as u8);
    assert(e[76] == v.uri.len() as u8);
    assert(e[311] == if v.creator_verified { 1u8 } else { 0u8 });
    assert(e.subrange(0, 32) =~= v.mint);
    assert(e.subrange(33, 33 + v.name.len() as int) =~= v.name);
    assert(e.subrange(66, 66 + v.symbol.len() as int) =~= v.symbol);
    assert(e.subrange(77, 77 + v.uri.len() as int) =~= v.uri);
    assert(e.subrange(279, 311) =~= v.creator_address);
    assert(e[277] == (v.seller_fee_basis_points % 256) as u8);
    assert(e[278] == (v.seller_fee_basis_points / 256) as u8);
    lemma_fundamental_div_mod(v.seller_fee_basis_points as int, 256);
    assert(e[312] == v.creator_share);
}

fn push_address_bytes(out: &mut Vec<u8>, a: &Address)
    ensures
        final(out)@ == old(out)@ + a@,
{
    let mut i: usize = 0;
    while i < 32
        invariant
            0 <= i <= 32,
            out@ == old(out)@ + a@.take(i as int),
        decreases 32 - i,
    {
        out.push(a.bytes[i]);
        proof {
            assert(old(out)@ + a@.take(i + 1) =~= (old(out)@ + a@.take(i as int)).push(a@[i as int]));
        }
        i = i + 1;
    }
    proof {
        assert(old(out)@ + a@.take(32) =~= old(out)@ + a@);
    }
}

fn push_bounded(out: &mut Vec<u8>, data: &Vec<u8>, width: usize)
    requires
        data@.len() <= width,
        width <= 255,
    ensures
        final(out)@ == old(out)@ + spec_enc_bounded(data@, width as int),
{
    out.push(data.len() as u8);
    let ghost mid = out@;
    let mut i: usize = 0;
    while i < data.len()
        invariant
            0 <= i <= data@.len(),
            out@ == mid + data@.take(i as int),
        decreases data@.len() - i,
    {
        out.push(data[i]);
        proof {
            assert(mid + data@.take(i + 1) =~= (mid + data@.take(i as int)).push(data@[i as int]));
        }
        i = i + 1;
    }
    proof {
        assert(mid + data@.take(data@.len() as int) =~= mid + data@);
    }
    let mut j: usize = 0;
    let pad = width - data.len();
    while j < pad
        invariant
            0 <= j <= pad,
            pad == width - data@.len(),
            out@ == mid + data@ + spec_zeros(j as nat),
        decreases pad - j,
    {
        out.push(0u8);
        proof {
            assert(mid + data@ + spec_zeros((j + 1) as nat) =~= (mid + data@ + spec_zeros(
                j as nat,
            )).push(0u8));
        }
        j = j + 1;
    }
    proof {
        assert(out@ =~= old(out)@ + spec_enc_bounded(data@, width as int));
    }
}

/// The durable byte form of a record.
pub fn encode_token_metadata(m: &TokenMetadata) -> (b: Vec<u8>)
    requires
        spec_valid_record(m@),
    ensures
        b@ == spec_encode(m@),
        b@.len() == RECORD_SIZE,
{
    let mut out: Vec<u8> = Vec::new();
    push_address_bytes(&mut out, &m.mint);
    push_bounded(&mut out, &m.name, MAX_NAME_BYTES);
    push_bounded(&mut out, &m.symbol, MAX_SYMBOL_BYTES);
    push_bounded(&mut out, &m.uri, MAX_URI_BYTES);
    out.push((m.seller_fee_basis_points % 256) as u8);
    out.push((m.seller_fee_basis_points / 256) as u8);
    push_address_bytes(&mut out, &m.creator_address);
    out.push(if m.creator_verified { 1u8 } else { 0u8 });
    out.push(m.creator_share);
    proof {
        assert(out@ =~= spec_encode(m@));
    }
    out
}

fn copy_range(b: &Vec<u8>, start: usize, len: usize) -> (r: Vec<u8>)
    requires
        start + len <= b@.len(),
    ensures
        r@ == b@.subrange(start as int, start + len),
{
    let total = b.len();
    let mut out: Vec<u8> = Vec::new();
    let mut i: usize = 0;
    while i < len
        invariant
            0 <= i <= len,
            start + len <= total,
            total == b@.len(),
            out@ == b@.subrange(start as int, start + i),
        decreases len - i,
    {
        out.push(b[start + i]);
        proof {
            assert(b@.subrange(start as int, start + i + 1) =~= b@.subrange(
                start as int,
                start + i,
            ).push(b@[start + i]));
        }
        i = i + 1;
    }
    out
}

fn read_address(b: &Vec<u8>, start: usize) -> (a: Address)
    requires
        start + 32 <= b@.len(),
    ensures
        a@ == b@.subrange(start as int, start + 32),
{
    let total = b.len();
    let mut bytes: [u8; 32] = [0u8; 32];
    let mut i: usize = 0;
    while i < 32
        invariant
            0 <= i <= 32,
            start + 32 <= total,
            total == b@.len(),
            bytes@.len() == 32,
            forall|j: int| 0 <= j < i ==> bytes@[j] == b@[start + j],
        decreases 32 - i,
    {
        bytes[i] = b[start + i];
        i = i + 1;
    }
    proof {
        assert(bytes@ =~= b@.subrange(start as int, start + 32));
    }
    Address { bytes }
}

/// The record held by a byte string, if it is well formed.
pub fn decode_token_metadata(b: &Vec<u8>) -> (r: Option<TokenMetadata>)
    ensures
        match r {
            Some(m) => spec_decode(b@) == Some(m@),
            None => spec_decode(b@) is None,
        },
{
    if b.len() != RECORD_SIZE {
        return None;
    }
    let name_len = b[32] as usize;
    let symbol_len = b[65] as usize;
    let uri_len = b[76] as usize;
    let verified_byte = b[311];
    if name_len > MAX_NAME_BYTES || symbol_len > MAX_SYMBOL_BYTES || uri_len > MAX_URI_BYTES || (
    verified_byte != 0 && verified_byte != 1) {
        return None;
    }
    let m = TokenMetadata {
        mint: read_address(b, 0),
        name: copy_range(b, 33, name_len),
        symbol: copy_range(b, 66, symbol_len),
        uri: copy_range(b, 77, uri_len),
        seller_fee_basis_points: (b[277] as u16) + 256 * (b[278] as u16),
        creator_address: read_address(b, 279),
        creator_verified: verified_byte == 1,
        creator_share: b[312],
    };
    proof {
        assert(m@ == spec_decode(b@).unwrap());
    }
    Some(m)
}

} // verus!
