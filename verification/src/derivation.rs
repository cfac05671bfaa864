use vstd::prelude::*;
use crate::address::Address;

verus! {

/// Multiplier of the 64-bit FNV-1a mixing step.
pub const MIX_PRIME: u64 = 0x100000001b3;

/// Lane seed for holding-account derivation; stands for the domain tag and
/// the token-program identity that key the (owner, mint) pair.
pub const HOLDING_DOMAIN: u64 = 0xcbf29ce484222325;

/// Lane seed for metadata derivation; stands for the fixed metadata
/// domain tag.
pub const METADATA_DOMAIN: u64 = 0xa135198bd7651c07;

/// One mixing step: fold a byte into the running state.
pub open spec fn spec_mix(h: u64, b: u8) -> u64 {
    ((((h ^ (b as u64)) as int) * (MIX_PRIME as int)) % 0x10000000000000000) as u64
}

/// Fold a whole byte sequence into the running state, front to back.
pub open spec fn spec_absorb(h: u64, s: Seq<u8>) -> u64
    decreases s.len(),
{
    if s.len() == 0 {
        h
    } else {
        spec_mix(spec_absorb(h, s.drop_last()), s.last())
    }
}

/// The eight little-endian bytes of a 64-bit word.
pub open spec fn spec_word_bytes(h: u64) -> Seq<u8> {
    Seq::new(8, |i: int| ((h >> ((8 * i) as u64)) & 0xff) as u8)
}

/// State of one derivation lane: the lane index is folded in after the
/// domain seed, then the seed material.
pub open spec fn spec_lane(domain: u64, lane: u8, material: Seq<u8>) -> u64 {
    spec_absorb(spec_mix(domain, lane), material)
}

/// A derived 32-byte address: four independent lanes over the same
/// material, each contributing eight bytes.
pub open spec fn spec_derived(domain: u64, material: Seq<u8>) -> Seq<u8> {
    spec_word_bytes(spec_lane(domain, 0, material)) + spec_word_bytes(
        spec_lane(domain, 1, material),
    ) + spec_word_bytes(spec_lane(domain, 2, material)) + spec_word_bytes(
        spec_lane(domain, 3, material),
    )
}

/// The canonical holding-account address for an owner and a mint.
pub open spec fn spec_holding_address(owner: Seq<u8>, mint: Seq<u8>) -> Seq<u8> {
    spec_derived(HOLDING_DOMAIN, owner + mint)
}

/// The canonical metadata address for a mint.
pub open spec fn spec_metadata_address(mint: Seq<u8>) -> Seq<u8> {
    spec_derived(METADATA_DOMAIN, mint)
}

fn mix(h: u64, b: u8) -> (r: u64)
    ensures
        r == spec_mix(h, b),
{
    let x: u128 = (h ^ (b as u64)) as u128;
    proof {
        assert(x * (MIX_PRIME as u128) <= 0xffffffffffffffffu128 * 0x100000001b3u128)
            by (nonlinear_arith)
            requires x <= 0xffffffffffffffffu128;
    }
    ((x * (MIX_PRIME as u128)) % 0x10000000000000000u128) as u64
}

fn absorb(h0: u64, bytes: &[u8; 32]) -> (r: u64)
    ensures
        r == spec_absorb(h0, bytes@),
{
    let mut h: u64 = h0;
    let mut i: usize = 0;
    while i < 32
        invariant
            0 <= i <= 32,
            h == spec_absorb(h0, bytes@.take(i as int)),
        decreases 32 - i,
    {
        h = mix(h, bytes[i]);
        proof {
            assert(bytes@.take(i + 1).drop_last() =~= bytes@.take(i as int));
            assert(bytes@.take(i + 1).last() == bytes@[i as int]);
        }
        i = i + 1;
    }
    proof {
        assert(bytes@.take(32) =~= bytes@);
    }
    h
}

fn lane2(domain: u64, lane: u8, first: &Address, second: &Address) -> (r: u64)
    ensures
        r == spec_lane(domain, lane, first@ + second@),
{
    let h = absorb(mix(domain, lane), &first.bytes);
    let r = absorb(h, &second.bytes);
    proof {
        lemma_absorb_concat(spec_mix(domain, lane), first@, second@);
    }
    r
}

fn lane1(domain: u64, lane: u8, only: &Address) -> (r: u64)
    ensures
        r == spec_lane(domain, lane, only@),
{
    absorb(mix(domain, lane), &only.bytes)
}

proof fn lemma_absorb_concat(h: u64, a: Seq<u8>, b: Seq<u8>)
    ensures
        spec_absorb(h, a + b) == spec_absorb(spec_absorb(h, a), b),
    decreases b.len(),
{
    if b.len() == 0 {
        assert(a + b =~= a);
    } else {
        lemma_absorb_concat(h, a, b.drop_last());
        assert((a + b).drop_last() =~= a + b.drop_last());
        assert((a + b).last() == b.last());
    }
}

fn word_bytes_into(h: u64, out: &mut [u8; 32], base: usize)
    requires
        base + 8 <= 32,
    ensures
        final(out)@.len() == 32,
        forall|j: int| 0 <= j < 8 ==> final(out)@[base + j] == spec_word_bytes(h)[j],
        forall|j: int| 0 <= j < 32 && !(base <= j < base + 8) ==> final(out)@[j] == old(out)@[j],
{
    let mut j: usize = 0;
    while j < 8
        invariant
            0 <= j <= 8,
            base + 8 <= 32,
            out@.len() == 32,
            forall|k: int| 0 <= k < j ==> out@[base + k] == spec_word_bytes(h)[k],
            forall|k: int| 0 <= k < 32 && !(base <= k < base + j) ==> out@[k] == old(out)@[k],
        decreases 8 - j,
    {
        let shift: u64 = 8 * (j as u64);
        let b: u8 = ((h >> shift) & 0xff) as u8;
        out[base + j] = b;
        proof {
            assert(b == spec_word_bytes(h)[j as int]);
        }
        j = j + 1;
    }
}

fn derived2(domain: u64, first: &Address, second: &Address) -> (a: Address)
    ensures
        a@ == spec_derived(domain, first@ + second@),
{
    let mut out: [u8; 32] = [0u8; 32];
    let h0 = lane2(domain, 0, first, second);
    let h1 = lane2(domain, 1, first, second);
    let h2 = lane2(domain, 2, first, second);
    let h3 = lane2(domain, 3, first, second);
    word_bytes_into(h0, &mut out, 0);
    word_bytes_into(h1, &mut out, 8);
    word_bytes_into(h2, &mut out, 16);
    word_bytes_into(h3, &mut out, 24);
    proof {
        assert(out@ =~= spec_derived(domain, first@ + second@));
    }
    Address { bytes: out }
}

fn derived1(domain: u64, only: &Address) -> (a: Address)
    ensures
        a@ == spec_derived(domain, only@),
{
    let mut out: [u8; 32] = [0u8; 32];
    let h0 = lane1(domain, 0, only);
    let h1 = lane1(domain, 1, only);
    let h2 = lane1(domain, 2, only);
    let h3 = lane1(domain, 3, only);
    word_bytes_into(h0, &mut out, 0);
    word_bytes_into(h1, &mut out, 8);
    word_bytes_into(h2, &mut out, 16);
    word_bytes_into(h3, &mut out, 24);
    proof {
        assert(out@ =~= spec_derived(domain, only@));
    }
    Address { bytes: out }
}

/// The deterministic holding-account address for (owner, mint):
/// recomputing it for the same inputs always yields the same address.
pub fn derive_holding_address(owner: &Address, mint: &Address) -> (a: Address)
    ensures
        a@ == spec_holding_address(owner@, mint@),
{
    derived2(HOLDING_DOMAIN, owner, mint)
}

/// The deterministic metadata address for a mint: recomputing it for the
/// same mint always yields the same address.
pub fn derive_metadata_address(mint: &Address) -> (a: Address)
    ensures
        a@ == spec_metadata_address(mint@),
{
    derived1(METADATA_DOMAIN, mint)
}

} // verus!
