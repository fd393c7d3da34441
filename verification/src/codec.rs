//! The persisted escrow record layout.
//!
//! A record is binary, fixed-size and versioned by field order: the owner
//! identity, then the 64-bit balance, then the asset identifier, each
//! little-endian and fixed-width, and then the appended derivation nonce.
//! Decoding is the exact inverse of encoding, proved by
//! [`lemma_record_round_trip`].

use vstd::prelude::*;

use crate::ledger::EscrowAccount;

verus! {

/// The fixed size of a persisted escrow record, in bytes.
pub const RECORD_LEN: usize = 25;

/// The little-endian bytes of a 64-bit word.
pub open spec fn spec_u64_le(x: u64) -> Seq<u8> {
    seq![
        (x & 0xff) as u8,
        ((x >> 8) & 0xff) as u8,
        ((x >> 16) & 0xff) as u8,
        ((x >> 24) & 0xff) as u8,
        ((x >> 32) & 0xff) as u8,
        ((x >> 40) & 0xff) as u8,
        ((x >> 48) & 0xff) as u8,
        ((x >> 56) & 0xff) as u8,
    ]
}

/// The 64-bit word read from eight little-endian bytes.
pub open spec fn spec_le_u64(b: Seq<u8>) -> u64 {
    (b[0] as u64) | ((b[1] as u64) << 8) | ((b[2] as u64) << 16) | ((b[3] as u64) << 24) | (
    (b[4] as u64) << 32) | ((b[5] as u64) << 40) | ((b[6] as u64) << 48) | ((b[7] as u64) << 56)
}

/// Reading back the little-endian bytes of a word yields the word.
pub proof fn lemma_u64_le_round_trip(x: u64)
    ensures
        spec_le_u64(spec_u64_le(x)) == x,
{
    let b0 = (x & 0xff) as u8;
    let b1 = ((x >> 8) & 0xff) as u8;
    let b2 = ((x >> 16) & 0xff) as u8;
    let b3 = ((x >> 24) & 0xff) as u8;
    let b4 = ((x >> 32) & 0xff) as u8;
    let b5 = ((x >> 40) & 0xff) as u8;
    let b6 = ((x >> 48) & 0xff) as u8;
    let b7 = ((x >> 56) & 0xff) as u8;
    assert((b0 as u64) | ((b1 as u64) << 8) | ((b2 as u64) << 16) | ((b3 as u64) << 24) | (
    (b4 as u64) << 32) | ((b5 as u64) << 40) | ((b6 as u64) << 48) | ((b7 as u64) << 56) == x)
        by (bit_vector)
        requires
            b0 == (x & 0xff) as u8,
            b1 == ((x >> 8) & 0xff) as u8,
            b2 == ((x >> 16) & 0xff) as u8,
            b3 == ((x >> 24) & 0xff) as u8,
            b4 == ((x >> 32) & 0xff) as u8,
            b5 == ((x >> 40) & 0xff) as u8,
            b6 == ((x >> 48) & 0xff) as u8,
            b7 == ((x >> 56) & 0xff) as u8,
    ;
}

/// The bytes a persisted escrow record consists of.
pub open spec fn spec_record_bytes(e: EscrowAccount) -> Seq<u8> {
    spec_u64_le(e.owner) + spec_u64_le(e.amount) + spec_u64_le(e.asset) + seq![e.derivation_nonce]
}

/// The record a byte string decodes to: exactly the strings of length
/// [`RECORD_LEN`] decode, field by field.
pub open spec fn spec_decode_record(b: Seq<u8>) -> Option<EscrowAccount> {
    if b.len() != RECORD_LEN {
        None
    } else {
        Some(
            EscrowAccount {
                owner: spec_le_u64(b.subrange(0, 8)),
                amount: spec_le_u64(b.subrange(8, 16)),
                asset: spec_le_u64(b.subrange(16, 24)),
                derivation_nonce: b[24],
            },
        )
    }
}

/// Append the little-endian bytes of a 64-bit word to a buffer.
fn push_u64_le(out: &mut Vec<u8>, x: u64)
    ensures
        final(out)@ == old(out)@ + spec_u64_le(x),
{
    out.push((x & 0xff) as u8);
    out.push(((x >> 8) & 0xff) as u8);
    out.push(((x >> 16) & 0xff) as u8);
    out.push(((x >> 24) & 0xff) as u8);
    out.push(((x >> 32) & 0xff) as u8);
    out.push(((x >> 40) & 0xff) as u8);
    out.push(((x >> 48) & 0xff) as u8);
    out.push(((x >> 56) & 0xff) as u8);
    proof {
        assert(final(out)@ =~= old(out)@ + spec_u64_le(x));
    }
}

/// Read a 64-bit word from eight little-endian bytes of a buffer.
fn read_u64_le(bytes: &[u8], offset: usize) -> (r: u64)
    requires
        offset + 8 <= bytes@.len(),
    ensures
        r == spec_le_u64(bytes@.subrange(offset as int, offset as int + 8)),
{
    let r = (bytes[offset] as u64) | ((bytes[offset + 1] as u64) << 8u64) | ((bytes[offset
        + 2] as u64) << 16u64) | ((bytes[offset + 3] as u64) << 24u64) | ((bytes[offset
        + 4] as u64) << 32u64) | ((bytes[offset + 5] as u64) << 40u64) | ((bytes[offset
        + 6] as u64) << 48u64) | ((bytes[offset + 7] as u64) << 56u64);
    proof {
        let s = bytes@.subrange(offset as int, offset as int + 8);
        assert(s[0] == bytes@[offset as int]);
        assert(s[1] == bytes@[offset as int + 1]);
        assert(s[2] == bytes@[offset as int + 2]);
        assert(s[3] == bytes@[offset as int + 3]);
        assert(s[4] == bytes@[offset as int + 4]);
        assert(s[5] == bytes@[offset as int + 5]);
        assert(s[6] == bytes@[offset as int + 6]);
        assert(s[7] == bytes@[offset as int + 7]);
    }
    r
}

/// Encode an escrow record into its fixed-size persisted form.
pub fn encode_record(e: &EscrowAccount) -> (r: Vec<u8>)
    ensures
        r@ == spec_record_bytes(*e),
        r@.len() == RECORD_LEN,
{
    let mut out: Vec<u8> = Vec::new();
    push_u64_le(&mut out, e.owner);
    push_u64_le(&mut out, e.amount);
    push_u64_le(&mut out, e.asset);
    out.push(e.derivation_nonce);
    proof {
        assert(out@ =~= spec_record_bytes(*e));
    }
    out
}

/// Decode a persisted escrow record; strings of any other length are
/// rejected.
pub fn decode_record(bytes: &[u8]) -> (r: Option<EscrowAccount>)
    ensures
        r == spec_decode_record(bytes@),
{
    if bytes.len() != RECORD_LEN {
        return None;
    }
    let owner = read_u64_le(bytes, 0);
    let amount = read_u64_le(bytes, 8);
    let asset = read_u64_le(bytes, 16);
    let derivation_nonce = bytes[24];
    Some(EscrowAccount { owner, asset, amount, derivation_nonce })
}

/// Law: decoding is the exact inverse of encoding — every record survives a
/// round trip through its persisted form unchanged.
pub proof fn lemma_record_round_trip(e: EscrowAccount)
    ensures
        spec_decode_record(spec_record_bytes(e)) == Some(e),
{
    let b = spec_record_bytes(e);
    assert(b.len() == RECORD_LEN);
    assert(b.subrange(0, 8) =~= spec_u64_le(e.owner));
    assert(b.subrange(8, 16) =~= spec_u64_le(e.amount));
    assert(b.subrange(16, 24) =~= spec_u64_le(e.asset));
    assert(b[24] == e.derivation_nonce);
    lemma_u64_le_round_trip(e.owner);
    lemma_u64_le_round_trip(e.amount);
    lemma_u64_le_round_trip(e.asset);
}

} // verus!
