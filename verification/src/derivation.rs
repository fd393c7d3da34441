//! The derivation authority.
//!
//! A control address for an escrow vault is computed deterministically from
//! a namespace tag, the depositor's identity and the asset identifier,
//! together with a bounded search over candidate nonces. The search stops at
//! the first candidate address that lies outside the key-capable address
//! space, so the resulting address provably corresponds to no private key:
//! the host reserves that disjoint namespace for derived, virtual accounts.
//! Authority over such an address is re-asserted later by recomputing the
//! same derivation, never by a signature.

use vstd::prelude::*;

use crate::errors::EscrowError;

verus! {

/// The namespace tag under which every escrow vault authority is derived.
pub const ESCROW_TAG: u64 = 0x6573_6372_6f77_0001;

/// The nonce value at which the bounded search starts; it probes downward.
pub const NONCE_SEARCH_START: u8 = 255;

/// One mixing round of the derivation hash: a xorshift permutation of the
/// 64-bit state.
pub open spec fn spec_scramble(z: u64) -> u64 {
    let a = z ^ (z >> 33);
    let b = a ^ (a << 25);
    b ^ (b >> 11)
}

/// Executable counterpart of [`spec_scramble`].
#[verifier::when_used_as_spec(spec_scramble)]
pub fn scramble(z: u64) -> (r: u64)
    ensures
        r == spec_scramble(z),
{
    let a = z ^ (z >> 33);
    let b = a ^ (a << 25);
    b ^ (b >> 11)
}

/// The derivation hash: fold the namespace tag, the owner identity, the
/// asset identifier and the candidate nonce into one 64-bit digest.
pub open spec fn spec_derive_hash(tag: u64, owner: u64, asset: u64, nonce: u8) -> u64 {
    spec_scramble(spec_scramble(spec_scramble(spec_scramble(tag) ^ owner) ^ asset) ^ (nonce as u64))
}

/// Executable counterpart of [`spec_derive_hash`].
#[verifier::when_used_as_spec(spec_derive_hash)]
pub fn derive_hash(tag: u64, owner: u64, asset: u64, nonce: u8) -> (r: u64)
    ensures
        r == spec_derive_hash(tag, owner, asset, nonce),
{
    scramble(scramble(scramble(scramble(tag) ^ owner) ^ asset) ^ (nonce as u64))
}

/// Whether an address value could ever correspond to a signable private key.
/// The host mints key-pair addresses only with an even low bit; the odd half
/// of the value space is reserved for derived, key-less authorities.
pub open spec fn is_key_capable(value: u64) -> bool {
    value & 1 == 0
}

/// The bounded probe: try `nonce`, then smaller nonces, and return the first
/// candidate digest that is not key-capable, paired with the nonce that
/// produced it.
pub open spec fn spec_probe(tag: u64, owner: u64, asset: u64, nonce: int) -> Option<(u64, u8)>
    decreases nonce + 1,
{
    if nonce < 0 {
        None
    } else {
        let candidate = spec_derive_hash(tag, owner, asset, nonce as u8);
        if !is_key_capable(candidate) {
            Some((candidate, nonce as u8))
        } else {
            spec_probe(tag, owner, asset, nonce - 1)
        }
    }
}

/// What `derive` returns: the first key-less candidate found when probing
/// nonces downward from [`NONCE_SEARCH_START`], or nothing when the whole
/// bounded space is key-capable.
pub open spec fn spec_derive(tag: u64, owner: u64, asset: u64) -> Option<(u64, u8)> {
    spec_probe(tag, owner, asset, NONCE_SEARCH_START as int)
}

/// Derive the key-less control address for `(tag, owner, asset)`, returning
/// the address and the nonce that produced it. Fails with
/// `DerivationExhausted` only when the entire bounded nonce space was
/// searched without finding a key-less candidate.
pub fn derive(tag: u64, owner: u64, asset: u64) -> (r: Result<(u64, u8), EscrowError>)
    ensures
        r == (match spec_derive(tag, owner, asset) {
            Some(p) => Ok::<(u64, u8), EscrowError>(p),
            None => Err::<(u64, u8), EscrowError>(EscrowError::DerivationExhausted),
        }),
{
    let mut remaining: u16 = NONCE_SEARCH_START as u16 + 1;
    while remaining > 0
        invariant
            remaining <= NONCE_SEARCH_START as u16 + 1,
            spec_derive(tag, owner, asset) == spec_probe(tag, owner, asset, remaining as int - 1),
        decreases remaining,
    {
        let nonce: u8 = (remaining - 1) as u8;
        let candidate = derive_hash(tag, owner, asset, nonce);
        if candidate & 1 == 1 {
            return Ok((candidate, nonce));
        }
        proof {
            assert(candidate & 1 == 0 || candidate & 1 == 1) by (bit_vector);
            assert(spec_probe(tag, owner, asset, remaining as int - 1) == spec_probe(
                tag,
                owner,
                asset,
                remaining as int - 2,
            ));
        }
        remaining = remaining - 1;
    }
    Err(EscrowError::DerivationExhausted)
}

/// Derivation is deterministic: any two results pinned to the same inputs by
/// the contract of `derive` are one and the same `(address, nonce)` pair.
pub proof fn lemma_derive_deterministic(
    tag: u64,
    owner: u64,
    asset: u64,
    r1: Result<(u64, u8), EscrowError>,
    r2: Result<(u64, u8), EscrowError>,
)
    requires
        r1 == (match spec_derive(tag, owner, asset) {
            Some(p) => Ok::<(u64, u8), EscrowError>(p),
            None => Err::<(u64, u8), EscrowError>(EscrowError::DerivationExhausted),
        }),
        r2 == (match spec_derive(tag, owner, asset) {
            Some(p) => Ok::<(u64, u8), EscrowError>(p),
            None => Err::<(u64, u8), EscrowError>(EscrowError::DerivationExhausted),
        }),
    ensures
        r1 == r2,
{
}

/// Every address the probe yields is key-less.
proof fn lemma_probe_keyless(tag: u64, owner: u64, asset: u64, nonce: int)
    requires
        spec_probe(tag, owner, asset, nonce) is Some,
    ensures
        !is_key_capable(spec_probe(tag, owner, asset, nonce)->Some_0.0),
    decreases nonce + 1,
{
    if nonce >= 0 {
        let candidate = spec_derive_hash(tag, owner, asset, nonce as u8);
        if is_key_capable(candidate) {
            lemma_probe_keyless(tag, owner, asset, nonce - 1);
        }
    }
}

/// Law: every derived control address is key-less — it lies in the address
/// namespace that no private key can ever be minted for, so only a
/// recomputed authority proof, never a signature, can assert control of it.
pub proof fn lemma_derived_address_keyless(tag: u64, owner: u64, asset: u64)
    ensures
        match spec_derive(tag, owner, asset) {
            Some(p) => !is_key_capable(p.0),
            None => true,
        },
{
    if spec_derive(tag, owner, asset) is Some {
        lemma_probe_keyless(tag, owner, asset, NONCE_SEARCH_START as int);
    }
}

/// A one-time proof that the holder has reconstructed the controlling inputs
/// of a derived address. It can only be produced by [`assert_authority`],
/// carries the derived address it proves authority over, and is consumed by
/// the transfer it authorizes.
pub struct AuthorityProof {
    value: u64,
}

impl AuthorityProof {
    /// The derived address this proof asserts authority over.
    pub closed spec fn address(self) -> u64 {
        self.value
    }

    /// Read the derived address this proof asserts authority over.
    pub fn address_value(&self) -> (r: u64)
        ensures
            r == self.address(),
    {
        self.value
    }
}

/// Recompute the derivation for `(tag, owner, asset)` and, exactly when the
/// stored `nonce` matches the nonce the derivation discovers, yield a proof
/// of authority over the derived address. A mismatched nonce is an
/// impersonation attempt and fails with `Unauthorized`.
pub fn assert_authority(tag: u64, owner: u64, asset: u64, nonce: u8) -> (r: Result<
    AuthorityProof,
    EscrowError,
>)
    ensures
        match spec_derive(tag, owner, asset) {
            Some(p) => {
                if p.1 == nonce {
                    r matches Ok(proof_) && proof_.address() == p.0
                } else {
                    r == Err::<AuthorityProof, EscrowError>(EscrowError::Unauthorized)
                }
            },
            None => r == Err::<AuthorityProof, EscrowError>(EscrowError::DerivationExhausted),
        },
{
    match derive(tag, owner, asset) {
        Ok((address, found_nonce)) => {
            if found_nonce == nonce {
                Ok(AuthorityProof { value: address })
            } else {
                Err(EscrowError::Unauthorized)
            }
        },
        Err(e) => Err(e),
    }
}

} // verus!
