use vstd::prelude::*;
use crate::AccountId;

verus! {

/// A creature's genome: 16 bytes fixed at mint, immutable afterwards.
pub type Dna = [u8; 16];

/// The 128-bit Blake2b digest of `data`, as `sp_core_hashing::blake2_128`
/// computes it. The digest is a function of the input bytes alone, so it is
/// given only a name here; nothing else is assumed of it.
pub uninterp spec fn blake2_128_of(data: Seq<u8>) -> Seq<u8>;

/// Relies on `sp_core_hashing::blake2_128`: the 128-bit Blake2b digest of the
/// input, deterministic in the bytes alone.
#[verifier::external_body]
fn blake2_128(data: &Vec<u8>) -> (r: [u8; 16])
    ensures
        r@ == blake2_128_of(data@),
{
    sp_core_hashing::blake2_128(data.as_slice())
}

/// The little-endian byte at position `k` of a 64-bit value.
pub open spec fn le_byte64(x: u64, k: int) -> u8 {
    ((x >> (8 * k)) & 0xff) as u8
}

/// The little-endian byte at position `k` of a 32-bit value.
pub open spec fn le_byte32(x: u32, k: int) -> u8 {
    ((x >> (8 * k)) & 0xff) as u8
}

/// The bytes hashed to derive a fresh genome: the beacon seed, then the
/// caller's account id (8 little-endian bytes), then the per-transaction
/// nonce (4 little-endian bytes).
pub open spec fn seed_payload(seed: Seq<u8>, sender: AccountId, nonce: u32) -> Seq<u8> {
    seed + Seq::new(8, |k: int| le_byte64(sender, k)) + Seq::new(4, |k: int| le_byte32(nonce, k))
}

/// The genome minted for `sender` from the beacon seed and the
/// per-transaction nonce: the 128-bit digest of the combined payload.
/// Distinct callers or distinct nonces feed distinct payloads to the digest,
/// so collisions are no more likely than digest collisions; nothing here is
/// secured against an adversarial beacon.
pub open spec fn random_dna(seed: Seq<u8>, sender: AccountId, nonce: u32) -> Seq<u8> {
    blake2_128_of(seed_payload(seed, sender, nonce))
}

/// Derive a fresh genome from the beacon seed, the caller and the
/// per-transaction nonce. Deterministic in its three inputs.
pub fn random_value(seed: &[u8; 32], sender: AccountId, nonce: u32) -> (r: Dna)
    ensures
        r@ == random_dna(seed@, sender, nonce),
{
    let mut payload: Vec<u8> = Vec::new();
    let mut i: usize = 0;
    while i < 32
        invariant
            0 <= i <= 32,
            payload@ == seed@.subrange(0, i as int),
        decreases 32 - i,
    {
        payload.push(seed[i]);
        proof {
            assert(payload@ =~= seed@.subrange(0, i + 1));
        }
        i = i + 1;
    }
    let mut k: usize = 0;
    while k < 8
        invariant
            0 <= k <= 8,
            payload@ == seed@ + Seq::new(k as nat, |j: int| le_byte64(sender, j)),
        decreases 8 - k,
    {
        payload.push(((sender >> (8 * k as u64)) & 0xff) as u8);
        proof {
            assert(payload@ =~= seed@ + Seq::new((k + 1) as nat, |j: int| le_byte64(sender, j)));
        }
        k = k + 1;
    }
    let mut m: usize = 0;
    while m < 4
        invariant
            0 <= m <= 4,
            payload@ == seed@ + Seq::new(8, |j: int| le_byte64(sender, j))
                + Seq::new(m as nat, |j: int| le_byte32(nonce, j)),
        decreases 4 - m,
    {
        payload.push(((nonce >> (8 * m as u32)) & 0xff) as u8);
        proof {
            assert(payload@ =~= seed@ + Seq::new(8, |j: int| le_byte64(sender, j))
                + Seq::new((m + 1) as nat, |j: int| le_byte32(nonce, j)));
        }
        m = m + 1;
    }
    proof {
        assert(payload@ =~= seed_payload(seed@, sender, nonce));
    }
    blake2_128(&payload)
}

/// One byte of a bred genome: each bit comes from parent `a` where the
/// selector bit is 1, else from parent `b`.
pub open spec fn combine_byte(s: u8, a: u8, b: u8) -> u8 {
    (s & a) | (!s & b)
}

/// Combine two parent genomes under a selector, byte-wise bit multiplexing.
/// Deterministic in its three inputs; all randomness sits in `selector`.
pub fn combine(a: &Dna, b: &Dna, selector: &Dna) -> (r: Dna)
    ensures
        forall|i: int| 0 <= i < 16 ==> r@[i] == combine_byte(selector@[i], a@[i], b@[i]),
{
    let mut r: Dna = [0u8; 16];
    let mut i: usize = 0;
    while i < 16
        invariant
            0 <= i <= 16,
            forall|j: int| 0 <= j < i ==> r@[j] == combine_byte(selector@[j], a@[j], b@[j]),
        decreases 16 - i,
    {
        r[i] = (selector[i] & a[i]) | (!selector[i] & b[i]);
        i = i + 1;
    }
    r
}

} // verus!
