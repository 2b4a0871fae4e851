use vstd::prelude::*;
use crate::AccountId;

verus! {

/// Block heights, as the host's block-index collaborator reports them.
pub type BlockNumber = u64;

/// Configuration of the claim registry: the longest byte string accepted as
/// a claim.
#[derive(Clone, Copy, Debug, PartialEq, Eq)]
pub struct Config {
    pub asset_deposit_base: usize,
}

/// Why a claim operation was refused.
#[derive(Clone, Copy, Debug, PartialEq, Eq)]
pub enum Error {
    /// The byte string is already claimed.
    ProofAlreadyClaimed,
    /// No claim exists for the byte string.
    NoSuchProof,
    /// The caller is not the claim's owner.
    NotProofOwner,
    /// The byte string is longer than the configured bound.
    ClaimTooLong,
}

/// The events the registry appends to the host's log.
#[derive(Clone, Debug, PartialEq, Eq)]
pub enum Event {
    ClaimCreated(AccountId, Vec<u8>),
    ClaimRevoked(AccountId, Vec<u8>),
}

/// The claim registered under `key`: the owner and the block of the
/// registration, read off the entry list from its end.
pub open spec fn claim_of(
    s: Seq<(Vec<u8>, (AccountId, BlockNumber))>,
    key: Seq<u8>,
) -> Option<(AccountId, BlockNumber)>
    decreases s.len(),
{
    if s.len() == 0 {
        None
    } else if s.last().0@ == key {
        Some(s.last().1)
    } else {
        claim_of(s.drop_last(), key)
    }
}

/// No two entries carry the same byte string.
pub open spec fn unique_keys(s: Seq<(Vec<u8>, (AccountId, BlockNumber))>) -> bool {
    forall|i: int, j: int| #![trigger s[i], s[j]] 0 <= i < j < s.len() ==> s[i].0@ != s[j].0@
}

/// A key that occurs in no entry is not claimed.
proof fn lemma_claim_absent(s: Seq<(Vec<u8>, (AccountId, BlockNumber))>, key: Seq<u8>)
    requires
        forall|i: int| 0 <= i < s.len() ==> (#[trigger] s[i]).0@ != key,
    ensures
        claim_of(s, key) is None,
    decreases s.len(),
{
    if s.len() > 0 {
        lemma_claim_absent(s.drop_last(), key);
    }
}

/// With unique keys, the entry at `i` decides its own key's claim.
proof fn lemma_claim_found(s: Seq<(Vec<u8>, (AccountId, BlockNumber))>, i: int)
    requires
        unique_keys(s),
        0 <= i < s.len(),
    ensures
        claim_of(s, s[i].0@) == Some(s[i].1),
    decreases s.len(),
{
    if i < s.len() - 1 {
        lemma_claim_found(s.drop_last(), i);
    }
}

/// A claimed key occurs in some entry, with the claim's value.
proof fn lemma_claim_witness(s: Seq<(Vec<u8>, (AccountId, BlockNumber))>, key: Seq<u8>)
    requires
        claim_of(s, key) is Some,
    ensures
        exists|i: int| 0 <= i < s.len() && (#[trigger] s[i]).0@ == key && s[i].1 == claim_of(
            s,
            key,
        )->0,
    decreases s.len(),
{
    if s.last().0@ == key {
        assert(0 <= s.len() - 1 < s.len() && s[s.len() - 1].0@ == key && s[s.len() - 1].1
            == claim_of(s, key)->0);
    } else {
        lemma_claim_witness(s.drop_last(), key);
        let i = choose|i: int|
            0 <= i < s.drop_last().len() && (#[trigger] s.drop_last()[i]).0@ == key
                && s.drop_last()[i].1 == claim_of(s.drop_last(), key)->0;
        assert(0 <= i < s.len() && s[i].0@ == key && s[i].1 == claim_of(s, key)->0);
    }
}

/// Byte-string equality.
fn bytes_eq(a: &Vec<u8>, b: &Vec<u8>) -> (r: bool)
    ensures
        r == (a@ == b@),
{
    if a.len() != b.len() {
        return false;
    }
    let mut i: usize = 0;
    while i < a.len()
        invariant
            0 <= i <= a.len(),
            a@.len() == b@.len(),
            forall|j: int| 0 <= j < i ==> a@[j] == b@[j],
        decreases a.len() - i,
    {
        if a[i] != b[i] {
            return false;
        }
        i = i + 1;
    }
    proof {
        assert(a@ =~= b@);
    }
    true
}

/// The claim registry: opaque byte-string proofs, each owned by whoever
/// claimed it first, together with the block of the registration. A pure
/// first-claimer store: no currency is involved.
pub struct Pallet {
    pub config: Config,
    pub proofs: Vec<(Vec<u8>, (AccountId, BlockNumber))>,
    pub events: Vec<Event>,
}

impl Pallet {
    /// The registered claims, as a lookup from byte string to owner and
    /// block.
    pub open spec fn claims(self) -> spec_fn(Seq<u8>) -> Option<(AccountId, BlockNumber)> {
        |key: Seq<u8>| claim_of(self.proofs@, key)
    }

    /// No byte string is stored twice.
    pub open spec fn wf(self) -> bool {
        unique_keys(self.proofs@)
    }

    /// A fresh, empty registry.
    pub fn new(config: Config) -> (p: Pallet)
        ensures
            p.wf(),
            p.config == config,
            forall|key: Seq<u8>| #![trigger claim_of(p.proofs@, key)] claim_of(p.proofs@, key) is None,
            p.events@ == Seq::<Event>::empty(),
    {
        Pallet { config, proofs: Vec::new(), events: Vec::new() }
    }

    /// The claim registered under `proof`, if any: its owner and the block
    /// it was registered in.
    pub fn get_claim(&self, proof: &Vec<u8>) -> (r: Option<(AccountId, BlockNumber)>)
        requires
            self.wf(),
        ensures
            r == claim_of(self.proofs@, proof@),
    {
        match self.find_claim(proof) {
            Some(i) => {
                proof {
                    lemma_claim_found(self.proofs@, i as int);
                }
                Some(self.proofs[i].1)
            },
            None => {
                proof {
                    lemma_claim_absent(self.proofs@, proof@);
                }
                None
            },
        }
    }

    /// The index of the entry holding `key`, if any.
    fn find_claim(&self, key: &Vec<u8>) -> (r: Option<usize>)
        ensures
            match r {
                Some(i) => i < self.proofs@.len() && self.proofs@[i as int].0@ == key@,
                None => forall|i: int| 0 <= i < self.proofs@.len() ==> (#[trigger] self.proofs@[i]).0@
                    != key@,
            },
    {
        let mut i: usize = 0;
        while i < self.proofs.len()
            invariant
                0 <= i <= self.proofs@.len(),
                forall|j: int| 0 <= j < i ==> (#[trigger] self.proofs@[j]).0@ != key@,
            decreases self.proofs@.len() - i,
        {
            if bytes_eq(&self.proofs[i].0, key) {
                return Some(i);
            }
            i = i + 1;
        }
        None
    }

    /// Why registering `proof` for `sender` would fail, `None` if it would
    /// succeed.
    pub open spec fn create_claim_err(self, proof: Seq<u8>) -> Option<Error> {
        if proof.len() > self.config.asset_deposit_base {
            Some(Error::ClaimTooLong)
        } else if claim_of(self.proofs@, proof) is Some {
            Some(Error::ProofAlreadyClaimed)
        } else {
            None
        }
    }

    /// Register `proof` for `sender` at the current block and emit
    /// `ClaimCreated`. Refused when the byte string is over the configured
    /// length or already claimed; on failure nothing changes.
    pub fn create_claim(
        &mut self,
        sender: AccountId,
        proof: Vec<u8>,
        current_block: BlockNumber,
    ) -> (r: Result<(), Error>)
        requires
            old(self).wf(),
        ensures
            final(self).wf(),
            final(self).config == old(self).config,
            r is Err <==> old(self).create_claim_err(proof@) is Some,
            r is Err ==> *final(self) == *old(self) && r == Err::<(), Error>(
                old(self).create_claim_err(proof@)->0,
            ),
            r is Ok ==> claim_of(final(self).proofs@, proof@) == Some((sender, current_block)),
            r is Ok ==> forall|key: Seq<u8>|
                #![trigger claim_of(final(self).proofs@, key)]
                key != proof@ ==> claim_of(final(self).proofs@, key) == claim_of(
                    old(self).proofs@,
                    key,
                ),
            r is Ok ==> final(self).events@ == old(self).events@.push(
                Event::ClaimCreated(sender, proof),
            ),
    {
        if proof.len() > self.config.asset_deposit_base {
            return Err(Error::ClaimTooLong);
        }
        match self.find_claim(&proof) {
            Some(i) => {
                proof {
                    lemma_claim_found(self.proofs@, i as int);
                }
                Err(Error::ProofAlreadyClaimed)
            },
            None => {
                proof {
                    lemma_claim_absent(self.proofs@, proof@);
                }
                let entry_key: Vec<u8> = clone_bytes(&proof);
                self.proofs.push((entry_key, (sender, current_block)));
                proof {
                    assert(self.proofs@.drop_last() =~= old(self).proofs@);
                    assert forall|key: Seq<u8>|
                        #![trigger claim_of(self.proofs@, key)]
                        key != proof@ implies claim_of(self.proofs@, key) == claim_of(
                        old(self).proofs@,
                        key,
                    ) by {}
                }
                self.events.push(Event::ClaimCreated(sender, proof));
                Ok(())
            },
        }
    }

    /// Why revoking `proof` for `sender` would fail, `None` if it would
    /// succeed.
    pub open spec fn revoke_claim_err(self, sender: AccountId, proof: Seq<u8>) -> Option<Error> {
        if claim_of(self.proofs@, proof) is None {
            Some(Error::NoSuchProof)
        } else if (claim_of(self.proofs@, proof)->0).0 != sender {
            Some(Error::NotProofOwner)
        } else {
            None
        }
    }

    /// Revoke the caller's claim on `proof` and emit `ClaimRevoked`. Refused
    /// when no claim exists or the caller does not own it; on failure
    /// nothing changes.
    pub fn revoke_claim(&mut self, sender: AccountId, proof: Vec<u8>) -> (r: Result<(), Error>)
        requires
            old(self).wf(),
        ensures
            final(self).wf(),
            final(self).config == old(self).config,
            r is Err <==> old(self).revoke_claim_err(sender, proof@) is Some,
            r is Err ==> *final(self) == *old(self) && r == Err::<(), Error>(
                old(self).revoke_claim_err(sender, proof@)->0,
            ),
            r is Ok ==> claim_of(final(self).proofs@, proof@) is None,
            r is Ok ==> forall|key: Seq<u8>|
                #![trigger claim_of(final(self).proofs@, key)]
                key != proof@ ==> claim_of(final(self).proofs@, key) == claim_of(
                    old(self).proofs@,
                    key,
                ),
            r is Ok ==> final(self).events@ == old(self).events@.push(
                Event::ClaimRevoked(sender, proof),
            ),
    {
        let i: usize = match self.find_claim(&proof) {
            Some(i) => i,
            None => {
                proof {
                    lemma_claim_absent(self.proofs@, proof@);
                }
                return Err(Error::NoSuchProof);
            },
        };
        proof {
            lemma_claim_found(self.proofs@, i as int);
        }
        let owner: AccountId = self.proofs[i].1.0;
        if owner != sender {
            return Err(Error::NotProofOwner);
        }
        self.proofs.remove(i);
        proof {
            let s = old(self).proofs@;
            let t = self.proofs@;
            s.remove_ensures(i as int);
            assert forall|p: int, q: int| #![trigger t[p], t[q]] 0 <= p < q < t.len() implies t[p].0@
                != t[q].0@ by {
                let p2: int = if p < i { p } else { p + 1 };
                let q2: int = if q < i { q } else { q + 1 };
                assert(t[p] == s[p2] && t[q] == s[q2]);
            }
            assert forall|j: int| 0 <= j < t.len() implies (#[trigger] t[j]).0@ != proof@ by {
                let j2: int = if j < i { j } else { j + 1 };
                assert(t[j] == s[j2]);
            }
            lemma_claim_absent(t, proof@);
            assert forall|key: Seq<u8>| #![trigger claim_of(t, key)] key != proof@ implies claim_of(
                t,
                key,
            ) == claim_of(s, key) by {
                lemma_claim_frame_after_removal(s, t, i as int, key);
            }
        }
        self.events.push(Event::ClaimRevoked(sender, proof));
        Ok(())
    }

    /// Why handing the claim on `claim` to another account would fail,
    /// `None` if it would succeed.
    pub open spec fn transfer_claim_err(self, sender: AccountId, claim: Seq<u8>) -> Option<Error> {
        if claim.len() > self.config.asset_deposit_base {
            Some(Error::ClaimTooLong)
        } else if claim_of(self.proofs@, claim) is None {
            Some(Error::NoSuchProof)
        } else if (claim_of(self.proofs@, claim)->0).0 != sender {
            Some(Error::NotProofOwner)
        } else {
            None
        }
    }

    /// Hand the caller's claim on `claim` to `dest`, restamped with the
    /// current block. Refused when the byte string is over the configured
    /// length, unclaimed, or not the caller's; on failure nothing changes.
    /// No event is emitted.
    pub fn transfer_claim(
        &mut self,
        sender: AccountId,
        claim: Vec<u8>,
        dest: AccountId,
        current_block: BlockNumber,
    ) -> (r: Result<(), Error>)
        requires
            old(self).wf(),
        ensures
            final(self).wf(),
            final(self).config == old(self).config,
            final(self).events == old(self).events,
            r is Err <==> old(self).transfer_claim_err(sender, claim@) is Some,
            r is Err ==> *final(self) == *old(self) && r == Err::<(), Error>(
                old(self).transfer_claim_err(sender, claim@)->0,
            ),
            r is Ok ==> claim_of(final(self).proofs@, claim@) == Some((dest, current_block)),
            r is Ok ==> forall|key: Seq<u8>|
                #![trigger claim_of(final(self).proofs@, key)]
                key != claim@ ==> claim_of(final(self).proofs@, key) == claim_of(
                    old(self).proofs@,
                    key,
                ),
    {
        if claim.len() > self.config.asset_deposit_base {
            return Err(Error::ClaimTooLong);
        }
        let i: usize = match self.find_claim(&claim) {
            Some(i) => i,
            None => {
                proof {
                    lemma_claim_absent(self.proofs@, claim@);
                }
                return Err(Error::NoSuchProof);
            },
        };
        proof {
            lemma_claim_found(self.proofs@, i as int);
        }
        let owner: AccountId = self.proofs[i].1.0;
        if owner != sender {
            return Err(Error::NotProofOwner);
        }
        self.proofs[i] = (claim, (dest, current_block));
        proof {
            let s = old(self).proofs@;
            let t = self.proofs@;
            assert forall|p: int, q: int| #![trigger t[p], t[q]] 0 <= p < q < t.len() implies t[p].0@
                != t[q].0@ by {
                assert(s[p].0@ != s[q].0@);
            }
            lemma_claim_found(t, i as int);
            assert forall|key: Seq<u8>| #![trigger claim_of(t, key)] key != claim@ implies claim_of(
                t,
                key,
            ) == claim_of(s, key) by {
                lemma_claim_frame_after_update(s, t, i as int, key);
            }
        }
        Ok(())
    }
}

/// Removing the entry at `i` leaves every other key's claim as it was.
proof fn lemma_claim_frame_after_removal(
    s: Seq<(Vec<u8>, (AccountId, BlockNumber))>,
    t: Seq<(Vec<u8>, (AccountId, BlockNumber))>,
    i: int,
    key: Seq<u8>,
)
    requires
        unique_keys(s),
        unique_keys(t),
        0 <= i < s.len(),
        t == s.remove(i),
        key != s[i].0@,
    ensures
        claim_of(t, key) == claim_of(s, key),
{
    s.remove_ensures(i);
    if claim_of(s, key) is Some {
        lemma_claim_witness(s, key);
        let j = choose|j: int|
            0 <= j < s.len() && (#[trigger] s[j]).0@ == key && s[j].1 == claim_of(s, key)->0;
        let j2: int = if j < i {
            j
        } else {
            j - 1
        };
        assert(t[j2] == s[j]);
        lemma_claim_found(t, j2);
    } else {
        if claim_of(t, key) is Some {
            lemma_claim_witness(t, key);
            let j = choose|j: int|
                0 <= j < t.len() && (#[trigger] t[j]).0@ == key && t[j].1 == claim_of(t, key)->0;
            let j2: int = if j < i {
                j
            } else {
                j + 1
            };
            assert(s[j2] == t[j]);
            lemma_claim_found(s, j2);
        }
    }
}

/// Overwriting the entry at `i` in place leaves every other key's claim as
/// it was.
proof fn lemma_claim_frame_after_update(
    s: Seq<(Vec<u8>, (AccountId, BlockNumber))>,
    t: Seq<(Vec<u8>, (AccountId, BlockNumber))>,
    i: int,
    key: Seq<u8>,
)
    requires
        unique_keys(s),
        unique_keys(t),
        0 <= i < s.len(),
        t.len() == s.len(),
        forall|j: int| 0 <= j < s.len() && j != i ==> #[trigger] t[j] == s[j],
        t[i].0@ == s[i].0@,
        key != s[i].0@,
    ensures
        claim_of(t, key) == claim_of(s, key),
{
    if claim_of(s, key) is Some {
        lemma_claim_witness(s, key);
        let j = choose|j: int|
            0 <= j < s.len() && (#[trigger] s[j]).0@ == key && s[j].1 == claim_of(s, key)->0;
        assert(t[j] == s[j]);
        lemma_claim_found(t, j);
    } else {
        if claim_of(t, key) is Some {
            lemma_claim_witness(t, key);
            let j = choose|j: int|
                0 <= j < t.len() && (#[trigger] t[j]).0@ == key && t[j].1 == claim_of(t, key)->0;
            assert(s[j] == t[j]);
            lemma_claim_found(s, j);
        }
    }
}

/// Copy of a byte string.
fn clone_bytes(a: &Vec<u8>) -> (r: Vec<u8>)
    ensures
        r@ == a@,
{
    let mut r: Vec<u8> = Vec::new();
    let mut i: usize = 0;
    while i < a.len()
        invariant
            0 <= i <= a.len(),
            r@ == a@.subrange(0, i as int),
        decreases a.len() - i,
    {
        r.push(a[i]);
        proof {
            assert(r@ =~= a@.subrange(0, i + 1));
        }
        i = i + 1;
    }
    proof {
        assert(r@ =~= a@);
    }
    r
}

} // verus!
