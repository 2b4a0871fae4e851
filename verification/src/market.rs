use vstd::prelude::*;
use crate::{AccountId, Balance, KittyIndex};
use crate::genome::{combine, combine_byte, random_dna, random_value, Dna};
use crate::ledger::{free_of, min_bal, reserved_of, Ledger};
use crate::store::{Kitty, Store};

verus! {

broadcast use vstd::set::group_set_axioms, vstd::std_specs::hash::group_hash_axioms;

/// The marketplace's configuration: the fixed amount of currency reserved
/// against an account for each creature it owns.
#[derive(Clone, Copy, Debug, PartialEq, Eq)]
pub struct Config {
    pub stake_amount_for_kitty: Balance,
}

/// Why an operation was refused. Every failure is a precondition failure:
/// resubmitting the same call without changing the state or the input fails
/// the same way.
#[derive(Clone, Copy, Debug, PartialEq, Eq)]
pub enum Error {
    /// The id space is exhausted: the counter already holds the maximum id.
    CountOverflow,
    /// The referenced creature does not exist.
    NotFound,
    /// The caller does not own the creature the operation needs.
    NotOwner,
    /// The buyer already owns the creature.
    AlreadyOwner,
    /// Breeding was attempted with one creature as both parents.
    SameParent,
    /// The creature has no active sale price.
    NotListed,
    /// The buyer's free balance does not exceed price plus stake.
    InsufficientBalance,
    /// The stake reservation failed for the account receiving a creature.
    InsufficientStakeBalance,
}

/// The events an operation appends to the host's log.
#[derive(Clone, Debug, PartialEq, Eq)]
pub enum Event {
    Created(AccountId, KittyIndex),
    OnSales(AccountId, KittyIndex, Option<Balance>),
    Transferred(AccountId, AccountId, KittyIndex),
    Bought(AccountId, AccountId, KittyIndex, Option<Balance>),
}

/// The id handed out after `count`: 1 at the start, else the successor.
pub open spec fn spec_next_id(count: Option<KittyIndex>) -> KittyIndex {
    match count {
        None => 1u32,
        Some(c) => (c + 1) as KittyIndex,
    }
}

/// Identifier allocation, shared by every minting path so overflow behaves
/// uniformly: the first id is 1, afterwards the successor of the counter;
/// refused exactly when the counter already sits at the maximum
/// representable id.
pub fn next_id(current: Option<KittyIndex>) -> (r: Result<KittyIndex, Error>)
    ensures
        r is Err <==> current == Some(KittyIndex::MAX),
        r is Err ==> r == Err::<KittyIndex, Error>(Error::CountOverflow),
        r is Ok ==> r == Ok::<KittyIndex, Error>(spec_next_id(current)),
{
    match current {
        Some(id) => {
            if id == KittyIndex::MAX {
                Err(Error::CountOverflow)
            } else {
                Ok(id + 1)
            }
        },
        None => Ok(1),
    }
}

/// The successful-mint transition: `post` is `pre` with the fresh creature
/// `id` added for `owner` with genome `dna`, the counter advanced to `id`,
/// and the stake moved from `owner`'s free balance to its reserve. Listings,
/// the configuration and every other account are untouched.
pub open spec fn minted(
    pre: Pallet,
    post: Pallet,
    owner: AccountId,
    id: KittyIndex,
    dna: Seq<u8>,
) -> bool {
    &&& id == spec_next_id(pre.store.count)
    &&& !pre.kitty_exists(id)
    &&& post.store.count == Some(id)
    &&& post.count_val() == pre.count_val() + 1
    &&& post.store.kitties@ == pre.store.kitties@.insert(id, post.store.kitties@[id])
    &&& post.owner_of(id) == owner
    &&& post.store.kitties@[id].dna@ == dna
    &&& post.store.owners@ == pre.store.owners@.insert(id, owner)
    &&& post.store.listings == pre.store.listings
    &&& post.free(owner) == pre.free(owner) - pre.stake()
    &&& post.reserved(owner) == pre.reserved(owner) + pre.stake()
    &&& forall|a: AccountId| a != owner ==> #[trigger] free_of(post.ledger.accounts@, a)
        == free_of(pre.ledger.accounts@, a) && reserved_of(post.ledger.accounts@, a)
        == reserved_of(pre.ledger.accounts@, a)
    &&& post.config == pre.config
}

/// The ownership-swap transition shared by `transfer` and `buy`: the
/// creature's record and its owner entry now name `to`, a stake is reserved
/// against `to`, and as much of one stake as the old owner actually had
/// reserved is released to its free balance. The genome, the listings, the
/// counter and every other account are untouched. A swap to the current
/// owner leaves the ledger as it was.
pub open spec fn ownership_swapped(
    pre: Pallet,
    post: Pallet,
    id: KittyIndex,
    to: AccountId,
) -> bool {
    let from = pre.owner_of(id);
    let stake = pre.stake();
    &&& pre.kitty_exists(id)
    &&& post.store.kitties@ == pre.store.kitties@.insert(id, post.store.kitties@[id])
    &&& post.owner_of(id) == to
    &&& post.store.kitties@[id].dna == pre.store.kitties@[id].dna
    &&& post.store.owners@ == pre.store.owners@.insert(id, to)
    &&& post.store.listings == pre.store.listings
    &&& post.store.count == pre.store.count
    &&& post.config == pre.config
    &&& if to == from {
        forall|a: AccountId| #[trigger] free_of(post.ledger.accounts@, a) == free_of(
            pre.ledger.accounts@,
            a,
        ) && reserved_of(post.ledger.accounts@, a) == reserved_of(pre.ledger.accounts@, a)
    } else {
        &&& post.free(to) == pre.free(to) - stake
        &&& post.reserved(to) == pre.reserved(to) + stake
        &&& post.free(from) == pre.free(from) + min_bal(stake, pre.reserved(from))
        &&& post.reserved(from) == pre.reserved(from) - min_bal(stake, pre.reserved(from))
        &&& forall|a: AccountId| a != to && a != from ==> #[trigger] free_of(
            post.ledger.accounts@,
            a,
        ) == free_of(pre.ledger.accounts@, a) && reserved_of(post.ledger.accounts@, a)
            == reserved_of(pre.ledger.accounts@, a)
    }
}

/// The successful-purchase transition: the buyer paid the listed price to
/// the seller, ownership and stake swapped to the buyer, and the listing
/// entry was removed in the same step.
pub open spec fn bought(pre: Pallet, post: Pallet, buyer: AccountId, id: KittyIndex) -> bool {
    let seller = pre.owner_of(id);
    let price = pre.active_price(id)->0;
    let stake = pre.stake();
    &&& pre.kitty_exists(id)
    &&& pre.active_price(id) is Some
    &&& seller != buyer
    &&& post.store.kitties@ == pre.store.kitties@.insert(id, post.store.kitties@[id])
    &&& post.owner_of(id) == buyer
    &&& post.store.kitties@[id].dna == pre.store.kitties@[id].dna
    &&& post.store.owners@ == pre.store.owners@.insert(id, buyer)
    &&& post.store.listings@ == pre.store.listings@.remove(id)
    &&& post.store.count == pre.store.count
    &&& post.config == pre.config
    &&& post.free(buyer) == pre.free(buyer) - price - stake
    &&& post.reserved(buyer) == pre.reserved(buyer) + stake
    &&& post.free(seller) == pre.free(seller) + price + min_bal(stake, pre.reserved(seller))
    &&& post.reserved(seller) == pre.reserved(seller) - min_bal(stake, pre.reserved(seller))
    &&& forall|a: AccountId| a != buyer && a != seller ==> #[trigger] free_of(
        post.ledger.accounts@,
        a,
    ) == free_of(pre.ledger.accounts@, a) && reserved_of(post.ledger.accounts@, a)
        == reserved_of(pre.ledger.accounts@, a)
}

/// The genome a breeding by `caller` mints: each bit of the child comes from
/// the father's genome where the selector bit is 1, else from the mother's;
/// the selector is the genome derived from the beacon seed and the nonce.
pub open spec fn child_dna(
    pre: Pallet,
    caller: AccountId,
    father: KittyIndex,
    mother: KittyIndex,
    seed: Seq<u8>,
    nonce: u32,
) -> Seq<u8> {
    let sel = random_dna(seed, caller, nonce);
    Seq::new(
        16,
        |i: int|
            combine_byte(
                sel[i],
                pre.store.kitties@[father].dna@[i],
                pre.store.kitties@[mother].dna@[i],
            ),
    )
}

/// The marketplace state machine: the creature store, the currency ledger it
/// stakes and pays through, its configuration, and the log of emitted
/// events. Each operation either commits all its effects or leaves the whole
/// state untouched and returns the error.
pub struct Pallet {
    pub config: Config,
    pub store: Store,
    pub ledger: Ledger,
    pub events: Vec<Event>,
}

impl Pallet {
    /// The creature exists.
    pub open spec fn kitty_exists(self, id: KittyIndex) -> bool {
        self.store.kitties@.contains_key(id)
    }

    /// The owner recorded in the creature record.
    pub open spec fn owner_of(self, id: KittyIndex) -> AccountId {
        self.store.kitties@[id].owner
    }

    /// The price a purchase would pay: a listing entry holding `None`, like
    /// an absent entry, offers nothing.
    pub open spec fn active_price(self, id: KittyIndex) -> Option<Balance> {
        if self.store.listings@.contains_key(id) {
            self.store.listings@[id]
        } else {
            None
        }
    }

    /// The free balance of an account.
    pub open spec fn free(self, a: AccountId) -> Balance {
        free_of(self.ledger.accounts@, a)
    }

    /// The reserved balance of an account.
    pub open spec fn reserved(self, a: AccountId) -> Balance {
        reserved_of(self.ledger.accounts@, a)
    }

    /// The configured stake amount.
    pub open spec fn stake(self) -> Balance {
        self.config.stake_amount_for_kitty
    }

    /// The counter read as a number, an unset counter as 0.
    pub open spec fn count_val(self) -> int {
        match self.store.count {
            None => 0,
            Some(c) => c as int,
        }
    }

    /// Consistency of the whole state:
    /// - the owner map and the owner fields of the creature records agree,
    ///   entry for entry;
    /// - a listing entry exists only for an existing creature;
    /// - every creature id lies between 1 and the counter;
    /// - the ledger is well formed.
    pub open spec fn wf(self) -> bool {
        &&& self.ledger.wf()
        &&& forall|id: KittyIndex| #[trigger] self.store.owners@.contains_key(id)
            ==> self.store.kitties@.contains_key(id)
        &&& forall|id: KittyIndex| #[trigger] self.store.kitties@.contains_key(id)
            ==> self.store.owners@.contains_key(id) && self.store.owners@[id]
            == self.store.kitties@[id].owner
        &&& forall|id: KittyIndex| #[trigger] self.store.listings@.contains_key(id)
            ==> self.store.kitties@.contains_key(id)
        &&& forall|id: KittyIndex| #[trigger] self.store.kitties@.contains_key(id) ==> 1 <= id
            && id as int <= self.count_val()
    }

    /// A fresh marketplace over an empty store and an empty ledger.
    pub fn new(config: Config) -> (p: Pallet)
        ensures
            p.wf(),
            p.config == config,
            p.store.kitties@ == Map::<KittyIndex, Kitty>::empty(),
            p.store.owners@ == Map::<KittyIndex, AccountId>::empty(),
            p.store.listings@ == Map::<KittyIndex, Option<Balance>>::empty(),
            p.store.count == None::<KittyIndex>,
            forall|a: AccountId| #[trigger] p.free(a) == 0 && p.reserved(a) == 0,
            p.events@ == Seq::<Event>::empty(),
    {
        Pallet { config, store: Store::new(), ledger: Ledger::new(), events: Vec::new() }
    }

    /// Whether `account_id` owns the creature; an absent creature is an
    /// error, not `false`.
    fn is_kitty_owner(&self, kitty_id: KittyIndex, account_id: AccountId) -> (r: Result<
        bool,
        Error,
    >)
        ensures
            match r {
                Ok(b) => self.kitty_exists(kitty_id) && b == (self.owner_of(kitty_id)
                    == account_id),
                Err(e) => e == Error::NotFound && !self.kitty_exists(kitty_id),
            },
    {
        match self.store.get_creature(kitty_id) {
            Some(kitty) => Ok(kitty.owner == account_id),
            None => Err(Error::NotFound),
        }
    }

    /// Why a mint for `owner` would fail, `None` if it would succeed.
    pub open spec fn mint_err(self, owner: AccountId) -> Option<Error> {
        if self.store.count == Some(KittyIndex::MAX) {
            Some(Error::CountOverflow)
        } else if self.free(owner) < self.stake() {
            Some(Error::InsufficientStakeBalance)
        } else {
            None
        }
    }

    /// Mint a creature for `owner`: with the given genome, or, without one,
    /// with a genome derived from the beacon seed and the nonce. Allocates
    /// the next id, reserves the stake, and writes the creature, its owner
    /// and the counter; on failure nothing changes. Emits no event of its
    /// own.
    pub fn mint(
        &mut self,
        owner: AccountId,
        dna: Option<Dna>,
        seed: &[u8; 32],
        nonce: u32,
    ) -> (r: Result<KittyIndex, Error>)
        requires
            old(self).wf(),
        ensures
            final(self).wf(),
            final(self).events == old(self).events,
            r is Err <==> old(self).mint_err(owner) is Some,
            r is Err ==> *final(self) == *old(self) && r == Err::<KittyIndex, Error>(
                old(self).mint_err(owner)->0,
            ),
            r is Ok ==> minted(
                *old(self),
                *final(self),
                owner,
                r->Ok_0,
                match dna {
                    Some(d) => d@,
                    None => random_dna(seed@, owner, nonce),
                },
            ),
    {
        let dna_inner: Dna = match dna {
            Some(v) => v,
            None => random_value(seed, owner, nonce),
        };
        let kitty = Kitty { dna: dna_inner, owner: owner };
        let kitty_id: KittyIndex = match next_id(self.store.get_count()) {
            Ok(id) => id,
            Err(e) => {
                return Err(e);
            },
        };
        let stake: Balance = self.config.stake_amount_for_kitty;
        match self.ledger.reserve(owner, stake) {
            Ok(u) => u,
            Err(_) => {
                return Err(Error::InsufficientStakeBalance);
            },
        };
        self.store.put_creature(kitty_id, kitty);
        self.store.put_owner(kitty_id, owner);
        self.store.set_count(kitty_id);
        Ok(kitty_id)
    }

    /// Mint a creature for `caller` with a genome derived from the beacon
    /// seed and the per-transaction nonce, and emit `Created`. On failure
    /// nothing changes: no id is consumed, no stake moves, no event is
    /// emitted.
    pub fn create(&mut self, caller: AccountId, seed: &[u8; 32], nonce: u32) -> (r: Result<
        KittyIndex,
        Error,
    >)
        requires
            old(self).wf(),
        ensures
            final(self).wf(),
            r is Err <==> old(self).mint_err(caller) is Some,
            r is Err ==> *final(self) == *old(self) && r == Err::<KittyIndex, Error>(
                old(self).mint_err(caller)->0,
            ),
            r is Ok ==> minted(
                *old(self),
                *final(self),
                caller,
                r->Ok_0,
                random_dna(seed@, caller, nonce),
            ),
            r is Ok ==> final(self).events@ == old(self).events@.push(
                Event::Created(caller, r->Ok_0),
            ),
    {
        let kitty_id: KittyIndex = match self.mint(caller, None, seed, nonce) {
            Ok(id) => id,
            Err(e) => {
                return Err(e);
            },
        };
        self.events.push(Event::Created(caller, kitty_id));
        Ok(kitty_id)
    }

    /// Why an ownership swap of `id` to `to` would fail, `None` if it would
    /// succeed.
    pub open spec fn swap_err(self, id: KittyIndex, to: AccountId) -> Option<Error> {
        if !self.kitty_exists(id) {
            Some(Error::NotFound)
        } else if self.free(to) < self.stake() {
            Some(Error::InsufficientStakeBalance)
        } else {
            None
        }
    }

    /// Hand the creature to `to`, whoever asked: reserve the stake against
    /// `to`, release the old owner's stake best-effort, and rewrite the
    /// creature record and the owner entry. On failure nothing changes.
    pub fn transfer_kitty_to(&mut self, kitty_id: KittyIndex, to: AccountId) -> (r: Result<
        (),
        Error,
    >)
        requires
            old(self).wf(),
        ensures
            final(self).wf(),
            final(self).events == old(self).events,
            r is Err <==> old(self).swap_err(kitty_id, to) is Some,
            r is Err ==> *final(self) == *old(self) && r == Err::<(), Error>(
                old(self).swap_err(kitty_id, to)->0,
            ),
            r is Ok ==> ownership_swapped(*old(self), *final(self), kitty_id, to),
    {
        let kitty: Kitty = match self.store.get_creature(kitty_id) {
            Some(k) => *k,
            None => {
                return Err(Error::NotFound);
            },
        };
        let stake: Balance = self.config.stake_amount_for_kitty;
        match self.ledger.reserve(to, stake) {
            Ok(u) => u,
            Err(_) => {
                return Err(Error::InsufficientStakeBalance);
            },
        };
        self.ledger.unreserve(kitty.owner, stake);
        self.store.put_creature(kitty_id, Kitty { dna: kitty.dna, owner: to });
        self.store.put_owner(kitty_id, to);
        Ok(())
    }

    /// Why a transfer by `caller` would fail, `None` if it would succeed.
    pub open spec fn transfer_err(self, caller: AccountId, to: AccountId, id: KittyIndex) -> Option<
        Error,
    > {
        if !self.kitty_exists(id) {
            Some(Error::NotFound)
        } else if self.owner_of(id) != caller {
            Some(Error::NotOwner)
        } else if self.free(to) < self.stake() {
            Some(Error::InsufficientStakeBalance)
        } else {
            None
        }
    }

    /// Move a creature the caller owns to `to`, swapping the stake with it,
    /// and emit `Transferred`. On failure nothing changes.
    pub fn transfer(&mut self, caller: AccountId, to: AccountId, kitty_id: KittyIndex) -> (r:
        Result<(), Error>)
        requires
            old(self).wf(),
        ensures
            final(self).wf(),
            r is Err <==> old(self).transfer_err(caller, to, kitty_id) is Some,
            r is Err ==> *final(self) == *old(self) && r == Err::<(), Error>(
                old(self).transfer_err(caller, to, kitty_id)->0,
            ),
            r is Ok ==> ownership_swapped(*old(self), *final(self), kitty_id, to),
            r is Ok ==> final(self).events@ == old(self).events@.push(
                Event::Transferred(caller, to, kitty_id),
            ),
    {
        let owns: bool = match self.is_kitty_owner(kitty_id, caller) {
            Ok(b) => b,
            Err(e) => {
                return Err(e);
            },
        };
        if !owns {
            return Err(Error::NotOwner);
        }
        match self.transfer_kitty_to(kitty_id, to) {
            Ok(u) => u,
            Err(e) => {
                return Err(e);
            },
        };
        self.events.push(Event::Transferred(caller, to, kitty_id));
        Ok(())
    }

    /// Why a listing by `caller` would fail, `None` if it would succeed.
    pub open spec fn sale_err(self, caller: AccountId, id: KittyIndex) -> Option<Error> {
        if !self.kitty_exists(id) {
            Some(Error::NotFound)
        } else if self.owner_of(id) != caller {
            Some(Error::NotOwner)
        } else {
            None
        }
    }

    /// List a creature the caller owns at `price`, or delist it with a
    /// `None` price, and emit `OnSales`. Only the listing entry and the
    /// event log change; on failure nothing does.
    pub fn sale(&mut self, caller: AccountId, kitty_id: KittyIndex, price: Option<Balance>) -> (r:
        Result<(), Error>)
        requires
            old(self).wf(),
        ensures
            final(self).wf(),
            r is Err <==> old(self).sale_err(caller, kitty_id) is Some,
            r is Err ==> *final(self) == *old(self) && r == Err::<(), Error>(
                old(self).sale_err(caller, kitty_id)->0,
            ),
            r is Ok ==> final(self).store.listings@ == old(self).store.listings@.insert(
                kitty_id,
                price,
            ),
            r is Ok ==> final(self).store.kitties == old(self).store.kitties
                && final(self).store.owners == old(self).store.owners
                && final(self).store.count == old(self).store.count
                && final(self).ledger == old(self).ledger
                && final(self).config == old(self).config,
            r is Ok ==> final(self).events@ == old(self).events@.push(
                Event::OnSales(caller, kitty_id, price),
            ),
    {
        let owns: bool = match self.is_kitty_owner(kitty_id, caller) {
            Ok(b) => b,
            Err(e) => {
                return Err(e);
            },
        };
        if !owns {
            return Err(Error::NotOwner);
        }
        self.store.put_listing(kitty_id, price);
        self.events.push(Event::OnSales(caller, kitty_id, price));
        Ok(())
    }

    /// Why deriving a child genome for `who` would fail, `None` if it would
    /// succeed: one creature as both parents, a missing parent, or a parent
    /// the caller does not own.
    pub open spec fn breed_dna_err(self, who: AccountId, father: KittyIndex, mother: KittyIndex) -> Option<
        Error,
    > {
        if father == mother {
            Some(Error::SameParent)
        } else if !self.kitty_exists(father) || !self.kitty_exists(mother) {
            Some(Error::NotFound)
        } else if self.owner_of(father) != who || self.owner_of(mother) != who {
            Some(Error::NotOwner)
        } else {
            None
        }
    }

    /// Derive the child genome of two distinct parents the caller owns, with
    /// a fresh selector from the beacon seed and the nonce.
    fn breed_dna(
        &self,
        who: AccountId,
        father_kitty_id: KittyIndex,
        mother_kitty_id: KittyIndex,
        seed: &[u8; 32],
        nonce: u32,
    ) -> (r: Result<Dna, Error>)
        ensures
            r is Err <==> self.breed_dna_err(who, father_kitty_id, mother_kitty_id) is Some,
            r is Err ==> r == Err::<Dna, Error>(
                self.breed_dna_err(who, father_kitty_id, mother_kitty_id)->0,
            ),
            r is Ok ==> r->Ok_0@ == child_dna(
                *self,
                who,
                father_kitty_id,
                mother_kitty_id,
                seed@,
                nonce,
            ),
    {
        if father_kitty_id == mother_kitty_id {
            return Err(Error::SameParent);
        }
        let father: Kitty = match self.store.get_creature(father_kitty_id) {
            Some(k) => *k,
            None => {
                return Err(Error::NotFound);
            },
        };
        let mother: Kitty = match self.store.get_creature(mother_kitty_id) {
            Some(k) => *k,
            None => {
                return Err(Error::NotFound);
            },
        };
        if father.owner != who || mother.owner != who {
            return Err(Error::NotOwner);
        }
        let selector: Dna = random_value(seed, who, nonce);
        let new_dna: Dna = combine(&father.dna, &mother.dna, &selector);
        proof {
            assert(new_dna@ =~= child_dna(
                *self,
                who,
                father_kitty_id,
                mother_kitty_id,
                seed@,
                nonce,
            ));
        }
        Ok(new_dna)
    }

    /// Why a breeding by `caller` would fail, `None` if it would succeed:
    /// first the parent checks, then the minting checks.
    pub open spec fn breed_err(self, caller: AccountId, father: KittyIndex, mother: KittyIndex) -> Option<
        Error,
    > {
        match self.breed_dna_err(caller, father, mother) {
            Some(e) => Some(e),
            None => self.mint_err(caller),
        }
    }

    /// Breed a new creature from two distinct parents the caller owns: its
    /// genome combines the parents' under a fresh selector, and the minting
    /// tail is exactly `create`'s — same id allocation, same stake, same
    /// `Created` event. On failure nothing changes and no id is consumed.
    pub fn breed(
        &mut self,
        caller: AccountId,
        father_kitty_id: KittyIndex,
        mother_kitty_id: KittyIndex,
        seed: &[u8; 32],
        nonce: u32,
    ) -> (r: Result<KittyIndex, Error>)
        requires
            old(self).wf(),
        ensures
            final(self).wf(),
            r is Err <==> old(self).breed_err(caller, father_kitty_id, mother_kitty_id) is Some,
            r is Err ==> *final(self) == *old(self) && r == Err::<KittyIndex, Error>(
                old(self).breed_err(caller, father_kitty_id, mother_kitty_id)->0,
            ),
            r is Ok ==> minted(
                *old(self),
                *final(self),
                caller,
                r->Ok_0,
                child_dna(*old(self), caller, father_kitty_id, mother_kitty_id, seed@, nonce),
            ),
            r is Ok ==> final(self).events@ == old(self).events@.push(
                Event::Created(caller, r->Ok_0),
            ),
    {
        let new_dna: Dna = match self.breed_dna(
            caller,
            father_kitty_id,
            mother_kitty_id,
            seed,
            nonce,
        ) {
            Ok(d) => d,
            Err(e) => {
                return Err(e);
            },
        };
        let kitty_id: KittyIndex = match self.mint(caller, Some(new_dna), seed, nonce) {
            Ok(id) => id,
            Err(e) => {
                return Err(e);
            },
        };
        self.events.push(Event::Created(caller, kitty_id));
        Ok(kitty_id)
    }

    /// Why a purchase by `caller` would fail, `None` if it would succeed.
    /// The balance check asks for strictly more than price plus stake,
    /// whatever the caller's balance otherwise.
    pub open spec fn buy_err(self, caller: AccountId, id: KittyIndex) -> Option<Error> {
        if !self.kitty_exists(id) {
            Some(Error::NotFound)
        } else if self.owner_of(id) == caller {
            Some(Error::AlreadyOwner)
        } else if !(self.active_price(id) is Some) {
            Some(Error::NotListed)
        } else if self.free(caller) <= self.active_price(id)->0 + self.stake() {
            Some(Error::InsufficientBalance)
        } else {
            None
        }
    }

    /// Buy a listed creature from its owner: pay the listed price out of
    /// free balance, swap ownership and stake to the buyer, remove the
    /// listing, and emit `Bought` — one atomic step; on failure nothing
    /// changes. The machine-limit precondition asks that the seller's
    /// account can hold the payment within the balance type.
    pub fn buy(&mut self, caller: AccountId, kitty_id: KittyIndex) -> (r: Result<(), Error>)
        requires
            old(self).wf(),
            old(self).kitty_exists(kitty_id) && old(self).active_price(kitty_id) is Some ==> old(
                self,
            ).free(old(self).owner_of(kitty_id)) + old(self).reserved(old(self).owner_of(kitty_id))
                + old(self).active_price(kitty_id)->0 <= Balance::MAX,
        ensures
            final(self).wf(),
            r is Err <==> old(self).buy_err(caller, kitty_id) is Some,
            r is Err ==> *final(self) == *old(self) && r == Err::<(), Error>(
                old(self).buy_err(caller, kitty_id)->0,
            ),
            r is Ok ==> bought(*old(self), *final(self), caller, kitty_id),
            r is Ok ==> final(self).events@ == old(self).events@.push(
                Event::Bought(
                    caller,
                    old(self).owner_of(kitty_id),
                    kitty_id,
                    old(self).active_price(kitty_id),
                ),
            ),
    {
        let kitty: Kitty = match self.store.get_creature(kitty_id) {
            Some(k) => *k,
            None => {
                return Err(Error::NotFound);
            },
        };
        if kitty.owner == caller {
            return Err(Error::AlreadyOwner);
        }
        let ask_price: Balance = match self.store.get_listing(kitty_id) {
            Some(Some(p)) => p,
            _ => {
                return Err(Error::NotListed);
            },
        };
        let stake: Balance = self.config.stake_amount_for_kitty;
        let free_balance: Balance = self.ledger.free_balance(caller);
        if (free_balance as u128) <= (ask_price as u128) + (stake as u128) {
            return Err(Error::InsufficientBalance);
        }
        let seller: AccountId = kitty.owner;
        match self.ledger.transfer(caller, seller, ask_price, true) {
            Ok(u) => u,
            Err(_) => {
                return Err(Error::InsufficientBalance);
            },
        };
        match self.transfer_kitty_to(kitty_id, caller) {
            Ok(u) => u,
            Err(_) => {
                return Err(Error::InsufficientStakeBalance);
            },
        };
        self.store.remove_listing(kitty_id);
        self.events.push(Event::Bought(caller, seller, kitty_id, Some(ask_price)));
        Ok(())
    }
}

/// Law: a successful mint — `create`'s or `breed`'s — moves the counter to
/// exactly the new creature's id, one above its old reading.
pub proof fn lemma_mint_advances_counter(
    pre: Pallet,
    post: Pallet,
    owner: AccountId,
    id: KittyIndex,
    dna: Seq<u8>,
)
    requires
        minted(pre, post, owner, id, dna),
    ensures
        post.store.count == Some(id),
        post.count_val() == pre.count_val() + 1,
{
}

/// Law: breeding with one creature as both parents is refused as
/// `SameParent`, whatever the shared id and whatever the rest of the state;
/// `breed`'s contract then leaves the state, the counter included,
/// untouched.
pub proof fn lemma_breed_same_parent(s: Pallet, caller: AccountId, id: KittyIndex)
    ensures
        s.breed_err(caller, id, id) == Some(Error::SameParent),
{
}

/// Law: after a successful ownership swap — a transfer's or a purchase's —
/// the owner map entry and the creature record's owner field agree on the
/// receiver.
pub proof fn lemma_swap_sets_owner(pre: Pallet, post: Pallet, id: KittyIndex, to: AccountId)
    requires
        ownership_swapped(pre, post, id, to),
    ensures
        post.store.owners@.contains_key(id),
        post.store.owners@[id] == to,
        post.store.kitties@[id].owner == to,
{
}

/// Law: after a successful listing of a creature and then a successful
/// purchase of it, the listing entry is gone and both ownership records
/// name the buyer.
pub proof fn lemma_sale_then_buy(
    s0: Pallet,
    s1: Pallet,
    s2: Pallet,
    seller: AccountId,
    buyer: AccountId,
    id: KittyIndex,
    price: Balance,
)
    requires
        s0.sale_err(seller, id) is None,
        s1.store.listings@ == s0.store.listings@.insert(id, Some(price)),
        s1.store.kitties == s0.store.kitties,
        s1.store.owners == s0.store.owners,
        bought(s1, s2, buyer, id),
    ensures
        !s2.store.listings@.contains_key(id),
        s2.owner_of(id) == buyer,
        s2.store.owners@.contains_key(id),
        s2.store.owners@[id] == buyer,
{
}

/// Law: a purchase by the creature's current owner is refused as
/// `AlreadyOwner`, and one of an existing creature without an active price
/// as `NotListed` — in both cases whatever the buyer's balance.
pub proof fn lemma_buy_guards(s: Pallet, caller: AccountId, id: KittyIndex)
    requires
        s.kitty_exists(id),
    ensures
        s.owner_of(id) == caller ==> s.buy_err(caller, id) == Some(Error::AlreadyOwner),
        s.owner_of(id) != caller && !(s.active_price(id) is Some) ==> s.buy_err(caller, id)
            == Some(Error::NotListed),
{
}

} // verus!
