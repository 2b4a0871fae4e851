use vstd::prelude::*;
use std::collections::HashMap;
use crate::{AccountId, Balance, KittyIndex};
use crate::genome::Dna;

verus! {

broadcast use vstd::std_specs::hash::group_hash_axioms;

/// A creature: its genome, fixed at mint, and its current owner. The owner
/// recorded here must always agree with the owner map; the store itself does
/// not enforce that, the marketplace does.
#[derive(Clone, Copy, Debug, PartialEq, Eq)]
pub struct Kitty {
    pub dna: Dna,
    pub owner: AccountId,
}

/// The persisted state of the marketplace: creature-by-id, owner-by-id and
/// sale-listing-by-id, plus the global counter (the last allocated id, unset
/// until the first mint).
///
/// A listing entry holding `None` is a delisted creature: distinct from an
/// absent entry, but equally not purchasable.
///
/// The store performs no validation of its own; every invariant is the
/// marketplace's to enforce.
pub struct Store {
    pub kitties: HashMap<KittyIndex, Kitty>,
    pub owners: HashMap<KittyIndex, AccountId>,
    pub listings: HashMap<KittyIndex, Option<Balance>>,
    pub count: Option<KittyIndex>,
}

impl Store {
    /// An empty store: no creatures, no owners, no listings, counter unset.
    pub fn new() -> (s: Store)
        ensures
            s.kitties@ == Map::<KittyIndex, Kitty>::empty(),
            s.owners@ == Map::<KittyIndex, AccountId>::empty(),
            s.listings@ == Map::<KittyIndex, Option<Balance>>::empty(),
            s.count == None::<KittyIndex>,
    {
        Store {
            kitties: HashMap::new(),
            owners: HashMap::new(),
            listings: HashMap::new(),
            count: None,
        }
    }

    /// Read a creature record; `None` means the creature does not exist.
    pub fn get_creature(&self, id: KittyIndex) -> (r: Option<&Kitty>)
        ensures
            match r {
                Some(k) => self.kitties@.contains_key(id) && *k == self.kitties@[id],
                None => !self.kitties@.contains_key(id),
            },
    {
        self.kitties.get(&id)
    }

    /// Read the recorded owner of a creature.
    pub fn get_owner(&self, id: KittyIndex) -> (r: Option<AccountId>)
        ensures
            match r {
                Some(a) => self.owners@.contains_key(id) && a == self.owners@[id],
                None => !self.owners@.contains_key(id),
            },
    {
        match self.owners.get(&id) {
            Some(a) => Some(*a),
            None => None,
        }
    }

    /// Read the sale listing of a creature. `Some(None)` is a delisted entry;
    /// `None` means no entry was ever written.
    pub fn get_listing(&self, id: KittyIndex) -> (r: Option<Option<Balance>>)
        ensures
            match r {
                Some(p) => self.listings@.contains_key(id) && p == self.listings@[id],
                None => !self.listings@.contains_key(id),
            },
    {
        match self.listings.get(&id) {
            Some(p) => Some(*p),
            None => None,
        }
    }

    /// Write (insert or overwrite) a creature record.
    pub fn put_creature(&mut self, id: KittyIndex, kitty: Kitty)
        ensures
            final(self).kitties@ == old(self).kitties@.insert(id, kitty),
            final(self).owners == old(self).owners,
            final(self).listings == old(self).listings,
            final(self).count == old(self).count,
    {
        self.kitties.insert(id, kitty);
    }

    /// Write (insert or overwrite) the owner of a creature.
    pub fn put_owner(&mut self, id: KittyIndex, owner: AccountId)
        ensures
            final(self).owners@ == old(self).owners@.insert(id, owner),
            final(self).kitties == old(self).kitties,
            final(self).listings == old(self).listings,
            final(self).count == old(self).count,
    {
        self.owners.insert(id, owner);
    }

    /// Write a listing entry; `None` delists without erasing the entry.
    pub fn put_listing(&mut self, id: KittyIndex, price: Option<Balance>)
        ensures
            final(self).listings@ == old(self).listings@.insert(id, price),
            final(self).kitties == old(self).kitties,
            final(self).owners == old(self).owners,
            final(self).count == old(self).count,
    {
        self.listings.insert(id, price);
    }

    /// Erase the listing entry of a creature altogether.
    pub fn remove_listing(&mut self, id: KittyIndex)
        ensures
            final(self).listings@ == old(self).listings@.remove(id),
            final(self).kitties == old(self).kitties,
            final(self).owners == old(self).owners,
            final(self).count == old(self).count,
    {
        self.listings.remove(&id);
    }

    /// The last allocated creature id, or `None` before the first mint.
    pub fn get_count(&self) -> (r: Option<KittyIndex>)
        ensures
            r == self.count,
    {
        self.count
    }

    /// Set the counter to the given id.
    pub fn set_count(&mut self, id: KittyIndex)
        ensures
            final(self).count == Some(id),
            final(self).kitties == old(self).kitties,
            final(self).owners == old(self).owners,
            final(self).listings == old(self).listings,
    {
        self.count = Some(id);
    }
}

} // verus!
