use vstd::prelude::*;
use crate::{AccountId, KittyIndex};
use crate::ledger::{free_of, min_bal, reserved_of};
use crate::market::{bought, minted, ownership_swapped, Pallet};
use crate::store::Kitty;

verus! {

broadcast use vstd::set::group_set_axioms, vstd::std_specs::hash::group_hash_axioms;

/// The creatures `a` owns.
pub open spec fn owned_by(kitties: Map<KittyIndex, Kitty>, a: AccountId) -> Set<KittyIndex> {
    kitties.dom().filter(|id: KittyIndex| kitties[id].owner == a)
}

/// The collateral invariant: against every account sits exactly one stake
/// of reserved currency for each creature it owns, and nothing else.
pub open spec fn collateralized(s: Pallet) -> bool {
    forall|a: AccountId| #[trigger] s.reserved(a) == s.stake() * owned_by(
        s.store.kitties@,
        a,
    ).len()
}

/// Writing a fresh creature record extends its owner's holdings by exactly
/// that creature and nobody else's.
proof fn lemma_owned_by_fresh_insert(
    kitties: Map<KittyIndex, Kitty>,
    id: KittyIndex,
    k: Kitty,
    a: AccountId,
)
    requires
        kitties.dom().finite(),
        !kitties.contains_key(id),
    ensures
        k.owner == a ==> owned_by(kitties.insert(id, k), a) == owned_by(kitties, a).insert(id),
        k.owner != a ==> owned_by(kitties.insert(id, k), a) == owned_by(kitties, a),
        !owned_by(kitties, a).contains(id),
        owned_by(kitties, a).finite(),
{
    assert(owned_by(kitties, a).finite());
    if k.owner == a {
        assert(owned_by(kitties.insert(id, k), a) =~= owned_by(kitties, a).insert(id));
    } else {
        assert(owned_by(kitties.insert(id, k), a) =~= owned_by(kitties, a));
    }
}

/// Rewriting a creature record with a new owner moves exactly that creature
/// between the two accounts' holdings and touches nobody else's.
proof fn lemma_owned_by_owner_change(
    kitties: Map<KittyIndex, Kitty>,
    id: KittyIndex,
    k: Kitty,
    a: AccountId,
)
    requires
        kitties.dom().finite(),
        kitties.contains_key(id),
        k.owner != kitties[id].owner,
    ensures
        a == k.owner ==> owned_by(kitties.insert(id, k), a) == owned_by(kitties, a).insert(id)
            && !owned_by(kitties, a).contains(id),
        a == kitties[id].owner ==> owned_by(kitties.insert(id, k), a) == owned_by(
            kitties,
            a,
        ).remove(id) && owned_by(kitties, a).contains(id),
        a != k.owner && a != kitties[id].owner ==> owned_by(kitties.insert(id, k), a) == owned_by(
            kitties,
            a,
        ),
        owned_by(kitties, a).finite(),
{
    assert(owned_by(kitties, a).finite());
    if a == k.owner {
        assert(owned_by(kitties.insert(id, k), a) =~= owned_by(kitties, a).insert(id));
    } else if a == kitties[id].owner {
        assert(owned_by(kitties.insert(id, k), a) =~= owned_by(kitties, a).remove(id));
    } else {
        assert(owned_by(kitties.insert(id, k), a) =~= owned_by(kitties, a));
    }
}

/// Law: a fresh marketplace is collateralized — nothing is owned and
/// nothing is reserved.
pub proof fn lemma_new_collateralized(p: Pallet)
    requires
        p.store.kitties@ == Map::<KittyIndex, Kitty>::empty(),
        forall|a: AccountId| #[trigger] p.reserved(a) == 0,
    ensures
        collateralized(p),
{
    assert forall|a: AccountId| #[trigger] p.reserved(a) == p.stake() * owned_by(
        p.store.kitties@,
        a,
    ).len() by {
        assert(owned_by(p.store.kitties@, a) =~= Set::<KittyIndex>::empty());
    }
}

/// Law: a successful mint keeps the collateral invariant — the one stake it
/// reserves is exactly the new creature's.
pub proof fn lemma_minted_collateralized(
    pre: Pallet,
    post: Pallet,
    owner: AccountId,
    id: KittyIndex,
    dna: Seq<u8>,
)
    requires
        minted(pre, post, owner, id, dna),
        collateralized(pre),
        post.kitty_exists(id),
    ensures
        collateralized(post),
{
    let k = post.store.kitties@[id];
    assert(post.store.kitties@ == pre.store.kitties@.insert(id, k));
    assert(k.owner == owner);
    assert forall|a: AccountId| a != owner implies #[trigger] post.reserved(a) == pre.reserved(
        a,
    ) by {
        assert(free_of(post.ledger.accounts@, a) == free_of(pre.ledger.accounts@, a)
            && reserved_of(post.ledger.accounts@, a) == reserved_of(pre.ledger.accounts@, a));
    }
    assert forall|a: AccountId| #[trigger] post.reserved(a) == post.stake() * owned_by(
        post.store.kitties@,
        a,
    ).len() by {
        assert(pre.reserved(a) == pre.stake() * owned_by(pre.store.kitties@, a).len());
        lemma_owned_by_fresh_insert(pre.store.kitties@, id, k, a);
        if a == owner {
            let n = owned_by(pre.store.kitties@, a).len();
            assert(post.reserved(a) == pre.stake() * n + pre.stake());
            assert(owned_by(post.store.kitties@, a).len() == n + 1);
            assert(pre.stake() * n + pre.stake() == pre.stake() * (n + 1)) by (nonlinear_arith);
        }
    }
}

/// Law: a successful ownership swap — a transfer's or a purchase's — keeps
/// the collateral invariant: the stake reserved against the new owner is
/// matched, one for one, by the stake released from the old owner, who held
/// exactly one per owned creature before.
pub proof fn lemma_swap_collateralized(pre: Pallet, post: Pallet, id: KittyIndex, to: AccountId)
    requires
        ownership_swapped(pre, post, id, to),
        collateralized(pre),
    ensures
        collateralized(post),
{
    let from = pre.owner_of(id);
    let k = post.store.kitties@[id];
    assert(post.store.kitties@ == pre.store.kitties@.insert(id, k));
    assert(k.owner == to);
    if to == from {
        assert forall|a: AccountId| #[trigger] post.reserved(a) == pre.reserved(a) by {
            assert(free_of(post.ledger.accounts@, a) == free_of(pre.ledger.accounts@, a)
            && reserved_of(post.ledger.accounts@, a) == reserved_of(pre.ledger.accounts@, a));
        }
        assert forall|a: AccountId| #[trigger] post.reserved(a) == post.stake() * owned_by(
            post.store.kitties@,
            a,
        ).len() by {
            assert(pre.reserved(a) == pre.stake() * owned_by(pre.store.kitties@, a).len());
            assert(owned_by(post.store.kitties@, a) =~= owned_by(pre.store.kitties@, a));
        }
    } else {
        assert forall|a: AccountId| a != to && a != from implies #[trigger] post.reserved(a)
            == pre.reserved(a) by {
            assert(free_of(post.ledger.accounts@, a) == free_of(pre.ledger.accounts@, a)
            && reserved_of(post.ledger.accounts@, a) == reserved_of(pre.ledger.accounts@, a));
        }
        assert forall|a: AccountId| #[trigger] post.reserved(a) == post.stake() * owned_by(
            post.store.kitties@,
            a,
        ).len() by {
            assert(pre.reserved(a) == pre.stake() * owned_by(pre.store.kitties@, a).len());
            lemma_owned_by_owner_change(pre.store.kitties@, id, k, a);
            let n = owned_by(pre.store.kitties@, a).len();
            if a == to {
                assert(post.reserved(a) == pre.stake() * n + pre.stake());
                assert(owned_by(post.store.kitties@, a).len() == n + 1);
                assert(pre.stake() * n + pre.stake() == pre.stake() * (n + 1)) by (nonlinear_arith);
            } else if a == from {
                assert(owned_by(pre.store.kitties@, a).contains(id));
                assert(n >= 1);
                assert(pre.reserved(a) == pre.stake() * n);
                assert(pre.stake() * n >= pre.stake() * 1) by (nonlinear_arith)
                    requires
                        n >= 1,
                        pre.stake() >= 0,
                ;
                assert(min_bal(pre.stake(), pre.reserved(a)) == pre.stake());
                assert(owned_by(post.store.kitties@, a).len() == n - 1);
                assert(pre.stake() * n - pre.stake() == pre.stake() * (n - 1)) by (nonlinear_arith);
            }
        }
    }
}

/// Law: a successful purchase keeps the collateral invariant; the price
/// moves between free balances only.
pub proof fn lemma_bought_collateralized(pre: Pallet, post: Pallet, buyer: AccountId, id: KittyIndex)
    requires
        bought(pre, post, buyer, id),
        collateralized(pre),
    ensures
        collateralized(post),
{
    let seller = pre.owner_of(id);
    let k = post.store.kitties@[id];
    assert(post.store.kitties@ == pre.store.kitties@.insert(id, k));
    assert(k.owner == buyer);
    assert forall|a: AccountId| a != buyer && a != seller implies #[trigger] post.reserved(a)
        == pre.reserved(a) by {
        assert(free_of(post.ledger.accounts@, a) == free_of(pre.ledger.accounts@, a)
            && reserved_of(post.ledger.accounts@, a) == reserved_of(pre.ledger.accounts@, a));
    }
    assert forall|a: AccountId| #[trigger] post.reserved(a) == post.stake() * owned_by(
        post.store.kitties@,
        a,
    ).len() by {
        assert(pre.reserved(a) == pre.stake() * owned_by(pre.store.kitties@, a).len());
        lemma_owned_by_owner_change(pre.store.kitties@, id, k, a);
        let n = owned_by(pre.store.kitties@, a).len();
        if a == buyer {
            assert(post.reserved(a) == pre.stake() * n + pre.stake());
            assert(owned_by(post.store.kitties@, a).len() == n + 1);
            assert(pre.stake() * n + pre.stake() == pre.stake() * (n + 1)) by (nonlinear_arith);
        } else if a == seller {
            assert(owned_by(pre.store.kitties@, a).contains(id));
            assert(n >= 1);
            assert(pre.reserved(a) == pre.stake() * n);
            assert(pre.stake() * n >= pre.stake() * 1) by (nonlinear_arith)
                requires
                    n >= 1,
                    pre.stake() >= 0,
            ;
            assert(min_bal(pre.stake(), pre.reserved(a)) == pre.stake());
            assert(owned_by(post.store.kitties@, a).len() == n - 1);
            assert(pre.stake() * n - pre.stake() == pre.stake() * (n - 1)) by (nonlinear_arith);
        }
    }
}

} // verus!
