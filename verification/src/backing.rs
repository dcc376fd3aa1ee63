//! Moving the underlying assets that back index units: what a purchase takes
//! from the buyer's asset balances and what a sale gives back.
//!
//! The asset ledger is debited and credited component by component. The
//! contracts speak of the result as a whole: each asset balance of the account
//! changes by the [`demand`] for that asset, whatever the order of the
//! components and however often an asset is named.

use crate::index::{backing, demand, AssetId, Component};
use crate::ledger::{
    burned, lemma_burned, lemma_minted, minted, sound, total_supply, AccountId, Balance, Balances,
    Ledger,
};
use vstd::prelude::*;

verus! {

/// The account holds, of every asset, at least what `amount` index units
/// with these components are backed by.
pub open spec fn affordable(
    assets: Balances,
    who: AccountId,
    components: Seq<Component>,
    amount: nat,
) -> bool {
    forall|asset: AssetId| #[trigger] demand(components, amount, asset) <= assets[(asset, who)]
}

/// The asset ledger after the account gave up the backing of `amount` index
/// units. Meant for an account that can afford it.
pub open spec fn withdrawn(
    assets: Balances,
    who: AccountId,
    components: Seq<Component>,
    amount: nat,
) -> Balances {
    Map::total(
        |k: (AssetId, AccountId)|
            if k.1 == who {
                (assets[k] - demand(components, amount, k.0)) as nat
            } else {
                assets[k]
            },
    )
}

/// The account's balance of every asset has room for the backing of `amount`
/// index units.
pub open spec fn creditable(
    assets: Balances,
    who: AccountId,
    components: Seq<Component>,
    amount: nat,
) -> bool {
    forall|asset: AssetId|
        assets[(asset, who)] + #[trigger] demand(components, amount, asset) <= Balance::MAX
}

/// The asset ledger after the account received the backing of `amount` index
/// units.
pub open spec fn deposited(
    assets: Balances,
    who: AccountId,
    components: Seq<Component>,
    amount: nat,
) -> Balances {
    Map::total(
        |k: (AssetId, AccountId)|
            if k.1 == who {
                assets[k] + demand(components, amount, k.0)
            } else {
                assets[k]
            },
    )
}

/// The demand of the first `n + 1` components is the demand of the first `n`
/// and what component `n` adds.
pub proof fn lemma_demand_step(components: Seq<Component>, n: int, amount: nat, asset: AssetId)
    requires
        0 <= n < components.len(),
    ensures
        demand(components.take(n + 1), amount, asset) == demand(components.take(n), amount, asset)
            + if components[n].asset_id == asset {
            backing(amount, components[n].weight)
        } else {
            0
        },
{
    assert(components.take(n + 1).drop_last() =~= components.take(n));
}

/// The demand of a prefix does not exceed the demand of the whole.
pub proof fn lemma_demand_prefix(components: Seq<Component>, n: int, amount: nat, asset: AssetId)
    requires
        0 <= n <= components.len(),
    ensures
        demand(components.take(n), amount, asset) <= demand(components, amount, asset),
    decreases components.len() - n,
{
    if n < components.len() {
        lemma_demand_step(components, n, amount, asset);
        lemma_demand_prefix(components, n + 1, amount, asset);
    } else {
        assert(components.take(n) =~= components);
    }
}

/// An asset that no component names is not demanded.
pub proof fn lemma_demand_unnamed(components: Seq<Component>, amount: nat, asset: AssetId)
    requires
        forall|i: int| 0 <= i < components.len() ==> components[i].asset_id != asset,
    ensures
        demand(components, amount, asset) == 0,
    decreases components.len(),
{
    if components.len() > 0 {
        lemma_demand_unnamed(components.drop_last(), amount, asset);
    }
}

/// The demand for an asset is at least what any one component that names it
/// asks for.
pub proof fn lemma_demand_covers_component(components: Seq<Component>, i: int, amount: nat)
    requires
        0 <= i < components.len(),
    ensures
        backing(amount, components[i].weight) <= demand(
            components,
            amount,
            components[i].asset_id,
        ),
{
    lemma_demand_step(components, i, amount, components[i].asset_id);
    lemma_demand_prefix(components, i + 1, amount, components[i].asset_id);
}

/// Taking the backing out of a sound ledger leaves a sound ledger in which
/// the supply of every asset has gone down by the demand for it.
pub proof fn lemma_withdrawn(
    assets: Balances,
    who: AccountId,
    components: Seq<Component>,
    amount: nat,
)
    requires
        sound(assets),
        affordable(assets, who, components, amount),
    ensures
        sound(withdrawn(assets, who, components, amount)),
        forall|asset: AssetId|
            total_supply(withdrawn(assets, who, components, amount), asset) == total_supply(
                assets,
                asset,
            ) - #[trigger] demand(components, amount, asset),
    decreases components.len(),
{
    if components.len() == 0 {
        assert(withdrawn(assets, who, components, amount) =~= assets);
    } else {
        let n = components.len() - 1;
        let first = components.take(n);
        let last = components[n];
        assert(components.take(n + 1) =~= components);
        assert forall|asset: AssetId| #[trigger]
            demand(first, amount, asset) <= assets[(asset, who)] by {
            lemma_demand_prefix(components, n, amount, asset);
        }
        lemma_withdrawn(assets, who, first, amount);
        let before = withdrawn(assets, who, first, amount);
        let units = backing(amount, last.weight);
        lemma_demand_step(components, n, amount, last.asset_id);
        lemma_burned(before, last.asset_id, who, units);
        let after = withdrawn(assets, who, components, amount);
        let burnt = burned(before, last.asset_id, who, units);
        assert forall|k: (AssetId, AccountId)| #[trigger] after[k] == burnt[k] by {
            lemma_demand_step(components, n, amount, k.0);
        }
        assert(after =~= burnt);
        assert forall|asset: AssetId|
            total_supply(withdrawn(assets, who, components, amount), asset) == total_supply(
                assets,
                asset,
            ) - #[trigger] demand(components, amount, asset) by {
            lemma_demand_step(components, n, amount, asset);
        }
    }
}

/// Putting the backing into a sound ledger leaves a sound ledger in which the
/// supply of every asset has gone up by the demand for it.
pub proof fn lemma_deposited(
    assets: Balances,
    who: AccountId,
    components: Seq<Component>,
    amount: nat,
)
    requires
        sound(assets),
    ensures
        sound(deposited(assets, who, components, amount)),
        forall|asset: AssetId|
            total_supply(deposited(assets, who, components, amount), asset) == total_supply(
                assets,
                asset,
            ) + #[trigger] demand(components, amount, asset),
    decreases components.len(),
{
    if components.len() == 0 {
        assert(deposited(assets, who, components, amount) =~= assets);
    } else {
        let n = components.len() - 1;
        let first = components.take(n);
        let last = components[n];
        assert(components.take(n + 1) =~= components);
        lemma_deposited(assets, who, first, amount);
        let before = deposited(assets, who, first, amount);
        let units = backing(amount, last.weight);
        lemma_minted(before, last.asset_id, who, units);
        let after = deposited(assets, who, components, amount);
        let issued = minted(before, last.asset_id, who, units);
        assert forall|k: (AssetId, AccountId)| #[trigger] after[k] == issued[k] by {
            lemma_demand_step(components, n, amount, k.0);
        }
        assert(after =~= issued);
        assert forall|asset: AssetId|
            total_supply(deposited(assets, who, components, amount), asset) == total_supply(
                assets,
                asset,
            ) + #[trigger] demand(components, amount, asset) by {
            lemma_demand_step(components, n, amount, asset);
        }
    }
}

/// Computes [`backing`] in 128-bit arithmetic, where the product always fits.
pub fn required_units(amount: Balance, weight: u32) -> (units: u128)
    ensures
        units == backing(amount as nat, weight),
        units <= 0xffff_ffff_ffff_ffff * 0xffff_ffff,
{
    assert((amount as nat) * (weight as nat) <= 0xffff_ffff_ffff_ffff * 0xffff_ffff)
        by (nonlinear_arith)
        requires
            amount <= 0xffff_ffff_ffff_ffff,
            weight <= 0xffff_ffff,
    ;
    (amount as u128) * (weight as u128)
}

/// The demand for `asset`, or `None` when it exceeds every possible balance.
pub fn total_demand(components: &Vec<Component>, amount: Balance, asset: AssetId) -> (total:
    Option<Balance>)
    ensures
        match total {
            Some(units) => units == demand(components@, amount as nat, asset),
            None => demand(components@, amount as nat, asset) > Balance::MAX,
        },
{
    let mut sum: u128 = 0;
    let mut i: usize = 0;
    while i < components.len()
        invariant
            i <= components.len(),
            sum == demand(components@.take(i as int), amount as nat, asset),
            sum <= Balance::MAX,
        decreases components.len() - i,
    {
        proof {
            lemma_demand_step(components@, i as int, amount as nat, asset);
            lemma_demand_prefix(components@, i + 1, amount as nat, asset);
        }
        if components[i].asset_id == asset {
            let units = required_units(amount, components[i].weight);
            sum = sum + units;
            if sum > u64::MAX as u128 {
                return None;
            }
        }
        i = i + 1;
    }
    assert(components@.take(i as int) =~= components@);
    Some(sum as u64)
}

/// Whether the account holds the backing of `amount` index units.
pub fn can_afford(
    assets: &Ledger,
    who: AccountId,
    components: &Vec<Component>,
    amount: Balance,
) -> (yes: bool)
    ensures
        yes == affordable(assets@, who, components@, amount as nat),
{
    let mut i: usize = 0;
    while i < components.len()
        invariant
            i <= components.len(),
            forall|j: int|
                0 <= j < i ==> demand(components@, amount as nat, #[trigger] components[j].asset_id)
                    <= assets@[(components[j].asset_id, who)],
        decreases components.len() - i,
    {
        let asset = components[i].asset_id;
        let held = assets.balance(asset, who);
        match total_demand(components, amount, asset) {
            Some(units) => {
                if units > held {
                    return false;
                }
            },
            None => {
                return false;
            },
        }
        i = i + 1;
    }
    proof {
        assert forall|asset: AssetId| #[trigger]
            demand(components@, amount as nat, asset) <= assets@[(asset, who)] by {
            if forall|j: int| 0 <= j < components.len() ==> components[j].asset_id != asset {
                lemma_demand_unnamed(components@, amount as nat, asset);
            }
        }
    }
    true
}

/// Debits the account by the backing of `amount` index units, component by
/// component.
pub fn withdraw(assets: &mut Ledger, who: AccountId, components: &Vec<Component>, amount: Balance)
    requires
        affordable(old(assets)@, who, components@, amount as nat),
    ensures
        final(assets)@ == withdrawn(old(assets)@, who, components@, amount as nat),
{
    let ghost start = assets@;
    let mut i: usize = 0;
    assert(assets@ =~= withdrawn(start, who, components@.take(0), amount as nat));
    while i < components.len()
        invariant
            i <= components.len(),
            start.dom() == Set::<(AssetId, AccountId)>::full(),
            affordable(start, who, components@, amount as nat),
            assets@ == withdrawn(start, who, components@.take(i as int), amount as nat),
        decreases components.len() - i,
    {
        let asset = components[i].asset_id;
        let units = required_units(amount, components[i].weight);
        let held = assets.balance(asset, who);
        let ghost before = assets@;
        proof {
            lemma_demand_step(components@, i as int, amount as nat, asset);
            lemma_demand_prefix(components@, i + 1, amount as nat, asset);
            assert(demand(components@, amount as nat, asset) <= start[(asset, who)]);
            assert(units <= held);
        }
        assets.burn(asset, who, units as u64);
        proof {
            let after = withdrawn(start, who, components@.take(i + 1), amount as nat);
            let burnt = burned(before, asset, who, units as nat);
            assert forall|k: (AssetId, AccountId)| #[trigger] after[k] == burnt[k] by {
                lemma_demand_step(components@, i as int, amount as nat, k.0);
                lemma_demand_prefix(components@, i + 1, amount as nat, k.0);
                assert(demand(components@, amount as nat, k.0) <= start[(k.0, who)]);
            }
            assert(after =~= burnt);
        }
        i = i + 1;
    }
    assert(components@.take(i as int) =~= components@);
}

/// Whether the account's balance of every asset has room for the backing of
/// `amount` index units.
pub fn can_credit(
    assets: &Ledger,
    who: AccountId,
    components: &Vec<Component>,
    amount: Balance,
) -> (yes: bool)
    ensures
        yes == creditable(assets@, who, components@, amount as nat),
{
    let mut i: usize = 0;
    while i < components.len()
        invariant
            i <= components.len(),
            forall|j: int|
                0 <= j < i ==> assets@[(components[j].asset_id, who)] + demand(
                    components@,
                    amount as nat,
                    #[trigger] components[j].asset_id,
                ) <= Balance::MAX,
        decreases components.len() - i,
    {
        let asset = components[i].asset_id;
        let held = assets.balance(asset, who);
        match total_demand(components, amount, asset) {
            Some(units) => {
                if units > u64::MAX - held {
                    return false;
                }
            },
            None => {
                return false;
            },
        }
        i = i + 1;
    }
    proof {
        assets.lemma_within_limits();
        assert forall|asset: AssetId|
            assets@[(asset, who)] + #[trigger] demand(components@, amount as nat, asset)
                <= Balance::MAX by {
            if forall|j: int| 0 <= j < components.len() ==> components[j].asset_id != asset {
                lemma_demand_unnamed(components@, amount as nat, asset);
            }
        }
    }
    true
}

/// Credits the account with the backing of `amount` index units, component
/// by component.
pub fn deposit(assets: &mut Ledger, who: AccountId, components: &Vec<Component>, amount: Balance)
    requires
        creditable(old(assets)@, who, components@, amount as nat),
    ensures
        final(assets)@ == deposited(old(assets)@, who, components@, amount as nat),
{
    let ghost start = assets@;
    let mut i: usize = 0;
    assert(assets@ =~= deposited(start, who, components@.take(0), amount as nat));
    while i < components.len()
        invariant
            i <= components.len(),
            start.dom() == Set::<(AssetId, AccountId)>::full(),
            creditable(start, who, components@, amount as nat),
            assets@ == deposited(start, who, components@.take(i as int), amount as nat),
        decreases components.len() - i,
    {
        let asset = components[i].asset_id;
        let units = required_units(amount, components[i].weight);
        let ghost before = assets@;
        proof {
            lemma_demand_step(components@, i as int, amount as nat, asset);
            lemma_demand_prefix(components@, i + 1, amount as nat, asset);
            assert(start[(asset, who)] + demand(components@, amount as nat, asset)
                <= Balance::MAX);
            assert(before[(asset, who)] + units <= Balance::MAX);
        }
        assets.mint(asset, who, units as u64);
        proof {
            let after = deposited(start, who, components@.take(i + 1), amount as nat);
            let issued = minted(before, asset, who, units as nat);
            assert forall|k: (AssetId, AccountId)| #[trigger] after[k] == issued[k] by {
                lemma_demand_step(components@, i as int, amount as nat, k.0);
            }
            assert(after =~= issued);
        }
        i = i + 1;
    }
    assert(components@.take(i as int) =~= components@);
}

} // verus!
