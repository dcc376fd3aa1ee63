//! What holds of the module whatever its state: laws that relate its
//! operations to each other, each proved from the spec functions that the
//! operations' contracts are stated in.

use crate::backing::{
    creditable, deposited, lemma_demand_covers_component, lemma_deposited, lemma_withdrawn,
};
use crate::index::{backing, demand, AssetId, Component, IndexId};
use crate::ledger::{
    burned, holders, lemma_burned, lemma_minted, lemma_moved, minted, no_balances, sound,
    total_supply, units_of, within_limits, AccountId, Balance, Balances, UnitId,
};
use crate::module::{
    buy_outcome, sell_outcome, transfer_outcome, update_outcome, valid, Error, Event, ModuleView,
};
use crate::sum::{lemma_sum_bounds_member, lemma_sum_empty};
use vstd::prelude::*;

verus! {

/// One request to transfer index units.
pub struct TransferRequest {
    pub caller: AccountId,
    pub id: IndexId,
    pub target: Option<AccountId>,
    pub amount: Balance,
}

/// The state after one transfer request: that of its outcome if it was
/// carried out, the same state if it was refused.
pub open spec fn after_transfer(state: ModuleView, request: TransferRequest) -> ModuleView {
    match transfer_outcome(state, request.caller, request.id, request.target, request.amount) {
        Ok((next, _)) => next,
        Err(_) => state,
    }
}

/// The state after a sequence of transfer requests, served in order.
pub open spec fn after_transfers(state: ModuleView, requests: Seq<TransferRequest>) -> ModuleView
    decreases requests.len(),
{
    if requests.len() == 0 {
        state
    } else {
        after_transfer(after_transfers(state, requests.drop_last()), requests.last())
    }
}

/// Where nobody holds anything the ledger is within limits and every supply
/// is 0.
pub proof fn law_empty_ledger(id: UnitId)
    ensures
        within_limits(no_balances()),
        total_supply(no_balances(), id) == 0,
{
    assert forall|any: UnitId| #[trigger] holders(no_balances(), any).finite() && total_supply(
        no_balances(),
        any,
    ) == 0 by {
        assert(holders(no_balances(), any) =~= Set::<AccountId>::empty());
        lemma_sum_empty(units_of(no_balances(), any));
    }
}

/// In a sound ledger no balance exceeds the supply of its kind.
pub proof fn law_balance_within_supply(b: Balances, id: UnitId, who: AccountId)
    requires
        sound(b),
    ensures
        b[(id, who)] <= total_supply(b, id),
{
    if b[(id, who)] > 0 {
        lemma_sum_bounds_member(holders(b, id), units_of(b, id), who);
    }
}

/// Two credits to one account are one credit of the sum, and credits to
/// different accounts or kinds can be made in either order.
pub proof fn law_credits_add_up(
    b: Balances,
    id: UnitId,
    who: AccountId,
    first: nat,
    second: nat,
    other_id: UnitId,
    other: AccountId,
)
    requires
        sound(b),
    ensures
        minted(minted(b, id, who, first), id, who, second) == minted(b, id, who, first + second),
        (other_id, other) != (id, who) ==> minted(
            minted(b, id, who, first),
            other_id,
            other,
            second,
        ) == minted(minted(b, other_id, other, second), id, who, first),
{
    assert(minted(minted(b, id, who, first), id, who, second) =~= minted(
        b,
        id,
        who,
        first + second,
    ));
    if (other_id, other) != (id, who) {
        assert(minted(minted(b, id, who, first), other_id, other, second) =~= minted(
            minted(b, other_id, other, second),
            id,
            who,
            first,
        ));
    }
}

/// Buying and at once selling the same amount succeeds whenever the purchase
/// does, and restores everything: the registry, every balance of index units
/// and every asset balance are what they were before the purchase.
pub proof fn law_buy_then_sell_restores(
    state: ModuleView,
    assets: Balances,
    caller: AccountId,
    id: IndexId,
    amount: Balance,
)
    requires
        valid(state),
        within_limits(assets),
    ensures
        match buy_outcome(state, assets, caller, id, amount) {
            Ok((bought, paid, _)) => sell_outcome(bought, paid, caller, id, amount) == Ok::<
                (ModuleView, Balances, Event),
                Error,
            >((state, assets, Event::SellIndex(id, amount, caller))),
            Err(_) => true,
        },
{
    if let Ok((bought, paid, _)) = buy_outcome(state, assets, caller, id, amount) {
        let components = state.indexes[id].components;
        lemma_withdrawn(assets, caller, components, amount as nat);
        assert forall|asset: AssetId|
            paid[(asset, caller)] + #[trigger] demand(components, amount as nat, asset)
                <= Balance::MAX by {
            assert(demand(components, amount as nat, asset) <= assets[(asset, caller)]);
            assert(assets[(asset, caller)] <= Balance::MAX);
        }
        assert(creditable(paid, caller, components, amount as nat));
        let sold = burned(bought.index_balances, id, caller, amount as nat);
        assert(sold =~= state.index_balances);
        let repaid = deposited(paid, caller, components, amount as nat);
        assert forall|k: (AssetId, AccountId)| #[trigger] repaid[k] == assets[k] by {
            assert(demand(components, amount as nat, k.0) <= assets[(k.0, caller)]);
        }
        assert(repaid =~= assets);
    }
}

/// A purchase raises the supply of the index by the amount bought, and lowers
/// the supply of every underlying asset by the demand for it.
pub proof fn law_buy_changes_supplies(
    state: ModuleView,
    assets: Balances,
    caller: AccountId,
    id: IndexId,
    amount: Balance,
    asset: AssetId,
)
    requires
        valid(state),
        within_limits(assets),
    ensures
        match buy_outcome(state, assets, caller, id, amount) {
            Ok((bought, paid, _)) => {
                &&& valid(bought)
                &&& within_limits(paid)
                &&& total_supply(bought.index_balances, id) == total_supply(
                    state.index_balances,
                    id,
                ) + amount
                &&& total_supply(paid, asset) == total_supply(assets, asset) - demand(
                    state.indexes[id].components,
                    amount as nat,
                    asset,
                )
            },
            Err(_) => true,
        },
{
    if let Ok((bought, paid, _)) = buy_outcome(state, assets, caller, id, amount) {
        let components = state.indexes[id].components;
        lemma_withdrawn(assets, caller, components, amount as nat);
        lemma_minted(state.index_balances, id, caller, amount as nat);
        assert forall|k: (UnitId, AccountId)| #[trigger]
            bought.index_balances[k] <= Balance::MAX by {
            assert(state.index_balances[k] <= Balance::MAX);
        }
        assert forall|k: (UnitId, AccountId)| #[trigger] paid[k] <= Balance::MAX by {
            assert(assets[k] <= Balance::MAX);
        }
    }
}

/// A sale lowers the supply of the index by the amount sold, and raises the
/// supply of every underlying asset by the demand for it.
pub proof fn law_sell_changes_supplies(
    state: ModuleView,
    assets: Balances,
    caller: AccountId,
    id: IndexId,
    amount: Balance,
    asset: AssetId,
)
    requires
        valid(state),
        within_limits(assets),
    ensures
        match sell_outcome(state, assets, caller, id, amount) {
            Ok((sold, repaid, _)) => {
                &&& valid(sold)
                &&& within_limits(repaid)
                &&& total_supply(sold.index_balances, id) == total_supply(state.index_balances, id)
                    - amount
                &&& total_supply(repaid, asset) == total_supply(assets, asset) + demand(
                    state.indexes[id].components,
                    amount as nat,
                    asset,
                )
            },
            Err(_) => true,
        },
{
    if let Ok((sold, repaid, _)) = sell_outcome(state, assets, caller, id, amount) {
        let components = state.indexes[id].components;
        lemma_deposited(assets, caller, components, amount as nat);
        lemma_burned(state.index_balances, id, caller, amount as nat);
        assert forall|k: (UnitId, AccountId)| #[trigger]
            sold.index_balances[k] <= Balance::MAX by {
            assert(state.index_balances[k] <= Balance::MAX);
        }
        assert forall|k: (UnitId, AccountId)| #[trigger] repaid[k] <= Balance::MAX by {
            assert(assets[k] <= Balance::MAX);
            assert(assets[(k.0, caller)] + demand(components, amount as nat, k.0)
                <= Balance::MAX);
        }
    }
}

/// A transfer request, carried out or refused, leaves the registry and the
/// supply of every index as they were.
pub proof fn law_transfer_conserves_supply(
    state: ModuleView,
    request: TransferRequest,
    id: IndexId,
)
    requires
        valid(state),
    ensures
        valid(after_transfer(state, request)),
        after_transfer(state, request).indexes == state.indexes,
        total_supply(after_transfer(state, request).index_balances, id) == total_supply(
            state.index_balances,
            id,
        ),
{
    if let Ok((next, _)) = transfer_outcome(
        state,
        request.caller,
        request.id,
        request.target,
        request.amount,
    ) {
        lemma_moved(
            state.index_balances,
            request.id,
            request.caller,
            request.target->Some_0,
            request.amount as nat,
        );
        assert forall|k: (UnitId, AccountId)| #[trigger]
            next.index_balances[k] <= Balance::MAX by {
            assert(state.index_balances[k] <= Balance::MAX);
        }
    }
}

/// Conservation: whatever transfers are asked for, in whatever order, the
/// sum of all balances of an index stays what it was. Transfers neither make
/// nor destroy index units.
pub proof fn law_transfers_conserve_supply(
    state: ModuleView,
    requests: Seq<TransferRequest>,
    id: IndexId,
)
    requires
        valid(state),
    ensures
        valid(after_transfers(state, requests)),
        after_transfers(state, requests).indexes == state.indexes,
        total_supply(after_transfers(state, requests).index_balances, id) == total_supply(
            state.index_balances,
            id,
        ),
    decreases requests.len(),
{
    if requests.len() > 0 {
        law_transfers_conserve_supply(state, requests.drop_last(), id);
        law_transfer_conserves_supply(
            after_transfers(state, requests.drop_last()),
            requests.last(),
            id,
        );
    }
}

/// A purchase of a registered index is refused for want of assets as soon as
/// one component alone asks for more of its asset than the caller holds.
pub proof fn law_buy_needs_every_component(
    state: ModuleView,
    assets: Balances,
    caller: AccountId,
    id: IndexId,
    amount: Balance,
    i: int,
)
    requires
        state.indexes.contains_key(id),
        0 <= i < state.indexes[id].components.len(),
        assets[(state.indexes[id].components[i].asset_id, caller)] < backing(
            amount as nat,
            state.indexes[id].components[i].weight,
        ),
    ensures
        buy_outcome(state, assets, caller, id, amount) == Err::<
            (ModuleView, Balances, Event),
            Error,
        >(Error::InsufficientAssetBalance),
{
    let components = state.indexes[id].components;
    lemma_demand_covers_component(components, i, amount as nat);
    assert(!(demand(components, amount as nat, components[i].asset_id) <= assets[(
        components[i].asset_id,
        caller,
    )]));
}

/// A transfer of no units is refused as such, whatever the balances, the
/// index and the target are.
pub proof fn law_transfer_of_nothing(
    state: ModuleView,
    caller: AccountId,
    id: IndexId,
    target: Option<AccountId>,
)
    ensures
        transfer_outcome(state, caller, id, target, 0) == Err::<(ModuleView, Event), Error>(
            Error::TransferAmountZero,
        ),
{
}

/// Nobody but its owner can redefine a registered index.
pub proof fn law_update_by_owner_only(
    state: ModuleView,
    caller: AccountId,
    id: IndexId,
    name: Seq<u8>,
    components: Seq<Component>,
)
    requires
        state.indexes.contains_key(id),
        state.indexes[id].owner != caller,
    ensures
        update_outcome(state, caller, id, name, components) == Err::<ModuleView, Error>(
            Error::NotTheOwner,
        ),
{
}

} // verus!
