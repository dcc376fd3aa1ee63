//! Index definitions: a named basket of underlying assets with fixed weights,
//! and what a number of index units is backed by.

use crate::ledger::{AccountId, Balance, UnitId};
use vstd::prelude::*;

verus! {

/// Identifies an index. Index units are the kind of unit with this id in the
/// module's own ledger.
pub type IndexId = UnitId;

/// Identifies an underlying asset in the asset ledger.
pub type AssetId = UnitId;

/// One constituent of an index: `weight` units of the asset back one index
/// unit. A weight of 0 is allowed; such a component contributes nothing.
#[derive(PartialEq, Eq, Debug, Default)]
pub struct StoneIndexComponent<AssetId> {
    pub asset_id: AssetId,
    pub weight: u32,
}

impl<AssetId: Copy> Copy for StoneIndexComponent<AssetId> {

}

impl<AssetId: Copy> Clone for StoneIndexComponent<AssetId> {
    fn clone(&self) -> (copy: Self)
        ensures
            copy == *self,
    {
        *self
    }
}

/// An index: its identifier, a display name, its components in order, and the
/// account that may redefine it.
#[derive(PartialEq, Debug)]
pub struct StoneIndex<IndexId, AssetId, AccountId> {
    pub id: IndexId,
    pub name: Vec<u8>,
    pub components: Vec<StoneIndexComponent<AssetId>>,
    pub owner: AccountId,
}

/// A component over the identifiers that the module uses.
pub type Component = StoneIndexComponent<AssetId>;

/// An index over the identifiers that the module uses.
pub type Definition = StoneIndex<IndexId, AssetId, AccountId>;

/// The mathematical content of a [`Definition`].
pub struct DefinitionView {
    pub id: IndexId,
    pub name: Seq<u8>,
    pub components: Seq<Component>,
    pub owner: AccountId,
}

impl View for StoneIndex<IndexId, AssetId, AccountId> {
    type V = DefinitionView;

    open spec fn view(&self) -> DefinitionView {
        DefinitionView {
            id: self.id,
            name: self.name@,
            components: self.components@,
            owner: self.owner,
        }
    }
}

/// The definition that stands for "no index": id 0, no name, no components,
/// owner 0.
pub open spec fn empty_definition() -> DefinitionView {
    DefinitionView { id: 0, name: Seq::empty(), components: Seq::empty(), owner: 0 }
}

impl Default for StoneIndex<IndexId, AssetId, AccountId> {
    fn default() -> (definition: Self)
        ensures
            definition@ == empty_definition(),
    {
        StoneIndex { id: 0, name: Vec::new(), components: Vec::new(), owner: 0 }
    }
}

impl Clone for StoneIndex<IndexId, AssetId, AccountId> {
    fn clone(&self) -> (copy: Self)
        ensures
            copy@ == self@,
    {
        let name = self.name.clone();
        let components = self.components.clone();
        assert(name@ =~= self.name@);
        assert(components@ =~= self.components@);
        StoneIndex { id: self.id, name, components, owner: self.owner }
    }
}

/// The units of an asset that back `amount` index units through one
/// component of the given weight.
pub open spec fn backing(amount: nat, weight: u32) -> nat {
    amount * (weight as nat)
}

/// The units of `asset` that back `amount` units of an index with these
/// components: the sum of [`backing`] over the components that name `asset`.
/// An index may name an asset more than once.
pub open spec fn demand(components: Seq<Component>, amount: nat, asset: AssetId) -> nat
    decreases components.len(),
{
    if components.len() == 0 {
        0
    } else {
        let last = components.last();
        demand(components.drop_last(), amount, asset) + if last.asset_id == asset {
            backing(amount, last.weight)
        } else {
            0
        }
    }
}

} // verus!
