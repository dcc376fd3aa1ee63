//! The index module: a registry of index definitions and the ledger of index
//! units, with the operations that buy, sell and transfer index units.
//!
//! What each operation does is a spec function of the state before it
//! ([`buy_outcome`], [`sell_outcome`], [`transfer_outcome`],
//! [`update_outcome`], [`added`]); the operations themselves are proved to do
//! exactly that. A failed operation changes nothing.

use crate::backing::{
    affordable, can_afford, can_credit, creditable, deposit, deposited, withdraw, withdrawn,
};
use crate::index::{
    empty_definition, AssetId, Component, Definition, DefinitionView, IndexId, StoneIndex,
};
use crate::ledger::{
    burned, minted, moved, no_balances, within_limits, AccountId, Balance, Balances, Ledger,
};
use sp_runtime::traits::{LookupError, Zero};
use std::collections::HashMap;
use vstd::prelude::*;

verus! {

broadcast use vstd::std_specs::hash::group_hash_axioms;

/// `sp_runtime::traits::LookupError`: what an account lookup of the host
/// returns when it cannot resolve a reference. Nothing is known of its inside.
#[verifier::external_type_specification]
#[verifier::external_body]
pub struct ExLookupError(LookupError);

/// Calls `sp_runtime::traits::Zero::is_zero` on a balance. For the unsigned
/// integers that trait compares with the literal 0, which is what the
/// contract claims.
#[verifier::external_body]
fn is_zero(amount: Balance) -> (zero: bool)
    ensures
        zero == (amount == 0),
{
    Zero::is_zero(&amount)
}

/// Why an operation was refused.
#[derive(Clone, Copy, PartialEq, Eq, Debug)]
pub enum Error {
    /// The index has no entry in the registry.
    IndexNotExist,
    /// The account holds too little of an underlying asset to back the
    /// purchase.
    InsufficientAssetBalance,
    /// The account holds fewer index units than it wants to sell or transfer.
    InsufficientIndexBalance,
    /// A transfer of no units was asked for.
    TransferAmountZero,
    /// Only the owner of an index may redefine it.
    NotTheOwner,
    /// The host could not resolve the target of a transfer to an account.
    CannotLookup,
    /// A balance that the operation credits, of index units or of an
    /// underlying asset, has no room for the credit.
    Overflow,
}

/// What a successful operation reports to the host's event log.
#[derive(Clone, Copy, PartialEq, Eq, Debug)]
pub enum Event {
    /// Index, amount and buyer.
    BuyIndex(IndexId, Balance, AccountId),
    /// Index, amount and seller.
    SellIndex(IndexId, Balance, AccountId),
    /// Index, sender, receiver and amount.
    TransferIndex(IndexId, AccountId, AccountId, Balance),
}

/// The mathematical content of a [`Module`]: the registry and the ledger of
/// index units.
pub struct ModuleView {
    pub indexes: Map<IndexId, DefinitionView>,
    pub index_balances: Balances,
}

/// What holds of every module: each definition is stored under its own id,
/// and the ledger of index units is within limits.
pub open spec fn valid(state: ModuleView) -> bool {
    &&& forall|id: IndexId| state.indexes.contains_key(id) ==> (#[trigger] state.indexes[id]).id == id
    &&& within_limits(state.index_balances)
}

/// The account that a lookup gave, if it gave one.
pub open spec fn resolved(target: Result<AccountId, LookupError>) -> Option<AccountId> {
    match target {
        Ok(account) => Some(account),
        Err(_) => None,
    }
}

/// The registry after the definitions of `genesis` were stored one after the
/// other, each under the id it is paired with.
pub open spec fn seeded(genesis: Seq<(IndexId, Definition)>) -> Map<IndexId, DefinitionView>
    decreases genesis.len(),
{
    if genesis.len() == 0 {
        Map::empty()
    } else {
        let (id, definition) = genesis.last();
        seeded(genesis.drop_last()).insert(
            id,
            DefinitionView {
                id,
                name: definition.name@,
                components: definition.components@,
                owner: definition.owner,
            },
        )
    }
}

/// The state after `caller` registered an index under `id`. Whatever was
/// stored under `id` is replaced, its owner included.
pub open spec fn added(
    state: ModuleView,
    caller: AccountId,
    id: IndexId,
    name: Seq<u8>,
    components: Seq<Component>,
) -> ModuleView {
    ModuleView {
        indexes: state.indexes.insert(id, DefinitionView { id, name, components, owner: caller }),
        index_balances: state.index_balances,
    }
}

/// What `update_index` does: only the owner of a registered index may
/// redefine it, and stays its owner.
pub open spec fn update_outcome(
    state: ModuleView,
    caller: AccountId,
    id: IndexId,
    name: Seq<u8>,
    components: Seq<Component>,
) -> Result<ModuleView, Error> {
    if !state.indexes.contains_key(id) {
        Err(Error::IndexNotExist)
    } else if state.indexes[id].owner != caller {
        Err(Error::NotTheOwner)
    } else {
        Ok(added(state, caller, id, name, components))
    }
}

/// What `buy_index` does. A registered index is bought if the caller holds
/// the whole backing and the caller's balance of index units has room: the
/// backing leaves the caller's asset balances and the index units are
/// credited.
pub open spec fn buy_outcome(
    state: ModuleView,
    assets: Balances,
    caller: AccountId,
    id: IndexId,
    amount: Balance,
) -> Result<(ModuleView, Balances, Event), Error> {
    if !state.indexes.contains_key(id) {
        Err(Error::IndexNotExist)
    } else if !affordable(assets, caller, state.indexes[id].components, amount as nat) {
        Err(Error::InsufficientAssetBalance)
    } else if state.index_balances[(id, caller)] + amount > Balance::MAX {
        Err(Error::Overflow)
    } else {
        Ok(
            (
                ModuleView {
                    indexes: state.indexes,
                    index_balances: minted(state.index_balances, id, caller, amount as nat),
                },
                withdrawn(assets, caller, state.indexes[id].components, amount as nat),
                Event::BuyIndex(id, amount, caller),
            ),
        )
    }
}

/// What `sell_index` does. Units of a registered index that the caller holds
/// are sold if the caller's balance of every underlying asset has room: the
/// index units are debited and the backing is credited to the caller's asset
/// balances.
pub open spec fn sell_outcome(
    state: ModuleView,
    assets: Balances,
    caller: AccountId,
    id: IndexId,
    amount: Balance,
) -> Result<(ModuleView, Balances, Event), Error> {
    if !state.indexes.contains_key(id) {
        Err(Error::IndexNotExist)
    } else if state.index_balances[(id, caller)] < amount {
        Err(Error::InsufficientIndexBalance)
    } else if !creditable(assets, caller, state.indexes[id].components, amount as nat) {
        Err(Error::Overflow)
    } else {
        Ok(
            (
                ModuleView {
                    indexes: state.indexes,
                    index_balances: burned(state.index_balances, id, caller, amount as nat),
                },
                deposited(assets, caller, state.indexes[id].components, amount as nat),
                Event::SellIndex(id, amount, caller),
            ),
        )
    }
}

/// What `transfer` does. The amount is tested first, then the caller's
/// balance, then the target, then the room in the target's balance; whether
/// the index is registered is not asked.
pub open spec fn transfer_outcome(
    state: ModuleView,
    caller: AccountId,
    id: IndexId,
    target: Option<AccountId>,
    amount: Balance,
) -> Result<(ModuleView, Event), Error> {
    if amount == 0 {
        Err(Error::TransferAmountZero)
    } else if state.index_balances[(id, caller)] < amount {
        Err(Error::InsufficientIndexBalance)
    } else {
        match target {
            None => Err(Error::CannotLookup),
            Some(to) => if to != caller && state.index_balances[(id, to)] + amount
                > Balance::MAX {
                Err(Error::Overflow)
            } else {
                Ok(
                    (
                        ModuleView {
                            indexes: state.indexes,
                            index_balances: moved(
                                state.index_balances,
                                id,
                                caller,
                                to,
                                amount as nat,
                            ),
                        },
                        Event::TransferIndex(id, caller, to, amount),
                    ),
                )
            },
        }
    }
}

/// The registry of indexes and the ledger of index units.
pub struct Module {
    indexes: HashMap<IndexId, Definition>,
    index_balances: Ledger,
}

impl Clone for Module {
    fn clone(&self) -> (copy: Self)
        ensures
            copy@ == self@,
            copy.wf() == self.wf(),
    {
        let copy = Module {
            indexes: self.indexes.clone(),
            index_balances: self.index_balances.clone(),
        };
        assert(copy@.indexes =~= self@.indexes);
        copy
    }
}

impl View for Module {
    type V = ModuleView;

    closed spec fn view(&self) -> ModuleView {
        ModuleView {
            indexes: Map::new(
                |id: IndexId| self.indexes@.contains_key(id),
                |id: IndexId| self.indexes@[id]@,
            ),
            index_balances: self.index_balances@,
        }
    }
}

impl Module {
    /// The representation invariant.
    pub closed spec fn wf(&self) -> bool {
        &&& forall|id: IndexId|
            self.indexes@.contains_key(id) ==> (#[trigger] self.indexes@[id]).id == id
    }

    /// A well-formed module has a valid state.
    pub proof fn lemma_valid(&self)
        requires
            self.wf(),
        ensures
            valid(self@),
    {
        self.index_balances.lemma_within_limits();
    }

    /// A module with no index and no index units.
    pub fn new() -> (module: Module)
        ensures
            module.wf(),
            module@ == (ModuleView { indexes: Map::empty(), index_balances: no_balances() }),
    {
        let module = Module { indexes: HashMap::new(), index_balances: Ledger::new() };
        assert(module@.indexes =~= Map::empty());
        module
    }

    /// A module whose registry is seeded with the given definitions, each
    /// stored under the id it is paired with; of two with the same id the
    /// later one stays. Nobody holds index units yet.
    pub fn with_indexes(genesis: Vec<(IndexId, Definition)>) -> (module: Module)
        ensures
            module.wf(),
            module@ == (ModuleView { indexes: seeded(genesis@), index_balances: no_balances() }),
    {
        let mut module = Module::new();
        let mut i: usize = 0;
        assert(genesis@.take(0) =~= Seq::empty());
        while i < genesis.len()
            invariant
                i <= genesis.len(),
                module.wf(),
                module@.indexes == seeded(genesis@.take(i as int)),
                module@.index_balances == no_balances(),
            decreases genesis.len() - i,
        {
            let id = genesis[i].0;
            let definition = StoneIndex {
                id,
                name: genesis[i].1.name.clone(),
                components: genesis[i].1.components.clone(),
                owner: genesis[i].1.owner,
            };
            proof {
                assert(genesis@.take(i + 1).drop_last() =~= genesis@.take(i as int));
                assert(definition.name@ =~= genesis[i as int].1.name@);
                assert(definition.components@ =~= genesis[i as int].1.components@);
            }
            let ghost before = module@.indexes;
            module.indexes.insert(id, definition);
            assert(module@.indexes =~= before.insert(id, definition@));
            i = i + 1;
        }
        assert(genesis@.take(i as int) =~= genesis@);
        module
    }

    /// Registers an index under `id` with `caller` as its owner. An index that
    /// is already stored under `id` is replaced without any test, whoever owns
    /// it.
    pub fn add_index(
        &mut self,
        caller: AccountId,
        id: IndexId,
        name: Vec<u8>,
        components: Vec<Component>,
    )
        requires
            old(self).wf(),
        ensures
            final(self).wf(),
            final(self)@ == added(old(self)@, caller, id, name@, components@),
    {
        let definition = StoneIndex { id, name, components, owner: caller };
        self.indexes.insert(id, definition);
        assert(self@.indexes =~= old(self)@.indexes.insert(id, definition@));
    }

    /// Redefines the index `id`, which `caller` must own.
    pub fn update_index(
        &mut self,
        caller: AccountId,
        id: IndexId,
        name: Vec<u8>,
        components: Vec<Component>,
    ) -> (result: Result<(), Error>)
        requires
            old(self).wf(),
        ensures
            final(self).wf(),
            update_outcome(old(self)@, caller, id, name@, components@) == (match result {
                Ok(_) => Ok::<ModuleView, Error>(final(self)@),
                Err(error) => Err(error),
            }),
            result is Err ==> final(self)@ == old(self)@,
    {
        match self.indexes.get(&id) {
            None => {
                return Err(Error::IndexNotExist);
            },
            Some(stored) => {
                if stored.owner != caller {
                    return Err(Error::NotTheOwner);
                }
            },
        }
        let definition = StoneIndex { id, name, components, owner: caller };
        self.indexes.insert(id, definition);
        assert(self@.indexes =~= old(self)@.indexes.insert(id, definition@));
        Ok(())
    }

    /// Whether an index is stored under `id`.
    pub fn contains_index(&self, id: &IndexId) -> (yes: bool)
        ensures
            yes == self@.indexes.contains_key(*id),
    {
        self.indexes.contains_key(id)
    }

    /// The definition stored under `id`, or the empty definition if there is
    /// none.
    pub fn indexes(&self, id: &IndexId) -> (definition: Definition)
        ensures
            definition@ == if self@.indexes.contains_key(*id) {
                self@.indexes[*id]
            } else {
                empty_definition()
            },
    {
        match self.indexes.get(id) {
            Some(stored) => stored.clone(),
            None => StoneIndex::default(),
        }
    }

    /// The definition stored under `id`, or the empty definition if there is
    /// none: the caller cannot tell an index that was never registered from
    /// one registered as empty under id 0 by account 0, and asks
    /// [`Module::contains_index`] where that matters.
    pub fn get_index(&self, id: &IndexId) -> (definition: Definition)
        ensures
            definition@ == if self@.indexes.contains_key(*id) {
                self@.indexes[*id]
            } else {
                empty_definition()
            },
    {
        self.indexes(id)
    }

    /// The index units of index `key.0` that account `key.1` holds.
    pub fn index_balances(&self, key: (IndexId, AccountId)) -> (units: Balance)
        ensures
            units == self@.index_balances[key],
    {
        self.index_balances.balance(key.0, key.1)
    }

    /// Buys `amount` units of the index `index_id` for `caller`, who pays with
    /// the underlying assets in `assets`.
    ///
    /// All tests come before any change, so a refusal leaves the module and
    /// the asset ledger as they were.
    pub fn buy_index(
        &mut self,
        assets: &mut Ledger,
        caller: AccountId,
        index_id: IndexId,
        amount: Balance,
    ) -> (result: Result<Event, Error>)
        requires
            old(self).wf(),
        ensures
            final(self).wf(),
            buy_outcome(old(self)@, old(assets)@, caller, index_id, amount) == (match result {
                Ok(event) => Ok::<(ModuleView, Balances, Event), Error>(
                    (final(self)@, final(assets)@, event),
                ),
                Err(error) => Err(error),
            }),
            result is Err ==> final(self)@ == old(self)@ && final(assets)@ == old(assets)@,
    {
        let definition = match self.indexes.get(&index_id) {
            Some(stored) => stored,
            None => {
                return Err(Error::IndexNotExist);
            },
        };
        if !can_afford(assets, caller, &definition.components, amount) {
            return Err(Error::InsufficientAssetBalance);
        }
        if self.index_balances.balance(index_id, caller) > Balance::MAX - amount {
            return Err(Error::Overflow);
        }
        withdraw(assets, caller, &definition.components, amount);
        self.index_balances.mint(index_id, caller, amount);
        Ok(Event::BuyIndex(index_id, amount, caller))
    }

    /// Sells `amount` units of the index `index_id` that `caller` holds, and
    /// credits the underlying assets to `caller` in `assets`.
    ///
    /// All tests come before any change, so a refusal leaves the module and
    /// the asset ledger as they were.
    pub fn sell_index(
        &mut self,
        assets: &mut Ledger,
        caller: AccountId,
        index_id: IndexId,
        amount: Balance,
    ) -> (result: Result<Event, Error>)
        requires
            old(self).wf(),
        ensures
            final(self).wf(),
            sell_outcome(old(self)@, old(assets)@, caller, index_id, amount) == (match result {
                Ok(event) => Ok::<(ModuleView, Balances, Event), Error>(
                    (final(self)@, final(assets)@, event),
                ),
                Err(error) => Err(error),
            }),
            result is Err ==> final(self)@ == old(self)@ && final(assets)@ == old(assets)@,
    {
        let definition = match self.indexes.get(&index_id) {
            Some(stored) => stored,
            None => {
                return Err(Error::IndexNotExist);
            },
        };
        if self.index_balances.balance(index_id, caller) < amount {
            return Err(Error::InsufficientIndexBalance);
        }
        if !can_credit(assets, caller, &definition.components, amount) {
            return Err(Error::Overflow);
        }
        deposit(assets, caller, &definition.components, amount);
        self.index_balances.burn(index_id, caller, amount);
        Ok(Event::SellIndex(index_id, amount, caller))
    }

    /// Transfers `amount` units of the index `id` from `caller` to the account
    /// that the host's lookup resolved the target to. Refused, beside the
    /// rest, where the target's balance has no room for the units.
    pub fn transfer(
        &mut self,
        caller: AccountId,
        id: IndexId,
        target: Result<AccountId, LookupError>,
        amount: Balance,
    ) -> (result: Result<Event, Error>)
        requires
            old(self).wf(),
        ensures
            final(self).wf(),
            transfer_outcome(old(self)@, caller, id, resolved(target), amount) == (match result {
                Ok(event) => Ok::<(ModuleView, Event), Error>((final(self)@, event)),
                Err(error) => Err(error),
            }),
            result is Err ==> final(self)@ == old(self)@,
    {
        if is_zero(amount) {
            return Err(Error::TransferAmountZero);
        }
        if self.index_balances.balance(id, caller) < amount {
            return Err(Error::InsufficientIndexBalance);
        }
        let to = match target {
            Ok(account) => account,
            Err(_) => {
                return Err(Error::CannotLookup);
            },
        };
        if to != caller && self.index_balances.balance(id, to) > Balance::MAX - amount {
            return Err(Error::Overflow);
        }
        self.index_balances.transfer(id, caller, to, amount);
        Ok(Event::TransferIndex(id, caller, to, amount))
    }

    /// Credits `amount` units of the index `index_id` to `account`, with
    /// nothing paid for them and whether or not the index is registered. For
    /// collaborators that back index units by other means. The account's
    /// balance must have room for the units.
    pub fn _mint(&mut self, index_id: IndexId, account: AccountId, amount: Balance)
        requires
            old(self).wf(),
            old(self)@.index_balances[(index_id, account)] + amount <= Balance::MAX,
        ensures
            final(self).wf(),
            final(self)@ == (ModuleView {
                indexes: old(self)@.indexes,
                index_balances: minted(old(self)@.index_balances, index_id, account, amount as nat),
            }),
    {
        self.index_balances.mint(index_id, account, amount);
    }

    /// Moves `amount` units of the index `index_id` from `from` to `to`, with
    /// none of the tests of [`Module::transfer`]: the collaborator that calls
    /// this has made sure that `from` holds them and that the balance of `to`
    /// has room for them.
    pub fn _transfer(&mut self, index_id: IndexId, from: AccountId, to: AccountId, amount: Balance)
        requires
            old(self).wf(),
            amount <= old(self)@.index_balances[(index_id, from)],
            from == to || old(self)@.index_balances[(index_id, to)] + amount <= Balance::MAX,
        ensures
            final(self).wf(),
            final(self)@ == (ModuleView {
                indexes: old(self)@.indexes,
                index_balances: moved(
                    old(self)@.index_balances,
                    index_id,
                    from,
                    to,
                    amount as nat,
                ),
            }),
    {
        self.index_balances.transfer(index_id, from, to, amount);
    }
}

} // verus!
