//! A ledger of fungible units: for every kind of unit and every account, how
//! many units of that kind the account holds.
//!
//! The same table serves for the index units that the module issues and for
//! the underlying assets that back them. A balance is a 64-bit number; the
//! supply of a kind, the sum of its balances, is a mathematical quantity that
//! the contracts speak of and that nothing bounds.

use crate::sum::{lemma_sum_agree, lemma_sum_support, lemma_sum_update, sum_over};
use std::collections::HashMap;
use vstd::prelude::*;

verus! {

broadcast use vstd::std_specs::hash::group_hash_axioms;

/// Identifies an account.
pub type AccountId = u64;

/// A number of units held by one account, or in existence.
pub type Balance = u64;

/// Identifies a kind of unit: an index or an underlying asset.
pub type UnitId = u32;

/// The mathematical content of a ledger: the balance of every account in
/// every kind of unit. The map is total; an account that holds nothing has 0.
pub type Balances = Map<(UnitId, AccountId), nat>;

/// The ledger in which nobody holds anything.
pub open spec fn no_balances() -> Balances {
    Map::total(|k: (UnitId, AccountId)| 0nat)
}

/// The balances of one kind of unit, as a function of the account.
pub open spec fn units_of(b: Balances, id: UnitId) -> spec_fn(AccountId) -> nat {
    |who: AccountId| b[(id, who)]
}

/// The accounts that hold at least one unit of the kind `id`.
pub open spec fn holders(b: Balances, id: UnitId) -> Set<AccountId> {
    Set::new(|who: AccountId| b[(id, who)] > 0)
}

/// The units of kind `id` in existence: the sum of all balances of that kind.
pub open spec fn total_supply(b: Balances, id: UnitId) -> nat {
    sum_over(holders(b, id), units_of(b, id))
}

/// A ledger is sound when every key is present and each kind of unit has
/// finitely many holders, so that its supply is a finite sum.
pub open spec fn sound(b: Balances) -> bool {
    &&& forall|k: (UnitId, AccountId)| b.contains_key(k)
    &&& forall|id: UnitId| #[trigger] holders(b, id).finite()
}

/// A sound ledger in which every balance fits in a [`Balance`]. The supplies
/// need not.
pub open spec fn within_limits(b: Balances) -> bool {
    &&& sound(b)
    &&& forall|k: (UnitId, AccountId)| #[trigger] b[k] <= Balance::MAX
}

/// `b` after `amount` new units of kind `id` were issued to `who`.
pub open spec fn minted(b: Balances, id: UnitId, who: AccountId, amount: nat) -> Balances {
    b.insert((id, who), b[(id, who)] + amount)
}

/// `b` after `amount` units of kind `id` held by `who` were destroyed.
/// Meant for `amount <= b[(id, who)]`.
pub open spec fn burned(b: Balances, id: UnitId, who: AccountId, amount: nat) -> Balances {
    b.insert((id, who), (b[(id, who)] - amount) as nat)
}

/// `b` after `amount` units of kind `id` went from `from` to `to`: taken from
/// the one, then given to the other. Meant for `amount <= b[(id, from)]`.
pub open spec fn moved(
    b: Balances,
    id: UnitId,
    from: AccountId,
    to: AccountId,
    amount: nat,
) -> Balances {
    minted(burned(b, id, from, amount), id, to, amount)
}

/// Issuing units keeps a ledger sound, raises the supply of that kind by the
/// amount issued and leaves every other supply as it was.
pub proof fn lemma_minted(b: Balances, id: UnitId, who: AccountId, amount: nat)
    requires
        sound(b),
    ensures
        sound(minted(b, id, who, amount)),
        total_supply(minted(b, id, who, amount), id) == total_supply(b, id) + amount,
        forall|other: UnitId|
            other != id ==> #[trigger] total_supply(minted(b, id, who, amount), other)
                == total_supply(b, other),
{
    let after = minted(b, id, who, amount);
    lemma_changed_one(b, after, id, who);
}

/// Destroying units that the account holds keeps a ledger sound, lowers the
/// supply of that kind by the amount destroyed and leaves every other supply
/// as it was.
pub proof fn lemma_burned(b: Balances, id: UnitId, who: AccountId, amount: nat)
    requires
        sound(b),
        amount <= b[(id, who)],
    ensures
        sound(burned(b, id, who, amount)),
        total_supply(burned(b, id, who, amount), id) == total_supply(b, id) - amount,
        forall|other: UnitId|
            other != id ==> #[trigger] total_supply(burned(b, id, who, amount), other)
                == total_supply(b, other),
{
    let after = burned(b, id, who, amount);
    lemma_changed_one(b, after, id, who);
}

/// A transfer keeps a ledger sound and leaves every supply as it was.
pub proof fn lemma_moved(b: Balances, id: UnitId, from: AccountId, to: AccountId, amount: nat)
    requires
        sound(b),
        amount <= b[(id, from)],
    ensures
        sound(moved(b, id, from, to, amount)),
        forall|any: UnitId|
            #[trigger] total_supply(moved(b, id, from, to, amount), any) == total_supply(b, any),
{
    lemma_burned(b, id, from, amount);
    lemma_minted(burned(b, id, from, amount), id, to, amount);
}

/// Two ledgers that differ in the balance of one account at most, in one kind
/// of unit: the second is sound if the first is, its supply of that kind
/// differs by what the balance differs, and its other supplies are the same.
proof fn lemma_changed_one(b: Balances, after: Balances, id: UnitId, who: AccountId)
    requires
        sound(b),
        forall|k: (UnitId, AccountId)| after.contains_key(k),
        forall|k: (UnitId, AccountId)| k != (id, who) ==> after[k] == b[k],
    ensures
        sound(after),
        total_supply(after, id) == total_supply(b, id) + after[(id, who)] - b[(id, who)],
        forall|other: UnitId|
            other != id ==> #[trigger] total_supply(after, other) == total_supply(b, other),
{
    assert forall|other: UnitId| other != id implies holders(after, other) == holders(b, other)
        && total_supply(after, other) == total_supply(b, other) by {
        assert(holders(after, other) =~= holders(b, other));
        lemma_sum_agree(holders(b, other), units_of(b, other), units_of(after, other));
    }
    // Both supplies of kind `id` are sums over the holders of either ledger.
    let all = holders(b, id).insert(who);
    assert(holders(b, id).subset_of(all));
    assert(holders(after, id).subset_of(all));
    lemma_sum_support(all, holders(b, id), units_of(b, id));
    lemma_sum_support(all, holders(after, id), units_of(after, id));
    lemma_sum_update(
        all,
        units_of(b, id),
        units_of(after, id),
        who,
        after[(id, who)] - b[(id, who)],
    );
    assert forall|any: UnitId| #[trigger] holders(after, any).finite() by {
        if any != id {
            assert(holders(after, any) == holders(b, any));
        }
    }
}

/// Balances of fungible units, by kind of unit and account.
///
/// An account that was never credited holds 0.
pub struct Ledger {
    books: HashMap<UnitId, HashMap<AccountId, Balance>>,
}

impl Clone for Ledger {
    fn clone(&self) -> (copy: Self)
        ensures
            copy@ == self@,
    {
        let copy = Ledger { books: self.books.clone() };
        assert(copy.books@ == self.books@);
        assert(copy@ =~= self@);
        copy
    }
}

impl View for Ledger {
    type V = Balances;

    open spec fn view(&self) -> Balances {
        Map::total(|k: (UnitId, AccountId)| self.units(k.0, k.1))
    }
}

impl Ledger {
    /// The units of kind `id` that `who` holds.
    pub closed spec fn units(&self, id: UnitId, who: AccountId) -> nat {
        if self.books@.contains_key(id) && self.books@[id]@.contains_key(who) {
            self.books@[id]@[who] as nat
        } else {
            0
        }
    }

    /// What a ledger holds is sound, and every balance fits in a [`Balance`].
    pub proof fn lemma_within_limits(&self)
        ensures
            within_limits(self@),
    {
        assert forall|id: UnitId| #[trigger] holders(self@, id).finite() by {
            if self.books@.contains_key(id) {
                let accounts = self.books@[id]@;
                assert(holders(self@, id).subset_of(accounts.dom()));
                vstd::set_lib::lemma_len_subset(holders(self@, id), accounts.dom());
            } else {
                assert(holders(self@, id) =~= Set::<AccountId>::empty());
            }
        }
    }

    /// A ledger in which nobody holds anything.
    pub fn new() -> (ledger: Ledger)
        ensures
            ledger@ == no_balances(),
    {
        let ledger = Ledger { books: HashMap::new() };
        assert(ledger@ =~= no_balances());
        ledger
    }

    /// The units of kind `id` that `who` holds.
    pub fn balance(&self, id: UnitId, who: AccountId) -> (units: Balance)
        ensures
            units == self@[(id, who)],
    {
        match self.books.get(&id) {
            Some(accounts) => match accounts.get(&who) {
                Some(units) => *units,
                None => 0,
            },
            None => 0,
        }
    }

    /// Sets the balance of `who` in the kind `id` to `units`.
    fn set(&mut self, id: UnitId, who: AccountId, units: Balance)
        ensures
            final(self)@ == old(self)@.insert((id, who), units as nat),
    {
        let mut accounts = match self.books.remove(&id) {
            Some(accounts) => accounts,
            None => HashMap::new(),
        };
        accounts.insert(who, units);
        self.books.insert(id, accounts);
        assert(self@ =~= old(self)@.insert((id, who), units as nat));
    }

    /// Issues `amount` new units of kind `id` to `who`, whose balance must
    /// have room for them.
    pub fn mint(&mut self, id: UnitId, who: AccountId, amount: Balance)
        requires
            old(self)@[(id, who)] + amount <= Balance::MAX,
        ensures
            final(self)@ == minted(old(self)@, id, who, amount as nat),
    {
        let units = self.balance(id, who) + amount;
        self.set(id, who, units);
    }

    /// Destroys `amount` units of kind `id` that `who` holds.
    pub fn burn(&mut self, id: UnitId, who: AccountId, amount: Balance)
        requires
            amount <= old(self)@[(id, who)],
        ensures
            final(self)@ == burned(old(self)@, id, who, amount as nat),
    {
        let units = self.balance(id, who) - amount;
        self.set(id, who, units);
    }

    /// Moves `amount` units of kind `id` from `from` to `to`: takes them from
    /// the one, then gives them to the other, whose balance must have room
    /// for them unless the two are the same account.
    pub fn transfer(&mut self, id: UnitId, from: AccountId, to: AccountId, amount: Balance)
        requires
            amount <= old(self)@[(id, from)],
            from == to || old(self)@[(id, to)] + amount <= Balance::MAX,
        ensures
            final(self)@ == moved(old(self)@, id, from, to, amount as nat),
    {
        self.burn(id, from, amount);
        self.mint(id, to, amount);
    }
}

} // verus!
