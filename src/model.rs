//! The mathematical model of the ledger and of its five operations.
//!
//! A ledger is seen as a map from account names to balances, a map from
//! investment ids to investments, and the id that the next purchase gets. Each
//! operation is a function from a ledger to either the next ledger or the
//! error that refuses it.

use crate::error::BankError;
use vstd::prelude::*;

verus! {

/// An investment as the model sees it.
pub struct InvestmentView {
    pub owner: Seq<char>,
    pub amount: int,
}

/// A ledger as the model sees it.
pub struct BankView {
    pub balances: Map<Seq<char>, int>,
    pub investments: Map<int, InvestmentView>,
    pub next_id: int,
}

impl BankView {
    /// Every investment id has been issued already, and every investment's
    /// owner has an account.
    pub open spec fn wf(self) -> bool {
        forall|id: int|
            #[trigger] self.investments.contains_key(id) ==> id < self.next_id
                && self.balances.contains_key(self.investments[id].owner)
    }
}

/// `deposit(who, amount)`: the balance of `who` grows by `amount`.
pub open spec fn deposit_spec(s: BankView, who: Seq<char>, amount: int) -> Result<
    BankView,
    BankError,
> {
    if amount <= 0 {
        Err(BankError::InvalidAmount)
    } else if !s.balances.contains_key(who) {
        Err(BankError::UnknownAccount)
    } else {
        Ok(BankView { balances: s.balances.insert(who, s.balances[who] + amount), ..s })
    }
}

/// `withdraw(who, amount)`: the balance of `who` shrinks by `amount`, which it
/// must cover.
pub open spec fn withdraw_spec(s: BankView, who: Seq<char>, amount: int) -> Result<
    BankView,
    BankError,
> {
    if amount <= 0 {
        Err(BankError::InvalidAmount)
    } else if !s.balances.contains_key(who) {
        Err(BankError::UnknownAccount)
    } else if s.balances[who] < amount {
        Err(BankError::InsufficientBalance)
    } else {
        Ok(BankView { balances: s.balances.insert(who, s.balances[who] - amount), ..s })
    }
}

/// `transfer(from, to, amount)`: `amount` moves from the balance of `from`,
/// which must cover it, to the balance of `to`.
pub open spec fn transfer_spec(s: BankView, from: Seq<char>, to: Seq<char>, amount: int) -> Result<
    BankView,
    BankError,
> {
    if amount <= 0 {
        Err(BankError::InvalidAmount)
    } else if !s.balances.contains_key(from) {
        Err(BankError::UnknownAccount)
    } else if s.balances[from] < amount {
        Err(BankError::InsufficientBalance)
    } else if !s.balances.contains_key(to) {
        Err(BankError::UnknownAccount)
    } else {
        let debited = s.balances.insert(from, s.balances[from] - amount);
        Ok(BankView { balances: debited.insert(to, debited[to] + amount), ..s })
    }
}

/// `buy_investment(who, amount)`: `amount` leaves the balance of `who`, which
/// must cover it, and becomes an investment of `who` under the next id.
pub open spec fn buy_investment_spec(s: BankView, who: Seq<char>, amount: int) -> Result<
    BankView,
    BankError,
> {
    if amount <= 0 {
        Err(BankError::InvalidAmount)
    } else if !s.balances.contains_key(who) {
        Err(BankError::UnknownAccount)
    } else if s.balances[who] < amount {
        Err(BankError::InsufficientBalance)
    } else {
        Ok(
            BankView {
                balances: s.balances.insert(who, s.balances[who] - amount),
                investments: s.investments.insert(
                    s.next_id,
                    InvestmentView { owner: who, amount },
                ),
                next_id: s.next_id + 1,
            },
        )
    }
}

/// `sell_investment(who, id)`: the owner of investment `id` is credited with
/// its amount. The investment stays in the ledger.
pub open spec fn sell_investment_spec(s: BankView, who: Seq<char>, id: int) -> Result<
    BankView,
    BankError,
> {
    if !s.investments.contains_key(id) {
        Err(BankError::UnknownInvestment)
    } else if s.investments[id].owner != who {
        Err(BankError::UnauthorizedSale)
    } else {
        Ok(
            BankView {
                balances: s.balances.insert(who, s.balances[who] + s.investments[id].amount),
                ..s
            },
        )
    }
}

/// No two entries of `s` have the same key.
pub open spec fn keys_unique<K, V>(s: Seq<(K, V)>) -> bool {
    forall|i: int, j: int| 0 <= i < j < s.len() ==> #[trigger] s[i].0 != #[trigger] s[j].0
}

/// The map that holds each entry of `s`; a later entry wins over an earlier
/// one with the same key.
pub open spec fn to_map<K, V>(s: Seq<(K, V)>) -> Map<K, V>
    decreases s.len(),
{
    if s.len() == 0 {
        Map::empty()
    } else {
        to_map(s.drop_last()).insert(s.last().0, s.last().1)
    }
}

/// The sum of the values of `s`.
pub open spec fn total<K>(s: Seq<(K, int)>) -> int
    decreases s.len(),
{
    if s.len() == 0 {
        0
    } else {
        total(s.drop_last()) + s.last().1
    }
}

/// A key is in `to_map(s)` exactly when some entry of `s` has it.
pub proof fn lemma_to_map_contains<K, V>(s: Seq<(K, V)>, k: K)
    ensures
        to_map(s).contains_key(k) <==> exists|i: int| 0 <= i < s.len() && #[trigger] s[i].0 == k,
    decreases s.len(),
{
    if s.len() > 0 {
        let init = s.drop_last();
        lemma_to_map_contains(init, k);
        if to_map(s).contains_key(k) && k != s.last().0 {
            let i = choose|i: int| 0 <= i < init.len() && #[trigger] init[i].0 == k;
            assert(s[i].0 == k);
        }
        if exists|i: int| 0 <= i < s.len() && #[trigger] s[i].0 == k {
            let i = choose|i: int| 0 <= i < s.len() && #[trigger] s[i].0 == k;
            if i < init.len() {
                assert(init[i].0 == k);
            }
        }
    }
}

/// With unique keys, `to_map(s)` holds each entry of `s`.
pub proof fn lemma_to_map_at<K, V>(s: Seq<(K, V)>, i: int)
    requires
        keys_unique(s),
        0 <= i < s.len(),
    ensures
        to_map(s).contains_key(s[i].0),
        to_map(s)[s[i].0] == s[i].1,
    decreases s.len(),
{
    if i < s.len() - 1 {
        let init = s.drop_last();
        assert(init[i] == s[i]);
        assert(keys_unique(init)) by {
            assert forall|a: int, b: int| 0 <= a < b < init.len() implies init[a].0 != init[b].0 by {
                assert(init[a] == s[a] && init[b] == s[b]);
            }
        }
        lemma_to_map_at(init, i);
        assert(s[i].0 != s[s.len() - 1].0);
    }
}

/// With unique keys, giving entry `i` a new value gives its key the new value
/// in the map, and changes the total by the difference.
pub proof fn lemma_to_map_update<K>(s: Seq<(K, int)>, i: int, v: int)
    requires
        keys_unique(s),
        0 <= i < s.len(),
    ensures
        keys_unique(s.update(i, (s[i].0, v))),
        to_map(s.update(i, (s[i].0, v))) == to_map(s).insert(s[i].0, v),
        total(s.update(i, (s[i].0, v))) == total(s) - s[i].1 + v,
    decreases s.len(),
{
    let t = s.update(i, (s[i].0, v));
    assert(keys_unique(t)) by {
        assert forall|a: int, b: int| 0 <= a < b < t.len() implies t[a].0 != t[b].0 by {
            assert(t[a].0 == s[a].0 && t[b].0 == s[b].0);
        }
    }
    let init = s.drop_last();
    if i == s.len() - 1 {
        assert(t.drop_last() =~= init);
        assert(to_map(t) =~= to_map(s).insert(s[i].0, v));
    } else {
        assert(keys_unique(init)) by {
            assert forall|a: int, b: int| 0 <= a < b < init.len() implies init[a].0 != init[b].0 by {
                assert(init[a] == s[a] && init[b] == s[b]);
            }
        }
        assert(t.drop_last() =~= init.update(i, (init[i].0, v)));
        lemma_to_map_update(init, i, v);
        assert(s[i].0 != s.last().0);
        assert(to_map(t) =~= to_map(s).insert(s[i].0, v));
    }
}

} // verus!
