//! The ledger and its five operations.
//!
//! Each operation either applies the step that `crate::model` gives for it,
//! and returns `Ok(())`, or returns the error that the model gives and leaves
//! the ledger exactly as it was.

use crate::amount::Amount;
use crate::error::BankError;
use crate::model::{
    buy_investment_spec, deposit_spec, keys_unique, lemma_to_map_at, lemma_to_map_contains,
    lemma_to_map_update, sell_investment_spec, to_map, total, transfer_spec, withdraw_spec,
    BankView, InvestmentView,
};
use vstd::prelude::*;

verus! {

/// A purchased position: who owns it and what it cost.
#[derive(Debug, Clone)]
pub struct Investment {
    pub owner: String,
    pub amount: Amount,
}

impl View for Investment {
    type V = InvestmentView;

    open spec fn view(&self) -> InvestmentView {
        InvestmentView { owner: self.owner@, amount: self.amount@ }
    }
}

/// The ledger: a balance for each account name, the investments by id, and
/// the id that the next purchase gets.
#[derive(Debug, Clone)]
pub struct BankState {
    pub balances: Vec<(String, Amount)>,
    pub investments: Vec<(Amount, Investment)>,
    pub next_id: Amount,
}

/// The balance entries as (name, balance) pairs of the model.
pub open spec fn balance_entries(v: Seq<(String, Amount)>) -> Seq<(Seq<char>, int)> {
    v.map_values(|e: (String, Amount)| (e.0@, e.1@))
}

/// The investment entries as (id, investment) pairs of the model.
pub open spec fn investment_entries(v: Seq<(Amount, Investment)>) -> Seq<(int, InvestmentView)> {
    v.map_values(|e: (Amount, Investment)| (e.0@, e.1@))
}

impl View for BankState {
    type V = BankView;

    open spec fn view(&self) -> BankView {
        BankView {
            balances: to_map(balance_entries(self.balances@)),
            investments: to_map(investment_entries(self.investments@)),
            next_id: self.next_id@,
        }
    }
}

impl BankState {
    /// No account name and no investment id appears twice, and the model's
    /// invariant holds.
    pub open spec fn wf(&self) -> bool {
        &&& keys_unique(balance_entries(self.balances@))
        &&& keys_unique(investment_entries(self.investments@))
        &&& self@.wf()
    }

    /// The sum of all balances.
    pub open spec fn total_balance(&self) -> int {
        total(balance_entries(self.balances@))
    }

    /// A ledger with no accounts and no investments, whose first purchase
    /// gets the id `next_id`.
    pub fn new(next_id: Amount) -> (r: BankState)
        ensures
            r.wf(),
            r@ == (BankView {
                balances: Map::empty(),
                investments: Map::empty(),
                next_id: next_id@,
            }),
    {
        let r = BankState { balances: Vec::new(), investments: Vec::new(), next_id };
        proof {
            assert(balance_entries(r.balances@) =~= Seq::empty());
            assert(investment_entries(r.investments@) =~= Seq::empty());
        }
        r
    }

    /// Adds an account called `name` with balance `balance`; a name that is
    /// already taken is refused.
    pub fn open_account(&mut self, name: String, balance: Amount) -> (r: Result<(), BankError>)
        requires
            old(self).wf(),
        ensures
            final(self).wf(),
            old(self)@.balances.contains_key(name@) ==> r == Err::<(), BankError>(
                BankError::DuplicateAccount,
            ) && *final(self) == *old(self),
            !old(self)@.balances.contains_key(name@) ==> r is Ok && final(self)@ == (BankView {
                balances: old(self)@.balances.insert(name@, balance@),
                ..old(self)@
            }),
    {
        if let Some(i) = find_account(&self.balances, &name) {
            proof {
                lemma_to_map_at(balance_entries(self.balances@), i as int);
            }
            return Err(BankError::DuplicateAccount);
        }
        let ghost before = balance_entries(self.balances@);
        proof {
            lemma_to_map_contains(before, name@);
        }
        self.balances.push((name, balance));
        proof {
            let after = balance_entries(self.balances@);
            assert(after.drop_last() =~= before);
            assert(after =~= before.push((name@, balance@)));
            assert(to_map(after) == to_map(before).insert(name@, balance@));
            assert(self@.investments == old(self)@.investments);
            assert(self@.balances == old(self)@.balances.insert(name@, balance@));
            assert(self@.next_id == old(self)@.next_id);
            assert(keys_unique(after)) by {
                assert forall|a: int, b: int| 0 <= a < b < after.len() implies after[a].0
                    != after[b].0 by {
                    if b == after.len() - 1 {
                        assert(before[a].0 == after[a].0);
                    } else {
                        assert(before[a] == after[a] && before[b] == after[b]);
                    }
                }
            }
        }
        Ok(())
    }

    /// Records `investment` under `id`, as a ledger restored from a snapshot
    /// holds it. The id must have been issued already, that is lie below the
    /// next id, must not be taken, and the owner must have an account.
    pub fn record_investment(&mut self, id: Amount, investment: Investment) -> (r: Result<
        (),
        BankError,
    >)
        requires
            old(self).wf(),
        ensures
            final(self).wf(),
            ({
                let s = old(self)@;
                if id@ >= s.next_id {
                    r == Err::<(), BankError>(BankError::InvestmentIdNotIssued) && *final(self)
                        == *old(self)
                } else if s.investments.contains_key(id@) {
                    r == Err::<(), BankError>(BankError::DuplicateInvestment) && *final(self)
                        == *old(self)
                } else if !s.balances.contains_key(investment@.owner) {
                    r == Err::<(), BankError>(BankError::UnknownAccount) && *final(self)
                        == *old(self)
                } else {
                    r is Ok && final(self)@ == (BankView {
                        investments: s.investments.insert(id@, investment@),
                        ..s
                    })
                }
            }),
    {
        if !id.lt(&self.next_id) {
            return Err(BankError::InvestmentIdNotIssued);
        }
        if let Some(k) = find_investment(&self.investments, &id) {
            proof {
                lemma_to_map_at(investment_entries(self.investments@), k as int);
            }
            return Err(BankError::DuplicateInvestment);
        }
        match find_account(&self.balances, &investment.owner) {
            None => {
                return Err(BankError::UnknownAccount);
            },
            Some(i) => {
                proof {
                    lemma_to_map_at(balance_entries(self.balances@), i as int);
                }
            },
        }
        let ghost before = investment_entries(self.investments@);
        proof {
            lemma_to_map_contains(before, id@);
        }
        self.investments.push((id, investment));
        proof {
            let after = investment_entries(self.investments@);
            assert(after.drop_last() =~= before);
            assert(after =~= before.push((id@, investment@)));
            assert(to_map(after) == to_map(before).insert(id@, investment@));
            assert(self@.investments == old(self)@.investments.insert(id@, investment@));
            assert(self@.balances == old(self)@.balances);
            assert(self@.next_id == old(self)@.next_id);
            assert(keys_unique(after)) by {
                assert forall|a: int, b: int| 0 <= a < b < after.len() implies after[a].0
                    != after[b].0 by {
                    if b == after.len() - 1 {
                        assert(before[a].0 == after[a].0);
                    } else {
                        assert(before[a] == after[a] && before[b] == after[b]);
                    }
                }
            }
        }
        Ok(())
    }

    /// The balance of the account called `name`, if there is one.
    pub fn balance(&self, name: &String) -> (r: Option<&Amount>)
        requires
            self.wf(),
        ensures
            match r {
                Some(a) => self@.balances.contains_key(name@) && a@ == self@.balances[name@],
                None => !self@.balances.contains_key(name@),
            },
    {
        match find_account(&self.balances, name) {
            None => None,
            Some(i) => {
                proof {
                    lemma_to_map_at(balance_entries(self.balances@), i as int);
                }
                Some(&self.balances[i].1)
            },
        }
    }

    /// The investment with id `id`, if there is one.
    pub fn investment(&self, id: &Amount) -> (r: Option<&Investment>)
        requires
            self.wf(),
        ensures
            match r {
                Some(v) => self@.investments.contains_key(id@) && v@ == self@.investments[id@],
                None => !self@.investments.contains_key(id@),
            },
    {
        match find_investment(&self.investments, id) {
            None => None,
            Some(k) => {
                proof {
                    lemma_to_map_at(investment_entries(self.investments@), k as int);
                }
                Some(&self.investments[k].1)
            },
        }
    }
}

/// The position of the account called `name`, if there is one.
fn find_account(balances: &Vec<(String, Amount)>, name: &String) -> (r: Option<usize>)
    ensures
        match r {
            Some(i) => i < balances.len() && balances@[i as int].0@ == name@,
            None => !to_map(balance_entries(balances@)).contains_key(name@),
        },
{
    let mut i: usize = 0;
    while i < balances.len()
        invariant
            i <= balances.len(),
            forall|j: int| 0 <= j < i ==> (#[trigger] balances@[j]).0@ != name@,
        decreases balances.len() - i,
    {
        if balances[i].0 == *name {
            return Some(i);
        }
        i = i + 1;
    }
    proof {
        let entries = balance_entries(balances@);
        lemma_to_map_contains(entries, name@);
        assert forall|j: int| 0 <= j < entries.len() implies #[trigger] entries[j].0 != name@ by {
            assert(entries[j].0 == balances@[j].0@);
        }
    }
    None
}

/// The position of the investment with id `id`, if there is one.
fn find_investment(investments: &Vec<(Amount, Investment)>, id: &Amount) -> (r: Option<usize>)
    ensures
        match r {
            Some(i) => i < investments.len() && investments@[i as int].0@ == id@,
            None => !to_map(investment_entries(investments@)).contains_key(id@),
        },
{
    let mut i: usize = 0;
    while i < investments.len()
        invariant
            i <= investments.len(),
            forall|j: int| 0 <= j < i ==> (#[trigger] investments@[j]).0@ != id@,
        decreases investments.len() - i,
    {
        if investments[i].0 == *id {
            return Some(i);
        }
        i = i + 1;
    }
    proof {
        let entries = investment_entries(investments@);
        lemma_to_map_contains(entries, id@);
        assert forall|j: int| 0 <= j < entries.len() implies #[trigger] entries[j].0 != id@ by {
            assert(entries[j].0 == investments@[j].0@);
        }
    }
    None
}

/// Gives the account at position `i` the balance `value`.
fn set_balance(balances: &mut Vec<(String, Amount)>, i: usize, value: Amount)
    requires
        i < old(balances).len(),
        keys_unique(balance_entries(old(balances)@)),
    ensures
        final(balances)@ == old(balances)@.update(i as int, (old(balances)@[i as int].0, value)),
        keys_unique(balance_entries(final(balances)@)),
        to_map(balance_entries(final(balances)@)) == to_map(
            balance_entries(old(balances)@),
        ).insert(old(balances)@[i as int].0@, value@),
        total(balance_entries(final(balances)@)) == total(balance_entries(old(balances)@))
            - old(balances)@[i as int].1@ + value@,
{
    let ghost before = balance_entries(balances@);
    balances[i].1 = value;
    proof {
        assert(balance_entries(balances@) =~= before.update(i as int, (before[i as int].0, value@)));
        lemma_to_map_update(before, i as int, value@);
    }
}

/// Credits `depositor` with `amount`.
pub fn deposit(bank_state: &mut BankState, depositor: String, amount: Amount) -> (r: Result<
    (),
    BankError,
>)
    requires
        old(bank_state).wf(),
    ensures
        final(bank_state).wf(),
        match deposit_spec(old(bank_state)@, depositor@, amount@) {
            Ok(next) => r is Ok && final(bank_state)@ == next,
            Err(e) => r == Err::<(), BankError>(e) && *final(bank_state) == *old(bank_state),
        },
{
    if !amount.is_positive() {
        return Err(BankError::InvalidAmount);
    }
    match find_account(&bank_state.balances, &depositor) {
        None => Err(BankError::UnknownAccount),
        Some(i) => {
            proof {
                lemma_to_map_at(balance_entries(bank_state.balances@), i as int);
            }
            let credited = bank_state.balances[i].1.add(&amount);
            set_balance(&mut bank_state.balances, i, credited);
            Ok(())
        },
    }
}

/// Debits `withdrawer` with `amount`, which their balance must cover.
pub fn withdraw(bank_state: &mut BankState, withdrawer: String, amount: Amount) -> (r: Result<
    (),
    BankError,
>)
    requires
        old(bank_state).wf(),
    ensures
        final(bank_state).wf(),
        match withdraw_spec(old(bank_state)@, withdrawer@, amount@) {
            Ok(next) => r is Ok && final(bank_state)@ == next,
            Err(e) => r == Err::<(), BankError>(e) && *final(bank_state) == *old(bank_state),
        },
{
    if !amount.is_positive() {
        return Err(BankError::InvalidAmount);
    }
    match find_account(&bank_state.balances, &withdrawer) {
        None => Err(BankError::UnknownAccount),
        Some(i) => {
            proof {
                lemma_to_map_at(balance_entries(bank_state.balances@), i as int);
            }
            if bank_state.balances[i].1.lt(&amount) {
                return Err(BankError::InsufficientBalance);
            }
            let debited = bank_state.balances[i].1.sub(&amount);
            set_balance(&mut bank_state.balances, i, debited);
            Ok(())
        },
    }
}

/// Moves `amount` from `sender`, whose balance must cover it, to `receiver`.
/// The sum of all balances stays the same.
pub fn transfer(bank_state: &mut BankState, sender: String, receiver: String, amount: Amount) -> (r:
    Result<(), BankError>)
    requires
        old(bank_state).wf(),
    ensures
        final(bank_state).wf(),
        match transfer_spec(old(bank_state)@, sender@, receiver@, amount@) {
            Ok(next) => r is Ok && final(bank_state)@ == next,
            Err(e) => r == Err::<(), BankError>(e) && *final(bank_state) == *old(bank_state),
        },
        r is Ok ==> final(bank_state).total_balance() == old(bank_state).total_balance(),
{
    if !amount.is_positive() {
        return Err(BankError::InvalidAmount);
    }
    let i = match find_account(&bank_state.balances, &sender) {
        None => {
            return Err(BankError::UnknownAccount);
        },
        Some(i) => i,
    };
    proof {
        lemma_to_map_at(balance_entries(bank_state.balances@), i as int);
    }
    if bank_state.balances[i].1.lt(&amount) {
        return Err(BankError::InsufficientBalance);
    }
    let j = match find_account(&bank_state.balances, &receiver) {
        None => {
            return Err(BankError::UnknownAccount);
        },
        Some(j) => j,
    };
    let debited = bank_state.balances[i].1.sub(&amount);
    set_balance(&mut bank_state.balances, i, debited);
    proof {
        lemma_to_map_at(balance_entries(bank_state.balances@), j as int);
    }
    let credited = bank_state.balances[j].1.add(&amount);
    set_balance(&mut bank_state.balances, j, credited);
    Ok(())
}

/// Debits `buyer` with `amount`, which their balance must cover, and records
/// an investment of `buyer` for `amount` under the next id, which then grows
/// by one.
pub fn buy_investment(bank_state: &mut BankState, buyer: String, amount: Amount) -> (r: Result<
    (),
    BankError,
>)
    requires
        old(bank_state).wf(),
    ensures
        final(bank_state).wf(),
        match buy_investment_spec(old(bank_state)@, buyer@, amount@) {
            Ok(next) => r is Ok && final(bank_state)@ == next,
            Err(e) => r == Err::<(), BankError>(e) && *final(bank_state) == *old(bank_state),
        },
{
    if !amount.is_positive() {
        return Err(BankError::InvalidAmount);
    }
    let i = match find_account(&bank_state.balances, &buyer) {
        None => {
            return Err(BankError::UnknownAccount);
        },
        Some(i) => i,
    };
    proof {
        lemma_to_map_at(balance_entries(bank_state.balances@), i as int);
    }
    if bank_state.balances[i].1.lt(&amount) {
        return Err(BankError::InsufficientBalance);
    }
    let debited = bank_state.balances[i].1.sub(&amount);
    set_balance(&mut bank_state.balances, i, debited);
    let ghost before = investment_entries(bank_state.investments@);
    let ghost issued = bank_state.next_id@;
    proof {
        assert forall|j: int| 0 <= j < before.len() implies #[trigger] before[j].0 < issued by {
            lemma_to_map_contains(before, before[j].0);
        }
    }
    let mut id = bank_state.next_id.add(&Amount::one());
    std::mem::swap(&mut id, &mut bank_state.next_id);
    bank_state.investments.push((id, Investment { owner: buyer, amount }));
    proof {
        let after = investment_entries(bank_state.investments@);
        assert(after.drop_last() =~= before);
        assert(after =~= before.push((issued, InvestmentView { owner: buyer@, amount: amount@ })));
    }
    Ok(())
}

/// Credits `seller` with the amount of investment `investment_id`, which they
/// must own. The investment stays in the ledger.
pub fn sell_investment(bank_state: &mut BankState, seller: String, investment_id: Amount) -> (r:
    Result<(), BankError>)
    requires
        old(bank_state).wf(),
    ensures
        final(bank_state).wf(),
        match sell_investment_spec(old(bank_state)@, seller@, investment_id@) {
            Ok(next) => r is Ok && final(bank_state)@ == next,
            Err(e) => r == Err::<(), BankError>(e) && *final(bank_state) == *old(bank_state),
        },
{
    let k = match find_investment(&bank_state.investments, &investment_id) {
        None => {
            return Err(BankError::UnknownInvestment);
        },
        Some(k) => k,
    };
    proof {
        lemma_to_map_at(investment_entries(bank_state.investments@), k as int);
    }
    if !(bank_state.investments[k].1.owner == seller) {
        return Err(BankError::UnauthorizedSale);
    }
    let i = match find_account(&bank_state.balances, &seller) {
        None => {
            return Err(BankError::UnknownAccount);
        },
        Some(i) => i,
    };
    proof {
        lemma_to_map_at(balance_entries(bank_state.balances@), i as int);
    }
    let credited = bank_state.balances[i].1.add(&bank_state.investments[k].1.amount);
    set_balance(&mut bank_state.balances, i, credited);
    Ok(())
}

} // verus!
