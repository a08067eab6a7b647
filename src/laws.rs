//! Properties of the ledger's operations, stated over the model and proved.
//!
//! The operations in `crate::bank` apply these steps exactly, and leave the
//! ledger unchanged whenever the step is an error.

use crate::error::BankError;
use crate::model::{
    buy_investment_spec, deposit_spec, sell_investment_spec, transfer_spec, withdraw_spec,
    BankView, InvestmentView,
};
use vstd::prelude::*;

verus! {

/// Every operation that takes an amount refuses one that is zero or negative
/// with `InvalidAmount`, whatever the ledger and the accounts named.
pub proof fn lemma_nonpositive_amount_refused(
    s: BankView,
    actor: Seq<char>,
    receiver: Seq<char>,
    amount: int,
)
    requires
        amount <= 0,
    ensures
        deposit_spec(s, actor, amount) == Err::<BankView, BankError>(BankError::InvalidAmount),
        withdraw_spec(s, actor, amount) == Err::<BankView, BankError>(BankError::InvalidAmount),
        transfer_spec(s, actor, receiver, amount) == Err::<BankView, BankError>(
            BankError::InvalidAmount,
        ),
        buy_investment_spec(s, actor, amount) == Err::<BankView, BankError>(
            BankError::InvalidAmount,
        ),
{
}

/// A withdrawal, transfer or purchase of a positive amount that the actor's
/// balance does not cover is refused with `InsufficientBalance`.
pub proof fn lemma_insufficient_balance_refused(
    s: BankView,
    actor: Seq<char>,
    receiver: Seq<char>,
    amount: int,
)
    requires
        amount > 0,
        s.balances.contains_key(actor),
        s.balances[actor] < amount,
    ensures
        withdraw_spec(s, actor, amount) == Err::<BankView, BankError>(
            BankError::InsufficientBalance,
        ),
        transfer_spec(s, actor, receiver, amount) == Err::<BankView, BankError>(
            BankError::InsufficientBalance,
        ),
        buy_investment_spec(s, actor, amount) == Err::<BankView, BankError>(
            BankError::InsufficientBalance,
        ),
{
}

/// Depositing a positive amount into an account whose balance is not
/// negative, and then withdrawing it again, gives back the ledger that there
/// was before.
pub proof fn lemma_deposit_withdraw_round_trip(s: BankView, who: Seq<char>, amount: int)
    requires
        amount > 0,
        s.balances.contains_key(who),
        s.balances[who] >= 0,
    ensures
        deposit_spec(s, who, amount) is Ok,
        withdraw_spec(deposit_spec(s, who, amount)->Ok_0, who, amount) == Ok::<
            BankView,
            BankError,
        >(s),
{
    let s1 = deposit_spec(s, who, amount)->Ok_0;
    assert(s1.balances[who] == s.balances[who] + amount);
    let s2 = withdraw_spec(s1, who, amount)->Ok_0;
    assert(s2.balances =~= s.balances);
}

/// A transfer between two accounts takes exactly the amount from the sender
/// and gives it to the receiver; no other balance changes. A transfer from an
/// account to itself changes no balance.
pub proof fn lemma_transfer_moves_amount(
    s: BankView,
    sender: Seq<char>,
    receiver: Seq<char>,
    amount: int,
)
    requires
        transfer_spec(s, sender, receiver, amount) is Ok,
    ensures
        ({
            let next = transfer_spec(s, sender, receiver, amount)->Ok_0;
            &&& next.balances.dom() == s.balances.dom()
            &&& sender != receiver ==> next.balances[sender] == s.balances[sender] - amount
            &&& sender != receiver ==> next.balances[receiver] == s.balances[receiver] + amount
            &&& sender == receiver ==> next.balances == s.balances
            &&& forall|other: Seq<char>|
                other != sender && other != receiver ==> #[trigger] next.balances[other]
                    == s.balances[other]
            &&& next.investments == s.investments
            &&& next.next_id == s.next_id
        }),
{
    let next = transfer_spec(s, sender, receiver, amount)->Ok_0;
    assert(next.balances.dom() =~= s.balances.dom());
    if sender == receiver {
        assert(next.balances =~= s.balances);
    }
}

/// A purchase takes the amount from the buyer and records exactly one new
/// investment, of the buyer for that amount, under the id that was next; the
/// next id then grows by one.
pub proof fn lemma_buy_investment_records(s: BankView, buyer: Seq<char>, amount: int)
    requires
        s.wf(),
        buy_investment_spec(s, buyer, amount) is Ok,
    ensures
        ({
            let next = buy_investment_spec(s, buyer, amount)->Ok_0;
            &&& next.balances[buyer] == s.balances[buyer] - amount
            &&& !s.investments.contains_key(s.next_id)
            &&& next.investments == s.investments.insert(
                s.next_id,
                InvestmentView { owner: buyer, amount },
            )
            &&& next.next_id == s.next_id + 1
            &&& next.wf()
        }),
{
}

/// The owner of an investment who sells it is credited with its amount; the
/// investments and the next id stay as they were.
pub proof fn lemma_sell_investment_credits_owner(s: BankView, seller: Seq<char>, id: int)
    requires
        s.investments.contains_key(id),
        s.investments[id].owner == seller,
    ensures
        sell_investment_spec(s, seller, id) is Ok,
        ({
            let next = sell_investment_spec(s, seller, id)->Ok_0;
            &&& next.balances[seller] == s.balances[seller] + s.investments[id].amount
            &&& next.investments == s.investments
            &&& next.next_id == s.next_id
        }),
{
}

/// Anyone but its owner who tries to sell an investment is refused with
/// `UnauthorizedSale`.
pub proof fn lemma_sell_by_other_refused(s: BankView, seller: Seq<char>, id: int)
    requires
        s.investments.contains_key(id),
        s.investments[id].owner != seller,
    ensures
        sell_investment_spec(s, seller, id) == Err::<BankView, BankError>(
            BankError::UnauthorizedSale,
        ),
{
}

/// Selling an id that no investment has is refused with `UnknownInvestment`.
pub proof fn lemma_sell_unknown_refused(s: BankView, seller: Seq<char>, id: int)
    requires
        !s.investments.contains_key(id),
    ensures
        sell_investment_spec(s, seller, id) == Err::<BankView, BankError>(
            BankError::UnknownInvestment,
        ),
{
}

} // verus!
