//! Properties that hold across the ledger's operations.
use crate::ledger::{burn_spec, mint_spec, transfer_spec, within_cap, Ledger};
use crate::model::{lemma_allowance_in_nonnegative, lemma_balance_le_sum};
use crate::msg::ContractError;
use vstd::prelude::*;

verus! {

/// In a well-formed ledger no balance is negative or larger than the supply,
/// no allowance is negative, and the supply is within the cap.
pub proof fn lemma_amounts_in_range(l: Ledger, a: Seq<char>, owner: Seq<char>, spender: Seq<char>)
    requires
        l.wf(),
    ensures
        0 <= l.balance(a) <= l.supply(),
        0 <= l.allowance(owner, spender).0 <= u128::MAX,
        within_cap(l.info.mint, l.supply()),
{
    lemma_balance_le_sum(l.balances@, a);
    lemma_allowance_in_nonnegative(l.allowances@, owner, spender);
}

/// A transfer conserves the supply: the sender and the recipient together hold
/// what they held before, and the supply does not move.
pub proof fn lemma_transfer_conserves(
    pre: Ledger,
    post: Ledger,
    sender: Seq<char>,
    recipient: Seq<char>,
    amount: int,
    r: Result<(), ContractError>,
)
    requires
        transfer_spec(pre, post, sender, recipient, amount, r),
    ensures
        post.supply() == pre.supply(),
        post.balance(sender) + post.balance(recipient) == pre.balance(sender) + pre.balance(
            recipient,
        ),
        r is Ok <==> pre.balance(sender) >= amount,
{
}

/// A mint by anyone but the configured minter fails with `Unauthorized` and
/// leaves every balance and the supply as they were.
pub proof fn lemma_mint_only_by_minter(
    pre: Ledger,
    post: Ledger,
    caller: Seq<char>,
    recipient: Seq<char>,
    amount: int,
    r: Result<(), ContractError>,
)
    requires
        mint_spec(pre, post, caller, recipient, amount, r),
        pre.info.mint is Some,
        pre.info.mint->0.minter@ != caller,
    ensures
        r == Err::<(), ContractError>(ContractError::Unauthorized),
        post.supply() == pre.supply(),
        forall|b: Seq<char>| #[trigger] post.balance(b) == pre.balance(b),
{
}

/// A mint by the minter that would take the supply past the cap fails with
/// `CapExceeded` and leaves the supply as it was.
pub proof fn lemma_mint_respects_cap(
    pre: Ledger,
    post: Ledger,
    caller: Seq<char>,
    recipient: Seq<char>,
    amount: int,
    r: Result<(), ContractError>,
)
    requires
        mint_spec(pre, post, caller, recipient, amount, r),
        pre.info.mint is Some,
        pre.info.mint->0.minter@ == caller,
        pre.info.mint->0.cap is Some,
        pre.supply() + amount > pre.info.mint->0.cap->0,
    ensures
        r == Err::<(), ContractError>(ContractError::CapExceeded),
        post.supply() == pre.supply(),
{
}

/// A burn lowers the owner's balance and the supply by exactly the amount; one
/// past the owner's balance fails and leaves the supply as it was.
pub proof fn lemma_burn_exact(
    pre: Ledger,
    post: Ledger,
    owner: Seq<char>,
    amount: int,
    r: Result<(), ContractError>,
)
    requires
        burn_spec(pre, post, owner, amount, r),
    ensures
        r is Ok ==> post.balance(owner) == pre.balance(owner) - amount && post.supply()
            == pre.supply() - amount,
        amount > pre.balance(owner) ==> r is Err && post.supply() == pre.supply(),
{
}

} // verus!
