//! The ledger state, its invariant, and the operations on it with their exact outcomes.
use crate::model::{
    accounts_unique, allowance_in, balance_in, coins_balance, coins_sum, is_pair,
    lemma_allowance_absent, lemma_allowance_at, lemma_allowance_push_other,
    lemma_allowance_update_other, lemma_balance_absent, lemma_balance_at, lemma_balance_le_sum,
    lemma_balance_push, lemma_balance_update, lemma_coins_prefix_le, lemma_sum_prefix_le, stored,
    sum_amounts, AllowanceEntry, BalanceEntry,
};
use crate::msg::{
    AllowanceResponse, BalanceResponse, BlockInfo, ContractError, Cw20Coin, ExecuteMsg,
    Expiration, InstantiateMsg, MinterData, MinterResponse, QueryMsg, QueryResponse, TokenInfo,
    TokenInfoResponse,
};
use vstd::prelude::*;

verus! {

/// The ledger: token metadata, balances and allowances. Accounts are
/// validated, canonical address strings. Operations that fail leave it as it
/// was; see [`Ledger::wf`] for what holds between operations.
pub struct Ledger {
    pub info: TokenInfo,
    pub balances: Vec<BalanceEntry>,
    pub allowances: Vec<AllowanceEntry>,
}

/// Whether the supply stays within the cap, if one is set.
pub open spec fn within_cap(mint: Option<MinterData>, supply: int) -> bool {
    match mint {
        Some(m) => match m.cap {
            Some(c) => supply <= c,
            None => true,
        },
        None => true,
    }
}

/// Name, symbol, decimals and mint authority are the same.
pub open spec fn same_metadata(a: TokenInfo, b: TokenInfo) -> bool {
    &&& a.name == b.name
    &&& a.symbol == b.symbol
    &&& a.decimals == b.decimals
    &&& a.mint == b.mint
}

/// Outcome of a transfer: refused when the sender holds too little, else
/// `amount` leaves the sender and reaches the recipient, nothing else changes.
pub open spec fn transfer_spec(
    pre: Ledger,
    post: Ledger,
    sender: Seq<char>,
    recipient: Seq<char>,
    amount: int,
    r: Result<(), ContractError>,
) -> bool {
    if pre.balance(sender) < amount {
        r == Err::<(), ContractError>(ContractError::InsufficientFunds) && post == pre
    } else {
        &&& r is Ok
        &&& post.info == pre.info
        &&& post.allowances == pre.allowances
        &&& forall|b: Seq<char>|
            #[trigger] post.balance(b) == pre.balance(b) - (if b == sender {
                amount
            } else {
                0
            }) + (if b == recipient {
                amount
            } else {
                0
            })
    }
}

/// Outcome of a burn: refused when the owner holds too little, else the owner's
/// balance and the supply both drop by `amount`.
pub open spec fn burn_spec(
    pre: Ledger,
    post: Ledger,
    owner: Seq<char>,
    amount: int,
    r: Result<(), ContractError>,
) -> bool {
    if pre.balance(owner) < amount {
        r == Err::<(), ContractError>(ContractError::InsufficientFunds) && post == pre
    } else {
        &&& r is Ok
        &&& same_metadata(post.info, pre.info)
        &&& post.supply() == pre.supply() - amount
        &&& post.allowances == pre.allowances
        &&& forall|b: Seq<char>|
            #[trigger] post.balance(b) == pre.balance(b) - if b == owner {
                amount
            } else {
                0
            }
    }
}

/// The error a mint meets, if any: no mint authority, a caller other than the
/// minter, a cap that the new supply would pass, or a supply past `u128::MAX`.
pub open spec fn mint_error(pre: Ledger, caller: Seq<char>, amount: int) -> Option<ContractError> {
    match pre.info.mint {
        None => Some(ContractError::MintingDisabled),
        Some(m) => if m.minter@ != caller {
            Some(ContractError::Unauthorized)
        } else if !within_cap(pre.info.mint, pre.supply() + amount) {
            Some(ContractError::CapExceeded)
        } else if pre.supply() + amount > u128::MAX {
            Some(ContractError::Overflow)
        } else {
            None
        },
    }
}

/// Outcome of a mint: on error nothing changes, else the recipient's balance
/// and the supply both grow by `amount`.
pub open spec fn mint_spec(
    pre: Ledger,
    post: Ledger,
    caller: Seq<char>,
    recipient: Seq<char>,
    amount: int,
    r: Result<(), ContractError>,
) -> bool {
    match mint_error(pre, caller, amount) {
        Some(e) => r == Err::<(), ContractError>(e) && post == pre,
        None => {
            &&& r is Ok
            &&& same_metadata(post.info, pre.info)
            &&& post.supply() == pre.supply() + amount
            &&& post.allowances == pre.allowances
            &&& forall|b: Seq<char>|
                #[trigger] post.balance(b) == pre.balance(b) + if b == recipient {
                    amount
                } else {
                    0
                }
        },
    }
}

/// Only the allowance of `owner` and `spender` may differ.
pub open spec fn other_allowances_kept(pre: Ledger, post: Ledger, owner: Seq<char>, spender: Seq<char>) -> bool {
    forall|o: Seq<char>, sp: Seq<char>|
        !(o == owner && sp == spender) ==> #[trigger] post.allowance(o, sp) == pre.allowance(o, sp)
}

/// The expiration given, or the one already stored.
pub open spec fn new_expiration(given: Option<Expiration>, current: Expiration) -> Expiration {
    match given {
        Some(e) => e,
        None => current,
    }
}

/// Outcome of raising an allowance: refused when the sum would pass
/// `u128::MAX`, else the remaining amount grows and a given expiration replaces
/// the stored one.
pub open spec fn increase_spec(
    pre: Ledger,
    post: Ledger,
    owner: Seq<char>,
    spender: Seq<char>,
    amount: int,
    expires: Option<Expiration>,
    r: Result<(), ContractError>,
) -> bool {
    let (cur, exp) = pre.allowance(owner, spender);
    if cur + amount > u128::MAX {
        r == Err::<(), ContractError>(ContractError::Overflow) && post == pre
    } else {
        &&& r is Ok
        &&& post.info == pre.info
        &&& post.balances == pre.balances
        &&& post.allowance(owner, spender) == stored(cur + amount, new_expiration(expires, exp))
        &&& other_allowances_kept(pre, post, owner, spender)
    }
}

/// Outcome of lowering an allowance: never refused; the remaining amount drops,
/// not below zero, and at zero the allowance is gone.
pub open spec fn decrease_spec(
    pre: Ledger,
    post: Ledger,
    owner: Seq<char>,
    spender: Seq<char>,
    amount: int,
    expires: Option<Expiration>,
) -> bool {
    let (cur, exp) = pre.allowance(owner, spender);
    let left = if cur > amount {
        cur - amount
    } else {
        0
    };
    &&& post.info == pre.info
    &&& post.balances == pre.balances
    &&& post.allowance(owner, spender) == stored(left, new_expiration(expires, exp))
    &&& other_allowances_kept(pre, post, owner, spender)
}

/// Why `spender` may not draw `amount` from `owner` in `block`, if it may not:
/// no allowance, an expired one, or one too small.
pub open spec fn allowance_error(
    pre: Ledger,
    owner: Seq<char>,
    spender: Seq<char>,
    amount: int,
    block: BlockInfo,
) -> Option<ContractError> {
    let (cur, exp) = pre.allowance(owner, spender);
    if cur == 0 {
        Some(ContractError::Unauthorized)
    } else if exp.expired_at(block) {
        Some(ContractError::Expired)
    } else if cur < amount {
        Some(ContractError::InsufficientAllowance)
    } else {
        None
    }
}

/// The allowance of `owner` and `spender` has dropped by `amount`, no other has moved.
pub open spec fn allowance_spent(pre: Ledger, post: Ledger, owner: Seq<char>, spender: Seq<char>, amount: int) -> bool {
    let (cur, exp) = pre.allowance(owner, spender);
    &&& post.allowance(owner, spender) == stored(cur - amount, exp)
    &&& other_allowances_kept(pre, post, owner, spender)
}

/// Outcome of a transfer drawn on an allowance: the allowance checks first,
/// then the owner's funds; on success the allowance drops by `amount` and
/// `amount` moves from the owner to the recipient.
pub open spec fn transfer_from_spec(
    pre: Ledger,
    post: Ledger,
    caller: Seq<char>,
    owner: Seq<char>,
    recipient: Seq<char>,
    amount: int,
    block: BlockInfo,
    r: Result<(), ContractError>,
) -> bool {
    match allowance_error(pre, owner, caller, amount, block) {
        Some(e) => r == Err::<(), ContractError>(e) && post == pre,
        None => if pre.balance(owner) < amount {
            r == Err::<(), ContractError>(ContractError::InsufficientFunds) && post == pre
        } else {
            &&& r is Ok
            &&& post.info == pre.info
            &&& allowance_spent(pre, post, owner, caller, amount)
            &&& forall|b: Seq<char>|
                #[trigger] post.balance(b) == pre.balance(b) - (if b == owner {
                    amount
                } else {
                    0
                }) + (if b == recipient {
                    amount
                } else {
                    0
                })
        },
    }
}

/// Outcome of a burn drawn on an allowance: the allowance checks first, then
/// the owner's funds; on success the allowance, the owner's balance and the
/// supply all drop by `amount`.
pub open spec fn burn_from_spec(
    pre: Ledger,
    post: Ledger,
    caller: Seq<char>,
    owner: Seq<char>,
    amount: int,
    block: BlockInfo,
    r: Result<(), ContractError>,
) -> bool {
    match allowance_error(pre, owner, caller, amount, block) {
        Some(e) => r == Err::<(), ContractError>(e) && post == pre,
        None => if pre.balance(owner) < amount {
            r == Err::<(), ContractError>(ContractError::InsufficientFunds) && post == pre
        } else {
            &&& r is Ok
            &&& same_metadata(post.info, pre.info)
            &&& post.supply() == pre.supply() - amount
            &&& allowance_spent(pre, post, owner, caller, amount)
            &&& forall|b: Seq<char>|
                #[trigger] post.balance(b) == pre.balance(b) - if b == owner {
                    amount
                } else {
                    0
                }
        },
    }
}

/// The mint authority that an instantiation asks for.
pub open spec fn minter_of(m: Option<MinterResponse>) -> Option<MinterData> {
    match m {
        Some(r) => Some(MinterData { minter: r.minter, cap: r.cap }),
        None => None,
    }
}

/// Outcome of instantiation: refused when the initial balances add up past
/// `u128::MAX` or past the cap; else the ledger holds the metadata asked for,
/// the initial balances, their sum as supply, and no allowance.
pub open spec fn instantiate_spec(msg: InstantiateMsg, r: Result<Ledger, ContractError>) -> bool {
    let total = coins_sum(msg.initial_balances@);
    if total > u128::MAX {
        r == Err::<Ledger, ContractError>(ContractError::Overflow)
    } else if !within_cap(minter_of(msg.mint), total) {
        r == Err::<Ledger, ContractError>(ContractError::CapExceeded)
    } else {
        match r {
            Ok(l) => {
                &&& l.wf()
                &&& l.info.name == msg.name
                &&& l.info.symbol == msg.symbol
                &&& l.info.decimals == msg.decimals
                &&& l.info.mint == minter_of(msg.mint)
                &&& l.supply() == total
                &&& forall|a: Seq<char>|
                    #[trigger] l.balance(a) == coins_balance(msg.initial_balances@, a)
                &&& forall|o: Seq<char>, sp: Seq<char>|
                    #[trigger] l.allowance(o, sp) == (0int, Expiration::Never {  })
            },
            Err(_) => false,
        }
    }
}

/// Outcome of a request sent by `sender`: that of the operation it names.
/// A send moves tokens as a transfer does; its payload is delivered elsewhere.
pub open spec fn execute_spec(
    pre: Ledger,
    post: Ledger,
    sender: Seq<char>,
    block: BlockInfo,
    msg: ExecuteMsg,
    r: Result<(), ContractError>,
) -> bool {
    match msg {
        ExecuteMsg::Transfer { recipient, amount } => transfer_spec(
            pre,
            post,
            sender,
            recipient@,
            amount as int,
            r,
        ),
        ExecuteMsg::Burn { amount } => burn_spec(pre, post, sender, amount as int, r),
        ExecuteMsg::Send { contract, amount, msg: _ } => transfer_spec(
            pre,
            post,
            sender,
            contract@,
            amount as int,
            r,
        ),
        ExecuteMsg::IncreaseAllowance { spender, amount, expires } => increase_spec(
            pre,
            post,
            sender,
            spender@,
            amount as int,
            expires,
            r,
        ),
        ExecuteMsg::DecreaseAllowance { spender, amount, expires } => r is Ok && decrease_spec(
            pre,
            post,
            sender,
            spender@,
            amount as int,
            expires,
        ),
        ExecuteMsg::TransferFrom { owner, recipient, amount } => transfer_from_spec(
            pre,
            post,
            sender,
            owner@,
            recipient@,
            amount as int,
            block,
            r,
        ),
        ExecuteMsg::SendFrom { owner, contract, amount, msg: _ } => transfer_from_spec(
            pre,
            post,
            sender,
            owner@,
            contract@,
            amount as int,
            block,
            r,
        ),
        ExecuteMsg::BurnFrom { owner, amount } => burn_from_spec(
            pre,
            post,
            sender,
            owner@,
            amount as int,
            block,
            r,
        ),
        ExecuteMsg::Mint { recipient, amount } => mint_spec(
            pre,
            post,
            sender,
            recipient@,
            amount as int,
            r,
        ),
    }
}

/// The answer to a query on `l`; listing queries answer with a zero balance.
pub open spec fn query_result(l: Ledger, msg: QueryMsg) -> QueryResponse {
    match msg {
        QueryMsg::Balance { address } => QueryResponse::Balance(
            BalanceResponse { balance: l.balance(address@) as u128 },
        ),
        QueryMsg::TokenInfo {  } => QueryResponse::TokenInfo(
            TokenInfoResponse {
                name: l.info.name,
                symbol: l.info.symbol,
                decimals: l.info.decimals,
                total_supply: l.info.total_supply,
            },
        ),
        QueryMsg::Minter {  } => QueryResponse::Minter(minter_response(l.info.mint)),
        QueryMsg::Allowance { owner, spender } => QueryResponse::Allowance(
            AllowanceResponse {
                allowance: l.allowance(owner@, spender@).0 as u128,
                expires: l.allowance(owner@, spender@).1,
            },
        ),
        _ => QueryResponse::Balance(BalanceResponse { balance: 0 }),
    }
}

/// The mint authority as a query reports it.
pub open spec fn minter_response(m: Option<MinterData>) -> Option<MinterResponse> {
    match m {
        Some(d) => Some(MinterResponse { minter: d.minter, cap: d.cap }),
        None => None,
    }
}

impl Ledger {
    /// Balance of an account, zero when it has none.
    pub open spec fn balance(&self, a: Seq<char>) -> int {
        balance_in(self.balances@, a)
    }

    /// Allowance of `spender` on `owner`; an exhausted one reads as (0, never).
    pub open spec fn allowance(&self, owner: Seq<char>, spender: Seq<char>) -> (int, Expiration) {
        let (a, e) = allowance_in(self.allowances@, owner, spender);
        if a == 0 {
            (0, Expiration::Never {  })
        } else {
            (a, e)
        }
    }

    pub open spec fn supply(&self) -> int {
        self.info.total_supply as int
    }

    /// The ledger's invariant: one entry per account, the supply is the sum of
    /// all balances, and it stays within the cap.
    pub open spec fn wf(&self) -> bool {
        &&& accounts_unique(self.balances@)
        &&& self.supply() == sum_amounts(self.balances@)
        &&& within_cap(self.info.mint, self.supply())
    }

    fn find_account(&self, account: &String) -> (r: Option<usize>)
        ensures
            match r {
                Some(i) => i < self.balances@.len() && self.balances@[i as int].account@
                    == account@,
                None => forall|j: int|
                    0 <= j < self.balances@.len() ==> self.balances@[j].account@ != account@,
            },
    {
        let mut i: usize = 0;
        while i < self.balances.len()
            invariant
                i <= self.balances@.len(),
                forall|j: int| 0 <= j < i ==> self.balances@[j].account@ != account@,
            decreases self.balances@.len() - i,
        {
            if self.balances[i].account == *account {
                return Some(i);
            }
            i = i + 1;
        }
        None
    }

    /// Balance of an account, zero when it has none.
    pub fn balance_of(&self, account: &String) -> (r: u128)
        requires
            accounts_unique(self.balances@),
        ensures
            r == self.balance(account@),
    {
        match self.find_account(account) {
            Some(i) => {
                proof {
                    lemma_balance_at(self.balances@, i as int, account@);
                }
                self.balances[i].amount
            },
            None => {
                proof {
                    lemma_balance_absent(self.balances@, account@);
                }
                0
            },
        }
    }

    fn debit(&mut self, account: &String, amount: u128)
        requires
            accounts_unique(old(self).balances@),
            old(self).balance(account@) >= amount,
        ensures
            accounts_unique(final(self).balances@),
            sum_amounts(final(self).balances@) == sum_amounts(old(self).balances@) - amount,
            forall|b: Seq<char>|
                #[trigger] final(self).balance(b) == old(self).balance(b) - if b == account@ {
                    amount as int
                } else {
                    0
                },
            final(self).info == old(self).info,
            final(self).allowances == old(self).allowances,
    {
        match self.find_account(account) {
            Some(i) => {
                proof {
                    lemma_balance_at(self.balances@, i as int, account@);
                }
                let e = BalanceEntry {
                    account: self.balances[i].account.clone(),
                    amount: self.balances[i].amount - amount,
                };
                proof {
                    lemma_balance_update(self.balances@, i as int, e);
                }
                self.balances.set(i, e);
            },
            None => {
                proof {
                    lemma_balance_absent(self.balances@, account@);
                }
            },
        }
    }

    fn credit(&mut self, account: &String, amount: u128)
        requires
            accounts_unique(old(self).balances@),
            old(self).balance(account@) + amount <= u128::MAX,
        ensures
            accounts_unique(final(self).balances@),
            sum_amounts(final(self).balances@) == sum_amounts(old(self).balances@) + amount,
            forall|b: Seq<char>|
                #[trigger] final(self).balance(b) == old(self).balance(b) + if b == account@ {
                    amount as int
                } else {
                    0
                },
            final(self).info == old(self).info,
            final(self).allowances == old(self).allowances,
    {
        match self.find_account(account) {
            Some(i) => {
                proof {
                    lemma_balance_at(self.balances@, i as int, account@);
                }
                let e = BalanceEntry {
                    account: self.balances[i].account.clone(),
                    amount: self.balances[i].amount + amount,
                };
                proof {
                    lemma_balance_update(self.balances@, i as int, e);
                }
                self.balances.set(i, e);
            },
            None => {
                proof {
                    lemma_balance_absent(self.balances@, account@);
                }
                if amount > 0 {
                    let e = BalanceEntry { account: account.clone(), amount };
                    proof {
                        lemma_balance_push(self.balances@, e);
                    }
                    self.balances.push(e);
                }
            },
        }
    }

    /// Move `amount` from `sender` to `recipient`.
    pub fn execute_transfer(&mut self, sender: &String, recipient: &String, amount: u128) -> (r: Result<
        (),
        ContractError,
    >)
        requires
            old(self).wf(),
        ensures
            final(self).wf(),
            transfer_spec(*old(self), *final(self), sender@, recipient@, amount as int, r),
    {
        let bal = self.balance_of(sender);
        if bal < amount {
            return Err(ContractError::InsufficientFunds);
        }
        self.debit(sender, amount);
        proof {
            lemma_balance_le_sum(self.balances@, recipient@);
        }
        self.credit(recipient, amount);
        Ok(())
    }

    /// Destroy `amount` of `owner`'s tokens.
    pub fn execute_burn(&mut self, owner: &String, amount: u128) -> (r: Result<(), ContractError>)
        requires
            old(self).wf(),
        ensures
            final(self).wf(),
            burn_spec(*old(self), *final(self), owner@, amount as int, r),
    {
        let bal = self.balance_of(owner);
        if bal < amount {
            return Err(ContractError::InsufficientFunds);
        }
        proof {
            lemma_balance_le_sum(self.balances@, owner@);
        }
        if self.info.total_supply < amount {
            return Err(ContractError::InvariantViolation);
        }
        self.info.total_supply = self.info.total_supply - amount;
        self.debit(owner, amount);
        Ok(())
    }

    /// Create `amount` new tokens for `recipient`; only the minter may, within the cap.
    pub fn execute_mint(&mut self, caller: &String, recipient: &String, amount: u128) -> (r: Result<
        (),
        ContractError,
    >)
        requires
            old(self).wf(),
        ensures
            final(self).wf(),
            mint_spec(*old(self), *final(self), caller@, recipient@, amount as int, r),
    {
        match &self.info.mint {
            None => {
                return Err(ContractError::MintingDisabled);
            },
            Some(m) => {
                if m.minter != *caller {
                    return Err(ContractError::Unauthorized);
                }
                if let Some(cap) = m.cap {
                    if amount > cap || self.info.total_supply > cap - amount {
                        return Err(ContractError::CapExceeded);
                    }
                }
            },
        }
        if amount > u128::MAX - self.info.total_supply {
            return Err(ContractError::Overflow);
        }
        proof {
            lemma_balance_le_sum(self.balances@, recipient@);
        }
        self.info.total_supply = self.info.total_supply + amount;
        self.credit(recipient, amount);
        Ok(())
    }

    fn find_allowance(&self, owner: &String, spender: &String) -> (r: Option<usize>)
        ensures
            match r {
                Some(i) => i < self.allowances@.len() && is_pair(
                    self.allowances@[i as int],
                    owner@,
                    spender@,
                ) && forall|j: int|
                    i < j < self.allowances@.len() ==> !is_pair(
                        self.allowances@[j],
                        owner@,
                        spender@,
                    ),
                None => forall|j: int|
                    0 <= j < self.allowances@.len() ==> !is_pair(
                        self.allowances@[j],
                        owner@,
                        spender@,
                    ),
            },
    {
        let mut i: usize = self.allowances.len();
        while i > 0
            invariant
                i <= self.allowances@.len(),
                forall|j: int|
                    i <= j < self.allowances@.len() ==> !is_pair(
                        self.allowances@[j],
                        owner@,
                        spender@,
                    ),
            decreases i,
        {
            i = i - 1;
            if self.allowances[i].owner == *owner && self.allowances[i].spender == *spender {
                return Some(i);
            }
        }
        None
    }

    /// Allowance of `spender` on `owner`: (0, never) when there is none.
    pub fn allowance_of(&self, owner: &String, spender: &String) -> (r: (u128, Expiration))
        ensures
            (r.0 as int, r.1) == self.allowance(owner@, spender@),
    {
        match self.find_allowance(owner, spender) {
            Some(i) => {
                proof {
                    lemma_allowance_at(self.allowances@, i as int, owner@, spender@);
                }
                let a = self.allowances[i].allowance;
                if a == 0 {
                    (0, Expiration::Never {  })
                } else {
                    (a, self.allowances[i].expires)
                }
            },
            None => {
                proof {
                    lemma_allowance_absent(self.allowances@, owner@, spender@);
                }
                (0, Expiration::Never {  })
            },
        }
    }

    /// Overwrite the allowance of `spender` on `owner`; zero deletes it.
    fn set_allowance(&mut self, owner: &String, spender: &String, amount: u128, expires: Expiration)
        ensures
            final(self).allowance(owner@, spender@) == stored(amount as int, expires),
            forall|o: Seq<char>, sp: Seq<char>|
                !(o == owner@ && sp == spender@) ==> #[trigger] final(self).allowance(o, sp)
                    == old(self).allowance(o, sp),
            final(self).info == old(self).info,
            final(self).balances == old(self).balances,
    {
        let expires = if amount == 0 {
            Expiration::Never {  }
        } else {
            expires
        };
        match self.find_allowance(owner, spender) {
            Some(i) => {
                let e = AllowanceEntry {
                    owner: self.allowances[i].owner.clone(),
                    spender: self.allowances[i].spender.clone(),
                    allowance: amount,
                    expires,
                };
                proof {
                    let s = self.allowances@;
                    let t = s.update(i as int, e);
                    assert(t[i as int] == e);
                    lemma_allowance_at(t, i as int, owner@, spender@);
                    assert forall|o: Seq<char>, sp: Seq<char>| !(o == owner@ && sp == spender@) implies
                        allowance_in(t, o, sp) == allowance_in(s, o, sp) by {
                        lemma_allowance_update_other(s, i as int, e, o, sp);
                    }
                }
                self.allowances.set(i, e);
            },
            None => {
                if amount > 0 {
                    let e = AllowanceEntry {
                        owner: owner.clone(),
                        spender: spender.clone(),
                        allowance: amount,
                        expires,
                    };
                    proof {
                        let s = self.allowances@;
                        let t = s.push(e);
                        assert(t.drop_last() =~= s);
                        assert forall|o: Seq<char>, sp: Seq<char>|
                            !(o == owner@ && sp == spender@) implies allowance_in(t, o, sp)
                            == allowance_in(s, o, sp) by {
                            lemma_allowance_push_other(s, e, o, sp);
                        }
                    }
                    self.allowances.push(e);
                } else {
                    proof {
                        lemma_allowance_absent(self.allowances@, owner@, spender@);
                    }
                }
            },
        }
    }

    /// Raise the allowance of `spender` on `owner` by `amount`.
    pub fn increase_allowance(
        &mut self,
        owner: &String,
        spender: &String,
        amount: u128,
        expires: Option<Expiration>,
    ) -> (r: Result<(), ContractError>)
        requires
            old(self).wf(),
        ensures
            final(self).wf(),
            increase_spec(*old(self), *final(self), owner@, spender@, amount as int, expires, r),
    {
        let (cur, exp) = self.allowance_of(owner, spender);
        if amount > u128::MAX - cur {
            return Err(ContractError::Overflow);
        }
        let exp = match expires {
            Some(e) => e,
            None => exp,
        };
        self.set_allowance(owner, spender, cur + amount, exp);
        Ok(())
    }

    /// Lower the allowance of `spender` on `owner` by `amount`, stopping at zero.
    pub fn decrease_allowance(
        &mut self,
        owner: &String,
        spender: &String,
        amount: u128,
        expires: Option<Expiration>,
    ) -> (r: Result<(), ContractError>)
        requires
            old(self).wf(),
        ensures
            final(self).wf(),
            r is Ok,
            decrease_spec(*old(self), *final(self), owner@, spender@, amount as int, expires),
    {
        let (cur, exp) = self.allowance_of(owner, spender);
        let left = if cur > amount {
            cur - amount
        } else {
            0
        };
        let exp = match expires {
            Some(e) => e,
            None => exp,
        };
        self.set_allowance(owner, spender, left, exp);
        Ok(())
    }

    /// Check that `spender` may draw `amount` from `owner` in `block`.
    fn check_allowance(&self, owner: &String, spender: &String, amount: u128, block: &BlockInfo) -> (r: Result<
        (),
        ContractError,
    >)
        ensures
            match allowance_error(*self, owner@, spender@, amount as int, *block) {
                Some(e) => r == Err::<(), ContractError>(e),
                None => r is Ok,
            },
    {
        let (cur, exp) = self.allowance_of(owner, spender);
        if cur == 0 {
            Err(ContractError::Unauthorized)
        } else if exp.is_expired(block) {
            Err(ContractError::Expired)
        } else if cur < amount {
            Err(ContractError::InsufficientAllowance)
        } else {
            Ok(())
        }
    }

    /// Lower the allowance of `spender` on `owner` by `amount`, which it covers.
    fn spend_allowance(&mut self, owner: &String, spender: &String, amount: u128)
        requires
            old(self).allowance(owner@, spender@).0 >= amount,
        ensures
            allowance_spent(*old(self), *final(self), owner@, spender@, amount as int),
            final(self).info == old(self).info,
            final(self).balances == old(self).balances,
    {
        let (cur, exp) = self.allowance_of(owner, spender);
        self.set_allowance(owner, spender, cur - amount, exp);
    }

    /// Move `amount` from `owner` to `recipient`, drawn on the caller's allowance.
    pub fn transfer_from(
        &mut self,
        caller: &String,
        owner: &String,
        recipient: &String,
        amount: u128,
        block: &BlockInfo,
    ) -> (r: Result<(), ContractError>)
        requires
            old(self).wf(),
        ensures
            final(self).wf(),
            transfer_from_spec(
                *old(self),
                *final(self),
                caller@,
                owner@,
                recipient@,
                amount as int,
                *block,
                r,
            ),
    {
        self.check_allowance(owner, caller, amount, block)?;
        if self.balance_of(owner) < amount {
            return Err(ContractError::InsufficientFunds);
        }
        self.spend_allowance(owner, caller, amount);
        let ghost mid = *self;
        let r = self.execute_transfer(owner, recipient, amount);
        proof {
            assert forall|o: Seq<char>, sp: Seq<char>| #[trigger] self.allowance(o, sp) == mid.allowance(o, sp) by {}
        }
        r
    }

    /// Destroy `amount` of `owner`'s tokens, drawn on the caller's allowance.
    pub fn burn_from(&mut self, caller: &String, owner: &String, amount: u128, block: &BlockInfo) -> (r: Result<
        (),
        ContractError,
    >)
        requires
            old(self).wf(),
        ensures
            final(self).wf(),
            burn_from_spec(*old(self), *final(self), caller@, owner@, amount as int, *block, r),
    {
        self.check_allowance(owner, caller, amount, block)?;
        if self.balance_of(owner) < amount {
            return Err(ContractError::InsufficientFunds);
        }
        self.spend_allowance(owner, caller, amount);
        let ghost mid = *self;
        let r = self.execute_burn(owner, amount);
        proof {
            assert forall|o: Seq<char>, sp: Seq<char>| #[trigger] self.allowance(o, sp) == mid.allowance(o, sp) by {}
        }
        r
    }

    /// Create the ledger: metadata, mint authority and initial balances.
    pub fn instantiate(msg: &InstantiateMsg) -> (r: Result<Ledger, ContractError>)
        ensures
            instantiate_spec(*msg, r),
    {
        let mint = match &msg.mint {
            Some(m) => Some(MinterData { minter: m.minter.clone(), cap: m.cap }),
            None => None,
        };
        let mut ledger = Ledger {
            info: TokenInfo {
                name: msg.name.clone(),
                symbol: msg.symbol.clone(),
                decimals: msg.decimals,
                total_supply: 0,
                mint,
            },
            balances: Vec::new(),
            allowances: Vec::new(),
        };
        proof {
            assert(msg.initial_balances@.take(0) =~= Seq::<Cw20Coin>::empty());
        }
        let mut total: u128 = 0;
        let mut i: usize = 0;
        while i < msg.initial_balances.len()
            invariant
                i <= msg.initial_balances@.len(),
                total == coins_sum(msg.initial_balances@.take(i as int)),
                accounts_unique(ledger.balances@),
                sum_amounts(ledger.balances@) == total,
                ledger.info.total_supply == total,
                forall|a: Seq<char>|
                    #[trigger] ledger.balance(a) == coins_balance(msg.initial_balances@.take(i as int), a),
                ledger.allowances@.len() == 0,
                ledger.info.name == msg.name,
                ledger.info.symbol == msg.symbol,
                ledger.info.decimals == msg.decimals,
                ledger.info.mint == minter_of(msg.mint),
            decreases msg.initial_balances@.len() - i,
        {
            let c = &msg.initial_balances[i];
            proof {
                assert(msg.initial_balances@.take(i + 1).drop_last() =~= msg.initial_balances@.take(i as int));
                assert(msg.initial_balances@.take(i + 1).last() == msg.initial_balances@[i as int]);
            }
            if c.amount > u128::MAX - total {
                proof {
                    lemma_coins_prefix_le(msg.initial_balances@, i + 1);
                    assert(coins_sum(msg.initial_balances@.take(i + 1)) > u128::MAX);
                    assert(coins_sum(msg.initial_balances@) > u128::MAX);
                }
                return Err(ContractError::Overflow);
            }
            proof {
                lemma_balance_le_sum(ledger.balances@, c.address@);
            }
            let ghost before = ledger;
            ledger.info.total_supply = total + c.amount;
            ledger.credit(&c.address, c.amount);
            proof {
                let pre = msg.initial_balances@.take(i as int);
                let next = msg.initial_balances@.take(i + 1);
                assert forall|a: Seq<char>| #[trigger]
                    ledger.balance(a) == coins_balance(next, a) by {
                    assert(before.balance(a) == coins_balance(pre, a));
                    assert(balance_in(before.balances@, a) == coins_balance(pre, a));
                }
            }
            total = total + c.amount;
            i = i + 1;
        }
        proof {
            assert(msg.initial_balances@.take(i as int) =~= msg.initial_balances@);
            assert(coins_sum(msg.initial_balances@) == total);
        }
        match &ledger.info.mint {
            Some(m) => match m.cap {
                Some(cap) => {
                    if total > cap {
                        return Err(ContractError::CapExceeded);
                    }
                },
                None => {},
            },
            None => {},
        }
        proof {
            assert(within_cap(minter_of(msg.mint), total as int));
            assert forall|o: Seq<char>, sp: Seq<char>|
                #[trigger] ledger.allowance(o, sp) == (0int, Expiration::Never {  }) by {
                lemma_allowance_absent(ledger.allowances@, o, sp);
            }
        }
        Ok(ledger)
    }

    /// Carry out one request sent by `sender` in `block`.
    pub fn execute(&mut self, sender: &String, block: &BlockInfo, msg: &ExecuteMsg) -> (r: Result<
        (),
        ContractError,
    >)
        requires
            old(self).wf(),
        ensures
            final(self).wf(),
            execute_spec(*old(self), *final(self), sender@, *block, *msg, r),
    {
        match msg {
            ExecuteMsg::Transfer { recipient, amount } => self.execute_transfer(sender, recipient, *amount),
            ExecuteMsg::Burn { amount } => self.execute_burn(sender, *amount),
            ExecuteMsg::Send { contract, amount, msg: _ } => self.execute_transfer(sender, contract, *amount),
            ExecuteMsg::IncreaseAllowance { spender, amount, expires } => self.increase_allowance(
                sender,
                spender,
                *amount,
                *expires,
            ),
            ExecuteMsg::DecreaseAllowance { spender, amount, expires } => self.decrease_allowance(
                sender,
                spender,
                *amount,
                *expires,
            ),
            ExecuteMsg::TransferFrom { owner, recipient, amount } => self.transfer_from(
                sender,
                owner,
                recipient,
                *amount,
                block,
            ),
            ExecuteMsg::SendFrom { owner, contract, amount, msg: _ } => self.transfer_from(
                sender,
                owner,
                contract,
                *amount,
                block,
            ),
            ExecuteMsg::BurnFrom { owner, amount } => self.burn_from(sender, owner, *amount, block),
            ExecuteMsg::Mint { recipient, amount } => self.execute_mint(sender, recipient, *amount),
        }
    }

    /// Balance of an account; zero for one that holds nothing.
    pub fn query_balance(&self, address: &String) -> (r: BalanceResponse)
        requires
            self.wf(),
        ensures
            r.balance == self.balance(address@),
    {
        BalanceResponse { balance: self.balance_of(address) }
    }

    /// Name, symbol, decimals and total supply.
    pub fn query_token_info(&self) -> (r: TokenInfoResponse)
        ensures
            r.name == self.info.name,
            r.symbol == self.info.symbol,
            r.decimals == self.info.decimals,
            r.total_supply == self.info.total_supply,
    {
        TokenInfoResponse {
            name: self.info.name.clone(),
            symbol: self.info.symbol.clone(),
            decimals: self.info.decimals,
            total_supply: self.info.total_supply,
        }
    }

    /// The mint authority and its cap, if minting is enabled.
    pub fn query_minter(&self) -> (r: Option<MinterResponse>)
        ensures
            r == minter_response(self.info.mint),
    {
        match &self.info.mint {
            Some(m) => Some(MinterResponse { minter: m.minter.clone(), cap: m.cap }),
            None => None,
        }
    }

    /// Allowance of `spender` on `owner`; (0, never) when there is none.
    pub fn query_allowance(&self, owner: &String, spender: &String) -> (r: AllowanceResponse)
        ensures
            (r.allowance as int, r.expires) == self.allowance(owner@, spender@),
    {
        let (allowance, expires) = self.allowance_of(owner, spender);
        AllowanceResponse { allowance, expires }
    }

    /// Answer a read-only request; the ledger is not changed.
    pub fn query(&self, msg: &QueryMsg) -> (r: QueryResponse)
        requires
            self.wf(),
        ensures
            r == query_result(*self, *msg),
    {
        match msg {
            QueryMsg::Balance { address } => QueryResponse::Balance(self.query_balance(address)),
            QueryMsg::TokenInfo {  } => QueryResponse::TokenInfo(self.query_token_info()),
            QueryMsg::Minter {  } => QueryResponse::Minter(self.query_minter()),
            QueryMsg::Allowance { owner, spender } => QueryResponse::Allowance(
                self.query_allowance(owner, spender),
            ),
            _ => QueryResponse::Balance(BalanceResponse { balance: 0 }),
        }
    }

    /// Rebuild a ledger from stored parts; `InvariantViolation` when they do
    /// not form a well-formed ledger.
    pub fn restore(info: TokenInfo, balances: Vec<BalanceEntry>, allowances: Vec<AllowanceEntry>) -> (r:
        Result<Ledger, ContractError>)
        ensures
            match r {
                Ok(l) => l.wf() && l.info == info && l.balances == balances && l.allowances
                    == allowances,
                Err(e) => e == ContractError::InvariantViolation && !(Ledger {
                    info,
                    balances,
                    allowances,
                }).wf(),
            },
    {
        let n = balances.len();
        let mut i: usize = 0;
        while i < n
            invariant
                n == balances@.len(),
                i <= n,
                forall|p: int, q: int|
                    0 <= p < i && 0 <= q < i && p != q ==> balances@[p].account@
                        != balances@[q].account@,
            decreases n - i,
        {
            let mut j: usize = 0;
            while j < i
                invariant
                    n == balances@.len(),
                    i < n,
                    j <= i,
                    forall|q: int| 0 <= q < j ==> balances@[q].account@ != balances@[i as int].account@,
                decreases i - j,
            {
                if balances[j].account == balances[i].account {
                    return Err(ContractError::InvariantViolation);
                }
                j = j + 1;
            }
            i = i + 1;
        }
        let supply = info.total_supply;
        let mut total: u128 = 0;
        let mut k: usize = 0;
        proof {
            assert(balances@.take(0) =~= Seq::<BalanceEntry>::empty());
        }
        while k < n
            invariant
                n == balances@.len(),
                k <= n,
                total <= supply,
                supply == info.total_supply,
                total == sum_amounts(balances@.take(k as int)),
            decreases n - k,
        {
            proof {
                assert(balances@.take(k + 1).drop_last() =~= balances@.take(k as int));
                assert(balances@.take(k + 1).last() == balances@[k as int]);
            }
            let amount = balances[k].amount;
            if amount > supply - total {
                proof {
                    lemma_sum_prefix_le(balances@, k + 1);
                }
                return Err(ContractError::InvariantViolation);
            }
            total = total + amount;
            k = k + 1;
        }
        proof {
            assert(balances@.take(n as int) =~= balances@);
        }
        if total != supply {
            return Err(ContractError::InvariantViolation);
        }
        if let Some(m) = &info.mint {
            if let Some(cap) = m.cap {
                if supply > cap {
                    return Err(ContractError::InvariantViolation);
                }
            }
        }
        Ok(Ledger { info, balances, allowances })
    }
}

} // verus!
