//! Balances and allowances as sequences of entries, what they mean, and the facts about them.
use crate::msg::{Cw20Coin, Expiration};
use vstd::prelude::*;

verus! {

/// One holder's balance.
#[derive(Clone, Debug, PartialEq, Eq)]
pub struct BalanceEntry {
    pub account: String,
    pub amount: u128,
}

/// What `spender` may still draw from `owner`, and until when.
#[derive(Clone, Debug, PartialEq, Eq)]
pub struct AllowanceEntry {
    pub owner: String,
    pub spender: String,
    pub allowance: u128,
    pub expires: Expiration,
}

/// Sum of every entry's amount.
pub open spec fn sum_amounts(s: Seq<BalanceEntry>) -> int
    decreases s.len(),
{
    if s.len() == 0 {
        0
    } else {
        sum_amounts(s.drop_last()) + s.last().amount
    }
}

/// Balance of `a`: the amounts of its entries added up (zero when it has none).
pub open spec fn balance_in(s: Seq<BalanceEntry>, a: Seq<char>) -> int
    decreases s.len(),
{
    if s.len() == 0 {
        0
    } else {
        balance_in(s.drop_last(), a) + if s.last().account@ == a {
            s.last().amount as int
        } else {
            0
        }
    }
}

/// No account holds two entries.
pub open spec fn accounts_unique(s: Seq<BalanceEntry>) -> bool {
    forall|i: int, j: int|
        0 <= i < s.len() && 0 <= j < s.len() && i != j ==> s[i].account@ != s[j].account@
}

/// Stored allowance of `spender` on `owner`: the last entry for the pair, or none.
pub open spec fn allowance_in(s: Seq<AllowanceEntry>, owner: Seq<char>, spender: Seq<char>) -> (
    int,
    Expiration,
)
    decreases s.len(),
{
    if s.len() == 0 {
        (0, Expiration::Never {  })
    } else if s.last().owner@ == owner && s.last().spender@ == spender {
        (s.last().allowance as int, s.last().expires)
    } else {
        allowance_in(s.drop_last(), owner, spender)
    }
}

pub proof fn lemma_balance_le_sum(s: Seq<BalanceEntry>, a: Seq<char>)
    ensures
        0 <= balance_in(s, a) <= sum_amounts(s),
    decreases s.len(),
{
    if s.len() > 0 {
        lemma_balance_le_sum(s.drop_last(), a);
    }
}

pub proof fn lemma_balance_absent(s: Seq<BalanceEntry>, a: Seq<char>)
    requires
        forall|j: int| 0 <= j < s.len() ==> s[j].account@ != a,
    ensures
        balance_in(s, a) == 0,
    decreases s.len(),
{
    if s.len() > 0 {
        lemma_balance_absent(s.drop_last(), a);
    }
}

pub proof fn lemma_balance_at(s: Seq<BalanceEntry>, i: int, a: Seq<char>)
    requires
        0 <= i < s.len(),
        s[i].account@ == a,
        forall|j: int| 0 <= j < s.len() && j != i ==> s[j].account@ != a,
    ensures
        balance_in(s, a) == s[i].amount,
    decreases s.len(),
{
    if i == s.len() - 1 {
        lemma_balance_absent(s.drop_last(), a);
    } else {
        lemma_balance_at(s.drop_last(), i, a);
    }
}

pub proof fn lemma_balance_update(s: Seq<BalanceEntry>, i: int, e: BalanceEntry)
    requires
        0 <= i < s.len(),
        e.account@ == s[i].account@,
    ensures
        sum_amounts(s.update(i, e)) == sum_amounts(s) - s[i].amount + e.amount,
        forall|b: Seq<char>|
            #[trigger] balance_in(s.update(i, e), b) == balance_in(s, b) + if s[i].account@ == b {
                e.amount - s[i].amount
            } else {
                0
            },
    decreases s.len(),
{
    let t = s.update(i, e);
    if i == s.len() - 1 {
        assert(t.drop_last() =~= s.drop_last());
    } else {
        assert(t.drop_last() =~= s.drop_last().update(i, e));
        assert(t.last() == s.last());
        lemma_balance_update(s.drop_last(), i, e);
        assert forall|b: Seq<char>|
            #[trigger] balance_in(t, b) == balance_in(s, b) + if s[i].account@ == b {
                e.amount - s[i].amount
            } else {
                0
            } by {
            assert(balance_in(t.drop_last(), b) == balance_in(s.drop_last(), b) + if s[i].account@
                == b {
                e.amount - s[i].amount
            } else {
                0
            });
        }
    }
}

pub proof fn lemma_balance_push(s: Seq<BalanceEntry>, e: BalanceEntry)
    ensures
        sum_amounts(s.push(e)) == sum_amounts(s) + e.amount,
        forall|b: Seq<char>|
            #[trigger] balance_in(s.push(e), b) == balance_in(s, b) + if e.account@ == b {
                e.amount as int
            } else {
                0
            },
{
    assert(s.push(e).drop_last() =~= s);
}

/// Whether an allowance entry is the one of `owner` and `spender`.
pub open spec fn is_pair(e: AllowanceEntry, owner: Seq<char>, spender: Seq<char>) -> bool {
    e.owner@ == owner && e.spender@ == spender
}

/// What an allowance reads as once stored: an exhausted one is (0, never).
pub open spec fn stored(amount: int, expires: Expiration) -> (int, Expiration) {
    if amount == 0 {
        (0, Expiration::Never {  })
    } else {
        (amount, expires)
    }
}

pub proof fn lemma_allowance_absent(s: Seq<AllowanceEntry>, o: Seq<char>, sp: Seq<char>)
    requires
        forall|j: int| 0 <= j < s.len() ==> !is_pair(s[j], o, sp),
    ensures
        allowance_in(s, o, sp) == (0int, Expiration::Never {  }),
    decreases s.len(),
{
    if s.len() > 0 {
        lemma_allowance_absent(s.drop_last(), o, sp);
    }
}

pub proof fn lemma_allowance_at(s: Seq<AllowanceEntry>, i: int, o: Seq<char>, sp: Seq<char>)
    requires
        0 <= i < s.len(),
        is_pair(s[i], o, sp),
        forall|j: int| i < j < s.len() ==> !is_pair(s[j], o, sp),
    ensures
        allowance_in(s, o, sp) == (s[i].allowance as int, s[i].expires),
    decreases s.len(),
{
    if i < s.len() - 1 {
        lemma_allowance_at(s.drop_last(), i, o, sp);
    }
}

pub proof fn lemma_allowance_update_other(
    s: Seq<AllowanceEntry>,
    i: int,
    e: AllowanceEntry,
    o: Seq<char>,
    sp: Seq<char>,
)
    requires
        0 <= i < s.len(),
        e.owner@ == s[i].owner@,
        e.spender@ == s[i].spender@,
        !is_pair(e, o, sp),
    ensures
        allowance_in(s.update(i, e), o, sp) == allowance_in(s, o, sp),
    decreases s.len(),
{
    let t = s.update(i, e);
    if i == s.len() - 1 {
        assert(t.drop_last() =~= s.drop_last());
    } else {
        assert(t.drop_last() =~= s.drop_last().update(i, e));
        lemma_allowance_update_other(s.drop_last(), i, e, o, sp);
    }
}

pub proof fn lemma_allowance_push_other(s: Seq<AllowanceEntry>, e: AllowanceEntry, o: Seq<char>, sp: Seq<char>)
    requires
        !is_pair(e, o, sp),
    ensures
        allowance_in(s.push(e), o, sp) == allowance_in(s, o, sp),
{
    assert(s.push(e).drop_last() =~= s);
}

pub proof fn lemma_sum_prefix_le(s: Seq<BalanceEntry>, k: int)
    requires
        0 <= k <= s.len(),
    ensures
        sum_amounts(s.take(k)) <= sum_amounts(s),
    decreases s.len(),
{
    if k == s.len() {
        assert(s.take(k) =~= s);
    } else {
        assert(s.take(k) =~= s.drop_last().take(k));
        lemma_sum_prefix_le(s.drop_last(), k);
    }
}

/// Sum of the amounts of a list of coins.
pub open spec fn coins_sum(s: Seq<Cw20Coin>) -> int
    decreases s.len(),
{
    if s.len() == 0 {
        0
    } else {
        coins_sum(s.drop_last()) + s.last().amount
    }
}

/// What a list of coins gives `a`: the amounts addressed to it, added up.
pub open spec fn coins_balance(s: Seq<Cw20Coin>, a: Seq<char>) -> int
    decreases s.len(),
{
    if s.len() == 0 {
        0
    } else {
        coins_balance(s.drop_last(), a) + if s.last().address@ == a {
            s.last().amount as int
        } else {
            0
        }
    }
}

pub proof fn lemma_coins_prefix_le(s: Seq<Cw20Coin>, k: int)
    requires
        0 <= k <= s.len(),
    ensures
        coins_sum(s.take(k)) <= coins_sum(s),
    decreases s.len(),
{
    if k == s.len() {
        assert(s.take(k) =~= s);
    } else {
        assert(s.take(k) =~= s.drop_last().take(k));
        lemma_coins_prefix_le(s.drop_last(), k);
    }
}

pub proof fn lemma_allowance_in_nonnegative(s: Seq<AllowanceEntry>, o: Seq<char>, sp: Seq<char>)
    ensures
        0 <= allowance_in(s, o, sp).0 <= u128::MAX,
    decreases s.len(),
{
    if s.len() > 0 {
        lemma_allowance_in_nonnegative(s.drop_last(), o, sp);
    }
}

} // verus!
