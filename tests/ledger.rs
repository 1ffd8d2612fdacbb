use cw20_token::ledger::Ledger;
use cw20_token::model::BalanceEntry;
use cw20_token::msg::{
    AllowanceResponse, BalanceResponse, BlockInfo, ContractError, Cw20Coin, ExecuteMsg,
    Expiration, InstantiateMsg, MinterResponse, QueryMsg, QueryResponse, TokenInfoResponse,
};

fn s(x: &str) -> String {
    x.to_string()
}

fn coin(address: &str, amount: u128) -> Cw20Coin {
    Cw20Coin { address: s(address), amount }
}

fn init(coins: Vec<Cw20Coin>, minter: Option<(&str, Option<u128>)>) -> Ledger {
    let msg = InstantiateMsg {
        name: s("Token"),
        symbol: s("TKN"),
        decimals: 6,
        initial_balances: coins,
        mint: minter.map(|(m, cap)| MinterResponse { minter: s(m), cap }),
    };
    Ledger::instantiate(&msg).unwrap()
}

fn bal(l: &Ledger, a: &str) -> u128 {
    l.query_balance(&s(a)).balance
}

fn block() -> BlockInfo {
    BlockInfo { height: 100, time: 1000 }
}

#[test]
fn example_mint_transfer_burn() {
    let mut l = init(vec![coin("A", 1000)], Some(("M", Some(2000))));
    assert_eq!(l.execute_mint(&s("M"), &s("B"), 500), Ok(()));
    assert_eq!(l.info.total_supply, 1500);
    assert_eq!(bal(&l, "B"), 500);
    assert_eq!(l.execute_transfer(&s("A"), &s("B"), 300), Ok(()));
    assert_eq!(bal(&l, "A"), 700);
    assert_eq!(bal(&l, "B"), 800);
    assert_eq!(l.execute_burn(&s("A"), 700), Ok(()));
    assert_eq!(bal(&l, "A"), 0);
    assert_eq!(l.info.total_supply, 800);
}

#[test]
fn cap_enforced() {
    let mut l = init(vec![coin("A", 900)], Some(("M", Some(1000))));
    assert_eq!(l.execute_mint(&s("M"), &s("B"), 150), Err(ContractError::CapExceeded));
    assert_eq!(l.info.total_supply, 900);
    assert_eq!(bal(&l, "B"), 0);
    assert_eq!(l.execute_mint(&s("M"), &s("B"), 100), Ok(()));
    assert_eq!(l.info.total_supply, 1000);
}

#[test]
fn allowance_lifecycle() {
    let mut l = init(vec![coin("owner", 500)], None);
    assert_eq!(l.increase_allowance(&s("owner"), &s("spender"), 100, None), Ok(()));
    assert_eq!(
        l.transfer_from(&s("spender"), &s("owner"), &s("rcpt"), 60, &block()),
        Ok(())
    );
    assert_eq!(
        l.query_allowance(&s("owner"), &s("spender")),
        AllowanceResponse { allowance: 40, expires: Expiration::Never {} }
    );
    assert_eq!(bal(&l, "owner"), 440);
    assert_eq!(bal(&l, "rcpt"), 60);
    assert_eq!(
        l.transfer_from(&s("spender"), &s("owner"), &s("rcpt"), 50, &block()),
        Err(ContractError::InsufficientAllowance)
    );
    assert_eq!(bal(&l, "owner"), 440);
    assert_eq!(bal(&l, "rcpt"), 60);
    assert_eq!(l.query_allowance(&s("owner"), &s("spender")).allowance, 40);
}

#[test]
fn transfer_conserves_and_checks_funds() {
    let mut l = init(vec![coin("a", 10), coin("c", 5)], None);
    assert_eq!(l.execute_transfer(&s("a"), &s("b"), 11), Err(ContractError::InsufficientFunds));
    assert_eq!(bal(&l, "a"), 10);
    assert_eq!(l.execute_transfer(&s("a"), &s("b"), 10), Ok(()));
    assert_eq!(bal(&l, "a"), 0);
    assert_eq!(bal(&l, "b"), 10);
    assert_eq!(bal(&l, "c"), 5);
    assert_eq!(l.info.total_supply, 15);
}

#[test]
fn self_transfer_needs_funds() {
    let mut l = init(vec![coin("a", 10)], None);
    assert_eq!(l.execute_transfer(&s("a"), &s("a"), 10), Ok(()));
    assert_eq!(bal(&l, "a"), 10);
    assert_eq!(l.execute_transfer(&s("a"), &s("a"), 11), Err(ContractError::InsufficientFunds));
}

#[test]
fn zero_transfer_from_empty_account() {
    let mut l = init(vec![], None);
    assert_eq!(l.execute_transfer(&s("x"), &s("y"), 0), Ok(()));
    assert_eq!(bal(&l, "y"), 0);
    assert_eq!(l.execute_transfer(&s("x"), &s("y"), 1), Err(ContractError::InsufficientFunds));
}

#[test]
fn burn_too_much_fails() {
    let mut l = init(vec![coin("a", 10)], None);
    assert_eq!(l.execute_burn(&s("a"), 11), Err(ContractError::InsufficientFunds));
    assert_eq!(l.info.total_supply, 10);
    assert_eq!(l.execute_burn(&s("a"), 4), Ok(()));
    assert_eq!(bal(&l, "a"), 6);
    assert_eq!(l.info.total_supply, 6);
}

#[test]
fn mint_errors() {
    let mut off = init(vec![coin("a", 10)], None);
    assert_eq!(off.execute_mint(&s("a"), &s("a"), 1), Err(ContractError::MintingDisabled));
    let mut l = init(vec![coin("a", 10)], Some(("m", None)));
    assert_eq!(l.execute_mint(&s("a"), &s("a"), 1), Err(ContractError::Unauthorized));
    assert_eq!(bal(&l, "a"), 10);
    assert_eq!(l.info.total_supply, 10);
    assert_eq!(l.execute_mint(&s("m"), &s("a"), u128::MAX), Err(ContractError::Overflow));
    assert_eq!(l.execute_mint(&s("m"), &s("a"), u128::MAX - 10), Ok(()));
    assert_eq!(bal(&l, "a"), u128::MAX);
}

#[test]
fn instantiate_sums_balances() {
    let l = init(vec![coin("a", 10), coin("b", 20), coin("a", 5)], None);
    assert_eq!(l.info.total_supply, 35);
    assert_eq!(bal(&l, "a"), 15);
    assert_eq!(bal(&l, "b"), 20);
    assert_eq!(bal(&l, "z"), 0);
}

#[test]
fn instantiate_errors() {
    let over = InstantiateMsg {
        name: s("T"),
        symbol: s("T"),
        decimals: 0,
        initial_balances: vec![coin("a", u128::MAX), coin("b", 1)],
        mint: None,
    };
    assert_eq!(Ledger::instantiate(&over).err(), Some(ContractError::Overflow));
    let capped = InstantiateMsg {
        name: s("T"),
        symbol: s("T"),
        decimals: 0,
        initial_balances: vec![coin("a", 11)],
        mint: Some(MinterResponse { minter: s("m"), cap: Some(10) }),
    };
    assert_eq!(Ledger::instantiate(&capped).err(), Some(ContractError::CapExceeded));
}

#[test]
fn allowance_expiration() {
    let mut l = init(vec![coin("o", 100)], None);
    let exp = Some(Expiration::AtHeight(99));
    assert_eq!(l.increase_allowance(&s("o"), &s("sp"), 50, exp), Ok(()));
    assert_eq!(
        l.transfer_from(&s("sp"), &s("o"), &s("r"), 10, &block()),
        Err(ContractError::Expired)
    );
    assert_eq!(l.increase_allowance(&s("o"), &s("sp"), 0, Some(Expiration::AtTime(1000))), Ok(()));
    assert_eq!(
        l.transfer_from(&s("sp"), &s("o"), &s("r"), 10, &block()),
        Ok(())
    );
    assert!(Expiration::AtTime(999).is_expired(&block()));
    assert!(!Expiration::AtTime(1000).is_expired(&block()));
    assert!(!Expiration::Never {}.is_expired(&block()));
}

#[test]
fn transfer_from_errors() {
    let mut l = init(vec![coin("o", 5)], None);
    assert_eq!(
        l.transfer_from(&s("sp"), &s("o"), &s("r"), 1, &block()),
        Err(ContractError::Unauthorized)
    );
    assert_eq!(l.increase_allowance(&s("o"), &s("sp"), 10, None), Ok(()));
    assert_eq!(
        l.transfer_from(&s("sp"), &s("o"), &s("r"), 6, &block()),
        Err(ContractError::InsufficientFunds)
    );
    assert_eq!(l.query_allowance(&s("o"), &s("sp")).allowance, 10);
    assert_eq!(bal(&l, "o"), 5);
}

#[test]
fn allowance_exhausted_is_gone() {
    let mut l = init(vec![coin("o", 50)], None);
    let exp = Some(Expiration::AtTime(5000));
    assert_eq!(l.increase_allowance(&s("o"), &s("sp"), 20, exp), Ok(()));
    assert_eq!(l.transfer_from(&s("sp"), &s("o"), &s("r"), 20, &block()), Ok(()));
    assert_eq!(
        l.query_allowance(&s("o"), &s("sp")),
        AllowanceResponse { allowance: 0, expires: Expiration::Never {} }
    );
    assert_eq!(
        l.transfer_from(&s("sp"), &s("o"), &s("r"), 1, &block()),
        Err(ContractError::Unauthorized)
    );
}

#[test]
fn decrease_allowance_saturates() {
    let mut l = init(vec![], None);
    assert_eq!(l.increase_allowance(&s("o"), &s("sp"), 30, Some(Expiration::AtHeight(7))), Ok(()));
    assert_eq!(l.decrease_allowance(&s("o"), &s("sp"), 10, None), Ok(()));
    assert_eq!(
        l.query_allowance(&s("o"), &s("sp")),
        AllowanceResponse { allowance: 20, expires: Expiration::AtHeight(7) }
    );
    assert_eq!(l.decrease_allowance(&s("o"), &s("sp"), 100, Some(Expiration::AtHeight(9))), Ok(()));
    assert_eq!(
        l.query_allowance(&s("o"), &s("sp")),
        AllowanceResponse { allowance: 0, expires: Expiration::Never {} }
    );
}

#[test]
fn increase_allowance_overflow() {
    let mut l = init(vec![], None);
    assert_eq!(l.increase_allowance(&s("o"), &s("sp"), u128::MAX, None), Ok(()));
    assert_eq!(l.increase_allowance(&s("o"), &s("sp"), 1, None), Err(ContractError::Overflow));
    assert_eq!(l.query_allowance(&s("o"), &s("sp")).allowance, u128::MAX);
}

#[test]
fn burn_from_uses_allowance() {
    let mut l = init(vec![coin("o", 100)], None);
    assert_eq!(l.increase_allowance(&s("o"), &s("sp"), 30, None), Ok(()));
    assert_eq!(l.burn_from(&s("sp"), &s("o"), 20, &block()), Ok(()));
    assert_eq!(bal(&l, "o"), 80);
    assert_eq!(l.info.total_supply, 80);
    assert_eq!(l.query_allowance(&s("o"), &s("sp")).allowance, 10);
    assert_eq!(
        l.burn_from(&s("sp"), &s("o"), 11, &block()),
        Err(ContractError::InsufficientAllowance)
    );
}

#[test]
fn execute_dispatches() {
    let mut l = init(vec![coin("a", 100)], Some(("a", None)));
    let b = block();
    let send = ExecuteMsg::Send { contract: s("c"), amount: 10, msg: vec![1, 2] };
    assert_eq!(l.execute(&s("a"), &b, &send), Ok(()));
    assert_eq!(bal(&l, "c"), 10);
    let inc = ExecuteMsg::IncreaseAllowance { spender: s("c"), amount: 5, expires: None };
    assert_eq!(l.execute(&s("a"), &b, &inc), Ok(()));
    let from = ExecuteMsg::SendFrom { owner: s("a"), contract: s("d"), amount: 5, msg: vec![] };
    assert_eq!(l.execute(&s("c"), &b, &from), Ok(()));
    assert_eq!(bal(&l, "d"), 5);
    let mint = ExecuteMsg::Mint { recipient: s("e"), amount: 7 };
    assert_eq!(l.execute(&s("a"), &b, &mint), Ok(()));
    assert_eq!(l.info.total_supply, 107);
    let burn = ExecuteMsg::Burn { amount: 1000 };
    assert_eq!(l.execute(&s("a"), &b, &burn), Err(ContractError::InsufficientFunds));
}

#[test]
fn queries_do_not_change_state() {
    let l = init(vec![coin("a", 3)], Some(("m", Some(9))));
    let q = QueryMsg::Balance { address: s("a") };
    let first = l.query(&q);
    assert_eq!(first, QueryResponse::Balance(BalanceResponse { balance: 3 }));
    assert_eq!(l.query(&q), first);
    assert_eq!(
        l.query(&QueryMsg::TokenInfo {}),
        QueryResponse::TokenInfo(TokenInfoResponse {
            name: s("Token"),
            symbol: s("TKN"),
            decimals: 6,
            total_supply: 3,
        })
    );
    assert_eq!(
        l.query(&QueryMsg::Minter {}),
        QueryResponse::Minter(Some(MinterResponse { minter: s("m"), cap: Some(9) }))
    );
    assert_eq!(
        l.query(&QueryMsg::Allowance { owner: s("a"), spender: s("b") }),
        QueryResponse::Allowance(AllowanceResponse { allowance: 0, expires: Expiration::Never {} })
    );
    assert_eq!(
        l.query(&QueryMsg::AllAccounts { start_after: None, limit: None }),
        QueryResponse::Balance(BalanceResponse { balance: 0 })
    );
}

#[test]
fn restore_checks_invariant() {
    let l = init(vec![coin("a", 3), coin("b", 4)], None);
    let ok = Ledger::restore(l.info.clone(), l.balances.clone(), l.allowances.clone());
    assert!(ok.is_ok());
    let mut dup = l.balances.clone();
    dup.push(BalanceEntry { account: s("a"), amount: 0 });
    let r = Ledger::restore(l.info.clone(), dup, vec![]);
    assert_eq!(r.err(), Some(ContractError::InvariantViolation));
    let short = vec![BalanceEntry { account: s("a"), amount: 3 }];
    let r = Ledger::restore(l.info.clone(), short, vec![]);
    assert_eq!(r.err(), Some(ContractError::InvariantViolation));
}
