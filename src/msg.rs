//! Requests, answers, errors and token metadata.
use vstd::prelude::*;

verus! {

/// When an allowance stops being usable.
#[derive(Clone, Copy, Debug, PartialEq, Eq, Structural)]
pub enum Expiration {
    AtHeight(u64),
    AtTime(u64),
    Never {},
}

/// The block context a request runs in.
#[derive(Clone, Copy, Debug, PartialEq, Eq, Structural)]
pub struct BlockInfo {
    pub height: u64,
    pub time: u64,
}

impl Expiration {
    pub open spec fn expired_at(self, block: BlockInfo) -> bool {
        match self {
            Expiration::AtHeight(h) => block.height > h,
            Expiration::AtTime(t) => block.time > t,
            Expiration::Never {} => false,
        }
    }

    /// "Never" never expires; a height or a time expires once the block is past it.
    pub fn is_expired(&self, block: &BlockInfo) -> (r: bool)
        ensures
            r == self.expired_at(*block),
    {
        match self {
            Expiration::AtHeight(h) => block.height > *h,
            Expiration::AtTime(t) => block.time > *t,
            Expiration::Never {} => false,
        }
    }
}

/// Why a request was refused. Every error aborts the whole request.
#[derive(Clone, Copy, Debug, PartialEq, Eq, Structural)]
pub enum ContractError {
    NotInitialized,
    AlreadyInitialized,
    InvalidAddress,
    InsufficientFunds,
    InsufficientAllowance,
    Unauthorized,
    MintingDisabled,
    CapExceeded,
    SupplyUnderflow,
    Overflow,
    Expired,
    InvariantViolation,
}

/// Mint authority: the one account that may mint, and an optional cap on the supply.
#[derive(Clone, Debug, PartialEq, Eq)]
pub struct MinterData {
    pub minter: String,
    pub cap: Option<u128>,
}

/// Token metadata and the current total supply.
#[derive(Clone, Debug, PartialEq, Eq)]
pub struct TokenInfo {
    pub name: String,
    pub symbol: String,
    pub decimals: u8,
    pub total_supply: u128,
    pub mint: Option<MinterData>,
}

#[derive(Clone, Debug, PartialEq, Eq)]
pub struct Cw20Coin {
    pub address: String,
    pub amount: u128,
}

#[derive(Clone, Debug, PartialEq, Eq)]
pub struct MinterResponse {
    pub minter: String,
    pub cap: Option<u128>,
}

#[derive(Clone, Debug, PartialEq, Eq)]
pub struct InstantiateMsg {
    pub name: String,
    pub symbol: String,
    pub decimals: u8,
    pub initial_balances: Vec<Cw20Coin>,
    pub mint: Option<MinterResponse>,
}

/// A state-changing request, with every address already validated.
#[derive(Clone, Debug, PartialEq, Eq)]
pub enum ExecuteMsg {
    Transfer { recipient: String, amount: u128 },
    Burn { amount: u128 },
    Send { contract: String, amount: u128, msg: Vec<u8> },
    IncreaseAllowance { spender: String, amount: u128, expires: Option<Expiration> },
    DecreaseAllowance { spender: String, amount: u128, expires: Option<Expiration> },
    TransferFrom { owner: String, recipient: String, amount: u128 },
    SendFrom { owner: String, contract: String, amount: u128, msg: Vec<u8> },
    BurnFrom { owner: String, amount: u128 },
    Mint { recipient: String, amount: u128 },
}

/// A read-only request.
#[derive(Clone, Debug, PartialEq, Eq)]
pub enum QueryMsg {
    Balance { address: String },
    TokenInfo {},
    Minter {},
    Allowance { owner: String, spender: String },
    AllAllowances { owner: String, start_after: Option<String>, limit: Option<u32> },
    AllAccounts { start_after: Option<String>, limit: Option<u32> },
}

#[derive(Clone, Copy, Debug, PartialEq, Eq, Structural)]
pub struct BalanceResponse {
    pub balance: u128,
}

#[derive(Clone, Debug, PartialEq, Eq)]
pub struct TokenInfoResponse {
    pub name: String,
    pub symbol: String,
    pub decimals: u8,
    pub total_supply: u128,
}

#[derive(Clone, Copy, Debug, PartialEq, Eq, Structural)]
pub struct AllowanceResponse {
    pub allowance: u128,
    pub expires: Expiration,
}

/// The answer to a [`QueryMsg`].
#[derive(Clone, Debug, PartialEq, Eq)]
pub enum QueryResponse {
    Balance(BalanceResponse),
    TokenInfo(TokenInfoResponse),
    Minter(Option<MinterResponse>),
    Allowance(AllowanceResponse),
}

} // verus!
