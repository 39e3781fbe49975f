//! Requests to the ledger and its answers. Accounts are named by canonical address bytes.
use vstd::prelude::*;

verus! {

/// Metadata of the token, given once at initialization.
#[derive(Clone, Debug, PartialEq, Eq)]
pub struct InitMsg {
    pub name: String,
    pub symbol: String,
    pub decimals: u8,
}

/// A mutating request, made by an authenticated caller.
#[derive(Clone, Debug, PartialEq, Eq)]
pub enum HandleMsg {
    DepositTo { to: Vec<u8>, value: u128 },
    BurnFrom { from: Vec<u8>, value: u128 },
    Transfer { to: Vec<u8>, value: u128 },
    TransferFrom { from: Vec<u8>, to: Vec<u8>, value: u128 },
    Approve { spender: Vec<u8>, value: u128 },
    Allowance { owner: Vec<u8>, spender: Vec<u8> },
}

#[derive(PartialEq, Eq, Structural, Clone, Copy, Debug)]
pub enum Status {
    Success,
    Failure,
}

/// The answer to a mutating request that succeeded.
#[derive(Clone, Debug, PartialEq, Eq)]
pub enum HandleResult {
    DepositTo { status: Status },
    BurnFrom { status: Status },
    Transfer { status: Status },
    TransferFrom { status: Status },
    Approve { status: Status },
    Allowance { owner: Vec<u8>, spender: Vec<u8>, value: u128 },
}

/// A read request.
#[derive(Clone, Debug, PartialEq, Eq)]
pub enum QueryMsg {
    Name,
    Symbol,
    Decimals,
    BalanceOf { address: Vec<u8> },
    TotalSupply,
}

/// The answer to a read request.
#[derive(Clone, Debug, PartialEq, Eq)]
pub enum QueryResult {
    Name { name: String },
    Symbol { symbol: String },
    Decimals { decimals: u8 },
    BalanceOf { balance: u128 },
    TotalSupply { total_supply: u128 },
    Owner { owner: String },
}

} // verus!
