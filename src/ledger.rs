//! The ledger's operations: each reads the store, validates, and then writes all of its
//! changes, or none of them when it fails.
use vstd::prelude::*;
use cosmwasm_std::MemoryStorage;

use crate::codec::{constants_bytes, u128_bytes, Allowance, Constants, ConstantsFields, LedgerError};
use crate::msg::{HandleMsg, HandleResult, QueryMsg, QueryResult, Status};
use crate::state::{
    allowance_state, balance_state, constants_state, get_allowance, owner_state, set_allowance,
    supply_state, Balances, ContractStorage, ReadOnlyBalances, ReadOnlyContractStorage,
};
use crate::laws::lemma_keys_distinct;
use crate::codec::lemma_u128_round_trip;
use crate::store::{allowance_key, balance_key, constants_key, storage_view, supply_key};

verus! {

/// How an operation left the store: on success the store holds what `outcome` gives, on
/// failure it is unchanged and the same error is returned.
pub open spec fn committed<T>(
    r: Result<T, LedgerError>,
    outcome: Result<Map<Seq<u8>, Seq<u8>>, LedgerError>,
    before: Map<Seq<u8>, Seq<u8>>,
    after: Map<Seq<u8>, Seq<u8>>,
) -> bool {
    match outcome {
        Ok(m) => r is Ok && after == m,
        Err(e) => r matches Err(e2) && e2 == e && after == before,
    }
}

/// The store after initialization with the given constants.
pub open spec fn init_outcome(
    m: Map<Seq<u8>, Seq<u8>>,
    name: Seq<char>,
    symbol: Seq<char>,
    decimals: u8,
    caller: Seq<u8>,
) -> Map<Seq<u8>, Seq<u8>> {
    m.insert(constants_key(), constants_bytes(name, symbol, decimals, caller)).insert(
        supply_key(),
        u128_bytes(0),
    )
}

/// The store after `caller` mints `value` tokens to `to`.
pub open spec fn deposit_outcome(m: Map<Seq<u8>, Seq<u8>>, caller: Seq<u8>, to: Seq<u8>, value: u128) -> Result<
    Map<Seq<u8>, Seq<u8>>,
    LedgerError,
> {
    if value == 0 {
        Err(LedgerError::InvalidArgument)
    } else {
        match owner_state(m) {
            Err(e) => Err(e),
            Ok(owner) => if caller != owner {
                Err(LedgerError::Unauthorized)
            } else {
                match supply_state(m) {
                    Err(e) => Err(e),
                    Ok(s) => if s + value > u128::MAX {
                        Err(LedgerError::Overflow)
                    } else {
                        match balance_state(m, to) {
                            Err(e) => Err(e),
                            Ok(b) => if b + value > u128::MAX {
                                Err(LedgerError::Overflow)
                            } else {
                                Ok(
                                    m.insert(supply_key(), u128_bytes((s + value) as u128)).insert(
                                        balance_key(to),
                                        u128_bytes((b + value) as u128),
                                    ),
                                )
                            },
                        }
                    },
                }
            },
        }
    }
}

/// The store after `caller` burns `value` tokens of `from`.
pub open spec fn burn_outcome(m: Map<Seq<u8>, Seq<u8>>, caller: Seq<u8>, from: Seq<u8>, value: u128) -> Result<
    Map<Seq<u8>, Seq<u8>>,
    LedgerError,
> {
    if value == 0 {
        Err(LedgerError::InvalidArgument)
    } else {
        match owner_state(m) {
            Err(e) => Err(e),
            Ok(owner) => if caller != owner && caller != from {
                Err(LedgerError::Unauthorized)
            } else {
                match balance_state(m, from) {
                    Err(e) => Err(e),
                    Ok(b) => if b < value {
                        Err(LedgerError::Underflow)
                    } else {
                        match supply_state(m) {
                            Err(e) => Err(e),
                            Ok(s) => if s < value {
                                Err(LedgerError::Underflow)
                            } else {
                                Ok(
                                    m.insert(balance_key(from), u128_bytes((b - value) as u128)).insert(
                                        supply_key(),
                                        u128_bytes((s - value) as u128),
                                    ),
                                )
                            },
                        }
                    },
                }
            },
        }
    }
}

/// The store after `caller` sends `value` of its own tokens to `to`.
pub open spec fn transfer_outcome(m: Map<Seq<u8>, Seq<u8>>, caller: Seq<u8>, to: Seq<u8>, value: u128) -> Result<
    Map<Seq<u8>, Seq<u8>>,
    LedgerError,
> {
    if value == 0 || caller == to {
        Err(LedgerError::InvalidArgument)
    } else {
        match balance_state(m, caller) {
            Err(e) => Err(e),
            Ok(sb) => if sb < value {
                Err(LedgerError::Underflow)
            } else {
                match balance_state(m, to) {
                    Err(e) => Err(e),
                    Ok(rb) => if rb + value > u128::MAX {
                        Err(LedgerError::Overflow)
                    } else {
                        Ok(
                            m.insert(balance_key(caller), u128_bytes((sb - value) as u128)).insert(
                                balance_key(to),
                                u128_bytes((rb + value) as u128),
                            ),
                        )
                    },
                }
            },
        }
    }
}

/// The store after `caller` moves `value` tokens of `from` to `to` under `from`'s allowance.
pub open spec fn transfer_from_outcome(
    m: Map<Seq<u8>, Seq<u8>>,
    caller: Seq<u8>,
    from: Seq<u8>,
    to: Seq<u8>,
    value: u128,
) -> Result<Map<Seq<u8>, Seq<u8>>, LedgerError> {
    if value == 0 || caller == from || from == to || from.len() > 0xFFFF {
        Err(LedgerError::InvalidArgument)
    } else {
        match allowance_state(m, from, caller) {
            Err(e) => Err(e),
            Ok(a) => if a < value {
                Err(LedgerError::InsufficientAllowance)
            } else {
                match balance_state(m, from) {
                    Err(e) => Err(e),
                    Ok(fb) => if fb < value {
                        Err(LedgerError::Underflow)
                    } else {
                        match balance_state(m, to) {
                            Err(e) => Err(e),
                            Ok(tb) => if tb + value > u128::MAX {
                                Err(LedgerError::Overflow)
                            } else {
                                Ok(
                                    m.insert(balance_key(from), u128_bytes((fb - value) as u128)).insert(
                                        balance_key(to),
                                        u128_bytes((tb + value) as u128),
                                    ).insert(allowance_key(from, caller), u128_bytes((a - value) as u128)),
                                )
                            },
                        }
                    },
                }
            },
        }
    }
}

/// `a + b`, capped at the largest 128-bit value.
pub open spec fn saturating_sum(a: u128, b: u128) -> u128 {
    if a + b > u128::MAX {
        u128::MAX
    } else {
        (a + b) as u128
    }
}

/// The store after `caller` raises `spender`'s allowance by `value`.
pub open spec fn approve_outcome(m: Map<Seq<u8>, Seq<u8>>, caller: Seq<u8>, spender: Seq<u8>, value: u128) -> Result<
    Map<Seq<u8>, Seq<u8>>,
    LedgerError,
> {
    if value == 0 || caller == spender || caller.len() > 0xFFFF {
        Err(LedgerError::InvalidArgument)
    } else {
        match allowance_state(m, caller, spender) {
            Err(e) => Err(e),
            Ok(a) => Ok(m.insert(allowance_key(caller, spender), u128_bytes(saturating_sum(a, value)))),
        }
    }
}

/// Whether two byte strings are equal.
pub fn bytes_eq(a: &[u8], b: &[u8]) -> (r: bool)
    ensures
        r == (a@ == b@),
{
    if a.len() != b.len() {
        return false;
    }
    let mut i: usize = 0;
    while i < a.len()
        invariant
            a@.len() == b@.len(),
            0 <= i <= a@.len(),
            forall|j: int| 0 <= j < i ==> a@[j] == b@[j],
        decreases a@.len() - i,
    {
        if a[i] != b[i] {
            return false;
        }
        i = i + 1;
    }
    assert(a@ =~= b@);
    true
}

/// Sets up a fresh ledger: `caller` becomes the owner and the total supply is zero.
pub fn init(storage: &mut MemoryStorage, caller: &[u8], name: String, symbol: String, decimals: u8) -> (r: Result<(), LedgerError>)
    ensures
        r is Ok,
        storage_view(*final(storage)) == init_outcome(storage_view(*old(storage)), name@, symbol@, decimals, caller@),
        constants_state(storage_view(*final(storage))) == Ok::<ConstantsFields, LedgerError>((name@, symbol@, decimals, caller@)),
        supply_state(storage_view(*final(storage))) == Ok::<u128, LedgerError>(0),
{
    let constants = Constants { name, symbol, decimals, owner: vstd::slice::slice_to_vec(caller) };
    let cs = ContractStorage::from_storage();
    let r = cs.set_constants(storage, &constants);
    cs.set_total_supply(storage, 0);
    proof {
        lemma_keys_distinct();
        lemma_u128_round_trip(0);
    }
    r
}

/// Mints `value` tokens to `to`; only the owner may.
pub fn deposit_to(storage: &mut MemoryStorage, caller: &[u8], to: &[u8], value: u128) -> (r: Result<(), LedgerError>)
    ensures
        committed(
            r,
            deposit_outcome(storage_view(*old(storage)), caller@, to@, value),
            storage_view(*old(storage)),
            storage_view(*final(storage)),
        ),
{
    if value == 0 {
        return Err(LedgerError::InvalidArgument);
    }
    let cs = ContractStorage::from_storage();
    let constants = match cs.constants(storage) {
        Ok(c) => c,
        Err(e) => return Err(e),
    };
    if !bytes_eq(caller, constants.owner.as_slice()) {
        return Err(LedgerError::Unauthorized);
    }
    let total = match cs.total_supply(storage) {
        Ok(t) => t,
        Err(e) => return Err(e),
    };
    let new_total = match total.checked_add(value) {
        Some(t) => t,
        None => return Err(LedgerError::Overflow),
    };
    let balances = Balances::from_storage();
    let balance = match balances.balance(storage, to) {
        Ok(b) => b,
        Err(e) => return Err(e),
    };
    let new_balance = match balance.checked_add(value) {
        Some(b) => b,
        None => return Err(LedgerError::Overflow),
    };
    cs.set_total_supply(storage, new_total);
    balances.set_balance(storage, to, new_balance);
    Ok(())
}

/// Burns `value` tokens of `from`; the owner and `from` itself may.
pub fn burn_from(storage: &mut MemoryStorage, caller: &[u8], from: &[u8], value: u128) -> (r: Result<(), LedgerError>)
    ensures
        committed(
            r,
            burn_outcome(storage_view(*old(storage)), caller@, from@, value),
            storage_view(*old(storage)),
            storage_view(*final(storage)),
        ),
{
    if value == 0 {
        return Err(LedgerError::InvalidArgument);
    }
    let cs = ContractStorage::from_storage();
    let constants = match cs.constants(storage) {
        Ok(c) => c,
        Err(e) => return Err(e),
    };
    if !bytes_eq(caller, constants.owner.as_slice()) && !bytes_eq(caller, from) {
        return Err(LedgerError::Unauthorized);
    }
    let balances = Balances::from_storage();
    let balance = match balances.balance(storage, from) {
        Ok(b) => b,
        Err(e) => return Err(e),
    };
    let new_balance = match balance.checked_sub(value) {
        Some(b) => b,
        None => return Err(LedgerError::Underflow),
    };
    let total = match cs.total_supply(storage) {
        Ok(t) => t,
        Err(e) => return Err(e),
    };
    let new_total = match total.checked_sub(value) {
        Some(t) => t,
        None => return Err(LedgerError::Underflow),
    };
    balances.set_balance(storage, from, new_balance);
    cs.set_total_supply(storage, new_total);
    Ok(())
}

/// Sends `value` of the caller's tokens to `to`.
pub fn transfer(storage: &mut MemoryStorage, caller: &[u8], to: &[u8], value: u128) -> (r: Result<(), LedgerError>)
    ensures
        committed(
            r,
            transfer_outcome(storage_view(*old(storage)), caller@, to@, value),
            storage_view(*old(storage)),
            storage_view(*final(storage)),
        ),
{
    if value == 0 || bytes_eq(caller, to) {
        return Err(LedgerError::InvalidArgument);
    }
    let balances = Balances::from_storage();
    let sender_balance = match balances.balance(storage, caller) {
        Ok(b) => b,
        Err(e) => return Err(e),
    };
    let new_sender_balance = match sender_balance.checked_sub(value) {
        Some(b) => b,
        None => return Err(LedgerError::Underflow),
    };
    let recipient_balance = match balances.balance(storage, to) {
        Ok(b) => b,
        Err(e) => return Err(e),
    };
    let new_recipient_balance = match recipient_balance.checked_add(value) {
        Some(b) => b,
        None => return Err(LedgerError::Overflow),
    };
    balances.set_balance(storage, caller, new_sender_balance);
    balances.set_balance(storage, to, new_recipient_balance);
    Ok(())
}

/// Moves `value` tokens of `from` to `to`, spending the allowance that `from` granted the caller.
pub fn transfer_from(storage: &mut MemoryStorage, caller: &[u8], from: &[u8], to: &[u8], value: u128) -> (r: Result<(), LedgerError>)
    ensures
        committed(
            r,
            transfer_from_outcome(storage_view(*old(storage)), caller@, from@, to@, value),
            storage_view(*old(storage)),
            storage_view(*final(storage)),
        ),
{
    if value == 0 || bytes_eq(caller, from) || bytes_eq(from, to) || from.len() > 0xFFFF {
        return Err(LedgerError::InvalidArgument);
    }
    let allowance = match get_allowance(storage, from, caller) {
        Ok(a) => a,
        Err(e) => return Err(e),
    };
    let new_allowance = match allowance.amount.checked_sub(value) {
        Some(a) => a,
        None => return Err(LedgerError::InsufficientAllowance),
    };
    let balances = Balances::from_storage();
    let account_balance = match balances.balance(storage, from) {
        Ok(b) => b,
        Err(e) => return Err(e),
    };
    let new_account_balance = match account_balance.checked_sub(value) {
        Some(b) => b,
        None => return Err(LedgerError::Underflow),
    };
    let recipient_balance = match balances.balance(storage, to) {
        Ok(b) => b,
        Err(e) => return Err(e),
    };
    let new_recipient_balance = match recipient_balance.checked_add(value) {
        Some(b) => b,
        None => return Err(LedgerError::Overflow),
    };
    balances.set_balance(storage, from, new_account_balance);
    balances.set_balance(storage, to, new_recipient_balance);
    set_allowance(storage, from, caller, Allowance { amount: new_allowance });
    Ok(())
}

/// Raises the allowance that the caller grants `spender` by `value`, capped at the largest
/// 128-bit value.
pub fn approve(storage: &mut MemoryStorage, caller: &[u8], spender: &[u8], value: u128) -> (r: Result<(), LedgerError>)
    ensures
        committed(
            r,
            approve_outcome(storage_view(*old(storage)), caller@, spender@, value),
            storage_view(*old(storage)),
            storage_view(*final(storage)),
        ),
{
    if value == 0 || bytes_eq(caller, spender) || caller.len() > 0xFFFF {
        return Err(LedgerError::InvalidArgument);
    }
    let allowance = match get_allowance(storage, caller, spender) {
        Ok(a) => a,
        Err(e) => return Err(e),
    };
    let raised = Allowance { amount: allowance.amount.saturating_add(value) };
    set_allowance(storage, caller, spender, raised);
    Ok(())
}

} // verus!
verus! {

/// The allowance that `owner` granted to `spender` as the allowance request answers it: zero
/// where none was granted; an owner address too long to scope a namespace is invalid.
pub open spec fn allowance_answer(m: Map<Seq<u8>, Seq<u8>>, owner: Seq<u8>, spender: Seq<u8>) -> Result<u128, LedgerError> {
    if owner.len() > 0xFFFF {
        Err(LedgerError::InvalidArgument)
    } else {
        allowance_state(m, owner, spender)
    }
}

/// The allowance that `owner` granted to `spender`, zero where none was granted.
pub fn allowance(storage: &MemoryStorage, owner: &[u8], spender: &[u8]) -> (r: Result<u128, LedgerError>)
    ensures
        r == allowance_answer(storage_view(*storage), owner@, spender@),
{
    if owner.len() > 0xFFFF {
        return Err(LedgerError::InvalidArgument);
    }
    match get_allowance(storage, owner, spender) {
        Ok(a) => Ok(a.amount),
        Err(e) => Err(e),
    }
}

/// The token's name.
pub fn query_name(storage: &MemoryStorage) -> (r: Result<String, LedgerError>)
    ensures
        match r {
            Ok(n) => constants_state(storage_view(*storage)) matches Ok(f) && n@ == f.0,
            Err(e) => constants_state(storage_view(*storage)) == Err::<ConstantsFields, LedgerError>(e),
        },
{
    let cs = ReadOnlyContractStorage::from_storage();
    match cs.constants(storage) {
        Ok(c) => Ok(c.name),
        Err(e) => Err(e),
    }
}

/// The token's symbol.
pub fn query_symbol(storage: &MemoryStorage) -> (r: Result<String, LedgerError>)
    ensures
        match r {
            Ok(n) => constants_state(storage_view(*storage)) matches Ok(f) && n@ == f.1,
            Err(e) => constants_state(storage_view(*storage)) == Err::<ConstantsFields, LedgerError>(e),
        },
{
    let cs = ReadOnlyContractStorage::from_storage();
    match cs.constants(storage) {
        Ok(c) => Ok(c.symbol),
        Err(e) => Err(e),
    }
}

/// The token's number of decimals.
pub fn query_decimals(storage: &MemoryStorage) -> (r: Result<u8, LedgerError>)
    ensures
        match r {
            Ok(d) => constants_state(storage_view(*storage)) matches Ok(f) && d == f.2,
            Err(e) => constants_state(storage_view(*storage)) == Err::<ConstantsFields, LedgerError>(e),
        },
{
    let cs = ReadOnlyContractStorage::from_storage();
    match cs.constants(storage) {
        Ok(c) => Ok(c.decimals),
        Err(e) => Err(e),
    }
}

/// The total supply.
pub fn query_total_supply(storage: &MemoryStorage) -> (r: Result<u128, LedgerError>)
    ensures
        r == supply_state(storage_view(*storage)),
{
    let cs = ReadOnlyContractStorage::from_storage();
    cs.total_supply(storage)
}

/// The balance of `address`, zero where none is stored. It depends on the store alone, so
/// two reads with no write between them agree.
pub fn query_balance_of(storage: &MemoryStorage, address: &[u8]) -> (r: Result<u128, LedgerError>)
    ensures
        r == balance_state(storage_view(*storage), address@),
{
    let balances = ReadOnlyBalances::from_storage();
    balances.balance(storage, address)
}

/// The store after `caller`'s request `msg`.
pub open spec fn handle_outcome(m: Map<Seq<u8>, Seq<u8>>, caller: Seq<u8>, msg: HandleMsg) -> Result<
    Map<Seq<u8>, Seq<u8>>,
    LedgerError,
> {
    match msg {
        HandleMsg::DepositTo { to, value } => deposit_outcome(m, caller, to@, value),
        HandleMsg::BurnFrom { from, value } => burn_outcome(m, caller, from@, value),
        HandleMsg::Transfer { to, value } => transfer_outcome(m, caller, to@, value),
        HandleMsg::TransferFrom { from, to, value } => transfer_from_outcome(m, caller, from@, to@, value),
        HandleMsg::Approve { spender, value } => approve_outcome(m, caller, spender@, value),
        HandleMsg::Allowance { owner, spender } => match allowance_answer(m, owner@, spender@) {
            Ok(_) => Ok(m),
            Err(e) => Err(e),
        },
    }
}

/// The answer to `msg` when it succeeds.
pub open spec fn handle_answer(m: Map<Seq<u8>, Seq<u8>>, msg: HandleMsg, r: HandleResult) -> bool {
    match msg {
        HandleMsg::DepositTo { .. } => r == HandleResult::DepositTo { status: Status::Success },
        HandleMsg::BurnFrom { .. } => r == HandleResult::BurnFrom { status: Status::Success },
        HandleMsg::Transfer { .. } => r == HandleResult::Transfer { status: Status::Success },
        HandleMsg::TransferFrom { .. } => r == HandleResult::TransferFrom { status: Status::Success },
        HandleMsg::Approve { .. } => r == HandleResult::Approve { status: Status::Success },
        HandleMsg::Allowance { owner, spender } => r matches HandleResult::Allowance { owner: o, spender: s, value: v }
            && o@ == owner@ && s@ == spender@ && allowance_state(m, owner@, spender@) == Ok::<u128, LedgerError>(v),
    }
}

/// Performs `caller`'s request `msg`.
pub fn handle(storage: &mut MemoryStorage, caller: &[u8], msg: HandleMsg) -> (r: Result<HandleResult, LedgerError>)
    ensures
        committed(r, handle_outcome(storage_view(*old(storage)), caller@, msg), storage_view(*old(storage)), storage_view(*final(storage))),
        r matches Ok(a) ==> handle_answer(storage_view(*old(storage)), msg, a),
{
    match msg {
        HandleMsg::DepositTo { to, value } => match deposit_to(storage, caller, to.as_slice(), value) {
            Ok(_) => Ok(HandleResult::DepositTo { status: Status::Success }),
            Err(e) => Err(e),
        },
        HandleMsg::BurnFrom { from, value } => match burn_from(storage, caller, from.as_slice(), value) {
            Ok(_) => Ok(HandleResult::BurnFrom { status: Status::Success }),
            Err(e) => Err(e),
        },
        HandleMsg::Transfer { to, value } => match transfer(storage, caller, to.as_slice(), value) {
            Ok(_) => Ok(HandleResult::Transfer { status: Status::Success }),
            Err(e) => Err(e),
        },
        HandleMsg::TransferFrom { from, to, value } => match transfer_from(storage, caller, from.as_slice(), to.as_slice(), value) {
            Ok(_) => Ok(HandleResult::TransferFrom { status: Status::Success }),
            Err(e) => Err(e),
        },
        HandleMsg::Approve { spender, value } => match approve(storage, caller, spender.as_slice(), value) {
            Ok(_) => Ok(HandleResult::Approve { status: Status::Success }),
            Err(e) => Err(e),
        },
        HandleMsg::Allowance { owner, spender } => match allowance(storage, owner.as_slice(), spender.as_slice()) {
            Ok(v) => Ok(HandleResult::Allowance { owner, spender, value: v }),
            Err(e) => Err(e),
        },
    }
}

/// The answer to `msg` on the store `m`.
pub open spec fn query_answer(m: Map<Seq<u8>, Seq<u8>>, msg: QueryMsg, r: Result<QueryResult, LedgerError>) -> bool {
    match msg {
        QueryMsg::Name => match constants_state(m) {
            Ok(f) => r matches Ok(QueryResult::Name { name }) && name@ == f.0,
            Err(e) => r == Err::<QueryResult, LedgerError>(e),
        },
        QueryMsg::Symbol => match constants_state(m) {
            Ok(f) => r matches Ok(QueryResult::Symbol { symbol }) && symbol@ == f.1,
            Err(e) => r == Err::<QueryResult, LedgerError>(e),
        },
        QueryMsg::Decimals => match constants_state(m) {
            Ok(f) => r == Ok::<QueryResult, LedgerError>(QueryResult::Decimals { decimals: f.2 }),
            Err(e) => r == Err::<QueryResult, LedgerError>(e),
        },
        QueryMsg::BalanceOf { address } => match balance_state(m, address@) {
            Ok(b) => r == Ok::<QueryResult, LedgerError>(QueryResult::BalanceOf { balance: b }),
            Err(e) => r == Err::<QueryResult, LedgerError>(e),
        },
        QueryMsg::TotalSupply => match supply_state(m) {
            Ok(s) => r == Ok::<QueryResult, LedgerError>(QueryResult::TotalSupply { total_supply: s }),
            Err(e) => r == Err::<QueryResult, LedgerError>(e),
        },
    }
}

/// Answers the read request `msg`.
pub fn query(storage: &MemoryStorage, msg: QueryMsg) -> (r: Result<QueryResult, LedgerError>)
    ensures
        query_answer(storage_view(*storage), msg, r),
{
    match msg {
        QueryMsg::Name => match query_name(storage) {
            Ok(name) => Ok(QueryResult::Name { name }),
            Err(e) => Err(e),
        },
        QueryMsg::Symbol => match query_symbol(storage) {
            Ok(symbol) => Ok(QueryResult::Symbol { symbol }),
            Err(e) => Err(e),
        },
        QueryMsg::Decimals => match query_decimals(storage) {
            Ok(decimals) => Ok(QueryResult::Decimals { decimals }),
            Err(e) => Err(e),
        },
        QueryMsg::BalanceOf { address } => match query_balance_of(storage, address.as_slice()) {
            Ok(balance) => Ok(QueryResult::BalanceOf { balance }),
            Err(e) => Err(e),
        },
        QueryMsg::TotalSupply => match query_total_supply(storage) {
            Ok(total_supply) => Ok(QueryResult::TotalSupply { total_supply }),
            Err(e) => Err(e),
        },
    }
}

} // verus!
