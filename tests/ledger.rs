use cosmwasm_std::{MemoryStorage, ReadonlyStorage, Storage};
use cw_token::codec::{decode_u128, encode_u128, Allowance, Constants, LedgerError, Record};
use cw_token::ledger::{
    allowance, approve, burn_from, deposit_to, handle, init, query, query_balance_of,
    query_decimals, query_name, query_symbol, query_total_supply, transfer, transfer_from,
};
use cw_token::msg::{HandleMsg, HandleResult, QueryMsg, QueryResult, Status};
use cw_token::state::{get_allowance, set_allowance, Balances, ContractStorage, ReadOnlyBalances};

const CREATOR: &[u8] = b"creator";
const ALICE: &[u8] = b"alice";
const BOB: &[u8] = b"bob";
const CAROL: &[u8] = b"carol";

fn ledger() -> MemoryStorage {
    let mut storage = MemoryStorage::new();
    init(&mut storage, CREATOR, "test".to_string(), "!@#$".to_string(), 69).unwrap();
    storage
}

fn raw_key(namespace: &[u8], key: &[u8]) -> Vec<u8> {
    let mut k = vec![(namespace.len() >> 8) as u8, namespace.len() as u8];
    k.extend_from_slice(namespace);
    k.extend_from_slice(key);
    k
}

#[test]
fn init_records_constants() {
    let storage = ledger();
    assert_eq!(query_name(&storage), Ok("test".to_string()));
    assert_eq!(query_symbol(&storage), Ok("!@#$".to_string()));
    assert_eq!(query_decimals(&storage), Ok(69));
    assert_eq!(query_total_supply(&storage), Ok(0));
    let constants = ContractStorage::from_storage().constants(&storage).unwrap();
    assert_eq!(constants.owner, CREATOR.to_vec());
}

#[test]
fn queries_before_init_fail_with_not_found() {
    let storage = MemoryStorage::new();
    assert_eq!(query_total_supply(&storage), Err(LedgerError::NotFound));
    assert_eq!(query_name(&storage), Err(LedgerError::NotFound));
    assert_eq!(query_balance_of(&storage, ALICE), Ok(0));
}

#[test]
fn deposit_without_init_fails() {
    let mut storage = MemoryStorage::new();
    assert_eq!(deposit_to(&mut storage, CREATOR, ALICE, 5), Err(LedgerError::NotFound));
}

#[test]
fn persisted_layout() {
    let mut storage = ledger();
    deposit_to(&mut storage, CREATOR, ALICE, 69).unwrap();
    let supply = storage.get(&raw_key(b"config", b"total_supply")).unwrap();
    assert_eq!(supply, 69u128.to_be_bytes().to_vec());
    let balance = storage.get(&raw_key(b"balances", ALICE)).unwrap();
    assert_eq!(balance, 69u128.to_be_bytes().to_vec());
    approve(&mut storage, ALICE, BOB, 7).unwrap();
    let mut key = raw_key(b"allowancws", &[]);
    key.extend_from_slice(&raw_key(ALICE, BOB));
    assert_eq!(storage.get(&key).unwrap(), 7u128.to_be_bytes().to_vec());
}

#[test]
fn deposit_updates_balance_and_supply() {
    let mut storage = ledger();
    assert_eq!(deposit_to(&mut storage, CREATOR, ALICE, 69), Ok(()));
    assert_eq!(query_balance_of(&storage, ALICE), Ok(69));
    assert_eq!(query_total_supply(&storage), Ok(69));
    assert_eq!(deposit_to(&mut storage, BOB, ALICE, 69), Err(LedgerError::Unauthorized));
    assert_eq!(query_balance_of(&storage, ALICE), Ok(69));
}

#[test]
fn deposit_zero_is_invalid() {
    let mut storage = ledger();
    assert_eq!(deposit_to(&mut storage, CREATOR, ALICE, 0), Err(LedgerError::InvalidArgument));
    assert_eq!(storage.get(&raw_key(b"balances", ALICE)), None);
    assert_eq!(query_total_supply(&storage), Ok(0));
}

#[test]
fn deposit_overflow_writes_nothing() {
    let mut storage = ledger();
    deposit_to(&mut storage, CREATOR, ALICE, u128::MAX).unwrap();
    assert_eq!(deposit_to(&mut storage, CREATOR, BOB, 1), Err(LedgerError::Overflow));
    assert_eq!(query_total_supply(&storage), Ok(u128::MAX));
    assert_eq!(storage.get(&raw_key(b"balances", BOB)), None);
}

#[test]
fn balance_overflow_leaves_supply_unchanged() {
    let mut storage = ledger();
    Balances::from_storage().set_balance(&mut storage, ALICE, u128::MAX);
    assert_eq!(deposit_to(&mut storage, CREATOR, ALICE, 1), Err(LedgerError::Overflow));
    assert_eq!(query_total_supply(&storage), Ok(0));
}

#[test]
fn burn_by_owner_self_and_stranger() {
    let mut storage = ledger();
    deposit_to(&mut storage, CREATOR, ALICE, 69).unwrap();
    assert_eq!(burn_from(&mut storage, CREATOR, ALICE, 9), Ok(()));
    assert_eq!(query_balance_of(&storage, ALICE), Ok(60));
    assert_eq!(query_total_supply(&storage), Ok(60));
    assert_eq!(burn_from(&mut storage, ALICE, ALICE, 10), Ok(()));
    assert_eq!(query_balance_of(&storage, ALICE), Ok(50));
    assert_eq!(burn_from(&mut storage, BOB, ALICE, 9), Err(LedgerError::Unauthorized));
    assert_eq!(query_balance_of(&storage, ALICE), Ok(50));
    assert_eq!(query_total_supply(&storage), Ok(50));
}

#[test]
fn burn_more_than_balance_underflows() {
    let mut storage = ledger();
    deposit_to(&mut storage, CREATOR, ALICE, 5).unwrap();
    assert_eq!(burn_from(&mut storage, ALICE, ALICE, 6), Err(LedgerError::Underflow));
    assert_eq!(burn_from(&mut storage, ALICE, ALICE, 0), Err(LedgerError::InvalidArgument));
    assert_eq!(query_balance_of(&storage, ALICE), Ok(5));
}

#[test]
fn burn_checks_supply() {
    let mut storage = ledger();
    Balances::from_storage().set_balance(&mut storage, ALICE, 10);
    assert_eq!(burn_from(&mut storage, ALICE, ALICE, 3), Err(LedgerError::Underflow));
    assert_eq!(query_balance_of(&storage, ALICE), Ok(10));
}

#[test]
fn transfer_moves_tokens() {
    let mut storage = ledger();
    deposit_to(&mut storage, CREATOR, ALICE, 30).unwrap();
    assert_eq!(transfer(&mut storage, ALICE, BOB, 12), Ok(()));
    assert_eq!(query_balance_of(&storage, ALICE), Ok(18));
    assert_eq!(query_balance_of(&storage, BOB), Ok(12));
    assert_eq!(query_total_supply(&storage), Ok(30));
}

#[test]
fn transfer_rejections() {
    let mut storage = ledger();
    deposit_to(&mut storage, CREATOR, ALICE, 30).unwrap();
    assert_eq!(transfer(&mut storage, ALICE, ALICE, 1), Err(LedgerError::InvalidArgument));
    assert_eq!(transfer(&mut storage, ALICE, BOB, 0), Err(LedgerError::InvalidArgument));
    assert_eq!(transfer(&mut storage, ALICE, BOB, 31), Err(LedgerError::Underflow));
    Balances::from_storage().set_balance(&mut storage, BOB, u128::MAX);
    assert_eq!(transfer(&mut storage, ALICE, BOB, 1), Err(LedgerError::Overflow));
    assert_eq!(query_balance_of(&storage, ALICE), Ok(30));
}

#[test]
fn approvals_accumulate() {
    let mut storage = ledger();
    assert_eq!(approve(&mut storage, ALICE, BOB, 50), Ok(()));
    assert_eq!(approve(&mut storage, ALICE, BOB, 10), Ok(()));
    assert_eq!(allowance(&storage, ALICE, BOB), Ok(60));
    assert_eq!(allowance(&storage, BOB, ALICE), Ok(0));
}

#[test]
fn approvals_saturate() {
    let mut storage = ledger();
    approve(&mut storage, ALICE, BOB, u128::MAX - 1).unwrap();
    assert_eq!(approve(&mut storage, ALICE, BOB, 5), Ok(()));
    assert_eq!(allowance(&storage, ALICE, BOB), Ok(u128::MAX));
}

#[test]
fn approve_rejections() {
    let mut storage = ledger();
    assert_eq!(approve(&mut storage, ALICE, ALICE, 5), Err(LedgerError::InvalidArgument));
    assert_eq!(approve(&mut storage, ALICE, BOB, 0), Err(LedgerError::InvalidArgument));
    assert_eq!(allowance(&storage, ALICE, BOB), Ok(0));
}

#[test]
fn transfer_from_spends_allowance() {
    let mut storage = ledger();
    deposit_to(&mut storage, CREATOR, ALICE, 60).unwrap();
    approve(&mut storage, ALICE, BOB, 60).unwrap();
    assert_eq!(transfer_from(&mut storage, BOB, ALICE, CAROL, 60), Ok(()));
    assert_eq!(allowance(&storage, ALICE, BOB), Ok(0));
    assert_eq!(query_balance_of(&storage, ALICE), Ok(0));
    assert_eq!(query_balance_of(&storage, CAROL), Ok(60));
    assert_eq!(
        transfer_from(&mut storage, BOB, ALICE, CAROL, 60),
        Err(LedgerError::InsufficientAllowance)
    );
    assert_eq!(query_total_supply(&storage), Ok(60));
}

#[test]
fn transfer_from_rejections() {
    let mut storage = ledger();
    deposit_to(&mut storage, CREATOR, ALICE, 10).unwrap();
    approve(&mut storage, ALICE, BOB, 20).unwrap();
    assert_eq!(transfer_from(&mut storage, BOB, ALICE, CAROL, 0), Err(LedgerError::InvalidArgument));
    assert_eq!(transfer_from(&mut storage, ALICE, ALICE, CAROL, 1), Err(LedgerError::InvalidArgument));
    assert_eq!(transfer_from(&mut storage, BOB, ALICE, ALICE, 1), Err(LedgerError::InvalidArgument));
    assert_eq!(transfer_from(&mut storage, BOB, ALICE, CAROL, 15), Err(LedgerError::Underflow));
    assert_eq!(allowance(&storage, ALICE, BOB), Ok(20));
    assert_eq!(query_balance_of(&storage, ALICE), Ok(10));
}

#[test]
fn corrupt_balance_is_a_decode_error() {
    let mut storage = ledger();
    storage.set(&raw_key(b"balances", ALICE), &[1, 2, 3]);
    assert_eq!(query_balance_of(&storage, ALICE), Err(LedgerError::DecodeError(Record::Amount)));
    assert_eq!(deposit_to(&mut storage, CREATOR, ALICE, 1), Err(LedgerError::DecodeError(Record::Amount)));
    assert_eq!(query_total_supply(&storage), Ok(0));
}

#[test]
fn balance_reads_agree() {
    let mut storage = ledger();
    deposit_to(&mut storage, CREATOR, ALICE, 42).unwrap();
    let first = query_balance_of(&storage, ALICE);
    let second = query_balance_of(&storage, ALICE);
    assert_eq!(first, second);
    assert_eq!(ReadOnlyBalances::from_storage().balance(&storage, ALICE), Ok(42));
}

#[test]
fn amount_encoding_round_trip() {
    for v in [0u128, 1, 69, 1 << 64, u128::MAX] {
        let bytes = encode_u128(v);
        assert_eq!(bytes, v.to_be_bytes().to_vec());
        assert_eq!(decode_u128(&bytes), Ok(v));
    }
    assert_eq!(decode_u128(&[0; 15]), Err(LedgerError::DecodeError(Record::Amount)));
    assert_eq!(decode_u128(&[0, 0, 0, 0, 0, 0, 0, 0, 0, 0, 0, 0, 0, 0, 1, 2]), Ok(258));
}

#[test]
fn constants_round_trip() {
    let c = Constants {
        name: "test".to_string(),
        symbol: "!@#$".to_string(),
        decimals: 69,
        owner: CREATOR.to_vec(),
    };
    let bytes = c.encode();
    assert_ne!(bytes, Vec::<u8>::new());
    assert_eq!(Constants::decode(&bytes), Ok(c));
    assert_eq!(Constants::decode(&[1, 2]), Err(LedgerError::DecodeError(Record::Constants)));
}

#[test]
fn allowance_round_trip() {
    let a = Allowance { amount: 1234 };
    assert_eq!(Allowance::decode(&a.encode()), Ok(a));
    assert_eq!(Allowance::default(), Allowance { amount: 0 });
    let mut storage = MemoryStorage::new();
    set_allowance(&mut storage, ALICE, BOB, a);
    assert_eq!(get_allowance(&storage, ALICE, BOB), Ok(a));
    assert_eq!(get_allowance(&storage, BOB, ALICE), Ok(Allowance { amount: 0 }));
}

#[test]
fn handle_and_query_dispatch() {
    let mut storage = ledger();
    let r = handle(&mut storage, CREATOR, HandleMsg::DepositTo { to: ALICE.to_vec(), value: 8 });
    assert_eq!(r, Ok(HandleResult::DepositTo { status: Status::Success }));
    handle(&mut storage, ALICE, HandleMsg::Approve { spender: BOB.to_vec(), value: 3 }).unwrap();
    let r = handle(&mut storage, CAROL, HandleMsg::Allowance { owner: ALICE.to_vec(), spender: BOB.to_vec() });
    assert_eq!(
        r,
        Ok(HandleResult::Allowance { owner: ALICE.to_vec(), spender: BOB.to_vec(), value: 3 })
    );
    let r = handle(&mut storage, BOB, HandleMsg::TransferFrom { from: ALICE.to_vec(), to: CAROL.to_vec(), value: 3 });
    assert_eq!(r, Ok(HandleResult::TransferFrom { status: Status::Success }));
    let r = handle(&mut storage, CAROL, HandleMsg::Transfer { to: BOB.to_vec(), value: 1 });
    assert_eq!(r, Ok(HandleResult::Transfer { status: Status::Success }));
    let r = handle(&mut storage, CREATOR, HandleMsg::BurnFrom { from: BOB.to_vec(), value: 1 });
    assert_eq!(r, Ok(HandleResult::BurnFrom { status: Status::Success }));
    assert_eq!(query(&storage, QueryMsg::Name), Ok(QueryResult::Name { name: "test".to_string() }));
    assert_eq!(query(&storage, QueryMsg::Symbol), Ok(QueryResult::Symbol { symbol: "!@#$".to_string() }));
    assert_eq!(query(&storage, QueryMsg::Decimals), Ok(QueryResult::Decimals { decimals: 69 }));
    assert_eq!(query(&storage, QueryMsg::TotalSupply), Ok(QueryResult::TotalSupply { total_supply: 7 }));
    assert_eq!(query(&storage, QueryMsg::BalanceOf { address: ALICE.to_vec() }), Ok(QueryResult::BalanceOf { balance: 5 }));
    assert_eq!(query(&storage, QueryMsg::BalanceOf { address: CAROL.to_vec() }), Ok(QueryResult::BalanceOf { balance: 2 }));
}

#[test]
fn supply_matches_sum_of_balances_after_mixed_requests() {
    let mut storage = ledger();
    deposit_to(&mut storage, CREATOR, ALICE, 100).unwrap();
    deposit_to(&mut storage, CREATOR, BOB, 50).unwrap();
    transfer(&mut storage, ALICE, CAROL, 30).unwrap();
    approve(&mut storage, BOB, CAROL, 20).unwrap();
    transfer_from(&mut storage, CAROL, BOB, ALICE, 20).unwrap();
    burn_from(&mut storage, CREATOR, CAROL, 5).unwrap();
    let _ = transfer(&mut storage, ALICE, BOB, 1000);
    let sum: u128 = [ALICE, BOB, CAROL, CREATOR]
        .iter()
        .map(|a| query_balance_of(&storage, a).unwrap())
        .sum();
    assert_eq!(query_total_supply(&storage), Ok(sum));
    assert_eq!(sum, 145);
}

#[test]
fn corrupt_allowance_and_constants_name_their_type() {
    let mut storage = ledger();
    let mut key = raw_key(b"allowancws", &[]);
    key.extend_from_slice(&raw_key(ALICE, BOB));
    storage.set(&key, &[9]);
    assert_eq!(allowance(&storage, ALICE, BOB), Err(LedgerError::DecodeError(Record::Allowance)));
    assert_eq!(approve(&mut storage, ALICE, BOB, 1), Err(LedgerError::DecodeError(Record::Allowance)));
    storage.set(&raw_key(b"config", b"constants"), &[1]);
    assert_eq!(query_name(&storage), Err(LedgerError::DecodeError(Record::Constants)));
    assert_eq!(Record::Amount.expected_type(), "u128");
    assert_eq!(Record::Constants.expected_type(), "Constants");
    assert_eq!(Record::Allowance.expected_type(), "Allowance");
}

#[test]
fn set_constants_reads_back() {
    let mut storage = MemoryStorage::new();
    let c = Constants {
        name: "coin".to_string(),
        symbol: "C".to_string(),
        decimals: 6,
        owner: ALICE.to_vec(),
    };
    let view = ContractStorage::from_storage();
    assert_eq!(view.set_constants(&mut storage, &c), Ok(()));
    assert_eq!(view.constants(&storage), Ok(c));
}

#[test]
fn underflow_is_reported_before_recipient_is_read() {
    let mut storage = ledger();
    deposit_to(&mut storage, CREATOR, ALICE, 5).unwrap();
    storage.set(&raw_key(b"balances", BOB), &[7]);
    assert_eq!(transfer(&mut storage, ALICE, BOB, 6), Err(LedgerError::Underflow));
    approve(&mut storage, ALICE, CAROL, 2).unwrap();
    assert_eq!(
        transfer_from(&mut storage, CAROL, ALICE, BOB, 3),
        Err(LedgerError::InsufficientAllowance)
    );
}

#[test]
fn over_long_allowance_owner_is_invalid() {
    let mut storage = ledger();
    let long = vec![7u8; 0x10000];
    assert_eq!(approve(&mut storage, &long, BOB, 1), Err(LedgerError::InvalidArgument));
    assert_eq!(allowance(&storage, &long, BOB), Err(LedgerError::InvalidArgument));
    assert_eq!(
        transfer_from(&mut storage, BOB, &long, CAROL, 1),
        Err(LedgerError::InvalidArgument)
    );
}
