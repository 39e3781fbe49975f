//! What holds of every state the ledger can reach.
use vstd::prelude::*;

use crate::codec::{
    be_bytes, lemma_be_bytes_len, lemma_u128_round_trip, u128_bytes,
};
use crate::ledger::{handle_outcome, init_outcome};
use crate::msg::HandleMsg;
use crate::state::{allowance_state, balance_state, supply_state};
use crate::store::{
    allowance_key, balance_key, constants_key, length_prefix, ns_allowances, ns_balances,
    ns_config, supply_key,
};

verus! {

/// The balance of `a` as a number; an unreadable entry counts as zero.
pub open spec fn balance_value(m: Map<Seq<u8>, Seq<u8>>, a: Seq<u8>) -> int {
    match balance_state(m, a) {
        Ok(v) => v as int,
        Err(_) => 0,
    }
}

/// The sum of the balances of `accounts`.
pub open spec fn sum_balances(m: Map<Seq<u8>, Seq<u8>>, accounts: Seq<Seq<u8>>) -> int
    decreases accounts.len(),
{
    if accounts.len() == 0 {
        0
    } else {
        sum_balances(m, accounts.drop_last()) + balance_value(m, accounts.last())
    }
}

/// Every amount that the store holds is a valid 16-byte encoding.
pub open spec fn amounts_well_formed(m: Map<Seq<u8>, Seq<u8>>) -> bool {
    &&& m.contains_key(supply_key()) ==> m[supply_key()].len() == 16
    &&& forall|a: Seq<u8>| #[trigger]
        m.contains_key(balance_key(a)) ==> m[balance_key(a)].len() == 16
    &&& forall|o: Seq<u8>, s: Seq<u8>| #[trigger]
        m.contains_key(allowance_key(o, s)) ==> m[allowance_key(o, s)].len() == 16
}

proof fn lemma_prefix_bytes(ns: Seq<u8>)
    requires
        ns.len() < 256,
    ensures
        length_prefix(ns).len() == ns.len() + 2,
        length_prefix(ns)[0] == 0,
        length_prefix(ns)[1] == ns.len() as u8,
{
    lemma_be_bytes_len(ns.len(), 2);
    reveal_with_fuel(be_bytes, 3);
}

/// The records of different namespaces never share a raw key, and the balance keys of
/// different accounts differ.
pub proof fn lemma_keys_distinct()
    ensures
        forall|a: Seq<u8>| #[trigger] balance_key(a) != supply_key(),
        forall|a: Seq<u8>| #[trigger] balance_key(a) != constants_key(),
        forall|a: Seq<u8>, o: Seq<u8>, s: Seq<u8>| #[trigger] balance_key(a) != #[trigger] allowance_key(o, s),
        forall|o: Seq<u8>, s: Seq<u8>| #[trigger] allowance_key(o, s) != supply_key(),
        forall|o: Seq<u8>, s: Seq<u8>| #[trigger] allowance_key(o, s) != constants_key(),
        forall|a: Seq<u8>, b: Seq<u8>| #[trigger] balance_key(a) == #[trigger] balance_key(b) ==> a == b,
        supply_key() != constants_key(),
{
    lemma_prefix_bytes(ns_config());
    lemma_prefix_bytes(ns_balances());
    lemma_prefix_bytes(ns_allowances());
    assert(supply_key()[1] == 6);
    assert(constants_key()[1] == 6);
    assert forall|a: Seq<u8>| #[trigger] balance_key(a)[1] == 8 by {}
    assert forall|o: Seq<u8>, s: Seq<u8>| #[trigger] allowance_key(o, s)[1] == 10 by {}
    assert(supply_key()[8] != constants_key()[8]);
    assert forall|a: Seq<u8>, o: Seq<u8>, s: Seq<u8>| #[trigger] balance_key(a) != #[trigger] allowance_key(o, s) by {
        assert(balance_key(a)[1] == 8);
        assert(allowance_key(o, s)[1] == 10);
    }
    assert forall|a: Seq<u8>, b: Seq<u8>| #[trigger] balance_key(a) == #[trigger] balance_key(b) implies a == b by {
        assert(a =~= balance_key(a).subrange(10, balance_key(a).len() as int));
        assert(b =~= balance_key(b).subrange(10, balance_key(b).len() as int));
    }
}

proof fn lemma_sum_one_change(
    m: Map<Seq<u8>, Seq<u8>>,
    m2: Map<Seq<u8>, Seq<u8>>,
    x: Seq<u8>,
    accounts: Seq<Seq<u8>>,
)
    requires
        accounts.no_duplicates(),
        forall|a: Seq<u8>| a != x ==> balance_value(m2, a) == balance_value(m, a),
    ensures
        sum_balances(m2, accounts) == sum_balances(m, accounts) + if accounts.contains(x) {
            balance_value(m2, x) - balance_value(m, x)
        } else {
            0
        },
    decreases accounts.len(),
{
    if accounts.len() > 0 {
        let init = accounts.drop_last();
        let last = accounts.last();
        assert(init.no_duplicates()) by {
            assert forall|i: int, j: int| 0 <= i < init.len() && 0 <= j < init.len() && i != j implies init[i] != init[j] by {
                assert(init[i] == accounts[i] && init[j] == accounts[j]);
            }
        }
        lemma_sum_one_change(m, m2, x, init);
        if last == x {
            assert(!init.contains(x)) by {
                if init.contains(x) {
                    let i = choose|i: int| 0 <= i < init.len() && init[i] == x;
                    assert(accounts[i] == accounts[accounts.len() - 1]);
                }
            }
        }
        assert(accounts.contains(x) <==> init.contains(x) || last == x) by {
            if accounts.contains(x) && last != x {
                let i = choose|i: int| 0 <= i < accounts.len() && accounts[i] == x;
                assert(init[i] == x);
            }
            if init.contains(x) {
                let i = choose|i: int| 0 <= i < init.len() && init[i] == x;
                assert(accounts[i] == x);
            }
            if last == x {
                assert(accounts[accounts.len() - 1] == x);
            }
        }
    }
}

proof fn lemma_written_balance(m: Map<Seq<u8>, Seq<u8>>, a: Seq<u8>, v: u128)
    ensures
        balance_value(m.insert(balance_key(a), u128_bytes(v)), a) == v,
        balance_state(m.insert(balance_key(a), u128_bytes(v)), a) == Ok::<u128, crate::codec::LedgerError>(v),
{
    lemma_u128_round_trip(v);
}

/// Initialization of an empty store gives a ledger whose total supply, zero, is the sum of
/// the balances, and whose amounts are well formed.
pub proof fn lemma_init_establishes_supply(
    name: Seq<char>,
    symbol: Seq<char>,
    decimals: u8,
    caller: Seq<u8>,
    m2: Map<Seq<u8>, Seq<u8>>,
    accounts: Seq<Seq<u8>>,
)
    requires
        init_outcome(Map::empty(), name, symbol, decimals, caller) == m2,
    ensures
        supply_state(m2) == Ok::<u128, crate::codec::LedgerError>(0),
        sum_balances(m2, accounts) == 0,
        forall|a: Seq<u8>| balance_value(m2, a) == 0,
        amounts_well_formed(m2),
    decreases accounts.len(),
{
    lemma_keys_distinct();
    lemma_u128_round_trip(0);
    assert forall|a: Seq<u8>| balance_value(m2, a) == 0 by {
        assert(!m2.contains_key(balance_key(a)));
    }
    if accounts.len() > 0 {
        lemma_init_establishes_supply(name, symbol, decimals, caller, m2, accounts.drop_last());
    }
}

/// Every successful request keeps the total supply equal to the sum of all balances.
/// `accounts` lists, once each, every account whose balance is not zero before or after the
/// request; the balances of all other accounts are zero on both sides.
pub proof fn lemma_request_keeps_supply_equal_to_balances(
    m: Map<Seq<u8>, Seq<u8>>,
    m2: Map<Seq<u8>, Seq<u8>>,
    caller: Seq<u8>,
    msg: HandleMsg,
    accounts: Seq<Seq<u8>>,
)
    requires
        handle_outcome(m, caller, msg) == Ok::<Map<Seq<u8>, Seq<u8>>, crate::codec::LedgerError>(m2),
        accounts.no_duplicates(),
        forall|a: Seq<u8>| balance_value(m, a) != 0 || balance_value(m2, a) != 0 ==> accounts.contains(a),
        supply_state(m) matches Ok(s) && s == sum_balances(m, accounts),
    ensures
        supply_state(m2) matches Ok(s2) && s2 == sum_balances(m2, accounts),
{
    lemma_keys_distinct();
    match msg {
        HandleMsg::DepositTo { to, value } => {
            let s = supply_state(m)->Ok_0;
            let b = balance_state(m, to@)->Ok_0;
            let m1 = m.insert(supply_key(), u128_bytes((s + value) as u128));
            lemma_u128_round_trip((s + value) as u128);
            lemma_written_balance(m1, to@, (b + value) as u128);
            assert(forall|a: Seq<u8>| balance_value(m1, a) == balance_value(m, a));
            lemma_sum_one_change(m, m2, to@, accounts);
        },
        HandleMsg::BurnFrom { from, value } => {
            let s = supply_state(m)->Ok_0;
            let b = balance_state(m, from@)->Ok_0;
            let m1 = m.insert(balance_key(from@), u128_bytes((b - value) as u128));
            lemma_u128_round_trip((s - value) as u128);
            lemma_written_balance(m, from@, (b - value) as u128);
            assert(forall|a: Seq<u8>| balance_value(m2, a) == balance_value(m1, a));
            lemma_sum_one_change(m, m2, from@, accounts);
        },
        HandleMsg::Transfer { to, value } => {
            let sb = balance_state(m, caller)->Ok_0;
            let rb = balance_state(m, to@)->Ok_0;
            let m1 = m.insert(balance_key(caller), u128_bytes((sb - value) as u128));
            lemma_written_balance(m, caller, (sb - value) as u128);
            lemma_written_balance(m1, to@, (rb + value) as u128);
            lemma_sum_one_change(m, m1, caller, accounts);
            lemma_sum_one_change(m1, m2, to@, accounts);
        },
        HandleMsg::TransferFrom { from, to, value } => {
            let a = allowance_state(m, from@, caller)->Ok_0;
            let fb = balance_state(m, from@)->Ok_0;
            let tb = balance_state(m, to@)->Ok_0;
            let m1 = m.insert(balance_key(from@), u128_bytes((fb - value) as u128));
            let m3 = m1.insert(balance_key(to@), u128_bytes((tb + value) as u128));
            lemma_written_balance(m, from@, (fb - value) as u128);
            lemma_written_balance(m1, to@, (tb + value) as u128);
            assert(forall|x: Seq<u8>| balance_value(m2, x) == balance_value(m3, x));
            lemma_sum_one_change(m, m1, from@, accounts);
            lemma_sum_one_change(m1, m3, to@, accounts);
            lemma_sum_one_change(m3, m2, to@, accounts);
        },
        HandleMsg::Approve { spender, value } => {
            assert(forall|x: Seq<u8>| balance_value(m2, x) == balance_value(m, x));
            lemma_sum_one_change(m, m2, caller, accounts);
        },
        HandleMsg::Allowance { .. } => {},
    }
}

/// Every successful request leaves each amount the store holds a valid 16-byte encoding of
/// an unsigned 128-bit value; a request that would take an amount below zero fails instead.
pub proof fn lemma_request_keeps_amounts_well_formed(
    m: Map<Seq<u8>, Seq<u8>>,
    m2: Map<Seq<u8>, Seq<u8>>,
    caller: Seq<u8>,
    msg: HandleMsg,
)
    requires
        handle_outcome(m, caller, msg) == Ok::<Map<Seq<u8>, Seq<u8>>, crate::codec::LedgerError>(m2),
        amounts_well_formed(m),
    ensures
        amounts_well_formed(m2),
{
    assert forall|v: u128| #[trigger] u128_bytes(v).len() == 16 by {
        lemma_u128_round_trip(v);
    }
}

} // verus!
