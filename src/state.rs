//! The ledger's records in the store: constants, total supply, balances and allowances.
use vstd::prelude::*;
use cosmwasm_std::MemoryStorage;

use crate::codec::{
    constants_bytes, constants_decoded, u128_bytes, u128_decoded, Allowance, Constants, ConstantsFields, Record,
    LedgerError, encode_u128, decode_u128,
};
use crate::store::{
    allowance_key, balance_key, bytes_allowances, bytes_balances, bytes_config, bytes_constants,
    bytes_total_supply, constants_key, length_prefix, ns_balances, ns_config,
    storage_view, supply_key, Namespace,
};

verus! {

/// The constants record that the store holds.
pub open spec fn constants_state(m: Map<Seq<u8>, Seq<u8>>) -> Result<ConstantsFields, LedgerError> {
    if !m.contains_key(constants_key()) {
        Err(LedgerError::NotFound)
    } else {
        match constants_decoded(m[constants_key()]) {
            Some(f) => Ok(f),
            None => Err(LedgerError::DecodeError(Record::Constants)),
        }
    }
}

/// The owner that the store's constants record names.
pub open spec fn owner_state(m: Map<Seq<u8>, Seq<u8>>) -> Result<Seq<u8>, LedgerError> {
    match constants_state(m) {
        Ok(f) => Ok(f.3),
        Err(e) => Err(e),
    }
}

/// The total supply that the store holds.
pub open spec fn supply_state(m: Map<Seq<u8>, Seq<u8>>) -> Result<u128, LedgerError> {
    if !m.contains_key(supply_key()) {
        Err(LedgerError::NotFound)
    } else {
        match u128_decoded(m[supply_key()]) {
            Some(v) => Ok(v),
            None => Err(LedgerError::DecodeError(Record::Amount)),
        }
    }
}

/// The balance of `a`: zero where the store holds none.
pub open spec fn balance_state(m: Map<Seq<u8>, Seq<u8>>, a: Seq<u8>) -> Result<u128, LedgerError> {
    if !m.contains_key(balance_key(a)) {
        Ok(0)
    } else {
        match u128_decoded(m[balance_key(a)]) {
            Some(v) => Ok(v),
            None => Err(LedgerError::DecodeError(Record::Amount)),
        }
    }
}

/// The allowance that `owner` granted to `spender`: zero where the store holds none.
pub open spec fn allowance_state(m: Map<Seq<u8>, Seq<u8>>, owner: Seq<u8>, spender: Seq<u8>) -> Result<
    u128,
    LedgerError,
> {
    if !m.contains_key(allowance_key(owner, spender)) {
        Ok(0)
    } else {
        match u128_decoded(m[allowance_key(owner, spender)]) {
            Some(v) => Ok(v),
            None => Err(LedgerError::DecodeError(Record::Allowance)),
        }
    }
}

/// The config namespace, with its reads and writes.
pub struct ContractStorage {
    ns: Namespace,
}

impl ContractStorage {
    pub closed spec fn wf(&self) -> bool {
        self.ns.wf() && self.ns.prefix() == length_prefix(ns_config())
    }

    /// Opens the config namespace; the store itself is handed to each call.
    pub fn from_storage() -> (r: ContractStorage)
        ensures
            r.wf(),
    {
        let ns = bytes_config();
        ContractStorage { ns: Namespace::new(ns.as_slice()) }
    }

    /// The constants record.
    pub fn constants(&self, storage: &MemoryStorage) -> (r: Result<Constants, LedgerError>)
        requires
            self.wf(),
        ensures
            match r {
                Ok(c) => constants_state(storage_view(*storage)) == Ok::<ConstantsFields, LedgerError>(c.fields()),
                Err(e) => constants_state(storage_view(*storage)) == Err::<ConstantsFields, LedgerError>(e),
            },
    {
        let key = bytes_constants();
        match self.ns.get(storage, key.as_slice()) {
            Some(b) => Constants::decode(b.as_slice()),
            None => Err(LedgerError::NotFound),
        }
    }

    /// Writes the constants record.
    pub fn set_constants(&self, storage: &mut MemoryStorage, constants: &Constants) -> (r: Result<(), LedgerError>)
        requires
            self.wf(),
        ensures
            r is Ok,
            storage_view(*final(storage)) == storage_view(*old(storage)).insert(
                constants_key(),
                constants_bytes(constants.name@, constants.symbol@, constants.decimals, constants.owner@),
            ),
            constants_decoded(constants_bytes(constants.name@, constants.symbol@, constants.decimals, constants.owner@))
                == Some(constants.fields()),
            constants_state(storage_view(*final(storage))) == Ok::<ConstantsFields, LedgerError>(constants.fields()),
    {
        let key = bytes_constants();
        let b = constants.encode();
        self.ns.set(storage, key.as_slice(), b.as_slice());
        Ok(())
    }

    /// The total supply.
    pub fn total_supply(&self, storage: &MemoryStorage) -> (r: Result<u128, LedgerError>)
        requires
            self.wf(),
        ensures
            r == supply_state(storage_view(*storage)),
    {
        let key = bytes_total_supply();
        match self.ns.get(storage, key.as_slice()) {
            Some(b) => decode_u128(b.as_slice()),
            None => Err(LedgerError::NotFound),
        }
    }

    /// Writes the total supply.
    pub fn set_total_supply(&self, storage: &mut MemoryStorage, value: u128)
        requires
            self.wf(),
        ensures
            storage_view(*final(storage)) == storage_view(*old(storage)).insert(supply_key(), u128_bytes(value)),
    {
        let key = bytes_total_supply();
        let b = encode_u128(value);
        self.ns.set(storage, key.as_slice(), b.as_slice());
    }

    /// The read-only view of the same namespace.
    pub fn as_readonly(&self) -> (r: ReadOnlyContractStorage)
        requires
            self.wf(),
        ensures
            r.wf(),
    {
        ReadOnlyContractStorage::from_storage()
    }
}

/// The config namespace, for reads only.
pub struct ReadOnlyContractStorage {
    ns: Namespace,
}

impl ReadOnlyContractStorage {
    pub closed spec fn wf(&self) -> bool {
        self.ns.wf() && self.ns.prefix() == length_prefix(ns_config())
    }

    /// Opens the config namespace for reads; the store itself is handed to each call.
    pub fn from_storage() -> (r: ReadOnlyContractStorage)
        ensures
            r.wf(),
    {
        let ns = bytes_config();
        ReadOnlyContractStorage { ns: Namespace::new(ns.as_slice()) }
    }

    /// The constants record.
    pub fn constants(&self, storage: &MemoryStorage) -> (r: Result<Constants, LedgerError>)
        requires
            self.wf(),
        ensures
            match r {
                Ok(c) => constants_state(storage_view(*storage)) == Ok::<ConstantsFields, LedgerError>(c.fields()),
                Err(e) => constants_state(storage_view(*storage)) == Err::<ConstantsFields, LedgerError>(e),
            },
    {
        let key = bytes_constants();
        match self.ns.get(storage, key.as_slice()) {
            Some(b) => Constants::decode(b.as_slice()),
            None => Err(LedgerError::NotFound),
        }
    }

    /// The total supply.
    pub fn total_supply(&self, storage: &MemoryStorage) -> (r: Result<u128, LedgerError>)
        requires
            self.wf(),
        ensures
            r == supply_state(storage_view(*storage)),
    {
        let key = bytes_total_supply();
        match self.ns.get(storage, key.as_slice()) {
            Some(b) => decode_u128(b.as_slice()),
            None => Err(LedgerError::NotFound),
        }
    }
}

/// The balances namespace, with its reads and writes.
pub struct Balances {
    ns: Namespace,
}

impl Balances {
    pub closed spec fn wf(&self) -> bool {
        self.ns.wf() && self.ns.prefix() == length_prefix(ns_balances())
    }

    /// Opens the balances namespace; the store itself is handed to each call.
    pub fn from_storage() -> (r: Balances)
        ensures
            r.wf(),
    {
        let ns = bytes_balances();
        Balances { ns: Namespace::new(ns.as_slice()) }
    }

    /// The balance of `address`, zero where none is stored.
    pub fn balance(&self, storage: &MemoryStorage, address: &[u8]) -> (r: Result<u128, LedgerError>)
        requires
            self.wf(),
        ensures
            r == balance_state(storage_view(*storage), address@),
    {
        match self.ns.get(storage, address) {
            Some(b) => decode_u128(b.as_slice()),
            None => Ok(0),
        }
    }

    /// Writes the balance of `address`.
    pub fn set_balance(&self, storage: &mut MemoryStorage, address: &[u8], value: u128)
        requires
            self.wf(),
        ensures
            storage_view(*final(storage)) == storage_view(*old(storage)).insert(balance_key(address@), u128_bytes(value)),
    {
        let b = encode_u128(value);
        self.ns.set(storage, address, b.as_slice());
    }

    /// The read-only view of the same namespace.
    pub fn as_readonly(&self) -> (r: ReadOnlyBalances)
        requires
            self.wf(),
        ensures
            r.wf(),
    {
        ReadOnlyBalances::from_storage()
    }
}

/// The balances namespace, for reads only.
pub struct ReadOnlyBalances {
    ns: Namespace,
}

impl ReadOnlyBalances {
    pub closed spec fn wf(&self) -> bool {
        self.ns.wf() && self.ns.prefix() == length_prefix(ns_balances())
    }

    /// Opens the balances namespace for reads; the store itself is handed to each call.
    pub fn from_storage() -> (r: ReadOnlyBalances)
        ensures
            r.wf(),
    {
        let ns = bytes_balances();
        ReadOnlyBalances { ns: Namespace::new(ns.as_slice()) }
    }

    /// The balance of `address`, zero where none is stored.
    pub fn balance(&self, storage: &MemoryStorage, address: &[u8]) -> (r: Result<u128, LedgerError>)
        requires
            self.wf(),
        ensures
            r == balance_state(storage_view(*storage), address@),
    {
        match self.ns.get(storage, address) {
            Some(b) => decode_u128(b.as_slice()),
            None => Ok(0),
        }
    }
}

/// The allowance that `owner` granted to `spender`, zero where none is stored.
pub fn get_allowance(storage: &MemoryStorage, owner: &[u8], spender: &[u8]) -> (r: Result<Allowance, LedgerError>)
    requires
        owner@.len() <= 0xFFFF,
    ensures
        r == match allowance_state(storage_view(*storage), owner@, spender@) {
            Ok(v) => Ok::<Allowance, LedgerError>(Allowance { amount: v }),
            Err(e) => Err(e),
        },
{
    let ns = bytes_allowances();
    let view = Namespace::nested(ns.as_slice(), owner);
    proof {
        assert(view.prefix() + spender@ =~= allowance_key(owner@, spender@));
    }
    match view.get(storage, spender) {
        Some(b) => Allowance::decode(b.as_slice()),
        None => Ok(Allowance { amount: 0 }),
    }
}

/// Writes the allowance that `owner` granted to `spender`.
pub fn set_allowance(storage: &mut MemoryStorage, owner: &[u8], spender: &[u8], allowance: Allowance)
    requires
        owner@.len() <= 0xFFFF,
    ensures
        storage_view(*final(storage)) == storage_view(*old(storage)).insert(
            allowance_key(owner@, spender@),
            u128_bytes(allowance.amount),
        ),
{
    let ns = bytes_allowances();
    let view = Namespace::nested(ns.as_slice(), owner);
    proof {
        assert(view.prefix() + spender@ =~= allowance_key(owner@, spender@));
    }
    let b = allowance.encode();
    view.set(storage, spender, b.as_slice());
}

} // verus!
