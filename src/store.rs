//! The raw key-value store and the namespaced views over it.
use vstd::prelude::*;
use vstd::slice::slice_to_vec;
use cosmwasm_std::{MemoryStorage, ReadonlyStorage, Storage};
use cosmwasm_storage::{PrefixedStorage, ReadonlyPrefixedStorage};

use crate::codec::be_bytes;

verus! {

#[verifier::external_type_specification]
#[verifier::external_body]
pub struct ExMemoryStorage(MemoryStorage);

/// The entries that a store holds, key to value.
pub uninterp spec fn storage_view(s: MemoryStorage) -> Map<Seq<u8>, Seq<u8>>;

/// A namespace's length as two big-endian bytes, followed by the namespace.
pub open spec fn length_prefix(ns: Seq<u8>) -> Seq<u8> {
    be_bytes(ns.len(), 2) + ns
}

/// Relies on cosmwasm_storage::ReadonlyPrefixedStorage::new and its get: the value stored
/// under the namespace's length-prefixed name followed by the key. It panics on a namespace
/// longer than 0xFFFF bytes.
#[verifier::external_body]
fn prefixed_get(storage: &MemoryStorage, ns: &[u8], key: &[u8]) -> (r: Option<Vec<u8>>)
    requires
        ns@.len() <= 0xFFFF,
    ensures
        match r {
            Some(v) => storage_view(*storage).contains_key(length_prefix(ns@) + key@)
                && storage_view(*storage)[length_prefix(ns@) + key@] == v@,
            None => !storage_view(*storage).contains_key(length_prefix(ns@) + key@),
        },
{
    ReadonlyPrefixedStorage::new(ns, storage).get(key)
}

/// Relies on cosmwasm_storage::PrefixedStorage::new and its set: stores the value under the
/// namespace's length-prefixed name followed by the key, replacing any earlier one.
#[verifier::external_body]
fn prefixed_set(storage: &mut MemoryStorage, ns: &[u8], key: &[u8], value: &[u8])
    requires
        ns@.len() <= 0xFFFF,
    ensures
        storage_view(*final(storage)) == storage_view(*old(storage)).insert(
            length_prefix(ns@) + key@,
            value@,
        ),
{
    PrefixedStorage::new(ns, storage).set(key, value)
}

/// Relies on cosmwasm_storage::ReadonlyPrefixedStorage::multilevel and its get: the value
/// stored under both length-prefixed namespace names followed by the key.
#[verifier::external_body]
fn multilevel_get(storage: &MemoryStorage, outer: &[u8], inner: &[u8], key: &[u8]) -> (r: Option<Vec<u8>>)
    requires
        outer@.len() <= 0xFFFF,
        inner@.len() <= 0xFFFF,
    ensures
        match r {
            Some(v) => storage_view(*storage).contains_key(length_prefix(outer@) + length_prefix(inner@) + key@)
                && storage_view(*storage)[length_prefix(outer@) + length_prefix(inner@) + key@] == v@,
            None => !storage_view(*storage).contains_key(length_prefix(outer@) + length_prefix(inner@) + key@),
        },
{
    ReadonlyPrefixedStorage::multilevel(&[outer, inner], storage).get(key)
}

/// Relies on cosmwasm_storage::PrefixedStorage::multilevel and its set: stores the value under
/// both length-prefixed namespace names followed by the key, replacing any earlier one.
#[verifier::external_body]
fn multilevel_set(storage: &mut MemoryStorage, outer: &[u8], inner: &[u8], key: &[u8], value: &[u8])
    requires
        outer@.len() <= 0xFFFF,
        inner@.len() <= 0xFFFF,
    ensures
        storage_view(*final(storage)) == storage_view(*old(storage)).insert(
            length_prefix(outer@) + length_prefix(inner@) + key@,
            value@,
        ),
{
    PrefixedStorage::multilevel(&[outer, inner], storage).set(key, value)
}

/// Namespace of the singleton records: "config".
pub open spec fn ns_config() -> Seq<u8> {
    seq![99u8, 111, 110, 102, 105, 103]
}

/// Key of the constants record within the config namespace: "constants".
pub open spec fn key_constants() -> Seq<u8> {
    seq![99u8, 111, 110, 115, 116, 97, 110, 116, 115]
}

/// Key of the total supply within the config namespace: "total_supply".
pub open spec fn key_total_supply() -> Seq<u8> {
    seq![116u8, 111, 116, 97, 108, 95, 115, 117, 112, 112, 108, 121]
}

/// Namespace of the balances: "balances".
pub open spec fn ns_balances() -> Seq<u8> {
    seq![98u8, 97, 108, 97, 110, 99, 101, 115]
}

/// Namespace of the allowances, as the persisted layout spells it: "allowancws".
pub open spec fn ns_allowances() -> Seq<u8> {
    seq![97u8, 108, 108, 111, 119, 97, 110, 99, 119, 115]
}

/// Raw key of the constants record.
pub open spec fn constants_key() -> Seq<u8> {
    length_prefix(ns_config()) + key_constants()
}

/// Raw key of the total supply.
pub open spec fn supply_key() -> Seq<u8> {
    length_prefix(ns_config()) + key_total_supply()
}

/// Raw key of the balance of `a`.
pub open spec fn balance_key(a: Seq<u8>) -> Seq<u8> {
    length_prefix(ns_balances()) + a
}

/// Raw key of the allowance that `owner` granted to `spender`: the owner scopes a nested
/// namespace inside the allowances namespace.
pub open spec fn allowance_key(owner: Seq<u8>, spender: Seq<u8>) -> Seq<u8> {
    length_prefix(ns_allowances()) + length_prefix(owner) + spender
}

pub(crate) fn bytes_config() -> (r: Vec<u8>)
    ensures
        r@ == ns_config(),
{
    let r = vec![99u8, 111, 110, 102, 105, 103];
    assert(r@ =~= ns_config());
    r
}

pub(crate) fn bytes_constants() -> (r: Vec<u8>)
    ensures
        r@ == key_constants(),
{
    let r = vec![99u8, 111, 110, 115, 116, 97, 110, 116, 115];
    assert(r@ =~= key_constants());
    r
}

pub(crate) fn bytes_total_supply() -> (r: Vec<u8>)
    ensures
        r@ == key_total_supply(),
{
    let r = vec![116u8, 111, 116, 97, 108, 95, 115, 117, 112, 112, 108, 121];
    assert(r@ =~= key_total_supply());
    r
}

pub(crate) fn bytes_balances() -> (r: Vec<u8>)
    ensures
        r@ == ns_balances(),
{
    let r = vec![98u8, 97, 108, 97, 110, 99, 101, 115];
    assert(r@ =~= ns_balances());
    r
}

pub(crate) fn bytes_allowances() -> (r: Vec<u8>)
    ensures
        r@ == ns_allowances(),
{
    let r = vec![97u8, 108, 108, 111, 119, 97, 110, 99, 119, 115];
    assert(r@ =~= ns_allowances());
    r
}

/// A view of one namespace of the store, or of a namespace nested in another: it reads and
/// writes keys under the namespace's prefix.
pub struct Namespace {
    outer: Vec<u8>,
    inner: Option<Vec<u8>>,
}

impl Namespace {
    /// The raw bytes in front of every key of this namespace.
    pub closed spec fn prefix(&self) -> Seq<u8> {
        match self.inner {
            None => length_prefix(self.outer@),
            Some(i) => length_prefix(self.outer@) + length_prefix(i@),
        }
    }

    pub closed spec fn wf(&self) -> bool {
        &&& self.outer@.len() <= 0xFFFF
        &&& self.inner matches Some(i) ==> i@.len() <= 0xFFFF
    }

    /// The view of a top-level namespace.
    pub fn new(ns: &[u8]) -> (r: Namespace)
        requires
            ns@.len() <= 0xFFFF,
        ensures
            r.wf(),
            r.prefix() == length_prefix(ns@),
    {
        Namespace { outer: slice_to_vec(ns), inner: None }
    }

    /// The view of a namespace nested inside a top-level namespace.
    pub fn nested(outer: &[u8], inner: &[u8]) -> (r: Namespace)
        requires
            outer@.len() <= 0xFFFF,
            inner@.len() <= 0xFFFF,
        ensures
            r.wf(),
            r.prefix() == length_prefix(outer@) + length_prefix(inner@),
    {
        Namespace { outer: slice_to_vec(outer), inner: Some(slice_to_vec(inner)) }
    }

    /// The value stored under `key` in this namespace, if any.
    pub fn get(&self, storage: &MemoryStorage, key: &[u8]) -> (r: Option<Vec<u8>>)
        requires
            self.wf(),
        ensures
            match r {
                Some(v) => storage_view(*storage).contains_key(self.prefix() + key@)
                    && storage_view(*storage)[self.prefix() + key@] == v@,
                None => !storage_view(*storage).contains_key(self.prefix() + key@),
            },
    {
        match &self.inner {
            None => prefixed_get(storage, self.outer.as_slice(), key),
            Some(i) => multilevel_get(storage, self.outer.as_slice(), i.as_slice(), key),
        }
    }

    /// Stores `value` under `key` in this namespace.
    pub fn set(&self, storage: &mut MemoryStorage, key: &[u8], value: &[u8])
        requires
            self.wf(),
        ensures
            storage_view(*final(storage)) == storage_view(*old(storage)).insert(
                self.prefix() + key@,
                value@,
            ),
    {
        match &self.inner {
            None => prefixed_set(storage, self.outer.as_slice(), key, value),
            Some(i) => multilevel_set(storage, self.outer.as_slice(), i.as_slice(), key, value),
        }
    }
}

} // verus!
