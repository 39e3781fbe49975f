//! Byte encodings of the values the ledger persists.
use vstd::prelude::*;
use vstd::arithmetic::div_mod::lemma_mod_breakdown;
use cosmwasm_std::{Binary, CanonicalAddr};

verus! {

/// Ways in which a ledger operation or a read of the store can fail.
#[derive(PartialEq, Eq, Structural, Debug, Clone, Copy)]
pub enum LedgerError {
    /// Zero amount, or an operation that refers to the caller itself.
    InvalidArgument,
    /// The caller lacks the relationship to the account that the operation needs.
    Unauthorized,
    /// The spender's allowance is smaller than the amount moved.
    InsufficientAllowance,
    /// A result would exceed the 128-bit unsigned range.
    Overflow,
    /// A result would go below zero.
    Underflow,
    /// Persisted bytes could not be decoded as the record named.
    DecodeError(Record),
    /// A record that initialization writes is missing.
    NotFound,
}

/// The kinds of persisted record.
#[derive(PartialEq, Eq, Structural, Debug, Clone, Copy)]
pub enum Record {
    /// A 128-bit amount: the total supply or a balance.
    Amount,
    Constants,
    Allowance,
}

/// The name of the type that a record decodes to.
pub open spec fn record_type_name(r: Record) -> Seq<char> {
    match r {
        Record::Amount => "u128"@,
        Record::Constants => "Constants"@,
        Record::Allowance => "Allowance"@,
    }
}

impl Record {
    /// The name of the type that this record decodes to.
    pub fn expected_type(&self) -> (r: &'static str)
        ensures
            r@ == record_type_name(*self),
    {
        match self {
            Record::Amount => "u128",
            Record::Constants => "Constants",
            Record::Allowance => "Allowance",
        }
    }
}

/// 256 to the power `n`.
pub open spec fn pow256(n: nat) -> nat
    decreases n,
{
    if n == 0 {
        1
    } else {
        256 * pow256((n - 1) as nat)
    }
}

/// The unsigned integer that `s` denotes, most significant byte first.
pub open spec fn be_value(s: Seq<u8>) -> nat
    decreases s.len(),
{
    if s.len() == 0 {
        0
    } else {
        be_value(s.drop_last()) * 256 + s.last() as nat
    }
}

/// The last `n` bytes of `v`, most significant byte first.
pub open spec fn be_bytes(v: nat, n: nat) -> Seq<u8>
    decreases n,
{
    if n == 0 {
        Seq::empty()
    } else {
        be_bytes(v / 256, (n - 1) as nat).push((v % 256) as u8)
    }
}

/// The fixed-width persisted form of a 128-bit amount.
pub open spec fn u128_bytes(v: u128) -> Seq<u8> {
    be_bytes(v as nat, 16)
}

/// What a persisted amount decodes to: its value when it is exactly 16 bytes long.
pub open spec fn u128_decoded(s: Seq<u8>) -> Option<u128> {
    if s.len() == 16 {
        Some(be_value(s) as u128)
    } else {
        None
    }
}

pub proof fn lemma_be_bytes_len(v: nat, n: nat)
    ensures
        be_bytes(v, n).len() == n,
    decreases n,
{
    if n > 0 {
        lemma_be_bytes_len(v / 256, (n - 1) as nat);
    }
}

pub proof fn lemma_be_value_of_bytes(v: nat, n: nat)
    ensures
        be_value(be_bytes(v, n)) == v % pow256(n),
    decreases n,
{
    if n == 0 {
        assert(v % 1 == 0) by (nonlinear_arith);
    } else {
        let m = (n - 1) as nat;
        lemma_be_value_of_bytes(v / 256, m);
        let s = be_bytes(v, n);
        assert(s.drop_last() =~= be_bytes(v / 256, m));
        assert(pow256(m) > 0) by {
            lemma_pow256_positive(m);
        }
        lemma_mod_breakdown(v as int, 256, pow256(m) as int);
        assert(be_value(s) == ((v / 256) % pow256(m)) * 256 + v % 256);
        assert(v % (256 * pow256(m)) == 256 * ((v / 256) % pow256(m)) + v % 256);
    }
}

pub proof fn lemma_pow256_positive(n: nat)
    ensures
        pow256(n) > 0,
    decreases n,
{
    if n > 0 {
        lemma_pow256_positive((n - 1) as nat);
    }
}

pub proof fn lemma_pow256_16()
    ensures
        pow256(16) == 0x1_0000_0000_0000_0000_0000_0000_0000_0000,
{
    reveal_with_fuel(pow256, 17);
}

/// Decoding a persisted 128-bit amount gives back the amount that was encoded.
pub proof fn lemma_u128_round_trip(v: u128)
    ensures
        u128_bytes(v).len() == 16,
        u128_decoded(u128_bytes(v)) == Some(v),
{
    lemma_be_bytes_len(v as nat, 16);
    lemma_be_value_of_bytes(v as nat, 16);
    lemma_pow256_16();
    assert((v as nat) % pow256(16) == v as nat);
}

/// The last `n` bytes of `x`, most significant first.
fn be_digits(x: u128, n: usize) -> (r: Vec<u8>)
    ensures
        r@ == be_bytes(x as nat, n as nat),
    decreases n,
{
    if n == 0 {
        Vec::new()
    } else {
        let mut r = be_digits(x / 256, n - 1);
        r.push((x % 256) as u8);
        r
    }
}

proof fn lemma_pow256_monotone(i: nat, j: nat)
    requires
        i <= j,
    ensures
        pow256(i) <= pow256(j),
    decreases j - i,
{
    if i < j {
        lemma_pow256_monotone(i, (j - 1) as nat);
        lemma_pow256_positive((j - 1) as nat);
    }
}

/// Encodes an amount as exactly 16 bytes, most significant first.
pub fn encode_u128(v: u128) -> (r: Vec<u8>)
    ensures
        r@ == u128_bytes(v),
        r@.len() == 16,
{
    proof {
        lemma_be_bytes_len(v as nat, 16);
    }
    be_digits(v, 16)
}

/// Decodes an amount persisted by `encode_u128`; any other length is corrupt data.
pub fn decode_u128(b: &[u8]) -> (r: Result<u128, LedgerError>)
    ensures
        r == match u128_decoded(b@) {
            Some(v) => Ok::<u128, LedgerError>(v),
            None => Err(LedgerError::DecodeError(Record::Amount)),
        },
{
    if b.len() != 16 {
        return Err(LedgerError::DecodeError(Record::Amount));
    }
    let mut acc: u128 = 0;
    let mut i: usize = 0;
    while i < 16
        invariant
            b@.len() == 16,
            0 <= i <= 16,
            acc as nat == be_value(b@.subrange(0, i as int)),
            (acc as nat) < pow256(i as nat),
        decreases 16 - i,
    {
        proof {
            assert(b@.subrange(0, i + 1).drop_last() =~= b@.subrange(0, i as int));
            lemma_pow256_monotone(i as nat, 15);
            assert(pow256(15) == 0x100_0000_0000_0000_0000_0000_0000_0000) by {
                reveal_with_fuel(pow256, 16);
            }
            let a = acc as nat;
            let p = pow256(i as nat);
            let d = b@[i as int] as nat;
            assert(a * 256 + d < 256 * p) by (nonlinear_arith)
                requires
                    a < p,
                    d < 256,
            ;
            assert(256 * p <= 0x1_0000_0000_0000_0000_0000_0000_0000_0000) by (nonlinear_arith)
                requires
                    p <= 0x100_0000_0000_0000_0000_0000_0000_0000,
            ;
        }
        acc = acc * 256 + b[i] as u128;
        i = i + 1;
    }
    assert(b@.subrange(0, 16) =~= b@);
    Ok(acc)
}

/// The descriptive record of the token and the identity allowed to mint.
#[derive(Clone, Debug, PartialEq, Eq)]
pub struct Constants {
    pub name: String,
    pub symbol: String,
    pub decimals: u8,
    /// Canonical address of the owner.
    pub owner: Vec<u8>,
}

/// The fields of a constants record, as plain values.
pub type ConstantsFields = (Seq<char>, Seq<char>, u8, Seq<u8>);

impl Constants {
    pub open spec fn fields(&self) -> ConstantsFields {
        (self.name@, self.symbol@, self.decimals, self.owner@)
    }
}

/// What bincode's serialization of a constants record gives on its fields.
pub uninterp spec fn constants_bytes(name: Seq<char>, symbol: Seq<char>, decimals: u8, owner: Seq<u8>) -> Seq<u8>;

/// What bincode's deserialization of a constants record gives on the bytes.
pub uninterp spec fn constants_decoded(b: Seq<u8>) -> Option<ConstantsFields>;

/// Relies on bincode::serialize of the fields as (name, symbol, decimals, canonical address):
/// the bytes depend on the fields alone, and bincode::deserialize reads them back unchanged.
/// Two strings, a byte and the base64 string of the address always serialize: no size limit
/// applies, so the result is always present.
#[verifier::external_body]
fn bincode_serialize_constants(c: &Constants) -> (r: Option<Vec<u8>>)
    ensures
        r is Some,
        r matches Some(b) ==> constants_bytes(c.name@, c.symbol@, c.decimals, c.owner@) == b@,
        r matches Some(b) ==> constants_decoded(b@) == Some(c.fields()),
{
    let owner = CanonicalAddr(Binary(c.owner.clone()));
    bincode::serialize(&(&c.name, &c.symbol, c.decimals, owner)).ok()
}

/// Relies on bincode::deserialize of (name, symbol, decimals, canonical address).
#[verifier::external_body]
fn bincode_deserialize_constants(b: &[u8]) -> (r: Option<Constants>)
    ensures
        match r {
            Some(c) => constants_decoded(b@) == Some(c.fields()),
            None => constants_decoded(b@) is None,
        },
{
    let d = bincode::deserialize::<(String, String, u8, CanonicalAddr)>(b).ok()?;
    Some(Constants { name: d.0, symbol: d.1, decimals: d.2, owner: (d.3).0.0 })
}

impl Constants {
    /// The persisted form of the record; decoding it gives back the same fields.
    pub fn encode(&self) -> (r: Vec<u8>)
        ensures
            r@ == constants_bytes(self.name@, self.symbol@, self.decimals, self.owner@),
            constants_decoded(r@) == Some(self.fields()),
    {
        bincode_serialize_constants(self).unwrap()
    }

    /// Reads a record from its persisted form.
    pub fn decode(b: &[u8]) -> (r: Result<Constants, LedgerError>)
        ensures
            match r {
                Ok(c) => constants_decoded(b@) == Some(c.fields()),
                Err(e) => e == LedgerError::DecodeError(Record::Constants) && constants_decoded(b@) is None,
            },
    {
        match bincode_deserialize_constants(b) {
            Some(c) => Ok(c),
            None => Err(LedgerError::DecodeError(Record::Constants)),
        }
    }
}

/// The amount that a spender may move out of an owner's balance.
#[derive(PartialEq, Eq, Structural, Debug, Clone, Copy)]
pub struct Allowance {
    pub amount: u128,
}

impl Default for Allowance {
    fn default() -> (r: Allowance)
        ensures
            r.amount == 0,
    {
        Allowance { amount: 0 }
    }
}

impl Allowance {
    /// The persisted form: the amount as 16 big-endian bytes.
    pub fn encode(&self) -> (r: Vec<u8>)
        ensures
            r@ == u128_bytes(self.amount),
    {
        encode_u128(self.amount)
    }

    /// Reads a record from its persisted form.
    pub fn decode(b: &[u8]) -> (r: Result<Allowance, LedgerError>)
        ensures
            r == match u128_decoded(b@) {
                Some(v) => Ok::<Allowance, LedgerError>(Allowance { amount: v }),
                None => Err(LedgerError::DecodeError(Record::Allowance)),
            },
    {
        match decode_u128(b) {
            Ok(v) => Ok(Allowance { amount: v }),
            Err(_) => Err(LedgerError::DecodeError(Record::Allowance)),
        }
    }
}

/// Decoding the persisted form of an allowance gives back the same allowance.
pub proof fn lemma_allowance_round_trip(a: Allowance)
    ensures
        u128_decoded(u128_bytes(a.amount)) == Some(a.amount),
{
    lemma_u128_round_trip(a.amount);
}

} // verus!
