//! Plain stand-ins for the values that samples carry: numeric readings and
//! record identities.

use vstd::prelude::*;

verus! {

/// One numeric reading of a sample, held as the 64 bits of its IEEE 754
/// double-precision form. The library stores, selects and orders readings;
/// it never computes with them.
#[derive(Clone, Copy, PartialEq, Eq, Structural, Debug)]
pub struct Reading {
    pub bits: u64,
}

/// Identity that the store gives a record: the twelve bytes of its object
/// id, read as a big-endian number.
#[derive(Clone, Copy, PartialEq, Eq, Structural, Debug)]
pub struct RecordId {
    pub value: u128,
}

/// The key under which readings are ordered. Keys grow with the number a
/// reading stands for: negative numbers come before positive ones, and a
/// larger magnitude moves a negative number down and a positive one up.
pub open spec fn order_key(bits: u64) -> u64 {
    if bits >= 0x8000_0000_0000_0000 {
        (u64::MAX - bits) as u64
    } else {
        (bits + 0x8000_0000_0000_0000) as u64
    }
}

/// The reading that stands in for a field that could not be read: zero.
pub open spec fn reading_or_zero(parsed: Option<Reading>) -> Reading {
    match parsed {
        Some(reading) => reading,
        None => Reading { bits: 0 },
    }
}

impl Reading {
    pub fn from_bits(bits: u64) -> (reading: Reading)
        ensures
            reading.bits == bits,
    {
        Reading { bits }
    }

    pub fn to_bits(self) -> (bits: u64)
        ensures
            bits == self.bits,
    {
        self.bits
    }

    /// Positive zero.
    pub fn zero() -> (reading: Reading)
        ensures
            reading.bits == 0,
    {
        Reading { bits: 0 }
    }

    /// The reading of a field, with zero in place of one that was malformed.
    pub fn or_zero(parsed: Option<Reading>) -> (reading: Reading)
        ensures
            reading == reading_or_zero(parsed),
    {
        match parsed {
            Some(reading) => reading,
            None => Reading { bits: 0 },
        }
    }

    pub fn sort_key(self) -> (key: u64)
        ensures
            key == order_key(self.bits),
    {
        if self.bits >= 0x8000_0000_0000_0000 {
            u64::MAX - self.bits
        } else {
            self.bits + 0x8000_0000_0000_0000
        }
    }
}

/// Different readings never share a key, so ordering by key is a total
/// order on readings.
pub proof fn lemma_order_key_injective(a: u64, b: u64)
    ensures
        order_key(a) == order_key(b) <==> a == b,
{
}

/// Among readings of one sign, the key follows the bit pattern: upward for
/// non-negative readings, downward for negative ones.
pub proof fn lemma_order_key_monotone(a: u64, b: u64)
    ensures
        a < b < 0x8000_0000_0000_0000 ==> order_key(a) < order_key(b),
        0x8000_0000_0000_0000 <= a < b ==> order_key(a) > order_key(b),
        a >= 0x8000_0000_0000_0000 && b < 0x8000_0000_0000_0000 ==> order_key(a) < order_key(b),
{
}

impl RecordId {
    pub fn from_value(value: u128) -> (id: RecordId)
        ensures
            id.value == value,
    {
        RecordId { value }
    }
}

} // verus!
