//! The four bytes of the raw numerator, in big-, little- and native-endian order.
use crate::unit::UnitRanged;
use vstd::endian::{endianness, Endian};
use vstd::prelude::*;

verus! {

broadcast use crate::unit::group_unit_ranged;

/// The bytes of `x`, most significant first.
pub open spec fn be_bytes(x: u32) -> Seq<u8> {
    seq![
        (x / 0x100_0000) as u8,
        ((x / 0x1_0000) % 0x100) as u8,
        ((x / 0x100) % 0x100) as u8,
        (x % 0x100) as u8,
    ]
}

/// The bytes of `x`, least significant first.
pub open spec fn le_bytes(x: u32) -> Seq<u8> {
    be_bytes(x).reverse()
}

/// The number that four bytes spell, most significant first.
pub open spec fn be_value(b: Seq<u8>) -> nat
    recommends
        b.len() == 4,
{
    b[0] as nat * 0x100_0000 + b[1] as nat * 0x1_0000 + b[2] as nat * 0x100 + b[3] as nat
}

/// The number that four bytes spell, least significant first.
pub open spec fn le_value(b: Seq<u8>) -> nat
    recommends
        b.len() == 4,
{
    be_value(b.reverse())
}

/// The bytes of `x` in the byte order of the machine.
pub open spec fn ne_bytes(x: u32) -> Seq<u8> {
    match endianness() {
        Endian::Little => le_bytes(x),
        Endian::Big => be_bytes(x),
    }
}

/// The number that four bytes spell in the byte order of the machine.
pub open spec fn ne_value(b: Seq<u8>) -> nat
    recommends
        b.len() == 4,
{
    match endianness() {
        Endian::Little => le_value(b),
        Endian::Big => be_value(b),
    }
}

/// Calls `u32::to_be_bytes`, which returns the bytes of `x`, most
/// significant first.
#[verifier::external_body]
fn u32_to_be_bytes(x: u32) -> (r: [u8; 4])
    ensures
        r@ == be_bytes(x),
{
    x.to_be_bytes()
}

/// Calls `u32::to_le_bytes`, which returns the bytes of `x`, least
/// significant first.
#[verifier::external_body]
fn u32_to_le_bytes(x: u32) -> (r: [u8; 4])
    ensures
        r@ == le_bytes(x),
{
    x.to_le_bytes()
}

/// Calls `u32::to_ne_bytes`, which returns the bytes of `x` in the byte
/// order of the machine it runs on.
#[verifier::external_body]
fn u32_to_ne_bytes(x: u32) -> (r: [u8; 4])
    ensures
        r@ == ne_bytes(x),
{
    x.to_ne_bytes()
}

/// Calls `u32::from_be_bytes`, which reads four bytes, most significant first.
#[verifier::external_body]
fn u32_from_be_bytes(b: [u8; 4]) -> (r: u32)
    ensures
        r == be_value(b@),
{
    u32::from_be_bytes(b)
}

/// Calls `u32::from_le_bytes`, which reads four bytes, least significant first.
#[verifier::external_body]
fn u32_from_le_bytes(b: [u8; 4]) -> (r: u32)
    ensures
        r == le_value(b@),
{
    u32::from_le_bytes(b)
}

/// Calls `u32::from_ne_bytes`, which reads four bytes in the byte order of
/// the machine it runs on.
#[verifier::external_body]
fn u32_from_ne_bytes(b: [u8; 4]) -> (r: u32)
    ensures
        r == ne_value(b@),
{
    u32::from_ne_bytes(b)
}

impl UnitRanged {
    /// The value whose raw numerator the bytes spell, most significant first.
    pub fn from_be_bytes(bytes: &[u8; 4]) -> (r: Self)
        ensures
            r@ == be_value(bytes@),
    {
        Self::from_raw(u32_from_be_bytes(*bytes))
    }

    /// The value whose raw numerator the bytes spell, least significant first.
    pub fn from_le_bytes(bytes: &[u8; 4]) -> (r: Self)
        ensures
            r@ == le_value(bytes@),
    {
        Self::from_raw(u32_from_le_bytes(*bytes))
    }

    /// The value whose raw numerator the bytes spell in the machine's order.
    pub fn from_ne_bytes(bytes: &[u8; 4]) -> (r: Self)
        ensures
            r@ == ne_value(bytes@),
    {
        Self::from_raw(u32_from_ne_bytes(*bytes))
    }

    /// The bytes of the raw numerator, most significant first.
    pub fn to_be_bytes(&self) -> (r: [u8; 4])
        ensures
            r@ == be_bytes(self@),
    {
        u32_to_be_bytes(self.into_raw())
    }

    /// The bytes of the raw numerator, least significant first.
    pub fn to_le_bytes(&self) -> (r: [u8; 4])
        ensures
            r@ == le_bytes(self@),
    {
        u32_to_le_bytes(self.into_raw())
    }

    /// The bytes of the raw numerator in the machine's order.
    pub fn to_ne_bytes(&self) -> (r: [u8; 4])
        ensures
            r@ == ne_bytes(self@),
    {
        u32_to_ne_bytes(self.into_raw())
    }
}

/// Reading back the big-endian bytes of `x` gives `x`.
pub proof fn law_be_round_trip(x: u32)
    ensures
        be_bytes(x).len() == 4,
        be_value(be_bytes(x)) == x,
{
    assert((x / 0x100_0000) * 0x100_0000 + ((x / 0x1_0000) % 0x100) * 0x1_0000 + ((x / 0x100)
        % 0x100) * 0x100 + x % 0x100 == x) by (bit_vector);
}

/// The big-endian bytes of the number that four bytes spell are those bytes.
pub proof fn law_be_bytes_of_value(b: Seq<u8>)
    requires
        b.len() == 4,
    ensures
        be_value(b) <= u32::MAX,
        be_bytes(be_value(b) as u32) == b,
{
    let (b0, b1, b2, b3) = (b[0], b[1], b[2], b[3]);
    let x = be_value(b) as u32;
    assert(x / 0x100_0000 == b0 && (x / 0x1_0000) % 0x100 == b1 && (x / 0x100) % 0x100 == b2
        && x % 0x100 == b3) by (bit_vector)
        requires
            x == b0 as u32 * 0x100_0000 + b1 as u32 * 0x1_0000 + b2 as u32 * 0x100 + b3 as u32,
    ;
    assert(be_bytes(x) =~= b);
}

/// Reversing four bytes twice gives them back.
proof fn lemma_reverse_twice(b: Seq<u8>)
    requires
        b.len() == 4,
    ensures
        b.reverse().reverse() == b,
        b.reverse().len() == 4,
{
    assert(b.reverse().reverse() =~= b);
}

/// Reading back the little-endian bytes of `x` gives `x`.
pub proof fn law_le_round_trip(x: u32)
    ensures
        le_bytes(x).len() == 4,
        le_value(le_bytes(x)) == x,
{
    law_be_round_trip(x);
    lemma_reverse_twice(be_bytes(x));
}

/// The little-endian bytes of the number that four bytes spell are those bytes.
pub proof fn law_le_bytes_of_value(b: Seq<u8>)
    requires
        b.len() == 4,
    ensures
        le_value(b) <= u32::MAX,
        le_bytes(le_value(b) as u32) == b,
{
    lemma_reverse_twice(b);
    law_be_bytes_of_value(b.reverse());
}

/// Reading back the native-endian bytes of `x` gives `x`.
pub proof fn law_ne_round_trip(x: u32)
    ensures
        ne_bytes(x).len() == 4,
        ne_value(ne_bytes(x)) == x,
{
    law_be_round_trip(x);
    law_le_round_trip(x);
}

/// The native-endian bytes of the number that four bytes spell are those bytes.
pub proof fn law_ne_bytes_of_value(b: Seq<u8>)
    requires
        b.len() == 4,
    ensures
        ne_value(b) <= u32::MAX,
        ne_bytes(ne_value(b) as u32) == b,
{
    law_be_bytes_of_value(b);
    law_le_bytes_of_value(b);
}

} // verus!
