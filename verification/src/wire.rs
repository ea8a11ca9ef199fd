//! Wire primitives: the VarInt, big-endian integer and UTF-8 encodings of
//! the protocol, and the trusted calls into the crates that implement them.

use vstd::prelude::*;
use vstd::utf8::valid_utf8;
use byteorder::{BigEndian, ReadBytesExt, WriteBytesExt};
use minecraft_varint::{VarIntRead, VarIntWrite};

verus! {

// ---------------------------------------------------------------------
// Specifications

/// The VarInt encoding of `x`: seven bits per byte, least significant group
/// first, the high bit set on every byte but the last.
pub open spec fn var_u32_bytes(x: nat) -> Seq<u8>
    decreases x,
{
    if x < 128 {
        seq![x as u8]
    } else {
        seq![(x % 128 + 128) as u8] + var_u32_bytes(x / 128)
    }
}

/// Reads at most `budget` groups of seven bits from the front of `s`,
/// stopping after the first byte whose high bit is clear; gives the
/// accumulated value and the number of bytes read, or `None` when `s` ends
/// first.
pub open spec fn var_groups(s: Seq<u8>, budget: nat) -> Option<(int, nat)>
    decreases budget,
{
    if budget == 0 || s.len() == 0 {
        None
    } else if s[0] < 128 || budget == 1 {
        Some(((s[0] % 128) as int, 1))
    } else {
        match var_groups(s.drop_first(), (budget - 1) as nat) {
            Some((v, n)) => Some(((s[0] % 128) + 128 * v, n + 1)),
            None => None,
        }
    }
}

/// What reading a VarInt as a `u32` from the front of `s` gives: the value
/// (bits beyond 32 dropped) and the number of bytes consumed. At most five
/// bytes are read.
pub open spec fn var_u32_read(s: Seq<u8>) -> Option<(u32, nat)> {
    match var_groups(s, 5) {
        Some((v, n)) => Some(((v % 0x1_0000_0000) as u32, n)),
        None => None,
    }
}

/// Big-endian value of the bytes of `s`.
pub open spec fn be_value(s: Seq<u8>) -> nat
    decreases s.len(),
{
    if s.len() == 0 {
        0
    } else {
        be_value(s.drop_last()) * 256 + (s.last() as nat)
    }
}

/// The `k` low bytes of `v`, most significant first.
pub open spec fn be_bytes(v: nat, k: nat) -> Seq<u8>
    decreases k,
{
    if k == 0 {
        seq![]
    } else {
        be_bytes(v / 256, (k - 1) as nat).push((v % 256) as u8)
    }
}

/// Two's complement reading of `v` modulo `m`.
pub open spec fn signed_of(v: nat, m: int) -> int {
    if v >= m / 2 { v - m } else { v as int }
}

/// Two's complement representation of `x` modulo `m`.
pub open spec fn unsigned_of(x: int, m: int) -> nat {
    if x < 0 { (x + m) as nat } else { x as nat }
}

/// Reading `k` big-endian bytes from the front of `s`.
pub open spec fn be_read(s: Seq<u8>, k: nat) -> Option<nat> {
    if s.len() >= k { Some(be_value(s.take(k as int))) } else { None }
}

// ---------------------------------------------------------------------
// Trusted calls

/// `VarIntWrite::write_var_u32` of minecraft_varint on a `Vec<u8>`: appends
/// the VarInt encoding of `x` (writing into a vector does not fail).
#[verifier::external_body]
pub(crate) fn put_var_u32(out: &mut Vec<u8>, x: u32)
    ensures
        final(out)@ == old(out)@ + var_u32_bytes(x as nat),
{
    let _ = out.write_var_u32(x);
}

/// `VarIntRead::read_var_u32` of minecraft_varint on a byte slice: reads up
/// to five bytes, stopping after one with the high bit clear; fails only
/// when the slice ends first. Gives the value and what remains.
#[verifier::external_body]
pub(crate) fn take_var_u32<'a>(bytes: &'a [u8]) -> (r: Option<(u32, &'a [u8])>)
    ensures
        match var_u32_read(bytes@) {
            Some((v, n)) => r matches Some((w, rest)) && w == v && rest@ == bytes@.skip(n as int),
            None => r is None,
        },
{
    let mut rest = bytes;
    match rest.read_var_u32() {
        Ok(v) => Some((v, rest)),
        Err(_) => None,
    }
}

/// `ReadBytesExt::read_u8` of byteorder on a byte slice.
#[verifier::external_body]
pub(crate) fn take_u8<'a>(bytes: &'a [u8]) -> (r: Option<(u8, &'a [u8])>)
    ensures
        if bytes@.len() >= 1 {
            r matches Some((w, rest)) && w == bytes@[0] && rest@ == bytes@.skip(1)
        } else {
            r is None
        },
{
    let mut rest = bytes;
    match rest.read_u8() {
        Ok(v) => Some((v, rest)),
        Err(_) => None,
    }
}

/// `ReadBytesExt::read_i8` of byteorder on a byte slice.
#[verifier::external_body]
pub(crate) fn take_i8<'a>(bytes: &'a [u8]) -> (r: Option<(i8, &'a [u8])>)
    ensures
        if bytes@.len() >= 1 {
            r matches Some((w, rest)) && w as int == signed_of(bytes@[0] as nat, 0x100)
                && rest@ == bytes@.skip(1)
        } else {
            r is None
        },
{
    let mut rest = bytes;
    match rest.read_i8() {
        Ok(v) => Some((v, rest)),
        Err(_) => None,
    }
}

/// `ReadBytesExt::read_u16::<BigEndian>` of byteorder on a byte slice.
#[verifier::external_body]
pub(crate) fn take_u16_be<'a>(bytes: &'a [u8]) -> (r: Option<(u16, &'a [u8])>)
    ensures
        match be_read(bytes@, 2) {
            Some(v) => r matches Some((w, rest)) && w as nat == v && rest@ == bytes@.skip(2),
            None => r is None,
        },
{
    let mut rest = bytes;
    match rest.read_u16::<BigEndian>() {
        Ok(v) => Some((v, rest)),
        Err(_) => None,
    }
}

/// `ReadBytesExt::read_i32::<BigEndian>` of byteorder on a byte slice.
#[verifier::external_body]
pub(crate) fn take_i32_be<'a>(bytes: &'a [u8]) -> (r: Option<(i32, &'a [u8])>)
    ensures
        match be_read(bytes@, 4) {
            Some(v) => r matches Some((w, rest)) && w as int == signed_of(v, 0x1_0000_0000)
                && rest@ == bytes@.skip(4),
            None => r is None,
        },
{
    let mut rest = bytes;
    match rest.read_i32::<BigEndian>() {
        Ok(v) => Some((v, rest)),
        Err(_) => None,
    }
}

/// `ReadBytesExt::read_i64::<BigEndian>` of byteorder on a byte slice.
#[verifier::external_body]
pub(crate) fn take_i64_be<'a>(bytes: &'a [u8]) -> (r: Option<(i64, &'a [u8])>)
    ensures
        match be_read(bytes@, 8) {
            Some(v) => r matches Some((w, rest)) && w as int == signed_of(v, 0x1_0000_0000_0000_0000int)
                && rest@ == bytes@.skip(8),
            None => r is None,
        },
{
    let mut rest = bytes;
    match rest.read_i64::<BigEndian>() {
        Ok(v) => Some((v, rest)),
        Err(_) => None,
    }
}

/// `ReadBytesExt::read_i128::<BigEndian>` of byteorder on a byte slice.
#[verifier::external_body]
pub(crate) fn take_i128_be<'a>(bytes: &'a [u8]) -> (r: Option<(i128, &'a [u8])>)
    ensures
        match be_read(bytes@, 16) {
            Some(v) => r matches Some((w, rest))
                && w as int == signed_of(v, 0x1_0000_0000_0000_0000_0000_0000_0000_0000int)
                && rest@ == bytes@.skip(16),
            None => r is None,
        },
{
    let mut rest = bytes;
    match rest.read_i128::<BigEndian>() {
        Ok(v) => Some((v, rest)),
        Err(_) => None,
    }
}

/// `WriteBytesExt::write_u8` of byteorder on a `Vec<u8>`: appends the byte.
#[verifier::external_body]
pub(crate) fn put_u8(out: &mut Vec<u8>, x: u8)
    ensures
        final(out)@ == old(out)@.push(x),
{
    let _ = out.write_u8(x);
}

/// `WriteBytesExt::write_u16::<BigEndian>` of byteorder on a `Vec<u8>`.
#[verifier::external_body]
pub(crate) fn put_u16_be(out: &mut Vec<u8>, x: u16)
    ensures
        final(out)@ == old(out)@ + be_bytes(x as nat, 2),
{
    let _ = out.write_u16::<BigEndian>(x);
}

/// `WriteBytesExt::write_i32::<BigEndian>` of byteorder on a `Vec<u8>`.
#[verifier::external_body]
pub(crate) fn put_i32_be(out: &mut Vec<u8>, x: i32)
    ensures
        final(out)@ == old(out)@ + be_bytes(unsigned_of(x as int, 0x1_0000_0000), 4),
{
    let _ = out.write_i32::<BigEndian>(x);
}

/// `WriteBytesExt::write_i64::<BigEndian>` of byteorder on a `Vec<u8>`.
#[verifier::external_body]
pub(crate) fn put_i64_be(out: &mut Vec<u8>, x: i64)
    ensures
        final(out)@ == old(out)@ + be_bytes(unsigned_of(x as int, 0x1_0000_0000_0000_0000int), 8),
{
    let _ = out.write_i64::<BigEndian>(x);
}

/// `std::str::from_utf8`, asked only whether it succeeds: whether the bytes
/// are well-formed UTF-8.
#[verifier::external_body]
pub(crate) fn is_utf8(bytes: &[u8]) -> (r: bool)
    ensures
        r == valid_utf8(bytes@),
{
    std::str::from_utf8(bytes).is_ok()
}

} // verus!
