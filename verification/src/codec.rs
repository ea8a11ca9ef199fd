//! Reading protocol values at a position of a packet body, and writing
//! them: VarInts, strings, big-endian integers and length-prefixed frames.

use vstd::prelude::*;
use vstd::slice::{slice_subrange, slice_to_vec};
use vstd::utf8::valid_utf8;
use crate::wire::{
    be_read, is_utf8, put_var_u32, signed_of, take_i128_be, take_i32_be, take_i64_be, take_i8,
    take_u16_be, take_u8, take_var_u32, var_groups, var_u32_bytes, var_u32_read,
};

verus! {

// ---------------------------------------------------------------------
// Specifications of reads at a position

/// A VarInt read at `pos`: its value and the position after it.
pub open spec fn var_at(s: Seq<u8>, pos: int) -> Option<(u32, int)> {
    match var_u32_read(s.skip(pos)) {
        Some((v, n)) => Some((v, pos + n)),
        None => None,
    }
}

/// A string read at `pos`: a VarInt byte length, then that many bytes of
/// well-formed UTF-8. Gives the bytes and the position after them.
pub open spec fn string_at(s: Seq<u8>, pos: int) -> Option<(Seq<u8>, int)> {
    match var_at(s, pos) {
        Some((len, p)) => if p + len <= s.len() && valid_utf8(s.subrange(p, p + len)) {
            Some((s.subrange(p, p + len), p + len))
        } else {
            None
        },
        None => None,
    }
}

/// `k` big-endian bytes read at `pos`.
pub open spec fn be_at(s: Seq<u8>, pos: int, k: nat) -> Option<nat> {
    be_read(s.skip(pos), k)
}

/// The encoding of a string: its byte length as a VarInt, then its bytes.
pub open spec fn string_bytes(s: Seq<u8>) -> Seq<u8> {
    var_u32_bytes(s.len()) + s
}

/// A frame on the wire: the body's length (modulo 2^32) as a VarInt, then
/// the body.
pub open spec fn frame_bytes(body: Seq<u8>) -> Seq<u8> {
    var_u32_bytes(body.len() % 0x1_0000_0000) + body
}

// ---------------------------------------------------------------------
// Facts about the VarInt encoding

pub open spec fn pow128(b: nat) -> nat
    decreases b,
{
    if b == 0 { 1 } else { 128 * pow128((b - 1) as nat) }
}

/// A VarInt read consumes between one byte and its budget, and no more
/// bytes than there are.
pub proof fn lemma_var_groups_len(s: Seq<u8>, budget: nat)
    ensures
        var_groups(s, budget) matches Some((v, n)) ==> 1 <= n <= budget && n <= s.len(),
    decreases budget,
{
    if budget > 1 && s.len() > 0 && s[0] >= 128 {
        lemma_var_groups_len(s.drop_first(), (budget - 1) as nat);
    }
}

proof fn lemma_var_groups_encode(x: nat, rest: Seq<u8>, budget: nat)
    requires
        budget >= 1,
        x < pow128(budget),
    ensures
        var_groups(var_u32_bytes(x) + rest, budget) == Some((x as int, var_u32_bytes(x).len())),
    decreases x,
{
    let s = var_u32_bytes(x) + rest;
    if x < 128 {
        assert(s[0] == x as u8);
    } else {
        if budget == 1 {
            assert(pow128(1) == 128) by {
                reveal_with_fuel(pow128, 2);
            }
        }
        assert(budget >= 2);
        let b1 = (budget - 1) as nat;
        assert(pow128(budget) == 128 * pow128(b1));
        assert(x / 128 < pow128(b1)) by (nonlinear_arith)
            requires
                x < 128 * pow128(b1),
        ;
        assert(s.drop_first() =~= var_u32_bytes(x / 128) + rest);
        assert(s[0] == (x % 128 + 128) as u8);
        lemma_var_groups_encode(x / 128, rest, b1);
    }
}

/// Reading a VarInt from the encoding of `x`, followed by anything, gives
/// back `x` and stops at the end of the encoding.
pub proof fn lemma_var_u32_roundtrip(x: u32, rest: Seq<u8>)
    ensures
        var_u32_read(var_u32_bytes(x as nat) + rest) == Some((x, var_u32_bytes(x as nat).len())),
{
    assert(pow128(5) == 0x8_0000_0000) by {
        reveal_with_fuel(pow128, 6);
    }
    lemma_var_groups_encode(x as nat, rest, 5);
}

// ---------------------------------------------------------------------
// Reads

/// Reads a VarInt at `pos`.
pub fn read_var_u32(buf: &[u8], pos: usize) -> (r: Option<(u32, usize)>)
    requires
        pos <= buf@.len(),
    ensures
        match var_at(buf@, pos as int) {
            Some((v, p)) => r == Some((v, p as usize)) && pos < p <= buf@.len(),
            None => r is None,
        },
        r matches Some((v, q)) ==> var_at(buf@, pos as int) == Some((v, q as int)),
{
    let tail = slice_subrange(buf, pos, buf.len());
    assert(tail@ =~= buf@.skip(pos as int));
    match take_var_u32(tail) {
        Some((v, rest)) => {
            proof {
                lemma_var_groups_len(tail@, 5);
            }
            Some((v, buf.len() - rest.len()))
        },
        None => None,
    }
}

/// Reads a string at `pos`: `None` when the length, the bytes or their
/// UTF-8 form are missing or broken. The relays read strings with this and
/// stop on `None`.
pub fn try_read_string(buf: &[u8], pos: usize) -> (r: Option<(Vec<u8>, usize)>)
    requires
        pos <= buf@.len(),
    ensures
        match string_at(buf@, pos as int) {
            Some((s, p)) => r matches Some((v, q)) && v@ == s && q == p,
            None => r is None,
        },
        r matches Some((v, q)) ==> pos < q <= buf@.len() && v@.len() <= u32::MAX,
{
    match read_var_u32(buf, pos) {
        Some((len, p)) => {
            if len as usize > buf.len() - p {
                return None;
            }
            let end = p + len as usize;
            let bytes = slice_subrange(buf, p, end);
            assert(var_at(buf@, pos as int) == Some((len, p as int)));
            assert(bytes@ == buf@.subrange(p as int, p + len));
            if is_utf8(bytes) {
                Some((slice_to_vec(bytes), end))
            } else {
                None
            }
        },
        None => None,
    }
}

/// Whether a string can stand at `pos` once its length is read: the bytes
/// it announces are there and are UTF-8.
pub open spec fn string_bytes_fit(s: Seq<u8>, pos: int) -> bool {
    match var_at(s, pos) {
        Some((len, p)) => p + len <= s.len() && valid_utf8(s.subrange(p, p + len)),
        None => true,
    }
}

/// Reads a string at `pos`: `None` only when its length cannot be read.
/// The caller sees to it that the announced bytes are there and are UTF-8.
pub fn read_string(buf: &[u8], pos: usize) -> (r: Option<(Vec<u8>, usize)>)
    requires
        pos <= buf@.len(),
        string_bytes_fit(buf@, pos as int),
    ensures
        match var_at(buf@, pos as int) {
            Some((len, p)) => r matches Some((v, q)) && v@ == buf@.subrange(p, p + len) && q == p + len,
            None => r is None,
        },
{
    try_read_string(buf, pos)
}

/// Reads one byte at `pos`.
pub fn read_u8(buf: &[u8], pos: usize) -> (r: Option<(u8, usize)>)
    requires
        pos <= buf@.len(),
    ensures
        if pos < buf@.len() {
            r matches Some((v, p)) && v == buf@[pos as int] && p == pos + 1
        } else {
            r is None
        },
{
    let tail = slice_subrange(buf, pos, buf.len());
    match take_u8(tail) {
        Some((v, _)) => Some((v, pos + 1)),
        None => None,
    }
}

/// Reads one signed byte at `pos`.
pub fn read_i8(buf: &[u8], pos: usize) -> (r: Option<(i8, usize)>)
    requires
        pos <= buf@.len(),
    ensures
        if pos < buf@.len() {
            r matches Some((v, p)) && v as int == signed_of(buf@[pos as int] as nat, 0x100)
                && p == pos + 1
        } else {
            r is None
        },
{
    let tail = slice_subrange(buf, pos, buf.len());
    match take_i8(tail) {
        Some((v, _)) => Some((v, pos + 1)),
        None => None,
    }
}

/// Reads a big-endian `u16` at `pos`.
pub fn read_u16_be(buf: &[u8], pos: usize) -> (r: Option<(u16, usize)>)
    requires
        pos <= buf@.len(),
    ensures
        match be_at(buf@, pos as int, 2) {
            Some(v) => r matches Some((w, p)) && w as nat == v && p == pos + 2,
            None => r is None,
        },
{
    let tail = slice_subrange(buf, pos, buf.len());
    match take_u16_be(tail) {
        Some((v, _)) => Some((v, pos + 2)),
        None => None,
    }
}

/// Reads a big-endian `i32` at `pos`.
pub fn read_i32_be(buf: &[u8], pos: usize) -> (r: Option<(i32, usize)>)
    requires
        pos <= buf@.len(),
    ensures
        match be_at(buf@, pos as int, 4) {
            Some(v) => r matches Some((w, p)) && w as int == signed_of(v, 0x1_0000_0000) && p == pos + 4,
            None => r is None,
        },
{
    let tail = slice_subrange(buf, pos, buf.len());
    match take_i32_be(tail) {
        Some((v, _)) => Some((v, pos + 4)),
        None => None,
    }
}

/// Reads a big-endian `i64` at `pos`.
pub fn read_i64_be(buf: &[u8], pos: usize) -> (r: Option<(i64, usize)>)
    requires
        pos <= buf@.len(),
    ensures
        match be_at(buf@, pos as int, 8) {
            Some(v) => r matches Some((w, p)) && w as int == signed_of(v, 0x1_0000_0000_0000_0000int)
                && p == pos + 8,
            None => r is None,
        },
{
    let tail = slice_subrange(buf, pos, buf.len());
    match take_i64_be(tail) {
        Some((v, _)) => Some((v, pos + 8)),
        None => None,
    }
}

/// Reads a big-endian `i128` at `pos`.
pub fn read_i128_be(buf: &[u8], pos: usize) -> (r: Option<(i128, usize)>)
    requires
        pos <= buf@.len(),
    ensures
        match be_at(buf@, pos as int, 16) {
            Some(v) => r matches Some((w, p))
                && w as int == signed_of(v, 0x1_0000_0000_0000_0000_0000_0000_0000_0000int)
                && p == pos + 16,
            None => r is None,
        },
{
    let tail = slice_subrange(buf, pos, buf.len());
    match take_i128_be(tail) {
        Some((v, _)) => Some((v, pos + 16)),
        None => None,
    }
}

// ---------------------------------------------------------------------
// Writes

/// Appends `s` to `out`.
pub fn append_bytes(out: &mut Vec<u8>, s: &[u8])
    ensures
        final(out)@ == old(out)@ + s@,
{
    let ghost start = out@;
    let mut i: usize = 0;
    while i < s.len()
        invariant
            i <= s@.len(),
            out@ == start + s@.take(i as int),
        decreases s@.len() - i,
    {
        out.push(s[i]);
        i = i + 1;
        assert(s@.take(i as int) =~= s@.take((i - 1) as int).push(s@[i - 1]));
    }
    assert(s@.take(s@.len() as int) =~= s@);
}

/// Appends a VarInt.
pub fn write_var_u32(out: &mut Vec<u8>, x: u32)
    ensures
        final(out)@ == old(out)@ + var_u32_bytes(x as nat),
{
    put_var_u32(out, x);
}

/// Appends a string: its byte length as a VarInt, then its bytes.
pub fn write_string(out: &mut Vec<u8>, s: &[u8])
    requires
        s@.len() <= u32::MAX,
    ensures
        final(out)@ == old(out)@ + string_bytes(s@),
{
    put_var_u32(out, s.len() as u32);
    append_bytes(out, s);
    assert(final(out)@ =~= old(out)@ + string_bytes(s@));
}

/// The frame that carries `body`: its length as a VarInt (truncated to 32
/// bits), then the body.
pub fn frame(body: &[u8]) -> (r: Vec<u8>)
    ensures
        r@ == frame_bytes(body@),
{
    let mut out: Vec<u8> = Vec::new();
    let n: usize = body.len();
    let len: u32 = #[verifier::truncate] (n as u32);
    assert(len as nat == n as nat % 0x1_0000_0000) by (bit_vector)
        requires len == (n as u32);
    put_var_u32(&mut out, len);
    append_bytes(&mut out, body);
    assert(out@ =~= frame_bytes(body@));
    out
}

} // verus!
