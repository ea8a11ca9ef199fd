//! Reading the join game packet that a backend sends, and the respawn
//! packets that make the client reload its world after a transfer.

use vstd::prelude::*;
use crate::blob::{nbt_blob_len, read_compound, NbtCompound};
use crate::codec::{
    be_at, read_i32_be, read_i64_be, read_i8, try_read_string, read_u8, read_var_u32, string_at, var_at,
};
use crate::wire::signed_of;
use crate::packets::MC1_14_4;

verus! {

/// The position after `n` strings read one after the other from `q`.
pub open spec fn strings_after(s: Seq<u8>, q: int, n: nat) -> Option<int>
    decreases n,
{
    if n == 0 {
        Some(q)
    } else {
        match strings_after(s, q, (n - 1) as nat) {
            None => None,
            Some(q1) => match string_at(s, q1) {
                None => None,
                Some((_, q2)) => Some(q2),
            },
        }
    }
}

/// The position after an NBT compound read at `q`.
pub open spec fn blob_after(s: Seq<u8>, q: int) -> Option<int> {
    match nbt_blob_len(s.skip(q)) {
        Some(n) => Some(q + n),
        None => None,
    }
}

/// A 1.16 to 1.18 join game read at `p` (after its packet id): entity id,
/// hardcore flag, game mode, previous game mode, world names, dimension
/// codec, dimension, world name, hashed seed. Gives the game mode, the
/// previous game mode, the bytes of the dimension compound (the second
/// compound), and the hashed seed.
pub open spec fn modern_join_at(s: Seq<u8>, p: int) -> Option<(u8, u8, Seq<u8>, i64)> {
    if s.len() < p + 7 {
        None
    } else {
        match var_at(s, p + 7) {
            None => None,
            Some((count, q0)) => match strings_after(s, q0, count as nat) {
                None => None,
                Some(q1) => match blob_after(s, q1) {
                    None => None,
                    Some(q2) => match blob_after(s, q2) {
                        None => None,
                        Some(q3) => match string_at(s, q3) {
                            None => None,
                            Some((_, q4)) => match be_at(s, q4, 8) {
                                None => None,
                                Some(seed) => Some((
                                    s[p + 5],
                                    s[p + 6],
                                    s.subrange(q2, q3),
                                    signed_of(seed, 0x1_0000_0000_0000_0000int) as i64,
                                )),
                            },
                        },
                    },
                },
            },
        }
    }
}

/// A 1.14 or 1.15 join game read at `p` (after its packet id): entity id,
/// game mode, dimension, hashed seed (after 1.14 only), a byte, level
/// type. Gives the game mode, the dimension, the seed and the level type.
pub open spec fn legacy_join_at(s: Seq<u8>, p: int, pv: u32) -> Option<(u8, i32, Option<i64>, Seq<u8>)> {
    if s.len() < p + 9 {
        None
    } else {
        let dimension = signed_of(be_at(s, p + 5, 4).unwrap(), 0x1_0000_0000) as i32;
        let seed: Option<i64> = if pv > MC1_14_4 {
            match be_at(s, p + 9, 8) {
                Some(v) => Some(signed_of(v, 0x1_0000_0000_0000_0000int) as i64),
                None => None,
            }
        } else {
            None
        };
        let q = if pv > MC1_14_4 { p + 17 } else { p + 9 };
        if pv > MC1_14_4 && seed is None {
            None
        } else if s.len() < q + 1 {
            None
        } else {
            match string_at(s, q + 1) {
                None => None,
                Some((level_type, _)) => Some((s[p + 4], dimension, seed, level_type)),
            }
        }
    }
}

/// Reads a 1.16 to 1.18 join game at `p`; gives the game mode, the
/// previous game mode, the dimension compound and the hashed seed.
pub fn parse_modern_join(body: &[u8], p: usize) -> (r: Option<(u8, u8, NbtCompound, i64)>)
    requires
        p <= body@.len(),
    ensures
        match modern_join_at(body@, p as int) {
            Some((gamemode, previous, dimension, seed)) => r matches Some((g, v, d, h))
                && g == gamemode && v == previous && d.source() == dimension && h == seed,
            None => r is None,
        },
{
    let (_eid, p1) = match read_i32_be(body, p) {
        Some(x) => x,
        None => return None,
    };
    let (_hardcore, p2) = match read_i8(body, p1) {
        Some(x) => x,
        None => return None,
    };
    let (gamemode, p3) = match read_u8(body, p2) {
        Some(x) => x,
        None => return None,
    };
    let (previous, p4) = match read_u8(body, p3) {
        Some(x) => x,
        None => return None,
    };
    let (count, q0) = match read_var_u32(body, p4) {
        Some(x) => x,
        None => return None,
    };
    let mut q: usize = q0;
    let mut i: u32 = 0;
    while i < count
        invariant
            i <= count,
            q <= body@.len(),
            strings_after(body@, q0 as int, i as nat) == Some(q as int),
            body@.len() >= p + 7,
            var_at(body@, p + 7) == Some((count, q0 as int)),
        decreases count - i,
    {
        match try_read_string(body, q) {
            Some((_, next)) => {
                q = next;
            },
            None => {
                proof {
                    assert(string_at(body@, q as int) is None);
                    assert(strings_after(body@, q0 as int, (i + 1) as nat) is None);
                    lemma_strings_after_stops(body@, q0 as int, (i + 1) as nat, count as nat);
                    assert(body@.len() >= p + 7);
                    assert(var_at(body@, p + 7) == Some((count, q0 as int)));
                }
                return None;
            },
        }
        i = i + 1;
    }
    let q1 = q;
    let (_codec, q2) = match read_compound(body, q1) {
        Some(x) => x,
        None => return None,
    };
    let (dimension, q3) = match read_compound(body, q2) {
        Some(x) => x,
        None => return None,
    };
    let (_world, q4) = match try_read_string(body, q3) {
        Some(x) => x,
        None => return None,
    };
    let (seed, _) = match read_i64_be(body, q4) {
        Some(x) => x,
        None => return None,
    };
    Some((gamemode, previous, dimension, seed))
}

proof fn lemma_strings_after_stops(s: Seq<u8>, q: int, n: nat, m: nat)
    requires
        n <= m,
        strings_after(s, q, n) is None,
    ensures
        strings_after(s, q, m) is None,
    decreases m - n,
{
    if n < m {
        lemma_strings_after_stops(s, q, n + 1, m);
    }
}

/// Reads a 1.14 or 1.15 join game at `p`; gives the game mode, the
/// dimension, the hashed seed and the level type.
pub fn parse_legacy_join(body: &[u8], p: usize, pv: u32) -> (r: Option<(u8, i32, Option<i64>, Vec<u8>)>)
    requires
        p <= body@.len(),
    ensures
        match legacy_join_at(body@, p as int, pv) {
            Some((gamemode, dimension, seed, level_type)) => r matches Some((g, d, h, l))
                && g == gamemode && d == dimension && h == seed && l@ == level_type,
            None => r is None,
        },
        r matches Some((_, _, _, l)) ==> l@.len() <= u32::MAX,
{
    let (_eid, p1) = match read_i32_be(body, p) {
        Some(x) => x,
        None => return None,
    };
    let (gamemode, p2) = match read_u8(body, p1) {
        Some(x) => x,
        None => return None,
    };
    let (dimension, p3) = match read_i32_be(body, p2) {
        Some(x) => x,
        None => return None,
    };
    let mut q: usize = p3;
    let hashed_seed: Option<i64> = if pv > MC1_14_4 {
        match read_i64_be(body, p3) {
            Some((seed, next)) => {
                q = next;
                Some(seed)
            },
            None => return None,
        }
    } else {
        None
    };
    assert(q == (if pv > MC1_14_4 { p + 17 } else { p + 9 }));
    assert(dimension == signed_of(be_at(body@, p + 5, 4).unwrap(), 0x1_0000_0000) as i32);
    let (_, q1) = match read_u8(body, q) {
        Some(x) => x,
        None => return None,
    };
    let (level_type, _) = match try_read_string(body, q1) {
        Some(x) => x,
        None => return None,
    };
    Some((gamemode, dimension, hashed_seed, level_type))
}

} // verus!
