//! Bodies of the packets the proxy writes itself.

use vstd::prelude::*;
use crate::blob::{nbt_writable, nbt_written, put_blob, NbtCompound};
use crate::codec::{append_bytes, string_bytes, write_string, write_var_u32};
use crate::names::{
    bungeecord_main, bungeecord_main_bytes, minecraft_register, minecraft_register_bytes,
    mycelium_data, mycelium_data_bytes, mycelium_transfer, mycelium_transfer_bytes,
};
use crate::wire::{be_bytes, put_i32_be, put_i64_be, put_u16_be, put_u8, unsigned_of, var_u32_bytes};

verus! {

/// Big-endian bytes of an `i32`.
pub open spec fn i32_bytes(x: i32) -> Seq<u8> {
    be_bytes(unsigned_of(x as int, 0x1_0000_0000), 4)
}

/// Big-endian bytes of an `i64`.
pub open spec fn i64_bytes(x: i64) -> Seq<u8> {
    be_bytes(unsigned_of(x as int, 0x1_0000_0000_0000_0000int), 8)
}

/// Handshake: packet id 0, protocol version, server address, port, next
/// state.
pub open spec fn handshake_body(pv: u32, address: Seq<u8>, port: u16, next_state: u32) -> Seq<u8> {
    var_u32_bytes(0) + var_u32_bytes(pv as nat) + string_bytes(address) + be_bytes(port as nat, 2)
        + var_u32_bytes(next_state as nat)
}

/// Login start: packet id 0, then the user name.
pub open spec fn login_start_body(name: Seq<u8>) -> Seq<u8> {
    var_u32_bytes(0) + string_bytes(name)
}

/// Plugin message towards a backend (id 0x0a) registering the proxy's own
/// channel.
pub open spec fn client_register_body() -> Seq<u8> {
    var_u32_bytes(0x0a) + string_bytes(minecraft_register()) + string_bytes(mycelium_data())
}

/// Plugin message towards a backend (id 0x0a) registering the BungeeCord
/// channel, whose name is written raw and followed by two zero bytes.
pub open spec fn server_register_body() -> Seq<u8> {
    var_u32_bytes(0x0a) + string_bytes(minecraft_register()) + bungeecord_main() + seq![0u8, 0u8]
}

/// Respawn in the 1.14 and 1.15 protocols: id, dimension, hashed seed when
/// there is one, game mode, level type.
pub open spec fn legacy_respawn_body(
    rid: u32,
    dimension: i32,
    hashed_seed: Option<i64>,
    gamemode: u8,
    level_type: Seq<u8>,
) -> Seq<u8> {
    var_u32_bytes(rid as nat) + i32_bytes(dimension) + match hashed_seed {
        Some(seed) => i64_bytes(seed),
        None => Seq::<u8>::empty(),
    } + seq![gamemode] + string_bytes(level_type)
}

/// What follows the dimension compound in a 1.16 to 1.18 respawn: world
/// name, hashed seed, game mode, previous game mode, and three false flags
/// (debug world, flat world, keep metadata).
pub open spec fn modern_respawn_tail(hashed_seed: i64, gamemode: u8, previous_gamemode: u8) -> Seq<u8> {
    string_bytes(mycelium_transfer()) + i64_bytes(hashed_seed) + seq![gamemode, previous_gamemode, 0u8, 0u8, 0u8]
}

/// Whether `x` is one writing by the nbt crate of the compound read from
/// `source`: it opens with tag 0x0a and an empty name and closes with 0x00.
pub open spec fn is_compound_writing(x: Seq<u8>, source: Seq<u8>) -> bool {
    &&& nbt_written(source, x)
    &&& x.len() >= 4
    &&& x.take(3) == seq![0x0au8, 0x00u8, 0x00u8]
    &&& x.last() == 0
}

/// Whether `packet` is a 1.16 to 1.18 respawn body with these fields: the
/// id, a writing of the dimension compound read from `dimension`, then
/// [`modern_respawn_tail`].
pub open spec fn is_modern_respawn(
    packet: Seq<u8>,
    rid: u32,
    dimension: Seq<u8>,
    hashed_seed: i64,
    gamemode: u8,
    previous_gamemode: u8,
) -> bool {
    exists|x: Seq<u8>|
        is_compound_writing(x, dimension)
            && packet == var_u32_bytes(rid as nat) + x + modern_respawn_tail(hashed_seed, gamemode, previous_gamemode)
}

/// The dimension that a player is first sent to so that the client reloads
/// its world: the nether (-1) becomes the end (1), the overworld (0) the
/// nether, the end the overworld.
pub open spec fn fake_dimension_of(dimension: i32) -> i32 {
    if dimension == -1 {
        1i32
    } else if dimension == 0 {
        -1i32
    } else {
        0i32
    }
}

/// Writes a handshake body.
pub fn handshake_packet(pv: u32, address: &[u8], port: u16, next_state: u32) -> (r: Vec<u8>)
    requires
        address@.len() <= u32::MAX,
    ensures
        r@ == handshake_body(pv, address@, port, next_state),
{
    let mut v: Vec<u8> = Vec::new();
    write_var_u32(&mut v, 0x0);
    write_var_u32(&mut v, pv);
    write_string(&mut v, address);
    put_u16_be(&mut v, port);
    write_var_u32(&mut v, next_state);
    assert(v@ =~= handshake_body(pv, address@, port, next_state));
    v
}

/// Writes a login start body.
pub fn login_start_packet(name: &[u8]) -> (r: Vec<u8>)
    requires
        name@.len() <= u32::MAX,
    ensures
        r@ == login_start_body(name@),
{
    let mut v: Vec<u8> = Vec::new();
    write_var_u32(&mut v, 0x0);
    write_string(&mut v, name);
    assert(v@ =~= login_start_body(name@));
    v
}

/// Writes the plugin message that registers the proxy's channel.
pub fn client_register_packet() -> (r: Vec<u8>)
    ensures
        r@ == client_register_body(),
{
    let mut v: Vec<u8> = Vec::new();
    write_var_u32(&mut v, 0x0a);
    let register = minecraft_register_bytes();
    let data = mycelium_data_bytes();
    write_string(&mut v, register.as_slice());
    write_string(&mut v, data.as_slice());
    assert(v@ =~= client_register_body());
    v
}

/// Writes the plugin message that registers the BungeeCord channel.
pub fn server_register_packet() -> (r: Vec<u8>)
    ensures
        r@ == server_register_body(),
{
    let mut v: Vec<u8> = Vec::new();
    write_var_u32(&mut v, 0x0a);
    let register = minecraft_register_bytes();
    write_string(&mut v, register.as_slice());
    let mut channel = bungeecord_main_bytes();
    channel.push(0);
    channel.push(0);
    append_bytes(&mut v, channel.as_slice());
    assert(v@ =~= server_register_body());
    v
}

/// Writes a 1.14 or 1.15 respawn body.
pub fn legacy_respawn_packet(
    rid: u32,
    dimension: i32,
    hashed_seed: Option<i64>,
    gamemode: u8,
    level_type: &[u8],
) -> (r: Vec<u8>)
    requires
        level_type@.len() <= u32::MAX,
    ensures
        r@ == legacy_respawn_body(rid, dimension, hashed_seed, gamemode, level_type@),
{
    let mut v: Vec<u8> = Vec::new();
    write_var_u32(&mut v, rid);
    put_i32_be(&mut v, dimension);
    match hashed_seed {
        Some(seed) => put_i64_be(&mut v, seed),
        None => {},
    }
    put_u8(&mut v, gamemode);
    write_string(&mut v, level_type);
    assert(v@ =~= legacy_respawn_body(rid, dimension, hashed_seed, gamemode, level_type@));
    v
}

/// Writes a 1.16 to 1.18 respawn body: the id, the dimension compound, then
/// [`modern_respawn_tail`]. `None` exactly when the compound cannot be
/// written.
pub fn modern_respawn_packet(
    rid: u32,
    dimension: &NbtCompound,
    hashed_seed: i64,
    gamemode: u8,
    previous_gamemode: u8,
) -> (r: Option<Vec<u8>>)
    ensures
        r is Some <==> nbt_writable(dimension.source()),
        r matches Some(v) ==> is_modern_respawn(v@, rid, dimension.source(), hashed_seed, gamemode, previous_gamemode),
{
    let mut v: Vec<u8> = Vec::new();
    write_var_u32(&mut v, rid);
    let ghost head = v@;
    if !put_blob(&mut v, dimension) {
        return None;
    }
    let ghost x = v@.skip(head.len() as int);
    proof {
        let w = v@;
        let h = head.len() as int;
        assert(w.subrange(0, h + 3) == head + seq![0x0au8, 0x00u8, 0x00u8]);
        assert forall|i: int| 0 <= i < h implies w[i] == head[i] by {
            assert(w.subrange(0, h + 3)[i] == w[i]);
            assert((head + seq![0x0au8, 0x00u8, 0x00u8])[i] == head[i]);
        }
        assert(v@ =~= head + x);
        assert forall|i: int| 0 <= i < 3 implies x[i] == seq![0x0au8, 0x00u8, 0x00u8][i] by {
            assert(w.subrange(0, h + 3)[h + i] == w[h + i]);
            assert((head + seq![0x0au8, 0x00u8, 0x00u8])[h + i] == seq![0x0au8, 0x00u8, 0x00u8][i]);
        }
        assert(x.take(3) =~= seq![0x0au8, 0x00u8, 0x00u8]);
        assert(x.last() == w.last());
        assert(is_compound_writing(x, dimension.source()));
    }
    let transfer = mycelium_transfer_bytes();
    write_string(&mut v, transfer.as_slice());
    put_i64_be(&mut v, hashed_seed);
    put_u8(&mut v, gamemode);
    put_u8(&mut v, previous_gamemode);
    put_u8(&mut v, 0);
    put_u8(&mut v, 0);
    put_u8(&mut v, 0);
    assert(v@ =~= var_u32_bytes(rid as nat) + x + modern_respawn_tail(hashed_seed, gamemode, previous_gamemode));
    assert(is_modern_respawn(v@, rid, dimension.source(), hashed_seed, gamemode, previous_gamemode));
    Some(v)
}

/// The dimension to send first after a transfer.
pub fn fake_dimension(dimension: i32) -> (r: i32)
    requires
        -1 <= dimension <= 1,
    ensures
        r == fake_dimension_of(dimension),
{
    match dimension {
        -1 => 1,
        0 => -1,
        _ => 0,
    }
}

} // verus!
