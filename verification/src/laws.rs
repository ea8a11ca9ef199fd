//! Properties of the codec, the packet builders and the relays that hold
//! for all inputs.

use vstd::prelude::*;
use vstd::utf8::valid_utf8;
use crate::client::{client_verdict, handshake_at, ClientVerdict};
use crate::codec::{
    be_at, frame_bytes, lemma_var_u32_roundtrip, string_at, string_bytes,
    var_at,
};
use crate::command::{ascii_words, is_server_command};
use crate::messages::{
    fake_dimension_of, handshake_body, i32_bytes, i64_bytes, is_compound_writing, is_modern_respawn,
    legacy_respawn_body, modern_respawn_tail, server_register_body,
};
use crate::blob::{nbt_blob_len, nbt_writable, nbt_written};
use crate::join::{legacy_join_at, modern_join_at, strings_after};
use crate::names::mycelium_transfer;
use crate::packets::{
    chat_c2s_id, has_ids, join_game_id, respawn_id, MC1_14_4, MC1_15_2, MC1_16_5, MC1_17_1, MC1_18_1,
};
use crate::server::{server_verdict, ServerVerdict, ToClient};
use crate::servers::server_address_of;
use crate::login::{login_verdict, LoginVerdict};
use crate::wire::{be_bytes, be_value, signed_of, unsigned_of, var_u32_bytes};

verus! {

/// A string written by the codec and followed by anything is read back
/// whole, and the read stops at its end.
pub proof fn law_string_roundtrip(s: Seq<u8>, rest: Seq<u8>)
    requires
        s.len() <= u32::MAX,
        valid_utf8(s),
    ensures
        string_at(string_bytes(s) + rest, 0) == Some((s, string_bytes(s).len() as int)),
{
    let head = var_u32_bytes(s.len());
    let t = string_bytes(s) + rest;
    lemma_var_u32_roundtrip(s.len() as u32, s + rest);
    assert(t.skip(0) =~= head + (s + rest));
    assert(t.subrange(head.len() as int, (head.len() + s.len()) as int) =~= s);
}

/// The frame of a body announces the body's length and is followed by
/// exactly the body.
pub proof fn law_frame_roundtrip(body: Seq<u8>, rest: Seq<u8>)
    requires
        body.len() <= u32::MAX,
    ensures
        ({
            let n = var_u32_bytes(body.len()).len() as int;
            &&& var_at(frame_bytes(body) + rest, 0) == Some((body.len() as u32, n))
            &&& (frame_bytes(body) + rest).subrange(n, n + body.len()) == body
        }),
{
    let head = var_u32_bytes(body.len());
    let t = frame_bytes(body) + rest;
    assert(body.len() % 0x1_0000_0000 == body.len());
    lemma_var_u32_roundtrip(body.len() as u32, body + rest);
    assert(t.skip(0) =~= head + (body + rest));
    assert(t.subrange(head.len() as int, (head.len() + body.len()) as int) =~= body);
}

proof fn lemma_be_u16(v: nat)
    requires
        v < 0x10000,
    ensures
        be_bytes(v, 2).len() == 2,
        be_value(be_bytes(v, 2)) == v,
{
    let b = be_bytes(v, 2);
    let hi = ((v / 256) % 256) as u8;
    let lo = (v % 256) as u8;
    assert(be_bytes(v / 256 / 256, 0) =~= Seq::<u8>::empty());
    assert(be_bytes(v / 256, 1) =~= seq![hi]);
    assert(b =~= seq![hi, lo]);
    assert(b.drop_last() =~= seq![hi]);
    assert(b.drop_last().drop_last() =~= Seq::<u8>::empty());
    let one = seq![hi];
    assert(one.drop_last() =~= Seq::<u8>::empty());
    assert(be_value(Seq::<u8>::empty()) == 0);
    assert(be_value(one) == be_value(one.drop_last()) * 256 + one.last() as nat);
    assert(be_value(one) == hi as nat);
    assert(v / 256 < 256);
    assert(hi as nat == v / 256);
    assert(lo as nat == v % 256);
    assert(be_value(b) == hi as nat * 256 + lo as nat);
}

proof fn lemma_var_at_after(pre: Seq<u8>, x: u32, tail: Seq<u8>)
    ensures
        var_at(pre + var_u32_bytes(x as nat) + tail, pre.len() as int)
            == Some((x, (pre.len() + var_u32_bytes(x as nat).len()) as int)),
{
    let s = pre + var_u32_bytes(x as nat) + tail;
    lemma_var_u32_roundtrip(x, tail);
    assert(s.skip(pre.len() as int) =~= var_u32_bytes(x as nat) + tail);
}

proof fn lemma_string_at_after(pre: Seq<u8>, t: Seq<u8>, tail: Seq<u8>)
    requires
        t.len() <= u32::MAX,
        valid_utf8(t),
    ensures
        string_at(pre + string_bytes(t) + tail, pre.len() as int)
            == Some((t, (pre.len() + string_bytes(t).len()) as int)),
{
    let s = pre + string_bytes(t) + tail;
    let head = var_u32_bytes(t.len());
    assert(s =~= pre + head + (t + tail));
    lemma_var_at_after(pre, t.len() as u32, t + tail);
    let p = pre.len() + head.len();
    assert(s.subrange(p as int, (p + t.len()) as int) =~= t);
}

proof fn lemma_be_u16_after(pre: Seq<u8>, v: u16, tail: Seq<u8>)
    ensures
        be_at(pre + be_bytes(v as nat, 2) + tail, pre.len() as int, 2) == Some(v as nat),
{
    let s = pre + be_bytes(v as nat, 2) + tail;
    lemma_be_u16(v as nat);
    assert(s.skip(pre.len() as int).take(2) =~= be_bytes(v as nat, 2));
}

/// The handshake the proxy writes to a backend is read back, field for
/// field, by the relay that reads handshakes.
pub proof fn law_handshake_roundtrip(pv: u32, address: Seq<u8>, port: u16, next_state: u32)
    requires
        address.len() <= u32::MAX,
        valid_utf8(address),
    ensures
        var_at(handshake_body(pv, address, port, next_state), 0) == Some((0u32, 1int)),
        handshake_at(handshake_body(pv, address, port, next_state), 1) == Some((pv, address, port, next_state)),
{
    let body = handshake_body(pv, address, port, next_state);
    let a = var_u32_bytes(0);
    let b = var_u32_bytes(pv as nat);
    let c = string_bytes(address);
    let d = be_bytes(port as nat, 2);
    let e = var_u32_bytes(next_state as nat);
    assert(a =~= seq![0u8]);
    lemma_var_at_after(Seq::<u8>::empty(), 0, b + c + d + e);
    assert(Seq::<u8>::empty() + a + (b + c + d + e) =~= body);
    lemma_var_at_after(a, pv, c + d + e);
    assert(a + b + (c + d + e) =~= body);
    lemma_string_at_after(a + b, address, d + e);
    assert(a + b + c + (d + e) =~= body);
    lemma_be_u16_after(a + b + c, port, e);
    assert(a + b + c + d + e =~= body);
    lemma_be_u16(port as nat);
    lemma_var_at_after(a + b + c + d, next_state, Seq::<u8>::empty());
    assert(a + b + c + d + e + Seq::<u8>::empty() =~= body);
}

/// The dimension a player is sent to first is another of the three, the
/// one before it in the cycle nether, overworld, end; no two dimensions are
/// sent to the same one.
pub proof fn law_fake_dimension_moves(d: i32, e: i32)
    requires
        -1 <= d <= 1,
        -1 <= e <= 1,
    ensures
        -1 <= fake_dimension_of(d) <= 1,
        fake_dimension_of(d) != d,
        (d - fake_dimension_of(d)) % 3 == 1,
        d != e ==> fake_dimension_of(d) != fake_dimension_of(e),
{
}

/// A backend hears the registration of the BungeeCord channel at most once
/// until the player is moved again: when it was sent, nothing is written to
/// the backend for any frame.
pub proof fn law_register_once(pv: u32, recently: bool, body: Seq<u8>)
    ensures
        server_verdict(pv, recently, true, body) matches ServerVerdict::Done { to_server, .. }
            ==> to_server.len() == 0,
{
}

/// On a backend that has not heard it yet, the first frame handled once the
/// version is known brings the registration of the BungeeCord channel.
pub proof fn law_register_on_new_backend(pv: u32, recently: bool, body: Seq<u8>)
    requires
        pv != 0,
    ensures
        server_verdict(pv, recently, false, body) matches ServerVerdict::Done { to_server, .. }
            ==> to_server == frame_bytes(server_register_body()),
{
}

/// Every frame a backend sends that the relay handles without stopping
/// reaches the player first, unchanged.
pub proof fn law_server_frames_pass(pv: u32, recently: bool, has_sent: bool, body: Seq<u8>)
    ensures
        server_verdict(pv, recently, has_sent, body) matches ServerVerdict::Done { to_client, stop: None, .. } ==> match to_client {
            ToClient::Exact(c) => c.len() >= frame_bytes(body).len()
                && c.take(frame_bytes(body).len() as int) == frame_bytes(body),
            ToClient::WithModernRespawn { forwarded, .. } => forwarded == frame_bytes(body),
        },
{
    let v = server_verdict(pv, recently, has_sent, body);
    if let ServerVerdict::Done { to_client, stop: None, .. } = v {
        if let ToClient::Exact(c) = to_client {
            let f = frame_bytes(body);
            if c != f {
                let rest = c.skip(f.len() as int);
                assert(c =~= f + rest);
            } else {
                assert(c.take(f.len() as int) =~= f);
            }
        }
    }
}

/// Every frame from the player that is passed on reaches the backend last,
/// unchanged.
pub proof fn law_client_frames_pass(state: u32, pv: u32, current: Seq<u8>, body: Seq<u8>)
    ensures
        client_verdict(state, pv, current, body) matches ClientVerdict::Forward { to_server, .. } ==> {
            let f = frame_bytes(body);
            to_server.len() >= f.len() && to_server.skip(to_server.len() - f.len()) == f
        },
{
    if let ClientVerdict::Forward { to_server, .. } = client_verdict(state, pv, current, body) {
        let f = frame_bytes(body);
        assert(to_server.skip(to_server.len() - f.len()) =~= f);
    }
}

/// Only a handshake read in state 0 changes the relay's state and version.
pub proof fn law_state_set_by_handshake_only(state: u32, pv: u32, current: Seq<u8>, body: Seq<u8>)
    requires
        state != 0,
    ensures
        client_verdict(state, pv, current, body) matches ClientVerdict::Forward { state: s, pv: v, handshook, .. }
            ==> s == state && v == pv && handshook is None,
{
}

/// A chat message `/server <name>` that names a known backend is never
/// passed on: the player is switched, or told it is there already.
pub proof fn law_known_server_command_not_forwarded(
    state: u32,
    pv: u32,
    current: Seq<u8>,
    body: Seq<u8>,
    p: int,
    msg: Seq<u8>,
    q: int,
)
    requires
        has_ids(pv),
        var_at(body, 0) == Some((chat_c2s_id(pv), p)),
        string_at(body, p) == Some((msg, q)),
        is_server_command(msg),
        ascii_words(msg).len() >= 2,
        server_address_of(ascii_words(msg)[1]) is Some,
    ensures
        client_verdict(state, pv, current, body) is Switch || client_verdict(state, pv, current, body) is Already,
{
}

/// `256` to the power `k`.
spec fn pow256(k: nat) -> nat
    decreases k,
{
    if k == 0 { 1 } else { 256 * pow256((k - 1) as nat) }
}

proof fn lemma_be_bytes_len(v: nat, k: nat)
    ensures
        be_bytes(v, k).len() == k,
    decreases k,
{
    if k > 0 {
        lemma_be_bytes_len(v / 256, (k - 1) as nat);
    }
}

/// The `k` big-endian bytes of a value below `256^k` give the value back.
proof fn lemma_be_roundtrip(v: nat, k: nat)
    requires
        v < pow256(k),
    ensures
        be_bytes(v, k).len() == k,
        be_value(be_bytes(v, k)) == v,
    decreases k,
{
    lemma_be_bytes_len(v, k);
    if k > 0 {
        let m = pow256((k - 1) as nat);
        assert(v / 256 < m) by (nonlinear_arith)
            requires
                v < 256 * m,
        ;
        lemma_be_roundtrip(v / 256, (k - 1) as nat);
        let b = be_bytes(v, k);
        assert(b.drop_last() =~= be_bytes(v / 256, (k - 1) as nat));
        assert(b.last() as nat == v % 256);
    }
}

proof fn lemma_be_after(pre: Seq<u8>, v: nat, k: nat, tail: Seq<u8>)
    requires
        v < pow256(k),
    ensures
        be_at(pre + be_bytes(v, k) + tail, pre.len() as int, k) == Some(v),
{
    lemma_be_roundtrip(v, k);
    let s = pre + be_bytes(v, k) + tail;
    assert(s.skip(pre.len() as int).take(k as int) =~= be_bytes(v, k));
}

proof fn lemma_pow256_values()
    ensures
        pow256(4) == 0x1_0000_0000nat,
        pow256(8) == 0x1_0000_0000_0000_0000nat,
        pow256(16) == 0x1_0000_0000_0000_0000_0000_0000_0000_0000nat,
{
    reveal_with_fuel(pow256, 17);
}

/// Two's complement modulo `m` is undone by its signed reading.
proof fn lemma_signed_unsigned(x: int, m: int)
    requires
        m > 0,
        m % 2 == 0,
        -(m / 2) <= x < m / 2,
    ensures
        unsigned_of(x, m) < m,
        signed_of(unsigned_of(x, m), m) == x,
{
}

/// A disconnect from a backend logging the player in is read back as the
/// reason it carries, whatever follows it and whatever the version.
pub proof fn law_login_disconnect(pv: u32, reason: Seq<u8>, rest: Seq<u8>)
    requires
        reason.len() <= u32::MAX,
        valid_utf8(reason),
    ensures
        login_verdict(seq![0u8] + string_bytes(reason) + rest, pv) == LoginVerdict::Disconnect(reason),
{
    let id = seq![0u8];
    let body = id + string_bytes(reason) + rest;
    assert(id =~= var_u32_bytes(0));
    lemma_var_at_after(Seq::<u8>::empty(), 0, string_bytes(reason) + rest);
    assert(Seq::<u8>::empty() + id + (string_bytes(reason) + rest) =~= body);
    lemma_string_at_after(id, reason, rest);
}

/// A login success from a 1.16 or later backend carries the player's id as
/// a 128-bit big-endian integer: a reply written so is read back as that id
/// and the name that follows it.
pub proof fn law_login_binary_uuid(pv: u32, uuid: i128, name: Seq<u8>)
    requires
        pv > MC1_15_2,
        name.len() <= u32::MAX,
        valid_utf8(name),
    ensures
        login_verdict(
            seq![2u8] + be_bytes(unsigned_of(uuid as int, 0x1_0000_0000_0000_0000_0000_0000_0000_0000int), 16)
                + string_bytes(name),
            pv,
        ) == LoginVerdict::SuccessBinary(uuid as int, name),
{
    let m: int = 0x1_0000_0000_0000_0000_0000_0000_0000_0000int;
    let u = unsigned_of(uuid as int, m);
    lemma_signed_unsigned(uuid as int, m);
    lemma_pow256_values();
    let id = seq![2u8];
    let ub = be_bytes(u, 16);
    let body = id + ub + string_bytes(name);
    assert(id =~= var_u32_bytes(2));
    lemma_var_at_after(Seq::<u8>::empty(), 2, ub + string_bytes(name));
    assert(Seq::<u8>::empty() + id + (ub + string_bytes(name)) =~= body);
    lemma_be_after(id, u, 16, string_bytes(name));
    lemma_be_roundtrip(u, 16);
    lemma_string_at_after(id + ub, name, Seq::<u8>::empty());
    assert(id + ub + string_bytes(name) + Seq::<u8>::empty() =~= body);
}

/// A login success from a backend older than 1.16 carries the player's id
/// as text: a reply written so is read back as that text and the name.
pub proof fn law_login_text_uuid(pv: u32, uuid: Seq<u8>, name: Seq<u8>)
    requires
        pv <= MC1_15_2,
        uuid.len() <= u32::MAX,
        valid_utf8(uuid),
        name.len() <= u32::MAX,
        valid_utf8(name),
    ensures
        login_verdict(seq![2u8] + string_bytes(uuid) + string_bytes(name), pv)
            == LoginVerdict::SuccessText(uuid, name),
{
    let id = seq![2u8];
    let body = id + string_bytes(uuid) + string_bytes(name);
    assert(id =~= var_u32_bytes(2));
    lemma_var_at_after(Seq::<u8>::empty(), 2, string_bytes(uuid) + string_bytes(name));
    assert(Seq::<u8>::empty() + id + (string_bytes(uuid) + string_bytes(name)) =~= body);
    lemma_string_at_after(id, uuid, string_bytes(name));
    lemma_string_at_after(id + string_bytes(uuid), name, Seq::<u8>::empty());
    assert(id + string_bytes(uuid) + string_bytes(name) + Seq::<u8>::empty() =~= body);
}

/// A 1.14 or 1.15 join game is read back as written: the game mode, the
/// dimension as a big-endian `i32` (the nether too), the hashed seed where
/// the version has one, and the level type.
pub proof fn law_legacy_join_roundtrip(
    pv: u32,
    pre: Seq<u8>,
    entity: i32,
    gamemode: u8,
    dimension: i32,
    hashed_seed: i64,
    flag: u8,
    level_type: Seq<u8>,
    rest: Seq<u8>,
)
    requires
        level_type.len() <= u32::MAX,
        valid_utf8(level_type),
    ensures
        legacy_join_at(
            pre + i32_bytes(entity) + seq![gamemode] + i32_bytes(dimension)
                + (if pv > MC1_14_4 { i64_bytes(hashed_seed) } else { Seq::<u8>::empty() })
                + seq![flag] + string_bytes(level_type) + rest,
            pre.len() as int,
            pv,
        ) == Some((
            gamemode,
            dimension,
            if pv > MC1_14_4 { Some(hashed_seed) } else { None::<i64> },
            level_type,
        )),
{
    let m4: int = 0x1_0000_0000;
    let m8: int = 0x1_0000_0000_0000_0000int;
    lemma_pow256_values();
    lemma_signed_unsigned(entity as int, m4);
    lemma_signed_unsigned(dimension as int, m4);
    lemma_signed_unsigned(hashed_seed as int, m8);
    let e = i32_bytes(entity);
    let d = i32_bytes(dimension);
    let h = if pv > MC1_14_4 { i64_bytes(hashed_seed) } else { Seq::<u8>::empty() };
    let g = seq![gamemode];
    let f = seq![flag];
    let l = string_bytes(level_type);
    let p = pre.len() as int;
    let q = if pv > MC1_14_4 { p + 17 } else { p + 9 };
    lemma_be_bytes_len(unsigned_of(entity as int, m4), 4);
    lemma_be_bytes_len(unsigned_of(dimension as int, m4), 4);
    lemma_be_bytes_len(unsigned_of(hashed_seed as int, m8), 8);
    let a1 = pre + e + g;
    let a2 = a1 + d;
    let a3 = a2 + h;
    let a4 = a3 + f;
    let body = a4 + l + rest;
    assert(a1.len() == p + 5);
    assert(a2.len() == p + 9);
    assert(a3.len() == q);
    assert(body == pre + e + g + d + h + f + l + rest);
    assert(body[p + 4] == gamemode) by {
        assert(body =~= pre + e + (g + d + h + f + l + rest));
    }
    lemma_be_after(a1, unsigned_of(dimension as int, m4), 4, h + f + l + rest);
    assert(a1 + d + (h + f + l + rest) =~= body);
    if pv > MC1_14_4 {
        lemma_be_after(a2, unsigned_of(hashed_seed as int, m8), 8, f + l + rest);
        assert(a2 + h + (f + l + rest) =~= body);
    }
    assert(body[q] == flag) by {
        assert(body =~= a3 + (f + l + rest));
    }
    lemma_string_at_after(a4, level_type, rest);
}

/// The 1.14/1.15 respawn the proxy writes: its id as a VarInt, the
/// dimension as a big-endian `i32`, the 8 bytes of the hashed seed only
/// where there is one, the game mode, and the level type as a string,
/// which ends the body.
pub proof fn law_legacy_respawn_layout(
    rid: u32,
    dimension: i32,
    hashed_seed: Option<i64>,
    gamemode: u8,
    level_type: Seq<u8>,
)
    ensures
        ({
            let b = legacy_respawn_body(rid, dimension, hashed_seed, gamemode, level_type);
            let n = var_u32_bytes(rid as nat).len() as int;
            let k: int = if hashed_seed is Some { 8 } else { 0 };
            &&& var_at(b, 0) == Some((rid, n))
            &&& b.len() == n + 5 + k + string_bytes(level_type).len()
            &&& be_at(b, n, 4) is Some
            &&& signed_of(be_at(b, n, 4).unwrap(), 0x1_0000_0000) == dimension as int
            &&& (hashed_seed is Some ==> be_at(b, n + 4, 8) is Some
                && signed_of(be_at(b, n + 4, 8).unwrap(), 0x1_0000_0000_0000_0000int) == hashed_seed.unwrap() as int)
            &&& b[n + 4 + k] == gamemode
            &&& b.skip(n + 5 + k) == string_bytes(level_type)
        }),
{
    let m4: int = 0x1_0000_0000;
    let m8: int = 0x1_0000_0000_0000_0000int;
    lemma_pow256_values();
    lemma_signed_unsigned(dimension as int, m4);
    lemma_be_bytes_len(unsigned_of(dimension as int, m4), 4);
    let b = legacy_respawn_body(rid, dimension, hashed_seed, gamemode, level_type);
    let v = var_u32_bytes(rid as nat);
    let d = i32_bytes(dimension);
    let h = match hashed_seed {
        Some(seed) => i64_bytes(seed),
        None => Seq::<u8>::empty(),
    };
    let g = seq![gamemode];
    let l = string_bytes(level_type);
    let n = v.len() as int;
    let k: int = if hashed_seed is Some { 8 } else { 0 };
    if let Some(seed) = hashed_seed {
        lemma_signed_unsigned(seed as int, m8);
        lemma_be_bytes_len(unsigned_of(seed as int, m8), 8);
    }
    assert(h.len() == k);
    assert(b == v + d + h + g + l);
    lemma_var_at_after(Seq::<u8>::empty(), rid, d + h + g + l);
    assert(Seq::<u8>::empty() + v + (d + h + g + l) =~= b);
    lemma_be_after(v, unsigned_of(dimension as int, m4), 4, h + g + l);
    assert(v + d + (h + g + l) =~= b);
    if let Some(seed) = hashed_seed {
        lemma_be_after(v + d, unsigned_of(seed as int, m8), 8, g + l);
        assert(v + d + h + (g + l) =~= b);
    }
    assert(b[n + 4 + k] == gamemode) by {
        assert(b =~= (v + d + h) + (g + l));
    }
    assert(b.skip(n + 5 + k) =~= l);
}

/// A chat message `/server <name>` naming a known backend is answered with
/// "already connected" exactly when that backend is the one the player is
/// on, and with a switch to it otherwise.
pub proof fn law_server_command_target(
    state: u32,
    pv: u32,
    current: Seq<u8>,
    body: Seq<u8>,
    p: int,
    msg: Seq<u8>,
    q: int,
)
    requires
        has_ids(pv),
        var_at(body, 0) == Some((chat_c2s_id(pv), p)),
        string_at(body, p) == Some((msg, q)),
        is_server_command(msg),
        ascii_words(msg).len() >= 2,
        server_address_of(ascii_words(msg)[1]) is Some,
    ensures
        ascii_words(msg)[1] == current ==> client_verdict(state, pv, current, body)
            == (ClientVerdict::Already { name: current }),
        ascii_words(msg)[1] != current ==> client_verdict(state, pv, current, body)
            == (ClientVerdict::Switch {
                name: ascii_words(msg)[1],
                address: server_address_of(ascii_words(msg)[1]).unwrap(),
            }),
{
}

/// The relay never switches a player to the backend it is already on, and
/// only reports "already connected" for that backend.
pub proof fn law_no_switch_to_current(state: u32, pv: u32, current: Seq<u8>, body: Seq<u8>)
    ensures
        client_verdict(state, pv, current, body) matches ClientVerdict::Switch { name, address }
            ==> name != current && server_address_of(name) == Some(address),
        client_verdict(state, pv, current, body) matches ClientVerdict::Already { name }
            ==> name == current && (server_address_of(name) is Some),
{
}

/// After a transfer, the join game of a 1.16 to 1.18 backend is passed on
/// and followed by one respawn into the dimension it names, under the
/// respawn id of the player's own version (0x3d for 1.17 and 1.18, 0x39 for
/// 1.16), with its game modes and hashed seed; the relay then stops
/// expecting the join game.
pub proof fn law_modern_transfer_respawn(
    pv: u32,
    has_sent: bool,
    body: Seq<u8>,
    p: int,
    gamemode: u8,
    previous: u8,
    dimension: Seq<u8>,
    hashed_seed: i64,
)
    requires
        pv == MC1_18_1 || pv == MC1_17_1 || pv == MC1_16_5,
        var_at(body, 0) == Some((join_game_id(pv), p)),
        modern_join_at(body, p) == Some((gamemode, previous, dimension, hashed_seed)),
        nbt_writable(dimension),
    ensures
        respawn_id(pv) == (if pv == MC1_16_5 { 0x39u32 } else { 0x3du32 }),
        server_verdict(pv, true, has_sent, body) == (ServerVerdict::Done {
            to_server: if has_sent { Seq::<u8>::empty() } else { frame_bytes(server_register_body()) },
            texts: seq![],
            to_client: ToClient::WithModernRespawn {
                forwarded: frame_bytes(body),
                rid: respawn_id(pv),
                dimension,
                hashed_seed,
                gamemode,
                previous_gamemode: previous,
            },
            still_transferred: false,
            stop: None,
        }),
{
}

/// After a transfer, the join game of a 1.14 or 1.15 backend in one of the
/// three dimensions is passed on and followed by two respawns under the
/// respawn id of the player's own version (0x3b for 1.15, 0x3a for 1.14):
/// one into another dimension, then one into the dimension it names.
pub proof fn law_legacy_transfer_respawn(
    pv: u32,
    has_sent: bool,
    body: Seq<u8>,
    p: int,
    gamemode: u8,
    dimension: i32,
    hashed_seed: Option<i64>,
    level_type: Seq<u8>,
)
    requires
        pv == MC1_15_2 || pv == MC1_14_4,
        var_at(body, 0) == Some((join_game_id(pv), p)),
        legacy_join_at(body, p, pv) == Some((gamemode, dimension, hashed_seed, level_type)),
        -1 <= dimension <= 1,
    ensures
        respawn_id(pv) == (if pv == MC1_15_2 { 0x3bu32 } else { 0x3au32 }),
        server_verdict(pv, true, has_sent, body) == (ServerVerdict::Done {
            to_server: if has_sent { Seq::<u8>::empty() } else { frame_bytes(server_register_body()) },
            texts: seq![],
            to_client: ToClient::Exact(
                frame_bytes(body)
                    + frame_bytes(legacy_respawn_body(
                        respawn_id(pv),
                        fake_dimension_of(dimension),
                        hashed_seed,
                        gamemode,
                        level_type,
                    ))
                    + frame_bytes(legacy_respawn_body(respawn_id(pv), dimension, hashed_seed, gamemode, level_type)),
            ),
            still_transferred: false,
            stop: None,
        }),
{
}

/// A 1.16 to 1.18 respawn the proxy writes opens with its id as a VarInt
/// and a compound with tag 0x0a and an empty name, and ends with the world
/// name "mycelium:transfer", the hashed seed as a big-endian `i64`, the
/// game mode, the previous game mode and three false flags.
pub proof fn law_modern_respawn_layout(
    packet: Seq<u8>,
    rid: u32,
    dimension: Seq<u8>,
    hashed_seed: i64,
    gamemode: u8,
    previous_gamemode: u8,
)
    requires
        is_modern_respawn(packet, rid, dimension, hashed_seed, gamemode, previous_gamemode),
    ensures
        ({
            let n = var_u32_bytes(rid as nat).len() as int;
            let t = packet.len() as int;
            &&& var_at(packet, 0) == Some((rid, n))
            &&& t >= n + 35
            &&& packet.subrange(n, n + 3) == seq![0x0au8, 0x00u8, 0x00u8]
            &&& nbt_written(dimension, packet.subrange(n, t - 31))
            &&& packet.subrange(t - 31, t - 13) == string_bytes(mycelium_transfer())
            &&& be_at(packet, t - 13, 8) is Some
            &&& signed_of(be_at(packet, t - 13, 8).unwrap(), 0x1_0000_0000_0000_0000int) == hashed_seed as int
            &&& packet.skip(t - 5) == seq![gamemode, previous_gamemode, 0u8, 0u8, 0u8]
        }),
{
    let m8: int = 0x1_0000_0000_0000_0000int;
    let x = choose|x: Seq<u8>|
        is_compound_writing(x, dimension)
            && packet == var_u32_bytes(rid as nat) + x + modern_respawn_tail(hashed_seed, gamemode, previous_gamemode);
    let v = var_u32_bytes(rid as nat);
    let w = string_bytes(mycelium_transfer());
    let h = i64_bytes(hashed_seed);
    let f = seq![gamemode, previous_gamemode, 0u8, 0u8, 0u8];
    lemma_pow256_values();
    lemma_signed_unsigned(hashed_seed as int, m8);
    lemma_be_bytes_len(unsigned_of(hashed_seed as int, m8), 8);
    assert(var_u32_bytes(17) =~= seq![17u8]);
    assert(w.len() == 18);
    let n = v.len() as int;
    let t = packet.len() as int;
    assert(packet =~= v + x + w + h + f);
    assert(t == n + x.len() + 31);
    lemma_var_at_after(Seq::<u8>::empty(), rid, x + w + h + f);
    assert(Seq::<u8>::empty() + v + (x + w + h + f) =~= packet);
    assert(packet.subrange(n, n + 3) =~= x.take(3));
    assert(packet.subrange(n, t - 31) =~= x);
    assert(packet.subrange(t - 31, t - 13) =~= w);
    lemma_be_after(v + x + w, unsigned_of(hashed_seed as int, m8), 8, f);
    assert(packet.skip(t - 5) =~= f);
}

/// The encodings of the strings of `ws`, one after the other.
pub open spec fn strings_bytes(ws: Seq<Seq<u8>>) -> Seq<u8>
    decreases ws.len(),
{
    if ws.len() == 0 {
        Seq::<u8>::empty()
    } else {
        strings_bytes(ws.drop_last()) + string_bytes(ws.last())
    }
}

proof fn lemma_strings_after(pre: Seq<u8>, ws: Seq<Seq<u8>>, tail: Seq<u8>)
    requires
        forall|i: int| 0 <= i < ws.len() ==> ws[i].len() <= u32::MAX && valid_utf8(#[trigger] ws[i]),
    ensures
        strings_after(pre + strings_bytes(ws) + tail, pre.len() as int, ws.len())
            == Some((pre.len() + strings_bytes(ws).len()) as int),
    decreases ws.len(),
{
    let s = pre + strings_bytes(ws) + tail;
    if ws.len() == 0 {
        assert(strings_bytes(ws) =~= Seq::<u8>::empty());
    } else {
        let init = ws.drop_last();
        let last = ws.last();
        assert(ws[ws.len() - 1] == last);
        assert forall|i: int| 0 <= i < init.len() implies init[i].len() <= u32::MAX && valid_utf8(#[trigger] init[i]) by {
            assert(init[i] == ws[i]);
        }
        lemma_strings_after(pre, init, string_bytes(last) + tail);
        assert(pre + strings_bytes(init) + (string_bytes(last) + tail) =~= s);
        lemma_string_at_after(pre + strings_bytes(init), last, tail);
        assert(pre + strings_bytes(init) + string_bytes(last) + tail =~= s);
    }
}

proof fn lemma_assoc(a: Seq<u8>, b: Seq<u8>, c: Seq<u8>)
    ensures
        a + b + c == a + (b + c),
{
    assert(a + b + c =~= a + (b + c));
}

proof fn lemma_skip_concat(a: Seq<u8>, b: Seq<u8>)
    ensures
        (a + b).skip(a.len() as int) == b,
{
    assert((a + b).skip(a.len() as int) =~= b);
}

proof fn lemma_subrange_concat(a: Seq<u8>, b: Seq<u8>, c: Seq<u8>)
    ensures
        (a + (b + c)).subrange(a.len() as int, (a.len() + b.len()) as int) == b,
{
    assert((a + (b + c)).subrange(a.len() as int, (a.len() + b.len()) as int) =~= b);
}

proof fn lemma_modern_join_steps(
    s: Seq<u8>,
    p: int,
    count: u32,
    q0: int,
    q1: int,
    q2: int,
    q3: int,
    q4: int,
    seed: nat,
)
    requires
        s.len() >= p + 7,
        var_at(s, p + 7) == Some((count, q0)),
        strings_after(s, q0, count as nat) == Some(q1),
        nbt_blob_len(s.skip(q1)) == Some((q2 - q1) as nat),
        nbt_blob_len(s.skip(q2)) == Some((q3 - q2) as nat),
        q1 <= q2 <= q3,
        string_at(s, q3) matches Some((_, r)) && r == q4,
        be_at(s, q4, 8) == Some(seed),
    ensures
        modern_join_at(s, p) == Some((
            s[p + 5],
            s[p + 6],
            s.subrange(q2, q3),
            signed_of(seed, 0x1_0000_0000_0000_0000int) as i64,
        )),
{
}

/// A 1.16 to 1.18 join game is read back as written: the game mode, the
/// previous game mode, the bytes of the dimension compound and the hashed
/// seed, whatever the entity id, hardcore flag, world names, dimension
/// codec and world name around them, given that the NBT reader finds each
/// compound to end where it was written to.
#[verifier::spinoff_prover]
#[verifier::rlimit(50)]
pub proof fn law_modern_join_roundtrip(
    pre: Seq<u8>,
    entity: i32,
    hardcore: u8,
    gamemode: u8,
    previous: u8,
    worlds: Seq<Seq<u8>>,
    codec: Seq<u8>,
    dimension: Seq<u8>,
    world: Seq<u8>,
    hashed_seed: i64,
    rest: Seq<u8>,
)
    requires
        worlds.len() <= u32::MAX,
        forall|i: int| 0 <= i < worlds.len() ==> worlds[i].len() <= u32::MAX && valid_utf8(#[trigger] worlds[i]),
        world.len() <= u32::MAX,
        valid_utf8(world),
        nbt_blob_len(codec + dimension + string_bytes(world) + i64_bytes(hashed_seed) + rest) == Some(codec.len()),
        nbt_blob_len(dimension + string_bytes(world) + i64_bytes(hashed_seed) + rest) == Some(dimension.len()),
    ensures
        modern_join_at(
            pre + i32_bytes(entity) + seq![hardcore, gamemode, previous] + var_u32_bytes(worlds.len())
                + strings_bytes(worlds) + codec + dimension + string_bytes(world) + i64_bytes(hashed_seed) + rest,
            pre.len() as int,
        ) == Some((gamemode, previous, dimension, hashed_seed)),
{
    let m4: int = 0x1_0000_0000;
    let m8: int = 0x1_0000_0000_0000_0000int;
    lemma_pow256_values();
    lemma_signed_unsigned(hashed_seed as int, m8);
    lemma_be_bytes_len(unsigned_of(entity as int, m4), 4);
    lemma_be_bytes_len(unsigned_of(hashed_seed as int, m8), 8);
    let u = unsigned_of(hashed_seed as int, m8);
    let e = i32_bytes(entity);
    let g = seq![hardcore, gamemode, previous];
    let c = var_u32_bytes(worlds.len());
    let ws = strings_bytes(worlds);
    let wb = string_bytes(world);
    let h = i64_bytes(hashed_seed);
    let a1 = pre + e + g;
    let a2 = a1 + c;
    let a3 = a2 + ws;
    let a4 = a3 + codec;
    let a5 = a4 + dimension;
    let a6 = a5 + wb;
    let body = a6 + h + rest;
    let s6 = h + rest;
    let s5 = wb + s6;
    let s4 = dimension + s5;
    let s3 = codec + s4;
    let s2 = ws + s3;
    let s1 = c + s2;
    lemma_assoc(a6, h, rest);
    lemma_assoc(a5, wb, s6);
    lemma_assoc(a4, dimension, s5);
    lemma_assoc(a3, codec, s4);
    lemma_assoc(a2, ws, s3);
    lemma_assoc(a1, c, s2);
    lemma_assoc(pre + e, g, s1);
    assert(s3 == codec + dimension + wb + h + rest) by {
        lemma_assoc(wb, h, rest);
        lemma_assoc(dimension, wb, h + rest);
        lemma_assoc(dimension + wb, h, rest);
        lemma_assoc(codec, dimension, wb + h + rest);
        lemma_assoc(codec + dimension, wb, h + rest);
        lemma_assoc(codec + dimension + wb, h, rest);
    }
    assert(s4 == dimension + wb + h + rest) by {
        lemma_assoc(dimension, wb, h + rest);
        lemma_assoc(dimension + wb, h, rest);
    }
    let p = pre.len() as int;
    assert(body[p + 5] == gamemode && body[p + 6] == previous) by {
        assert((pre + e + g + s1)[p + 5] == g[1]);
        assert((pre + e + g + s1)[p + 6] == g[2]);
    }
    lemma_var_at_after(a1, worlds.len() as u32, s2);
    lemma_strings_after(a2, worlds, s3);
    lemma_skip_concat(a3, s3);
    lemma_skip_concat(a4, s4);
    lemma_subrange_concat(a4, dimension, s5);
    lemma_string_at_after(a5, world, s6);
    lemma_be_after(a6, u, 8, rest);
    assert(worlds.len() as u32 as nat == worlds.len());
    lemma_modern_join_steps(
        body,
        p,
        worlds.len() as u32,
        a2.len() as int,
        a3.len() as int,
        a4.len() as int,
        a5.len() as int,
        a6.len() as int,
        u,
    );
}

} // verus!
