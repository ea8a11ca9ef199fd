use byteorder::{BigEndian, WriteBytesExt};
use minecraft_varint::VarIntWrite;
use mycelium::blob::read_compound;
use mycelium::client::{parse_handshake, ClientAction, ClientSession};
use mycelium::codec::{frame, write_string};
use mycelium::error::FrameError;
use mycelium::login::{parse_login_reply, LoginReply, LoginUuid};
use mycelium::messages::{
    client_register_packet, fake_dimension, handshake_packet, legacy_respawn_packet,
    login_start_packet, modern_respawn_packet, server_register_packet,
};
use mycelium::server::{ServerOutput, ServerSession};

fn string(v: &mut Vec<u8>, s: &str) {
    v.write_var_u32(s.len() as u32).unwrap();
    v.extend_from_slice(s.as_bytes());
}

fn handshake_body(pv: u32, next_state: u32) -> Vec<u8> {
    let mut v = Vec::new();
    v.write_var_u32(0).unwrap();
    v.write_var_u32(pv).unwrap();
    string(&mut v, "localhost");
    v.write_u16::<BigEndian>(8001).unwrap();
    v.write_var_u32(next_state).unwrap();
    v
}

fn chat_body(id: u32, msg: &str) -> Vec<u8> {
    let mut v = Vec::new();
    v.write_var_u32(id).unwrap();
    string(&mut v, msg);
    v
}

fn framed(parts: &[&[u8]]) -> Vec<u8> {
    let mut out = Vec::new();
    for p in parts {
        out.extend_from_slice(&frame(p));
    }
    out
}

#[test]
fn handshake_bytes() {
    // the handshake of the original login scenario: version 340, localhost:8001, login state
    let v = handshake_packet(340, b"localhost", 8001, 2);
    assert_eq!(v, handshake_body(340, 2));
    assert_eq!(
        v,
        vec![0x00, 0xd4, 0x02, 0x09, b'l', b'o', b'c', b'a', b'l', b'h', b'o', b's', b't', 0x1f, 0x41, 0x02]
    );
    assert_eq!(parse_handshake(&v, 1), Some((340, b"localhost".to_vec(), 8001, 2)));
    let mut login = Vec::new();
    login.write_var_u32(0).unwrap();
    string(&mut login, "f8h");
    assert_eq!(login_start_packet(b"f8h"), login);
    assert_eq!(login_start_packet(b"F8H"), vec![0, 3, b'F', b'8', b'H']);
}

#[test]
fn register_packets() {
    let mut c = Vec::new();
    c.write_var_u32(0x0a).unwrap();
    string(&mut c, "minecraft:register");
    string(&mut c, "mycelium:data");
    assert_eq!(client_register_packet(), c);
    let mut s = Vec::new();
    s.write_var_u32(0x0a).unwrap();
    string(&mut s, "minecraft:register");
    s.extend_from_slice(b"bungeecord:main\0\0");
    assert_eq!(server_register_packet(), s);
}

#[test]
fn client_handshake_sets_state() {
    let mut session = ClientSession::new();
    assert_eq!(session.current_server(), b"lobby");
    let body = handshake_body(754, 2);
    match session.on_frame(&body).unwrap() {
        ClientAction::Forward { handshook, to_server } => {
            assert_eq!(handshook, Some(754));
            assert_eq!(to_server, frame(&body));
        }
        _ => panic!("handshake must be passed on"),
    }
    assert_eq!(session.state(), 2);
    assert_eq!(session.pv(), 754);
    // a second packet 0 is not a handshake any more
    let again = handshake_body(340, 1);
    match session.on_frame(&again).unwrap() {
        ClientAction::Forward { handshook, to_server } => {
            assert_eq!(handshook, None);
            assert_eq!(to_server, frame(&again));
        }
        _ => panic!("expected forward"),
    }
    assert_eq!((session.state(), session.pv()), (2, 754));
}

#[test]
fn client_registers_channel_before_0x26() {
    let mut session = ClientSession::new();
    session.on_frame(&handshake_body(757, 2)).unwrap();
    let body = vec![0x26, 1, 2, 3];
    match session.on_frame(&body).unwrap() {
        ClientAction::Forward { handshook, to_server } => {
            assert_eq!(handshook, None);
            assert_eq!(to_server, framed(&[&client_register_packet(), &body]));
        }
        _ => panic!("expected forward"),
    }
}

#[test]
fn client_server_commands() {
    let mut session = ClientSession::new();
    session.on_frame(&handshake_body(340, 3)).unwrap();
    match session.on_frame(&chat_body(0x02, "/server survival")).unwrap() {
        ClientAction::SwitchServer { name, address } => {
            assert_eq!(name, b"survival".to_vec());
            assert_eq!(address, "127.0.0.1:25566");
        }
        _ => panic!("expected a switch"),
    }
    match session.on_frame(&chat_body(0x02, "/server   lobby now")).unwrap() {
        ClientAction::AlreadyConnected { name } => assert_eq!(name, b"lobby".to_vec()),
        _ => panic!("expected already connected"),
    }
    session.set_current_server(b"survival".to_vec());
    match session.on_frame(&chat_body(0x02, "/server lobby")).unwrap() {
        ClientAction::SwitchServer { name, address } => {
            assert_eq!(name, b"lobby".to_vec());
            assert_eq!(address, "127.0.0.1:25565");
        }
        _ => panic!("expected a switch"),
    }
    // unknown backends and other messages are passed on
    let unknown = chat_body(0x02, "/server flat");
    match session.on_frame(&unknown).unwrap() {
        ClientAction::Forward { to_server, .. } => assert_eq!(to_server, frame(&unknown)),
        _ => panic!("expected forward"),
    }
    let hello = chat_body(0x02, "hello");
    match session.on_frame(&hello).unwrap() {
        ClientAction::Forward { to_server, .. } => assert_eq!(to_server, frame(&hello)),
        _ => panic!("expected forward"),
    }
    // a command id of another version is not a chat message
    let other = chat_body(0x03, "/server lobby");
    match session.on_frame(&other).unwrap() {
        ClientAction::Forward { to_server, .. } => assert_eq!(to_server, frame(&other)),
        _ => panic!("expected forward"),
    }
    assert!(matches!(
        session.on_frame(&chat_body(0x02, "/server ")),
        Err(FrameError::MissingCommandArgument)
    ));
}

#[test]
fn client_errors() {
    let mut session = ClientSession::new();
    assert!(matches!(session.on_frame(&[]), Err(FrameError::Malformed)));
    assert!(matches!(session.on_frame(&[0x00, 0xd4]), Err(FrameError::Malformed)));
    assert_eq!((session.state(), session.pv()), (0, 0));
    session.on_frame(&handshake_body(47, 1)).unwrap();
    assert!(matches!(session.on_frame(&[0x00]), Err(FrameError::UnknownVersion(47))));
    let mut s2 = ClientSession::new();
    s2.on_frame(&handshake_body(578, 3)).unwrap();
    assert!(matches!(s2.on_frame(&[0x03, 0x05, b'a']), Err(FrameError::Malformed)));
}

#[test]
fn login_replies() {
    let mut disconnect = Vec::new();
    disconnect.write_var_u32(0).unwrap();
    string(&mut disconnect, "{\"text\":\"full\"}");
    match parse_login_reply(&disconnect, 340).unwrap() {
        LoginReply::Disconnect { reason } => assert_eq!(reason, b"{\"text\":\"full\"}".to_vec()),
        _ => panic!("expected disconnect"),
    }
    let mut old = Vec::new();
    old.write_var_u32(2).unwrap();
    string(&mut old, "069a79f4-44e9-4726-a5be-fca90e38aaf5");
    string(&mut old, "F8H");
    match parse_login_reply(&old, 578).unwrap() {
        LoginReply::Success { uuid: LoginUuid::Text(u), username } => {
            assert_eq!(u, b"069a79f4-44e9-4726-a5be-fca90e38aaf5".to_vec());
            assert_eq!(username, b"F8H".to_vec());
        }
        _ => panic!("expected success"),
    }
    let mut new = Vec::new();
    new.write_var_u32(2).unwrap();
    new.write_i128::<BigEndian>(-5).unwrap();
    string(&mut new, "F8H");
    match parse_login_reply(&new, 754).unwrap() {
        LoginReply::Success { uuid: LoginUuid::Binary(u), username } => {
            assert_eq!(u, -5);
            assert_eq!(username, b"F8H".to_vec());
        }
        _ => panic!("expected success"),
    }
    assert!(matches!(parse_login_reply(&[3, 0], 754), Err(FrameError::UnexpectedReply(3))));
    assert!(matches!(parse_login_reply(&[2, 1], 754), Err(FrameError::Malformed)));
    assert!(matches!(parse_login_reply(&[], 754), Err(FrameError::Malformed)));
}

fn ok(r: Result<ServerOutput, FrameError>) -> ServerOutput {
    match r {
        Ok(o) => o,
        Err(e) => panic!("unexpected {:?}", e),
    }
}

#[test]
fn server_registers_channel_once() {
    let mut session = ServerSession::new();
    // before the handshake nothing is registered
    let out = ok(session.on_frame(&[0x10, 1]));
    assert!(out.to_server.is_empty());
    assert_eq!(out.to_client, frame(&[0x10, 1]));
    session.on_handshook(340);
    let out = ok(session.on_frame(&[0x10, 1]));
    assert_eq!(out.to_server, frame(&server_register_packet()));
    assert!(session.has_sent_plugins);
    let out = ok(session.on_frame(&[0x10, 2]));
    assert!(out.to_server.is_empty());
    session.on_new_server();
    assert!(session.recently_transferred && !session.has_sent_plugins);
    let out = ok(session.on_frame(&[0x10, 3]));
    assert_eq!(out.to_server, frame(&server_register_packet()));
    assert_eq!(out.to_client, frame(&[0x10, 3]));
}

#[test]
fn server_bungee_messages() {
    let mut session = ServerSession::new();
    let mut body = Vec::new();
    body.write_var_u32(0x18).unwrap();
    string(&mut body, "bungeecord:main");
    body.extend_from_slice(b"GetServer\0\x05lobby\0");
    let out = ok(session.on_frame(&body));
    assert_eq!(out.plugin_texts, vec![b"lobby".to_vec()]);
    assert_eq!(out.to_client, frame(&body));
    let mut other = Vec::new();
    other.write_var_u32(0x18).unwrap();
    string(&mut other, "minecraft:brand");
    other.extend_from_slice(b"\x07vanilla");
    let out = ok(session.on_frame(&other));
    assert!(out.plugin_texts.is_empty());
    let mut bad = Vec::new();
    bad.write_var_u32(0x18).unwrap();
    string(&mut bad, "bungeecord:main");
    bad.extend_from_slice(b"x\0\x01\xff");
    let out = ok(session.on_frame(&bad));
    assert!(matches!(out.stop, Some(FrameError::Malformed)));
    assert!(out.to_client.is_empty());
}

fn legacy_join(pv: u32, dimension: i32) -> Vec<u8> {
    let mut v = Vec::new();
    v.write_var_u32(if pv == 578 { 0x26 } else { 0x25 }).unwrap();
    v.write_i32::<BigEndian>(42).unwrap();
    v.write_u8(1).unwrap();
    v.write_i32::<BigEndian>(dimension).unwrap();
    if pv > 498 {
        v.write_i64::<BigEndian>(-77).unwrap();
    }
    v.write_u8(20).unwrap();
    string(&mut v, "default");
    v.write_var_u32(10).unwrap();
    v
}

#[test]
fn server_legacy_transfer_respawns() {
    for (pv, seed) in [(578u32, Some(-77i64)), (498, None)] {
        let mut session = ServerSession::new();
        session.on_handshook(pv);
        session.on_new_server();
        let body = legacy_join(pv, 0);
        let out = ok(session.on_frame(&body));
        let rid = if pv == 578 { 0x3b } else { 0x3a };
        let first = legacy_respawn_packet(rid, -1, seed, 1, b"default");
        let second = legacy_respawn_packet(rid, 0, seed, 1, b"default");
        assert_eq!(out.to_client, framed(&[&body, &first, &second]));
        assert!(!session.recently_transferred);
        // the next join game is only passed on
        let out = ok(session.on_frame(&body));
        assert_eq!(out.to_client, frame(&body));
    }
    let mut expected = Vec::new();
    expected.write_var_u32(0x3b).unwrap();
    expected.write_i32::<BigEndian>(1).unwrap();
    expected.write_i64::<BigEndian>(9).unwrap();
    expected.write_u8(0).unwrap();
    string(&mut expected, "flat");
    assert_eq!(legacy_respawn_packet(0x3b, 1, Some(9), 0, b"flat"), expected);
}

#[test]
fn server_legacy_errors() {
    let mut session = ServerSession::new();
    session.on_handshook(578);
    session.on_new_server();
    // the join game is passed on, then the relay stops
    let odd = legacy_join(578, 7);
    let out = ok(session.on_frame(&odd));
    assert!(matches!(out.stop, Some(FrameError::UnknownDimension(7))));
    assert_eq!(out.to_client, frame(&odd));
    assert_eq!(out.to_server, frame(&server_register_packet()));
    assert!(session.recently_transferred);
    let mut cut = legacy_join(578, 0);
    cut.truncate(6);
    let out = ok(session.on_frame(&cut));
    assert!(matches!(out.stop, Some(FrameError::Malformed)));
    assert_eq!(out.to_client, frame(&cut));
    let mut s340 = ServerSession::new();
    s340.on_handshook(340);
    s340.on_new_server();
    let out = ok(s340.on_frame(&[0x23, 0]));
    assert!(matches!(out.stop, Some(FrameError::UnsupportedVersion(340))));
    assert_eq!(out.to_client, frame(&[0x23, 0]));
    // an unknown version registers the channel, then stops
    let mut unknown = ServerSession::new();
    unknown.on_handshook(47);
    let out = ok(unknown.on_frame(&[0x01]));
    assert!(matches!(out.stop, Some(FrameError::UnknownVersion(47))));
    assert_eq!(out.to_server, frame(&server_register_packet()));
    assert!(out.to_client.is_empty());
    let mut fresh = ServerSession::new();
    assert!(matches!(fresh.on_frame(&[]), Err(FrameError::Malformed)));
}

fn nbt_bytes(blob: &nbt::Blob) -> Vec<u8> {
    let mut v = Vec::new();
    nbt::to_writer(&mut v, blob, None).unwrap();
    v
}

#[test]
fn server_modern_transfer_respawn() {
    let mut codec = nbt::Blob::new();
    codec.insert("kind", "codec").unwrap();
    let mut dimension = nbt::Blob::new();
    dimension.insert("height", 256i32).unwrap();
    let mut body = Vec::new();
    body.write_var_u32(0x24).unwrap();
    body.write_i32::<BigEndian>(42).unwrap();
    body.write_i8(0).unwrap();
    body.write_u8(1).unwrap();
    body.write_u8(2).unwrap();
    body.write_var_u32(2).unwrap();
    string(&mut body, "minecraft:overworld");
    string(&mut body, "minecraft:the_nether");
    body.extend_from_slice(&nbt_bytes(&codec));
    body.extend_from_slice(&nbt_bytes(&dimension));
    string(&mut body, "minecraft:overworld");
    body.write_i64::<BigEndian>(123456789).unwrap();
    body.extend_from_slice(&[20, 10, 0, 0, 1, 0]);

    let mut session = ServerSession::new();
    session.on_handshook(754);
    session.on_new_server();
    let out = ok(session.on_frame(&body));
    // the relay writes back the compound as the nbt crate reads it
    let dimension_bytes = nbt_bytes(&dimension);
    let reread: nbt::Blob = nbt::from_reader(&mut &dimension_bytes[..]).unwrap();
    let (compound, end) = read_compound(&dimension_bytes, 0).unwrap();
    assert_eq!(end, dimension_bytes.len());
    let respawn = modern_respawn_packet(0x39, &compound, 123456789, 1, 2).unwrap();
    // the compound opens with tag 0x0a and an empty name, and closes with 0
    assert_eq!(&respawn[1..4], &[0x0a, 0, 0]);
    let mut expected_respawn = Vec::new();
    expected_respawn.write_var_u32(0x39).unwrap();
    expected_respawn.extend_from_slice(&nbt_bytes(&reread));
    string(&mut expected_respawn, "mycelium:transfer");
    expected_respawn.write_i64::<BigEndian>(123456789).unwrap();
    expected_respawn.extend_from_slice(&[1, 2, 0, 0, 0]);
    assert_eq!(respawn, expected_respawn);
    assert_eq!(out.to_client, framed(&[&body, &respawn]));
    assert_eq!(out.to_server, frame(&server_register_packet()));
    assert!(!session.recently_transferred);
}

#[test]
fn fake_dimensions() {
    assert_eq!(fake_dimension(-1), 1);
    assert_eq!(fake_dimension(0), -1);
    assert_eq!(fake_dimension(1), 0);
    for d in -1..=1 {
        assert_ne!(fake_dimension(d), d);
    }
}

#[test]
fn string_writer_matches_reader() {
    let mut v = Vec::new();
    write_string(&mut v, b"mycelium:transfer");
    let mut w = Vec::new();
    string(&mut w, "mycelium:transfer");
    assert_eq!(v, w);
}
