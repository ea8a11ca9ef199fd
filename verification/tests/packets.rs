use mycelium::packet::Packet;
use mycelium::packets::{
    get_chat_c2s, get_join_game, get_respawn_id, has_packet_ids, MC1_12_2, MC1_13_2, MC1_14_4,
    MC1_15_2, MC1_16_5, MC1_17_1, MC1_18_1,
};
use mycelium::protocol::{Mc1_12, ProtocolVersion};

#[test]
fn respawn_ids() {
    assert_eq!(get_respawn_id(MC1_18_1), 0x3d);
    assert_eq!(get_respawn_id(MC1_17_1), 0x3d);
    assert_eq!(get_respawn_id(MC1_16_5), 0x39);
    assert_eq!(get_respawn_id(MC1_15_2), 0x3b);
    assert_eq!(get_respawn_id(MC1_14_4), 0x3a);
    assert_eq!(get_respawn_id(MC1_13_2), 0x38);
    assert_eq!(get_respawn_id(MC1_12_2), 0x35);
    assert_eq!(get_respawn_id(0), u32::MAX);
}

#[test]
fn chat_ids() {
    assert_eq!(get_chat_c2s(757), 0x03);
    assert_eq!(get_chat_c2s(756), 0x03);
    assert_eq!(get_chat_c2s(754), 0x03);
    assert_eq!(get_chat_c2s(578), 0x03);
    assert_eq!(get_chat_c2s(498), 0x03);
    assert_eq!(get_chat_c2s(404), 0x02);
    assert_eq!(get_chat_c2s(340), 0x02);
    assert_eq!(get_chat_c2s(0), u32::MAX);
}

#[test]
fn join_game_ids() {
    assert_eq!(get_join_game(757), 0x26);
    assert_eq!(get_join_game(756), 0x26);
    assert_eq!(get_join_game(754), 0x24);
    assert_eq!(get_join_game(578), 0x26);
    assert_eq!(get_join_game(498), 0x25);
    assert_eq!(get_join_game(404), 0x25);
    assert_eq!(get_join_game(340), 0x23);
    assert_eq!(get_join_game(0), u32::MAX);
}

#[test]
fn known_versions() {
    for pv in [0, 757, 756, 754, 578, 498, 404, 340] {
        assert!(has_packet_ids(pv));
    }
    for pv in [1, 47, 755, 758, 763, u32::MAX] {
        assert!(!has_packet_ids(pv));
    }
}

struct KeepAlive(u64);

impl Packet for KeepAlive {
    fn read() -> Self {
        KeepAlive(0)
    }

    fn write(&self, buf: &mut [u8]) -> Option<usize> {
        let bytes = self.0.to_be_bytes();
        if buf.len() < bytes.len() {
            return None;
        }
        buf[..bytes.len()].copy_from_slice(&bytes);
        Some(bytes.len())
    }
}

#[test]
fn packet_ids_from_protocol_version() {
    assert_eq!(KeepAlive::get_id(ProtocolVersion::Mc1_12(Mc1_12)), 0);
    assert_eq!(Mc1_12.get_id::<KeepAlive>(), 0);
    assert_eq!(ProtocolVersion::Mc1_12(Mc1_12).get_id::<KeepAlive>(), 0);
    let mut buf = [0u8; 8];
    assert_eq!(KeepAlive(7).write(&mut buf), Some(8));
    assert_eq!(KeepAlive::read().0, 0);
}
