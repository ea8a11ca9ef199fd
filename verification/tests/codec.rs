use minecraft_varint::VarIntWrite;
use mycelium::codec::{
    frame, read_i128_be, read_i32_be, read_i64_be, read_i8, read_string, read_u16_be, read_u8,
    read_var_u32, try_read_string, write_string, write_var_u32,
};
use mycelium::command::{is_server_command_message, split_ascii_whitespace, starts_with};
use mycelium::plugin::{parse_plugin_texts, split_at_zeros};
use mycelium::servers::{bytes_eq, default_server_name_bytes, server_address};

fn var(x: u32) -> Vec<u8> {
    let mut v = Vec::new();
    write_var_u32(&mut v, x);
    v
}

#[test]
fn var_u32_encodings() {
    assert_eq!(var(0), vec![0x00]);
    assert_eq!(var(1), vec![0x01]);
    assert_eq!(var(127), vec![0x7f]);
    assert_eq!(var(128), vec![0x80, 0x01]);
    assert_eq!(var(300), vec![0xac, 0x02]);
    assert_eq!(var(25565), vec![0xdd, 0xc7, 0x01]);
    assert_eq!(var(u32::MAX), vec![0xff, 0xff, 0xff, 0xff, 0x0f]);
    for x in [0u32, 5, 127, 128, 255, 16383, 16384, 2097151, 2097152, 1 << 28, u32::MAX] {
        let mut expected = Vec::new();
        expected.write_var_u32(x).unwrap();
        assert_eq!(var(x), expected);
    }
}

#[test]
fn var_u32_reads() {
    assert_eq!(read_var_u32(&[0xac, 0x02, 0x99], 0), Some((300, 2)));
    assert_eq!(read_var_u32(&[0x99, 0xac, 0x02], 1), Some((300, 3)));
    assert_eq!(read_var_u32(&[], 0), None);
    assert_eq!(read_var_u32(&[0x80], 0), None);
    assert_eq!(read_var_u32(&[0x05], 1), None);
    // at most five bytes are read; bits beyond 32 are dropped
    assert_eq!(read_var_u32(&[0xff, 0xff, 0xff, 0xff, 0xff, 0x01], 0), Some((u32::MAX, 5)));
    assert_eq!(read_var_u32(&[0x80, 0x80, 0x80, 0x80, 0x10], 0), Some((0, 5)));
    // a non-minimal encoding is accepted
    assert_eq!(read_var_u32(&[0x81, 0x00], 0), Some((1, 2)));
}

#[test]
fn var_u32_roundtrip_values() {
    for x in [0u32, 1, 127, 128, 340, 757, 65535, 1 << 21, u32::MAX - 1, u32::MAX] {
        let mut v = var(x);
        let n = v.len();
        v.extend_from_slice(&[1, 2, 3]);
        assert_eq!(read_var_u32(&v, 0), Some((x, n)));
    }
}

#[test]
fn strings() {
    let mut v = Vec::new();
    write_string(&mut v, b"lobby");
    assert_eq!(v, vec![5, b'l', b'o', b'b', b'b', b'y']);
    v.push(42);
    assert_eq!(read_string(&v, 0), Some((b"lobby".to_vec(), 6)));
    let mut w = Vec::new();
    write_string(&mut w, "§a".as_bytes());
    assert_eq!(read_string(&w, 0), Some(("§a".as_bytes().to_vec(), 4)));
    assert_eq!(try_read_string(&v, 0), Some((b"lobby".to_vec(), 6)));
    // cut short
    assert_eq!(try_read_string(&[5, b'a', b'b'], 0), None);
    // not UTF-8
    assert_eq!(try_read_string(&[2, 0xc3, 0x28], 0), None);
    // no length
    assert_eq!(read_string(&[], 0), None);
    assert_eq!(read_string(&[0x80], 0), None);
    assert_eq!(try_read_string(&[], 0), None);
    // empty string
    assert_eq!(read_string(&[0], 0), Some((vec![], 1)));
}

#[test]
fn frames() {
    assert_eq!(frame(&[]), vec![0]);
    assert_eq!(frame(&[1, 2, 3]), vec![3, 1, 2, 3]);
    let body = vec![7u8; 200];
    let f = frame(&body);
    assert_eq!(&f[..2], &[0xc8, 0x01]);
    assert_eq!(&f[2..], &body[..]);
    assert_eq!(read_var_u32(&f, 0), Some((200, 2)));
}

#[test]
fn big_endian_reads() {
    assert_eq!(read_u16_be(&[0x1f, 0x41], 0), Some((8001, 2)));
    assert_eq!(read_u16_be(&[0x1f], 0), None);
    assert_eq!(read_i32_be(&[0xff, 0xff, 0xff, 0xff], 0), Some((-1, 4)));
    assert_eq!(read_i32_be(&[0, 0, 0, 1], 1), None);
    assert_eq!(read_i32_be(&[9, 0, 0, 0, 1], 1), Some((1, 5)));
    assert_eq!(read_i64_be(&[0x80, 0, 0, 0, 0, 0, 0, 0], 0), Some((i64::MIN, 8)));
    assert_eq!(read_i128_be(&[0u8; 15], 0), None);
    let mut b = [0u8; 16];
    b[15] = 2;
    assert_eq!(read_i128_be(&b, 0), Some((2, 16)));
    assert_eq!(read_u8(&[3, 4], 1), Some((4, 2)));
    assert_eq!(read_u8(&[3, 4], 2), None);
    assert_eq!(read_i8(&[0xfe], 0), Some((-2, 1)));
}

#[test]
fn words() {
    let w = split_ascii_whitespace(b"/server  lobby\textra ");
    assert_eq!(w, vec![b"/server".to_vec(), b"lobby".to_vec(), b"extra".to_vec()]);
    assert_eq!(split_ascii_whitespace(b"   "), Vec::<Vec<u8>>::new());
    assert_eq!(split_ascii_whitespace(b""), Vec::<Vec<u8>>::new());
    assert_eq!(split_ascii_whitespace(b"a\r\nb\x0cc"), vec![b"a".to_vec(), b"b".to_vec(), b"c".to_vec()]);
    // vertical tab is not ASCII whitespace for this split
    assert_eq!(split_ascii_whitespace(b"a\x0bb"), vec![b"a\x0bb".to_vec()]);
    let text = "hello  wörld\tfoo";
    let expected: Vec<Vec<u8>> = text.split_ascii_whitespace().map(|s| s.as_bytes().to_vec()).collect();
    assert_eq!(split_ascii_whitespace(text.as_bytes()), expected);
}

#[test]
fn server_commands() {
    assert!(is_server_command_message(b"/server lobby"));
    assert!(is_server_command_message(b"/server "));
    assert!(!is_server_command_message(b"/server"));
    assert!(!is_server_command_message(b"/servers lobby"));
    assert!(!is_server_command_message(b"hello"));
    assert!(starts_with(b"abc", b""));
    assert!(!starts_with(b"ab", b"abc"));
}

#[test]
fn server_table() {
    assert_eq!(server_address(b"lobby"), Some("127.0.0.1:25565"));
    assert_eq!(server_address(b"survival"), Some("127.0.0.1:25566"));
    assert_eq!(server_address(b"flat"), None);
    assert_eq!(server_address(b"Lobby"), None);
    assert_eq!(default_server_name_bytes(), b"lobby".to_vec());
    assert!(bytes_eq(b"", b""));
    assert!(!bytes_eq(b"a", b"b"));
}

#[test]
fn plugin_payloads() {
    assert_eq!(split_at_zeros(b""), vec![Vec::<u8>::new()]);
    assert_eq!(split_at_zeros(b"a\0\0b"), vec![b"a".to_vec(), vec![], b"b".to_vec()]);
    let texts = parse_plugin_texts(b"head\0\x03abc\0\0\x02hi\0").unwrap();
    assert_eq!(texts, vec![b"abc".to_vec(), b"hi".to_vec()]);
    assert_eq!(parse_plugin_texts(b"no zero here"), Some(vec![]));
    assert_eq!(parse_plugin_texts(b"x\0\x01\xff"), None);
    assert_eq!(parse_plugin_texts(b"x\0\x01"), Some(vec![vec![]]));
}
