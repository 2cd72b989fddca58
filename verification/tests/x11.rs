use justshow::bytes::ByteReader;
use justshow::display_var::DisplayVar;
use justshow::error::Error;
use justshow::events::ConfigureNotify;
use justshow::ids::KeyCode;
use justshow::keys::KeySymbols;
use justshow::keysym::KeySym;
use justshow::replies::{GetKeyboardMapping, ListOfStr};
use justshow::xauth::XAuth;

#[test]
fn list_of_str_roundtrip() {
    let raw_data = b"\x0e/file/path/abc\x12/file/path/abcdefg";
    let mut conn = ByteReader::new(raw_data.to_vec());

    let decoded = ListOfStr::from_le_bytes(2, &mut conn).unwrap();
    let expected = ListOfStr {
        strings: vec![
            vec![47, 102, 105, 108, 101, 47, 112, 97, 116, 104, 47, 97, 98, 99],
            vec![
                47, 102, 105, 108, 101, 47, 112, 97, 116, 104, 47, 97, 98, 99, 100, 101, 102, 103,
            ],
        ],
    };
    assert_eq!(decoded, expected);

    let encoded = decoded.to_le_bytes();
    assert_eq!(encoded, raw_data.to_vec());
}

#[test]
fn list_of_str_short_input_is_eof() {
    let mut conn = ByteReader::new(vec![3, b'a', b'b']);
    assert!(ListOfStr::from_le_bytes(1, &mut conn).is_err());
    let mut empty = ByteReader::new(vec![0]);
    let decoded = ListOfStr::from_le_bytes(1, &mut empty).unwrap();
    assert_eq!(decoded.strings, vec![Vec::<u8>::new()]);
    assert_eq!(decoded.encoded_len(), 1);
}

fn key_symbols() -> KeySymbols {
    let reply = GetKeyboardMapping {
        keysyms_per_keycode: 2,
        keysyms: vec![
            KeySym::from_raw(0x61),
            KeySym::from_raw(0x41),
            KeySym::from_raw(0x62),
            KeySym::from_raw(KeySym::NO_SYMBOL),
        ],
    };
    KeySymbols::new(KeyCode::from_u8(8), KeyCode::from_u8(9), reply)
}

#[test]
fn keysym_lookup() {
    let ks = key_symbols();
    assert_eq!(ks.get_keysym(KeyCode::from_u8(8), 0).inner, 0x61);
    assert_eq!(ks.get_keysym(KeyCode::from_u8(8), 1).inner, 0x41);
    assert_eq!(ks.get_keysym(KeyCode::from_u8(9), 0).inner, 0x62);
    assert_eq!(ks.get_keysym(KeyCode::from_u8(9), 1).inner, 0x42);
    assert_eq!(ks.get_keysym(KeyCode::from_u8(10), 0).inner, KeySym::NO_SYMBOL);
}

#[test]
fn keycodes_of_keysym() {
    let ks = key_symbols();
    let codes: Vec<u8> = ks.get_keycodes(KeySym::from_raw(0x41)).iter().map(|k| k.raw()).collect();
    assert_eq!(codes, vec![8]);
    let codes: Vec<u8> = ks.get_keycodes(KeySym::from_raw(0x42)).iter().map(|k| k.raw()).collect();
    assert_eq!(codes, vec![9]);
    assert!(ks.get_keycodes(KeySym::from_raw(0x43)).is_empty());
}

#[test]
fn xauth_entry() {
    let raw = [1, 0, 0, 3, b'a', b'b', b'c', 0, 1, b'0', 0, 2, b'M', b'I', 0, 1, 9];
    let auth = XAuth::from_bytes(&raw).unwrap();
    assert_eq!(auth.family, 256);
    assert_eq!(auth.address, b"abc".to_vec());
    assert_eq!(auth.seat, b"0".to_vec());
    assert_eq!(auth.name, b"MI".to_vec());
    assert_eq!(auth.data, vec![9]);
    let mut longer = raw.to_vec();
    longer.push(0);
    assert!(XAuth::from_bytes(&longer).is_none());
}

#[test]
fn display_variable() {
    let d = DisplayVar::parse(":1").unwrap();
    assert_eq!(d.hostname, "");
    assert_eq!(d.display_sequence, 1);
    assert_eq!(d.screen, None);
    let d = DisplayVar::parse("host:2.3").unwrap();
    assert_eq!(d.hostname, "host");
    assert_eq!(d.display_sequence, 2);
    assert_eq!(d.screen, Some(3));
    assert!(matches!(DisplayVar::parse("nocolon"), Err(Error::InvalidDisplayEnv)));
    assert!(matches!(DisplayVar::parse(":x"), Err(Error::InvalidDisplayEnv)));
}

#[test]
fn configure_notify_roundtrip() {
    let mut raw = [0u8; 32];
    raw[0] = 22;
    raw[2] = 5;
    raw[4..8].copy_from_slice(&0x10u32.to_le_bytes());
    raw[8..12].copy_from_slice(&0x20u32.to_le_bytes());
    raw[16..18].copy_from_slice(&(-3i16).to_le_bytes());
    raw[20..22].copy_from_slice(&640u16.to_le_bytes());
    raw[22..24].copy_from_slice(&480u16.to_le_bytes());
    raw[26] = 1;
    let event = ConfigureNotify::from_le_bytes(&raw).unwrap();
    assert_eq!(event.sequence_number, 5);
    assert_eq!(event.x, -3);
    assert_eq!(event.width, 640);
    assert_eq!(event.height, 480);
    assert!(event.override_redirect);
    assert_eq!(event.to_le_bytes(), raw);
}
