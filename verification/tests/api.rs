use justshow::events::{CirculateNotify, ConfigureNotify, SomeEvent};
use justshow::geometry::Drawable;
use justshow::ids::{PixmapId, ShmSegId, WindowId, XId};
use justshow::mit_shm_requests::CreatePixmap;
use justshow::pong::{pong_event, Pad, PadDirection, Player, PongEvent, V2};
use justshow::bytes::{i32_as_u32, ByteReader};
use justshow::canvas::{BitmapBackend, Canvas, Color, Vector2};
use justshow::draw::circle_replace;
use justshow::events::KeyPressRelease;
use justshow::ids::{IdAllocator, KeyCode, OrNone, ResourceId};
use justshow::keyboard::{KeyboardButton, SpecialKeyboardButton};
use justshow::keys::KeySymbols;
use justshow::keysym::KeySym;
use justshow::pong::{pong_key_bindings, KeyAction, KeyBindings};
use justshow::reply_tracking::{route_response, Response};
use justshow::replies::GetKeyboardMapping;
use justshow::xrandr_names::Name;

fn key_symbols() -> KeySymbols {
    let reply = GetKeyboardMapping {
        keysyms_per_keycode: 2,
        keysyms: vec![
            KeySym::from_raw(0x61),
            KeySym::from_raw(0x41),
            KeySym::from_raw(0x62),
            KeySym::from_raw(KeySym::NO_SYMBOL),
            KeySym::from_raw(0x61),
            KeySym::from_raw(KeySym::NO_SYMBOL),
        ],
    };
    KeySymbols::new(KeyCode::from_u8(8), KeyCode::from_u8(10), reply)
}

#[test]
fn bindings_cover_every_keycode_of_a_symbol() {
    let mut bindings = KeyBindings::new(key_symbols());
    bindings.add_binding(KeySym::from_raw(0x61), KeyAction::Quit);
    assert_eq!(bindings.get_action(KeyCode::from_u8(8)), Some(KeyAction::Quit));
    assert_eq!(bindings.get_action(KeyCode::from_u8(10)), Some(KeyAction::Quit));
    assert_eq!(bindings.get_action(KeyCode::from_u8(9)), None);
    bindings.add_binding(KeySym::from_raw(0x61), KeyAction::Restart);
    assert_eq!(bindings.get_action(KeyCode::from_u8(8)), Some(KeyAction::Restart));
}

#[test]
fn key_event_lookup_uses_event_keycode() {
    let ks = key_symbols();
    let event = KeyPressRelease {
        detail: 9,
        time: 0,
        root: 1,
        event: 2,
        child: OrNone::none(),
        root_x: 0,
        root_y: 0,
        event_x: 0,
        event_y: 0,
        state: 0,
        same_screen: true,
    };
    assert_eq!(ks.key_event_lookup_keysym(&event, 0).inner, 0x62);
}

#[test]
fn key_classes() {
    assert!(KeySymbols::is_keypad_key(KeySym::from_raw(KeySym::KP_Space)));
    assert!(!KeySymbols::is_keypad_key(KeySym::from_raw(0x61)));
    assert!(KeySymbols::is_private_keypad_key(KeySym::from_raw(0x1100_0001)));
    assert!(KeySymbols::is_cursor_key(KeySym::from_raw(KeySym::Home)));
    assert!(KeySymbols::is_pf_key(KeySym::from_raw(KeySym::KP_F1)));
    assert!(KeySymbols::is_function_key(KeySym::from_raw(KeySym::F12)));
    assert!(!KeySymbols::is_function_key(KeySym::from_raw(KeySym::Home)));
    assert!(KeySymbols::is_misc_function_key(KeySym::from_raw(KeySym::Break)));
    assert!(KeySymbols::is_modifier_key(KeySym::from_raw(KeySym::Shift_L)));
    assert!(KeySymbols::is_modifier_key(KeySym::from_raw(KeySym::Num_Lock)));
    assert!(!KeySymbols::is_modifier_key(KeySym::from_raw(0x61)));
}

#[test]
fn keyboard_buttons_from_keysyms() {
    assert_eq!(
        KeyboardButton::try_from_keysym(KeySym::from_raw(KeySym::BackSpace)),
        Ok(KeyboardButton::Special(SpecialKeyboardButton::BackSpace))
    );
    assert_eq!(
        KeyboardButton::try_from_keysym(KeySym::from_raw(0x61)),
        Ok(KeyboardButton::Unicode('a'))
    );
    assert!(KeyboardButton::try_from_keysym(KeySym::from_raw(KeySym::NO_SYMBOL)).is_err());
}

#[test]
fn ids_are_allocated_within_mask() {
    let mut ids = IdAllocator::new(0x0400_0000, 0x001f_ffff);
    assert_eq!(ids.allocate_id().value(), 0x0400_0001);
    assert_eq!(ids.allocate_id().value(), 0x0400_0002);
    let mut shifted = IdAllocator::new(0x0400_0000, 0x003f_fff0);
    assert_eq!(shifted.allocate_id().value(), 0x0400_0010);
}

#[test]
fn reader_numbers() {
    let mut r = ByteReader::new(vec![1, 0xfe, 0xff, 0xfc, 0xff, 0xff, 0xff, 0]);
    assert_eq!(r.read_bool().unwrap(), true);
    assert_eq!(r.read_le_i16().unwrap(), -2);
    assert_eq!(r.read_le_i32().unwrap(), -4);
    assert!(r.read_le_i32().is_err());
    assert_eq!(r.read_bool().unwrap(), false);
    assert!(r.read_bool().is_err());
    assert_eq!(i32_as_u32(-1), 0xffff_ffff);
    assert_eq!(i32_as_u32(5), 5);
}

#[test]
fn vectors_and_colors() {
    let v = Vector2 { x: -3, y: 4 }.clamp_non_negative();
    assert_eq!((v.x, v.y), (0, 4));
    let s = Vector2 { x: 0xffff_ffffu32, y: 7 }.as_i32();
    assert_eq!((s.x, s.y), (-1, 7));
    let c = Color::from_components(1, 2, 3, 4);
    assert_eq!((c.a, c.r, c.g, c.b), (1, 2, 3, 4));
}

#[test]
fn circle_replaces_pixels_inside() {
    let mut canvas = Canvas::with_backend(BitmapBackend::new(Vector2 { x: 8, y: 8 }));
    circle_replace(&mut canvas, Vector2 { x: 4, y: 4 }, 2, Color::from_raw(0xff112233));
    let buf = canvas.raw_buf();
    let at = |x: usize, y: usize| &buf[(y * 8 + x) * 4..(y * 8 + x) * 4 + 4];
    assert_eq!(at(4, 4), &[0x33, 0x22, 0x11, 0xff]);
    assert_eq!(at(0, 0), &[0, 0, 0, 0]);
    assert_eq!(at(6, 4), &[0, 0, 0, 0]);
}

#[test]
fn name_of_identifier() {
    let n = Name::new_xid(OrNone::new(ResourceId::from_u32(0x20)));
    assert_eq!(n.xid.raw(), 0x20);
    assert_eq!(n.index, 0);
    assert!(n.string.is_empty());
}

#[test]
fn pong_controls_follow_the_readme() {
    let reply = GetKeyboardMapping {
        keysyms_per_keycode: 1,
        keysyms: vec![
            KeySym::from_raw(KeySym::d),
            KeySym::from_raw(KeySym::f),
            KeySym::from_raw(KeySym::j),
            KeySym::from_raw(KeySym::k),
            KeySym::from_raw(KeySym::r),
            KeySym::from_raw(KeySym::q),
            KeySym::from_raw(0x61),
            KeySym::from_raw(KeySym::q),
        ],
    };
    let bindings = pong_key_bindings(KeySymbols::new(KeyCode::from_u8(10), KeyCode::from_u8(17), reply));
    assert_eq!(bindings.get_action(KeyCode::from_u8(10)), Some(KeyAction::LeftDown));
    assert_eq!(bindings.get_action(KeyCode::from_u8(11)), Some(KeyAction::LeftUp));
    assert_eq!(bindings.get_action(KeyCode::from_u8(12)), Some(KeyAction::RightDown));
    assert_eq!(bindings.get_action(KeyCode::from_u8(13)), Some(KeyAction::RightUp));
    assert_eq!(bindings.get_action(KeyCode::from_u8(14)), Some(KeyAction::Restart));
    assert_eq!(bindings.get_action(KeyCode::from_u8(15)), Some(KeyAction::Quit));
    assert_eq!(bindings.get_action(KeyCode::from_u8(16)), None);
    assert_eq!(bindings.get_action(KeyCode::from_u8(17)), Some(KeyAction::Quit));
}

#[test]
fn allocation_is_checked_before() {
    let mut ids = IdAllocator::new(0x0400_0000, 0x0000_0003);
    assert!(ids.can_allocate());
    ids.allocate_id();
    assert!(ids.can_allocate());
    assert_eq!(ids.allocate_id().value(), 0x0400_0002);
    assert!(ids.can_allocate());
    ids.allocate_id();
    assert!(!ids.can_allocate());
    assert!(!IdAllocator::new(0, 0).can_allocate());
}

#[test]
fn vector_arithmetic() {
    let a = Vector2 { x: 3i32, y: -4 };
    let b = Vector2 { x: 10i32, y: 2 };
    let s = a + b;
    let d = a - b;
    assert_eq!((s.x, s.y), (13, -2));
    assert_eq!((d.x, d.y), (-7, -6));
    let u = Vector2 { x: 5u32, y: 7 } + Vector2 { x: 1u32, y: 2 };
    let v = Vector2 { x: 5u32, y: 7 } - Vector2 { x: 1u32, y: 2 };
    assert_eq!((u.x, u.y, v.x, v.y), (6, 9, 4, 5));
}

#[test]
fn responses_are_routed_by_their_first_byte() {
    let mut bytes = vec![1u8, 0, 0x34, 0x12, 9, 9];
    let mut error = vec![0u8; 32];
    error[1] = 3;
    bytes.truncate(4);
    let mut conn = ByteReader::new(bytes);
    match route_response(&mut conn) {
        Ok(Response::Reply(seq)) => assert_eq!(seq.value(), 0x1234),
        _ => panic!("a reply was expected"),
    }
    assert_eq!(conn.len(), 3);

    let mut conn = ByteReader::new(error.clone());
    match route_response(&mut conn) {
        Ok(Response::Error { error_code, bytes }) => {
            assert_eq!(error_code, 3);
            assert_eq!(bytes, error);
        }
        _ => panic!("an error was expected"),
    }
    assert_eq!(conn.len(), 0);

    let mut event = vec![0u8; 32];
    event[0] = 17;
    event[4..8].copy_from_slice(&5u32.to_le_bytes());
    event[8..12].copy_from_slice(&6u32.to_le_bytes());
    let mut conn = ByteReader::new(event);
    assert!(matches!(route_response(&mut conn), Ok(Response::Event(_))));

    let mut conn = ByteReader::new(vec![5u8; 10]);
    assert!(route_response(&mut conn).is_err());
    assert_eq!(conn.len(), 10);
}

#[test]
fn create_pixmap_request_layout() {
    let r = CreatePixmap {
        pid: PixmapId::unchecked_from(0x11),
        drawable: Drawable::Window(WindowId::unchecked_from(0x22)),
        width: 640,
        height: 480,
        depth: 24,
        shmseg: ShmSegId::unchecked_from(0x33),
        offset: 0x44,
    };
    let buf = r.to_le_bytes();
    assert_eq!(1 + buf.len(), 4 * 7);
    assert_eq!(&buf[1..3], &7u16.to_le_bytes());
    assert_eq!(buf[15], 24);
    assert_eq!(&buf[16..19], &[0, 0, 0]);
    assert_eq!(&buf[19..23], &0x33u32.to_le_bytes());
    assert_eq!(&buf[23..27], &0x44u32.to_le_bytes());
}

#[test]
fn circulate_notify_ignores_unused_byte() {
    let mut raw = [0u8; 32];
    raw[0] = 26;
    raw[13] = 7;
    raw[16] = 1;
    assert!(CirculateNotify::from_le_bytes(&raw).is_some());
    raw[16] = 9;
    assert!(CirculateNotify::from_le_bytes(&raw).is_none());
}

#[test]
fn pong_events_drive_the_pads() {
    let reply = GetKeyboardMapping {
        keysyms_per_keycode: 1,
        keysyms: vec![KeySym::from_raw(KeySym::d), KeySym::from_raw(KeySym::q)],
    };
    let bindings = pong_key_bindings(KeySymbols::new(KeyCode::from_u8(10), KeyCode::from_u8(11), reply));
    let mut left = Pad { position: V2 { x: 0, y: 0 }, size: V2 { x: 20, y: 150 }, direction: PadDirection::Still, player: Player::Left };
    let mut right = Pad { player: Player::Right, ..left };
    let window = WindowId::unchecked_from(0x50);
    let key = |detail: u8| KeyPressRelease {
        detail,
        time: 0,
        root: 1,
        event: 0x50,
        child: OrNone::none(),
        root_x: 0,
        root_y: 0,
        event_x: 0,
        event_y: 0,
        state: 0,
        same_screen: true,
    };
    assert_eq!(pong_event(&SomeEvent::KeyPress(key(10)), &bindings, window, &mut left, &mut right), PongEvent::Continue);
    assert_eq!(left.direction, PadDirection::Down);
    assert_eq!(pong_event(&SomeEvent::KeyRelease(key(10)), &bindings, window, &mut left, &mut right), PongEvent::Continue);
    assert_eq!(left.direction, PadDirection::Still);
    assert_eq!(pong_event(&SomeEvent::KeyPress(key(11)), &bindings, window, &mut left, &mut right), PongEvent::Quit);
    assert_eq!(pong_event(&SomeEvent::KeyPress(key(12)), &bindings, window, &mut left, &mut right), PongEvent::Continue);
    let mut raw = [0u8; 32];
    raw[0] = 22;
    raw[4..8].copy_from_slice(&0x50u32.to_le_bytes());
    raw[20..22].copy_from_slice(&800u16.to_le_bytes());
    raw[22..24].copy_from_slice(&600u16.to_le_bytes());
    let configure = SomeEvent::ConfigureNotify(ConfigureNotify::from_le_bytes(&raw).unwrap());
    assert_eq!(pong_event(&configure, &bindings, window, &mut left, &mut right), PongEvent::Resize(800, 600));
    assert_eq!(pong_event(&configure, &bindings, WindowId::unchecked_from(1), &mut left, &mut right), PongEvent::Continue);
    assert_eq!(right.direction, PadDirection::Still);
}
