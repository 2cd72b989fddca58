use justshow::canvas::Vector2;
use justshow::ids::XId;
use justshow::replies::GetProperty;
use justshow::window_hints::{to_ppm, SharedMemoryId, WindowManagerHints, WindowManagerHintsFlags};
use justshow::xrandr_names::{
    has_randr_1_5, str_is, Filter, Name, NameKind, Reflection, Rotation, WidthHeight,
};

#[test]
fn ppm_of_two_pixels() {
    let img = [1, 2, 3, 255, 4, 5, 6, 255];
    let ppm = to_ppm(&img, Vector2 { x: 2, y: 1 });
    let mut expected = b"P6\n2 1\n255\n".to_vec();
    expected.extend_from_slice(&[3, 2, 1, 6, 5, 4]);
    assert_eq!(ppm, expected);
}

#[test]
fn ppm_header_of_large_image() {
    let img = vec![0u8; 12 * 10 * 4];
    let ppm = to_ppm(&img, Vector2 { x: 12, y: 10 });
    assert!(ppm.starts_with(b"P6\n12 10\n255\n"));
    assert_eq!(ppm.len(), 13 + 12 * 10 * 3);
}

#[test]
fn shared_memory_id() {
    assert_eq!(SharedMemoryId::from_raw(-7).inner(), -7);
}

#[test]
fn window_manager_hints_from_reply() {
    let words: [u32; 9] = [0x3, 1, 0xffff_fffe, 5, 6, 7, 8, 0, 9];
    let mut value = Vec::new();
    for w in words {
        value.extend_from_slice(&w.to_le_bytes());
    }
    let reply = GetProperty {
        format: 32,
        type_: justshow::ids::AtomId::unchecked_from(35),
        bytes_after: 0,
        length_of_value: 9,
        value,
    };
    let hints = WindowManagerHints::from_property_reply(&reply);
    assert!(hints.flags.has(WindowManagerHintsFlags::USER_SPECIFIED_POSITION));
    assert!(!hints.flags.has(WindowManagerHintsFlags::PROGRAM_SPECIFIED_SIZE));
    assert!(hints.input);
    assert_eq!(hints.initial_state, -2);
    assert_eq!(hints.icon_pixmap.raw(), 5);
    assert_eq!(hints.icon_x, 7);
    assert!(hints.icon_mask.value().is_none());
    assert_eq!(hints.window_group, 9);
}

#[test]
fn xrandr_words() {
    assert!(str_is("abc", "abc"));
    assert!(!str_is("abc", "ab"));
    assert_eq!(Filter::parse("nearest"), Some(Filter::Nearest));
    assert_eq!(Filter::parse("linear"), None);
    assert_eq!(Reflection::parse("xy"), Some(Reflection::XY));
    assert_eq!(Rotation::parse("2"), Some(Rotation::Left));
    assert_eq!(Rotation::parse("inverted"), Some(Rotation::Inverted));
    assert_eq!(Rotation::parse("4"), None);
    assert_eq!(WidthHeight::parse("1920x1080"), Some(WidthHeight { width: 1920, height: 1080 }));
    assert_eq!(WidthHeight::parse("1920"), None);
    assert_eq!(WidthHeight::parse("x1080"), None);
    assert!(has_randr_1_5(1, 6));
    assert!(!has_randr_1_5(1, 4));
}

#[test]
fn names_read_in_order() {
    let all = NameKind { value: NameKind::STRING | NameKind::XID | NameKind::INDEX };
    let n = Name::new("0x1f".to_string(), all);
    assert_eq!(n.xid.raw(), 0x1f);
    assert_eq!(n.kind.value, NameKind::XID);
    let n = Name::new("12".to_string(), all);
    assert_eq!(n.index, 12);
    assert_eq!(n.kind.value, NameKind::INDEX);
    let n = Name::new("HDMI-1".to_string(), all);
    assert_eq!(n.string, "HDMI-1");
    assert_eq!(n.kind.value, NameKind::STRING);
    let n = Name::new("0xzz".to_string(), all);
    assert_eq!(n.string, "0xzz");
}
