use justshow::configure_window::ConfigureWindowAttributes;
use justshow::events::{ConfigureRequest, StackMode};
use justshow::geometry::Rectangle;
use justshow::ids::{OrNone, WindowId, XId};
use justshow::keyboard::{KeyboardButton, SpecialKeyboardButton};
use justshow::layout::PositionedWindow;
use justshow::text_input::TextInput;

fn field(value: &str, cursor: usize) -> TextInput {
    TextInput { value: value.to_string(), cursor }
}

fn special(key: SpecialKeyboardButton) -> KeyboardButton {
    KeyboardButton::Special(key)
}

#[test]
fn typing_inserts_at_cursor() {
    let mut t = field("ac", 1);
    let dirty = t.edit(&[KeyboardButton::Unicode('b')], true);
    assert!(dirty);
    assert_eq!(t.value, "abc");
    assert_eq!(t.cursor, 2);
}

#[test]
fn backspace_removes_character_before_cursor() {
    let mut t = field("abc", 2);
    assert!(t.edit(&[special(SpecialKeyboardButton::BackSpace)], true));
    assert_eq!(t.value, "ac");
    assert_eq!(t.cursor, 1);
}

#[test]
fn backspace_at_start_changes_nothing() {
    let mut t = field("abc", 0);
    assert!(!t.edit(&[special(SpecialKeyboardButton::BackSpace)], true));
    assert_eq!(t.value, "abc");
    assert_eq!(t.cursor, 0);
}

#[test]
fn arrows_move_cursor_within_text() {
    let mut t = field("ab", 1);
    assert!(t.edit(&[special(SpecialKeyboardButton::Right), special(SpecialKeyboardButton::Right)], true));
    assert_eq!(t.cursor, 2);
    assert!(t.edit(&[special(SpecialKeyboardButton::Left); 3], true));
    assert_eq!(t.cursor, 0);
    assert_eq!(t.value, "ab");
}

#[test]
fn right_is_bounded_by_length_before_the_keys() {
    let mut t = field("", 0);
    t.edit(&[KeyboardButton::Unicode('a'), special(SpecialKeyboardButton::Right)], true);
    assert_eq!(t.value, "a");
    assert_eq!(t.cursor, 0);
}

#[test]
fn other_keys_are_ignored() {
    let mut t = field("ab", 1);
    assert!(!t.edit(&[special(SpecialKeyboardButton::Tab)], true));
    assert_eq!(t.value, "ab");
    assert_eq!(t.cursor, 1);
}

#[test]
fn without_focus_cursor_goes_to_end() {
    let mut t = field("héllo", 1);
    assert!(!t.edit(&[KeyboardButton::Unicode('x')], false));
    assert_eq!(t.value, "héllo");
    assert_eq!(t.cursor, 5);
}

#[test]
fn editing_counts_characters_not_bytes() {
    let mut t = field("héllo", 2);
    t.edit(&[special(SpecialKeyboardButton::BackSpace), KeyboardButton::Unicode('€')], true);
    assert_eq!(t.value, "h€llo");
    assert_eq!(t.cursor, 2);
}

fn configure_request(value_mask: u16) -> ConfigureRequest {
    ConfigureRequest {
        stack_mode: StackMode::Below,
        sequence_number: 7,
        parent: WindowId::unchecked_from(1),
        window: WindowId::unchecked_from(2),
        sibling: OrNone::new(WindowId::unchecked_from(3)),
        x: -5,
        y: 6,
        width: 100,
        height: 200,
        border_width: 2,
        value_mask,
    }
}

#[test]
fn configure_attributes_follow_value_mask() {
    let a = ConfigureWindowAttributes::from_request(&configure_request(0x0001 | 0x0008 | 0x0040));
    assert_eq!(a.x, Some(-5));
    assert_eq!(a.y, None);
    assert_eq!(a.width, None);
    assert_eq!(a.height, Some(200));
    assert_eq!(a.border_width, None);
    assert!(a.sibling.is_none());
    assert_eq!(a.stack_mode, Some(StackMode::Below));

    let all = ConfigureWindowAttributes::from_request(&configure_request(0x7f));
    assert_eq!(all.y, Some(6));
    assert_eq!(all.width, Some(100));
    assert_eq!(all.border_width, Some(2));
    assert_eq!(all.sibling.map(|s| s.raw()), Some(3));

    let none = ConfigureWindowAttributes::from_request(&configure_request(0));
    assert_eq!(none, ConfigureWindowAttributes::new());
}

#[test]
fn positioned_window_attributes() {
    let p = PositionedWindow {
        window: WindowId::unchecked_from(9),
        position: Rectangle { x: 10, y: -20, width: 300, height: 400 },
        border_width: 3,
        border_color: 0xff,
    };
    let a = p.to_attributes();
    assert_eq!(a.x, Some(10));
    assert_eq!(a.y, Some(-20));
    assert_eq!(a.width, Some(300));
    assert_eq!(a.height, Some(400));
    assert_eq!(a.border_width, Some(3));
    assert!(a.sibling.is_none());
    assert!(a.stack_mode.is_none());
}

#[test]
fn backspace_undoes_typing() {
    let mut t = field("xyz", 1);
    t.edit(&[KeyboardButton::Unicode('q'), special(SpecialKeyboardButton::BackSpace)], true);
    assert_eq!(t.value, "xyz");
    assert_eq!(t.cursor, 1);
}
