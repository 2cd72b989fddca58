use justshow::canvas::{Event, PointerButton, Vector2};
use justshow::canvas_events::{canvas_event, canvas_events, pointer_button};
use justshow::events::{
    ClientMessage, ConfigureNotify, KeyPressRelease, MotionNotify, MotionNotifyDetail, SomeEvent,
};
use justshow::ids::{AtomId, OrNone, WindowId, XId};

const WINDOW: u32 = 0x20;
const DELETE: u32 = 0x99;

fn size() -> Vector2<u32> {
    Vector2 { x: 100, y: 50 }
}

fn configure(event_window: u32, width: u16, height: u16) -> SomeEvent {
    let mut raw = [0u8; 32];
    raw[0] = 22;
    raw[4..8].copy_from_slice(&event_window.to_le_bytes());
    raw[8..12].copy_from_slice(&event_window.to_le_bytes());
    raw[20..22].copy_from_slice(&width.to_le_bytes());
    raw[22..24].copy_from_slice(&height.to_le_bytes());
    SomeEvent::ConfigureNotify(ConfigureNotify::from_le_bytes(&raw).unwrap())
}

fn button(event_window: u32, detail: u8) -> KeyPressRelease {
    KeyPressRelease {
        detail,
        time: 0,
        root: 1,
        event: event_window,
        child: OrNone::none(),
        root_x: 0,
        root_y: 0,
        event_x: 0,
        event_y: 0,
        state: 0,
        same_screen: true,
    }
}

fn motion(event_window: u32, x: i16, y: i16) -> SomeEvent {
    SomeEvent::MotionNotify(MotionNotify {
        detail: MotionNotifyDetail::Normal,
        sequence_number: 0,
        time: 0,
        root: WindowId::unchecked_from(1),
        event: WindowId::unchecked_from(event_window),
        child: OrNone::none(),
        root_x: 0,
        root_y: 0,
        event_x: x,
        event_y: y,
        state: 0,
        same_screen: true,
    })
}

fn client_message(value: u32) -> SomeEvent {
    let mut data = [0u8; 20];
    data[0..4].copy_from_slice(&value.to_le_bytes());
    SomeEvent::ClientMessage(ClientMessage {
        format: 32,
        sequence_number: 0,
        window: WindowId::unchecked_from(WINDOW),
        type_message: AtomId::unchecked_from(5),
        data,
    })
}

fn convert(e: &SomeEvent) -> Option<Event> {
    canvas_event(e, WindowId::unchecked_from(WINDOW), AtomId::unchecked_from(DELETE), size())
}

#[test]
fn button_numbers() {
    assert_eq!(pointer_button(1), Some(PointerButton::Left));
    assert_eq!(pointer_button(3), Some(PointerButton::Right));
    assert_eq!(pointer_button(5), Some(PointerButton::ScrollDown));
    assert_eq!(pointer_button(0), None);
    assert_eq!(pointer_button(6), None);
}

#[test]
fn resize_of_this_window_only() {
    assert!(matches!(
        convert(&configure(WINDOW, 640, 480)),
        Some(Event::Resize { new_size: Vector2 { x: 640, y: 480 } })
    ));
    assert!(convert(&configure(WINDOW + 1, 640, 480)).is_none());
}

#[test]
fn presses_and_releases() {
    assert!(matches!(
        convert(&SomeEvent::ButtonPress(button(WINDOW, 2))),
        Some(Event::ButtonPress { button: PointerButton::Middle })
    ));
    assert!(matches!(
        convert(&SomeEvent::ButtonRelease(button(WINDOW, 4))),
        Some(Event::ButtonRelease { button: PointerButton::ScrollUp })
    ));
    assert!(convert(&SomeEvent::ButtonPress(button(WINDOW + 1, 1))).is_none());
}

#[test]
fn motion_is_clamped_to_canvas() {
    assert!(matches!(
        convert(&motion(WINDOW, -4, 20)),
        Some(Event::PointerMotion { position: Vector2 { x: 0, y: 20 } })
    ));
    assert!(matches!(
        convert(&motion(WINDOW, 300, 70)),
        Some(Event::PointerMotion { position: Vector2 { x: 100, y: 50 } })
    ));
    assert!(convert(&motion(WINDOW + 1, 1, 1)).is_none());
}

#[test]
fn delete_window_message_shuts_down() {
    assert!(matches!(convert(&client_message(DELETE)), Some(Event::Shutdown)));
    assert!(convert(&client_message(DELETE + 1)).is_none());
}

#[test]
fn frame_events_keep_order_and_drop_the_rest() {
    let events = vec![
        motion(WINDOW, 3, 4),
        configure(WINDOW + 1, 1, 1),
        client_message(DELETE),
        SomeEvent::ButtonPress(button(WINDOW, 1)),
    ];
    let out = canvas_events(
        &events,
        WindowId::unchecked_from(WINDOW),
        AtomId::unchecked_from(DELETE),
        size(),
    );
    assert_eq!(out.len(), 3);
    assert!(matches!(out[0], Event::PointerMotion { position: Vector2 { x: 3, y: 4 } }));
    assert!(matches!(out[1], Event::Shutdown));
    assert!(matches!(out[2], Event::ButtonPress { button: PointerButton::Left }));
}
