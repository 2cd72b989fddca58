use justshow::bdf_parser::parse;
use justshow::canvas::{BitmapBackend, Canvas, Color, Event, PointerButton, Vector2};
use justshow::glyph::BdfCharMap;
use justshow::ui::{invisible_button, invisible_draggable, BoundedView, Ui, UiId};

pub const TINY_FONT: &str = "STARTFONT 2.1 FONT f SIZE 8 75 75 FONTBOUNDINGBOX 8 8 0 0 \
    STARTPROPERTIES 0 ENDPROPERTIES CHARS 2 \
    STARTCHAR A ENCODING 65 SWIDTH 1 0 DWIDTH 8 0 BBX 2 2 0 0 BITMAP 01 02 ENDCHAR \
    STARTCHAR other ENCODING 0 SWIDTH 1 0 DWIDTH 8 0 BBX 1 3 0 0 BITMAP 01 00 01 ENDCHAR ENDFONT";

fn ui(width: u32, height: u32) -> Ui {
    let font = BdfCharMap::new(parse(TINY_FONT).unwrap());
    Ui::with_canvas(Canvas::with_backend(BitmapBackend::new(Vector2 { x: width, y: height })), font)
}

fn id(n: u32) -> UiId {
    UiId { id: n, parent: 0, index: 0 }
}

fn press(ui: &mut Ui) {
    ui.canvas_mut()
        .process_events(&vec![Event::ButtonPress { button: PointerButton::Left }])
        .unwrap();
}

fn release(ui: &mut Ui) {
    ui.canvas_mut()
        .process_events(&vec![Event::ButtonRelease { button: PointerButton::Left }])
        .unwrap();
}

#[test]
fn hot_and_active() {
    let mut ui = ui(4, 4);
    assert!(ui.make_hot(id(1)));
    assert!(!ui.make_hot(id(2)));
    assert!(ui.is_hot(id(1)));
    assert!(!ui.make_active(id(2)));
    assert!(ui.make_active(id(1)));
    assert!(ui.is_active(id(1)));
    assert!(!ui.make_inactive(id(2)));
    assert!(ui.make_inactive(id(1)));
    assert!(!ui.is_hot(id(1)));
    assert!(!ui.is_active(id(1)));
}

#[test]
fn button_click_cycle() {
    let mut ui = ui(8, 8);
    let b = invisible_button(&mut ui, id(7), |_| true);
    assert!(b.got_hovered && b.is_hovered && !b.is_pressed);
    press(&mut ui);
    let b = invisible_button(&mut ui, id(7), |_| true);
    assert!(b.got_pressed && b.is_pressed && b.is_hovered);
    let b = invisible_button(&mut ui, id(7), |_| true);
    assert!(b.is_pressed && !b.got_pressed);
    release(&mut ui);
    let b = invisible_button(&mut ui, id(7), |_| true);
    assert!(b.got_released);
    assert!(!ui.is_active(id(7)));
    let b = invisible_button(&mut ui, id(7), |_| false);
    assert!(!b.got_unhovered);
}

#[test]
fn button_leaving_bounds_is_unhovered() {
    let mut ui = ui(8, 8);
    invisible_button(&mut ui, id(3), |_| true);
    let b = invisible_button(&mut ui, id(3), |_| false);
    assert!(b.got_unhovered);
    assert!(!ui.is_hot(id(3)));
}

#[test]
fn draggable_keeps_dragging_outside_bounds() {
    let mut ui = ui(8, 8);
    assert!(!invisible_draggable(&mut ui, id(1), |_| true));
    press(&mut ui);
    assert!(invisible_draggable(&mut ui, id(1), |_| true));
    assert!(invisible_draggable(&mut ui, id(1), |_| false));
    release(&mut ui);
    assert!(!invisible_draggable(&mut ui, id(1), |_| false));
    assert!(!ui.is_hot(id(1)));
}

#[test]
fn rectangle_is_clipped_and_skipped_when_clean() {
    let mut ui = ui(4, 2);
    assert!(ui.is_dirty());
    ui.rectangle(Vector2 { x: 2, y: 0 }, Vector2 { x: 10, y: 1 }, Color::from_raw(0xff010203));
    let buf = ui.canvas().raw_buf().to_vec();
    assert_eq!(&buf[8..12], &[3, 2, 1, 255]);
    assert_eq!(&buf[12..16], &[3, 2, 1, 255]);
    assert_eq!(&buf[0..8], &[0; 8]);
    ui.finish_frame();
    assert!(!ui.is_dirty());
    ui.background(Color::from_raw(0xffffffff));
    assert_eq!(ui.canvas().raw_buf().to_vec(), buf);
    ui.set_dirty();
    ui.finish_frame();
    assert!(ui.is_dirty());
}

#[test]
fn current_view_is_whole_canvas() {
    let ui = ui(5, 3);
    let view: BoundedView = ui.current_view();
    assert_eq!((view.size.x, view.size.y), (5, 3));
    assert_eq!((view.absolute_offset.x, view.absolute_offset.y), (0, 0));
    let p = ui.pointer_position();
    assert_eq!((p.x, p.y), (0, 0));
}

#[test]
fn text_size_and_drawing() {
    let mut ui = ui(16, 16);
    let size = ui.text_size(1, "AA");
    assert_eq!((size.x, size.y), (6, 2));
    let size = ui.text_size(2, "A?");
    assert_eq!((size.x, size.y), (2 * 2 + 2 * 2 + 2 * 1, 6));
    ui.text(Vector2 { x: 0, y: 0 }, 1, "A", Color::from_raw(0xffffffff));
    let buf = ui.canvas().raw_buf().to_vec();
    let pixel = |x: usize, y: usize| buf[(y * 16 + x) * 4];
    assert_eq!(pixel(8, 5), 0xff);
    assert_eq!(pixel(7, 6), 0xff);
    assert_eq!(pixel(7, 5), 0);
    assert_eq!(buf.iter().filter(|b| **b == 0xff).count(), 8);
}

#[test]
fn views_nest_and_restore() {
    let mut ui = ui(100, 80);
    let outer = ui.enter_view(Vector2 { x: 10, y: 20 }, Vector2 { x: 50, y: 200 });
    let v = ui.current_view();
    assert_eq!((v.absolute_offset.x, v.absolute_offset.y), (10, 20));
    assert_eq!((v.size.x, v.size.y), (50, 60));
    let inner = ui.enter_view(Vector2 { x: 5, y: 5 }, Vector2 { x: 100, y: 10 });
    let w = ui.current_view();
    assert_eq!((w.absolute_offset.x, w.absolute_offset.y), (15, 25));
    assert_eq!((w.size.x, w.size.y), (45, 10));
    ui.leave_view(inner);
    let back = ui.current_view();
    assert_eq!((back.absolute_offset.x, back.size.y), (10, 60));
    ui.leave_view(outer);
    let whole = ui.current_view();
    assert_eq!((whole.absolute_offset.x, whole.size.x, whole.size.y), (0, 100, 80));
}
