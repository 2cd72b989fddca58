//! Which events of the X server a canvas window reacts to, and as what.
use vstd::prelude::*;

use crate::bytes::{le_u32_at, spec_le_u32};
use crate::canvas::{Event, PointerButton, Vector2};
use crate::events::SomeEvent;
use crate::ids::{AtomId, WindowId, XId};

verus! {

/// A pointer coordinate in the window, kept between zero and `max`.
pub open spec fn clamp_coordinate(v: i16, max: u32) -> u32 {
    if v < 0 {
        0
    } else if v as u32 > max {
        max
    } else {
        v as u32
    }
}

fn clamp_coordinate_exec(v: i16, max: u32) -> (r: u32)
    ensures
        r == clamp_coordinate(v, max),
{
    if v < 0 {
        0
    } else {
        let res = v as u32;
        if res > max {
            max
        } else {
            res
        }
    }
}

/// The pointer button of a core button number: 1 to 3 from left to right, 4 and 5 the
/// wheel turned up and down.
pub open spec fn button_of(code: u8) -> Option<PointerButton> {
    if code == 1 {
        Some(PointerButton::Left)
    } else if code == 2 {
        Some(PointerButton::Middle)
    } else if code == 3 {
        Some(PointerButton::Right)
    } else if code == 4 {
        Some(PointerButton::ScrollUp)
    } else if code == 5 {
        Some(PointerButton::ScrollDown)
    } else {
        None
    }
}

/// The pointer button of a core button number, if it is one of the five.
pub fn pointer_button(code: u8) -> (r: Option<PointerButton>)
    ensures
        r == button_of(code),
{
    match code {
        1 => Some(PointerButton::Left),
        2 => Some(PointerButton::Middle),
        3 => Some(PointerButton::Right),
        4 => Some(PointerButton::ScrollUp),
        5 => Some(PointerButton::ScrollDown),
        _ => None,
    }
}

/// The canvas event for a server event, given the canvas's window, the `WM_DELETE_WINDOW`
/// atom and the canvas size: its resizing, the presses and releases of the pointer's
/// buttons and its motion in the window, and the window manager's request to close.
pub open spec fn spec_canvas_event(
    event: SomeEvent,
    window: WindowId,
    delete_window: AtomId,
    size: Vector2<u32>,
) -> Option<Event> {
    match event {
        SomeEvent::ConfigureNotify(e) => if e.spec_event_window() == window {
            Some(
                Event::Resize {
                    new_size: Vector2 { x: e.spec_width() as u32, y: e.spec_height() as u32 },
                },
            )
        } else {
            None
        },
        SomeEvent::ButtonPress(e) => if e.event == window.spec_raw() {
            match button_of(e.detail) {
                Some(button) => Some(Event::ButtonPress { button }),
                None => None,
            }
        } else {
            None
        },
        SomeEvent::ButtonRelease(e) => if e.event == window.spec_raw() {
            match button_of(e.detail) {
                Some(button) => Some(Event::ButtonRelease { button }),
                None => None,
            }
        } else {
            None
        },
        SomeEvent::MotionNotify(e) => if e.event == window {
            Some(
                Event::PointerMotion {
                    position: Vector2 {
                        x: clamp_coordinate(e.event_x, size.x),
                        y: clamp_coordinate(e.event_y, size.y),
                    },
                },
            )
        } else {
            None
        },
        SomeEvent::ClientMessage(e) => if spec_le_u32(e.data@, 0) == delete_window.spec_raw() {
            Some(Event::Shutdown)
        } else {
            None
        },
        _ => None,
    }
}

/// The canvas event for a server event, if the canvas reacts to it.
pub fn canvas_event(
    event: &SomeEvent,
    window: WindowId,
    delete_window: AtomId,
    size: Vector2<u32>,
) -> (r: Option<Event>)
    ensures
        r == spec_canvas_event(*event, window, delete_window, size),
{
    match event {
        SomeEvent::ConfigureNotify(e) => {
            if e.event_window().same(window) {
                Some(
                    Event::Resize {
                        new_size: Vector2 {
                            x: e.window_width() as u32,
                            y: e.window_height() as u32,
                        },
                    },
                )
            } else {
                None
            }
        },
        SomeEvent::ButtonPress(e) => {
            if e.event == window.raw() {
                match pointer_button(e.detail) {
                    Some(button) => Some(Event::ButtonPress { button }),
                    None => None,
                }
            } else {
                None
            }
        },
        SomeEvent::ButtonRelease(e) => {
            if e.event == window.raw() {
                match pointer_button(e.detail) {
                    Some(button) => Some(Event::ButtonRelease { button }),
                    None => None,
                }
            } else {
                None
            }
        },
        SomeEvent::MotionNotify(e) => {
            if e.event.same(window) {
                Some(
                    Event::PointerMotion {
                        position: Vector2 {
                            x: clamp_coordinate_exec(e.event_x, size.x),
                            y: clamp_coordinate_exec(e.event_y, size.y),
                        },
                    },
                )
            } else {
                None
            }
        },
        SomeEvent::ClientMessage(e) => {
            let val = le_u32_at(e.data.as_slice(), 0);
            if val == delete_window.raw() {
                Some(Event::Shutdown)
            } else {
                None
            }
        },
        _ => None,
    }
}

/// The canvas events for `events`, in order, leaving out those the canvas ignores.
pub open spec fn spec_canvas_events(
    events: Seq<SomeEvent>,
    window: WindowId,
    delete_window: AtomId,
    size: Vector2<u32>,
) -> Seq<Event> {
    events.filter_map(|e: SomeEvent| spec_canvas_event(e, window, delete_window, size))
}

/// The canvas events for the server events of one frame, in order.
pub fn canvas_events(
    events: &[SomeEvent],
    window: WindowId,
    delete_window: AtomId,
    size: Vector2<u32>,
) -> (r: Vec<Event>)
    ensures
        r@ == spec_canvas_events(events@, window, delete_window, size),
{
    let ghost f = |e: SomeEvent| spec_canvas_event(e, window, delete_window, size);
    let mut out: Vec<Event> = Vec::new();
    let mut i: usize = 0;
    proof {
        assert(events@.take(0) =~= Seq::<SomeEvent>::empty());
    }
    while i < events.len()
        invariant
            i <= events@.len(),
            f == (|e: SomeEvent| spec_canvas_event(e, window, delete_window, size)),
            out@ == events@.take(i as int).filter_map(f),
        decreases events@.len() - i,
    {
        let converted = canvas_event(&events[i], window, delete_window, size);
        proof {
            assert(events@.take(i + 1).drop_last() =~= events@.take(i as int));
            assert(events@.take(i + 1).last() == events@[i as int]);
        }
        match converted {
            Some(ev) => {
                out.push(ev);
            },
            None => {},
        }
        i = i + 1;
    }
    proof {
        assert(events@.take(events@.len() as int) =~= events@);
    }
    out
}

} // verus!
