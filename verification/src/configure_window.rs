//! The attributes a `ConfigureWindow` request may change, each present or not.
use vstd::prelude::*;

use crate::events::{ConfigureRequest, StackMode};
use crate::ids::{OrNone, WindowId};

verus! {

/// The `value-mask` bit of the x coordinate.
pub const CONFIGURE_X: u16 = 0x0001;
/// The `value-mask` bit of the y coordinate.
pub const CONFIGURE_Y: u16 = 0x0002;
/// The `value-mask` bit of the width.
pub const CONFIGURE_WIDTH: u16 = 0x0004;
/// The `value-mask` bit of the height.
pub const CONFIGURE_HEIGHT: u16 = 0x0008;
/// The `value-mask` bit of the border width.
pub const CONFIGURE_BORDER_WIDTH: u16 = 0x0010;
/// The `value-mask` bit of the sibling.
pub const CONFIGURE_SIBLING: u16 = 0x0020;
/// The `value-mask` bit of the stacking mode.
pub const CONFIGURE_STACK_MODE: u16 = 0x0040;

/// Whether `bit` is set in `mask`.
pub open spec fn mask_has(mask: u16, bit: u16) -> bool {
    mask & bit != 0
}

/// The attributes of a window to change; an absent one stays as it is.
#[derive(Debug, Clone, Copy, PartialEq, Eq)]
pub struct ConfigureWindowAttributes {
    pub x: Option<i16>,
    pub y: Option<i16>,
    pub width: Option<u16>,
    pub height: Option<u16>,
    pub border_width: Option<u16>,
    pub sibling: Option<OrNone<WindowId>>,
    pub stack_mode: Option<StackMode>,
}

/// `value` where `present`, else nothing.
pub open spec fn present_if<T>(present: bool, value: T) -> Option<T> {
    if present {
        Some(value)
    } else {
        None
    }
}

impl ConfigureWindowAttributes {
    /// No attribute changes.
    pub fn new() -> (r: Self)
        ensures
            r.x is None,
            r.y is None,
            r.width is None,
            r.height is None,
            r.border_width is None,
            r.sibling is None,
            r.stack_mode is None,
    {
        ConfigureWindowAttributes {
            x: None,
            y: None,
            width: None,
            height: None,
            border_width: None,
            sibling: None,
            stack_mode: None,
        }
    }

    /// Also moves the window's left edge to `x`.
    pub fn set_x(self, x: i16) -> (r: Self)
        ensures
            r == (ConfigureWindowAttributes { x: Some(x), ..self }),
    {
        ConfigureWindowAttributes { x: Some(x), ..self }
    }

    /// Also moves the window's top edge to `y`.
    pub fn set_y(self, y: i16) -> (r: Self)
        ensures
            r == (ConfigureWindowAttributes { y: Some(y), ..self }),
    {
        ConfigureWindowAttributes { y: Some(y), ..self }
    }

    /// Also makes the window `width` wide.
    pub fn set_width(self, width: u16) -> (r: Self)
        ensures
            r == (ConfigureWindowAttributes { width: Some(width), ..self }),
    {
        ConfigureWindowAttributes { width: Some(width), ..self }
    }

    /// Also makes the window `height` high.
    pub fn set_height(self, height: u16) -> (r: Self)
        ensures
            r == (ConfigureWindowAttributes { height: Some(height), ..self }),
    {
        ConfigureWindowAttributes { height: Some(height), ..self }
    }

    /// Also gives the window a border `border_width` wide.
    pub fn set_border_width(self, border_width: u16) -> (r: Self)
        ensures
            r == (ConfigureWindowAttributes { border_width: Some(border_width), ..self }),
    {
        ConfigureWindowAttributes { border_width: Some(border_width), ..self }
    }

    /// The attributes that a client asked for in a `ConfigureRequest`: those whose bit is set
    /// in the request's value mask.
    pub fn from_request(event: &ConfigureRequest) -> (r: Self)
        ensures
            r.x == present_if(mask_has(event.value_mask, CONFIGURE_X), event.x),
            r.y == present_if(mask_has(event.value_mask, CONFIGURE_Y), event.y),
            r.width == present_if(mask_has(event.value_mask, CONFIGURE_WIDTH), event.width),
            r.height == present_if(mask_has(event.value_mask, CONFIGURE_HEIGHT), event.height),
            r.border_width == present_if(
                mask_has(event.value_mask, CONFIGURE_BORDER_WIDTH),
                event.border_width,
            ),
            r.sibling == present_if(mask_has(event.value_mask, CONFIGURE_SIBLING), event.sibling),
            r.stack_mode == present_if(
                mask_has(event.value_mask, CONFIGURE_STACK_MODE),
                event.stack_mode,
            ),
    {
        let mask = event.value_mask;
        ConfigureWindowAttributes {
            x: if mask & CONFIGURE_X != 0 { Some(event.x) } else { None },
            y: if mask & CONFIGURE_Y != 0 { Some(event.y) } else { None },
            width: if mask & CONFIGURE_WIDTH != 0 { Some(event.width) } else { None },
            height: if mask & CONFIGURE_HEIGHT != 0 { Some(event.height) } else { None },
            border_width: if mask & CONFIGURE_BORDER_WIDTH != 0 {
                Some(event.border_width)
            } else {
                None
            },
            sibling: if mask & CONFIGURE_SIBLING != 0 { Some(event.sibling) } else { None },
            stack_mode: if mask & CONFIGURE_STACK_MODE != 0 {
                Some(event.stack_mode)
            } else {
                None
            },
        }
    }
}

} // verus!
