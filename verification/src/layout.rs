//! Tiling layouts: where a window manager places its windows in an area of the screen.
use vstd::prelude::*;

use crate::configure_window::ConfigureWindowAttributes;
use crate::draw::trunc_div;
use crate::geometry::Rectangle;
use crate::ids::WindowId;

verus! {

/// A window with the place, border width and border colour a layout gave it.
#[derive(Debug, Clone, Copy)]
pub struct PositionedWindow {
    pub window: WindowId,
    pub position: Rectangle,
    pub border_width: u16,
    pub border_color: u32,
}

impl PositionedWindow {
    /// The attributes that move and resize the window to its place and set its border width.
    pub fn to_attributes(self) -> (r: ConfigureWindowAttributes)
        ensures
            r.x == Some(self.position.x),
            r.y == Some(self.position.y),
            r.width == Some(self.position.width),
            r.height == Some(self.position.height),
            r.border_width == Some(self.border_width),
            r.sibling is None,
            r.stack_mode is None,
    {
        ConfigureWindowAttributes::new()
            .set_width(self.position.width)
            .set_height(self.position.height)
            .set_x(self.position.x)
            .set_y(self.position.y)
            .set_border_width(self.border_width)
    }
}

/// Whether `window` is the active window.
pub open spec fn is_active(active_window: Option<WindowId>, window: WindowId) -> bool {
    active_window matches Some(active) && active@ == window@
}

fn window_is_active(active_window: Option<WindowId>, window: WindowId) -> (r: bool)
    ensures
        r == is_active(active_window, window),
{
    match active_window {
        Some(active) => active.id().value() == window.id().value(),
        None => false,
    }
}

/// The border colour of a window: the active colour for the active window.
pub open spec fn border_color(
    active_window: Option<WindowId>,
    window: WindowId,
    active_border: u32,
    inactive_border: u32,
) -> u32 {
    if is_active(active_window, window) {
        active_border
    } else {
        inactive_border
    }
}

/// A way to place windows in an area.
pub trait Layout {
    /// Whether the layout can place `count` windows in `area` without arithmetic overflow.
    spec fn fits(&self, area: Rectangle, count: int) -> bool;

    /// Where the layout places `windows` in `area`.
    spec fn layout(
        &self,
        area: Rectangle,
        active_window: Option<WindowId>,
        windows: Seq<WindowId>,
    ) -> Seq<PositionedWindow>;

    /// Place `windows` in `area`.
    fn position_windows(
        &self,
        area: Rectangle,
        active_window: Option<WindowId>,
        windows: &[WindowId],
    ) -> (r: Vec<PositionedWindow>)
        requires
            self.fits(area, windows@.len() as int),
        ensures
            r@ == self.layout(area, active_window, windows@),
    ;
}

/// Whether one window with padding `pad` and border `border` fits in `area`.
pub open spec fn single_fits(border: u16, pad: u16, area: Rectangle) -> bool {
    &&& border * 2 <= u16::MAX
    &&& pad * 2 <= u16::MAX
    &&& area.width - border * 2 - pad * 2 >= 0
    &&& area.height - pad * 2 - border * 2 >= 0
    &&& i16::MIN <= (pad as i16) + area.x <= i16::MAX
    &&& i16::MIN <= (pad as i16) + area.y <= i16::MAX
}

/// The place of a window that fills `area` but for its padding and border.
pub open spec fn single_position(border: u16, pad: u16, area: Rectangle) -> Rectangle {
    Rectangle {
        width: (area.width - border * 2 - pad * 2) as u16,
        height: (area.height - pad * 2 - border * 2) as u16,
        x: ((pad as i16) + area.x) as i16,
        y: ((pad as i16) + area.y) as i16,
    }
}

/// A single window filling the whole area; further windows are not placed.
pub struct SingleWindow {
    pub border_width: u16,
    pub window_pad: u16,
    pub active_border: u32,
    pub inactive_border: u32,
}

impl Layout for SingleWindow {
    open spec fn fits(&self, area: Rectangle, count: int) -> bool {
        count > 0 ==> single_fits(self.border_width, self.window_pad, area)
    }

    open spec fn layout(
        &self,
        area: Rectangle,
        active_window: Option<WindowId>,
        windows: Seq<WindowId>,
    ) -> Seq<PositionedWindow> {
        if windows.len() == 0 {
            Seq::empty()
        } else {
            seq![
                PositionedWindow {
                    window: windows[0],
                    position: single_position(self.border_width, self.window_pad, area),
                    border_width: self.border_width,
                    border_color: border_color(
                        active_window,
                        windows[0],
                        self.active_border,
                        self.inactive_border,
                    ),
                },
            ]
        }
    }

    fn position_windows(
        &self,
        area: Rectangle,
        active_window: Option<WindowId>,
        windows: &[WindowId],
    ) -> (r: Vec<PositionedWindow>) {
        if windows.len() > 0 {
            let window = windows[0];
            let border_color = if window_is_active(active_window, window) {
                self.active_border
            } else {
                self.inactive_border
            };
            let width = area.width - self.border_width * 2 - self.window_pad * 2;
            let height = (area.height - (self.window_pad * 2)) - self.border_width * 2;
            let x = self.window_pad as i16 + area.x;
            let y = self.window_pad as i16 + area.y;
            let master_positioned = PositionedWindow {
                window,
                position: Rectangle { width, height, x, y },
                border_width: self.border_width,
                border_color,
            };
            let r = vec![master_positioned];
            assert(r@ =~= self.layout(area, active_window, windows@));
            r
        } else {
            let r = Vec::new();
            assert(r@ =~= self.layout(area, active_window, windows@));
            r
        }
    }
}

/// Half of `v`, rounded toward zero.
fn half_i16(v: i16) -> (r: i16)
    ensures
        r == trunc_div(v as int, 2),
{
    if v >= 0 {
        ((v as u16) / 2) as i16
    } else {
        let magnitude = (0 - (v as i32)) as u32;
        0 - ((magnitude / 2) as i16)
    }
}

/// The left half of `area`, widened by half the padding, for the master window.
pub open spec fn master_area(pad: u16, area: Rectangle) -> Rectangle {
    Rectangle { x: area.x, y: area.y, width: (area.width / 2 + pad / 2) as u16, height: area.height }
}

/// The right half of `area`, widened by half the padding, for the other windows.
pub open spec fn rest_area(pad: u16, area: Rectangle) -> Rectangle {
    Rectangle {
        x: (area.x + (trunc_div((area.width as i16) as int, 2) - trunc_div((pad as i16) as int, 2))) as i16,
        y: area.y,
        width: (area.width / 2 + pad / 2) as u16,
        height: area.height,
    }
}

/// Whether the right half of `area` can be computed.
pub open spec fn rest_area_fits(pad: u16, area: Rectangle) -> bool {
    i16::MIN <= area.x + (trunc_div((area.width as i16) as int, 2) - trunc_div((pad as i16) as int, 2))
        <= i16::MAX
}

/// Vertical screen split with master window on the left and rest on the right.
pub struct VerticalMasterSplit<R> {
    pub border_width: u16,
    pub window_pad: u16,
    pub active_border: u32,
    pub inactive_border: u32,
    pub right: R,
}

impl<R: Layout> VerticalMasterSplit<R> {
    /// The master window's layout.
    pub open spec fn master(&self) -> SingleWindow {
        SingleWindow {
            border_width: self.border_width,
            window_pad: self.window_pad,
            active_border: self.active_border,
            inactive_border: self.inactive_border,
        }
    }
}

impl<R: Layout> Layout for VerticalMasterSplit<R> {
    open spec fn fits(&self, area: Rectangle, count: int) -> bool {
        if count == 1 {
            single_fits(self.border_width, self.window_pad, area)
        } else if count > 1 {
            &&& single_fits(self.border_width, self.window_pad, master_area(self.window_pad, area))
            &&& rest_area_fits(self.window_pad, area)
            &&& self.right.fits(rest_area(self.window_pad, area), count - 1)
        } else {
            true
        }
    }

    open spec fn layout(
        &self,
        area: Rectangle,
        active_window: Option<WindowId>,
        windows: Seq<WindowId>,
    ) -> Seq<PositionedWindow> {
        if windows.len() == 0 {
            Seq::empty()
        } else if windows.len() == 1 {
            self.master().layout(area, active_window, windows)
        } else {
            self.master().layout(master_area(self.window_pad, area), active_window, windows.take(1))
                + self.right.layout(rest_area(self.window_pad, area), active_window, windows.drop_first())
        }
    }

    fn position_windows(
        &self,
        area: Rectangle,
        active_window: Option<WindowId>,
        windows: &[WindowId],
    ) -> (r: Vec<PositionedWindow>) {
        if windows.len() == 0 {
            return Vec::new();
        }
        let master_window = windows[0];
        let master = SingleWindow {
            border_width: self.border_width,
            window_pad: self.window_pad,
            active_border: self.active_border,
            inactive_border: self.inactive_border,
        };
        let single = [master_window];
        assert(single@ =~= windows@.take(1));
        if windows.len() == 1 {
            assert(windows@ =~= single@);
            master.position_windows(area, active_window, single.as_slice())
        } else {
            let left = master.position_windows(
                Rectangle {
                    x: area.x,
                    y: area.y,
                    width: area.width / 2 + self.window_pad / 2,
                    height: area.height,
                },
                active_window,
                single.as_slice(),
            );
            let rest_windows = vstd::slice::slice_subrange(windows, 1, windows.len());
            assert(rest_windows@ =~= windows@.drop_first());
            let right_x = area.x + (half_i16(area.width as i16) - half_i16(self.window_pad as i16));
            let right = self.right.position_windows(
                Rectangle {
                    x: right_x,
                    y: area.y,
                    width: area.width / 2 + self.window_pad / 2,
                    height: area.height,
                },
                active_window,
                rest_windows,
            );
            let mut combined = left;
            let mut right = right;
            combined.append(&mut right);
            combined
        }
    }
}


/// Windows stacked from top to bottom, sharing the height of the area.
#[derive(Clone)]
pub struct VerticalStack {
    pub border_width: u16,
    pub window_pad: u16,
    pub active_border: u32,
    pub inactive_border: u32,
}

impl VerticalStack {
    /// The height of each window but the last, for `count` windows (as a 16-bit count).
    pub open spec fn row_height(&self, area: Rectangle, count: u16) -> int {
        (area.height - self.window_pad * (count + 1)) / (count as int) - self.border_width * 2
    }

    /// The distance from one window's top to the next one's.
    pub open spec fn row_step(&self, height: u16) -> int {
        (height as i16) + 2 * (self.border_width as i16) + (self.window_pad as i16)
    }

    /// The top of window `idx`.
    pub open spec fn row_y(&self, area: Rectangle, height: u16, idx: int) -> int {
        ((self.window_pad as i16) + area.y) + (idx as i16) * (self.row_step(height) as i16)
    }

    /// The height of the last window, which takes all the space left.
    pub open spec fn last_height(&self, area: Rectangle, y: i16) -> int {
        (area.height as i16) - y + area.y - (self.border_width as i16) * 2 - (self.window_pad as i16)
    }

    /// Whether window `idx` of `count` can be placed without overflow.
    pub open spec fn row_fits(&self, area: Rectangle, count: u16, idx: int) -> bool {
        let height = self.row_height(area, count) as u16;
        let y = self.row_y(area, height, idx);
        &&& i16::MIN <= (self.window_pad as i16) + area.y <= i16::MAX
        &&& i16::MIN <= 2 * (self.border_width as i16) <= i16::MAX
        &&& i16::MIN <= (height as i16) + 2 * (self.border_width as i16) <= i16::MAX
        &&& i16::MIN <= self.row_step(height) <= i16::MAX
        &&& i16::MIN <= (idx as i16) * (self.row_step(height) as i16) <= i16::MAX
        &&& i16::MIN <= y <= i16::MAX
        &&& idx + 1 == count as int ==> {
            &&& i16::MIN <= (area.height as i16) - (y as i16) <= i16::MAX
            &&& i16::MIN <= (area.height as i16) - (y as i16) + area.y <= i16::MAX
            &&& i16::MIN <= (self.border_width as i16) * 2 <= i16::MAX
            &&& i16::MIN <= (area.height as i16) - (y as i16) + area.y - (self.border_width as i16)
                * 2 <= i16::MAX
            &&& i16::MIN <= self.last_height(area, y as i16) <= i16::MAX
        }
    }
}

impl Layout for VerticalStack {
    open spec fn fits(&self, area: Rectangle, count: int) -> bool {
        let n = count as u16;
        &&& n >= 1
        &&& self.border_width * 2 <= u16::MAX
        &&& self.window_pad * 2 <= u16::MAX
        &&& area.width - self.border_width * 2 - self.window_pad * 2 >= 0
        &&& n + 1 <= u16::MAX
        &&& self.window_pad * (n + 1) <= u16::MAX
        &&& area.height - self.window_pad * (n + 1) >= 0
        &&& self.row_height(area, n) >= 0
        &&& i16::MIN <= (self.window_pad as i16) + area.x <= i16::MAX
        &&& forall|idx: int| 0 <= idx < count ==> #[trigger] self.row_fits(area, n, idx)
    }

    open spec fn layout(
        &self,
        area: Rectangle,
        active_window: Option<WindowId>,
        windows: Seq<WindowId>,
    ) -> Seq<PositionedWindow> {
        let n = windows.len() as u16;
        let height = self.row_height(area, n) as u16;
        Seq::new(
            windows.len(),
            |idx: int|
                {
                    let y = self.row_y(area, height, idx) as i16;
                    PositionedWindow {
                        window: windows[idx],
                        position: Rectangle {
                            x: ((self.window_pad as i16) + area.x) as i16,
                            y,
                            width: (area.width - self.border_width * 2 - self.window_pad * 2) as u16,
                            height: if idx + 1 == n as int {
                                (self.last_height(area, y) as i16) as u16
                            } else {
                                height
                            },
                        },
                        border_color: border_color(
                            active_window,
                            windows[idx],
                            self.active_border,
                            self.inactive_border,
                        ),
                        border_width: self.border_width,
                    }
                },
        )
    }

    fn position_windows(
        &self,
        area: Rectangle,
        active_window: Option<WindowId>,
        windows: &[WindowId],
    ) -> (r: Vec<PositionedWindow>) {
        let window_count = windows.len() as u16;
        let x = self.window_pad as i16 + area.x;
        let width = area.width - self.border_width * 2 - self.window_pad * 2;
        let height = (area.height - (self.window_pad * (window_count + 1))) / window_count
            - self.border_width * 2;
        let mut ret: Vec<PositionedWindow> = Vec::new();
        let mut idx: usize = 0;
        while idx < windows.len()
            invariant
                self.fits(area, windows@.len() as int),
                window_count == windows@.len() as u16,
                x == (self.window_pad as i16) + area.x,
                width == area.width - self.border_width * 2 - self.window_pad * 2,
                height == self.row_height(area, window_count),
                idx <= windows@.len(),
                ret@.len() == idx,
                forall|k: int|
                    0 <= k < idx ==> #[trigger] ret@[k] == self.layout(area, active_window, windows@)[k],
            decreases windows@.len() - idx,
        {
            let window = windows[idx];
            assert(self.row_fits(area, window_count, idx as int));
            let border_color = if window_is_active(active_window, window) {
                self.active_border
            } else {
                self.inactive_border
            };
            let y = (self.window_pad as i16 * 1 + area.y) + idx as i16 * (height as i16 + 2
                * self.border_width as i16 + self.window_pad as i16);
            let effective_height = if idx + 1 == window_count as usize {
                (area.height as i16 - y + area.y - self.border_width as i16 * 2
                    - self.window_pad as i16) as u16
            } else {
                height
            };
            ret.push(
                PositionedWindow {
                    window,
                    position: Rectangle { x, y, width, height: effective_height },
                    border_color,
                    border_width: self.border_width,
                },
            );
            idx = idx + 1;
        }
        assert(ret@ =~= self.layout(area, active_window, windows@));
        ret
    }
}

} // verus!
