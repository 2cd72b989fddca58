//! An immediate-mode user interface over a canvas: which element is hot (under the
//! pointer) and which is active (being pressed or dragged), a view that clips and offsets
//! drawing, and redrawing only when something changed.
use vstd::prelude::*;

use crate::canvas::{canvas_wf, Canvas, CanvasModel, Color, Pointer, PointerButton, Vector2};
use crate::bdf::GlyphModel;
use crate::glyph::{glyph_bdf, glyph_covers, glyph_fits, glyph_index, padded, BdfCharMap};
use vstd::std_specs::iter::IteratorSpec;
use crate::draw::{
    among_dashes, among_points, blend_pixels, fill_pixels, in_rectangle, line_fits, line_points,
    rectangle_blend, rectangle_fits, rectangle_replace, thin_dashed_line, thin_line,
};

verus! {

/// The identity of an element of the interface.
#[derive(Debug, Clone, Copy, PartialEq, Eq, Structural, PartialOrd, Ord)]
pub struct UiId {
    pub id: u32,
    pub parent: u32,
    pub index: u32,
}

/// A region of the canvas: where it starts and how large it is.
#[derive(Debug, Clone, Copy)]
pub struct BoundedView {
    pub absolute_offset: Vector2<u32>,
    pub size: Vector2<u32>,
}

/// What an invisible button saw in this frame.
#[derive(Debug, Clone, Copy, PartialEq, Eq, Structural)]
pub struct Button {
    pub is_hovered: bool,
    pub is_pressed: bool,
    pub got_pressed: bool,
    pub got_hovered: bool,
    pub got_unhovered: bool,
    pub got_released: bool,
}

/// What a user interface is.
pub struct UiModel {
    pub canvas: CanvasModel,
    pub hot: Option<UiId>,
    pub active: Option<UiId>,
    pub dirty: bool,
    pub dirty_next: bool,
    pub view: Option<BoundedView>,
}

/// The part of `outer` at `position` of `size`, cut at the end of `outer`.
pub open spec fn inner_view(outer: BoundedView, position: Vector2<u32>, size: Vector2<u32>) -> BoundedView {
    BoundedView {
        absolute_offset: Vector2 {
            x: (position.x + outer.absolute_offset.x) as u32,
            y: (position.y + outer.absolute_offset.y) as u32,
        },
        size: Vector2 {
            x: if size.x < outer.size.x - position.x { size.x } else { (outer.size.x - position.x) as u32 },
            y: if size.y < outer.size.y - position.y { size.y } else { (outer.size.y - position.y) as u32 },
        },
    }
}

/// Leaving a view entered from the model `m` gives `m` back.
pub proof fn lemma_view_restored(m: UiModel, position: Vector2<u32>, size: Vector2<u32>)
    ensures
        (UiModel { view: m.view, ..(UiModel { view: Some(inner_view(current_view_of(m), position, size)), ..m }) }) == m,
{
}

/// Whether an active element is always the hot one, and the canvas is well formed.
pub open spec fn ui_wf(m: UiModel) -> bool {
    &&& canvas_wf(m.canvas)
    &&& (m.active is Some ==> m.hot == m.active)
}

/// The view drawing happens in: the bounded view, or the whole canvas.
pub open spec fn current_view_of(m: UiModel) -> BoundedView {
    match m.view {
        Some(v) => v,
        None => BoundedView { absolute_offset: Vector2 { x: 0, y: 0 }, size: m.canvas.size },
    }
}

/// Whether the canvas has to be drawn in this frame.
pub open spec fn dirty_of(m: UiModel) -> bool {
    m.canvas.resized || m.dirty
}

/// `v` reinterpreted as signed coordinates.
pub open spec fn signed(v: Vector2<u32>) -> Vector2<i32> {
    Vector2 { x: v.x as i32, y: v.y as i32 }
}

/// Whether the pointer position relative to the view can be computed.
pub open spec fn pointer_fits(m: UiModel) -> bool {
    let p = signed(m.canvas.pointer.position);
    let o = signed(current_view_of(m).absolute_offset);
    &&& i32::MIN <= p.x - o.x <= i32::MAX
    &&& i32::MIN <= p.y - o.y <= i32::MAX
}

/// The pointer position relative to the view, negative coordinates taken as zero.
pub open spec fn pointer_position_of(m: UiModel) -> Vector2<u32> {
    let p = signed(m.canvas.pointer.position);
    let o = signed(current_view_of(m).absolute_offset);
    let x = p.x - o.x;
    let y = p.y - o.y;
    Vector2 { x: (if x < 0 { 0 } else { x }) as u32, y: (if y < 0 { 0 } else { y }) as u32 }
}

/// `a + b`, where it fits.
pub open spec fn sum_fits(a: Vector2<i32>, b: Vector2<i32>) -> bool {
    &&& i32::MIN <= a.x + b.x <= i32::MAX
    &&& i32::MIN <= a.y + b.y <= i32::MAX
}

/// The sum of two points.
pub open spec fn sum(a: Vector2<i32>, b: Vector2<i32>) -> Vector2<i32> {
    Vector2 { x: (a.x + b.x) as i32, y: (a.y + b.y) as i32 }
}

/// `size` cut so that, from `position`, it ends at the edge of a view of `view` size.
pub open spec fn clip(position: Vector2<i32>, size: Vector2<u32>, view: Vector2<u32>) -> Vector2<u32> {
    let wx = view.x as i32 - position.x;
    let wy = view.y as i32 - position.y;
    let sx = size.x as i32;
    let sy = size.y as i32;
    Vector2 { x: (if sx < wx { sx as int } else { wx }) as u32, y: (if sy < wy { sy as int } else { wy }) as u32 }
}

/// Whether clipping a rectangle at `position` to a view of `view` size can be computed.
pub open spec fn clip_fits(position: Vector2<i32>, view: Vector2<u32>) -> bool {
    &&& i32::MIN <= view.x as i32 - position.x <= i32::MAX
    &&& i32::MIN <= view.y as i32 - position.y <= i32::MAX
}

/// The canvas with the rectangle at `position` of `size` painted in `color`: replaced where
/// the colour is opaque, laid over otherwise.
pub open spec fn painted(m: CanvasModel, position: Vector2<i32>, size: Vector2<u32>, color: Color) -> CanvasModel {
    if color.a == 255 {
        CanvasModel {
            buf: fill_pixels(m.buf, m.size, |x: int, y: int| in_rectangle(position, size, x, y), color),
            ..m
        }
    } else {
        CanvasModel {
            buf: blend_pixels(m.buf, m.size, |x: int, y: int| in_rectangle(position, size, x, y), color),
            ..m
        }
    }
}

/// Whether drawing the rectangle at `position` of `size` in the current view can be
/// computed.
pub open spec fn ui_rectangle_fits(m: UiModel, position: Vector2<i32>, size: Vector2<u32>) -> bool {
    let v = current_view_of(m);
    &&& sum_fits(position, signed(v.absolute_offset))
    &&& clip_fits(position, v.size)
    &&& rectangle_fits(sum(position, signed(v.absolute_offset)), clip(position, size, v.size))
}

/// The user interface after drawing the rectangle at `position` of `size`, in view
/// coordinates: nothing happens in a frame that needs no drawing.
pub open spec fn ui_rectangle(m: UiModel, position: Vector2<i32>, size: Vector2<u32>, color: Color) -> UiModel {
    if dirty_of(m) {
        let v = current_view_of(m);
        UiModel {
            canvas: painted(m.canvas, sum(position, signed(v.absolute_offset)), clip(position, size, v.size), color),
            ..m
        }
    } else {
        m
    }
}

/// An element after `make_inactive`: neither hot nor active any more.
pub open spec fn inactive_state(m: UiModel, id: UiId) -> UiModel {
    UiModel {
        hot: if m.hot == Some(id) { None } else { m.hot },
        active: if m.active == Some(id) { None } else { m.active },
        ..m
    }
}

/// The hot element after `make_hot`: `id`, unless another element is hot.
pub open spec fn hot_state(m: UiModel, id: UiId) -> UiModel {
    UiModel { hot: if m.hot is None { Some(id) } else { m.hot }, ..m }
}

/// The active element after `make_active`: `id`, where it is hot.
pub open spec fn active_state(m: UiModel, id: UiId) -> UiModel {
    UiModel { active: if m.hot == Some(id) { Some(id) } else { m.active }, ..m }
}

/// The outcome of an invisible button `id` in this frame, given whether the left button is
/// held and whether the pointer is within the button's bounds: what the button saw, and the
/// user interface after it.
pub open spec fn button_step(m: UiModel, id: UiId, pressed: bool, in_bounds: bool) -> (Button, UiModel) {
    let none = Button {
        is_hovered: false,
        is_pressed: false,
        got_pressed: false,
        got_hovered: false,
        got_unhovered: false,
        got_released: false,
    };
    if in_bounds {
        let (b1, m1) = if m.hot == Some(id) {
            (Button { is_hovered: true, ..none }, m)
        } else if !pressed {
            let got = m.hot is None;
            (Button { got_hovered: got, is_hovered: got, ..none }, hot_state(m, id))
        } else {
            (none, m)
        };
        if pressed && m1.hot == Some(id) && m1.active != Some(id) {
            (Button { got_pressed: true, is_pressed: true, ..b1 }, active_state(m1, id))
        } else if pressed && m1.active == Some(id) {
            (Button { is_pressed: true, ..b1 }, m1)
        } else if !pressed && m1.active == Some(id) {
            (Button { got_released: true, ..b1 }, inactive_state(m1, id))
        } else {
            (b1, m1)
        }
    } else {
        (Button { got_unhovered: m.hot == Some(id) || m.active == Some(id), ..none }, inactive_state(m, id))
    }
}

/// The outcome of an invisible draggable element `id` in this frame: whether it is being
/// dragged, and the user interface after it.
pub open spec fn draggable_step(m: UiModel, id: UiId, pressed: bool, in_bounds: bool) -> (bool, UiModel) {
    if in_bounds {
        if m.hot != Some(id) && pressed {
            (false, m)
        } else {
            let m1 = hot_state(m, id);
            if pressed {
                (true, active_state(m1, id))
            } else {
                (false, m1)
            }
        }
    } else if m.active == Some(id) && pressed {
        (true, m)
    } else {
        (false, inactive_state(m, id))
    }
}

/// An immediate-mode user interface drawing on a canvas.
pub struct Ui {
    canvas: Canvas,
    font_char_map: BdfCharMap,
    hot: Option<UiId>,
    active: Option<UiId>,
    dirty: bool,
    dirty_next: bool,
    view: Option<BoundedView>,
}

impl View for Ui {
    type V = UiModel;

    closed spec fn view(&self) -> UiModel {
        UiModel {
            canvas: self.canvas@,
            hot: self.hot,
            active: self.active,
            dirty: self.dirty,
            dirty_next: self.dirty_next,
            view: self.view,
        }
    }
}

fn offset_by(a: Vector2<i32>, b: Vector2<i32>) -> (r: Vector2<i32>)
    requires
        sum_fits(a, b),
    ensures
        r == sum(a, b),
{
    a + b
}

fn as_signed(v: Vector2<u32>) -> (r: Vector2<i32>)
    ensures
        r == signed(v),
{
    Vector2 { x: v.x as i32, y: v.y as i32 }
}

impl Ui {
    /// The glyphs text is drawn with.
    pub closed spec fn spec_font(&self) -> Seq<GlyphModel> {
        self.font_char_map.spec_glyphs()
    }

    /// The character map is well formed.
    pub closed spec fn font_wf(&self) -> bool {
        self.font_char_map.wf()
    }

    /// A user interface on `canvas` that writes with the glyphs of `font_char_map`, with no
    /// hot or active element, to be drawn in the first frame.
    pub fn with_canvas(canvas: Canvas, font_char_map: BdfCharMap) -> (r: Self)
        requires
            font_char_map.wf(),
        ensures
            r.font_wf(),
            r.spec_font() == font_char_map.spec_glyphs(),
            r@ == (UiModel {
                canvas: canvas@,
                hot: None,
                active: None,
                dirty: true,
                dirty_next: false,
                view: None,
            }),
    {
        Self { canvas, font_char_map, hot: None, active: None, dirty: true, dirty_next: false, view: None }
    }

    /// Makes `id` neither hot nor active; returns `true` if it was one of them.
    pub fn make_inactive(&mut self, id: UiId) -> (r: bool)
        ensures
            final(self).spec_font() == old(self).spec_font(),
            final(self).font_wf() == old(self).font_wf(),
            r == (old(self)@.hot == Some(id) || old(self)@.active == Some(id)),
            final(self)@ == inactive_state(old(self)@, id),
            ui_wf(old(self)@) ==> ui_wf(final(self)@),
    {
        let mut res = false;
        match self.hot {
            Some(hot) => {
                if hot == id {
                    self.hot = None;
                    res = true;
                }
            },
            None => {},
        }
        match self.active {
            Some(active) => {
                if active == id {
                    self.active = None;
                    res = true;
                }
            },
            None => {},
        }
        res
    }

    /// Makes `id` hot if no element is; returns whether it did.
    pub fn make_hot(&mut self, id: UiId) -> (r: bool)
        ensures
            final(self).spec_font() == old(self).spec_font(),
            final(self).font_wf() == old(self).font_wf(),
            r == old(self)@.hot is None,
            final(self)@ == hot_state(old(self)@, id),
            ui_wf(old(self)@) ==> ui_wf(final(self)@),
    {
        match self.hot {
            None => {
                self.hot = Some(id);
                true
            },
            _ => false,
        }
    }

    /// Makes `id` active if it is hot; returns whether it did.
    pub fn make_active(&mut self, id: UiId) -> (r: bool)
        ensures
            final(self).spec_font() == old(self).spec_font(),
            final(self).font_wf() == old(self).font_wf(),
            r == (old(self)@.hot == Some(id)),
            final(self)@ == active_state(old(self)@, id),
            ui_wf(old(self)@) ==> ui_wf(final(self)@),
    {
        match self.hot {
            Some(hot) => {
                if hot == id {
                    self.active = Some(id);
                    true
                } else {
                    false
                }
            },
            None => false,
        }
    }

    /// Whether `id` is hot.
    pub fn is_hot(&self, id: UiId) -> (r: bool)
        ensures
            r == (self@.hot == Some(id)),
    {
        match self.hot {
            Some(hot) => hot == id,
            None => false,
        }
    }

    /// Whether `id` is active.
    pub fn is_active(&self, id: UiId) -> (r: bool)
        ensures
            r == (self@.active == Some(id)),
    {
        match self.active {
            Some(active) => active == id,
            None => false,
        }
    }

    /// Whether this frame has to be drawn: the canvas was resized, or the last frame asked.
    pub fn is_dirty(&self) -> (r: bool)
        ensures
            r == dirty_of(self@),
    {
        self.canvas.resized() || self.dirty
    }

    /// Asks for the next frame to be drawn.
    pub fn set_dirty(&mut self)
        ensures
            final(self).spec_font() == old(self).spec_font(),
            final(self).font_wf() == old(self).font_wf(),
            final(self)@ == (UiModel { dirty_next: true, ..old(self)@ }),
    {
        self.dirty_next = true;
    }

    /// Ends a frame: the next one is drawn where this one asked for it.
    pub fn finish_frame(&mut self)
        ensures
            final(self).spec_font() == old(self).spec_font(),
            final(self).font_wf() == old(self).font_wf(),
            final(self)@ == (UiModel { dirty: old(self)@.dirty_next, dirty_next: false, ..old(self)@ }),
    {
        self.dirty = self.dirty_next;
        self.dirty_next = false;
    }

    /// The canvas.
    pub fn canvas(&self) -> (r: &Canvas)
        ensures
            r@ == self@.canvas,
    {
        &self.canvas
    }

    /// The canvas, to change it (such as by its events).
    pub fn canvas_mut(&mut self) -> (r: &mut Canvas)
        ensures
            final(self).spec_font() == old(self).spec_font(),
            final(self).font_wf() == old(self).font_wf(),
            r@ == old(self)@.canvas,
            final(self)@ == (UiModel { canvas: final(r)@, ..old(self)@ }),
    {
        &mut self.canvas
    }

    /// The view drawing happens in.
    pub fn current_view(&self) -> (r: BoundedView)
        ensures
            r == current_view_of(self@),
    {
        match self.view {
            Some(v) => v,
            None => BoundedView {
                absolute_offset: Vector2 { x: 0, y: 0 },
                size: self.canvas.window_size(),
            },
        }
    }

    /// Starts drawing in the part of the current view at `position` of `size`, cut at the
    /// end of the current view; coordinates are then taken from its corner. Returns the view
    /// to go back to with `leave_view`. Drawing inside a view, between the two calls, is what
    /// a view is for.
    pub fn enter_view(&mut self, position: Vector2<u32>, size: Vector2<u32>) -> (previous: Option<
        BoundedView,
    >)
        requires
            position.x <= current_view_of(old(self)@).size.x,
            position.y <= current_view_of(old(self)@).size.y,
            position.x + current_view_of(old(self)@).absolute_offset.x <= u32::MAX,
            position.y + current_view_of(old(self)@).absolute_offset.y <= u32::MAX,
        ensures
            previous == old(self)@.view,
            final(self).spec_font() == old(self).spec_font(),
            final(self).font_wf() == old(self).font_wf(),
            final(self)@ == (UiModel { view: Some(inner_view(current_view_of(old(self)@), position, size)), ..old(self)@ }),
    {
        let previous = self.view;
        let current = self.current_view();
        let room_x = current.size.x - position.x;
        let room_y = current.size.y - position.y;
        let inner = BoundedView {
            absolute_offset: Vector2 {
                x: position.x + current.absolute_offset.x,
                y: position.y + current.absolute_offset.y,
            },
            size: Vector2 {
                x: if size.x < room_x { size.x } else { room_x },
                y: if size.y < room_y { size.y } else { room_y },
            },
        };
        self.view = Some(inner);
        previous
    }

    /// Goes back to the view `previous` that `enter_view` returned.
    pub fn leave_view(&mut self, previous: Option<BoundedView>)
        ensures
            final(self).spec_font() == old(self).spec_font(),
            final(self).font_wf() == old(self).font_wf(),
            final(self)@ == (UiModel { view: previous, ..old(self)@ }),
    {
        self.view = previous;
    }

    /// The pointer, with its position on the whole canvas.
    pub fn pointer_absolute(&self) -> (r: &Pointer)
        ensures
            r@ == self@.canvas.pointer,
    {
        self.canvas.pointer()
    }

    /// The pointer position relative to the current view.
    pub fn pointer_position(&self) -> (r: Vector2<u32>)
        requires
            pointer_fits(self@),
        ensures
            r == pointer_position_of(self@),
    {
        let p = as_signed(self.canvas.pointer().position());
        let o = as_signed(self.current_view().absolute_offset);
        let x = p.x - o.x;
        let y = p.y - o.y;
        let x = if x < 0 {
            0
        } else {
            x
        };
        let y = if y < 0 {
            0
        } else {
            y
        };
        Vector2 { x: x as u32, y: y as u32 }
    }

    /// Whether the canvas was resized in this frame.
    pub fn resized(&self) -> (r: bool)
        ensures
            r == self@.canvas.resized,
    {
        self.canvas.resized()
    }

    /// Paints the rectangle at `position` of `size`, in view coordinates, cut at the end of
    /// the view; nothing is drawn in a frame that needs no drawing.
    pub fn rectangle(&mut self, position: Vector2<i32>, size: Vector2<u32>, color: Color)
        requires
            ui_wf(old(self)@),
            dirty_of(old(self)@) ==> ui_rectangle_fits(old(self)@, position, size),
        ensures
            final(self).spec_font() == old(self).spec_font(),
            final(self).font_wf() == old(self).font_wf(),
            final(self)@ == ui_rectangle(old(self)@, position, size, color),
            ui_wf(final(self)@),
    {
        if !self.is_dirty() {
            return;
        }
        let view = self.current_view();
        let absolute_position = offset_by(position, as_signed(view.absolute_offset));
        let wx = view.size.x as i32 - position.x;
        let wy = view.size.y as i32 - position.y;
        let sx = size.x as i32;
        let sy = size.y as i32;
        let clipped = Vector2 {
            x: (if sx < wx {
                sx
            } else {
                wx
            }) as u32,
            y: (if sy < wy {
                sy
            } else {
                wy
            }) as u32,
        };
        if color.a == 255 {
            rectangle_replace(&mut self.canvas, absolute_position, clipped, color);
        } else {
            rectangle_blend(&mut self.canvas, absolute_position, clipped, color);
        }
    }

    /// Paints the whole current view.
    pub fn background(&mut self, color: Color)
        requires
            ui_wf(old(self)@),
            dirty_of(old(self)@) ==> ui_rectangle_fits(old(self)@, Vector2 { x: 0, y: 0 }, current_view_of(old(self)@).size),
        ensures
            final(self).spec_font() == old(self).spec_font(),
            final(self).font_wf() == old(self).font_wf(),
            final(self)@ == ui_rectangle(old(self)@, Vector2 { x: 0, y: 0 }, current_view_of(old(self)@).size, color),
            ui_wf(final(self)@),
    {
        let view = self.current_view();
        self.rectangle(Vector2 { x: 0, y: 0 }, view.size, color)
    }

    /// Draws the line from `start` to `end`, in view coordinates; nothing is drawn in a
    /// frame that needs no drawing.
    pub fn thin_line(&mut self, start: Vector2<i32>, end: Vector2<i32>, color: Color)
        requires
            ui_wf(old(self)@),
            dirty_of(old(self)@) ==> {
                let o = signed(current_view_of(old(self)@).absolute_offset);
                &&& sum_fits(start, o)
                &&& sum_fits(end, o)
                &&& line_fits(sum(start, o), sum(end, o))
            },
        ensures
            final(self).spec_font() == old(self).spec_font(),
            final(self).font_wf() == old(self).font_wf(),
            ui_wf(final(self)@),
            final(self)@ == (if dirty_of(old(self)@) {
                let o = signed(current_view_of(old(self)@).absolute_offset);
                let points = line_points(sum(start, o), sum(end, o));
                UiModel {
                    canvas: CanvasModel {
                        buf: fill_pixels(
                            old(self)@.canvas.buf,
                            old(self)@.canvas.size,
                            |x: int, y: int| among_points(points, points.len() as int, x, y),
                            color,
                        ),
                        ..old(self)@.canvas
                    },
                    ..old(self)@
                }
            } else {
                old(self)@
            }),
    {
        if !self.is_dirty() {
            return;
        }
        let off = as_signed(self.current_view().absolute_offset);
        thin_line(&mut self.canvas, offset_by(start, off), offset_by(end, off), color);
    }

    /// Draws the line from `start` to `end` in dashes, in view coordinates; nothing is drawn
    /// in a frame that needs no drawing.
    pub fn thin_dashed_line(&mut self, start: Vector2<i32>, end: Vector2<i32>, color: Color)
        requires
            ui_wf(old(self)@),
            dirty_of(old(self)@) ==> {
                let o = signed(current_view_of(old(self)@).absolute_offset);
                &&& sum_fits(start, o)
                &&& sum_fits(end, o)
                &&& line_fits(sum(start, o), sum(end, o))
            },
        ensures
            final(self).spec_font() == old(self).spec_font(),
            final(self).font_wf() == old(self).font_wf(),
            ui_wf(final(self)@),
            final(self)@ == (if dirty_of(old(self)@) {
                let o = signed(current_view_of(old(self)@).absolute_offset);
                let points = line_points(sum(start, o), sum(end, o));
                UiModel {
                    canvas: CanvasModel {
                        buf: fill_pixels(
                            old(self)@.canvas.buf,
                            old(self)@.canvas.size,
                            |x: int, y: int| among_dashes(points, points.len() as int, x, y),
                            color,
                        ),
                        ..old(self)@.canvas
                    },
                    ..old(self)@
                }
            } else {
                old(self)@
            }),
    {
        if !self.is_dirty() {
            return;
        }
        let off = as_signed(self.current_view().absolute_offset);
        thin_dashed_line(&mut self.canvas, offset_by(start, off), offset_by(end, off), color);
    }

    /// The size of `text` written at `font_size`.
    pub fn text_size(&self, font_size: u32, text: &str) -> (r: Vector2<u32>)
        requires
            self.font_wf(),
            text_size_fits(self.spec_font(), font_size, text@),
        ensures
            r.x == text_size_x(self.spec_font(), font_size, text@),
            r.y == text_size_y(self.spec_font(), font_size, text@),
    {
        proof {
            broadcast use vstd::string::group_string_axioms;
        }
        let ghost gs = self.spec_font();
        let mut size = Vector2 { x: 0u32, y: 0u32 };
        let mut it = text.chars();
        let mut first = true;
        let ghost mut idx: int = 0;
        assert(text@.take(0) =~= Seq::<char>::empty());
        loop
            invariant
                self.font_wf(),
                gs == self.spec_font(),
                0 <= idx <= text@.len(),
                first == (idx == 0),
                it.remaining() == text@.skip(idx),
                size.x == text_size_x(gs, font_size, text@.take(idx)),
                size.y == text_size_y(gs, font_size, text@.take(idx)),
                text_size_fits(gs, font_size, text@),
            decreases text@.len() - idx,
        {
            let next = it.next();
            proof {
                broadcast use vstd::string::next_postcondition;
            }
            match next {
                None => {
                    assert(text@.skip(idx).len() == 0);
                    assert(text@.take(idx) =~= text@);
                    return size;
                },
                Some(c) => {
                    let glyph = self.font_char_map.get(c);
                    let ghost t = text@.take(idx + 1);
                    proof {
                        assert(t.drop_last() =~= text@.take(idx));
                        assert(t.last() == c);
                        assert(text@[idx] == c);
                        assert(text_size_x(gs, font_size, t) <= u32::MAX);
                        assert(font_size * glyph.bounding_box.width >= 0) by (nonlinear_arith);
                        assert(font_size * glyph.bounding_box.height <= u32::MAX);
                        assert(it.remaining() =~= text@.skip(idx + 1));
                    }
                    if !first {
                        size.x = size.x + font_size * 2;
                    }
                    size.x = size.x + font_size * glyph.bounding_box.width;
                    let h = font_size * glyph.bounding_box.height;
                    if size.y < h {
                        size.y = h;
                    }
                    first = false;
                    proof {
                        idx = idx + 1;
                    }
                },
            }
        }
    }

    /// Writes `text` from `start` at `size` in `color`, one glyph after the other.
    pub fn text(&mut self, start: Vector2<i32>, size: u32, text: &str, color: Color)
        requires
            ui_wf(old(self)@),
            old(self).font_wf(),
            text_fits(old(self).spec_font(), start, size, text@),
        ensures
            final(self).spec_font() == old(self).spec_font(),
            final(self).font_wf(),
            ui_wf(final(self)@),
            final(self)@ == (UiModel {
                canvas: text_drawn(old(self)@.canvas, old(self).spec_font(), start, size, text@, color),
                ..old(self)@
            }),
    {
        proof {
            broadcast use vstd::string::group_string_axioms;
        }
        let ghost gs = self.spec_font();
        let ghost m0 = self@;
        let ghost p0 = start;
        let mut position = start;
        let mut it = text.chars();
        let ghost mut n: int = 0;
        assert(text@.skip(0) =~= text@);
        loop
            invariant
                self.font_wf(),
                gs == self.spec_font(),
                ui_wf(self@),
                0 <= n <= text@.len(),
                it.remaining() == text@.skip(n),
                self@ == (UiModel { canvas: self@.canvas, ..m0 }),
                text_fits(gs, position, size, text@.skip(n)),
                gs == old(self).spec_font(),
                m0 == old(self)@,
                text_drawn(self@.canvas, gs, position, size, text@.skip(n), color) == text_drawn(
                    m0.canvas,
                    gs,
                    p0,
                    size,
                    text@,
                    color,
                ),
                p0 == start,
            decreases text@.len() - n,
        {
            let next = it.next();
            proof {
                broadcast use vstd::string::next_postcondition;
            }
            match next {
                None => {
                    assert(text@.skip(n).len() == 0);
                    return;
                },
                Some(c) => {
                    let glyph = self.font_char_map.get(c);
                    proof {
                        assert(text@.skip(n)[0] == c);
                        assert(text@.skip(n).drop_first() =~= text@.skip(n + 1));
                        assert(it.remaining() =~= text@.skip(n + 1));
                        assert(size * glyph.bounding_box.width >= 0) by (nonlinear_arith);
                    }
                    glyph_bdf(&mut self.canvas, position, size, glyph, color);
                    position.x = position.x + (size * glyph.bounding_box.width + size * 2) as i32;
                    proof {
                        n = n + 1;
                    }
                },
            }
        }
    }
}

/// The glyph of character `c` among `glyphs`.
pub open spec fn glyph_of(glyphs: Seq<GlyphModel>, c: char) -> GlyphModel {
    glyphs[glyph_index(glyphs, c as u32)]
}

/// The width of `text` written at `font_size`: each glyph's width times the size, with twice
/// the size between glyphs.
pub open spec fn text_size_x(glyphs: Seq<GlyphModel>, font_size: u32, text: Seq<char>) -> int
    decreases text.len(),
{
    if text.len() == 0 {
        0
    } else {
        text_size_x(glyphs, font_size, text.drop_last()) + (if text.len() > 1 {
            font_size * 2
        } else {
            0
        }) + font_size * glyph_of(glyphs, text.last()).bounding_box.width
    }
}

/// The height of `text` written at `font_size`: the tallest glyph's height times the size.
pub open spec fn text_size_y(glyphs: Seq<GlyphModel>, font_size: u32, text: Seq<char>) -> int
    decreases text.len(),
{
    if text.len() == 0 {
        0
    } else {
        let h = font_size * glyph_of(glyphs, text.last()).bounding_box.height;
        let rest = text_size_y(glyphs, font_size, text.drop_last());
        if rest < h {
            h
        } else {
            rest
        }
    }
}

/// Whether the size of `text` can be computed.
pub open spec fn text_size_fits(glyphs: Seq<GlyphModel>, font_size: u32, text: Seq<char>) -> bool {
    &&& forall|n: int| 0 <= n <= text.len() ==> #[trigger] text_size_x(glyphs, font_size, text.take(n)) <= u32::MAX
    &&& forall|i: int|
        0 <= i < text.len() ==> font_size * (#[trigger] glyph_of(glyphs, text[i])).bounding_box.height <= u32::MAX
}

/// How far the pen moves after a glyph: its width times the size, plus twice the size.
pub open spec fn advance(g: GlyphModel, size: u32) -> int {
    size * g.bounding_box.width + size * 2
}

/// The canvas after writing `text` from `position` at `size` in `color`, one glyph after
/// the other.
pub open spec fn text_drawn(
    m: CanvasModel,
    glyphs: Seq<GlyphModel>,
    position: Vector2<i32>,
    size: u32,
    text: Seq<char>,
    color: Color,
) -> CanvasModel
    decreases text.len(),
{
    if text.len() == 0 {
        m
    } else {
        let g = glyph_of(glyphs, text[0]);
        let m1 = CanvasModel {
            buf: fill_pixels(
                m.buf,
                m.size,
                |x: int, y: int| glyph_covers(position, size, g, g.bounding_box.height * padded(g.bounding_box.width), x, y),
                color,
            ),
            ..m
        };
        text_drawn(
            m1,
            glyphs,
            Vector2 { x: (position.x + (advance(g, size) as u32 as i32)) as i32, ..position },
            size,
            text.drop_first(),
            color,
        )
    }
}

/// Whether writing `text` from `position` at `size` can be computed: each glyph fits where
/// it is drawn, and the pen can move on after it.
pub open spec fn text_fits(glyphs: Seq<GlyphModel>, position: Vector2<i32>, size: u32, text: Seq<char>) -> bool
    decreases text.len(),
{
    if text.len() == 0 {
        true
    } else {
        let g = glyph_of(glyphs, text[0]);
        &&& glyph_fits(position, size, g)
        &&& size * g.bounding_box.width <= u32::MAX
        &&& advance(g, size) <= u32::MAX
        &&& i32::MIN <= position.x + (advance(g, size) as u32 as i32) <= i32::MAX
        &&& text_fits(
            glyphs,
            Vector2 { x: (position.x + (advance(g, size) as u32 as i32)) as i32, ..position },
            size,
            text.drop_first(),
        )
    }
}

/// An element that reacts to the pointer without drawing anything: it becomes hot when the
/// pointer enters its bounds with no button held, active when pressed while hot, and
/// released when the button is let go.
pub fn invisible_button<F: FnOnce(Vector2<u32>) -> bool>(ui: &mut Ui, id: UiId, in_bounds: F) -> (r: Button)
    requires
        pointer_fits(old(ui)@),
        in_bounds.requires((pointer_position_of(old(ui)@),)),
    ensures
        final(ui).spec_font() == old(ui).spec_font(),
        final(ui).font_wf() == old(ui).font_wf(),
        exists|inside: bool|
            in_bounds.ensures((pointer_position_of(old(ui)@),), inside) && (r, final(ui)@) == button_step(
                old(ui)@,
                id,
                old(ui)@.canvas.pointer.pressed[PointerButton::Left.spec_code()],
                inside,
            ),
        ui_wf(old(ui)@) ==> ui_wf(final(ui)@),
{
    let ghost m0 = ui@;
    let mut button = Button {
        is_hovered: false,
        is_pressed: false,
        got_pressed: false,
        got_hovered: false,
        got_unhovered: false,
        got_released: false,
    };
    let is_mouse_pressed = ui.pointer_absolute().is_pressed(PointerButton::Left);
    let position = ui.pointer_position();
    let inside = in_bounds(position);
    if inside {
        if ui.is_hot(id) {
            button.is_hovered = true;
        } else if !is_mouse_pressed {
            button.got_hovered = ui.make_hot(id);
            button.is_hovered = button.got_hovered;
        }
        if is_mouse_pressed && ui.is_hot(id) && !ui.is_active(id) {
            button.got_pressed = ui.make_active(id);
            button.is_pressed = button.got_pressed;
        } else if is_mouse_pressed && ui.is_active(id) {
            button.is_pressed = true;
        } else if !is_mouse_pressed && ui.is_active(id) {
            ui.make_inactive(id);
            button.got_released = true;
        }
    } else {
        button.got_unhovered = ui.make_inactive(id);
    }
    assert(in_bounds.ensures((pointer_position_of(m0),), inside) && (button, ui@) == button_step(
        m0,
        id,
        m0.canvas.pointer.pressed[PointerButton::Left.spec_code()],
        inside,
    ));
    button
}

/// An element that can be dragged: returns whether it is being dragged in this frame.
pub fn invisible_draggable<F: FnOnce(Vector2<u32>) -> bool>(ui: &mut Ui, id: UiId, in_bounds: F) -> (r: bool)
    requires
        pointer_fits(old(ui)@),
        in_bounds.requires((pointer_position_of(old(ui)@),)),
    ensures
        final(ui).spec_font() == old(ui).spec_font(),
        final(ui).font_wf() == old(ui).font_wf(),
        exists|inside: bool|
            in_bounds.ensures((pointer_position_of(old(ui)@),), inside) && (r, final(ui)@) == draggable_step(
                old(ui)@,
                id,
                old(ui)@.canvas.pointer.pressed[PointerButton::Left.spec_code()],
                inside,
            ),
        ui_wf(old(ui)@) ==> ui_wf(final(ui)@),
{
    let ghost m0 = ui@;
    let is_mouse_pressed = ui.pointer_absolute().is_pressed(PointerButton::Left);
    let position = ui.pointer_position();
    let inside = in_bounds(position);
    let dragged = if inside {
        if !ui.is_hot(id) && is_mouse_pressed {
            false
        } else {
            ui.make_hot(id);
            if is_mouse_pressed {
                ui.make_active(id);
                true
            } else {
                false
            }
        }
    } else if ui.is_active(id) && is_mouse_pressed {
        true
    } else {
        ui.make_inactive(id);
        false
    };
    assert(in_bounds.ensures((pointer_position_of(m0),), inside) && (dragged, ui@) == draggable_step(
        m0,
        id,
        m0.canvas.pointer.pressed[PointerButton::Left.spec_code()],
        inside,
    ));
    dragged
}

/// A click on an invisible button: with no element hot or active and the pointer within the
/// button's bounds, a frame with the left button up hovers it, a frame with the button held
/// presses it, and a frame with the button let go releases it, after which no element is
/// hot or active.
pub proof fn lemma_button_click(m: UiModel, id: UiId)
    requires
        m.hot is None,
        m.active is None,
    ensures
        ({
            let (b1, m1) = button_step(m, id, false, true);
            let (b2, m2) = button_step(m1, id, true, true);
            let (b3, m3) = button_step(m2, id, false, true);
            &&& b1.got_hovered && b1.is_hovered && !b1.is_pressed
            &&& b2.got_pressed && b2.is_pressed && !b2.got_released
            &&& b3.got_released && !b3.is_pressed
            &&& m3.hot is None && m3.active is None
        }),
{
}

/// Leaving the bounds of an element makes it neither hot nor active.
pub proof fn lemma_leaving_clears(m: UiModel, id: UiId, pressed: bool)
    requires
        !(m.active == Some(id) && pressed),
    ensures
        button_step(m, id, pressed, false).1.hot != Some(id),
        button_step(m, id, pressed, false).1.active != Some(id),
        draggable_step(m, id, pressed, false).1.hot != Some(id),
        draggable_step(m, id, pressed, false).1.active != Some(id),
{
}

} // verus!
