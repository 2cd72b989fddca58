//! Drawing on a canvas: pixels, rectangles, circles and lines.
use vstd::prelude::*;

use vstd::arithmetic::div_mod::{lemma_div_by_multiple, lemma_div_is_ordered};
use crate::canvas::{
    blend_channel, byte_in_pixel, canvas_wf, color_byte, lemma_byte_in_pixel,
    lemma_pixel_in_image, pixel_column, pixel_row, Canvas, CanvasModel, Color, Vector2,
    BYTES_PER_PIXEL,
};

verus! {

/// Whether the pixel in column `x` of row `y` lies in a window of `size`.
pub open spec fn visible(size: Vector2<u32>, x: int, y: int) -> bool {
    0 <= x < (size.x as i32) && 0 <= y < (size.y as i32)
}

/// A visible pixel lies inside the image.
pub proof fn lemma_visible_in_image(size: Vector2<u32>, x: int, y: int)
    requires
        visible(size, x, y),
    ensures
        0 <= x < size.x,
        0 <= y < size.y,
{
}

/// Whether byte `i` of a window's buffer belongs to a visible pixel for which `covered`
/// holds.
pub open spec fn byte_covered(size: Vector2<u32>, covered: spec_fn(int, int) -> bool, i: int) -> bool {
    let x = pixel_column(size.x as int, i);
    let y = pixel_row(size.x as int, i);
    &&& 0 <= i < size.x * size.y * 4
    &&& visible(size, x, y)
    &&& covered(x, y)
}

/// The buffer with every visible pixel for which `covered` holds set to `color`.
pub open spec fn fill_pixels(
    buf: Seq<u8>,
    size: Vector2<u32>,
    covered: spec_fn(int, int) -> bool,
    color: Color,
) -> Seq<u8> {
    Seq::new(
        buf.len(),
        |i: int|
            if byte_covered(size, covered, i) {
                color_byte(color, i % 4)
            } else {
                buf[i]
            },
    )
}

/// The buffer with `color` laid over every visible pixel for which `covered` holds.
pub open spec fn blend_pixels(
    buf: Seq<u8>,
    size: Vector2<u32>,
    covered: spec_fn(int, int) -> bool,
    color: Color,
) -> Seq<u8> {
    Seq::new(
        buf.len(),
        |i: int|
            if byte_covered(size, covered, i) && i % 4 < 3 {
                blend_channel(buf[i], color_byte(color, i % 4), color.a)
            } else {
                buf[i]
            },
    )
}

/// Whether the bytes of the pixel at `position` can be written in a buffer of `len` bytes.
pub open spec fn pixel_fits(window_size: Vector2<u32>, position: Vector2<i32>, len: int) -> bool {
    visible(window_size, position.x as int, position.y as int) ==> {
        &&& window_size.x * position.y + position.x <= u32::MAX
        &&& (window_size.x * position.y + position.x) * 4 + 4 <= len
    }
}

/// Set the pixel at `position` to `color`; a pixel outside the window is ignored.
pub fn set_pixel(buf: &mut [u8], window_size: Vector2<u32>, position: Vector2<i32>, color: Color)
    requires
        pixel_fits(window_size, position, old(buf)@.len() as int),
    ensures
        final(buf)@.len() == old(buf)@.len(),
        forall|i: int|
            0 <= i < old(buf)@.len() ==> #[trigger] final(buf)@[i] == if visible(
                window_size,
                position.x as int,
                position.y as int,
            ) && byte_in_pixel(window_size.x as int, i, position.x as int, position.y as int) {
                color_byte(color, i % 4)
            } else {
                old(buf)@[i]
            },
{
    if position.x >= window_size.x as i32 || position.x < 0 || position.y >= window_size.y as i32
        || position.y < 0 {
        return ;
    }
    // Asking for the length bounds it by `usize::MAX` in the proof.
    let _len = buf.len();
    let position = position.as_u32();
    let offset = (window_size.x * position.y + position.x) as usize * BYTES_PER_PIXEL as usize;
    buf[offset + 0] = color.b;
    buf[offset + 1] = color.g;
    buf[offset + 2] = color.r;
    buf[offset + 3] = color.a;
}

/// Lay `color` over the pixel at `position`; a pixel outside the window is ignored.
pub fn blend_pixel(
    buf: &mut [u8],
    window_size: Vector2<u32>,
    position: Vector2<i32>,
    color: Color,
)
    requires
        pixel_fits(window_size, position, old(buf)@.len() as int),
    ensures
        final(buf)@.len() == old(buf)@.len(),
        forall|i: int|
            0 <= i < old(buf)@.len() ==> #[trigger] final(buf)@[i] == if visible(
                window_size,
                position.x as int,
                position.y as int,
            ) && byte_in_pixel(window_size.x as int, i, position.x as int, position.y as int) && i
                % 4 < 3 {
                blend_channel(old(buf)@[i], color_byte(color, i % 4), color.a)
            } else {
                old(buf)@[i]
            },
{
    if position.x >= window_size.x as i32 || position.x < 0 || position.y >= window_size.y as i32
        || position.y < 0 {
        return ;
    }
    // Asking for the length bounds it by `usize::MAX` in the proof.
    let _len = buf.len();
    let position = position.as_u32();
    let offset = (window_size.x * position.y + position.x) as usize * BYTES_PER_PIXEL as usize;
    let old = Color { b: buf[offset + 0], g: buf[offset + 1], r: buf[offset + 2], a: buf[offset + 3] };
    let blended = Color::blend(old, color);
    buf[offset + 0] = blended.b;
    buf[offset + 1] = blended.g;
    buf[offset + 2] = blended.r;
    buf[offset + 3] = blended.a;
}

/// Every pixel of a well-formed canvas can be written.
proof fn lemma_canvas_pixel_fits(m: CanvasModel, position: Vector2<i32>)
    requires
        canvas_wf(m),
    ensures
        pixel_fits(m.size, position, m.buf.len() as int),
{
    if visible(m.size, position.x as int, position.y as int) {
        lemma_pixel_in_image(m.size.x as int, m.size.y as int, position.x as int, position.y as int);
    }
}

/// Setting one more pixel extends the set of filled pixels by it.
proof fn lemma_fill_step(
    base: Seq<u8>,
    before: Seq<u8>,
    after: Seq<u8>,
    size: Vector2<u32>,
    covered: spec_fn(int, int) -> bool,
    covered_next: spec_fn(int, int) -> bool,
    color: Color,
    x: int,
    y: int,
)
    requires
        before == fill_pixels(base, size, covered, color),
        after.len() == before.len(),
        forall|i: int|
            0 <= i < before.len() ==> #[trigger] after[i] == if visible(size, x, y)
                && byte_in_pixel(size.x as int, i, x, y) {
                color_byte(color, i % 4)
            } else {
                before[i]
            },
        forall|a: int, b: int| #[trigger] covered_next(a, b) == (covered(a, b) || (a == x && b == y)),
    ensures
        after == fill_pixels(base, size, covered_next, color),
{
    assert forall|i: int| 0 <= i < after.len() implies #[trigger] after[i] == fill_pixels(
        base,
        size,
        covered_next,
        color,
    )[i] by {
        let px = pixel_column(size.x as int, i);
        let py = pixel_row(size.x as int, i);
        if visible(size, x, y) {
            lemma_visible_in_image(size, x, y);
            lemma_byte_in_pixel(size.x as int, i, x, y);
            if byte_in_pixel(size.x as int, i, x, y) {
                lemma_pixel_in_image(size.x as int, size.y as int, x, y);
                assert(i < size.x * size.y * 4);
            }
        }
        assert(covered_next(px, py) == (covered(px, py) || (px == x && py == y)));
    }
    assert(after =~= fill_pixels(base, size, covered_next, color));
}

/// Blending one more pixel that was not blended before extends the set of blended pixels
/// by it.
proof fn lemma_blend_step(
    base: Seq<u8>,
    before: Seq<u8>,
    after: Seq<u8>,
    size: Vector2<u32>,
    covered: spec_fn(int, int) -> bool,
    covered_next: spec_fn(int, int) -> bool,
    color: Color,
    x: int,
    y: int,
)
    requires
        before == blend_pixels(base, size, covered, color),
        after.len() == before.len(),
        !covered(x, y),
        forall|i: int|
            0 <= i < before.len() ==> #[trigger] after[i] == if visible(size, x, y)
                && byte_in_pixel(size.x as int, i, x, y) && i % 4 < 3 {
                blend_channel(before[i], color_byte(color, i % 4), color.a)
            } else {
                before[i]
            },
        forall|a: int, b: int| #[trigger] covered_next(a, b) == (covered(a, b) || (a == x && b == y)),
    ensures
        after == blend_pixels(base, size, covered_next, color),
{
    assert forall|i: int| 0 <= i < after.len() implies #[trigger] after[i] == blend_pixels(
        base,
        size,
        covered_next,
        color,
    )[i] by {
        let px = pixel_column(size.x as int, i);
        let py = pixel_row(size.x as int, i);
        if visible(size, x, y) {
            lemma_visible_in_image(size, x, y);
            lemma_byte_in_pixel(size.x as int, i, x, y);
            if byte_in_pixel(size.x as int, i, x, y) {
                lemma_pixel_in_image(size.x as int, size.y as int, x, y);
                assert(i < size.x * size.y * 4);
            }
        }
        assert(covered_next(px, py) == (covered(px, py) || (px == x && py == y)));
    }
    assert(after =~= blend_pixels(base, size, covered_next, color));
}

/// Whether the pixel in column `x` of row `y` lies in the rectangle at `position` of
/// `size` (the size taken as signed, as the drawing loops take it).
pub open spec fn in_rectangle(position: Vector2<i32>, size: Vector2<u32>, x: int, y: int) -> bool {
    &&& position.x <= x < position.x + (size.x as i32)
    &&& position.y <= y < position.y + (size.y as i32)
}

/// Whether the far corner of a rectangle can be computed.
pub open spec fn rectangle_fits(position: Vector2<i32>, size: Vector2<u32>) -> bool {
    &&& i32::MIN <= position.x + (size.x as i32) <= i32::MAX
    &&& i32::MIN <= position.y + (size.y as i32) <= i32::MAX
}

/// Set every visible pixel of the rectangle at `position` of `size` to `color`.
pub fn rectangle_replace(
    canvas: &mut Canvas,
    position: Vector2<i32>,
    size: Vector2<u32>,
    color: Color,
)
    requires
        canvas_wf(old(canvas)@),
        rectangle_fits(position, size),
    ensures
        final(canvas)@ == (CanvasModel {
            buf: fill_pixels(
                old(canvas)@.buf,
                old(canvas)@.size,
                |x: int, y: int| in_rectangle(position, size, x, y),
                color,
            ),
            ..old(canvas)@
        }),
        canvas_wf(final(canvas)@),
{
    let window_size = canvas.window_size();
    let ghost m = canvas@;
    let buf = canvas.raw_buf_mut();
    let end_y = position.y + size.y as i32;
    let end_x = position.x + size.x as i32;
    let mut cy = position.y;
    proof {
        assert(buf@ =~= fill_pixels(m.buf, m.size, |x: int, y: int| false, color));
    }
    while cy < end_y
        invariant
            window_size == m.size,
            canvas_wf(m),
            buf@.len() == m.buf.len(),
            end_x == position.x + (size.x as i32),
            end_y == position.y + (size.y as i32),
            position.y <= cy,
            cy <= end_y || cy == position.y,
            buf@ == fill_pixels(
                m.buf,
                m.size,
                |x: int, y: int| position.x <= x < end_x && position.y <= y < cy,
                color,
            ),
        decreases end_y - cy,
    {
        let mut cx = position.x;
        while cx < end_x
            invariant
                window_size == m.size,
                canvas_wf(m),
                buf@.len() == m.buf.len(),
                end_x == position.x + (size.x as i32),
                position.y <= cy < end_y,
                position.x <= cx,
                cx <= end_x || cx == position.x,
                buf@ == fill_pixels(
                    m.buf,
                    m.size,
                    |x: int, y: int|
                        (position.x <= x < end_x && position.y <= y < cy) || (y == cy
                            && position.x <= x < cx),
                    color,
                ),
            decreases end_x - cx,
        {
            let ghost before = buf@;
            proof {
                lemma_canvas_pixel_fits(m, Vector2 { x: cx, y: cy });
            }
            set_pixel(buf, window_size, Vector2 { x: cx, y: cy }, color);
            proof {
                lemma_fill_step(
                    m.buf,
                    before,
                    buf@,
                    m.size,
                    |x: int, y: int|
                        (position.x <= x < end_x && position.y <= y < cy) || (y == cy
                            && position.x <= x < cx),
                    |x: int, y: int|
                        (position.x <= x < end_x && position.y <= y < cy) || (y == cy
                            && position.x <= x < cx + 1),
                    color,
                    cx as int,
                    cy as int,
                );
            }
            cx = cx + 1;
        }
        proof {
            assert(buf@ =~= fill_pixels(
                m.buf,
                m.size,
                |x: int, y: int| position.x <= x < end_x && position.y <= y < cy + 1,
                color,
            ));
        }
        cy = cy + 1;
    }
    proof {
        assert(buf@ =~= fill_pixels(
            m.buf,
            m.size,
            |x: int, y: int| in_rectangle(position, size, x, y),
            color,
        ));
    }
}

/// Lay `color` over every visible pixel of the rectangle at `position` of `size`.
pub fn rectangle_blend(
    canvas: &mut Canvas,
    position: Vector2<i32>,
    size: Vector2<u32>,
    color: Color,
)
    requires
        canvas_wf(old(canvas)@),
        rectangle_fits(position, size),
    ensures
        final(canvas)@ == (CanvasModel {
            buf: blend_pixels(
                old(canvas)@.buf,
                old(canvas)@.size,
                |x: int, y: int| in_rectangle(position, size, x, y),
                color,
            ),
            ..old(canvas)@
        }),
        canvas_wf(final(canvas)@),
{
    let window_size = canvas.window_size();
    let ghost m = canvas@;
    let buf = canvas.raw_buf_mut();
    let end_y = position.y + size.y as i32;
    let end_x = position.x + size.x as i32;
    let mut cy = position.y;
    proof {
        assert(buf@ =~= blend_pixels(m.buf, m.size, |x: int, y: int| false, color));
    }
    while cy < end_y
        invariant
            window_size == m.size,
            canvas_wf(m),
            buf@.len() == m.buf.len(),
            end_x == position.x + (size.x as i32),
            end_y == position.y + (size.y as i32),
            position.y <= cy,
            cy <= end_y || cy == position.y,
            buf@ == blend_pixels(
                m.buf,
                m.size,
                |x: int, y: int| position.x <= x < end_x && position.y <= y < cy,
                color,
            ),
        decreases end_y - cy,
    {
        let mut cx = position.x;
        while cx < end_x
            invariant
                window_size == m.size,
                canvas_wf(m),
                buf@.len() == m.buf.len(),
                end_x == position.x + (size.x as i32),
                position.y <= cy < end_y,
                position.x <= cx,
                cx <= end_x || cx == position.x,
                buf@ == blend_pixels(
                    m.buf,
                    m.size,
                    |x: int, y: int|
                        (position.x <= x < end_x && position.y <= y < cy) || (y == cy
                            && position.x <= x < cx),
                    color,
                ),
            decreases end_x - cx,
        {
            let ghost before = buf@;
            proof {
                lemma_canvas_pixel_fits(m, Vector2 { x: cx, y: cy });
            }
            blend_pixel(buf, window_size, Vector2 { x: cx, y: cy }, color);
            proof {
                lemma_blend_step(
                    m.buf,
                    before,
                    buf@,
                    m.size,
                    |x: int, y: int|
                        (position.x <= x < end_x && position.y <= y < cy) || (y == cy
                            && position.x <= x < cx),
                    |x: int, y: int|
                        (position.x <= x < end_x && position.y <= y < cy) || (y == cy
                            && position.x <= x < cx + 1),
                    color,
                    cx as int,
                    cy as int,
                );
            }
            cx = cx + 1;
        }
        proof {
            assert(buf@ =~= blend_pixels(
                m.buf,
                m.size,
                |x: int, y: int| position.x <= x < end_x && position.y <= y < cy + 1,
                color,
            ));
        }
        cy = cy + 1;
    }
    proof {
        assert(buf@ =~= blend_pixels(
            m.buf,
            m.size,
            |x: int, y: int| in_rectangle(position, size, x, y),
            color,
        ));
    }
}

/// The squared distance between two points.
pub open spec fn spec_distance_squared(p1: Vector2<i32>, p2: Vector2<i32>) -> int {
    (p1.x - p2.x) * (p1.x - p2.x) + (p1.y - p2.y) * (p1.y - p2.y)
}

/// Whether the distance of two points can be computed without overflow.
pub open spec fn distance_fits(p1: Vector2<i32>, p2: Vector2<i32>) -> bool {
    &&& i32::MIN <= p1.x - p2.x <= i32::MAX
    &&& i32::MIN <= p1.y - p2.y <= i32::MAX
    &&& spec_distance_squared(p1, p2) <= u32::MAX
}

fn abs_diff_i32(a: i32, b: i32) -> (r: u32)
    requires
        i32::MIN <= a - b <= i32::MAX,
    ensures
        r == (if a >= b { a - b } else { b - a }),
{
    let d = a - b;
    if d < 0 {
        (0i64 - d as i64) as u32
    } else {
        d as u32
    }
}

/// The squared distance between two points.
pub fn distance_squared(p1: Vector2<i32>, p2: Vector2<i32>) -> (r: u32)
    requires
        distance_fits(p1, p2),
    ensures
        r == spec_distance_squared(p1, p2),
{
    let x_dist = abs_diff_i32(p1.x, p2.x);
    let y_dist = abs_diff_i32(p1.y, p2.y);
    assert(x_dist * x_dist == (p1.x - p2.x) * (p1.x - p2.x)) by (nonlinear_arith)
        requires
            x_dist == (if p1.x >= p2.x { p1.x - p2.x } else { p2.x - p1.x }),
    ;
    assert(y_dist * y_dist == (p1.y - p2.y) * (p1.y - p2.y)) by (nonlinear_arith)
        requires
            y_dist == (if p1.y >= p2.y { p1.y - p2.y } else { p2.y - p1.y }),
    ;
    assert(0 <= x_dist * x_dist) by (nonlinear_arith);
    assert(0 <= y_dist * y_dist) by (nonlinear_arith);
    x_dist * x_dist + y_dist * y_dist
}

/// Whether `point` lies within distance `r` of `center`.
pub fn inside_circle(center: Vector2<i32>, r: u32, point: Vector2<i32>) -> (b: bool)
    requires
        distance_fits(center, point),
        r * r <= u32::MAX,
    ensures
        b == (spec_distance_squared(center, point) <= r * r),
{
    distance_squared(center, point) <= r * r
}

/// Whether `point` lies in the rectangle at `position` of `size`, edges included.
pub fn inside_rectangle(position: Vector2<i32>, size: Vector2<u32>, point: Vector2<i32>) -> (b:
    bool)
    requires
        rectangle_fits(position, size),
    ensures
        b == (position.x <= point.x <= position.x + (size.x as i32) && position.y <= point.y
            <= position.y + (size.y as i32)),
{
    point.x >= position.x && point.x <= position.x + size.x as i32 && point.y >= position.y
        && point.y <= position.y + size.y as i32
}

/// Whether the pixel in column `x` of row `y` is drawn by a circle: it lies in the square
/// of side `2 * radius` that starts `radius` before the centre on both axes, and within
/// distance `radius` of the centre.
pub open spec fn in_circle(center: Vector2<i32>, radius: u32, x: int, y: int) -> bool {
    &&& center.x - radius <= x < center.x + radius
    &&& center.y - radius <= y < center.y + radius
    &&& (center.x - x) * (center.x - x) + (center.y - y) * (center.y - y) <= radius * radius
}

/// Whether a circle can be drawn without overflow: the square around it lies in the
/// coordinate range and the squared distance of its corners fits a `u32`.
pub open spec fn circle_fits(center: Vector2<i32>, radius: u32) -> bool {
    &&& 2 * radius * radius <= u32::MAX
    &&& i32::MIN <= center.x - radius
    &&& center.x + radius <= i32::MAX
    &&& i32::MIN <= center.y - radius
    &&& center.y + radius <= i32::MAX
}

/// Set every visible pixel of the circle around `center` to `color`.
pub fn circle_replace(ui: &mut Canvas, center: Vector2<i32>, radius: u32, color: Color)
    requires
        canvas_wf(old(ui)@),
        circle_fits(center, radius),
    ensures
        final(ui)@ == (CanvasModel {
            buf: fill_pixels(
                old(ui)@.buf,
                old(ui)@.size,
                |x: int, y: int| in_circle(center, radius, x, y),
                color,
            ),
            ..old(ui)@
        }),
        canvas_wf(final(ui)@),
{
    let window_size = ui.window_size();
    let ghost m = ui@;
    let buf = ui.raw_buf_mut();
    assert(radius <= 46340) by (nonlinear_arith)
        requires
            2 * radius * radius <= u32::MAX,
    ;
    let r = radius as i32;
    let x = center.x - r;
    let y = center.y - r;
    let end_y = y + r * 2;
    let end_x = x + r * 2;
    let mut cy = y;
    proof {
        assert(buf@ =~= fill_pixels(m.buf, m.size, |a: int, b: int| false, color));
    }
    while cy < end_y
        invariant
            window_size == m.size,
            canvas_wf(m),
            circle_fits(center, radius),
            r == radius,
            x == center.x - radius,
            y == center.y - radius,
            end_x == center.x + radius,
            end_y == center.y + radius,
            buf@.len() == m.buf.len(),
            y <= cy <= end_y,
            buf@ == fill_pixels(
                m.buf,
                m.size,
                |a: int, b: int| in_circle(center, radius, a, b) && b < cy,
                color,
            ),
        decreases end_y - cy,
    {
        let mut cx = x;
        while cx < end_x
            invariant
                window_size == m.size,
                canvas_wf(m),
                circle_fits(center, radius),
                r == radius,
                x == center.x - radius,
                y == center.y - radius,
                end_x == center.x + radius,
                end_y == center.y + radius,
                buf@.len() == m.buf.len(),
                y <= cy < end_y,
                x <= cx <= end_x,
                buf@ == fill_pixels(
                    m.buf,
                    m.size,
                    |a: int, b: int|
                        in_circle(center, radius, a, b) && (b < cy || (b == cy && a < cx)),
                    color,
                ),
            decreases end_x - cx,
        {
            let point = Vector2 { x: cx, y: cy };
            let ghost dx = center.x - cx;
            let ghost dy = center.y - cy;
            assert(dx * dx <= radius * radius) by (nonlinear_arith)
                requires
                    -radius <= dx <= radius,
            ;
            assert(dy * dy <= radius * radius) by (nonlinear_arith)
                requires
                    -radius <= dy <= radius,
            ;
            assert(radius * radius + radius * radius == 2 * radius * radius) by (nonlinear_arith);
            assert(spec_distance_squared(center, point) == dx * dx + dy * dy);
            assert(radius * radius <= 2 * radius * radius) by (nonlinear_arith);
            if inside_circle(center, radius, point) {
                let ghost before = buf@;
                proof {
                    lemma_canvas_pixel_fits(m, point);
                }
                set_pixel(buf, window_size, point, color);
                proof {
                    lemma_fill_step(
                        m.buf,
                        before,
                        buf@,
                        m.size,
                        |a: int, b: int|
                            in_circle(center, radius, a, b) && (b < cy || (b == cy && a < cx)),
                        |a: int, b: int|
                            in_circle(center, radius, a, b) && (b < cy || (b == cy && a < cx + 1)),
                        color,
                        cx as int,
                        cy as int,
                    );
                }
            } else {
                proof {
                    assert(buf@ =~= fill_pixels(
                        m.buf,
                        m.size,
                        |a: int, b: int|
                            in_circle(center, radius, a, b) && (b < cy || (b == cy && a < cx + 1)),
                        color,
                    ));
                }
            }
            cx = cx + 1;
        }
        proof {
            assert(buf@ =~= fill_pixels(
                m.buf,
                m.size,
                |a: int, b: int| in_circle(center, radius, a, b) && b < cy + 1,
                color,
            ));
        }
        cy = cy + 1;
    }
    proof {
        assert(buf@ =~= fill_pixels(
            m.buf,
            m.size,
            |a: int, b: int| in_circle(center, radius, a, b),
            color,
        ));
    }
}

/// The absolute value.
pub open spec fn int_abs(a: int) -> int {
    if a < 0 {
        -a
    } else {
        a
    }
}

/// `a / b` rounded toward zero, as integer division does.
pub open spec fn trunc_div(a: int, b: int) -> int {
    if (a >= 0) == (b >= 0) {
        int_abs(a) / int_abs(b)
    } else {
        -(int_abs(a) / int_abs(b))
    }
}

pub(crate) fn trunc_div_i32(a: i32, b: i32) -> (r: i32)
    requires
        b != 0,
        a != i32::MIN,
        b != i32::MIN,
    ensures
        r == trunc_div(a as int, b as int),
{
    let abs_a: u32 = if a < 0 {
        (0 - a) as u32
    } else {
        a as u32
    };
    let abs_b: u32 = if b < 0 {
        (0 - b) as u32
    } else {
        b as u32
    };
    let q = abs_a / abs_b;
    assert(q <= abs_a) by (nonlinear_arith)
        requires
            abs_b >= 1,
            q == abs_a / abs_b,
    ;
    if (a >= 0) == (b >= 0) {
        q as i32
    } else {
        0 - q as i32
    }
}

/// A fraction `k / |b|` of `a`, rounded toward zero, is no larger than `a` and points the
/// way `a` and `b` point together.
proof fn lemma_trunc_div_bound(a: int, b: int, k: int)
    requires
        b != 0,
        0 <= k <= int_abs(b),
    ensures
        int_abs(trunc_div(a * k, b)) <= int_abs(a),
        trunc_div(a * k, b) == 0 || ((trunc_div(a * k, b) > 0) == ((a > 0) == (b > 0))),
{
    let n = int_abs(a * k);
    let d = int_abs(b);
    assert(n == int_abs(a) * k) by (nonlinear_arith)
        requires
            n == int_abs(a * k),
            k >= 0,
    ;
    assert(int_abs(a) * k <= int_abs(a) * d) by (nonlinear_arith)
        requires
            0 <= k <= d,
            int_abs(a) >= 0,
    ;
    lemma_div_is_ordered(n, int_abs(a) * d, d);
    lemma_div_by_multiple(int_abs(a), d);
    if n / d != 0 {
        assert(n > 0);
        assert(a != 0 && k > 0);
        assert((a * k > 0) == (a > 0)) by (nonlinear_arith)
            requires
                a != 0,
                k > 0,
        ;
    }
}

/// The pixels of the line from `start` to `end`: one per column when the line is wider
/// than tall, else one per row, walking toward growing coordinates; none when the two
/// ends coincide.
pub open spec fn line_points(start: Vector2<i32>, end: Vector2<i32>) -> Seq<(int, int)> {
    let dx = end.x - start.x;
    let dy = end.y - start.y;
    if dx == 0 && dy == 0 {
        Seq::empty()
    } else if int_abs(dx) > int_abs(dy) {
        let x1: int = if start.x > end.x { end.x as int } else { start.x as int };
        let y1: int = if start.x > end.x { end.y as int } else { start.y as int };
        Seq::new((int_abs(dx) + 1) as nat, |k: int| (x1 + k, trunc_div(dy * k, dx) + y1))
    } else {
        let x1: int = if start.y > end.y { end.x as int } else { start.x as int };
        let y1: int = if start.y > end.y { end.y as int } else { start.y as int };
        Seq::new((int_abs(dy) + 1) as nat, |k: int| (trunc_div(dx * k, dy) + x1, y1 + k))
    }
}

/// Whether the pixels of a line can be computed without overflow.
pub open spec fn line_fits(start: Vector2<i32>, end: Vector2<i32>) -> bool {
    &&& i32::MIN < end.x - start.x <= i32::MAX
    &&& i32::MIN < end.y - start.y <= i32::MAX
    &&& int_abs(end.x - start.x) * int_abs(end.y - start.y) <= i32::MAX
    &&& start.x < i32::MAX
    &&& end.x < i32::MAX
    &&& start.y < i32::MAX
    &&& end.y < i32::MAX
}

/// The pixels of the line from `start` to `end`, in drawing order.
fn line_pixels(start: Vector2<i32>, end: Vector2<i32>) -> (r: Vec<(i32, i32)>)
    requires
        line_fits(start, end),
    ensures
        r@.len() == line_points(start, end).len(),
        forall|k: int|
            0 <= k < r@.len() ==> (#[trigger] r@[k].0 as int, r@[k].1 as int) == line_points(
                start,
                end,
            )[k],
{
    let mut pts: Vec<(i32, i32)> = Vec::new();
    let dx = end.x - start.x;
    let dy = end.y - start.y;
    let ghost all = line_points(start, end);
    if dx == 0 && dy == 0 {
        return pts;
    }
    let adx = if dx < 0 {
        0 - dx
    } else {
        dx
    };
    let ady = if dy < 0 {
        0 - dy
    } else {
        dy
    };
    if adx > ady {
        let (x1, y1, x2) = if start.x > end.x {
            (end.x, end.y, start.x)
        } else {
            (start.x, start.y, end.x)
        };
        let mut t = x1;
        while t <= x2
            invariant
                line_fits(start, end),
                dx == end.x - start.x,
                dy == end.y - start.y,
                adx == int_abs(dx as int),
                ady == int_abs(dy as int),
                adx > ady,
                dx != 0,
                x1 == (if start.x > end.x { end.x } else { start.x }),
                y1 == (if start.x > end.x { end.y } else { start.y }),
                x2 == (if start.x > end.x { start.x } else { end.x }),
                x2 - x1 == adx,
                x1 <= t <= x2 + 1,
                all == line_points(start, end),
                all.len() == adx + 1,
                pts@.len() == t - x1,
                forall|k: int|
                    0 <= k < pts@.len() ==> (#[trigger] pts@[k].0 as int, pts@[k].1 as int)
                        == all[k],
            decreases x2 + 1 - t,
        {
            let k = t - x1;
            assert(adx * ady <= i32::MAX);
            assert(-(adx * ady) <= dy * k <= adx * ady) by (nonlinear_arith)
                requires
                    0 <= k <= adx,
                    ady == int_abs(dy as int),
                    adx >= 0,
            ;
            assert(dy * k != i32::MIN);
            proof {
                lemma_trunc_div_bound(dy as int, dx as int, k as int);
            }
            let q = trunc_div_i32(dy * k, dx);
            let y = q + y1;
            pts.push((t, y));
            t = t + 1;
        }
    } else {
        let (x1, y1, y2) = if start.y > end.y {
            (end.x, end.y, start.y)
        } else {
            (start.x, start.y, end.y)
        };
        let mut t = y1;
        while t <= y2
            invariant
                line_fits(start, end),
                dx == end.x - start.x,
                dy == end.y - start.y,
                adx == int_abs(dx as int),
                ady == int_abs(dy as int),
                adx <= ady,
                dy != 0,
                x1 == (if start.y > end.y { end.x } else { start.x }),
                y1 == (if start.y > end.y { end.y } else { start.y }),
                y2 == (if start.y > end.y { start.y } else { end.y }),
                y2 - y1 == ady,
                y1 <= t <= y2 + 1,
                all == line_points(start, end),
                all.len() == ady + 1,
                pts@.len() == t - y1,
                forall|k: int|
                    0 <= k < pts@.len() ==> (#[trigger] pts@[k].0 as int, pts@[k].1 as int)
                        == all[k],
            decreases y2 + 1 - t,
        {
            let k = t - y1;
            assert(adx * ady <= i32::MAX);
            assert(-(adx * ady) <= dx * k <= adx * ady) by (nonlinear_arith)
                requires
                    0 <= k <= ady,
                    adx == int_abs(dx as int),
                    ady >= 0,
            ;
            assert(dx * k != i32::MIN);
            proof {
                lemma_trunc_div_bound(dx as int, dy as int, k as int);
            }
            let q = trunc_div_i32(dx * k, dy);
            let x = q + x1;
            pts.push((x, t));
            t = t + 1;
        }
    }
    pts
}

/// Whether one of the first `n` points is the pixel in column `x` of row `y`.
pub open spec fn among_points(points: Seq<(int, int)>, n: int, x: int, y: int) -> bool {
    exists|k: int| 0 <= k < n && #[trigger] points[k] == (x, y)
}

/// Whether one of the first `n` points that fall in a dash (ten drawn, ten skipped, in
/// turn) is the pixel in column `x` of row `y`.
pub open spec fn among_dashes(points: Seq<(int, int)>, n: int, x: int, y: int) -> bool {
    exists|k: int| 0 <= k < n && k % 20 < 10 && #[trigger] points[k] == (x, y)
}

/// Set every visible pixel of the line from `start` to `end` to `color`.
pub fn thin_line(ui: &mut Canvas, start: Vector2<i32>, end: Vector2<i32>, color: Color)
    requires
        canvas_wf(old(ui)@),
        line_fits(start, end),
    ensures
        final(ui)@ == (CanvasModel {
            buf: fill_pixels(
                old(ui)@.buf,
                old(ui)@.size,
                |x: int, y: int|
                    among_points(
                        line_points(start, end),
                        line_points(start, end).len() as int,
                        x,
                        y,
                    ),
                color,
            ),
            ..old(ui)@
        }),
        canvas_wf(final(ui)@),
{
    let window_size = ui.window_size();
    let ghost m = ui@;
    let buf = ui.raw_buf_mut();
    let points = line_pixels(start, end);
    let ghost all = line_points(start, end);
    let mut i: usize = 0;
    proof {
        assert(buf@ =~= fill_pixels(
            m.buf,
            m.size,
            |x: int, y: int| among_points(all, 0, x, y),
            color,
        ));
    }
    while i < points.len()
        invariant
            window_size == m.size,
            canvas_wf(m),
            buf@.len() == m.buf.len(),
            all == line_points(start, end),
            points@.len() == all.len(),
            forall|k: int|
                0 <= k < points@.len() ==> (#[trigger] points@[k].0 as int, points@[k].1 as int)
                    == all[k],
            i <= points@.len(),
            buf@ == fill_pixels(
                m.buf,
                m.size,
                |x: int, y: int| among_points(all, i as int, x, y),
                color,
            ),
        decreases points@.len() - i,
    {
        let (x, y) = points[i];
        let ghost before = buf@;
        proof {
            lemma_canvas_pixel_fits(m, Vector2 { x, y });
            assert(all[i as int] == (x as int, y as int));
            assert forall|a: int, b: int|
                #[trigger] among_points(all, i + 1, a, b) == (among_points(all, i as int, a, b)
                    || (a == x && b == y)) by {
                if among_points(all, i + 1, a, b) {
                    let k = choose|k: int| 0 <= k < i + 1 && #[trigger] all[k] == (a, b);
                    if k < i {
                        assert(among_points(all, i as int, a, b));
                    }
                }
                if a == x && b == y {
                    assert(all[i as int] == (a, b));
                }
                if among_points(all, i as int, a, b) {
                    let k = choose|k: int| 0 <= k < i && #[trigger] all[k] == (a, b);
                    assert(all[k] == (a, b));
                }
            }
        }
        set_pixel(buf, window_size, Vector2 { x, y }, color);
        proof {
            lemma_fill_step(
                m.buf,
                before,
                buf@,
                m.size,
                |a: int, b: int| among_points(all, i as int, a, b),
                |a: int, b: int| among_points(all, i + 1, a, b),
                color,
                x as int,
                y as int,
            );
        }
        i = i + 1;
    }
}

/// Draw the line from `start` to `end` in dashes of ten pixels with gaps of ten.
pub fn thin_dashed_line(ui: &mut Canvas, start: Vector2<i32>, end: Vector2<i32>, color: Color)
    requires
        canvas_wf(old(ui)@),
        line_fits(start, end),
    ensures
        final(ui)@ == (CanvasModel {
            buf: fill_pixels(
                old(ui)@.buf,
                old(ui)@.size,
                |x: int, y: int|
                    among_dashes(
                        line_points(start, end),
                        line_points(start, end).len() as int,
                        x,
                        y,
                    ),
                color,
            ),
            ..old(ui)@
        }),
        canvas_wf(final(ui)@),
{
    let window_size = ui.window_size();
    let ghost m = ui@;
    let buf = ui.raw_buf_mut();
    let dash_length: u32 = 10;
    let gap_length: u32 = 10;
    let points = line_pixels(start, end);
    let ghost all = line_points(start, end);
    let mut n: u32 = 0;
    let mut i: usize = 0;
    proof {
        assert(buf@ =~= fill_pixels(
            m.buf,
            m.size,
            |x: int, y: int| among_dashes(all, 0, x, y),
            color,
        ));
    }
    while i < points.len()
        invariant
            window_size == m.size,
            canvas_wf(m),
            buf@.len() == m.buf.len(),
            all == line_points(start, end),
            points@.len() == all.len(),
            forall|k: int|
                0 <= k < points@.len() ==> (#[trigger] points@[k].0 as int, points@[k].1 as int)
                    == all[k],
            i <= points@.len(),
            dash_length == 10,
            gap_length == 10,
            n == i % 20,
            buf@ == fill_pixels(
                m.buf,
                m.size,
                |x: int, y: int| among_dashes(all, i as int, x, y),
                color,
            ),
        decreases points@.len() - i,
    {
        let (x, y) = points[i];
        let ghost before = buf@;
        proof {
            assert(all[i as int] == (x as int, y as int));
        }
        if n < dash_length {
            proof {
                lemma_canvas_pixel_fits(m, Vector2 { x, y });
                assert forall|a: int, b: int|
                    #[trigger] among_dashes(all, i + 1, a, b) == (among_dashes(
                        all,
                        i as int,
                        a,
                        b,
                    ) || (a == x && b == y)) by {
                    if among_dashes(all, i + 1, a, b) {
                        let k = choose|k: int|
                            0 <= k < i + 1 && k % 20 < 10 && #[trigger] all[k] == (a, b);
                        if k < i {
                            assert(among_dashes(all, i as int, a, b));
                        }
                    }
                    if a == x && b == y {
                        assert(all[i as int] == (a, b));
                    }
                    if among_dashes(all, i as int, a, b) {
                        let k = choose|k: int| 0 <= k < i && k % 20 < 10 && #[trigger] all[k] == (a, b);
                        assert(all[k] == (a, b));
                    }
                }
            }
            set_pixel(buf, window_size, Vector2 { x, y }, color);
            proof {
                lemma_fill_step(
                    m.buf,
                    before,
                    buf@,
                    m.size,
                    |a: int, b: int| among_dashes(all, i as int, a, b),
                    |a: int, b: int| among_dashes(all, i + 1, a, b),
                    color,
                    x as int,
                    y as int,
                );
            }
        } else {
            proof {
                assert forall|a: int, b: int|
                    #[trigger] among_dashes(all, i + 1, a, b) == among_dashes(all, i as int, a, b) by {
                    if among_dashes(all, i + 1, a, b) {
                        let k = choose|k: int|
                            0 <= k < i + 1 && k % 20 < 10 && #[trigger] all[k] == (a, b);
                        assert(k != i);
                        assert(among_dashes(all, i as int, a, b));
                    }
                    if among_dashes(all, i as int, a, b) {
                        let k = choose|k: int| 0 <= k < i && k % 20 < 10 && #[trigger] all[k] == (a, b);
                        assert(all[k] == (a, b));
                    }
                }
                assert(buf@ =~= fill_pixels(
                    m.buf,
                    m.size,
                    |a: int, b: int| among_dashes(all, i + 1, a, b),
                    color,
                ));
            }
        }
        n = n + 1;
        if n >= dash_length + gap_length {
            n = 0;
        }
        i = i + 1;
    }
}

} // verus!
