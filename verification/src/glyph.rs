//! Drawing the glyphs of a BDF font: each set bit of a glyph's bitmap becomes a square of
//! pixels, and a character map finds the glyph of each character.
use vstd::prelude::*;

use crate::bdf::{Encoding, Font, Glyph, GlyphModel};
use crate::canvas::{canvas_wf, Canvas, CanvasModel, Color, Vector2};
use crate::draw::{byte_covered, fill_pixels, in_rectangle, rectangle_fits, rectangle_replace};
use std::collections::HashMap;
use vstd::std_specs::iter::IteratorSpec;

verus! {

/// The width of a glyph's bitmap rows in bits: its width rounded up to whole bytes.
pub open spec fn padded(width: u32) -> int {
    ((width + 7) / 8) * 8
}

/// Whether bit `n` of the bitmap is set; bit 0 of a byte comes first.
pub open spec fn glyph_bit(bitmap: Seq<u8>, n: int) -> bool {
    bitmap[n / 8] & (1u8 << ((n % 8) as u8)) != 0
}

/// Where the glyph's bitmap column 0 of row 0 is drawn, at `position` with squares of
/// `size` pixels: the columns run leftwards from it, the rows downwards.
pub open spec fn glyph_origin(position: Vector2<i32>, size: u32, g: GlyphModel) -> (int, int) {
    let pw = padded(g.bounding_box.width);
    let ph = padded(g.bounding_box.height);
    let x_off = pw as i32;
    let y_off = (ph - g.bounding_box.height) as i32 - 1;
    (
        position.x + (x_off - g.bounding_box.x_off) * (size as i32),
        position.y + (y_off - g.bounding_box.y_off) * (size as i32),
    )
}

/// The square drawn for bit `k` of the bitmap.
pub open spec fn glyph_square(position: Vector2<i32>, size: u32, g: GlyphModel, k: int) -> Vector2<i32> {
    let pw = padded(g.bounding_box.width);
    let (tx, ty) = glyph_origin(position, size, g);
    Vector2 {
        x: (tx - ((k % pw) as i32) * (size as i32)) as i32,
        y: (ty + ((k / pw) as i32) * (size as i32)) as i32,
    }
}

/// Whether pixel `x`, `y` lies in the square of one of the first `k` bits that are set.
pub open spec fn glyph_covers(position: Vector2<i32>, size: u32, g: GlyphModel, k: int, x: int, y: int) -> bool
    decreases k,
{
    if k <= 0 {
        false
    } else {
        glyph_covers(position, size, g, k - 1, x, y) || (glyph_bit(g.bitmap, k - 1) && in_rectangle(
            glyph_square(position, size, g, k - 1),
            Vector2 { x: size, y: size },
            x,
            y,
        ))
    }
}

/// Whether drawing glyph `g` at `position` with squares of `size` can be computed: the
/// bitmap is long enough and no coordinate of a square that is drawn overflows.
pub open spec fn glyph_fits(position: Vector2<i32>, size: u32, g: GlyphModel) -> bool {
    let w = g.bounding_box.width;
    let h = g.bounding_box.height;
    let pw = padded(w);
    let ph = padded(h);
    let s = size as i32;
    &&& w + 7 <= u32::MAX
    &&& h + 7 <= u32::MAX
    &&& h * pw <= u32::MAX
    &&& g.bitmap.len() * 8 >= h * pw
    &&& i32::MIN <= (pw as i32) - g.bounding_box.x_off <= i32::MAX
    &&& i32::MIN <= ((pw as i32) - g.bounding_box.x_off) * s <= i32::MAX
    &&& i32::MIN <= glyph_origin(position, size, g).0 <= i32::MAX
    &&& i32::MIN <= ((ph - h) as i32 - 1) - g.bounding_box.y_off <= i32::MAX
    &&& i32::MIN <= (((ph - h) as i32 - 1) - g.bounding_box.y_off) * s <= i32::MAX
    &&& i32::MIN <= glyph_origin(position, size, g).1 <= i32::MAX
    &&& forall|k: int|
        0 <= k < h * pw && #[trigger] glyph_bit(g.bitmap, k) ==> {
            let gx = k % pw;
            let gy = k / pw;
            &&& i32::MIN <= (gx as i32) * s <= i32::MAX
            &&& i32::MIN <= glyph_origin(position, size, g).0 - (gx as i32) * s <= i32::MAX
            &&& i32::MIN <= (gy as i32) * s <= i32::MAX
            &&& i32::MIN <= glyph_origin(position, size, g).1 + (gy as i32) * s <= i32::MAX
            &&& rectangle_fits(glyph_square(position, size, g, k), Vector2 { x: size, y: size })
        }
}

/// Painting more pixels in the same colour covers the union of the two sets.
proof fn lemma_fill_union(
    buf: Seq<u8>,
    size: Vector2<u32>,
    p: spec_fn(int, int) -> bool,
    q: spec_fn(int, int) -> bool,
    pq: spec_fn(int, int) -> bool,
    color: Color,
)
    requires
        forall|x: int, y: int| #[trigger] pq(x, y) == (p(x, y) || q(x, y)),
    ensures
        fill_pixels(fill_pixels(buf, size, p, color), size, q, color) == fill_pixels(buf, size, pq, color),
{
    let a = fill_pixels(fill_pixels(buf, size, p, color), size, q, color);
    let b = fill_pixels(buf, size, pq, color);
    assert forall|i: int| 0 <= i < a.len() implies a[i] == b[i] by {
        assert(byte_covered(size, pq, i) == (byte_covered(size, p, i) || byte_covered(size, q, i)));
    }
    assert(a =~= b);
}

/// Draws glyph `glyph` at `position`, each set bit of its bitmap a square of `size` by
/// `size` pixels in `color`.
pub fn glyph_bdf(ui: &mut Canvas, position: Vector2<i32>, size: u32, glyph: &Glyph, color: Color)
    requires
        canvas_wf(old(ui)@),
        glyph_fits(position, size, glyph@),
    ensures
        canvas_wf(final(ui)@),
        final(ui)@ == (CanvasModel {
            buf: fill_pixels(
                old(ui)@.buf,
                old(ui)@.size,
                |x: int, y: int|
                    glyph_covers(
                        position,
                        size,
                        glyph@,
                        glyph@.bounding_box.height * padded(glyph@.bounding_box.width),
                        x,
                        y,
                    ),
                color,
            ),
            ..old(ui)@
        }),
{
    let ghost g = glyph@;
    let ghost m = ui@;
    let padded_width = ((glyph.bounding_box.width + 7) / 8) * 8;
    let padded_height = ((glyph.bounding_box.height + 7) / 8) * 8;
    let x_off = padded_width as i32;
    let y_off = (padded_height - glyph.bounding_box.height) as i32 - 1;
    let total_x_offset = position.x as i32 + (x_off - glyph.bounding_box.x_off) * size as i32;
    let total_y_offset = position.y as i32 + (y_off - glyph.bounding_box.y_off) * size as i32;
    let height = glyph.bounding_box.height;
    proof {
        assert(ui@.buf =~= fill_pixels(m.buf, m.size, |x: int, y: int| glyph_covers(position, size, g, 0, x, y), color));
    }
    let mut gy: u32 = 0;
    while gy < height
        invariant
            g == glyph@,
            glyph_fits(position, size, g),
            height == g.bounding_box.height,
            padded_width == padded(g.bounding_box.width),
            total_x_offset == glyph_origin(position, size, g).0,
            total_y_offset == glyph_origin(position, size, g).1,
            gy <= height,
            canvas_wf(ui@),
            ui@ == (CanvasModel { buf: ui@.buf, ..m }),
            ui@.buf == fill_pixels(
                m.buf,
                m.size,
                |x: int, y: int| glyph_covers(position, size, g, gy * padded_width, x, y),
                color,
            ),
        decreases height - gy,
    {
        let mut gx: u32 = 0;
        while gx < padded_width
            invariant
                g == glyph@,
                glyph_fits(position, size, g),
                height == g.bounding_box.height,
                padded_width == padded(g.bounding_box.width),
                total_x_offset == glyph_origin(position, size, g).0,
                total_y_offset == glyph_origin(position, size, g).1,
                gy < height,
                gx <= padded_width,
                canvas_wf(ui@),
                ui@ == (CanvasModel { buf: ui@.buf, ..m }),
                ui@.buf == fill_pixels(
                    m.buf,
                    m.size,
                    |x: int, y: int| glyph_covers(position, size, g, gy * padded_width + gx, x, y),
                    color,
                ),
            decreases padded_width - gx,
        {
            let ghost k = gy * padded_width + gx;
            proof {
                assert(k < height * padded_width) by (nonlinear_arith)
                    requires
                        gy < height,
                        gx < padded_width,
                        k == gy * padded_width + gx,
                ;
                vstd::arithmetic::div_mod::lemma_fundamental_div_mod_converse(k, padded_width as int, gy as int, gx as int);
                assert(k / 8 < g.bitmap.len()) by (nonlinear_arith)
                    requires
                        k < height * padded_width,
                        g.bitmap.len() * 8 >= height * padded_width,
                        k >= 0,
                ;
            }
            let n = gy * padded_width + gx;
            let has_pixel = (glyph.bitmap[(n / 8) as usize] & (1 << (n % 8) as u8)) != 0;
            if has_pixel {
                assert(glyph_bit(g.bitmap, k));
                let square = Vector2 {
                    x: total_x_offset - (gx as i32 * size as i32),
                    y: total_y_offset + (gy as i32 * size as i32),
                };
                assert(square == glyph_square(position, size, g, k));
                let ghost before = ui@.buf;
                rectangle_replace(ui, square, Vector2 { x: size, y: size }, color);
                proof {
                    lemma_fill_union(
                        m.buf,
                        m.size,
                        |x: int, y: int| glyph_covers(position, size, g, k, x, y),
                        |x: int, y: int| in_rectangle(square, Vector2 { x: size, y: size }, x, y),
                        |x: int, y: int| glyph_covers(position, size, g, k + 1, x, y),
                        color,
                    );
                }
            } else {
                proof {
                    assert(fill_pixels(m.buf, m.size, |x: int, y: int| glyph_covers(position, size, g, k, x, y), color)
                        =~= fill_pixels(m.buf, m.size, |x: int, y: int| glyph_covers(position, size, g, k + 1, x, y), color));
                }
            }
            gx = gx + 1;
        }
        proof {
            assert((gy + 1) * padded_width == gy * padded_width + padded_width) by (nonlinear_arith);
        }
        gy = gy + 1;
    }
}

/// The last of the first `n` glyphs encoded as `k` in the Adobe standard encoding.
pub open spec fn last_encoded(glyphs: Seq<GlyphModel>, k: u32, n: int) -> Option<int>
    decreases n,
{
    if n <= 0 {
        None
    } else if glyphs[n - 1].encoding == Encoding::AdobeStandard(k) {
        Some(n - 1)
    } else {
        last_encoded(glyphs, k, n - 1)
    }
}

/// The glyph of character code `k`: the last glyph encoded as `k` in the Adobe standard
/// encoding, or the last glyph of the font where none is.
pub open spec fn glyph_index(glyphs: Seq<GlyphModel>, k: u32) -> int {
    match last_encoded(glyphs, k, glyphs.len() as int) {
        Some(i) => i,
        None => glyphs.len() - 1,
    }
}

/// The glyphs of a font with the index of each character's glyph.
pub struct BdfCharMap {
    glyphs: Vec<Glyph>,
    ascii: Vec<usize>,
    map: HashMap<u32, usize>,
    default: usize,
}

/// The glyph models of a list of glyphs.
pub open spec fn glyph_models(glyphs: Seq<Glyph>) -> Seq<GlyphModel> {
    glyphs.map_values(|g: Glyph| g@)
}

impl BdfCharMap {
    /// The glyphs, in the order of the font.
    pub closed spec fn spec_glyphs(&self) -> Seq<GlyphModel> {
        glyph_models(self.glyphs@)
    }

    /// The table and map agree with the glyphs, and there is at least one glyph.
    pub closed spec fn wf(&self) -> bool {
        let gs = self.spec_glyphs();
        &&& gs.len() >= 1
        &&& self.default == gs.len() - 1
        &&& self.ascii@.len() == 128
        &&& forall|k: int| 0 <= k < 128 ==> #[trigger] self.ascii@[k] == glyph_index(gs, k as u32)
        &&& forall|k: u32|
            #![trigger self.map@.contains_key(k)]
            self.map@.contains_key(k) == (last_encoded(gs, k, gs.len() as int) is Some) && (self.map@.contains_key(k)
                ==> self.map@[k] == glyph_index(gs, k))
    }

    /// The map of the glyphs of `font`; the font must have a glyph.
    pub fn new(font: Font) -> (r: Self)
        requires
            font.glyphs@.len() >= 1,
        ensures
            r.wf(),
            r.spec_glyphs() == glyph_models(font.glyphs@),
    {
        broadcast use vstd::std_specs::hash::group_hash_axioms;

        let glyphs = font.glyphs;
        let n = glyphs.len();
        let default = n - 1;
        let ghost gs = glyph_models(glyphs@);
        let mut ascii: Vec<usize> = Vec::new();
        let mut k: usize = 0;
        while k < 128
            invariant
                k <= 128,
                ascii@ == Seq::new(k as nat, |i: int| default),
            decreases 128 - k,
        {
            ascii.push(default);
            k = k + 1;
            assert(ascii@ =~= Seq::new(k as nat, |i: int| default));
        }
        let mut map: HashMap<u32, usize> = HashMap::new();
        let mut idx: usize = 0;
        while idx < n
            invariant
                n == glyphs@.len(),
                n >= 1,
                default == n - 1,
                gs == glyph_models(glyphs@),
                idx <= n,
                ascii@.len() == 128,
                forall|k: int|
                    0 <= k < 128 ==> #[trigger] ascii@[k] == (match last_encoded(gs, k as u32, idx as int) {
                        Some(i) => i,
                        None => default as int,
                    }),
                forall|k: u32|
                    #![trigger map@.contains_key(k)]
                    map@.contains_key(k) == (last_encoded(gs, k, idx as int) is Some) && (map@.contains_key(k)
                        ==> map@[k] == last_encoded(gs, k, idx as int)->0),
            decreases n - idx,
        {
            match glyphs[idx].encoding {
                Encoding::AdobeStandard(enc) => {
                    if enc < 128 {
                        ascii.set(enc as usize, idx);
                    }
                    map.insert(enc, idx);
                },
                Encoding::NonStandard(_) => {},
            }
            proof {
                assert(gs[idx as int] == glyphs@[idx as int]@);
            }
            idx = idx + 1;
        }
        let r = BdfCharMap { glyphs, ascii, map, default };
        proof {
            assert forall|k: int| 0 <= k < 128 implies #[trigger] r.ascii@[k] == glyph_index(gs, k as u32) by {}
        }
        r
    }

    /// The glyph of character `c`: the last glyph encoded as its code, or the last glyph of
    /// the font where none is.
    pub fn get(&self, c: char) -> (r: &Glyph)
        requires
            self.wf(),
        ensures
            r@ == self.spec_glyphs()[glyph_index(self.spec_glyphs(), c as u32)],
    {
        broadcast use vstd::std_specs::hash::group_hash_axioms;

        let k = c as u32;
        let ghost gs = self.spec_glyphs();
        let idx = if k < 128 {
            self.ascii[k as usize]
        } else {
            match self.map.get(&k) {
                Some(i) => *i,
                None => self.default,
            }
        };
        proof {
            lemma_glyph_index_in_range(gs, k);
        }
        &self.glyphs[idx]
    }
}

/// The glyph of a character lies within the glyphs.
pub proof fn lemma_glyph_index_in_range(glyphs: Seq<GlyphModel>, k: u32)
    requires
        glyphs.len() >= 1,
    ensures
        0 <= glyph_index(glyphs, k) < glyphs.len(),
{
    lemma_last_encoded_in_range(glyphs, k, glyphs.len() as int);
}

/// The last glyph encoded as `k` among the first `n` lies among them.
pub proof fn lemma_last_encoded_in_range(glyphs: Seq<GlyphModel>, k: u32, n: int)
    ensures
        last_encoded(glyphs, k, n) matches Some(i) ==> 0 <= i < n,
    decreases n,
{
    if n > 0 {
        lemma_last_encoded_in_range(glyphs, k, n - 1);
    }
}

/// The width a text takes: for each character, `size` times its glyph's width plus twice
/// `size`.
pub open spec fn text_width(glyphs: Seq<GlyphModel>, size: u32, text: Seq<char>) -> int
    decreases text.len(),
{
    if text.len() == 0 {
        0
    } else {
        text_width(glyphs, size, text.drop_last()) + size * glyphs[glyph_index(glyphs, text.last() as u32)].bounding_box.width + size * 2
    }
}

/// The width `text` takes when drawn with the glyphs of `font` at `size`.
pub fn text_bdf_width(font: &BdfCharMap, size: u32, text: &str) -> (r: u32)
    requires
        font.wf(),
        forall|n: int| 0 <= n <= text@.len() ==> #[trigger] text_width(font.spec_glyphs(), size, text@.take(n)) <= u32::MAX,
    ensures
        r == text_width(font.spec_glyphs(), size, text@),
{
    proof {
        broadcast use vstd::string::group_string_axioms;
    }
    let ghost gs = font.spec_glyphs();
    let mut x: u32 = 0;
    let mut it = text.chars();
    let ghost mut n: int = 0;
    assert(text@.take(0) =~= Seq::<char>::empty());
    loop
        invariant
            font.wf(),
            gs == font.spec_glyphs(),
            0 <= n <= text@.len(),
            it.remaining() == text@.skip(n),
            x == text_width(gs, size, text@.take(n)),
            forall|m: int| 0 <= m <= text@.len() ==> #[trigger] text_width(gs, size, text@.take(m)) <= u32::MAX,
        decreases text@.len() - n,
    {
        let next = it.next();
        proof {
            broadcast use vstd::string::next_postcondition;
        }
        match next {
            None => {
                assert(text@.skip(n).len() == 0);
                assert(text@.take(n) =~= text@);
                return x;
            },
            Some(c) => {
                let glyph = font.get(c);
                proof {
                    assert(text@.take(n + 1).drop_last() =~= text@.take(n));
                    assert(text@.take(n + 1).last() == c);
                    assert(text_width(gs, size, text@.take(n + 1)) <= u32::MAX);
                    assert(size * glyph.bounding_box.width >= 0) by (nonlinear_arith);
                    assert(it.remaining() =~= text@.skip(n + 1));
                    n = n + 1;
                }
                x = x + size * glyph.bounding_box.width + size * 2;
            },
        }
    }
}

} // verus!
