//! Reading a BDF font from its tokens.
use vstd::prelude::*;

use crate::bdf::{
    Encoding, Font, FontBoundingBox, FontModel, Glyph, GlyphModel, Number, NumberModel,
    ParserError, ParserErrorModel, Property, PropertyValue, PropertyValueModel, Size, Vector2,
};
use crate::bdf_chars::spec_char_indices;
use crate::bdf_lexer::{
    chars_of, lemma_step_progress, lex_step, LexStep, Lexer, Spanned, StringValidity, Token,
};

verus! {

/// The outcome of a step of the parser: a value with the lexer position and mode after it,
/// a refusal, or a panic of the reading code.
pub enum PStep<T> {
    Done(T, usize, bool),
    Fail(ParserErrorModel),
    Panic,
}

/// The characters from `f` to `t`.
pub open spec fn text(ix: Seq<(usize, char)>, f: usize, t: usize) -> Seq<char> {
    chars_of(ix).subrange(f as int, t as int)
}

/// The next token; running out of tokens is an error.
pub open spec fn p_next(ix: Seq<(usize, char)>, p: usize, b: bool) -> PStep<Spanned<Token>> {
    match lex_step(ix, p as int, b) {
        LexStep::End => PStep::Fail(ParserErrorModel::UnexpectedEof),
        LexStep::Overflow => PStep::Panic,
        LexStep::Item(t, p2, b2) => PStep::Done(t, p2, b2),
    }
}

/// The keyword `expected`.
pub open spec fn p_keyword(ix: Seq<(usize, char)>, p: usize, b: bool, expected: Seq<char>) -> PStep<()> {
    match p_next(ix, p, b) {
        PStep::Done(t, p2, b2) => match t.value {
            Token::Keyword(f, e) => if text(ix, f, e) == expected {
                PStep::Done((), p2, b2)
            } else {
                PStep::Fail(ParserErrorModel::InvalidArgument(t.span))
            },
            _ => PStep::Fail(ParserErrorModel::InvalidArgument(t.span)),
        },
        PStep::Fail(e) => PStep::Fail(e),
        PStep::Panic => PStep::Panic,
    }
}

/// Any keyword, given by the positions of its text.
pub open spec fn p_any_keyword(ix: Seq<(usize, char)>, p: usize, b: bool) -> PStep<(usize, usize)> {
    match p_next(ix, p, b) {
        PStep::Done(t, p2, b2) => match t.value {
            Token::Keyword(f, e) => PStep::Done((f, e), p2, b2),
            _ => PStep::Fail(ParserErrorModel::InvalidArgument(t.span)),
        },
        PStep::Fail(e) => PStep::Fail(e),
        PStep::Panic => PStep::Panic,
    }
}

/// An integer.
pub open spec fn p_integer(ix: Seq<(usize, char)>, p: usize, b: bool) -> PStep<i32> {
    match p_next(ix, p, b) {
        PStep::Done(t, p2, b2) => match t.value {
            Token::Integer(i) => PStep::Done(i, p2, b2),
            _ => PStep::Fail(ParserErrorModel::InvalidArgument(t.span)),
        },
        PStep::Fail(e) => PStep::Fail(e),
        PStep::Panic => PStep::Panic,
    }
}

/// A number: an integer or a decimal fraction.
pub open spec fn p_number(ix: Seq<(usize, char)>, p: usize, b: bool) -> PStep<NumberModel> {
    match p_next(ix, p, b) {
        PStep::Done(t, p2, b2) => match t.value {
            Token::Number(f, e) => PStep::Done(NumberModel::Float(text(ix, f, e)), p2, b2),
            Token::Integer(i) => PStep::Done(NumberModel::Integer(i), p2, b2),
            _ => PStep::Fail(ParserErrorModel::InvalidArgument(t.span)),
        },
        PStep::Fail(e) => PStep::Fail(e),
        PStep::Panic => PStep::Panic,
    }
}

/// The value of a property: a number or a closed quoted string.
pub open spec fn p_property_value(ix: Seq<(usize, char)>, p: usize, b: bool) -> PStep<PropertyValueModel> {
    match p_next(ix, p, b) {
        PStep::Done(t, p2, b2) => match t.value {
            Token::Number(f, e) => PStep::Done(
                PropertyValueModel::Number(NumberModel::Float(text(ix, f, e))),
                p2,
                b2,
            ),
            Token::Integer(i) => PStep::Done(PropertyValueModel::Number(NumberModel::Integer(i)), p2, b2),
            Token::String(f, e, v) => if v == StringValidity::Valid {
                PStep::Done(PropertyValueModel::String(text(ix, f, e)), p2, b2)
            } else {
                PStep::Fail(ParserErrorModel::UnclosedString(t.span))
            },
            _ => PStep::Fail(ParserErrorModel::InvalidArgument(t.span)),
        },
        PStep::Fail(e) => PStep::Fail(e),
        PStep::Panic => PStep::Panic,
    }
}

/// Two integers.
pub open spec fn p_int2(ix: Seq<(usize, char)>, p: usize, b: bool) -> PStep<(i32, i32)> {
    match p_integer(ix, p, b) {
        PStep::Done(x, p1, b1) => match p_integer(ix, p1, b1) {
            PStep::Done(y, p2, b2) => PStep::Done((x, y), p2, b2),
            PStep::Fail(e) => PStep::Fail(e),
            PStep::Panic => PStep::Panic,
        },
        PStep::Fail(e) => PStep::Fail(e),
        PStep::Panic => PStep::Panic,
    }
}

/// Two numbers.
pub open spec fn p_num2(ix: Seq<(usize, char)>, p: usize, b: bool) -> PStep<(NumberModel, NumberModel)> {
    match p_number(ix, p, b) {
        PStep::Done(x, p1, b1) => match p_number(ix, p1, b1) {
            PStep::Done(y, p2, b2) => PStep::Done((x, y), p2, b2),
            PStep::Fail(e) => PStep::Fail(e),
            PStep::Panic => PStep::Panic,
        },
        PStep::Fail(e) => PStep::Fail(e),
        PStep::Panic => PStep::Panic,
    }
}

/// Three integers.
pub open spec fn p_int3(ix: Seq<(usize, char)>, p: usize, b: bool) -> PStep<(i32, i32, i32)> {
    match p_int2(ix, p, b) {
        PStep::Done(xy, p1, b1) => match p_integer(ix, p1, b1) {
            PStep::Done(z, p2, b2) => PStep::Done((xy.0, xy.1, z), p2, b2),
            PStep::Fail(e) => PStep::Fail(e),
            PStep::Panic => PStep::Panic,
        },
        PStep::Fail(e) => PStep::Fail(e),
        PStep::Panic => PStep::Panic,
    }
}

/// Four integers.
pub open spec fn p_int4(ix: Seq<(usize, char)>, p: usize, b: bool) -> PStep<(i32, i32, i32, i32)> {
    match p_int2(ix, p, b) {
        PStep::Done(xy, p1, b1) => match p_int2(ix, p1, b1) {
            PStep::Done(zw, p2, b2) => PStep::Done((xy.0, xy.1, zw.0, zw.1), p2, b2),
            PStep::Fail(e) => PStep::Fail(e),
            PStep::Panic => PStep::Panic,
        },
        PStep::Fail(e) => PStep::Fail(e),
        PStep::Panic => PStep::Panic,
    }
}

/// The integer that the next token holds, if it holds one (the token is only looked at).
pub open spec fn peek_integer(ix: Seq<(usize, char)>, p: usize, b: bool) -> Option<i32> {
    match lex_step(ix, p as int, b) {
        LexStep::Item(t, _, _) => match t.value {
            Token::Integer(i) => Some(i),
            _ => None,
        },
        _ => None,
    }
}

/// Byte `k` (0 to 3) of the little-endian encoding of `n`.
pub open spec fn le_byte(n: i32, k: int) -> u8 {
    let u = n as u32;
    if k == 0 {
        (u % 256) as u8
    } else if k == 1 {
        ((u / 256) % 256) as u8
    } else if k == 2 {
        ((u / 65536) % 256) as u8
    } else {
        ((u / 16777216) % 256) as u8
    }
}

/// The first `w` bytes of the little-endian encoding of `n`.
pub open spec fn row_bytes(n: i32, w: int) -> Seq<u8> {
    Seq::new(w as nat, |k: int| le_byte(n, k))
}

/// The bytes a bitmap row keeps are the little-endian bytes of its integer: byte `k` is
/// bits `8k` to `8k + 7` of the integer's 32-bit pattern.
pub proof fn lemma_row_bytes_little_endian(n: i32, w: int)
    requires
        0 <= w <= 4,
    ensures
        row_bytes(n, w).len() == w,
        forall|k: int|
            0 <= k < w ==> #[trigger] row_bytes(n, w)[k] == (((n as u32) >> ((8 * k) as u32))
                & 0xff) as u8,
{
    assert forall|k: int| 0 <= k < w implies #[trigger] row_bytes(n, w)[k] == (((n as u32) >> ((8
        * k) as u32)) & 0xff) as u8 by {
        lemma_le_byte_shift(n, k);
    }
}

/// Byte `k` of the little-endian encoding is bits `8k` to `8k + 7`.
proof fn lemma_le_byte_shift(n: i32, k: int)
    requires
        0 <= k < 4,
    ensures
        le_byte(n, k) == (((n as u32) >> ((8 * k) as u32)) & 0xff) as u8,
{
    let u = n as u32;
    if k == 0 {
        assert((u % 256) as u8 == ((u >> 0u32) & 0xff) as u8) by (bit_vector);
    } else if k == 1 {
        assert(((u / 256) % 256) as u8 == ((u >> 8u32) & 0xff) as u8) by (bit_vector);
    } else if k == 2 {
        assert(((u / 65536) % 256) as u8 == ((u >> 16u32) & 0xff) as u8) by (bit_vector);
    } else {
        assert(((u / 16777216) % 256) as u8 == ((u >> 24u32) & 0xff) as u8) by (bit_vector);
    }
}

/// `left` rows of a bitmap, each an integer of which the first `w` little-endian bytes are
/// kept, after the bytes `acc`.
pub open spec fn p_rows(ix: Seq<(usize, char)>, p: usize, b: bool, left: nat, w: int, acc: Seq<u8>) -> PStep<Seq<u8>>
    decreases left,
{
    if left == 0 {
        PStep::Done(acc, p, b)
    } else {
        match p_integer(ix, p, b) {
            PStep::Done(n, p1, b1) => if w > 4 {
                PStep::Panic
            } else {
                p_rows(ix, p1, b1, (left - 1) as nat, w, acc + row_bytes(n, w))
            },
            PStep::Fail(e) => PStep::Fail(e),
            PStep::Panic => PStep::Panic,
        }
    }
}

/// Which properties of a glyph were given.
#[derive(Clone, Copy)]
pub struct GlyphFlags {
    pub encoding: bool,
    pub s_width: bool,
    pub d_width: bool,
    pub s_width1: bool,
    pub d_width1: bool,
    pub v_vector: bool,
    pub bbx: bool,
}

/// No property given.
pub open spec fn no_glyph_flags() -> GlyphFlags {
    GlyphFlags {
        encoding: false,
        s_width: false,
        d_width: false,
        s_width1: false,
        d_width1: false,
        v_vector: false,
        bbx: false,
    }
}

/// A glyph named `name` before any of its properties is read.
pub open spec fn initial_glyph(name: Seq<char>) -> GlyphModel {
    GlyphModel {
        name,
        encoding: Encoding::AdobeStandard(0),
        s_width: (NumberModel::Integer(0), NumberModel::Integer(0)),
        d_width: (0, 0),
        s_width1: (NumberModel::Integer(0), NumberModel::Integer(0)),
        d_width1: (0, 0),
        v_vector: None,
        bounding_box: FontBoundingBox { width: 0, height: 0, x_off: 0, y_off: 0 },
        bitmap: Seq::empty(),
    }
}

/// The error for a property that a glyph lacks when its bitmap starts, if one is missing.
pub open spec fn missing_glyph_property(name: Seq<char>, metric_set: i32, f: GlyphFlags) -> Option<ParserErrorModel> {
    if !f.encoding {
        Some(ParserErrorModel::MissingGlyphProperty(name, "ENCODING"@))
    } else if !f.s_width {
        Some(ParserErrorModel::MissingGlyphProperty(name, "SWIDTH"@))
    } else if !f.d_width {
        Some(ParserErrorModel::MissingGlyphProperty(name, "DWIDTH"@))
    } else if metric_set != 0 && !f.s_width1 {
        Some(ParserErrorModel::MissingGlyphProperty(name, "SWIDTH1"@))
    } else if metric_set != 0 && !f.d_width1 {
        Some(ParserErrorModel::MissingGlyphProperty(name, "DWIDTH1"@))
    } else if !f.bbx {
        Some(ParserErrorModel::MissingGlyphProperty(name, "BBX"@))
    } else {
        None
    }
}

/// The bitmap of glyph `g`, from position `p`, up to and including `ENDCHAR`.
pub open spec fn p_bitmap(ix: Seq<(usize, char)>, p: usize, b: bool, g: GlyphModel) -> PStep<GlyphModel> {
    let width = g.bounding_box.width;
    if width + 7 > u32::MAX {
        PStep::Panic
    } else {
        let w = (width + 7) / 8;
        match p_rows(ix, p, b, g.bounding_box.height as nat, w, Seq::empty()) {
            PStep::Done(bits, p2, b2) => match p_keyword(ix, p2, b2, "ENDCHAR"@) {
                PStep::Done(_, p3, b3) => PStep::Done(GlyphModel { bitmap: bits, ..g }, p3, b3),
                PStep::Fail(e) => PStep::Fail(e),
                PStep::Panic => PStep::Panic,
            },
            PStep::Fail(e) => PStep::Fail(e),
            PStep::Panic => PStep::Panic,
        }
    }
}

/// One property of glyph `name` given after its keyword `kw` (other than `BITMAP`), from
/// position `p`: the glyph and flags with it recorded.
pub open spec fn p_glyph_entry(
    ix: Seq<(usize, char)>,
    p: usize,
    b: bool,
    metric_set: i32,
    name: Seq<char>,
    kw: Seq<char>,
    g: GlyphModel,
    f: GlyphFlags,
) -> PStep<(GlyphModel, GlyphFlags)> {
    if kw == "ENCODING"@ {
        if f.encoding {
            PStep::Fail(ParserErrorModel::DuplicateGlyphProperty(name, "ENCODING"@))
        } else {
            match p_integer(ix, p, b) {
                PStep::Done(i, p2, b2) => if i < 0 && lex_step(ix, p2 as int, b2) is Overflow {
                    PStep::Panic
                } else {
                    let enc = if i < 0 {
                        Encoding::NonStandard(peek_integer(ix, p2, b2))
                    } else {
                        Encoding::AdobeStandard(i as u32)
                    };
                    PStep::Done((GlyphModel { encoding: enc, ..g }, GlyphFlags { encoding: true, ..f }), p2, b2)
                },
                PStep::Fail(e) => PStep::Fail(e),
                PStep::Panic => PStep::Panic,
            }
        }
    } else if kw == "SWIDTH"@ {
        if f.s_width {
            PStep::Fail(ParserErrorModel::DuplicateGlyphProperty(name, "SWIDTH"@))
        } else {
            match p_num2(ix, p, b) {
                PStep::Done(v, p2, b2) => {
                    PStep::Done((GlyphModel { s_width: v, ..g }, GlyphFlags { s_width: true, ..f }), p2, b2)
                },
                PStep::Fail(e) => PStep::Fail(e),
                PStep::Panic => PStep::Panic,
            }
        }
    } else if kw == "DWIDTH"@ {
        if f.d_width {
            PStep::Fail(ParserErrorModel::DuplicateGlyphProperty(name, "DWIDTH"@))
        } else {
            match p_int2(ix, p, b) {
                PStep::Done(v, p2, b2) => {
                    PStep::Done((GlyphModel { d_width: v, ..g }, GlyphFlags { d_width: true, ..f }), p2, b2)
                },
                PStep::Fail(e) => PStep::Fail(e),
                PStep::Panic => PStep::Panic,
            }
        }
    } else if kw == "SWIDTH1"@ && metric_set != 0 {
        if f.s_width1 {
            PStep::Fail(ParserErrorModel::DuplicateGlyphProperty(name, "SWIDTH1"@))
        } else {
            match p_num2(ix, p, b) {
                PStep::Done(v, p2, b2) => {
                    PStep::Done((GlyphModel { s_width1: v, ..g }, GlyphFlags { s_width1: true, ..f }), p2, b2)
                },
                PStep::Fail(e) => PStep::Fail(e),
                PStep::Panic => PStep::Panic,
            }
        }
    } else if kw == "DWIDTH1"@ && metric_set != 0 {
        if f.d_width1 {
            PStep::Fail(ParserErrorModel::DuplicateGlyphProperty(name, "DWIDTH1"@))
        } else {
            match p_int2(ix, p, b) {
                PStep::Done(v, p2, b2) => {
                    PStep::Done((GlyphModel { d_width1: v, ..g }, GlyphFlags { d_width1: true, ..f }), p2, b2)
                },
                PStep::Fail(e) => PStep::Fail(e),
                PStep::Panic => PStep::Panic,
            }
        }
    } else if kw == "VVECTOR"@ {
        if f.v_vector {
            PStep::Fail(ParserErrorModel::DuplicateGlyphProperty(name, "VVECTOR"@))
        } else {
            match p_int2(ix, p, b) {
                PStep::Done(v, p2, b2) => {
                    PStep::Done((GlyphModel { v_vector: Some(v), ..g }, GlyphFlags { v_vector: true, ..f }), p2, b2)
                },
                PStep::Fail(e) => PStep::Fail(e),
                PStep::Panic => PStep::Panic,
            }
        }
    } else if kw == "BBX"@ {
        if f.bbx {
            PStep::Fail(ParserErrorModel::DuplicateGlyphProperty(name, "BBX"@))
        } else {
            match p_int4(ix, p, b) {
                PStep::Done(v, p2, b2) => {
                    let bbx = FontBoundingBox { width: v.0 as u32, height: v.1 as u32, x_off: v.2, y_off: v.3 };
                    PStep::Done((GlyphModel { bounding_box: bbx, ..g }, GlyphFlags { bbx: true, ..f }), p2, b2)
                },
                PStep::Fail(e) => PStep::Fail(e),
                PStep::Panic => PStep::Panic,
            }
        }
    } else {
        PStep::Fail(ParserErrorModel::InvalidGlyphProperty(name, kw))
    }
}

/// The properties of glyph `name` from position `p`, `g` and `f` holding those read so far.
pub open spec fn p_glyph_loop(
    ix: Seq<(usize, char)>,
    p: usize,
    b: bool,
    metric_set: i32,
    name: Seq<char>,
    g: GlyphModel,
    f: GlyphFlags,
) -> PStep<GlyphModel>
    decreases ix.len() - p,
{
    match p_any_keyword(ix, p, b) {
        PStep::Done(k, p1, b1) => {
            let kw = text(ix, k.0, k.1);
            if kw == "BITMAP"@ {
                p_glyph_bitmap(ix, p1, b1, metric_set, name, g, f)
            } else {
                match p_glyph_entry(ix, p1, b1, metric_set, name, kw, g, f) {
                    PStep::Done(gf, p2, b2) => if p < p2 && p2 <= ix.len() {
                        p_glyph_loop(ix, p2, b2, metric_set, name, gf.0, gf.1)
                    } else {
                        PStep::Panic
                    },
                    PStep::Fail(e) => PStep::Fail(e),
                    PStep::Panic => PStep::Panic,
                }
            }
        },
        PStep::Fail(e) => PStep::Fail(e),
        PStep::Panic => PStep::Panic,
    }
}

/// A glyph: `STARTCHAR`, its name, its properties and its bitmap.
pub open spec fn p_glyph(ix: Seq<(usize, char)>, p: usize, b: bool, metric_set: i32) -> PStep<GlyphModel> {
    match p_keyword(ix, p, b, "STARTCHAR"@) {
        PStep::Done(_, p1, b1) => match p_any_keyword(ix, p1, b1) {
            PStep::Done(k, p2, b2) => {
                let name = text(ix, k.0, k.1);
                p_glyph_loop(ix, p2, b2, metric_set, name, initial_glyph(name), no_glyph_flags())
            },
            PStep::Fail(e) => PStep::Fail(e),
            PStep::Panic => PStep::Panic,
        },
        PStep::Fail(e) => PStep::Fail(e),
        PStep::Panic => PStep::Panic,
    }
}

/// `left` glyphs after the glyphs `acc`.
pub open spec fn p_glyphs(
    ix: Seq<(usize, char)>,
    p: usize,
    b: bool,
    metric_set: i32,
    left: nat,
    acc: Seq<GlyphModel>,
) -> PStep<Seq<GlyphModel>>
    decreases left,
{
    if left == 0 {
        PStep::Done(acc, p, b)
    } else {
        match p_glyph(ix, p, b, metric_set) {
            PStep::Done(g, p1, b1) => p_glyphs(ix, p1, b1, metric_set, (left - 1) as nat, acc.push(g)),
            PStep::Fail(e) => PStep::Fail(e),
            PStep::Panic => PStep::Panic,
        }
    }
}

/// `left` properties, each a keyword and a value, after the properties `acc`.
pub open spec fn p_properties(
    ix: Seq<(usize, char)>,
    p: usize,
    b: bool,
    left: nat,
    acc: Seq<(Seq<char>, PropertyValueModel)>,
) -> PStep<Seq<(Seq<char>, PropertyValueModel)>>
    decreases left,
{
    if left == 0 {
        PStep::Done(acc, p, b)
    } else {
        match p_any_keyword(ix, p, b) {
            PStep::Done(k, p1, b1) => match p_property_value(ix, p1, b1) {
                PStep::Done(v, p2, b2) => p_properties(ix, p2, b2, (left - 1) as nat, acc.push((text(ix, k.0, k.1), v))),
                PStep::Fail(e) => PStep::Fail(e),
                PStep::Panic => PStep::Panic,
            },
            PStep::Fail(e) => PStep::Fail(e),
            PStep::Panic => PStep::Panic,
        }
    }
}

/// Which global properties were given.
#[derive(Clone, Copy)]
pub struct FontFlags {
    pub font: bool,
    pub content_version: bool,
    pub size: bool,
    pub font_bounding_box: bool,
    pub metric_set: bool,
    pub properties: bool,
}

/// No global property given.
pub open spec fn no_font_flags() -> FontFlags {
    FontFlags {
        font: false,
        content_version: false,
        size: false,
        font_bounding_box: false,
        metric_set: false,
        properties: false,
    }
}

/// A font of version `version` before any of its global properties is read.
pub open spec fn initial_font(version: NumberModel) -> FontModel {
    FontModel {
        version,
        content_version: None,
        font: Seq::empty(),
        size: Size { point_size: 0, x_res: 0, y_res: 0 },
        font_bounding_box: FontBoundingBox { width: 0, height: 0, x_off: 0, y_off: 0 },
        properties: Seq::empty(),
        metric_set: 0,
        s_width: None,
        d_width: None,
        s_width1: None,
        d_width1: None,
        v_vector: None,
        glyphs: Seq::empty(),
    }
}

/// The error for a global property that a font lacks when its glyphs start, if one is
/// missing.
pub open spec fn missing_global_property(f: FontFlags) -> Option<ParserErrorModel> {
    if !f.properties {
        Some(ParserErrorModel::MissingGlobalProperty("STARTPROPERTIES"@))
    } else if !f.font_bounding_box {
        Some(ParserErrorModel::MissingGlobalProperty("FONTBOUNDINGBOX"@))
    } else if !f.size {
        Some(ParserErrorModel::MissingGlobalProperty("SIZE"@))
    } else if !f.font {
        Some(ParserErrorModel::MissingGlobalProperty("FONT"@))
    } else {
        None
    }
}

/// The glyphs of a font with `font` read so far: their count, the glyphs and `ENDFONT`.
pub open spec fn p_chars(ix: Seq<(usize, char)>, p: usize, b: bool, font: FontModel) -> PStep<FontModel> {
    match p_integer(ix, p, b) {
        PStep::Done(n, p1, b1) => if n < 0 {
            PStep::Panic
        } else {
            match p_glyphs(ix, p1, b1, font.metric_set, n as nat, Seq::empty()) {
                PStep::Done(gs, p2, b2) => match p_keyword(ix, p2, b2, "ENDFONT"@) {
                    PStep::Done(_, p3, b3) => PStep::Done(FontModel { glyphs: gs, ..font }, p3, b3),
                    PStep::Fail(e) => PStep::Fail(e),
                    PStep::Panic => PStep::Panic,
                },
                PStep::Fail(e) => PStep::Fail(e),
                PStep::Panic => PStep::Panic,
            }
        },
        PStep::Fail(e) => PStep::Fail(e),
        PStep::Panic => PStep::Panic,
    }
}

/// The property list: its count, the properties and `ENDPROPERTIES`.
pub open spec fn p_property_list(ix: Seq<(usize, char)>, p: usize, b: bool) -> PStep<Seq<(Seq<char>, PropertyValueModel)>> {
    match p_integer(ix, p, b) {
        PStep::Done(n, p1, b1) => if n < 0 {
            PStep::Panic
        } else {
            match p_properties(ix, p1, b1, n as nat, Seq::empty()) {
                PStep::Done(ps, p2, b2) => match p_keyword(ix, p2, b2, "ENDPROPERTIES"@) {
                    PStep::Done(_, p3, b3) => PStep::Done(ps, p3, b3),
                    PStep::Fail(e) => PStep::Fail(e),
                    PStep::Panic => PStep::Panic,
                },
                PStep::Fail(e) => PStep::Fail(e),
                PStep::Panic => PStep::Panic,
            }
        },
        PStep::Fail(e) => PStep::Fail(e),
        PStep::Panic => PStep::Panic,
    }
}

/// One global property given after its keyword `kw` (other than `CHARS`), from position
/// `p`: the font and flags with it recorded.
pub open spec fn p_font_entry(ix: Seq<(usize, char)>, p: usize, b: bool, kw: Seq<char>, font: FontModel, f: FontFlags) -> PStep<(FontModel, FontFlags)> {
    if kw == "FONT"@ {
        if f.font {
            PStep::Fail(ParserErrorModel::DuplicateGlobalProperty("FONT"@))
        } else {
            match p_any_keyword(ix, p, b) {
                PStep::Done(v, p2, b2) => {
                    PStep::Done((FontModel { font: text(ix, v.0, v.1), ..font }, FontFlags { font: true, ..f }), p2, b2)
                },
                PStep::Fail(e) => PStep::Fail(e),
                PStep::Panic => PStep::Panic,
            }
        }
    } else if kw == "CONTENTVERSION"@ {
        if f.content_version {
            PStep::Fail(ParserErrorModel::DuplicateGlobalProperty("CONTENTVERSION"@))
        } else {
            match p_integer(ix, p, b) {
                PStep::Done(v, p2, b2) => {
                    PStep::Done((FontModel { content_version: Some(v), ..font }, FontFlags { content_version: true, ..f }), p2, b2)
                },
                PStep::Fail(e) => PStep::Fail(e),
                PStep::Panic => PStep::Panic,
            }
        }
    } else if kw == "SIZE"@ {
        if f.size {
            PStep::Fail(ParserErrorModel::DuplicateGlobalProperty("SIZE"@))
        } else {
            match p_int3(ix, p, b) {
                PStep::Done(v, p2, b2) => {
                    let size = Size { point_size: v.0, x_res: v.1, y_res: v.2 };
                    PStep::Done((FontModel { size, ..font }, FontFlags { size: true, ..f }), p2, b2)
                },
                PStep::Fail(e) => PStep::Fail(e),
                PStep::Panic => PStep::Panic,
            }
        }
    } else if kw == "FONTBOUNDINGBOX"@ {
        if f.font_bounding_box {
            PStep::Fail(ParserErrorModel::DuplicateGlobalProperty("FONTBOUNDINGBOX"@))
        } else {
            match p_int4(ix, p, b) {
                PStep::Done(v, p2, b2) => {
                    let bbx = FontBoundingBox { width: v.0 as u32, height: v.1 as u32, x_off: v.2, y_off: v.3 };
                    PStep::Done((FontModel { font_bounding_box: bbx, ..font }, FontFlags { font_bounding_box: true, ..f }), p2, b2)
                },
                PStep::Fail(e) => PStep::Fail(e),
                PStep::Panic => PStep::Panic,
            }
        }
    } else if kw == "METRICSSET"@ {
        if f.metric_set {
            PStep::Fail(ParserErrorModel::DuplicateGlobalProperty("METRICSSET"@))
        } else {
            match p_integer(ix, p, b) {
                PStep::Done(v, p2, b2) => {
                    PStep::Done((FontModel { metric_set: v, ..font }, FontFlags { metric_set: true, ..f }), p2, b2)
                },
                PStep::Fail(e) => PStep::Fail(e),
                PStep::Panic => PStep::Panic,
            }
        }
    } else if kw == "STARTPROPERTIES"@ {
        if f.properties {
            PStep::Fail(ParserErrorModel::DuplicateGlobalProperty("STARTPROPERTIES"@))
        } else {
            match p_property_list(ix, p, b) {
                PStep::Done(ps, p2, b2) => {
                    PStep::Done((FontModel { properties: ps, ..font }, FontFlags { properties: true, ..f }), p2, b2)
                },
                PStep::Fail(e) => PStep::Fail(e),
                PStep::Panic => PStep::Panic,
            }
        }
    } else {
        PStep::Fail(ParserErrorModel::InvalidGlobalProperty(kw))
    }
}

/// The glyphs of a font, once its keyword `CHARS` is read.
pub open spec fn p_font_chars(ix: Seq<(usize, char)>, p: usize, b: bool, font: FontModel, f: FontFlags) -> PStep<FontModel> {
    match missing_global_property(f) {
        Some(e) => PStep::Fail(e),
        None => p_chars(ix, p, b, font),
    }
}

/// The global properties of a font from position `p`, `font` and `f` holding those read so
/// far, up to its glyphs and `ENDFONT`.
pub open spec fn p_font_loop(ix: Seq<(usize, char)>, p: usize, b: bool, font: FontModel, f: FontFlags) -> PStep<FontModel>
    decreases ix.len() - p,
{
    match p_any_keyword(ix, p, b) {
        PStep::Done(k, p1, b1) => {
            let kw = text(ix, k.0, k.1);
            if kw == "CHARS"@ {
                p_font_chars(ix, p1, b1, font, f)
            } else {
                match p_font_entry(ix, p1, b1, kw, font, f) {
                    PStep::Done(ff, p2, b2) => if p < p2 && p2 <= ix.len() {
                        p_font_loop(ix, p2, b2, ff.0, ff.1)
                    } else {
                        PStep::Panic
                    },
                    PStep::Fail(e) => PStep::Fail(e),
                    PStep::Panic => PStep::Panic,
                }
            }
        },
        PStep::Fail(e) => PStep::Fail(e),
        PStep::Panic => PStep::Panic,
    }
}

/// A whole font from position `p` of the indexed text: `STARTFONT`, the version, the global
/// properties and the glyphs.
pub open spec fn p_font(ix: Seq<(usize, char)>, p: usize, b: bool) -> PStep<FontModel> {
    match p_keyword(ix, p, b, "STARTFONT"@) {
        PStep::Done(_, p1, b1) => match p_number(ix, p1, b1) {
            PStep::Done(v, p2, b2) => p_font_loop(ix, p2, b2, initial_font(v), no_font_flags()),
            PStep::Fail(e) => PStep::Fail(e),
            PStep::Panic => PStep::Panic,
        },
        PStep::Fail(e) => PStep::Fail(e),
        PStep::Panic => PStep::Panic,
    }
}

/// The font that `input` describes, or why it is refused; `Panic` where reading it would
/// overflow an integer or request an impossible amount of memory.
pub open spec fn spec_parse(input: Seq<char>) -> PStep<FontModel> {
    p_font(spec_char_indices(input), 0, false)
}

/// The lexer `after` reads the same text as `before`, from no earlier position.
pub open spec fn kept<'a>(before: Lexer<'a>, after: Lexer<'a>) -> bool {
    &&& after.wf()
    &&& after.spec_indices() == before.spec_indices()
    &&& after.spec_source() == before.spec_source()
    &&& after.spec_pos() >= before.spec_pos()
}

/// Why reading a font stopped: the text is refused, or reading it would fail outright (a
/// number too large, a count below zero, a row too wide, or an entry that does not move on).
#[derive(Debug)]
pub enum Halt {
    Refused(ParserError),
    Panic,
}

/// `r`, with the lexer `l` after it, is what the step `s` describes.
pub open spec fn follows<'a, T>(s: PStep<T>, r: Result<T, Halt>, l: Lexer<'a>) -> bool {
    match s {
        PStep::Done(v, p, b) => r == Ok::<T, Halt>(v) && l.spec_pos() == p && l.spec_bitmap() == b,
        PStep::Fail(e) => r matches Err(Halt::Refused(x)) && x@ == e,
        PStep::Panic => r matches Err(Halt::Panic),
    }
}

/// `r`, with the lexer `l` after it, is what the step `s` describes, by its view.
pub open spec fn follows_view<'a, T: View>(s: PStep<T::V>, r: Result<T, Halt>, l: Lexer<'a>) -> bool {
    match s {
        PStep::Done(v, p, b) => r matches Ok(x) && x@ == v && l.spec_pos() == p && l.spec_bitmap() == b,
        PStep::Fail(e) => r matches Err(Halt::Refused(x)) && x@ == e,
        PStep::Panic => r matches Err(Halt::Panic),
    }
}

/// A keyword other than a lone double quote moves the lexer forward.
pub proof fn lemma_keyword_advances(ix: Seq<(usize, char)>, p: usize, b: bool, word: Seq<char>)
    requires
        p <= ix.len() <= usize::MAX,
        p_any_keyword(ix, p, b) matches PStep::Done(k, _, _) && text(ix, k.0, k.1) == word,
        word.len() != 1,
    ensures
        p_any_keyword(ix, p, b) matches PStep::Done(_, p1, _) && p1 > p,
{
    lemma_step_progress(ix, p as int, b);
}

fn next_token(lexer: &mut Lexer) -> (r: Result<Spanned<Token>, Halt>)
    requires
        old(lexer).wf(),
    ensures
        kept(*old(lexer), *final(lexer)),
        follows(p_next(old(lexer).spec_indices(), old(lexer).spec_pos(), old(lexer).spec_bitmap()), r, *final(lexer)),
        r matches Ok(t) ==> crate::bdf_lexer::token_within(t.value, old(lexer).spec_indices().len() as int),
{
    proof {
        old(lexer).lemma_chars();
        lemma_step_progress(lexer.spec_indices(), lexer.spec_pos() as int, lexer.spec_bitmap());
    }
    if lexer.overflows() {
        return Err(Halt::Panic);
    }
    match lexer.next() {
        Some(t) => Ok(t),
        None => Err(Halt::Refused(ParserError::UnexpectedEof)),
    }
}

fn keyword(lexer: &mut Lexer, expected: &'static str) -> (r: Result<(), Halt>)
    requires
        old(lexer).wf(),
    ensures
        kept(*old(lexer), *final(lexer)),
        follows(p_keyword(old(lexer).spec_indices(), old(lexer).spec_pos(), old(lexer).spec_bitmap(), expected@), r, *final(lexer)),
{
    let t = match next_token(lexer) {
        Ok(t) => t,
        Err(e) => return Err(e),
    };
    match t.value {
        Token::Keyword(f, e) => if lexer.text_is(f, e, expected) {
            Ok(())
        } else {
            Err(Halt::Refused(ParserError::InvalidArgument(t.span)))
        },
        _ => Err(Halt::Refused(ParserError::InvalidArgument(t.span))),
    }
}

fn any_keyword(lexer: &mut Lexer) -> (r: Result<(usize, usize), Halt>)
    requires
        old(lexer).wf(),
    ensures
        kept(*old(lexer), *final(lexer)),
        follows(p_any_keyword(old(lexer).spec_indices(), old(lexer).spec_pos(), old(lexer).spec_bitmap()), r, *final(lexer)),
        r matches Ok(k) ==> k.0 <= k.1 <= old(lexer).spec_indices().len(),
{
    let t = match next_token(lexer) {
        Ok(t) => t,
        Err(e) => return Err(e),
    };
    match t.value {
        Token::Keyword(f, e) => Ok((f, e)),
        _ => Err(Halt::Refused(ParserError::InvalidArgument(t.span))),
    }
}

fn integer(lexer: &mut Lexer) -> (r: Result<i32, Halt>)
    requires
        old(lexer).wf(),
    ensures
        kept(*old(lexer), *final(lexer)),
        follows(p_integer(old(lexer).spec_indices(), old(lexer).spec_pos(), old(lexer).spec_bitmap()), r, *final(lexer)),
{
    let t = match next_token(lexer) {
        Ok(t) => t,
        Err(e) => return Err(e),
    };
    match t.value {
        Token::Integer(i) => Ok(i),
        _ => Err(Halt::Refused(ParserError::InvalidArgument(t.span))),
    }
}

fn number(lexer: &mut Lexer) -> (r: Result<Number, Halt>)
    requires
        old(lexer).wf(),
    ensures
        kept(*old(lexer), *final(lexer)),
        follows_view(p_number(old(lexer).spec_indices(), old(lexer).spec_pos(), old(lexer).spec_bitmap()), r, *final(lexer)),
{
    let t = match next_token(lexer) {
        Ok(t) => t,
        Err(e) => return Err(e),
    };
    match t.value {
        Token::Number(f, e) => Ok(Number::Float(lexer.text(f, e))),
        Token::Integer(i) => Ok(Number::Integer(i)),
        _ => Err(Halt::Refused(ParserError::InvalidArgument(t.span))),
    }
}

fn property_value(lexer: &mut Lexer) -> (r: Result<PropertyValue, Halt>)
    requires
        old(lexer).wf(),
    ensures
        kept(*old(lexer), *final(lexer)),
        follows_view(p_property_value(old(lexer).spec_indices(), old(lexer).spec_pos(), old(lexer).spec_bitmap()), r, *final(lexer)),
{
    let t = match next_token(lexer) {
        Ok(t) => t,
        Err(e) => return Err(e),
    };
    match t.value {
        Token::Number(f, e) => Ok(PropertyValue::Number(Number::Float(lexer.text(f, e)))),
        Token::Integer(i) => Ok(PropertyValue::Number(Number::Integer(i))),
        Token::String(f, e, v) => match v {
            StringValidity::Valid => Ok(PropertyValue::String(lexer.text(f, e))),
            StringValidity::Unclosed => Err(Halt::Refused(ParserError::UnclosedString(t.span))),
        },
        _ => Err(Halt::Refused(ParserError::InvalidArgument(t.span))),
    }
}

fn int2(lexer: &mut Lexer) -> (r: Result<(i32, i32), Halt>)
    requires
        old(lexer).wf(),
    ensures
        kept(*old(lexer), *final(lexer)),
        follows(p_int2(old(lexer).spec_indices(), old(lexer).spec_pos(), old(lexer).spec_bitmap()), r, *final(lexer)),
{
    let x = match integer(lexer) {
        Ok(x) => x,
        Err(e) => return Err(e),
    };
    let y = match integer(lexer) {
        Ok(y) => y,
        Err(e) => return Err(e),
    };
    Ok((x, y))
}

fn num2(lexer: &mut Lexer) -> (r: Result<Vector2<Number>, Halt>)
    requires
        old(lexer).wf(),
    ensures
        kept(*old(lexer), *final(lexer)),
        match p_num2(old(lexer).spec_indices(), old(lexer).spec_pos(), old(lexer).spec_bitmap()) {
            PStep::Done(v, p, b) => r matches Ok(x) && crate::bdf::number_pair(x) == v
                && final(lexer).spec_pos() == p && final(lexer).spec_bitmap() == b,
            PStep::Fail(e) => r matches Err(Halt::Refused(x)) && x@ == e,
            PStep::Panic => r matches Err(Halt::Panic),
        },
{
    let width = match number(lexer) {
        Ok(x) => x,
        Err(e) => return Err(e),
    };
    let height = match number(lexer) {
        Ok(y) => y,
        Err(e) => return Err(e),
    };
    Ok(Vector2 { width, height })
}

fn int4(lexer: &mut Lexer) -> (r: Result<(i32, i32, i32, i32), Halt>)
    requires
        old(lexer).wf(),
    ensures
        kept(*old(lexer), *final(lexer)),
        follows(p_int4(old(lexer).spec_indices(), old(lexer).spec_pos(), old(lexer).spec_bitmap()), r, *final(lexer)),
{
    let xy = match int2(lexer) {
        Ok(v) => v,
        Err(e) => return Err(e),
    };
    let zw = match int2(lexer) {
        Ok(v) => v,
        Err(e) => return Err(e),
    };
    Ok((xy.0, xy.1, zw.0, zw.1))
}

fn int3(lexer: &mut Lexer) -> (r: Result<(i32, i32, i32), Halt>)
    requires
        old(lexer).wf(),
    ensures
        kept(*old(lexer), *final(lexer)),
        follows(p_int3(old(lexer).spec_indices(), old(lexer).spec_pos(), old(lexer).spec_bitmap()), r, *final(lexer)),
{
    let xy = match int2(lexer) {
        Ok(v) => v,
        Err(e) => return Err(e),
    };
    let z = match integer(lexer) {
        Ok(v) => v,
        Err(e) => return Err(e),
    };
    Ok((xy.0, xy.1, z))
}

fn row_byte(n: i32, k: usize) -> (r: u8)
    ensures
        r == le_byte(n, k as int),
        k < 4 ==> r == (((n as u32) >> ((8 * k) as u32)) & 0xff) as u8,
{
    proof {
        if k < 4 {
            lemma_le_byte_shift(n, k as int);
        }
    }
    let u = n as u32;
    if k == 0 {
        (u % 256) as u8
    } else if k == 1 {
        ((u / 256) % 256) as u8
    } else if k == 2 {
        ((u / 65536) % 256) as u8
    } else {
        ((u / 16777216) % 256) as u8
    }
}

fn rows(lexer: &mut Lexer, height: u32, w: u32) -> (r: Result<Vec<u8>, Halt>)
    requires
        old(lexer).wf(),
    ensures
        kept(*old(lexer), *final(lexer)),
        match p_rows(old(lexer).spec_indices(), old(lexer).spec_pos(), old(lexer).spec_bitmap(), height as nat, w as int, Seq::empty()) {
            PStep::Done(v, p, b) => r matches Ok(x) && x@ == v && final(lexer).spec_pos() == p
                && final(lexer).spec_bitmap() == b,
            PStep::Fail(e) => r matches Err(Halt::Refused(x)) && x@ == e,
            PStep::Panic => r matches Err(Halt::Panic),
        },
{
    let ghost ix = lexer.spec_indices();
    let ghost goal = p_rows(ix, lexer.spec_pos(), lexer.spec_bitmap(), height as nat, w as int, Seq::empty());
    let ghost start = *lexer;
    let mut out: Vec<u8> = Vec::new();
    let mut h: u32 = 0;
    while h < height
        invariant
            kept(start, *lexer),
            start == *old(lexer),
            ix == start.spec_indices(),
            goal == p_rows(ix, start.spec_pos(), start.spec_bitmap(), height as nat, w as int, Seq::empty()),
            h <= height,
            p_rows(ix, lexer.spec_pos(), lexer.spec_bitmap(), (height - h) as nat, w as int, out@) == goal,
        decreases height - h,
    {
        let n = match integer(lexer) {
            Ok(n) => n,
            Err(e) => return Err(e),
        };
        if w > 4 {
            return Err(Halt::Panic);
        }
        let ghost before = out@;
        let mut k: usize = 0;
        while k < w as usize
            invariant
                w <= 4,
                k <= w,
                out@ == before + row_bytes(n, k as int),
            decreases w - k,
        {
            let byte = row_byte(n, k);
            out.push(byte);
            k = k + 1;
            assert(out@ =~= before + row_bytes(n, k as int));
        }
        h = h + 1;
    }
    Ok(out)
}

#[verifier::rlimit(60)]
fn glyph_entry(
    lexer: &mut Lexer,
    metric_set: i32,
    name: &String,
    k: (usize, usize),
    glyph: &mut Glyph,
    flags: &mut GlyphFlags,
) -> (r: Result<(), Halt>)
    requires
        old(lexer).wf(),
        k.0 <= k.1 <= old(lexer).spec_indices().len(),
    ensures
        kept(*old(lexer), *final(lexer)),
        match p_glyph_entry(old(lexer).spec_indices(), old(lexer).spec_pos(), old(lexer).spec_bitmap(), metric_set, name@, text(old(lexer).spec_indices(), k.0, k.1), old(glyph)@, *old(flags)) {
            PStep::Done(gf, p, b) => r is Ok && final(glyph)@ == gf.0 && *final(flags) == gf.1
                && final(lexer).spec_pos() == p && final(lexer).spec_bitmap() == b,
            PStep::Fail(e) => r matches Err(Halt::Refused(x)) && x@ == e,
            PStep::Panic => r matches Err(Halt::Panic),
        },
{
    if lexer.text_is(k.0, k.1, "ENCODING") {
        if flags.encoding {
            return Err(Halt::Refused(ParserError::DuplicateGlyphProperty(name.clone(), "ENCODING")));
        }
        let i = match integer(lexer) {
            Ok(i) => i,
            Err(e) => return Err(e),
        };
        if i < 0 {
            if lexer.overflows() {
                return Err(Halt::Panic);
            }
            let v = match lexer.peek() {
                Some(t) => match t.value {
                    Token::Integer(value) => Some(value),
                    _ => None,
                },
                None => None,
            };
            glyph.encoding = Encoding::NonStandard(v);
        } else {
            glyph.encoding = Encoding::AdobeStandard(i as u32);
        }
        flags.encoding = true;
    } else if lexer.text_is(k.0, k.1, "SWIDTH") {
        if flags.s_width {
            return Err(Halt::Refused(ParserError::DuplicateGlyphProperty(name.clone(), "SWIDTH")));
        }
        glyph.s_width = match num2(lexer) {
            Ok(v) => v,
            Err(e) => return Err(e),
        };
        flags.s_width = true;
    } else if lexer.text_is(k.0, k.1, "DWIDTH") {
        if flags.d_width {
            return Err(Halt::Refused(ParserError::DuplicateGlyphProperty(name.clone(), "DWIDTH")));
        }
        let v = match int2(lexer) {
            Ok(v) => v,
            Err(e) => return Err(e),
        };
        glyph.d_width = Vector2 { width: v.0, height: v.1 };
        flags.d_width = true;
    } else if metric_set != 0 && lexer.text_is(k.0, k.1, "SWIDTH1") {
        if flags.s_width1 {
            return Err(Halt::Refused(ParserError::DuplicateGlyphProperty(name.clone(), "SWIDTH1")));
        }
        glyph.s_width1 = match num2(lexer) {
            Ok(v) => v,
            Err(e) => return Err(e),
        };
        flags.s_width1 = true;
    } else if metric_set != 0 && lexer.text_is(k.0, k.1, "DWIDTH1") {
        if flags.d_width1 {
            return Err(Halt::Refused(ParserError::DuplicateGlyphProperty(name.clone(), "DWIDTH1")));
        }
        let v = match int2(lexer) {
            Ok(v) => v,
            Err(e) => return Err(e),
        };
        glyph.d_width1 = Vector2 { width: v.0, height: v.1 };
        flags.d_width1 = true;
    } else if lexer.text_is(k.0, k.1, "VVECTOR") {
        if flags.v_vector {
            return Err(Halt::Refused(ParserError::DuplicateGlyphProperty(name.clone(), "VVECTOR")));
        }
        let v = match int2(lexer) {
            Ok(v) => v,
            Err(e) => return Err(e),
        };
        glyph.v_vector = Some(Vector2 { width: v.0, height: v.1 });
        flags.v_vector = true;
    } else if lexer.text_is(k.0, k.1, "BBX") {
        if flags.bbx {
            return Err(Halt::Refused(ParserError::DuplicateGlyphProperty(name.clone(), "BBX")));
        }
        let v = match int4(lexer) {
            Ok(v) => v,
            Err(e) => return Err(e),
        };
        glyph.bounding_box = FontBoundingBox {
            width: v.0 as u32,
            height: v.1 as u32,
            x_off: v.2,
            y_off: v.3,
        };
        flags.bbx = true;
    } else {
        return Err(Halt::Refused(ParserError::InvalidGlyphProperty(name.clone(), lexer.text(k.0, k.1))));
    }
    Ok(())
}

/// The bitmap of a glyph, once its keyword `BITMAP` is read.
pub open spec fn p_glyph_bitmap(ix: Seq<(usize, char)>, p: usize, b: bool, metric_set: i32, name: Seq<char>, g: GlyphModel, f: GlyphFlags) -> PStep<GlyphModel> {
    match missing_glyph_property(name, metric_set, f) {
        Some(e) => PStep::Fail(e),
        None => p_bitmap(ix, p, b, g),
    }
}

fn glyph_bitmap(lexer: &mut Lexer, metric_set: i32, name: &String, glyph: Glyph, flags: GlyphFlags) -> (r: Result<Glyph, Halt>)
    requires
        old(lexer).wf(),
    ensures
        kept(*old(lexer), *final(lexer)),
        follows_view(p_glyph_bitmap(old(lexer).spec_indices(), old(lexer).spec_pos(), old(lexer).spec_bitmap(), metric_set, name@, glyph@, flags), r, *final(lexer)),
{
    let mut glyph = glyph;
    if !flags.encoding {
        return Err(Halt::Refused(ParserError::MissingGlyphProperty(name.clone(), "ENCODING")));
    }
    if !flags.s_width {
        return Err(Halt::Refused(ParserError::MissingGlyphProperty(name.clone(), "SWIDTH")));
    }
    if !flags.d_width {
        return Err(Halt::Refused(ParserError::MissingGlyphProperty(name.clone(), "DWIDTH")));
    }
    if metric_set != 0 {
        if !flags.s_width1 {
            return Err(Halt::Refused(ParserError::MissingGlyphProperty(name.clone(), "SWIDTH1")));
        }
        if !flags.d_width1 {
            return Err(Halt::Refused(ParserError::MissingGlyphProperty(name.clone(), "DWIDTH1")));
        }
    }
    if !flags.bbx {
        return Err(Halt::Refused(ParserError::MissingGlyphProperty(name.clone(), "BBX")));
    }
    if glyph.bounding_box.width > u32::MAX - 7 {
        return Err(Halt::Panic);
    }
    let w = (glyph.bounding_box.width + 7) / 8;
    let bits = match rows(lexer, glyph.bounding_box.height, w) {
        Ok(bits) => bits,
        Err(e) => return Err(e),
    };
    match keyword(lexer, "ENDCHAR") {
        Ok(()) => {},
        Err(e) => return Err(e),
    }
    glyph.bitmap = bits;
    Ok(glyph)
}

#[verifier::rlimit(100)]
fn glyph(lexer: &mut Lexer, metric_set: i32) -> (r: Result<Glyph, Halt>)
    requires
        old(lexer).wf(),
    ensures
        kept(*old(lexer), *final(lexer)),
        follows_view(p_glyph(old(lexer).spec_indices(), old(lexer).spec_pos(), old(lexer).spec_bitmap(), metric_set), r, *final(lexer)),
{
    let ghost ix = lexer.spec_indices();
    let ghost start = *lexer;
    let ghost goal = p_glyph(ix, lexer.spec_pos(), lexer.spec_bitmap(), metric_set);
    match keyword(lexer, "STARTCHAR") {
        Ok(()) => {},
        Err(e) => return Err(e),
    }
    let k = match any_keyword(lexer) {
        Ok(k) => k,
        Err(e) => return Err(e),
    };
    let name = lexer.text(k.0, k.1);
    let mut glyph = Glyph {
        name: name.clone(),
        encoding: Encoding::AdobeStandard(0),
        s_width: Vector2 { width: Number::Integer(0), height: Number::Integer(0) },
        d_width: Vector2 { width: 0, height: 0 },
        s_width1: Vector2 { width: Number::Integer(0), height: Number::Integer(0) },
        d_width1: Vector2 { width: 0, height: 0 },
        v_vector: None,
        bounding_box: FontBoundingBox { width: 0, height: 0, x_off: 0, y_off: 0 },
        bitmap: Vec::new(),
    };
    let mut flags = GlyphFlags {
        encoding: false,
        s_width: false,
        d_width: false,
        s_width1: false,
        d_width1: false,
        v_vector: false,
        bbx: false,
    };
    assert(glyph@ == initial_glyph(name@));
    loop
        invariant
            kept(start, *lexer),
            start == *old(lexer),
            ix == start.spec_indices(),
            goal == p_glyph(ix, start.spec_pos(), start.spec_bitmap(), metric_set),
            glyph.name@ == name@,
            p_glyph_loop(ix, lexer.spec_pos(), lexer.spec_bitmap(), metric_set, name@, glyph@, flags) == goal,
        decreases ix.len() - lexer.spec_pos(),
    {
        let at = lexer.position();
        let ghost b0 = lexer.spec_bitmap();
        let ghost g0 = glyph@;
        let ghost f0 = flags;
        let k = match any_keyword(lexer) {
            Ok(k) => k,
            Err(e) => return Err(e),
        };
        if lexer.text_is(k.0, k.1, "BITMAP") {
            return glyph_bitmap(lexer, metric_set, &name, glyph, flags);
        }
        match glyph_entry(lexer, metric_set, &name, k, &mut glyph, &mut flags) {
            Ok(()) => {},
            Err(e) => return Err(e),
        }
        if lexer.position() <= at {
            return Err(Halt::Panic);
        }
        proof {
            lexer.lemma_chars();
            assert(lexer.spec_pos() <= ix.len());
            assert(p_glyph_loop(ix, at, b0, metric_set, name@, g0, f0) == p_glyph_loop(
                ix,
                lexer.spec_pos(),
                lexer.spec_bitmap(),
                metric_set,
                name@,
                glyph@,
                flags,
            ));
        }
    }
}

fn glyphs(lexer: &mut Lexer, metric_set: i32, n: i32) -> (r: Result<Vec<Glyph>, Halt>)
    requires
        old(lexer).wf(),
        n >= 0,
    ensures
        kept(*old(lexer), *final(lexer)),
        match p_glyphs(old(lexer).spec_indices(), old(lexer).spec_pos(), old(lexer).spec_bitmap(), metric_set, n as nat, Seq::empty()) {
            PStep::Done(v, p, b) => r matches Ok(x) && x@.map_values(|g: Glyph| g@) == v
                && final(lexer).spec_pos() == p && final(lexer).spec_bitmap() == b,
            PStep::Fail(e) => r matches Err(Halt::Refused(x)) && x@ == e,
            PStep::Panic => r matches Err(Halt::Panic),
        },
{
    let ghost ix = lexer.spec_indices();
    let ghost start = *lexer;
    let ghost goal = p_glyphs(ix, lexer.spec_pos(), lexer.spec_bitmap(), metric_set, n as nat, Seq::empty());
    let mut out: Vec<Glyph> = Vec::new();
    let mut i: i32 = 0;
    assert(out@.map_values(|g: Glyph| g@) =~= Seq::<GlyphModel>::empty());
    while i < n
        invariant
            kept(start, *lexer),
            start == *old(lexer),
            ix == start.spec_indices(),
            goal == p_glyphs(ix, start.spec_pos(), start.spec_bitmap(), metric_set, n as nat, Seq::empty()),
            0 <= i <= n,
            p_glyphs(ix, lexer.spec_pos(), lexer.spec_bitmap(), metric_set, (n - i) as nat, out@.map_values(|g: Glyph| g@)) == goal,
        decreases n - i,
    {
        let g = match glyph(lexer, metric_set) {
            Ok(g) => g,
            Err(e) => return Err(e),
        };
        let ghost before = out@.map_values(|g: Glyph| g@);
        let ghost gm = g@;
        out.push(g);
        assert(out@.map_values(|g: Glyph| g@) =~= before.push(gm));
        i = i + 1;
    }
    Ok(out)
}

fn properties(lexer: &mut Lexer, n: i32) -> (r: Result<Vec<Property>, Halt>)
    requires
        old(lexer).wf(),
        n >= 0,
    ensures
        kept(*old(lexer), *final(lexer)),
        match p_properties(old(lexer).spec_indices(), old(lexer).spec_pos(), old(lexer).spec_bitmap(), n as nat, Seq::empty()) {
            PStep::Done(v, p, b) => r matches Ok(x) && x@.map_values(|q: Property| q@) == v
                && final(lexer).spec_pos() == p && final(lexer).spec_bitmap() == b,
            PStep::Fail(e) => r matches Err(Halt::Refused(x)) && x@ == e,
            PStep::Panic => r matches Err(Halt::Panic),
        },
{
    let ghost ix = lexer.spec_indices();
    let ghost start = *lexer;
    let ghost goal = p_properties(ix, lexer.spec_pos(), lexer.spec_bitmap(), n as nat, Seq::empty());
    let mut out: Vec<Property> = Vec::new();
    let mut i: i32 = 0;
    assert(out@.map_values(|q: Property| q@) =~= Seq::<(Seq<char>, PropertyValueModel)>::empty());
    while i < n
        invariant
            kept(start, *lexer),
            start == *old(lexer),
            ix == start.spec_indices(),
            goal == p_properties(ix, start.spec_pos(), start.spec_bitmap(), n as nat, Seq::empty()),
            0 <= i <= n,
            p_properties(ix, lexer.spec_pos(), lexer.spec_bitmap(), (n - i) as nat, out@.map_values(|q: Property| q@)) == goal,
        decreases n - i,
    {
        let k = match any_keyword(lexer) {
            Ok(k) => k,
            Err(e) => return Err(e),
        };
        let name = lexer.text(k.0, k.1);
        let value = match property_value(lexer) {
            Ok(v) => v,
            Err(e) => return Err(e),
        };
        let property = Property { name, value };
        let ghost before = out@.map_values(|q: Property| q@);
        let ghost pm = property@;
        out.push(property);
        assert(out@.map_values(|q: Property| q@) =~= before.push(pm));
        i = i + 1;
    }
    Ok(out)
}

fn property_list(lexer: &mut Lexer) -> (r: Result<Vec<Property>, Halt>)
    requires
        old(lexer).wf(),
    ensures
        kept(*old(lexer), *final(lexer)),
        match p_property_list(old(lexer).spec_indices(), old(lexer).spec_pos(), old(lexer).spec_bitmap()) {
            PStep::Done(v, p, b) => r matches Ok(x) && x@.map_values(|q: Property| q@) == v
                && final(lexer).spec_pos() == p && final(lexer).spec_bitmap() == b,
            PStep::Fail(e) => r matches Err(Halt::Refused(x)) && x@ == e,
            PStep::Panic => r matches Err(Halt::Panic),
        },
{
    let n = match integer(lexer) {
        Ok(n) => n,
        Err(e) => return Err(e),
    };
    if n < 0 {
        return Err(Halt::Panic);
    }
    let list = match properties(lexer, n) {
        Ok(l) => l,
        Err(e) => return Err(e),
    };
    match keyword(lexer, "ENDPROPERTIES") {
        Ok(()) => {},
        Err(e) => return Err(e),
    }
    Ok(list)
}

fn font_chars(lexer: &mut Lexer, font: Font, flags: FontFlags) -> (r: Result<Font, Halt>)
    requires
        old(lexer).wf(),
    ensures
        kept(*old(lexer), *final(lexer)),
        follows_view(p_font_chars(old(lexer).spec_indices(), old(lexer).spec_pos(), old(lexer).spec_bitmap(), font@, flags), r, *final(lexer)),
{
    if !flags.properties {
        return Err(Halt::Refused(ParserError::MissingGlobalProperty("STARTPROPERTIES")));
    }
    if !flags.font_bounding_box {
        return Err(Halt::Refused(ParserError::MissingGlobalProperty("FONTBOUNDINGBOX")));
    }
    if !flags.size {
        return Err(Halt::Refused(ParserError::MissingGlobalProperty("SIZE")));
    }
    if !flags.font {
        return Err(Halt::Refused(ParserError::MissingGlobalProperty("FONT")));
    }
    let n = match integer(lexer) {
        Ok(n) => n,
        Err(e) => return Err(e),
    };
    if n < 0 {
        return Err(Halt::Panic);
    }
    let list = match glyphs(lexer, font.metric_set, n) {
        Ok(l) => l,
        Err(e) => return Err(e),
    };
    match keyword(lexer, "ENDFONT") {
        Ok(()) => {},
        Err(e) => return Err(e),
    }
    let mut font = font;
    font.glyphs = list;
    Ok(font)
}

#[verifier::rlimit(60)]
fn font_entry(lexer: &mut Lexer, k: (usize, usize), font: &mut Font, flags: &mut FontFlags) -> (r: Result<(), Halt>)
    requires
        old(lexer).wf(),
        k.0 <= k.1 <= old(lexer).spec_indices().len(),
    ensures
        kept(*old(lexer), *final(lexer)),
        match p_font_entry(old(lexer).spec_indices(), old(lexer).spec_pos(), old(lexer).spec_bitmap(), text(old(lexer).spec_indices(), k.0, k.1), old(font)@, *old(flags)) {
            PStep::Done(ff, p, b) => r is Ok && final(font)@ == ff.0 && *final(flags) == ff.1
                && final(lexer).spec_pos() == p && final(lexer).spec_bitmap() == b,
            PStep::Fail(e) => r matches Err(Halt::Refused(x)) && x@ == e,
            PStep::Panic => r matches Err(Halt::Panic),
        },
{
    if lexer.text_is(k.0, k.1, "FONT") {
        if flags.font {
            return Err(Halt::Refused(ParserError::DuplicateGlobalProperty("FONT")));
        }
        let v = match any_keyword(lexer) {
            Ok(v) => v,
            Err(e) => return Err(e),
        };
        font.font = lexer.text(v.0, v.1);
        flags.font = true;
    } else if lexer.text_is(k.0, k.1, "CONTENTVERSION") {
        if flags.content_version {
            return Err(Halt::Refused(ParserError::DuplicateGlobalProperty("CONTENTVERSION")));
        }
        let v = match integer(lexer) {
            Ok(v) => v,
            Err(e) => return Err(e),
        };
        font.content_version = Some(v);
        flags.content_version = true;
    } else if lexer.text_is(k.0, k.1, "SIZE") {
        if flags.size {
            return Err(Halt::Refused(ParserError::DuplicateGlobalProperty("SIZE")));
        }
        let v = match int3(lexer) {
            Ok(v) => v,
            Err(e) => return Err(e),
        };
        font.size = Size { point_size: v.0, x_res: v.1, y_res: v.2 };
        flags.size = true;
    } else if lexer.text_is(k.0, k.1, "FONTBOUNDINGBOX") {
        if flags.font_bounding_box {
            return Err(Halt::Refused(ParserError::DuplicateGlobalProperty("FONTBOUNDINGBOX")));
        }
        let v = match int4(lexer) {
            Ok(v) => v,
            Err(e) => return Err(e),
        };
        font.font_bounding_box = FontBoundingBox {
            width: v.0 as u32,
            height: v.1 as u32,
            x_off: v.2,
            y_off: v.3,
        };
        flags.font_bounding_box = true;
    } else if lexer.text_is(k.0, k.1, "METRICSSET") {
        if flags.metric_set {
            return Err(Halt::Refused(ParserError::DuplicateGlobalProperty("METRICSSET")));
        }
        let v = match integer(lexer) {
            Ok(v) => v,
            Err(e) => return Err(e),
        };
        font.metric_set = v;
        flags.metric_set = true;
    } else if lexer.text_is(k.0, k.1, "STARTPROPERTIES") {
        if flags.properties {
            return Err(Halt::Refused(ParserError::DuplicateGlobalProperty("STARTPROPERTIES")));
        }
        let list = match property_list(lexer) {
            Ok(l) => l,
            Err(e) => return Err(e),
        };
        font.properties = list;
        flags.properties = true;
    } else {
        return Err(Halt::Refused(ParserError::InvalidGlobalProperty(lexer.text(k.0, k.1))));
    }
    Ok(())
}

/// The font read from `font`'s starting point: its global properties, then its glyphs.
#[verifier::rlimit(100)]
fn font_loop(lexer: &mut Lexer, initial: Font) -> (r: Result<Font, Halt>)
    requires
        old(lexer).wf(),
    ensures
        kept(*old(lexer), *final(lexer)),
        follows_view(p_font_loop(old(lexer).spec_indices(), old(lexer).spec_pos(), old(lexer).spec_bitmap(), initial@, no_font_flags()), r, *final(lexer)),
{
    let ghost ix = lexer.spec_indices();
    let ghost start = *lexer;
    let ghost goal = p_font_loop(ix, lexer.spec_pos(), lexer.spec_bitmap(), initial@, no_font_flags());
    let ghost font0 = initial@;
    let mut font = initial;
    let mut flags = FontFlags {
        font: false,
        content_version: false,
        size: false,
        font_bounding_box: false,
        metric_set: false,
        properties: false,
    };
    loop
        invariant
            kept(start, *lexer),
            start == *old(lexer),
            ix == start.spec_indices(),
            font0 == initial@,
            goal == p_font_loop(ix, start.spec_pos(), start.spec_bitmap(), font0, no_font_flags()),
            p_font_loop(ix, lexer.spec_pos(), lexer.spec_bitmap(), font@, flags) == goal,
        decreases ix.len() - lexer.spec_pos(),
    {
        let at = lexer.position();
        let ghost b0 = lexer.spec_bitmap();
        let ghost font_before = font@;
        let ghost f0 = flags;
        let k = match any_keyword(lexer) {
            Ok(k) => k,
            Err(e) => return Err(e),
        };
        if lexer.text_is(k.0, k.1, "CHARS") {
            return font_chars(lexer, font, flags);
        }
        match font_entry(lexer, k, &mut font, &mut flags) {
            Ok(()) => {},
            Err(e) => return Err(e),
        }
        if lexer.position() <= at {
            return Err(Halt::Panic);
        }
        proof {
            lexer.lemma_chars();
            assert(lexer.spec_pos() <= ix.len());
            assert(p_font_loop(ix, at, b0, font_before, f0) == p_font_loop(
                ix,
                lexer.spec_pos(),
                lexer.spec_bitmap(),
                font@,
                flags,
            ));
        }
    }
}

/// A parser reading a font from the tokens of a lexer.
pub struct Parser<'src> {
    lexer: Lexer<'src>,
}

impl<'src> Parser<'src> {
    /// The lexer the parser reads from.
    pub closed spec fn spec_lexer(&self) -> Lexer<'src> {
        self.lexer
    }

    /// A parser reading from `lexer`.
    pub fn new(lexer: Lexer<'src>) -> (r: Self)
        ensures
            r.spec_lexer() == lexer,
    {
        Self { lexer }
    }

    /// Reads a whole font: `STARTFONT`, the version, the global properties and the glyphs.
    pub fn parse(self) -> (r: Result<Font, ParserError>)
        requires
            self.spec_lexer().wf(),
            !(p_font(self.spec_lexer().spec_indices(), self.spec_lexer().spec_pos(), self.spec_lexer().spec_bitmap()) is Panic),
        ensures
            match p_font(self.spec_lexer().spec_indices(), self.spec_lexer().spec_pos(), self.spec_lexer().spec_bitmap()) {
                PStep::Done(f, _, _) => r matches Ok(x) && x@ == f,
                PStep::Fail(e) => r matches Err(x) && x@ == e,
                PStep::Panic => false,
            },
    {
        match read_font(self.lexer) {
            Ok(f) => Ok(f),
            Err(Halt::Refused(e)) => Err(e),
            Err(Halt::Panic) => Err(ParserError::UnexpectedEof),
        }
    }

    /// Reads a whole font as `parse` does; `None` where `parse` could not read it (a number
    /// too large, a count below zero, a bitmap row too wide).
    pub fn try_parse(self) -> (r: Option<Result<Font, ParserError>>)
        requires
            self.spec_lexer().wf(),
        ensures
            match p_font(self.spec_lexer().spec_indices(), self.spec_lexer().spec_pos(), self.spec_lexer().spec_bitmap()) {
                PStep::Done(f, _, _) => r matches Some(Ok(x)) && x@ == f,
                PStep::Fail(e) => r matches Some(Err(x)) && x@ == e,
                PStep::Panic => r is None,
            },
    {
        match read_font(self.lexer) {
            Ok(f) => Some(Ok(f)),
            Err(Halt::Refused(e)) => Some(Err(e)),
            Err(Halt::Panic) => None,
        }
    }
}

/// The font read from the start of `lexer`: `STARTFONT`, the version, the global properties
/// and the glyphs.
fn read_font(lexer: Lexer) -> (r: Result<Font, Halt>)
    requires
        lexer.wf(),
    ensures
        match p_font(lexer.spec_indices(), lexer.spec_pos(), lexer.spec_bitmap()) {
            PStep::Done(f, _, _) => r matches Ok(x) && x@ == f,
            PStep::Fail(e) => r matches Err(Halt::Refused(x)) && x@ == e,
            PStep::Panic => r matches Err(Halt::Panic),
        },
{
    let mut lexer = lexer;
    match keyword(&mut lexer, "STARTFONT") {
        Ok(()) => {},
        Err(e) => return Err(e),
    }
    let version = match number(&mut lexer) {
        Ok(v) => v,
        Err(e) => return Err(e),
    };
    let font = Font {
        version,
        content_version: None,
        font: String::new(),
        size: Size { point_size: 0, x_res: 0, y_res: 0 },
        font_bounding_box: FontBoundingBox { width: 0, height: 0, x_off: 0, y_off: 0 },
        properties: Vec::new(),
        metric_set: 0,
        s_width: None,
        d_width: None,
        s_width1: None,
        d_width1: None,
        v_vector: None,
        glyphs: Vec::new(),
    };
    proof {
        assert(font.properties@.map_values(|q: Property| q@) =~= Seq::<(Seq<char>, PropertyValueModel)>::empty());
        assert(font.glyphs@.map_values(|g: Glyph| g@) =~= Seq::<GlyphModel>::empty());
        assert(font@ == initial_font(version@));
    }
    match font_loop(&mut lexer, font) {
        Ok(f) => Ok(f),
        Err(e) => Err(e),
    }
}

/// The font that the BDF text `input` describes, or why it is refused.
pub fn parse(input: &str) -> (r: Result<Font, ParserError>)
    requires
        !(spec_parse(input@) is Panic),
    ensures
        match spec_parse(input@) {
            PStep::Done(f, _, _) => r matches Ok(x) && x@ == f,
            PStep::Fail(e) => r matches Err(x) && x@ == e,
            PStep::Panic => false,
        },
{
    let lexer = Lexer::new(input);
    let parser = Parser::new(lexer);
    parser.parse()
}

/// The font that the BDF text `input` describes, or why it is refused; `None` exactly where
/// `parse` cannot read it.
pub fn try_parse(input: &str) -> (r: Option<Result<Font, ParserError>>)
    ensures
        match spec_parse(input@) {
            PStep::Done(f, _, _) => r matches Some(Ok(x)) && x@ == f,
            PStep::Fail(e) => r matches Some(Err(x)) && x@ == e,
            PStep::Panic => r is None,
        },
{
    let lexer = Lexer::new(input);
    let parser = Parser::new(lexer);
    parser.try_parse()
}

/// Whether `parse` cannot read `input`: reading it would need a number too large, a count
/// below zero or a bitmap row too wide.
pub fn parse_panics(input: &str) -> (r: bool)
    ensures
        r == (spec_parse(input@) is Panic),
{
    try_parse(input).is_none()
}

} // verus!
