//! Glyph Bitmap Distribution Format (BDF) fonts: the values a font file describes.
use vstd::prelude::*;

verus! {

/// A byte offset into the source text.
#[derive(Debug, Clone, Copy, PartialEq, Eq, Structural, PartialOrd, Ord, Hash)]
pub struct Location {
    pub offset: usize,
}

/// The first and the last character of a token, both included.
#[derive(Debug, Clone, Copy, PartialEq, Eq, Structural, PartialOrd, Ord, Hash)]
pub struct Span {
    pub start: Location,
    pub end: Location,
}

/// Why a font file was refused.
#[derive(Debug, Clone, PartialEq, Eq, PartialOrd, Ord, Hash)]
pub enum ParserError {
    DuplicateGlobalProperty(&'static str),
    InvalidGlobalProperty(String),
    MissingGlobalProperty(&'static str),
    DuplicateGlyphProperty(String, &'static str),
    InvalidGlyphProperty(String, String),
    MissingGlyphProperty(String, &'static str),
    InvalidArgument(Span),
    UnclosedString(Span),
    UnexpectedEof,
}

/// [`ParserError`] with its texts as character sequences.
pub enum ParserErrorModel {
    DuplicateGlobalProperty(Seq<char>),
    InvalidGlobalProperty(Seq<char>),
    MissingGlobalProperty(Seq<char>),
    DuplicateGlyphProperty(Seq<char>, Seq<char>),
    InvalidGlyphProperty(Seq<char>, Seq<char>),
    MissingGlyphProperty(Seq<char>, Seq<char>),
    InvalidArgument(Span),
    UnclosedString(Span),
    UnexpectedEof,
}

impl View for ParserError {
    type V = ParserErrorModel;

    open spec fn view(&self) -> ParserErrorModel {
        match self {
            ParserError::DuplicateGlobalProperty(p) => ParserErrorModel::DuplicateGlobalProperty(p@),
            ParserError::InvalidGlobalProperty(p) => ParserErrorModel::InvalidGlobalProperty(p@),
            ParserError::MissingGlobalProperty(p) => ParserErrorModel::MissingGlobalProperty(p@),
            ParserError::DuplicateGlyphProperty(g, p) => ParserErrorModel::DuplicateGlyphProperty(
                g@,
                p@,
            ),
            ParserError::InvalidGlyphProperty(g, p) => ParserErrorModel::InvalidGlyphProperty(
                g@,
                p@,
            ),
            ParserError::MissingGlyphProperty(g, p) => ParserErrorModel::MissingGlyphProperty(
                g@,
                p@,
            ),
            ParserError::InvalidArgument(s) => ParserErrorModel::InvalidArgument(*s),
            ParserError::UnclosedString(s) => ParserErrorModel::UnclosedString(*s),
            ParserError::UnexpectedEof => ParserErrorModel::UnexpectedEof,
        }
    }
}

/// Which character a glyph draws.
#[derive(Debug, Clone, Copy, PartialEq, Eq, Structural, PartialOrd, Ord, Hash)]
pub enum Encoding {
    AdobeStandard(u32),
    NonStandard(Option<i32>),
}

/// A number of the file: an integer, or a decimal fraction kept as the text that writes it
/// (such as `-2.5`), which reads as a floating-point value.
#[derive(Debug, Clone, PartialEq, Eq, PartialOrd, Ord, Hash)]
pub enum Number {
    Float(String),
    Integer(i32),
}

/// [`Number`] with its text as a character sequence.
pub enum NumberModel {
    Float(Seq<char>),
    Integer(i32),
}

impl View for Number {
    type V = NumberModel;

    open spec fn view(&self) -> NumberModel {
        match self {
            Number::Float(t) => NumberModel::Float(t@),
            Number::Integer(i) => NumberModel::Integer(*i),
        }
    }
}

/// Point size and resolution.
#[derive(Debug, Clone, Copy, PartialEq, Eq, Structural, PartialOrd, Ord, Hash)]
pub struct Size {
    pub point_size: i32,
    pub x_res: i32,
    pub y_res: i32,
}

/// Width, height and offset of a bounding box.
#[derive(Debug, Clone, Copy, PartialEq, Eq, Structural, PartialOrd, Ord, Hash)]
pub struct FontBoundingBox {
    pub width: u32,
    pub height: u32,
    pub x_off: i32,
    pub y_off: i32,
}

/// A pair of values: a width and a height.
#[derive(Debug, Clone, Copy, PartialEq, Eq, PartialOrd, Ord, Hash)]
pub struct Vector2<T> {
    pub width: T,
    pub height: T,
}

/// One glyph of the font.
#[derive(Debug, Clone, PartialEq, Eq, PartialOrd, Ord, Hash)]
pub struct Glyph {
    pub name: String,
    pub encoding: Encoding,
    pub s_width: Vector2<Number>,
    pub d_width: Vector2<i32>,
    pub s_width1: Vector2<Number>,
    pub d_width1: Vector2<i32>,
    pub v_vector: Option<Vector2<i32>>,
    pub bounding_box: FontBoundingBox,
    pub bitmap: Vec<u8>,
}

/// [`Glyph`] with texts, numbers and bytes as sequences and models.
pub struct GlyphModel {
    pub name: Seq<char>,
    pub encoding: Encoding,
    pub s_width: (NumberModel, NumberModel),
    pub d_width: (i32, i32),
    pub s_width1: (NumberModel, NumberModel),
    pub d_width1: (i32, i32),
    pub v_vector: Option<(i32, i32)>,
    pub bounding_box: FontBoundingBox,
    pub bitmap: Seq<u8>,
}

/// The pair of a [`Vector2`] of integers.
pub open spec fn int_pair(v: Vector2<i32>) -> (i32, i32) {
    (v.width, v.height)
}

/// The pair of models of a [`Vector2`] of numbers.
pub open spec fn number_pair(v: Vector2<Number>) -> (NumberModel, NumberModel) {
    (v.width@, v.height@)
}

impl View for Glyph {
    type V = GlyphModel;

    open spec fn view(&self) -> GlyphModel {
        GlyphModel {
            name: self.name@,
            encoding: self.encoding,
            s_width: number_pair(self.s_width),
            d_width: int_pair(self.d_width),
            s_width1: number_pair(self.s_width1),
            d_width1: int_pair(self.d_width1),
            v_vector: match self.v_vector {
                Some(v) => Some(int_pair(v)),
                None => None,
            },
            bounding_box: self.bounding_box,
            bitmap: self.bitmap@,
        }
    }
}

/// A named property of the font.
#[derive(Debug, Clone, PartialEq, Eq, PartialOrd, Ord, Hash)]
pub struct Property {
    pub name: String,
    pub value: PropertyValue,
}

/// The value of a property: a quoted text or a number.
#[derive(Debug, Clone, PartialEq, Eq, PartialOrd, Ord, Hash)]
pub enum PropertyValue {
    String(String),
    Number(Number),
}

/// [`PropertyValue`] with its text as a sequence.
pub enum PropertyValueModel {
    String(Seq<char>),
    Number(NumberModel),
}

impl View for PropertyValue {
    type V = PropertyValueModel;

    open spec fn view(&self) -> PropertyValueModel {
        match self {
            PropertyValue::String(s) => PropertyValueModel::String(s@),
            PropertyValue::Number(n) => PropertyValueModel::Number(n@),
        }
    }
}

impl View for Property {
    type V = (Seq<char>, PropertyValueModel);

    open spec fn view(&self) -> (Seq<char>, PropertyValueModel) {
        (self.name@, self.value@)
    }
}

/// A font: its global properties and its glyphs.
#[derive(Debug, Clone, PartialEq, Eq, PartialOrd, Ord, Hash)]
pub struct Font {
    pub version: Number,
    pub content_version: Option<i32>,
    pub font: String,
    pub size: Size,
    pub font_bounding_box: FontBoundingBox,
    pub properties: Vec<Property>,
    pub metric_set: i32,
    pub s_width: Option<Vector2<Number>>,
    pub d_width: Option<Vector2<i32>>,
    pub s_width1: Option<Vector2<Number>>,
    pub d_width1: Option<Vector2<i32>>,
    pub v_vector: Option<Vector2<i32>>,
    pub glyphs: Vec<Glyph>,
}

/// [`Font`] with texts, numbers and lists as sequences and models.
pub struct FontModel {
    pub version: NumberModel,
    pub content_version: Option<i32>,
    pub font: Seq<char>,
    pub size: Size,
    pub font_bounding_box: FontBoundingBox,
    pub properties: Seq<(Seq<char>, PropertyValueModel)>,
    pub metric_set: i32,
    pub s_width: Option<(NumberModel, NumberModel)>,
    pub d_width: Option<(i32, i32)>,
    pub s_width1: Option<(NumberModel, NumberModel)>,
    pub d_width1: Option<(i32, i32)>,
    pub v_vector: Option<(i32, i32)>,
    pub glyphs: Seq<GlyphModel>,
}

impl View for Font {
    type V = FontModel;

    open spec fn view(&self) -> FontModel {
        FontModel {
            version: self.version@,
            content_version: self.content_version,
            font: self.font@,
            size: self.size,
            font_bounding_box: self.font_bounding_box,
            properties: self.properties@.map_values(|p: Property| p@),
            metric_set: self.metric_set,
            s_width: match self.s_width {
                Some(v) => Some(number_pair(v)),
                None => None,
            },
            d_width: match self.d_width {
                Some(v) => Some(int_pair(v)),
                None => None,
            },
            s_width1: match self.s_width1 {
                Some(v) => Some(number_pair(v)),
                None => None,
            },
            d_width1: match self.d_width1 {
                Some(v) => Some(int_pair(v)),
                None => None,
            },
            v_vector: match self.v_vector {
                Some(v) => Some(int_pair(v)),
                None => None,
            },
            glyphs: self.glyphs@.map_values(|g: Glyph| g@),
        }
    }
}

} // verus!
