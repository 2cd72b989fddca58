use justshow::bdf::{Encoding, FontBoundingBox, Number, ParserError, PropertyValue, Size};
use justshow::bdf_lexer::{Lexer, StringValidity, Token};
use justshow::bdf_parser::parse;

const WIKIPEDIA_FONT: &str = r#"
STARTFONT 2.1
FONT -gnu-unifont-medium-r-normal--16-160-75-75-c-80-iso10646-1
SIZE 16 75 75
FONTBOUNDINGBOX 16 16 0 -2
STARTPROPERTIES 2
FONT_ASCENT 14
FONT_DESCENT 2
ENDPROPERTIES
CHARS 1
STARTCHAR U+0041
ENCODING 65
SWIDTH 500 0
DWIDTH 8 0
BBX 8 16 0 -2
BITMAP
00
00
00
00
18
24
24
42
42
7E
42
42
42
42
00
00
ENDCHAR
ENDFONT
"#;

#[test]
fn wikipedia_example() {
    let font = parse(WIKIPEDIA_FONT).expect("Could not parse font file");
    assert_eq!(font.version, Number::Float("2.1".to_string()));
    if let Number::Float(text) = &font.version {
        assert_eq!(text.parse::<f32>().unwrap(), 2.1);
    }
    assert_eq!(font.glyphs.len(), 1);
}

#[test]
fn wikipedia_example_details() {
    let font = parse(WIKIPEDIA_FONT).unwrap();
    assert_eq!(font.font, "-gnu-unifont-medium-r-normal--16-160-75-75-c-80-iso10646-1");
    assert_eq!(font.size, Size { point_size: 16, x_res: 75, y_res: 75 });
    assert_eq!(
        font.font_bounding_box,
        FontBoundingBox { width: 16, height: 16, x_off: 0, y_off: -2 }
    );
    assert_eq!(font.properties.len(), 2);
    assert_eq!(font.properties[0].name, "FONT_ASCENT");
    assert_eq!(font.properties[0].value, PropertyValue::Number(Number::Integer(14)));
    let glyph = &font.glyphs[0];
    assert_eq!(glyph.name, "U+0041");
    assert_eq!(glyph.encoding, Encoding::AdobeStandard(65));
    assert_eq!(glyph.d_width.width, 8);
    assert_eq!(
        glyph.bitmap,
        vec![0, 0, 0, 0, 0x18, 0x24, 0x24, 0x42, 0x42, 0x7e, 0x42, 0x42, 0x42, 0x42, 0, 0]
    );
}

#[test]
fn lexer_tokens() {
    let source = "KEY -12 3.5 \"text\" \"open";
    let mut lexer = Lexer::new(source);
    assert!(matches!(lexer.next().unwrap().value, Token::Keyword(0, 3)));
    assert_eq!(lexer.next().unwrap().value, Token::Integer(-12));
    let number = lexer.next().unwrap();
    assert_eq!(number.value, Token::Number(8, 11));
    assert_eq!(number.span.start.offset, 8);
    assert_eq!(number.span.end.offset, 10);
    assert_eq!(lexer.next().unwrap().value, Token::String(13, 17, StringValidity::Valid));
    assert_eq!(lexer.next().unwrap().value, Token::String(20, 24, StringValidity::Unclosed));
    assert!(lexer.next().is_none());
    assert_eq!(lexer.text(13, 17), "text");
    assert_eq!(lexer.content(), source);
}

#[test]
fn lexer_bitmap_rows_are_hexadecimal() {
    let mut lexer = Lexer::new("BITMAP 7E ff zz ENDCHAR 10");
    assert!(matches!(lexer.next().unwrap().value, Token::Keyword(0, 6)));
    assert!(lexer.in_bitmap());
    assert_eq!(lexer.next().unwrap().value, Token::Integer(0x7e));
    assert_eq!(lexer.next().unwrap().value, Token::Integer(0xff));
    assert!(matches!(lexer.next().unwrap().value, Token::Keyword(_, _)));
    assert!(matches!(lexer.next().unwrap().value, Token::Keyword(_, _)));
    assert!(!lexer.in_bitmap());
    assert_eq!(lexer.next().unwrap().value, Token::Integer(10));
}

#[test]
fn byte_offsets_follow_utf8() {
    let mut lexer = Lexer::new("é x");
    let first = lexer.next().unwrap();
    assert_eq!(first.span.start.offset, 0);
    let second = lexer.next().unwrap();
    assert_eq!(second.span.start.offset, 3);
    assert_eq!(lexer.text(0, 1), "é");
}

#[test]
fn missing_start_is_invalid_argument() {
    assert!(matches!(parse("FONT x"), Err(ParserError::InvalidArgument(_))));
    assert_eq!(parse(""), Err(ParserError::UnexpectedEof));
}

#[test]
fn duplicate_and_missing_properties() {
    assert_eq!(
        parse("STARTFONT 2.1 SIZE 1 2 3 SIZE 1 2 3"),
        Err(ParserError::DuplicateGlobalProperty("SIZE"))
    );
    assert_eq!(
        parse("STARTFONT 2.1 CHARS 0"),
        Err(ParserError::MissingGlobalProperty("STARTPROPERTIES"))
    );
    assert_eq!(
        parse("STARTFONT 2.1 WHAT"),
        Err(ParserError::InvalidGlobalProperty("WHAT".to_string()))
    );
}

#[test]
fn glyph_errors() {
    let head = "STARTFONT 2.1 FONT f SIZE 1 1 1 FONTBOUNDINGBOX 8 1 0 0 STARTPROPERTIES 0 ENDPROPERTIES CHARS 1 ";
    assert_eq!(
        parse(&format!("{head}STARTCHAR a BITMAP")),
        Err(ParserError::MissingGlyphProperty("a".to_string(), "ENCODING"))
    );
    assert_eq!(
        parse(&format!("{head}STARTCHAR a ENCODING 1 ENCODING 2")),
        Err(ParserError::DuplicateGlyphProperty("a".to_string(), "ENCODING"))
    );
    assert_eq!(
        parse(&format!("{head}STARTCHAR a FOO")),
        Err(ParserError::InvalidGlyphProperty("a".to_string(), "FOO".to_string()))
    );
    let font = parse(&format!(
        "{head}STARTCHAR a ENCODING -1 SWIDTH 1 2 DWIDTH 3 4 BBX 8 1 0 0 BITMAP A5 ENDCHAR ENDFONT"
    ))
    .unwrap();
    assert_eq!(font.glyphs[0].encoding, Encoding::NonStandard(None));
    assert_eq!(font.glyphs[0].bitmap, vec![0xa5]);
}

#[test]
fn unclosed_property_string() {
    let source = "STARTFONT 1 STARTPROPERTIES 1 NAME \"abc\nENDPROPERTIES";
    assert!(matches!(parse(source), Err(ParserError::UnclosedString(_))));
}

#[test]
fn inputs_that_cannot_be_read_are_told_apart() {
    let font = "STARTFONT 2.1 FONT f SIZE 8 75 75 FONTBOUNDINGBOX 8 8 0 0 \
        STARTPROPERTIES 0 ENDPROPERTIES CHARS 1 \
        STARTCHAR A ENCODING 65 SWIDTH 1 0 DWIDTH 8 0 BBX 2 2 0 0 BITMAP 01 02 ENDCHAR ENDFONT";
    assert!(!justshow::bdf_parser::parse_panics(font));
    assert!(matches!(justshow::bdf_parser::try_parse(font), Some(Ok(_))));
    assert!(justshow::bdf_parser::parse_panics("STARTFONT 99999999999"));
    assert!(justshow::bdf_parser::try_parse("STARTFONT 99999999999").is_none());
    let negative = "STARTFONT 2.1 FONT f SIZE 8 75 75 FONTBOUNDINGBOX 8 8 0 0 \
        STARTPROPERTIES 0 ENDPROPERTIES CHARS -1 ENDFONT";
    assert!(justshow::bdf_parser::parse_panics(negative));
    assert!(matches!(justshow::bdf_parser::try_parse("NOTAFONT"), Some(Err(_))));
}

#[test]
fn lexing_keeps_the_source() {
    let text = "STARTFONT 2.1 FONT x";
    let mut lexer = Lexer::new(text);
    while lexer.next().is_some() {}
    assert_eq!(lexer.content(), text);
    assert!(std::ptr::eq(lexer.content(), text));
}
