use justshow::bdf_parser::parse;
use justshow::canvas::{BitmapBackend, Canvas, Color, Vector2};
use justshow::glyph::{glyph_bdf, text_bdf_width, BdfCharMap};

const FONT: &str = "STARTFONT 2.1 FONT f SIZE 8 75 75 FONTBOUNDINGBOX 8 8 0 0 \
    STARTPROPERTIES 0 ENDPROPERTIES CHARS 3 \
    STARTCHAR A ENCODING 65 SWIDTH 1 0 DWIDTH 8 0 BBX 2 2 0 0 BITMAP 01 02 ENDCHAR \
    STARTCHAR A2 ENCODING 65 SWIDTH 1 0 DWIDTH 8 0 BBX 3 1 0 0 BITMAP 07 ENDCHAR \
    STARTCHAR other ENCODING 300 SWIDTH 1 0 DWIDTH 8 0 BBX 1 1 0 0 BITMAP 01 ENDCHAR ENDFONT";

#[test]
fn char_map_takes_last_glyph_of_a_code() {
    let map = BdfCharMap::new(parse(FONT).unwrap());
    assert_eq!(map.get('A').name, "A2");
    assert_eq!(map.get('B').name, "other");
    assert_eq!(map.get('\u{12c}').name, "other");
    assert_eq!(map.get('\u{2603}').name, "other");
}

#[test]
fn text_width_adds_glyph_widths() {
    let map = BdfCharMap::new(parse(FONT).unwrap());
    assert_eq!(text_bdf_width(&map, 1, "AB"), (3 + 2) + (1 + 2));
    assert_eq!(text_bdf_width(&map, 2, ""), 0);
}

#[test]
fn glyph_squares() {
    let font = parse(FONT).unwrap();
    let mut canvas = Canvas::with_backend(BitmapBackend::new(Vector2 { x: 16, y: 16 }));
    glyph_bdf(&mut canvas, Vector2 { x: 0, y: 0 }, 1, &font.glyphs[0], Color::from_raw(0xff0000ff));
    let buf = canvas.raw_buf();
    let lit: Vec<usize> = (0..256).filter(|p| buf[p * 4] == 0xff).collect();
    assert_eq!(lit, vec![5 * 16 + 8, 6 * 16 + 7]);
    let mut big = Canvas::with_backend(BitmapBackend::new(Vector2 { x: 32, y: 32 }));
    glyph_bdf(&mut big, Vector2 { x: 0, y: 0 }, 2, &font.glyphs[0], Color::from_raw(0xff0000ff));
    let lit = (0..1024).filter(|p| big.raw_buf()[p * 4] == 0xff).count();
    assert_eq!(lit, 8);
}
