use drivers::font::{fallback_byte, get_fira_code_font};
use drivers::outlines::{create_glyph_outline, get_glyph_outline};
use drivers::raster::draw_line;
use drivers::text::fill_name;
use drivers::vector_font::{
    include_fira_code_ttf, parse_font, rasterize_glyph, FontError, GlyphCache,
};
use drivers::words::{is_word, parse_number, push_decimal, push_hex, split_words};

#[test]
fn lines_reach_both_ends() {
    let mut b = [0u8; 1024];
    draw_line(2, 3, 9, 20, &mut b, 32);
    assert_ne!(b[3 * 32 + 2], 0);
    assert_ne!(b[20 * 32 + 9], 0);
    for (i, p) in b.iter().enumerate() {
        if *p != 0 {
            let (x, y) = (i % 32, i / 32);
            assert!((2..=9).contains(&x) && (3..=20).contains(&y));
        }
    }
}

#[test]
fn lines_outside_draw_nothing() {
    let mut b = [0u8; 1024];
    draw_line(-5, -5, -1, -9, &mut b, 32);
    assert!(b.iter().all(|p| *p == 0));
}

#[test]
fn glyphs_are_cached() {
    let mut c = GlyphCache::new();
    let o = create_glyph_outline('A');
    let lines: Vec<Vec<(i32, i32)>> =
        o.contours.iter().map(|k| k.points.iter().map(|p| (p.x, p.y)).collect()).collect();
    let first = c.get_glyph('A', &lines).unwrap();
    assert!(first.valid);
    let again = c.get_glyph('A', &vec![]).unwrap();
    assert_eq!(first.bitmap, again.bitmap);
    c.clear();
    assert!(!c.entries[65].valid);
    assert!(rasterize_glyph(&vec![]).bitmap.iter().all(|p| *p == 0));
    assert_eq!((o.contours.len(), o.advance_width), (1, 800));
    assert_eq!(get_glyph_outline('A').contours.len(), 2);
    assert_eq!(get_glyph_outline(' ').advance_width, 400);
}

#[test]
fn fonts_have_tables() {
    assert!(matches!(parse_font(&[0; 4]), Err(FontError::InvalidFont)));
    assert_eq!(include_fira_code_ttf().len(), 256);
    let _ = parse_font(&include_fira_code_ttf());
    assert_eq!(get_fira_code_font().len() % 16, 0);
    assert_eq!(fallback_byte(32, 0), 0);
}

#[test]
fn names_end_with_zero() {
    let f = fill_name("abc");
    assert_eq!(f[0..4], *b"abc\0");
    assert!(f[3..].iter().all(|b| *b == 0));
}

#[test]
fn words_and_numbers() {
    let w = split_words("  one two  ");
    assert_eq!(w.len(), 2);
    assert!(is_word(&w[0], "one") && !is_word(&w[1], "tw"));
    let n: Vec<char> = "+0412".chars().collect();
    assert_eq!(parse_number(&n, 1, 5, 1000), Some(412));
    assert_eq!(parse_number(&n, 1, 5, 411), None);
    assert_eq!(parse_number(&n, 2, 2, 9), None);
    let mut s = String::new();
    push_decimal(&mut s, 1024);
    push_hex(&mut s, 0x2F, 4);
    assert_eq!(s, "1024002F");
    for v in [0u64, 9, 10, 65_535] {
        let mut s = String::new();
        push_decimal(&mut s, v);
        let c: Vec<char> = s.chars().collect();
        assert_eq!(parse_number(&c, 0, c.len(), 70_000), Some(v));
    }
}
