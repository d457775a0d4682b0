use drivers::font::get_fira_code_char;

#[test]
fn glyph_of_capital_a() {
    let g = get_fira_code_char('A').unwrap();
    assert_eq!(
        g,
        [0, 0, 0x18, 0x3C, 0x66, 0x66, 0x66, 0x7E, 0x66, 0x66, 0x66, 0x66, 0x66, 0, 0, 0]
    );
}

#[test]
fn glyphs_end_at_code_255() {
    assert_eq!(get_fira_code_char('\u{ff}'), Some([0; 16]));
    assert_eq!(get_fira_code_char('\u{100}'), None);
}
