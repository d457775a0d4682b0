//! The console's two bitmap fonts.
//!
//! A glyph is a run of bytes, one byte per pixel row from the top, with the
//! leftmost pixel of a row in its highest bit. A code without a picture has a
//! blank glyph. The tables hold a font sixteen glyphs at a time, one line per
//! glyph, in code order.
use vstd::prelude::*;

verus! {

/// Pixel rows of a glyph in the main font.
pub const FIRA_ROWS: usize = 16;

/// Pixel rows of a glyph in the fallback font.
pub const FALLBACK_ROWS: usize = 8;

/// Line-drawing pictures of the main font, codes 1 to 11.
pub const FIRA_0: [u8; 256] = [
    0x00, 0x00, 0x00, 0x00, 0x00, 0x00, 0x00, 0x00, 0x00, 0x00, 0x00, 0x00, 0x00, 0x00, 0x00, 0x00,
    0x00, 0x00, 0x00, 0x00, 0x00, 0x00, 0x00, 0xff, 0xff, 0x00, 0x00, 0x00, 0x00, 0x00, 0x00, 0x00,
    0x00, 0x00, 0x18, 0x18, 0x18, 0x18, 0x18, 0x18, 0x18, 0x18, 0x18, 0x18, 0x18, 0x00, 0x00, 0x00,
    0x00, 0x00, 0x00, 0x00, 0x00, 0x00, 0x00, 0x1f, 0x18, 0x18, 0x18, 0x18, 0x18, 0x00, 0x00, 0x00,
    0x00, 0x00, 0x00, 0x00, 0x00, 0x00, 0x00, 0xf8, 0x18, 0x18, 0x18, 0x18, 0x18, 0x00, 0x00, 0x00,
    0x00, 0x00, 0x18, 0x18, 0x18, 0x18, 0x18, 0x1f, 0x00, 0x00, 0x00, 0x00, 0x00, 0x00, 0x00, 0x00,
    0x00, 0x00, 0x18, 0x18, 0x18, 0x18, 0x18, 0xf8, 0x00, 0x00, 0x00, 0x00, 0x00, 0x00, 0x00, 0x00,
    0x00, 0x00, 0x18, 0x18, 0x18, 0x18, 0x18, 0xff, 0x00, 0x00, 0x00, 0x00, 0x00, 0x00, 0x00, 0x00,
    0x00, 0x00, 0x00, 0x00, 0x00, 0x00, 0x00, 0xff, 0x18, 0x18, 0x18, 0x18, 0x18, 0x00, 0x00, 0x00,
    0x00, 0x00, 0x18, 0x18, 0x18, 0x18, 0x18, 0x1f, 0x18, 0x18, 0x18, 0x18, 0x18, 0x00, 0x00, 0x00,
    0x00, 0x00, 0x18, 0x18, 0x18, 0x18, 0x18, 0xf8, 0x18, 0x18, 0x18, 0x18, 0x18, 0x00, 0x00, 0x00,
    0xff, 0xff, 0xff, 0xff, 0xff, 0xff, 0xff, 0xff, 0xff, 0xff, 0xff, 0xff, 0xff, 0xff, 0xff, 0xff,
    0x00, 0x00, 0x00, 0x00, 0x00, 0x00, 0x00, 0x00, 0x00, 0x00, 0x00, 0x00, 0x00, 0x00, 0x00, 0x00,
    0x00, 0x00, 0x00, 0x00, 0x00, 0x00, 0x00, 0x00, 0x00, 0x00, 0x00, 0x00, 0x00, 0x00, 0x00, 0x00,
    0x00, 0x00, 0x00, 0x00, 0x00, 0x00, 0x00, 0x00, 0x00, 0x00, 0x00, 0x00, 0x00, 0x00, 0x00, 0x00,
    0x00, 0x00, 0x00, 0x00, 0x00, 0x00, 0x00, 0x00, 0x00, 0x00, 0x00, 0x00, 0x00, 0x00, 0x00, 0x00,
];

/// Codes 32 to 47 of the main font.
pub const FIRA_2: [u8; 256] = [
    0x00, 0x00, 0x00, 0x00, 0x00, 0x00, 0x00, 0x00, 0x00, 0x00, 0x00, 0x00, 0x00, 0x00, 0x00, 0x00,
    0x00, 0x00, 0x18, 0x18, 0x18, 0x18, 0x18, 0x18, 0x18, 0x00, 0x18, 0x00, 0x00, 0x00, 0x00, 0x00, // !
    0x00, 0x00, 0x66, 0x66, 0x66, 0x00, 0x00, 0x00, 0x00, 0x00, 0x00, 0x00, 0x00, 0x00, 0x00, 0x00, // "
    0x00, 0x00, 0x00, 0x36, 0x36, 0x7f, 0x36, 0x36, 0x7f, 0x36, 0x36, 0x00, 0x00, 0x00, 0x00, 0x00, // #
    0x00, 0x00, 0x18, 0x3e, 0x60, 0x60, 0x3c, 0x06, 0x06, 0x7c, 0x18, 0x18, 0x00, 0x00, 0x00, 0x00, // $
    0x00, 0x00, 0x62, 0x66, 0x0c, 0x18, 0x30, 0x60, 0xc6, 0x8c, 0x00, 0x00, 0x00, 0x00, 0x00, 0x00, // %
    0x00, 0x00, 0x00, 0x3c, 0x66, 0x66, 0x3c, 0x38, 0x6f, 0x66, 0x66, 0x66, 0x3f, 0x00, 0x00, 0x00, // &
    0x00, 0x00, 0x18, 0x18, 0x30, 0x00, 0x00, 0x00, 0x00, 0x00, 0x00, 0x00, 0x00, 0x00, 0x00, 0x00, // '
    0x00, 0x00, 0x0c, 0x18, 0x30, 0x30, 0x30, 0x30, 0x30, 0x30, 0x30, 0x18, 0x0c, 0x00, 0x00, 0x00, // (
    0x00, 0x00, 0x30, 0x18, 0x0c, 0x0c, 0x0c, 0x0c, 0x0c, 0x0c, 0x0c, 0x18, 0x30, 0x00, 0x00, 0x00, // )
    0x00, 0x00, 0x00, 0x00, 0x00, 0x66, 0x3c, 0xff, 0x3c, 0x66, 0x00, 0x00, 0x00, 0x00, 0x00, 0x00, // *
    0x00, 0x00, 0x00, 0x00, 0x18, 0x18, 0x7e, 0x18, 0x18, 0x00, 0x00, 0x00, 0x00, 0x00, 0x00, 0x00, // +
    0x00, 0x00, 0x00, 0x00, 0x00, 0x00, 0x00, 0x00, 0x00, 0x00, 0x00, 0x18, 0x18, 0x30, 0x00, 0x00, // ,
    0x00, 0x00, 0x00, 0x00, 0x00, 0x00, 0x00, 0x7e, 0x00, 0x00, 0x00, 0x00, 0x00, 0x00, 0x00, 0x00, // -
    0x00, 0x00, 0x00, 0x00, 0x00, 0x00, 0x00, 0x00, 0x00, 0x00, 0x00, 0x18, 0x18, 0x00, 0x00, 0x00, // .
    0x00, 0x00, 0x06, 0x06, 0x0c, 0x0c, 0x18, 0x18, 0x30, 0x30, 0x60, 0x60, 0x60, 0x00, 0x00, 0x00, // /
];

/// Codes 48 to 63 of the main font.
pub const FIRA_3: [u8; 256] = [
    0x00, 0x00, 0x3c, 0x66, 0x6e, 0x76, 0x66, 0x66, 0x66, 0x66, 0x66, 0x66, 0x3c, 0x00, 0x00, 0x00, // 0
    0x00, 0x00, 0x18, 0x38, 0x18, 0x18, 0x18, 0x18, 0x18, 0x18, 0x18, 0x18, 0x7e, 0x00, 0x00, 0x00, // 1
    0x00, 0x00, 0x3c, 0x66, 0x06, 0x0c, 0x18, 0x30, 0x60, 0x60, 0x60, 0x60, 0x7e, 0x00, 0x00, 0x00, // 2
    0x00, 0x00, 0x3c, 0x66, 0x06, 0x1c, 0x1c, 0x06, 0x06, 0x06, 0x66, 0x66, 0x3c, 0x00, 0x00, 0x00, // 3
    0x00, 0x00, 0x0c, 0x1c, 0x3c, 0x6c, 0x6c, 0x7e, 0x0c, 0x0c, 0x0c, 0x0c, 0x0c, 0x00, 0x00, 0x00, // 4
    0x00, 0x00, 0x7e, 0x60, 0x60, 0x7c, 0x7c, 0x06, 0x06, 0x06, 0x66, 0x66, 0x3c, 0x00, 0x00, 0x00, // 5
    0x00, 0x00, 0x3c, 0x66, 0x60, 0x7c, 0x7c, 0x66, 0x66, 0x66, 0x66, 0x66, 0x3c, 0x00, 0x00, 0x00, // 6
    0x00, 0x00, 0x7e, 0x06, 0x06, 0x0c, 0x18, 0x18, 0x30, 0x30, 0x30, 0x30, 0x30, 0x00, 0x00, 0x00, // 7
    0x00, 0x00, 0x3c, 0x66, 0x66, 0x3c, 0x3c, 0x66, 0x66, 0x66, 0x66, 0x66, 0x3c, 0x00, 0x00, 0x00, // 8
    0x00, 0x00, 0x3c, 0x66, 0x66, 0x66, 0x66, 0x3e, 0x3e, 0x06, 0x66, 0x66, 0x3c, 0x00, 0x00, 0x00, // 9
    0x00, 0x00, 0x00, 0x00, 0x00, 0x00, 0x18, 0x18, 0x00, 0x00, 0x18, 0x18, 0x00, 0x00, 0x00, 0x00, // :
    0x00, 0x00, 0x00, 0x00, 0x00, 0x00, 0x18, 0x18, 0x00, 0x00, 0x18, 0x18, 0x30, 0x00, 0x00, 0x00, // ;
    0x00, 0x00, 0x00, 0x00, 0x00, 0x00, 0x0e, 0x18, 0x30, 0x18, 0x0e, 0x00, 0x00, 0x00, 0x00, 0x00, // <
    0x00, 0x00, 0x00, 0x00, 0x00, 0x00, 0x7e, 0x00, 0x7e, 0x00, 0x00, 0x00, 0x00, 0x00, 0x00, 0x00, // =
    0x00, 0x00, 0x00, 0x00, 0x00, 0x00, 0x70, 0x18, 0x0c, 0x18, 0x70, 0x00, 0x00, 0x00, 0x00, 0x00, // >
    0x00, 0x00, 0x00, 0x3c, 0x66, 0x06, 0x0c, 0x18, 0x18, 0x00, 0x18, 0x00, 0x00, 0x00, 0x00, 0x00, // ?
];

/// Codes 64 to 79 of the main font.
pub const FIRA_4: [u8; 256] = [
    0x00, 0x00, 0x00, 0x3c, 0x66, 0x6e, 0x6a, 0x6a, 0x6e, 0x60, 0x3c, 0x00, 0x00, 0x00, 0x00, 0x00, // @
    0x00, 0x00, 0x18, 0x3c, 0x66, 0x66, 0x66, 0x7e, 0x66, 0x66, 0x66, 0x66, 0x66, 0x00, 0x00, 0x00, // A
    0x00, 0x00, 0x7c, 0x66, 0x66, 0x66, 0x7c, 0x7c, 0x66, 0x66, 0x66, 0x66, 0x7c, 0x00, 0x00, 0x00, // B
    0x00, 0x00, 0x3c, 0x66, 0x60, 0x60, 0x60, 0x60, 0x60, 0x60, 0x60, 0x66, 0x3c, 0x00, 0x00, 0x00, // C
    0x00, 0x00, 0x7c, 0x66, 0x66, 0x66, 0x66, 0x66, 0x66, 0x66, 0x66, 0x66, 0x7c, 0x00, 0x00, 0x00, // D
    0x00, 0x00, 0x7e, 0x60, 0x60, 0x60, 0x7c, 0x7c, 0x60, 0x60, 0x60, 0x60, 0x7e, 0x00, 0x00, 0x00, // E
    0x00, 0x00, 0x7e, 0x60, 0x60, 0x60, 0x7c, 0x7c, 0x60, 0x60, 0x60, 0x60, 0x60, 0x00, 0x00, 0x00, // F
    0x00, 0x00, 0x3c, 0x66, 0x60, 0x60, 0x6e, 0x6e, 0x66, 0x66, 0x66, 0x66, 0x3c, 0x00, 0x00, 0x00, // G
    0x00, 0x00, 0x66, 0x66, 0x66, 0x66, 0x7e, 0x7e, 0x66, 0x66, 0x66, 0x66, 0x66, 0x00, 0x00, 0x00, // H
    0x00, 0x00, 0x3c, 0x18, 0x18, 0x18, 0x18, 0x18, 0x18, 0x18, 0x18, 0x18, 0x3c, 0x00, 0x00, 0x00, // I
    0x00, 0x00, 0x1e, 0x0c, 0x0c, 0x0c, 0x0c, 0x0c, 0x0c, 0x0c, 0xcc, 0xcc, 0x78, 0x00, 0x00, 0x00, // J
    0x00, 0x00, 0x66, 0x6c, 0x78, 0x70, 0x70, 0x78, 0x78, 0x6c, 0x6c, 0x66, 0x66, 0x00, 0x00, 0x00, // K
    0x00, 0x00, 0x60, 0x60, 0x60, 0x60, 0x60, 0x60, 0x60, 0x60, 0x60, 0x60, 0x7e, 0x00, 0x00, 0x00, // L
    0x00, 0x00, 0x63, 0x77, 0x7f, 0x6b, 0x6b, 0x63, 0x63, 0x63, 0x63, 0x63, 0x63, 0x00, 0x00, 0x00, // M
    0x00, 0x00, 0x66, 0x76, 0x7e, 0x7e, 0x6e, 0x6e, 0x66, 0x66, 0x66, 0x66, 0x66, 0x00, 0x00, 0x00, // N
    0x00, 0x00, 0x3c, 0x66, 0x66, 0x66, 0x66, 0x66, 0x66, 0x66, 0x66, 0x66, 0x3c, 0x00, 0x00, 0x00, // O
];

/// Codes 80 to 95 of the main font.
pub const FIRA_5: [u8; 256] = [
    0x00, 0x00, 0x7c, 0x66, 0x66, 0x66, 0x66, 0x7c, 0x60, 0x60, 0x60, 0x60, 0x60, 0x00, 0x00, 0x00, // P
    0x00, 0x00, 0x3c, 0x66, 0x66, 0x66, 0x66, 0x66, 0x66, 0x66, 0x66, 0x3c, 0x0e, 0x00, 0x00, 0x00, // Q
    0x00, 0x00, 0x7c, 0x66, 0x66, 0x66, 0x66, 0x7c, 0x6c, 0x6c, 0x66, 0x66, 0x66, 0x00, 0x00, 0x00, // R
    0x00, 0x00, 0x3c, 0x66, 0x60, 0x60, 0x3c, 0x3c, 0x06, 0x06, 0x06, 0x66, 0x3c, 0x00, 0x00, 0x00, // S
    0x00, 0x00, 0x7e, 0x18, 0x18, 0x18, 0x18, 0x18, 0x18, 0x18, 0x18, 0x18, 0x18, 0x00, 0x00, 0x00, // T
    0x00, 0x00, 0x66, 0x66, 0x66, 0x66, 0x66, 0x66, 0x66, 0x66, 0x66, 0x66, 0x3c, 0x00, 0x00, 0x00, // U
    0x00, 0x00, 0x66, 0x66, 0x66, 0x66, 0x66, 0x66, 0x66, 0x66, 0x3c, 0x3c, 0x18, 0x00, 0x00, 0x00, // V
    0x00, 0x00, 0x63, 0x63, 0x63, 0x6b, 0x6b, 0x6b, 0x7f, 0x7f, 0x77, 0x77, 0x63, 0x00, 0x00, 0x00, // W
    0x00, 0x00, 0x66, 0x66, 0x3c, 0x3c, 0x18, 0x18, 0x3c, 0x3c, 0x66, 0x66, 0x66, 0x00, 0x00, 0x00, // X
    0x00, 0x00, 0x66, 0x66, 0x66, 0x66, 0x3c, 0x3c, 0x18, 0x18, 0x18, 0x18, 0x18, 0x00, 0x00, 0x00, // Y
    0x00, 0x00, 0x7e, 0x06, 0x06, 0x0c, 0x18, 0x18, 0x30, 0x60, 0x60, 0x60, 0x7e, 0x00, 0x00, 0x00, // Z
    0x00, 0x00, 0x3c, 0x30, 0x30, 0x30, 0x30, 0x30, 0x30, 0x30, 0x30, 0x30, 0x3c, 0x00, 0x00, 0x00, // [
    0x00, 0x00, 0x60, 0x60, 0x30, 0x30, 0x18, 0x18, 0x0c, 0x0c, 0x06, 0x06, 0x06, 0x00, 0x00, 0x00, // \
    0x00, 0x00, 0x3c, 0x0c, 0x0c, 0x0c, 0x0c, 0x0c, 0x0c, 0x0c, 0x0c, 0x0c, 0x3c, 0x00, 0x00, 0x00, // ]
    0x00, 0x00, 0x18, 0x3c, 0x66, 0x00, 0x00, 0x00, 0x00, 0x00, 0x00, 0x00, 0x00, 0x00, 0x00, 0x00, // ^
    0x00, 0x00, 0x00, 0x00, 0x00, 0x00, 0x00, 0x00, 0x00, 0x00, 0x00, 0x00, 0x00, 0x7e, 0x00, 0x00, // _
];

/// Codes 96 to 111 of the main font.
pub const FIRA_6: [u8; 256] = [
    0x00, 0x00, 0x30, 0x18, 0x00, 0x00, 0x00, 0x00, 0x00, 0x00, 0x00, 0x00, 0x00, 0x00, 0x00, 0x00, // `
    0x00, 0x00, 0x00, 0x00, 0x00, 0x3c, 0x06, 0x3e, 0x66, 0x66, 0x66, 0x66, 0x3b, 0x00, 0x00, 0x00, // a
    0x00, 0x00, 0x60, 0x60, 0x60, 0x7c, 0x7c, 0x66, 0x66, 0x66, 0x66, 0x66, 0x7c, 0x00, 0x00, 0x00, // b
    0x00, 0x00, 0x00, 0x00, 0x00, 0x3c, 0x66, 0x60, 0x60, 0x60, 0x60, 0x66, 0x3c, 0x00, 0x00, 0x00, // c
    0x00, 0x00, 0x06, 0x06, 0x06, 0x3e, 0x3e, 0x66, 0x66, 0x66, 0x66, 0x66, 0x3e, 0x00, 0x00, 0x00, // d
    0x00, 0x00, 0x00, 0x00, 0x00, 0x3c, 0x66, 0x66, 0x7e, 0x7e, 0x60, 0x66, 0x3c, 0x00, 0x00, 0x00, // e
    0x00, 0x00, 0x1c, 0x36, 0x30, 0x30, 0x7c, 0x7c, 0x30, 0x30, 0x30, 0x30, 0x30, 0x00, 0x00, 0x00, // f
    0x00, 0x00, 0x00, 0x00, 0x00, 0x3e, 0x66, 0x66, 0x66, 0x66, 0x3e, 0x06, 0x06, 0x3c, 0x00, 0x00, // g
    0x00, 0x00, 0x60, 0x60, 0x60, 0x7c, 0x66, 0x66, 0x66, 0x66, 0x66, 0x66, 0x66, 0x00, 0x00, 0x00, // h
    0x00, 0x00, 0x18, 0x00, 0x38, 0x18, 0x18, 0x18, 0x18, 0x18, 0x18, 0x18, 0x3c, 0x00, 0x00, 0x00, // i
    0x00, 0x00, 0x00, 0x00, 0x00, 0x0c, 0x0c, 0x0c, 0x0c, 0x0c, 0x0c, 0x0c, 0x4c, 0x38, 0x00, 0x00, // j
    0x00, 0x00, 0x00, 0x60, 0x60, 0x66, 0x6c, 0x78, 0x70, 0x78, 0x6c, 0x66, 0x60, 0x00, 0x00, 0x00, // k
    0x00, 0x00, 0x38, 0x18, 0x18, 0x18, 0x18, 0x18, 0x18, 0x18, 0x18, 0x18, 0x3c, 0x00, 0x00, 0x00, // l
    0x00, 0x00, 0x00, 0x00, 0x00, 0x6c, 0x7e, 0x6b, 0x6b, 0x6b, 0x6b, 0x6b, 0x6b, 0x00, 0x00, 0x00, // m
    0x00, 0x00, 0x00, 0x00, 0x00, 0x7c, 0x66, 0x66, 0x66, 0x66, 0x66, 0x66, 0x66, 0x00, 0x00, 0x00, // n
    0x00, 0x00, 0x00, 0x00, 0x00, 0x3c, 0x66, 0x66, 0x66, 0x66, 0x66, 0x66, 0x3c, 0x00, 0x00, 0x00, // o
];

/// Codes 112 to 127 of the main font.
pub const FIRA_7: [u8; 256] = [
    0x00, 0x00, 0x00, 0x00, 0x00, 0x7c, 0x66, 0x66, 0x66, 0x66, 0x7c, 0x60, 0x60, 0x60, 0x00, 0x00, // p
    0x00, 0x00, 0x00, 0x00, 0x00, 0x3e, 0x66, 0x66, 0x66, 0x66, 0x3e, 0x06, 0x06, 0x06, 0x00, 0x00, // q
    0x00, 0x00, 0x00, 0x00, 0x00, 0x5c, 0x76, 0x66, 0x60, 0x60, 0x60, 0x60, 0x60, 0x00, 0x00, 0x00, // r
    0x00, 0x00, 0x00, 0x00, 0x00, 0x3e, 0x60, 0x60, 0x3c, 0x06, 0x06, 0x06, 0x7c, 0x00, 0x00, 0x00, // s
    0x00, 0x00, 0x00, 0x18, 0x18, 0x7e, 0x18, 0x18, 0x18, 0x18, 0x18, 0x18, 0x0e, 0x00, 0x00, 0x00, // t
    0x00, 0x00, 0x00, 0x00, 0x00, 0x66, 0x66, 0x66, 0x66, 0x66, 0x66, 0x66, 0x3e, 0x00, 0x00, 0x00, // u
    0x00, 0x00, 0x00, 0x00, 0x00, 0x66, 0x66, 0x66, 0x66, 0x66, 0x3c, 0x18, 0x00, 0x00, 0x00, 0x00, // v
    0x00, 0x00, 0x00, 0x00, 0x00, 0x66, 0x66, 0x66, 0x66, 0x6e, 0x7e, 0x36, 0x66, 0x00, 0x00, 0x00, // w
    0x00, 0x00, 0x00, 0x00, 0x00, 0x66, 0x66, 0x3c, 0x18, 0x3c, 0x66, 0x66, 0x66, 0x00, 0x00, 0x00, // x
    0x00, 0x00, 0x00, 0x00, 0x00, 0x66, 0x66, 0x66, 0x66, 0x66, 0x3e, 0x06, 0x06, 0x3c, 0x00, 0x00, // y
    0x00, 0x00, 0x00, 0x00, 0x00, 0x7e, 0x06, 0x0c, 0x18, 0x30, 0x60, 0x60, 0x7e, 0x00, 0x00, 0x00, // z
    0x00, 0x00, 0x0e, 0x18, 0x18, 0x18, 0x70, 0x18, 0x18, 0x18, 0x18, 0x18, 0x0e, 0x00, 0x00, 0x00, // {
    0x00, 0x00, 0x18, 0x18, 0x18, 0x18, 0x18, 0x18, 0x18, 0x18, 0x18, 0x18, 0x18, 0x00, 0x00, 0x00, // |
    0x00, 0x00, 0x70, 0x18, 0x18, 0x18, 0x0e, 0x18, 0x18, 0x18, 0x18, 0x18, 0x70, 0x00, 0x00, 0x00, // }
    0x00, 0x00, 0x00, 0x00, 0x00, 0x00, 0x00, 0x76, 0xdc, 0x00, 0x00, 0x00, 0x00, 0x00, 0x00, 0x00, // ~
    0x00, 0x00, 0x00, 0x00, 0x00, 0x00, 0x00, 0x00, 0x00, 0x00, 0x00, 0x00, 0x00, 0x00, 0x00, 0x00,
];

/// Codes 32 to 47 of the fallback font.
pub const FALLBACK_2: [u8; 128] = [
    0x00, 0x00, 0x00, 0x00, 0x00, 0x00, 0x00, 0x00,
    0x00, 0x18, 0x18, 0x18, 0x18, 0x00, 0x18, 0x00, // !
    0x00, 0x00, 0x00, 0x00, 0x00, 0x00, 0x00, 0x00, // "
    0x00, 0x00, 0x66, 0x7e, 0x66, 0x7e, 0x66, 0x00, // #
    0x00, 0x00, 0x00, 0x00, 0x00, 0x00, 0x00, 0x00, // $
    0x00, 0x00, 0x00, 0x00, 0x00, 0x00, 0x00, 0x00, // %
    0x00, 0x00, 0x00, 0x00, 0x00, 0x00, 0x00, 0x00, // &
    0x00, 0x00, 0x00, 0x00, 0x00, 0x00, 0x00, 0x00, // '
    0x00, 0x0c, 0x18, 0x18, 0x18, 0x18, 0x0c, 0x00, // (
    0x00, 0x30, 0x18, 0x18, 0x18, 0x18, 0x30, 0x00, // )
    0x00, 0x00, 0x66, 0x3c, 0xff, 0x3c, 0x66, 0x00, // *
    0x00, 0x00, 0x18, 0x18, 0x7e, 0x18, 0x18, 0x00, // +
    0x00, 0x00, 0x00, 0x00, 0x00, 0x00, 0x18, 0x10, // ,
    0x00, 0x00, 0x00, 0x00, 0x7e, 0x00, 0x00, 0x00, // -
    0x00, 0x00, 0x00, 0x00, 0x00, 0x00, 0x18, 0x00, // .
    0x00, 0x06, 0x0c, 0x18, 0x30, 0x60, 0xc0, 0x00, // /
];

/// Codes 48 to 63 of the fallback font.
pub const FALLBACK_3: [u8; 128] = [
    0x00, 0x3c, 0x66, 0x6e, 0x76, 0x66, 0x3c, 0x00, // 0
    0x00, 0x18, 0x38, 0x18, 0x18, 0x18, 0x3c, 0x00, // 1
    0x00, 0x3c, 0x66, 0x06, 0x0c, 0x30, 0x7e, 0x00, // 2
    0x00, 0x3c, 0x66, 0x1c, 0x06, 0x66, 0x3c, 0x00, // 3
    0x00, 0x0c, 0x1c, 0x3c, 0x6c, 0x7e, 0x0c, 0x00, // 4
    0x00, 0x7e, 0x60, 0x7c, 0x06, 0x66, 0x3c, 0x00, // 5
    0x00, 0x3c, 0x60, 0x7c, 0x66, 0x66, 0x3c, 0x00, // 6
    0x00, 0x7e, 0x06, 0x0c, 0x18, 0x30, 0x30, 0x00, // 7
    0x00, 0x3c, 0x66, 0x3c, 0x66, 0x66, 0x3c, 0x00, // 8
    0x00, 0x3c, 0x66, 0x3e, 0x06, 0x0c, 0x38, 0x00, // 9
    0x00, 0x00, 0x18, 0x00, 0x00, 0x18, 0x00, 0x00, // :
    0x00, 0x00, 0x00, 0x00, 0x00, 0x00, 0x00, 0x00, // ;
    0x00, 0x00, 0x00, 0x00, 0x00, 0x00, 0x00, 0x00, // <
    0x00, 0x00, 0x00, 0x7e, 0x00, 0x7e, 0x00, 0x00, // =
    0x00, 0x00, 0x60, 0x30, 0x18, 0x30, 0x60, 0x00, // >
    0x00, 0x3c, 0x66, 0x06, 0x0c, 0x00, 0x18, 0x00, // ?
];

/// Codes 64 to 79 of the fallback font.
pub const FALLBACK_4: [u8; 128] = [
    0x00, 0x00, 0x00, 0x00, 0x00, 0x00, 0x00, 0x00, // @
    0x00, 0x18, 0x3c, 0x66, 0x7e, 0x66, 0x66, 0x00, // A
    0x00, 0x7c, 0x66, 0x7c, 0x66, 0x66, 0x7c, 0x00, // B
    0x00, 0x3c, 0x66, 0x60, 0x60, 0x66, 0x3c, 0x00, // C
    0x00, 0x78, 0x6c, 0x66, 0x66, 0x6c, 0x78, 0x00, // D
    0x00, 0x7e, 0x60, 0x7c, 0x60, 0x60, 0x7e, 0x00, // E
    0x00, 0x7e, 0x60, 0x7c, 0x60, 0x60, 0x60, 0x00, // F
    0x00, 0x3c, 0x66, 0x60, 0x6e, 0x66, 0x3c, 0x00, // G
    0x00, 0x66, 0x66, 0x7e, 0x66, 0x66, 0x66, 0x00, // H
    0x00, 0x3c, 0x18, 0x18, 0x18, 0x18, 0x3c, 0x00, // I
    0x00, 0x1e, 0x0c, 0x0c, 0x0c, 0xcc, 0x78, 0x00, // J
    0x00, 0x66, 0x6c, 0x78, 0x7c, 0x6e, 0x67, 0x00, // K
    0x00, 0x60, 0x60, 0x60, 0x60, 0x60, 0x7e, 0x00, // L
    0x00, 0x63, 0x77, 0x7f, 0x6b, 0x63, 0x63, 0x00, // M
    0x00, 0x66, 0x76, 0x7e, 0x7e, 0x6e, 0x66, 0x00, // N
    0x00, 0x3c, 0x66, 0x66, 0x66, 0x66, 0x3c, 0x00, // O
];

/// Codes 80 to 95 of the fallback font.
pub const FALLBACK_5: [u8; 128] = [
    0x00, 0x7c, 0x66, 0x7c, 0x60, 0x60, 0x60, 0x00, // P
    0x00, 0x3c, 0x66, 0x66, 0x66, 0x3c, 0x0e, 0x00, // Q
    0x00, 0x7c, 0x66, 0x7c, 0x6c, 0x66, 0x66, 0x00, // R
    0x00, 0x3c, 0x60, 0x3c, 0x06, 0x66, 0x3c, 0x00, // S
    0x00, 0x7e, 0x18, 0x18, 0x18, 0x18, 0x18, 0x00, // T
    0x00, 0x66, 0x66, 0x66, 0x66, 0x66, 0x3c, 0x00, // U
    0x00, 0x66, 0x66, 0x66, 0x66, 0x3c, 0x18, 0x00, // V
    0x00, 0x63, 0x63, 0x6b, 0x7f, 0x77, 0x63, 0x00, // W
    0x00, 0x66, 0x66, 0x3c, 0x3c, 0x66, 0x66, 0x00, // X
    0x00, 0x66, 0x66, 0x3c, 0x18, 0x18, 0x18, 0x00, // Y
    0x00, 0x7e, 0x06, 0x0c, 0x18, 0x30, 0x7e, 0x00, // Z
    0x00, 0x3c, 0x30, 0x30, 0x30, 0x30, 0x3c, 0x00, // [
    0x00, 0x00, 0x00, 0x00, 0x00, 0x00, 0x00, 0x00, // \
    0x00, 0x3c, 0x0c, 0x0c, 0x0c, 0x0c, 0x3c, 0x00, // ]
    0x00, 0x00, 0x00, 0x00, 0x00, 0x00, 0x00, 0x00, // ^
    0x00, 0x00, 0x00, 0x00, 0x00, 0x00, 0x00, 0xff, // _
];

/// Codes 96 to 111 of the fallback font.
pub const FALLBACK_6: [u8; 128] = [
    0x00, 0x00, 0x00, 0x00, 0x00, 0x00, 0x00, 0x00, // `
    0x00, 0x00, 0x00, 0x3c, 0x06, 0x3e, 0x66, 0x3b, // a
    0x00, 0x60, 0x60, 0x7c, 0x66, 0x66, 0x7c, 0x00, // b
    0x00, 0x00, 0x00, 0x3c, 0x66, 0x60, 0x66, 0x3c, // c
    0x00, 0x06, 0x06, 0x3e, 0x66, 0x66, 0x3e, 0x00, // d
    0x00, 0x00, 0x00, 0x3c, 0x66, 0x7e, 0x60, 0x3c, // e
    0x00, 0x1c, 0x30, 0x7c, 0x30, 0x30, 0x30, 0x00, // f
    0x00, 0x00, 0x00, 0x3e, 0x66, 0x66, 0x3e, 0x06, // g
    0x3c, 0x60, 0x60, 0x7c, 0x66, 0x66, 0x66, 0x00, // h
    0x00, 0x18, 0x00, 0x38, 0x18, 0x18, 0x3c, 0x00, // i
    0x00, 0x0c, 0x00, 0x1c, 0x0c, 0x0c, 0x0c, 0x4c, // j
    0x38, 0x60, 0x60, 0x66, 0x6c, 0x78, 0x66, 0x00, // k
    0x00, 0x30, 0x30, 0x30, 0x30, 0x30, 0x1c, 0x00, // l
    0x00, 0x00, 0x00, 0x6c, 0xfe, 0xfe, 0xd6, 0xc6, // m
    0x00, 0x00, 0x00, 0x7c, 0x66, 0x66, 0x66, 0x66, // n
    0x00, 0x00, 0x00, 0x3c, 0x66, 0x66, 0x66, 0x3c, // o
];

/// Codes 112 to 127 of the fallback font.
pub const FALLBACK_7: [u8; 128] = [
    0x00, 0x00, 0x00, 0x7c, 0x66, 0x7c, 0x60, 0x60, // p
    0x00, 0x00, 0x00, 0x3e, 0x66, 0x3e, 0x06, 0x06, // q
    0x00, 0x00, 0x00, 0x7c, 0x66, 0x60, 0x60, 0x60, // r
    0x00, 0x00, 0x00, 0x3e, 0x60, 0x3c, 0x06, 0x7c, // s
    0x00, 0x18, 0x18, 0x7e, 0x18, 0x18, 0x1c, 0x00, // t
    0x00, 0x00, 0x00, 0x66, 0x66, 0x66, 0x66, 0x3e, // u
    0x00, 0x00, 0x00, 0x66, 0x66, 0x66, 0x3c, 0x18, // v
    0x00, 0x00, 0x00, 0x63, 0x6b, 0x7f, 0x3e, 0x36, // w
    0x00, 0x00, 0x00, 0x66, 0x3c, 0x18, 0x3c, 0x66, // x
    0x00, 0x00, 0x00, 0x66, 0x66, 0x3e, 0x06, 0x3c, // y
    0x00, 0x00, 0x00, 0x7e, 0x0c, 0x18, 0x30, 0x7e, // z
    0x00, 0x00, 0x00, 0x00, 0x00, 0x00, 0x00, 0x00, // {
    0x00, 0x00, 0x00, 0x00, 0x00, 0x00, 0x00, 0x00, // |
    0x00, 0x00, 0x00, 0x00, 0x00, 0x00, 0x00, 0x00, // }
    0x00, 0x00, 0x00, 0x00, 0x00, 0x00, 0x00, 0x00, // ~
    0x00, 0x00, 0x00, 0x00, 0x00, 0x00, 0x00, 0x00,
];

/// Row `row` of the main font's glyph for `code`.
#[verifier::opaque]
pub open spec fn fira_row(code: int, row: int) -> u8 {
    let at = code % 16 * 16 + row;
    if code / 16 == 0 {
        FIRA_0@[at]
    } else if code / 16 == 2 {
        FIRA_2@[at]
    } else if code / 16 == 3 {
        FIRA_3@[at]
    } else if code / 16 == 4 {
        FIRA_4@[at]
    } else if code / 16 == 5 {
        FIRA_5@[at]
    } else if code / 16 == 6 {
        FIRA_6@[at]
    } else if code / 16 == 7 {
        FIRA_7@[at]
    } else {
        0
    }
}

/// Row `row` of the fallback font's glyph for `code`.
#[verifier::opaque]
pub open spec fn fallback_row(code: int, row: int) -> u8 {
    let at = code % 16 * 8 + row;
    if code / 16 == 2 {
        FALLBACK_2@[at]
    } else if code / 16 == 3 {
        FALLBACK_3@[at]
    } else if code / 16 == 4 {
        FALLBACK_4@[at]
    } else if code / 16 == 5 {
        FALLBACK_5@[at]
    } else if code / 16 == 6 {
        FALLBACK_6@[at]
    } else if code / 16 == 7 {
        FALLBACK_7@[at]
    } else {
        0
    }
}

/// Whether pixel `x` (from the left) of a glyph row is lit.
pub open spec fn lit(bits: u8, x: int) -> bool {
    bits & (1u8 << ((7 - x) as u8)) != 0
}

/// One row of a glyph of the main font.
fn fira_byte(code: usize, row: usize) -> (bits: u8)
    requires
        code < 256,
        row < 16,
    ensures
        bits == fira_row(code as int, row as int),
{
    proof {
        reveal(fira_row);
    }
    let at: usize = code % 16 * FIRA_ROWS + row;
    match code / 16 {
        0 => FIRA_0[at],
        2 => FIRA_2[at],
        3 => FIRA_3[at],
        4 => FIRA_4[at],
        5 => FIRA_5[at],
        6 => FIRA_6[at],
        7 => FIRA_7[at],
        _ => 0,
    }
}

/// One row of a glyph of the fallback font.
pub fn fallback_byte(code: usize, row: usize) -> (bits: u8)
    requires
        code < 128,
        row < 8,
    ensures
        bits == fallback_row(code as int, row as int),
{
    proof {
        reveal(fallback_row);
    }
    let at: usize = code % 16 * FALLBACK_ROWS + row;
    match code / 16 {
        2 => FALLBACK_2[at],
        3 => FALLBACK_3[at],
        4 => FALLBACK_4[at],
        5 => FALLBACK_5[at],
        6 => FALLBACK_6[at],
        7 => FALLBACK_7[at],
        _ => 0,
    }
}

/// The main font's glyph for `ch`, or nothing outside its 256 codes.
pub fn get_fira_code_char(ch: char) -> (glyph: Option<[u8; 16]>)
    ensures
        glyph is Some <==> (ch as u32) < 256,
        glyph matches Some(g) ==> forall|row: int|
            0 <= row < 16 ==> #[trigger] g@[row] == fira_row(ch as u32 as int, row),
{
    let code = ch as u32;
    if code < 256 {
        let mut glyph: [u8; 16] = [0u8; 16];
        let mut row: usize = 0;
        while row < FIRA_ROWS
            invariant
                row <= 16,
                code < 256,
                forall|k: int| 0 <= k < row ==> #[trigger] glyph@[k] == fira_row(code as int, k),
            decreases 16 - row,
        {
            glyph[row] = fira_byte(code as usize, row);
            row = row + 1;
        }
        Some(glyph)
    } else {
        None
    }
}

/// The bytes of the packaged outline font: none, as the bitmap stands in for
/// it.
pub fn get_fira_code_font() -> (data: Vec<u8>)
    ensures
        data@.len() == 0,
{
    Vec::new()
}

} // verus!
