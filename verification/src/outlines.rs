//! Outlines of characters, in the units of the font.
use vstd::prelude::*;

verus! {

/// A point of an outline.
#[derive(Debug, Clone, Copy, PartialEq, Eq, Structural)]
pub struct GlyphPoint {
    pub x: i32,
    pub y: i32,
    pub on_curve: bool,
}

/// A closed outline.
#[derive(Debug)]
pub struct Contour {
    pub points: Vec<GlyphPoint>,
}

/// The outlines of a character, and how far it moves the pen.
#[derive(Debug)]
pub struct GlyphOutline {
    pub contours: Vec<Contour>,
    pub advance_width: u16,
}

/// A character's outlines as values. All points are on their curves.
pub struct Picture {
    pub contours: Seq<Seq<(int, int)>>,
    pub advance_width: u16,
}

impl View for Contour {
    type V = Seq<(int, int)>;

    open spec fn view(&self) -> Seq<(int, int)> {
        self.points@.map_values(|p: GlyphPoint| (p.x as int, p.y as int))
    }
}

impl View for GlyphOutline {
    type V = Picture;

    open spec fn view(&self) -> Picture {
        Picture {
            contours: self.contours@.map_values(|c: Contour| c@),
            advance_width: self.advance_width,
        }
    }
}

/// A, with its crossbar.
pub open spec fn picture_a() -> Picture {
    Picture {
        contours: seq![
            seq![(300, 0), (500, 0), (650, 700), (450, 700), (400, 550), (350, 550)],
            seq![(250, 250), (550, 250), (550, 350), (250, 350)],
        ],
        advance_width: 800,
    }
}

/// H: two stems and a crossbar.
pub open spec fn picture_h() -> Picture {
    Picture {
        contours: seq![
            seq![(100, 0), (200, 0), (200, 700), (100, 700)],
            seq![(500, 0), (600, 0), (600, 700), (500, 700)],
            seq![(200, 300), (500, 300), (500, 400), (200, 400)],
        ],
        advance_width: 700,
    }
}

/// V: two strokes that meet below.
pub open spec fn picture_v() -> Picture {
    Picture {
        contours: seq![
            seq![(100, 700), (200, 700), (350, 50), (300, 50)],
            seq![(500, 700), (600, 700), (400, 50), (350, 50)],
        ],
        advance_width: 700,
    }
}

/// Nothing, for a space.
pub open spec fn picture_space() -> Picture {
    Picture { contours: Seq::empty(), advance_width: 400 }
}

/// The opening square bracket.
pub open spec fn picture_open_bracket() -> Picture {
    Picture {
        contours: seq![
            seq![(100, 0), (300, 0), (300, 100), (200, 100), (200, 600), (300, 600), (300, 700), (100, 700)],
        ],
        advance_width: 400,
    }
}

/// The other brackets.
pub open spec fn picture_bracket() -> Picture {
    Picture {
        contours: seq![
            seq![(100, 100), (300, 100), (300, 200), (100, 200)],
        ],
        advance_width: 400,
    }
}

/// The full stop.
pub open spec fn picture_dot() -> Picture {
    Picture {
        contours: seq![
            seq![(150, 0), (250, 0), (250, 100), (150, 100)],
        ],
        advance_width: 400,
    }
}

/// The other punctuation.
pub open spec fn picture_punctuation() -> Picture {
    Picture {
        contours: seq![
            seq![(100, 50), (300, 50), (300, 150), (100, 150)],
        ],
        advance_width: 400,
    }
}

/// A plain rectangle, for everything else.
pub open spec fn picture_box() -> Picture {
    Picture {
        contours: seq![
            seq![(100, 100), (500, 100), (500, 600), (100, 600)],
        ],
        advance_width: 600,
    }
}

/// The A that glyphs are drawn from.
pub open spec fn drawn_a() -> Picture {
    Picture {
        contours: seq![
            seq![(200, 0), (400, 700), (600, 0), (500, 0), (450, 200), (350, 200), (300, 0)],
        ],
        advance_width: 800,
    }
}

/// The B that glyphs are drawn from.
pub open spec fn drawn_b() -> Picture {
    Picture {
        contours: seq![
            seq![(100, 0), (100, 700), (400, 700), (500, 600), (500, 400), (450, 350), (500, 300), (500, 100), (400, 0)],
        ],
        advance_width: 600,
    }
}

/// The picture that stands for a character among the hand-made letters.
pub open spec fn letter_picture(ch: char) -> Picture {
    if ch == 'A' {
        picture_a()
    } else if ch == 'H' {
        picture_h()
    } else if ch == 'v' || ch == 'V' {
        picture_v()
    } else if ch == ' ' {
        picture_space()
    } else if ch == '[' {
        picture_open_bracket()
    } else if ch == ']' || ch == '(' || ch == ')' || ch == '{' || ch == '}' {
        picture_bracket()
    } else if ch == '.' {
        picture_dot()
    } else if ch == ',' || ch == ':' || ch == ';' {
        picture_punctuation()
    } else {
        picture_box()
    }
}

/// The picture that a glyph is drawn from.
pub open spec fn drawn_picture(ch: char) -> Picture {
    if ch == 'A' {
        drawn_a()
    } else if ch == 'B' {
        drawn_b()
    } else {
        picture_box()
    }
}

/// All points of an outline are on its curve.
pub open spec fn on_curve(c: Contour) -> bool {
    forall|i: int| 0 <= i < c.points@.len() ==> (#[trigger] c.points@[i]).on_curve
}

/// All points of a character's outlines are on their curves.
pub open spec fn all_on_curve(o: GlyphOutline) -> bool {
    forall|i: int| 0 <= i < o.contours@.len() ==> on_curve(#[trigger] o.contours@[i])
}

/// A closed outline through the given points.
fn contour(points: &Vec<(i32, i32)>) -> (c: Contour)
    ensures
        c@ == points@.map_values(|p: (i32, i32)| (p.0 as int, p.1 as int)),
        on_curve(c),
{
    let mut list: Vec<GlyphPoint> = Vec::new();
    let mut i: usize = 0;
    while i < points.len()
        invariant
            i <= points@.len(),
            list@.len() == i,
            forall|k: int|
                0 <= k < i ==> #[trigger] list@[k] == (GlyphPoint {
                    x: points@[k].0,
                    y: points@[k].1,
                    on_curve: true,
                }),
        decreases points@.len() - i,
    {
        let p = points[i];
        list.push(GlyphPoint { x: p.0, y: p.1, on_curve: true });
        i = i + 1;
    }
    let c = Contour { points: list };
    assert(c@ =~= points@.map_values(|p: (i32, i32)| (p.0 as int, p.1 as int)));
    c
}

/// A, with its crossbar.
fn create_letter_a_outline() -> (o: GlyphOutline)
    ensures
        o@ == picture_a(),
        all_on_curve(o),
{
    let c0 = contour(&vec![(300, 0), (500, 0), (650, 700), (450, 700), (400, 550), (350, 550)]);
    let c1 = contour(&vec![(250, 250), (550, 250), (550, 350), (250, 350)]);
    let o = GlyphOutline { contours: vec![c0, c1], advance_width: 800 };
    assert(c0@ =~= picture_a().contours[0]);
    assert(c1@ =~= picture_a().contours[1]);
    assert(o@.contours =~= picture_a().contours);
    o
}

/// H: two stems and a crossbar.
fn create_letter_h_outline() -> (o: GlyphOutline)
    ensures
        o@ == picture_h(),
        all_on_curve(o),
{
    let c0 = contour(&vec![(100, 0), (200, 0), (200, 700), (100, 700)]);
    let c1 = contour(&vec![(500, 0), (600, 0), (600, 700), (500, 700)]);
    let c2 = contour(&vec![(200, 300), (500, 300), (500, 400), (200, 400)]);
    let o = GlyphOutline { contours: vec![c0, c1, c2], advance_width: 700 };
    assert(c0@ =~= picture_h().contours[0]);
    assert(c1@ =~= picture_h().contours[1]);
    assert(c2@ =~= picture_h().contours[2]);
    assert(o@.contours =~= picture_h().contours);
    o
}

/// V: two strokes that meet below.
fn create_letter_v_outline() -> (o: GlyphOutline)
    ensures
        o@ == picture_v(),
        all_on_curve(o),
{
    let c0 = contour(&vec![(100, 700), (200, 700), (350, 50), (300, 50)]);
    let c1 = contour(&vec![(500, 700), (600, 700), (400, 50), (350, 50)]);
    let o = GlyphOutline { contours: vec![c0, c1], advance_width: 700 };
    assert(c0@ =~= picture_v().contours[0]);
    assert(c1@ =~= picture_v().contours[1]);
    assert(o@.contours =~= picture_v().contours);
    o
}

/// Nothing, for a space.
fn create_space_outline() -> (o: GlyphOutline)
    ensures
        o@ == picture_space(),
        all_on_curve(o),
{
    let o = GlyphOutline { contours: Vec::new(), advance_width: 400 };
    assert(o@.contours =~= picture_space().contours);
    o
}

/// The opening square bracket.
fn create_open_bracket_outline() -> (o: GlyphOutline)
    ensures
        o@ == picture_open_bracket(),
        all_on_curve(o),
{
    let c0 = contour(&vec![(100, 0), (300, 0), (300, 100), (200, 100), (200, 600), (300, 600), (300, 700), (100, 700)]);
    let o = GlyphOutline { contours: vec![c0], advance_width: 400 };
    assert(c0@ =~= picture_open_bracket().contours[0]);
    assert(o@.contours =~= picture_open_bracket().contours);
    o
}

/// The other brackets.
fn create_bracket_outline() -> (o: GlyphOutline)
    ensures
        o@ == picture_bracket(),
        all_on_curve(o),
{
    let c0 = contour(&vec![(100, 100), (300, 100), (300, 200), (100, 200)]);
    let o = GlyphOutline { contours: vec![c0], advance_width: 400 };
    assert(c0@ =~= picture_bracket().contours[0]);
    assert(o@.contours =~= picture_bracket().contours);
    o
}

/// The full stop.
fn create_dot_outline() -> (o: GlyphOutline)
    ensures
        o@ == picture_dot(),
        all_on_curve(o),
{
    let c0 = contour(&vec![(150, 0), (250, 0), (250, 100), (150, 100)]);
    let o = GlyphOutline { contours: vec![c0], advance_width: 400 };
    assert(c0@ =~= picture_dot().contours[0]);
    assert(o@.contours =~= picture_dot().contours);
    o
}

/// The other punctuation.
fn create_punctuation_outline() -> (o: GlyphOutline)
    ensures
        o@ == picture_punctuation(),
        all_on_curve(o),
{
    let c0 = contour(&vec![(100, 50), (300, 50), (300, 150), (100, 150)]);
    let o = GlyphOutline { contours: vec![c0], advance_width: 400 };
    assert(c0@ =~= picture_punctuation().contours[0]);
    assert(o@.contours =~= picture_punctuation().contours);
    o
}

/// A plain rectangle, for everything else.
fn create_fallback_outline() -> (o: GlyphOutline)
    ensures
        o@ == picture_box(),
        all_on_curve(o),
{
    let c0 = contour(&vec![(100, 100), (500, 100), (500, 600), (100, 600)]);
    let o = GlyphOutline { contours: vec![c0], advance_width: 600 };
    assert(c0@ =~= picture_box().contours[0]);
    assert(o@.contours =~= picture_box().contours);
    o
}

/// The A that glyphs are drawn from.
fn drawn_a_outline() -> (o: GlyphOutline)
    ensures
        o@ == drawn_a(),
        all_on_curve(o),
{
    let c0 = contour(&vec![(200, 0), (400, 700), (600, 0), (500, 0), (450, 200), (350, 200), (300, 0)]);
    let o = GlyphOutline { contours: vec![c0], advance_width: 800 };
    assert(c0@ =~= drawn_a().contours[0]);
    assert(o@.contours =~= drawn_a().contours);
    o
}

/// The B that glyphs are drawn from.
fn drawn_b_outline() -> (o: GlyphOutline)
    ensures
        o@ == drawn_b(),
        all_on_curve(o),
{
    let c0 = contour(&vec![(100, 0), (100, 700), (400, 700), (500, 600), (500, 400), (450, 350), (500, 300), (500, 100), (400, 0)]);
    let o = GlyphOutline { contours: vec![c0], advance_width: 600 };
    assert(c0@ =~= drawn_b().contours[0]);
    assert(o@.contours =~= drawn_b().contours);
    o
}

/// The hand-made outline of a character.
pub fn get_glyph_outline(ch: char) -> (o: GlyphOutline)
    ensures
        o@ == letter_picture(ch),
        all_on_curve(o),
{
    match ch {
        'A' => create_letter_a_outline(),
        'H' => create_letter_h_outline(),
        'v' | 'V' => create_letter_v_outline(),
        ' ' => create_space_outline(),
        '[' => create_open_bracket_outline(),
        ']' | '(' | ')' | '{' | '}' => create_bracket_outline(),
        '.' => create_dot_outline(),
        ',' | ':' | ';' => create_punctuation_outline(),
        _ => create_fallback_outline(),
    }
}

/// The outline that a character's glyph is drawn from.
pub fn create_glyph_outline(ch: char) -> (o: GlyphOutline)
    ensures
        o@ == drawn_picture(ch),
        all_on_curve(o),
{
    match ch {
        'A' => drawn_a_outline(),
        'B' => drawn_b_outline(),
        _ => create_fallback_outline(),
    }
}

} // verus!
