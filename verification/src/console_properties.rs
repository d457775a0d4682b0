//! The console's properties and its themes.
use crate::drm::objects::{DrmObjectId, IdCounter};
use crate::drm::properties::{
    is_enum, is_range, named_property, DrmProperty, DrmPropertyValue, PropertyManager,
    PropertyTable,
};
use crate::drm_console::{active_became, DrmConsole};
use crate::terminal::Terminal;
use crate::DriverError;
use crate::words::{decimal, hex, push_decimal, push_hex};
use vstd::prelude::*;
use vstd::string::*;

verus! {

/// The ids of the console's properties.
#[derive(Debug, Clone, Copy, PartialEq, Eq, Structural)]
pub struct ConsoleProperties {
    pub font_size: DrmObjectId,
    pub font_weight: DrmObjectId,
    pub text_color: DrmObjectId,
    pub background_color: DrmObjectId,
    pub anti_aliasing: DrmObjectId,
    pub cursor_style: DrmObjectId,
    pub cursor_blink: DrmObjectId,
    pub cursor_color: DrmObjectId,
    pub scroll_speed: DrmObjectId,
    pub auto_wrap: DrmObjectId,
    pub bell_enabled: DrmObjectId,
    pub transparency: DrmObjectId,
    pub blur_background: DrmObjectId,
    pub shadow_text: DrmObjectId,
}

/// The ids run on from `first`, in the order of the fields.
pub open spec fn ids_from(p: ConsoleProperties, first: int) -> bool {
    &&& p.font_size.0 == first
    &&& p.font_weight.0 == first + 1
    &&& p.text_color.0 == first + 2
    &&& p.background_color.0 == first + 3
    &&& p.anti_aliasing.0 == first + 4
    &&& p.cursor_style.0 == first + 5
    &&& p.cursor_blink.0 == first + 6
    &&& p.cursor_color.0 == first + 7
    &&& p.scroll_speed.0 == first + 8
    &&& p.auto_wrap.0 == first + 9
    &&& p.bell_enabled.0 == first + 10
    &&& p.transparency.0 == first + 11
    &&& p.blur_background.0 == first + 12
    &&& p.shadow_text.0 == first + 13
}

/// Property `id` is there and is a number between two limits.
pub open spec fn has_range(
    t: PropertyTable,
    id: DrmObjectId,
    name: Seq<char>,
    lo: u64,
    hi: u64,
    v: u64,
) -> bool {
    t.properties.contains_key(id.0) && is_range(t.properties[id.0], name, lo, hi, v)
}

/// Property `id` is there and is an enumeration.
pub open spec fn has_enum(
    t: PropertyTable,
    id: DrmObjectId,
    name: Seq<char>,
    names: Seq<Seq<char>>,
    v: u32,
) -> bool {
    t.properties.contains_key(id.0) && is_enum(t.properties[id.0], name, names, v)
}

/// The properties as they are at the start.
pub open spec fn is_initial_table(t: PropertyTable, p: ConsoleProperties) -> bool {
    &&& has_range(t, p.font_size, "CONSOLE_FONT_SIZE"@, 8, 48, 16)
    &&& has_enum(t, p.font_weight, "CONSOLE_FONT_WEIGHT"@, seq!["Normal"@, "Bold"@, "Light"@], 0)
    &&& has_range(t, p.text_color, "CONSOLE_TEXT_COLOR"@, 0, 0xFFFFFF, 0xFFFFFF)
    &&& has_range(t, p.background_color, "CONSOLE_BG_COLOR"@, 0, 0xFFFFFF, 0)
    &&& has_enum(t, p.anti_aliasing, "CONSOLE_ANTI_ALIASING"@, seq!["Off"@, "Gray"@, "Subpixel"@], 0)
    &&& has_enum(
        t,
        p.cursor_style,
        "CONSOLE_CURSOR_STYLE"@,
        seq!["Block"@, "Underline"@, "Bar"@, "None"@],
        0,
    )
    &&& has_range(t, p.cursor_blink, "CONSOLE_CURSOR_BLINK"@, 0, 1, 1)
    &&& has_range(t, p.cursor_color, "CONSOLE_CURSOR_COLOR"@, 0, 0xFFFFFF, 0xFFFFFF)
    &&& has_range(t, p.scroll_speed, "CONSOLE_SCROLL_SPEED"@, 1, 20, 1)
    &&& has_range(t, p.auto_wrap, "CONSOLE_AUTO_WRAP"@, 0, 1, 1)
    &&& has_range(t, p.bell_enabled, "CONSOLE_BELL_ENABLED"@, 0, 1, 1)
    &&& has_range(t, p.transparency, "CONSOLE_TRANSPARENCY"@, 0, 255, 255)
    &&& has_range(t, p.blur_background, "CONSOLE_BLUR_BG"@, 0, 1, 0)
    &&& has_range(t, p.shadow_text, "CONSOLE_TEXT_SHADOW"@, 0, 1, 0)
    &&& t.attached == Map::<u32, Seq<DrmObjectId>>::empty()
    &&& t.masks_ok()
}

/// Adds a number between two limits.
fn add_range(
    m: &mut PropertyManager,
    name: &'static str,
    lo: u64,
    hi: u64,
    v: u64,
    ids: &mut IdCounter,
) -> (id: DrmObjectId)
    requires
        old(ids).next < u32::MAX,
        old(m)@.masks_ok(),
    ensures
        id.0 == old(ids).next,
        final(ids).next == old(ids).next + 1,
        has_range(final(m)@, id, name@, lo, hi, v),
        grown(old(m)@, final(m)@, id),
        final(m)@.masks_ok(),
{
    let p = DrmProperty::new_range(name.to_owned(), lo, hi, v, ids);
    m.add_property(p)
}

/// Adds an enumeration.
fn add_enum(
    m: &mut PropertyManager,
    name: &'static str,
    names: &Vec<&'static str>,
    ids: &mut IdCounter,
) -> (id: DrmObjectId)
    requires
        old(ids).next < u32::MAX,
        names@.len() > 0,
        old(m)@.masks_ok(),
    ensures
        id.0 == old(ids).next,
        final(ids).next == old(ids).next + 1,
        has_enum(final(m)@, id, name@, names@.map_values(|n: &'static str| n@), 0),
        grown(old(m)@, final(m)@, id),
        final(m)@.masks_ok(),
{
    let p = named_property(name, names, 0, ids);
    m.add_property(p)
}

/// Only property `id` is new.
pub open spec fn grown(a: PropertyTable, b: PropertyTable, id: DrmObjectId) -> bool {
    &&& b.attached == a.attached
    &&& forall|k: u32|
        k != id.0 && #[trigger] a.properties.contains_key(k) ==> b.properties.contains_key(k)
            && b.properties[k] == a.properties[k]
}

impl ConsoleProperties {
    /// Defines the properties, and gives their ids with the table that holds
    /// them.
    pub fn define(ids: &mut IdCounter) -> (r: (ConsoleProperties, PropertyManager))
        requires
            old(ids).next + 14 <= u32::MAX,
        ensures
            ids_from(r.0, old(ids).next as int),
            final(ids).next == old(ids).next + 14,
            is_initial_table(r.1@, r.0),
    {
        let weights = vec!["Normal", "Bold", "Light"];
        let smoothing = vec!["Off", "Gray", "Subpixel"];
        let styles = vec!["Block", "Underline", "Bar", "None"];
        assert(weights@.map_values(|n: &'static str| n@) =~= seq!["Normal"@, "Bold"@, "Light"@]);
        assert(smoothing@.map_values(|n: &'static str| n@) =~= seq!["Off"@, "Gray"@, "Subpixel"@]);
        assert(styles@.map_values(|n: &'static str| n@) =~= seq![
            "Block"@,
            "Underline"@,
            "Bar"@,
            "None"@,
        ]);
        let mut m = PropertyManager::new();
        let font_size = add_range(&mut m, "CONSOLE_FONT_SIZE", 8, 48, 16, ids);
        let font_weight = add_enum(&mut m, "CONSOLE_FONT_WEIGHT", &weights, ids);
        let text_color = add_range(&mut m, "CONSOLE_TEXT_COLOR", 0, 0xFFFFFF, 0xFFFFFF, ids);
        let background_color = add_range(&mut m, "CONSOLE_BG_COLOR", 0, 0xFFFFFF, 0, ids);
        let anti_aliasing = add_enum(&mut m, "CONSOLE_ANTI_ALIASING", &smoothing, ids);
        let cursor_style = add_enum(&mut m, "CONSOLE_CURSOR_STYLE", &styles, ids);
        let cursor_blink = add_range(&mut m, "CONSOLE_CURSOR_BLINK", 0, 1, 1, ids);
        let cursor_color = add_range(&mut m, "CONSOLE_CURSOR_COLOR", 0, 0xFFFFFF, 0xFFFFFF, ids);
        let scroll_speed = add_range(&mut m, "CONSOLE_SCROLL_SPEED", 1, 20, 1, ids);
        let auto_wrap = add_range(&mut m, "CONSOLE_AUTO_WRAP", 0, 1, 1, ids);
        let bell_enabled = add_range(&mut m, "CONSOLE_BELL_ENABLED", 0, 1, 1, ids);
        let transparency = add_range(&mut m, "CONSOLE_TRANSPARENCY", 0, 255, 255, ids);
        let blur_background = add_range(&mut m, "CONSOLE_BLUR_BG", 0, 1, 0, ids);
        let shadow_text = add_range(&mut m, "CONSOLE_TEXT_SHADOW", 0, 1, 0, ids);
        let p = ConsoleProperties {
            font_size,
            font_weight,
            text_color,
            background_color,
            anti_aliasing,
            cursor_style,
            cursor_blink,
            cursor_color,
            scroll_speed,
            auto_wrap,
            bell_enabled,
            transparency,
            blur_background,
            shadow_text,
        };
        (p, m)
    }

    /// The ids of newly defined properties.
    pub fn new(ids: &mut IdCounter) -> (p: ConsoleProperties)
        requires
            old(ids).next + 14 <= u32::MAX,
        ensures
            ids_from(p, old(ids).next as int),
            final(ids).next == old(ids).next + 14,
    {
        let (p, _) = ConsoleProperties::define(ids);
        p
    }
}

/// The number that a property holds, where it holds one.
pub open spec fn range_of(t: PropertyTable, id: DrmObjectId) -> Option<u64> {
    match t.value_of(id) {
        Some(DrmPropertyValue::Range(v)) => Some(v),
        _ => None,
    }
}

/// The choice that a property holds, where it holds one.
pub open spec fn enum_of(t: PropertyTable, id: DrmObjectId) -> Option<u32> {
    match t.value_of(id) {
        Some(DrmPropertyValue::Enum(v)) => Some(v),
        _ => None,
    }
}

fn read_range(m: &PropertyManager, id: DrmObjectId) -> (v: Option<u64>)
    ensures
        v == range_of(m@, id),
{
    match m.get_property(id) {
        Some(DrmPropertyValue::Range(v)) => Some(*v),
        _ => None,
    }
}

fn read_enum(m: &PropertyManager, id: DrmObjectId) -> (v: Option<u32>)
    ensures
        v == enum_of(m@, id),
{
    match m.get_property(id) {
        Some(DrmPropertyValue::Enum(v)) => Some(*v),
        _ => None,
    }
}

/// One of the properties that the console follows has a value.
pub open spec fn any_followed(t: PropertyTable, p: ConsoleProperties) -> bool {
    ||| range_of(t, p.font_size) is Some
    ||| range_of(t, p.text_color) is Some
    ||| range_of(t, p.background_color) is Some
    ||| enum_of(t, p.cursor_style) is Some
    ||| range_of(t, p.cursor_blink) is Some
    ||| range_of(t, p.auto_wrap) is Some
}

/// The console was told some properties, or nothing.
spec fn followed(a: DrmConsole, b: DrmConsole, told: bool) -> bool {
    if told {
        active_became(a, b, Terminal { dirty: true, ..a.active()@ })
    } else {
        b == a
    }
}

proof fn lemma_followed_again(a: DrmConsole, b: DrmConsole, c: DrmConsole, told: bool)
    requires
        a.wf(),
        a.has_terminal(),
        followed(a, b, told),
        active_became(b, c, Terminal { dirty: true, ..b.active()@ }),
    ensures
        followed(a, c, true),
{
    assert(c.virtual_terminals@ =~= a.virtual_terminals@.update(
        a.active_vt as int,
        c.virtual_terminals@[a.active_vt as int],
    ));
}

impl ConsoleProperties {
    /// Makes the console follow its properties: it is to be shown again where
    /// any of them has a value.
    pub fn apply_properties(&self, console: &mut DrmConsole, m: &PropertyManager) -> (r: Result<
        (),
        DriverError,
    >)
        requires
            old(console).wf(),
            any_followed(m@, *self) ==> old(console).has_terminal(),
        ensures
            final(console).wf(),
            r is Ok,
            if any_followed(m@, *self) {
                active_became(
                    *old(console),
                    *final(console),
                    Terminal { dirty: true, ..old(console).active()@ },
                )
            } else {
                *final(console) == *old(console)
            },
    {
        let ghost start = *console;
        let mut told = false;
        if let Some(size) = read_range(m, self.font_size) {
            let ghost before = *console;
            console.set_font_size(size as usize);
            proof {
                lemma_followed_again(start, before, *console, told);
            }
            told = true;
        }
        if let Some(color) = read_range(m, self.text_color) {
            let ghost before = *console;
            console.set_text_color(color as u32);
            proof {
                lemma_followed_again(start, before, *console, told);
            }
            told = true;
        }
        if let Some(color) = read_range(m, self.background_color) {
            let ghost before = *console;
            console.set_background_color(color as u32);
            proof {
                lemma_followed_again(start, before, *console, told);
            }
            told = true;
        }
        if let Some(style) = read_enum(m, self.cursor_style) {
            let ghost before = *console;
            console.set_cursor_style(style);
            proof {
                lemma_followed_again(start, before, *console, told);
            }
            told = true;
        }
        if let Some(blink) = read_range(m, self.cursor_blink) {
            let ghost before = *console;
            console.set_cursor_blink(blink != 0);
            proof {
                lemma_followed_again(start, before, *console, told);
            }
            told = true;
        }
        if let Some(wrap) = read_range(m, self.auto_wrap) {
            let ghost before = *console;
            console.set_auto_wrap(wrap != 0);
            proof {
                lemma_followed_again(start, before, *console, told);
            }
            told = true;
        }
        assert(followed(start, *console, told));
        Ok(())
    }
}

/// The console's properties in words: those that have values.
pub open spec fn property_info(t: PropertyTable, p: ConsoleProperties) -> Seq<char> {
    let size = match range_of(t, p.font_size) {
        Some(v) => "  Font Size: "@ + decimal(v as int) + "\n"@,
        None => Seq::empty(),
    };
    let text = match range_of(t, p.text_color) {
        Some(v) => "  Text Color: #"@ + hex(v as nat, 6) + "\n"@,
        None => Seq::empty(),
    };
    let background = match range_of(t, p.background_color) {
        Some(v) => "  Background: #"@ + hex(v as nat, 6) + "\n"@,
        None => Seq::empty(),
    };
    let cursor = match enum_of(t, p.cursor_style) {
        Some(v) => "  Cursor: "@ + style_name(v)@ + "\n"@,
        None => Seq::empty(),
    };
    "Console Properties:\n"@ + size + text + background + cursor
}

/// The name of a cursor style.
pub open spec fn style_name(style: u32) -> &'static str {
    if style == 0 {
        "Block"
    } else if style == 1 {
        "Underline"
    } else if style == 2 {
        "Bar"
    } else if style == 3 {
        "None"
    } else {
        "Unknown"
    }
}

impl ConsoleProperties {
    /// The properties in words.
    pub fn get_property_info(&self, m: &PropertyManager) -> (info: String)
        ensures
            info@ == property_info(m@, *self),
    {
        let mut info = "Console Properties:\n".to_owned();
        let ghost mut so_far = info@;
        if let Some(size) = read_range(m, self.font_size) {
            info.append("  Font Size: ");
            push_decimal(&mut info, size);
            info.append("\n");
            proof {
                assert(info@ =~= so_far + ("  Font Size: "@ + decimal(size as int) + "\n"@));
            }
        }
        assert(info@ =~= so_far + match range_of(m@, self.font_size) {
            Some(v) => "  Font Size: "@ + decimal(v as int) + "\n"@,
            None => Seq::empty(),
        });
        proof {
            so_far = info@;
        }
        if let Some(color) = read_range(m, self.text_color) {
            info.append("  Text Color: #");
            push_hex(&mut info, color, 6);
            info.append("\n");
        }
        assert(info@ =~= so_far + match range_of(m@, self.text_color) {
            Some(v) => "  Text Color: #"@ + hex(v as nat, 6) + "\n"@,
            None => Seq::empty(),
        });
        proof {
            so_far = info@;
        }
        if let Some(color) = read_range(m, self.background_color) {
            info.append("  Background: #");
            push_hex(&mut info, color, 6);
            info.append("\n");
        }
        assert(info@ =~= so_far + match range_of(m@, self.background_color) {
            Some(v) => "  Background: #"@ + hex(v as nat, 6) + "\n"@,
            None => Seq::empty(),
        });
        proof {
            so_far = info@;
        }
        if let Some(style) = read_enum(m, self.cursor_style) {
            info.append("  Cursor: ");
            let name = match style {
                0 => "Block",
                1 => "Underline",
                2 => "Bar",
                3 => "None",
                _ => "Unknown",
            };
            info.append(name);
            info.append("\n");
        }
        assert(info@ =~= so_far + match enum_of(m@, self.cursor_style) {
            Some(v) => "  Cursor: "@ + style_name(v)@ + "\n"@,
            None => Seq::empty(),
        });
        info
    }
}

/// A value that a theme gives to a property.
#[derive(Debug, Clone, Copy, PartialEq, Eq, Structural)]
pub enum Setting {
    Number(u64),
    Choice(u32),
}

impl Setting {
    pub open spec fn value(self) -> DrmPropertyValue {
        match self {
            Setting::Number(v) => DrmPropertyValue::Range(v),
            Setting::Choice(v) => DrmPropertyValue::Enum(v),
        }
    }
}

/// What a theme sets, in order.
pub open spec fn theme(name: Seq<char>, p: ConsoleProperties) -> Option<
    Seq<(DrmObjectId, Setting)>,
> {
    if name == "default"@ {
        Some(seq![
            (p.text_color, Setting::Number(0xFFFFFF)),
            (p.background_color, Setting::Number(0)),
            (p.font_size, Setting::Number(16)),
            (p.cursor_style, Setting::Choice(0)),
            (p.cursor_blink, Setting::Number(1)),
        ])
    } else if name == "dark"@ {
        Some(seq![
            (p.text_color, Setting::Number(0xE0E0E0)),
            (p.background_color, Setting::Number(0x1A1A1A)),
            (p.font_size, Setting::Number(14)),
            (p.cursor_style, Setting::Choice(2)),
            (p.transparency, Setting::Number(240)),
        ])
    } else if name == "light"@ {
        Some(seq![
            (p.text_color, Setting::Number(0x2D2D30)),
            (p.background_color, Setting::Number(0xFFFFFF)),
            (p.font_size, Setting::Number(14)),
            (p.cursor_style, Setting::Choice(1)),
            (p.shadow_text, Setting::Number(1)),
        ])
    } else if name == "matrix"@ {
        Some(seq![
            (p.text_color, Setting::Number(0x00FF41)),
            (p.background_color, Setting::Number(0)),
            (p.font_size, Setting::Number(12)),
            (p.cursor_style, Setting::Choice(0)),
            (p.cursor_color, Setting::Number(0x00FF41)),
            (p.font_weight, Setting::Choice(1)),
        ])
    } else if name == "retro"@ {
        Some(seq![
            (p.text_color, Setting::Number(0xFFB000)),
            (p.background_color, Setting::Number(0x1A0F00)),
            (p.font_size, Setting::Number(20)),
            (p.cursor_style, Setting::Choice(0)),
            (p.cursor_color, Setting::Number(0xFFB000)),
        ])
    } else if name == "minimal"@ {
        Some(seq![
            (p.text_color, Setting::Number(0x808080)),
            (p.background_color, Setting::Number(0)),
            (p.font_size, Setting::Number(12)),
            (p.cursor_style, Setting::Choice(3)),
            (p.font_weight, Setting::Choice(2)),
        ])
    } else {
        None
    }
}

/// The object that carries the console's properties.
pub const CONSOLE_OBJECT: u32 = 0;

/// The table once the settings from number `i` on are made, and why it stopped
/// before the end, if it did.
pub open spec fn settled(
    t: PropertyTable,
    list: Seq<(DrmObjectId, Setting)>,
    i: int,
) -> (PropertyTable, Option<Seq<char>>)
    decreases list.len() - i,
{
    if i < 0 || i >= list.len() {
        (t, None)
    } else {
        match t.set_objection(DrmObjectId(CONSOLE_OBJECT), list[i].0, list[i].1.value()) {
            Some(why) => (t, Some(why)),
            None => settled(t.set(list[i].0, list[i].1.value()), list, i + 1),
        }
    }
}

/// Whether a name is the given text.
fn is_name(name: &str, text: &str) -> (r: bool)
    ensures
        r == (name@ == text@),
{
    let n = text.unicode_len();
    if name.unicode_len() != n {
        return false;
    }
    let mut i: usize = 0;
    while i < n
        invariant
            i <= n,
            n == text@.len(),
            name@.len() == n,
            forall|k: int| 0 <= k < i ==> name@[k] == #[trigger] text@[k],
        decreases n - i,
    {
        if name.get_char(i) != text.get_char(i) {
            assert(name@[i as int] != text@[i as int]);
            return false;
        }
        i = i + 1;
    }
    assert(name@ =~= text@);
    true
}

/// What a theme sets.
fn settings(name: &str, p: &ConsoleProperties) -> (r: Option<Vec<(DrmObjectId, Setting)>>)
    ensures
        match (r, theme(name@, *p)) {
            (Some(v), Some(list)) => v@ == list,
            (None, None) => true,
            _ => false,
        },
{
    let list: Vec<(DrmObjectId, Setting)> = if is_name(name, "default") {
        vec![
            (p.text_color, Setting::Number(0xFFFFFF)),
            (p.background_color, Setting::Number(0)),
            (p.font_size, Setting::Number(16)),
            (p.cursor_style, Setting::Choice(0)),
            (p.cursor_blink, Setting::Number(1)),
        ]
    } else if is_name(name, "dark") {
        vec![
            (p.text_color, Setting::Number(0xE0E0E0)),
            (p.background_color, Setting::Number(0x1A1A1A)),
            (p.font_size, Setting::Number(14)),
            (p.cursor_style, Setting::Choice(2)),
            (p.transparency, Setting::Number(240)),
        ]
    } else if is_name(name, "light") {
        vec![
            (p.text_color, Setting::Number(0x2D2D30)),
            (p.background_color, Setting::Number(0xFFFFFF)),
            (p.font_size, Setting::Number(14)),
            (p.cursor_style, Setting::Choice(1)),
            (p.shadow_text, Setting::Number(1)),
        ]
    } else if is_name(name, "matrix") {
        vec![
            (p.text_color, Setting::Number(0x00FF41)),
            (p.background_color, Setting::Number(0)),
            (p.font_size, Setting::Number(12)),
            (p.cursor_style, Setting::Choice(0)),
            (p.cursor_color, Setting::Number(0x00FF41)),
            (p.font_weight, Setting::Choice(1)),
        ]
    } else if is_name(name, "retro") {
        vec![
            (p.text_color, Setting::Number(0xFFB000)),
            (p.background_color, Setting::Number(0x1A0F00)),
            (p.font_size, Setting::Number(20)),
            (p.cursor_style, Setting::Choice(0)),
            (p.cursor_color, Setting::Number(0xFFB000)),
        ]
    } else if is_name(name, "minimal") {
        vec![
            (p.text_color, Setting::Number(0x808080)),
            (p.background_color, Setting::Number(0)),
            (p.font_size, Setting::Number(12)),
            (p.cursor_style, Setting::Choice(3)),
            (p.font_weight, Setting::Choice(2)),
        ]
    } else {
        return None;
    };
    assert(list@ =~= theme(name@, *p)->0);
    Some(list)
}

/// The console's themes.
pub struct ConsoleThemes;

impl ConsoleThemes {
    /// Sets a theme's properties one after the other. The first that cannot be
    /// set ends it; those before it stay.
    pub fn apply_theme(theme_name: &str, m: &mut PropertyManager, props: &ConsoleProperties) -> (r:
        Result<(), &'static str>)
        requires
            old(m)@.masks_ok(),
        ensures
            final(m)@.masks_ok(),
            match theme(theme_name@, *props) {
                None => {
                    &&& r matches Err(why) && why@ == "Unknown theme"@
                    &&& final(m)@ == old(m)@
                },
                Some(list) => {
                    &&& final(m)@ == settled(old(m)@, list, 0).0
                    &&& match settled(old(m)@, list, 0).1 {
                        Some(w) => r matches Err(why) && why@ == w,
                        None => r is Ok,
                    }
                },
            },
    {
        let list = match settings(theme_name, props) {
            Some(list) => list,
            None => {
                return Err("Unknown theme");
            },
        };
        make(m, &list)
    }

    /// The names of the themes.
    pub fn list_themes() -> (names: Vec<&'static str>)
        ensures
            names@.map_values(|n: &'static str| n@) == seq![
                "default"@,
                "dark"@,
                "light"@,
                "matrix"@,
                "retro"@,
                "minimal"@,
            ],
    {
        let names = vec!["default", "dark", "light", "matrix", "retro", "minimal"];
        assert(names@.map_values(|n: &'static str| n@) =~= seq![
            "default"@,
            "dark"@,
            "light"@,
            "matrix"@,
            "retro"@,
            "minimal"@,
        ]);
        names
    }
}

/// Makes a list of settings.
fn make(m: &mut PropertyManager, list: &Vec<(DrmObjectId, Setting)>) -> (r: Result<
    (),
    &'static str,
>)
    requires
        old(m)@.masks_ok(),
    ensures
        final(m)@.masks_ok(),
        final(m)@ == settled(old(m)@, list@, 0).0,
        match settled(old(m)@, list@, 0).1 {
            Some(w) => r matches Err(why) && why@ == w,
            None => r is Ok,
        },
{
    let ghost before = m@;
    let mut i: usize = 0;
    while i < list.len()
        invariant
            i <= list@.len(),
            m@.masks_ok(),
            before == old(m)@,
            settled(m@, list@, i as int) == settled(before, list@, 0),
        decreases list@.len() - i,
    {
        let (id, setting) = list[i];
        let value = match setting {
            Setting::Number(v) => DrmPropertyValue::Range(v),
            Setting::Choice(v) => DrmPropertyValue::Enum(v),
        };
        assert(value == list@[i as int].1.value());
        match m.set_property(DrmObjectId(CONSOLE_OBJECT), id, value) {
            Ok(()) => {},
            Err(why) => {
                return Err(why);
            },
        }
        i = i + 1;
    }
    Ok(())
}

/// Every theme that is listed can be applied to the console's properties: where
/// they are as defined and belong to the console, nothing objects.
pub proof fn lemma_listed_themes_apply(t: PropertyTable, p: ConsoleProperties, name: Seq<char>)
    requires
        is_initial_table(
            PropertyTable { attached: Map::<u32, Seq<DrmObjectId>>::empty(), ..t },
            p,
        ),
        ids_from(p, p.font_size.0 as int),
        t.attached.contains_key(CONSOLE_OBJECT),
        forall|id: DrmObjectId|
            p.font_size.0 <= id.0 < p.font_size.0 + 14
                ==> #[trigger] t.attached[CONSOLE_OBJECT].contains(id),
        theme(name, p) is Some,
    ensures
        settled(t, theme(name, p)->0, 0).1 is None,
{
    reveal_with_fuel(settled, 8);
    assert(0x8000_0002u32 & 4 == 0 && 0x8000_0008u32 & 4 == 0) by (bit_vector);
}

} // verus!
