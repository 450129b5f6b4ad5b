//! Colours and styles of cells.

use vstd::prelude::*;

verus! {

pub const CELL_STYLE_FLAG_BOLD: u8 = 0x02;

pub const CELL_STYLE_FLAG_ITALIC: u8 = 0x04;

pub const CELL_STYLE_FLAG_UNDERLINE: u8 = 0x08;

pub const CELL_STYLE_FLAG_FAINT: u8 = 0x10;

pub const CELL_STYLE_FLAG_STRIKETHROUGH: u8 = 0x40;

/// The flags that change how text looks.
pub const TEXT_STYLE_FLAGS: u8 = 0x5e;

/// A colour.
#[derive(Clone, Copy, Debug, PartialEq, Eq, Structural)]
pub struct Rgb {
    pub r: u8,
    pub g: u8,
    pub b: u8,
}

/// The style of a stretch of columns of a row, both ends included, with columns counted from 1.
#[derive(Clone, Copy, Debug, PartialEq, Eq, Structural)]
pub struct StyleRun {
    pub start_col: u16,
    pub end_col: u16,
    pub fg: Rgb,
    pub bg: Rgb,
    pub flags: u8,
}

/// What decides how a run of text looks: its colour and its flags.
#[derive(Clone, Copy, Debug, PartialEq, Eq, Structural)]
pub struct TextRunKey {
    pub fg: Rgb,
    pub flags: u8,
}

/// How a run of text looks.
#[derive(Clone, Copy, Debug, PartialEq, Eq, Structural)]
pub struct TextLook {
    pub color: Rgb,
    pub alpha_percent: u8,
    pub bold: bool,
    pub italic: bool,
    pub underline: bool,
    pub strikethrough: bool,
}

/// A grey, with its lightness and its opacity.
#[derive(Clone, Copy, Debug, PartialEq, Eq, Structural)]
pub struct Shade {
    pub lightness_percent: u8,
    pub alpha_percent: u8,
}

pub open spec fn has_flag(flags: u8, flag: u8) -> bool {
    flags & flag != 0
}

/// The key of the text of a style run.
pub open spec fn run_key(run: StyleRun) -> TextRunKey {
    TextRunKey { fg: run.fg, flags: run.flags & TEXT_STYLE_FLAGS }
}

/// How text with some colour and flags looks. Faint text is partly transparent.
pub open spec fn look_of(fg: Rgb, flags: u8) -> TextLook {
    TextLook {
        color: fg,
        alpha_percent: if has_flag(flags, CELL_STYLE_FLAG_FAINT) {
            65
        } else {
            100
        },
        bold: has_flag(flags, CELL_STYLE_FLAG_BOLD),
        italic: has_flag(flags, CELL_STYLE_FLAG_ITALIC),
        underline: has_flag(flags, CELL_STYLE_FLAG_UNDERLINE),
        strikethrough: has_flag(flags, CELL_STYLE_FLAG_STRIKETHROUGH),
    }
}

/// A colour as a number, with red in the highest byte and full opacity in the lowest.
pub open spec fn opaque_rgba(c: Rgb) -> int {
    c.r * 0x1000000 + c.g * 0x10000 + c.b * 0x100 + 0xff
}

/// Twice the lightness of a colour: the sum of its strongest and its weakest part.
pub open spec fn doubled_lightness(c: Rgb) -> int {
    let high = if c.r >= c.g && c.r >= c.b {
        c.r as int
    } else if c.g >= c.b {
        c.g as int
    } else {
        c.b as int
    };
    let low = if c.r <= c.g && c.r <= c.b {
        c.r as int
    } else if c.g <= c.b {
        c.g as int
    } else {
        c.b as int
    };
    high + low
}

/// The shade of the cursor: black on a background with a lightness of more than 60 percent, white
/// on all others.
pub open spec fn cursor_shade(background: Rgb) -> Shade {
    Shade {
        lightness_percent: if doubled_lightness(background) * 100 > 60 * 510 {
            0
        } else {
            100
        },
        alpha_percent: 72,
    }
}

/// The key of the text of a style run.
pub fn text_run_key(run: &StyleRun) -> (key: TextRunKey)
    ensures
        key == run_key(*run),
{
    TextRunKey { fg: run.fg, flags: run.flags & TEXT_STYLE_FLAGS }
}

/// How a run of text looks.
pub fn text_look(key: TextRunKey) -> (look: TextLook)
    ensures
        look == look_of(key.fg, key.flags),
{
    let alpha_percent: u8 = if key.flags & CELL_STYLE_FLAG_FAINT != 0 {
        65
    } else {
        100
    };
    TextLook {
        color: key.fg,
        alpha_percent,
        bold: key.flags & CELL_STYLE_FLAG_BOLD != 0,
        italic: key.flags & CELL_STYLE_FLAG_ITALIC != 0,
        underline: key.flags & CELL_STYLE_FLAG_UNDERLINE != 0,
        strikethrough: key.flags & CELL_STYLE_FLAG_STRIKETHROUGH != 0,
    }
}

/// A colour with full opacity, as a number.
pub fn packed_rgba(color: Rgb) -> (packed: u32)
    ensures
        packed == opaque_rgba(color),
{
    let r = color.r as u32;
    let g = color.g as u32;
    let b = color.b as u32;
    assert((r << 24) | (g << 16) | (b << 8) | 0xFF == r * 0x1000000 + g * 0x10000 + b * 0x100
        + 0xff) by (bit_vector)
        requires
            r < 256,
            g < 256,
            b < 256,
    ;
    (r << 24) | (g << 16) | (b << 8) | 0xFF
}

/// The shade in which the cursor is drawn on a background.
pub fn cursor_color_for_background(background: Rgb) -> (cursor: Shade)
    ensures
        cursor == cursor_shade(background),
{
    let mut high: u16 = background.r as u16;
    let mut low: u16 = background.r as u16;
    if background.g as u16 > high {
        high = background.g as u16;
    }
    if background.b as u16 > high {
        high = background.b as u16;
    }
    if (background.g as u16) < low {
        low = background.g as u16;
    }
    if (background.b as u16) < low {
        low = background.b as u16;
    }
    let lightness_percent: u8 = if high + low > 306 {
        0
    } else {
        100
    };
    Shade { lightness_percent, alpha_percent: 72 }
}

/// The key of a run keeps all that decides how its text looks.
pub proof fn law_key_keeps_the_look(run: StyleRun)
    ensures
        look_of(run_key(run).fg, run_key(run).flags) == look_of(run.fg, run.flags),
{
    let flags = run.flags;
    assert((flags & 0x5e) & 0x02 == flags & 0x02) by (bit_vector);
    assert((flags & 0x5e) & 0x04 == flags & 0x04) by (bit_vector);
    assert((flags & 0x5e) & 0x08 == flags & 0x08) by (bit_vector);
    assert((flags & 0x5e) & 0x10 == flags & 0x10) by (bit_vector);
    assert((flags & 0x5e) & 0x40 == flags & 0x40) by (bit_vector);
}

/// Different colours are different numbers.
pub proof fn law_packed_colours_differ(a: Rgb, b: Rgb)
    ensures
        opaque_rgba(a) == opaque_rgba(b) ==> a == b,
{
}

/// The cursor stands out: its lightness differs from that of the background by at least 40
/// percent.
pub proof fn law_cursor_contrasts(background: Rgb)
    ensures
        ({
            let cursor = cursor_shade(background).lightness_percent * 510;
            let behind = doubled_lightness(background) * 100;
            cursor - behind >= 40 * 510 || behind - cursor >= 40 * 510
        }),
{
}

} // verus!
