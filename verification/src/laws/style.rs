//! Colours, styles, boxes and fonts.

use crate::boxes;
use crate::boxes::Extent;
use crate::font;
use crate::font::Platform;
use crate::style;
use crate::style::{Rgb, StyleRun};
use vstd::math::{max, min};
use vstd::prelude::*;

verus! {

/// Whether a bit of some flags is set, the lowest being bit 0.
pub open spec fn bit(flags: u8, place: int) -> bool {
    if place <= 0 {
        flags % 2 == 1
    } else if place == 1 {
        (flags / 2) % 2 == 1
    } else if place == 2 {
        (flags / 4) % 2 == 1
    } else if place == 3 {
        (flags / 8) % 2 == 1
    } else if place == 4 {
        (flags / 16) % 2 == 1
    } else {
        (flags / 64) % 2 == 1
    }
}

proof fn lemma_bits(flags: u8)
    ensures
        (flags & 0x02 != 0) == ((flags / 2) % 2 == 1),
        (flags & 0x04 != 0) == ((flags / 4) % 2 == 1),
        (flags & 0x08 != 0) == ((flags / 8) % 2 == 1),
        (flags & 0x10 != 0) == ((flags / 16) % 2 == 1),
        (flags & 0x40 != 0) == ((flags / 64) % 2 == 1),
{
    assert((flags & 0x02 != 0) == ((flags / 2) % 2 == 1)) by (bit_vector);
    assert((flags & 0x04 != 0) == ((flags / 4) % 2 == 1)) by (bit_vector);
    assert((flags & 0x08 != 0) == ((flags / 8) % 2 == 1)) by (bit_vector);
    assert((flags & 0x10 != 0) == ((flags / 16) % 2 == 1)) by (bit_vector);
    assert((flags & 0x40 != 0) == ((flags / 64) % 2 == 1)) by (bit_vector);
}

/// Text looks as the flags of its run say: bit 1 makes it bold, bit 2 italic, bit 3 underlined, bit
/// 4 faint, which is 65 percent opaque, and bit 6 struck through. It has the colour of its run.
pub proof fn law_flags_decide_the_look(run: StyleRun)
    ensures
        ({
            let key = style::run_key(run);
            let look = style::look_of(key.fg, key.flags);
            &&& look.color == run.fg
            &&& look.bold == bit(run.flags, 1)
            &&& look.italic == bit(run.flags, 2)
            &&& look.underline == bit(run.flags, 3)
            &&& look.alpha_percent == if bit(run.flags, 4) {
                65u8
            } else {
                100u8
            }
            &&& look.strikethrough == bit(run.flags, 6)
        }),
{
    style::law_key_keeps_the_look(run);
    lemma_bits(run.flags);
}

/// A packed colour gives back its parts: red in the highest byte, then green, then blue, and full
/// opacity in the lowest.
pub proof fn law_packed_colours_unpack(c: Rgb)
    ensures
        style::opaque_rgba(c) / 0x1000000 == c.r,
        (style::opaque_rgba(c) / 0x10000) % 0x100 == c.g,
        (style::opaque_rgba(c) / 0x100) % 0x100 == c.b,
        style::opaque_rgba(c) % 0x100 == 0xff,
{
}

/// The cursor is black where the background is lighter than 60 percent and white where it is not,
/// with a lightness between that of its strongest and its weakest part, and 72 percent opaque.
pub proof fn law_cursor_shade(c: Rgb)
    ensures
        ({
            let strongest = max(c.r as int, max(c.g as int, c.b as int));
            let weakest = min(c.r as int, min(c.g as int, c.b as int));
            let shade = style::cursor_shade(c);
            &&& (strongest + weakest) * 10 > 2 * 255 * 6 ==> shade.lightness_percent == 0
            &&& (strongest + weakest) * 10 <= 2 * 255 * 6 ==> shade.lightness_percent == 100
            &&& shade.alpha_percent == 72
            &&& style::doubled_lightness(c) == strongest + weakest
        }),
{
}

/// The characters whose lines run to the left, by their code points.
pub open spec fn runs_left(code: int) -> bool {
    ||| code == 0x2500 || code == 0x2501 || code == 0x2550
    ||| code == 0x2510 || code == 0x2513 || code == 0x2557 || code == 0x256e
    ||| code == 0x2518 || code == 0x251b || code == 0x255d || code == 0x256f
    ||| code == 0x2524 || code == 0x252b || code == 0x2563
    ||| code == 0x252c || code == 0x2533 || code == 0x2566
    ||| code == 0x2534 || code == 0x253b || code == 0x2569
    ||| code == 0x253c || code == 0x254b || code == 0x256c
}

/// The characters whose lines run to the right.
pub open spec fn runs_right(code: int) -> bool {
    ||| code == 0x2500 || code == 0x2501 || code == 0x2550
    ||| code == 0x250c || code == 0x250f || code == 0x2554 || code == 0x256d
    ||| code == 0x2514 || code == 0x2517 || code == 0x255a || code == 0x2570
    ||| code == 0x251c || code == 0x2523 || code == 0x2560
    ||| code == 0x252c || code == 0x2533 || code == 0x2566
    ||| code == 0x2534 || code == 0x253b || code == 0x2569
    ||| code == 0x253c || code == 0x254b || code == 0x256c
}

/// The characters whose lines run up.
pub open spec fn runs_up(code: int) -> bool {
    ||| code == 0x2502 || code == 0x2503 || code == 0x2551
    ||| code == 0x2514 || code == 0x2517 || code == 0x255a || code == 0x2570
    ||| code == 0x2518 || code == 0x251b || code == 0x255d || code == 0x256f
    ||| code == 0x251c || code == 0x2523 || code == 0x2560
    ||| code == 0x2524 || code == 0x252b || code == 0x2563
    ||| code == 0x2534 || code == 0x253b || code == 0x2569
    ||| code == 0x253c || code == 0x254b || code == 0x256c
}

/// The characters whose lines run down.
pub open spec fn runs_down(code: int) -> bool {
    ||| code == 0x2502 || code == 0x2503 || code == 0x2551
    ||| code == 0x250c || code == 0x250f || code == 0x2554 || code == 0x256d
    ||| code == 0x2510 || code == 0x2513 || code == 0x2557 || code == 0x256e
    ||| code == 0x251c || code == 0x2523 || code == 0x2560
    ||| code == 0x2524 || code == 0x252b || code == 0x2563
    ||| code == 0x252c || code == 0x2533 || code == 0x2566
    ||| code == 0x253c || code == 0x254b || code == 0x256c
}

/// The characters with heavy lines.
pub open spec fn has_heavy_lines(code: int) -> bool {
    ||| code == 0x2501 || code == 0x2503 || code == 0x250f || code == 0x2513 || code == 0x2517
    ||| code == 0x251b || code == 0x2523 || code == 0x252b || code == 0x2533 || code == 0x253b
    ||| code == 0x254b
}

/// The characters with double lines.
pub open spec fn has_double_lines(code: int) -> bool {
    ||| code == 0x2550 || code == 0x2551 || code == 0x2554 || code == 0x2557 || code == 0x255a
    ||| code == 0x255d || code == 0x2560 || code == 0x2563 || code == 0x2566 || code == 0x2569
    ||| code == 0x256c
}

/// Box drawing characters have the lines that Unicode gives them: the horizontal one from the middle
/// to the sides to which the character runs, the vertical one likewise, 135 percent thick where they
/// are heavy and 115 percent where they are double. Characters without lines are not drawn.
pub proof fn law_boxes_have_their_lines(ch: char)
    ensures
        ({
            let code = ch as u32 as int;
            let strokes = boxes::strokes_of(ch);
            let side = |back: bool, on: bool, extent: Option<Extent>|
                {
                    &&& extent == Some(Extent::Full) <==> back && on
                    &&& extent == Some(Extent::FirstHalf) <==> back && !on
                    &&& extent == Some(Extent::SecondHalf) <==> !back && on
                };
            &&& strokes is Some <==> runs_left(code) || runs_right(code) || runs_up(code)
                || runs_down(code)
            &&& strokes is Some ==> side(
                runs_left(code),
                runs_right(code),
                (strokes->0).horizontal,
            ) && side(runs_up(code), runs_down(code), (strokes->0).vertical)
            &&& strokes is Some ==> (strokes->0).thickness_percent == if has_heavy_lines(code) {
                135u8
            } else if has_double_lines(code) {
                115u8
            } else {
                100u8
            }
        }),
{
}

/// The directions of a character as a number: left is worth 1, right 2, up 4 and down 8.
pub proof fn law_direction_masks(ch: char)
    ensures
        boxes::arms(ch) matches Some(arms) ==> {
            let code = ch as u32 as int;
            let mask = boxes::mask_of(arms);
            &&& 0 < mask < 16
            &&& mask % 2 == 1 <==> runs_left(code)
            &&& (mask / 2) % 2 == 1 <==> runs_right(code)
            &&& (mask / 4) % 2 == 1 <==> runs_up(code)
            &&& mask / 8 == 1 <==> runs_down(code)
            &&& boxes::thickness(ch) == if has_heavy_lines(code) {
                135u8
            } else if has_double_lines(code) {
                115u8
            } else {
                100u8
            }
        },
        boxes::arms(ch) is None <==> boxes::strokes_of(ch) is None,
{
}

/// Each platform has its default font, and all have the same stand-ins, in this order.
pub proof fn law_default_fonts()
    ensures
        font::default_family(Platform::Ohos) == "HarmonyOS Sans"@,
        font::default_family(Platform::MacOs) == "Menlo"@,
        font::default_family(Platform::Windows) == "Consolas"@,
        font::default_family(Platform::Other) == "DejaVu Sans Mono"@,
        font::fallback_families().len() == 21,
        font::fallback_families().take(6) == seq![
            "SF Mono"@,
            "Menlo"@,
            "Monaco"@,
            "Consolas"@,
            "Cascadia Mono"@,
            "DejaVu Sans Mono"@,
        ],
        font::fallback_families().subrange(6, 12) == seq![
            "Noto Sans Mono"@,
            "JetBrains Mono"@,
            "Fira Mono"@,
            "Sarasa Mono SC"@,
            "Sarasa Term SC"@,
            "Sarasa Mono J"@,
        ],
        font::fallback_families().subrange(12, 18) == seq![
            "Noto Sans Mono CJK SC"@,
            "Noto Sans Mono CJK JP"@,
            "Source Han Mono SC"@,
            "WenQuanYi Zen Hei Mono"@,
            "HarmonyOS Sans"@,
            "HarmonyOS Sans SC"@,
        ],
        font::fallback_families().skip(18) == seq![
            "Apple Color Emoji"@,
            "Noto Color Emoji"@,
            "Segoe UI Emoji"@,
        ],
{
}

} // verus!
