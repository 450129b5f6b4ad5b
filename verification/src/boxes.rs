//! Box drawing characters: which way their lines run.

use vstd::prelude::*;

verus! {

pub const BOX_DIR_LEFT: u8 = 0x01;

pub const BOX_DIR_RIGHT: u8 = 0x02;

pub const BOX_DIR_UP: u8 = 0x04;

pub const BOX_DIR_DOWN: u8 = 0x08;

/// The part of a cell's width or height that a line takes. The first half is the left or the upper
/// one.
#[derive(Clone, Copy, Debug, PartialEq, Eq, Structural)]
pub enum Extent {
    Full,
    FirstHalf,
    SecondHalf,
}

/// The lines of a box drawing character, through the middle of its cell.
#[derive(Clone, Copy, Debug, PartialEq, Eq, Structural)]
pub struct BoxStrokes {
    pub horizontal: Option<Extent>,
    pub vertical: Option<Extent>,
    /// Thickness, with 100 for a light line.
    pub thickness_percent: u8,
}

/// The directions in which lines run from the middle of a cell.
pub struct Arms {
    pub left: bool,
    pub right: bool,
    pub up: bool,
    pub down: bool,
}

/// The directions in which the lines of a box drawing character run; none for other characters and
/// for those that are left to the font.
pub open spec fn arms(ch: char) -> Option<Arms> {
    if ch == '─' || ch == '━' || ch == '═' {
        Some(Arms { left: true, right: true, up: false, down: false })
    } else if ch == '│' || ch == '┃' || ch == '║' {
        Some(Arms { left: false, right: false, up: true, down: true })
    } else if ch == '┌' || ch == '┏' || ch == '╔' || ch == '╭' {
        Some(Arms { left: false, right: true, up: false, down: true })
    } else if ch == '┐' || ch == '┓' || ch == '╗' || ch == '╮' {
        Some(Arms { left: true, right: false, up: false, down: true })
    } else if ch == '└' || ch == '┗' || ch == '╚' || ch == '╰' {
        Some(Arms { left: false, right: true, up: true, down: false })
    } else if ch == '┘' || ch == '┛' || ch == '╝' || ch == '╯' {
        Some(Arms { left: true, right: false, up: true, down: false })
    } else if ch == '├' || ch == '┣' || ch == '╠' {
        Some(Arms { left: false, right: true, up: true, down: true })
    } else if ch == '┤' || ch == '┫' || ch == '╣' {
        Some(Arms { left: true, right: false, up: true, down: true })
    } else if ch == '┬' || ch == '┳' || ch == '╦' {
        Some(Arms { left: true, right: true, up: false, down: true })
    } else if ch == '┴' || ch == '┻' || ch == '╩' {
        Some(Arms { left: true, right: true, up: true, down: false })
    } else if ch == '┼' || ch == '╋' || ch == '╬' {
        Some(Arms { left: true, right: true, up: true, down: true })
    } else {
        None
    }
}

/// Directions as a number, one bit each.
pub open spec fn mask_of(arms: Arms) -> int {
    (if arms.left {
        1int
    } else {
        0
    }) + (if arms.right {
        2int
    } else {
        0
    }) + (if arms.up {
        4int
    } else {
        0
    }) + (if arms.down {
        8int
    } else {
        0
    })
}

/// Whether the lines of a character are heavy.
pub open spec fn is_heavy(ch: char) -> bool {
    ch == '━' || ch == '┃' || ch == '┏' || ch == '┓' || ch == '┗' || ch == '┛' || ch == '┣' || ch
        == '┫' || ch == '┳' || ch == '┻' || ch == '╋'
}

/// Whether the lines of a character are double lines, which are drawn as single thicker ones.
pub open spec fn is_double(ch: char) -> bool {
    ch == '═' || ch == '║' || ch == '╔' || ch == '╗' || ch == '╚' || ch == '╝' || ch == '╠' || ch
        == '╣' || ch == '╦' || ch == '╩' || ch == '╬'
}

/// The thickness of the lines of a character, in percent of that of light lines.
pub open spec fn thickness(ch: char) -> u8 {
    if is_heavy(ch) {
        135
    } else if is_double(ch) {
        115
    } else {
        100
    }
}

/// The part of a cell that a line takes which runs from the middle back, on, or both ways.
pub open spec fn extent(back: bool, on: bool) -> Option<Extent> {
    if back && on {
        Some(Extent::Full)
    } else if back {
        Some(Extent::FirstHalf)
    } else if on {
        Some(Extent::SecondHalf)
    } else {
        None
    }
}

/// The lines of a character.
pub open spec fn strokes_of(ch: char) -> Option<BoxStrokes> {
    match arms(ch) {
        Some(arms) => Some(
            BoxStrokes {
                horizontal: extent(arms.left, arms.right),
                vertical: extent(arms.up, arms.down),
                thickness_percent: thickness(ch),
            },
        ),
        None => None,
    }
}

/// The directions in which the lines of a box drawing character run, and the thickness of its
/// lines in percent of that of light ones.
pub fn box_drawing_mask(ch: char) -> (found: Option<(u8, u8)>)
    ensures
        match arms(ch) {
            Some(arms) => found is Some && (found->0).0 == mask_of(arms) && (found->0).1
                == thickness(ch),
            None => found is None,
        },
{
    let mask: u8 = match ch {
        '─' | '━' | '═' => 0x03,
        '│' | '┃' | '║' => 0x0c,
        '┌' | '┏' | '╔' | '╭' => 0x0a,
        '┐' | '┓' | '╗' | '╮' => 0x09,
        '└' | '┗' | '╚' | '╰' => 0x06,
        '┘' | '┛' | '╝' | '╯' => 0x05,
        '├' | '┣' | '╠' => 0x0e,
        '┤' | '┫' | '╣' => 0x0d,
        '┬' | '┳' | '╦' => 0x0b,
        '┴' | '┻' | '╩' => 0x07,
        '┼' | '╋' | '╬' => 0x0f,
        _ => {
            return None;
        },
    };
    let thickness: u8 = match ch {
        '━' | '┃' | '┏' | '┓' | '┗' | '┛' | '┣' | '┫' | '┳' | '┻' | '╋' => 135,
        '═' | '║' | '╔' | '╗' | '╚' | '╝' | '╠' | '╣' | '╦' | '╩' | '╬' => 115,
        _ => 100,
    };
    Some((mask, thickness))
}

/// The part of a cell that a line takes which runs from the middle back, on, or both ways.
fn extent_of(back: bool, on: bool) -> (found: Option<Extent>)
    ensures
        found == extent(back, on),
{
    if back && on {
        Some(Extent::Full)
    } else if back {
        Some(Extent::FirstHalf)
    } else if on {
        Some(Extent::SecondHalf)
    } else {
        None
    }
}

/// The lines of a box drawing character.
pub fn box_strokes_for_char(ch: char) -> (found: Option<BoxStrokes>)
    ensures
        found == strokes_of(ch),
{
    let (mask, thickness_percent) = match box_drawing_mask(ch) {
        Some(found) => found,
        None => {
            return None;
        },
    };
    let left = mask & BOX_DIR_LEFT != 0;
    let right = mask & BOX_DIR_RIGHT != 0;
    let up = mask & BOX_DIR_UP != 0;
    let down = mask & BOX_DIR_DOWN != 0;
    proof {
        lemma_mask(arms(ch)->0, mask);
    }
    Some(
        BoxStrokes {
            horizontal: extent_of(left, right),
            vertical: extent_of(up, down),
            thickness_percent,
        },
    )
}

proof fn lemma_mask(arms: Arms, mask: u8)
    requires
        mask == mask_of(arms),
    ensures
        (mask & BOX_DIR_LEFT != 0) == arms.left,
        (mask & BOX_DIR_RIGHT != 0) == arms.right,
        (mask & BOX_DIR_UP != 0) == arms.up,
        (mask & BOX_DIR_DOWN != 0) == arms.down,
{
    assert(mask < 16 ==> (mask & 0x01 != 0) == (mask % 2 == 1)) by (bit_vector);
    assert(mask < 16 ==> (mask & 0x02 != 0) == ((mask / 2) % 2 == 1)) by (bit_vector);
    assert(mask < 16 ==> (mask & 0x04 != 0) == ((mask / 4) % 2 == 1)) by (bit_vector);
    assert(mask < 16 ==> (mask & 0x08 != 0) == (mask / 8 == 1)) by (bit_vector);
}

/// Every box drawing character has a line, and where a line runs in one direction only, another one
/// meets it in the middle of the cell.
pub proof fn law_lines_meet(ch: char)
    ensures
        strokes_of(ch) matches Some(strokes) ==> {
            &&& strokes.horizontal is Some || strokes.vertical is Some
            &&& strokes.horizontal is Some && strokes.horizontal != Some(Extent::Full)
                ==> strokes.vertical is Some
            &&& strokes.vertical is Some && strokes.vertical != Some(Extent::Full)
                ==> strokes.horizontal is Some
        },
{
}

/// The lines of a character tell the directions in which they run.
pub proof fn law_strokes_tell_arms(a: char, b: char)
    requires
        arms(a) is Some,
        arms(b) is Some,
    ensures
        (strokes_of(a)->0).horizontal == (strokes_of(b)->0).horizontal && (strokes_of(
            a,
        )->0).vertical == (strokes_of(b)->0).vertical <==> arms(a) == arms(b),
{
}

} // verus!
