use vstd::prelude::*;

verus! {

/// Display colours a participant can be assigned.
#[derive(Clone, Copy, Debug, PartialEq, Eq, Structural)]
pub enum Color {
    Default,
    Black,
    Red,
    Green,
    Yellow,
    Blue,
    Magenta,
    Cyan,
    White,
}

/// The fixed identity table: six explicit colours and one fallback.
pub open spec fn spec_color_for_id(id: u64) -> Color {
    if id == 0 {
        Color::Blue
    } else if id == 1 {
        Color::Red
    } else if id == 2 {
        Color::Green
    } else if id == 3 {
        Color::Yellow
    } else if id == 4 {
        Color::Cyan
    } else if id == 5 {
        Color::Magenta
    } else {
        Color::Black
    }
}

/// The colour that goes with a participant identity; every id of six or
/// more gets the fallback colour.
pub fn color_for_id(id: u64) -> (r: Color)
    ensures
        r == spec_color_for_id(id),
{
    match id {
        0 => Color::Blue,
        1 => Color::Red,
        2 => Color::Green,
        3 => Color::Yellow,
        4 => Color::Cyan,
        5 => Color::Magenta,
        _ => Color::Black,
    }
}

/// Every id of six or more is mapped to the fallback colour, and the six
/// explicit ids are mapped to six distinct colours other than it.
pub proof fn lemma_color_table_total(id: u64)
    ensures
        id >= 6 ==> spec_color_for_id(id) == Color::Black,
        id < 6 ==> spec_color_for_id(id) != Color::Black,
        forall|a: u64, b: u64|
            a < 6 && b < 6 && a != b ==> spec_color_for_id(a) != spec_color_for_id(b),
{
}

/// Wire code of a colour.
pub open spec fn spec_color_code(c: Color) -> u8 {
    match c {
        Color::Default => 0,
        Color::Black => 1,
        Color::Red => 2,
        Color::Green => 3,
        Color::Yellow => 4,
        Color::Blue => 5,
        Color::Magenta => 6,
        Color::Cyan => 7,
        Color::White => 8,
    }
}

/// The colour with a given wire code, if there is one.
pub open spec fn spec_color_of_code(b: u8) -> Option<Color> {
    if b == 0 {
        Some(Color::Default)
    } else if b == 1 {
        Some(Color::Black)
    } else if b == 2 {
        Some(Color::Red)
    } else if b == 3 {
        Some(Color::Green)
    } else if b == 4 {
        Some(Color::Yellow)
    } else if b == 5 {
        Some(Color::Blue)
    } else if b == 6 {
        Some(Color::Magenta)
    } else if b == 7 {
        Some(Color::Cyan)
    } else if b == 8 {
        Some(Color::White)
    } else {
        None
    }
}

/// The byte that stands for `c` on the wire.
pub fn color_code(c: Color) -> (r: u8)
    ensures
        r == spec_color_code(c),
        spec_color_of_code(r) == Some(c),
{
    match c {
        Color::Default => 0,
        Color::Black => 1,
        Color::Red => 2,
        Color::Green => 3,
        Color::Yellow => 4,
        Color::Blue => 5,
        Color::Magenta => 6,
        Color::Cyan => 7,
        Color::White => 8,
    }
}

/// The colour a wire byte stands for, if any.
pub fn color_of_code(b: u8) -> (r: Option<Color>)
    ensures
        r == spec_color_of_code(b),
{
    match b {
        0 => Some(Color::Default),
        1 => Some(Color::Black),
        2 => Some(Color::Red),
        3 => Some(Color::Green),
        4 => Some(Color::Yellow),
        5 => Some(Color::Blue),
        6 => Some(Color::Magenta),
        7 => Some(Color::Cyan),
        8 => Some(Color::White),
        _ => None,
    }
}

} // verus!
