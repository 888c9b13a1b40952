//! Colours and the Select Graphic Rendition parameters.
use vstd::prelude::*;
use crate::cell::{default_properties, CellProperties, Color};

verus! {

/// The sixteen ANSI colours, as xterm defines them.
#[derive(Copy, Clone, Debug, PartialEq, Eq, Structural)]
pub enum SimpleColor {
    Black,
    Red,
    Green,
    Yellow,
    Blue,
    Magenta,
    Cyan,
    White,
    BrightBlack,
    BrightRed,
    BrightGreen,
    BrightYellow,
    BrightBlue,
    BrightMagenta,
    BrightCyan,
    BrightWhite,
}

/// Colour of ANSI index `n` (0 to 15).
pub open spec fn ansi_color(n: u8) -> Color {
    if n == 0 {
        Color(0, 0, 0, 255)
    } else if n == 1 {
        Color(205, 0, 0, 255)
    } else if n == 2 {
        Color(0, 205, 0, 255)
    } else if n == 3 {
        Color(205, 205, 0, 255)
    } else if n == 4 {
        Color(0, 0, 238, 255)
    } else if n == 5 {
        Color(205, 0, 205, 255)
    } else if n == 6 {
        Color(0, 205, 205, 255)
    } else if n == 7 {
        Color(229, 229, 229, 255)
    } else if n == 8 {
        Color(127, 127, 127, 255)
    } else if n == 9 {
        Color(255, 0, 0, 255)
    } else if n == 10 {
        Color(0, 255, 0, 255)
    } else if n == 11 {
        Color(255, 255, 0, 255)
    } else if n == 12 {
        Color(0, 0, 252, 255)
    } else if n == 13 {
        Color(255, 0, 255, 255)
    } else if n == 14 {
        Color(0, 255, 255, 255)
    } else {
        Color(255, 255, 255, 255)
    }
}

/// Index of an ANSI colour.
pub open spec fn simple_index(c: SimpleColor) -> u8 {
    match c {
        SimpleColor::Black => 0,
        SimpleColor::Red => 1,
        SimpleColor::Green => 2,
        SimpleColor::Yellow => 3,
        SimpleColor::Blue => 4,
        SimpleColor::Magenta => 5,
        SimpleColor::Cyan => 6,
        SimpleColor::White => 7,
        SimpleColor::BrightBlack => 8,
        SimpleColor::BrightRed => 9,
        SimpleColor::BrightGreen => 10,
        SimpleColor::BrightYellow => 11,
        SimpleColor::BrightBlue => 12,
        SimpleColor::BrightMagenta => 13,
        SimpleColor::BrightCyan => 14,
        SimpleColor::BrightWhite => 15,
    }
}

impl SimpleColor {
    pub fn from_u8(byte: u8) -> (r: Self)
        requires
            byte < 16,
        ensures
            simple_index(r) == byte,
    {
        match byte {
            0 => SimpleColor::Black,
            1 => SimpleColor::Red,
            2 => SimpleColor::Green,
            3 => SimpleColor::Yellow,
            4 => SimpleColor::Blue,
            5 => SimpleColor::Magenta,
            6 => SimpleColor::Cyan,
            7 => SimpleColor::White,
            8 => SimpleColor::BrightBlack,
            9 => SimpleColor::BrightRed,
            10 => SimpleColor::BrightGreen,
            11 => SimpleColor::BrightYellow,
            12 => SimpleColor::BrightBlue,
            13 => SimpleColor::BrightMagenta,
            14 => SimpleColor::BrightCyan,
            _ => SimpleColor::BrightWhite,
        }
    }

    pub fn to_color(&self) -> (r: Color)
        ensures
            r == ansi_color(simple_index(*self)),
    {
        match self {
            SimpleColor::Black => Color(0, 0, 0, 255),
            SimpleColor::Red => Color(205, 0, 0, 255),
            SimpleColor::Green => Color(0, 205, 0, 255),
            SimpleColor::Yellow => Color(205, 205, 0, 255),
            SimpleColor::Blue => Color(0, 0, 238, 255),
            SimpleColor::Magenta => Color(205, 0, 205, 255),
            SimpleColor::Cyan => Color(0, 205, 205, 255),
            SimpleColor::White => Color(229, 229, 229, 255),
            SimpleColor::BrightBlack => Color(127, 127, 127, 255),
            SimpleColor::BrightRed => Color(255, 0, 0, 255),
            SimpleColor::BrightGreen => Color(0, 255, 0, 255),
            SimpleColor::BrightYellow => Color(255, 255, 0, 255),
            SimpleColor::BrightBlue => Color(0, 0, 252, 255),
            SimpleColor::BrightMagenta => Color(255, 0, 255, 255),
            SimpleColor::BrightCyan => Color(0, 255, 255, 255),
            SimpleColor::BrightWhite => Color(255, 255, 255, 255),
        }
    }
}

/// Intensity of level `d` (0 to 5) of the colour cube.
pub open spec fn cube_level(d: u8) -> u8 {
    if d == 0 {
        0
    } else if d == 1 {
        95
    } else if d == 2 {
        135
    } else if d == 3 {
        175
    } else if d == 4 {
        215
    } else {
        255
    }
}

/// Colour `n` (0 to 215) of the 6x6x6 cube, encoded as r * 36 + g * 6 + b.
pub open spec fn cube_color(n: u8) -> Color {
    Color(cube_level(n / 36), cube_level((n / 6) % 6), cube_level(n % 6), 255)
}

/// Step `n` (0 to 23) of the grayscale ramp.
pub open spec fn grayscale_color(n: u8) -> Color {
    Color((8 + n * 10) as u8, (8 + n * 10) as u8, (8 + n * 10) as u8, 255)
}

/// Colour `n` of the 256-colour palette.
pub open spec fn palette_color(n: u16) -> Option<Color> {
    if n < 16 {
        Some(ansi_color(n as u8))
    } else if n < 232 {
        Some(cube_color((n - 16) as u8))
    } else if n < 256 {
        Some(grayscale_color((n - 232) as u8))
    } else {
        None
    }
}

/// Sets the foreground (`fg`) or the background to `c`.
pub open spec fn with_color(p: CellProperties, fg: bool, c: Color) -> CellProperties {
    if fg {
        CellProperties { fg: c, ..p }
    } else {
        CellProperties { bg: Some(c), ..p }
    }
}

/// The extended colour forms 38;5;n, 38;2;r;g;b and their background twins, starting
/// at `i`: the new properties and the index of their last parameter.
pub open spec fn extended_color(p: CellProperties, params: Seq<u16>, i: int, fg: bool) -> (CellProperties, int) {
    if params.len() >= i + 3 {
        if params[i + 1] == 5 {
            match palette_color(params[i + 2]) {
                Some(c) => (with_color(p, fg, c), i + 2),
                None => (p, i + 2),
            }
        } else if params[i + 1] == 2 && params.len() >= i + 5 {
            (
                with_color(
                    p,
                    fg,
                    Color(
                        (params[i + 2] % 256) as u8,
                        (params[i + 3] % 256) as u8,
                        (params[i + 4] % 256) as u8,
                        255,
                    ),
                ),
                i + 4,
            )
        } else {
            (p, i)
        }
    } else {
        (p, i)
    }
}

/// Applies the SGR parameter at `i`: the new properties and the index of the next
/// parameter to read. Unknown parameters and truncated forms change nothing.
pub open spec fn sgr_step(p: CellProperties, params: Seq<u16>, i: int) -> (CellProperties, int) {
    let v = params[i];
    let (q, last) = if v == 0 {
        (default_properties(), i)
    } else if 30 <= v <= 37 {
        (CellProperties { fg: ansi_color((v - 30) as u8), ..p }, i)
    } else if v == 38 {
        extended_color(p, params, i, true)
    } else if v == 39 {
        (CellProperties { fg: default_properties().fg, ..p }, i)
    } else if 40 <= v <= 47 {
        (CellProperties { bg: Some(ansi_color((v - 40) as u8)), ..p }, i)
    } else if v == 48 {
        extended_color(p, params, i, false)
    } else if v == 49 {
        (CellProperties { bg: None, ..p }, i)
    } else if 90 <= v <= 97 {
        (CellProperties { fg: ansi_color((v - 90 + 8) as u8), ..p }, i)
    } else if 100 <= v <= 107 {
        (CellProperties { bg: Some(ansi_color((v - 100 + 8) as u8)), ..p }, i)
    } else {
        (p, i)
    };
    (q, last + 1)
}

/// Applies the SGR parameters from `i` on, left to right.
pub open spec fn sgr_apply(p: CellProperties, params: Seq<u16>, i: int) -> CellProperties
    decreases params.len() - i,
{
    if i < 0 || i >= params.len() {
        p
    } else {
        let (q, j) = sgr_step(p, params, i);
        if j <= i {
            q
        } else {
            sgr_apply(q, params, j)
        }
    }
}

/// The properties after a whole SGR control function; no parameters reset them.
pub open spec fn select_graphic_rendition(p: CellProperties, params: Seq<u16>) -> CellProperties {
    if params.len() == 0 {
        default_properties()
    } else {
        sgr_apply(p, params, 0)
    }
}

/// Colour of ANSI index `color`.
pub fn get_simple_color(color: u8) -> (r: Color)
    requires
        color < 16,
    ensures
        r == ansi_color(color),
{
    SimpleColor::from_u8(color).to_color()
}

/// Intensity of a level of the colour cube.
pub fn get_hex_color_from_cube_encoding(data: u8) -> (r: u8)
    requires
        data < 6,
    ensures
        r == cube_level(data),
{
    match data {
        0 => 0,
        1 => 95,
        2 => 135,
        3 => 175,
        4 => 215,
        _ => 255,
    }
}

/// Colour of the cube encoded as r * 36 + g * 6 + b.
pub fn get_color_cube(color: u8) -> (r: Color)
    requires
        color < 216,
    ensures
        r == cube_color(color),
{
    let blue = get_hex_color_from_cube_encoding(color % 6);
    let green = get_hex_color_from_cube_encoding((color / 6) % 6);
    let red = get_hex_color_from_cube_encoding(color / 36);
    Color(red, green, blue, 255)
}

/// Step of the grayscale ramp.
pub fn get_grayscale_color(color: u8) -> (r: Color)
    requires
        color < 24,
    ensures
        r == grayscale_color(color),
{
    let color = 8 + color * 10;
    Color(color, color, color, 255)
}

/// Colour of the 256-colour palette.
pub fn get_palette_color(n: u16) -> (r: Option<Color>)
    ensures
        r == palette_color(n),
{
    if n < 16 {
        Some(get_simple_color(n as u8))
    } else if n < 232 {
        Some(get_color_cube((n - 16) as u8))
    } else if n < 256 {
        Some(get_grayscale_color((n - 232) as u8))
    } else {
        None
    }
}

fn set_color(properties: &mut CellProperties, fg: bool, c: Color)
    ensures
        *final(properties) == with_color(*old(properties), fg, c),
{
    if fg {
        properties.fg = c;
    } else {
        properties.bg = Some(c);
    }
}

fn exec_extended_color(properties: &mut CellProperties, parameters: &[u16], index: usize, fg: bool) -> (r: usize)
    requires
        index < parameters@.len(),
    ensures
        (*final(properties), r as int) == extended_color(*old(properties), parameters@, index as int, fg),
{
    if parameters.len() - index >= 3 {
        if parameters[index + 1] == 5 {
            match get_palette_color(parameters[index + 2]) {
                Some(c) => set_color(properties, fg, c),
                None => {},
            }
            index + 2
        } else if parameters[index + 1] == 2 && parameters.len() - index >= 5 {
            let r = (parameters[index + 2] % 256) as u8;
            let g = (parameters[index + 3] % 256) as u8;
            let b = (parameters[index + 4] % 256) as u8;
            set_color(properties, fg, Color::from_rgb(r, g, b));
            index + 4
        } else {
            index
        }
    } else {
        index
    }
}

/// Applies the SGR parameter at `index`; returns the index of the next one.
pub fn exec_sgr_property(properties: &mut CellProperties, parameters: &[u16], index: usize) -> (r: usize)
    requires
        index < parameters@.len(),
    ensures
        (*final(properties), r as int) == sgr_step(*old(properties), parameters@, index as int),
        index < r <= parameters@.len(),
{
    let property = parameters[index];
    let last = if property == 0 {
        *properties = CellProperties::new();
        index
    } else if 30 <= property && property <= 37 {
        properties.fg = get_simple_color((property - 30) as u8);
        index
    } else if property == 38 {
        exec_extended_color(properties, parameters, index, true)
    } else if property == 39 {
        properties.fg = CellProperties::new().fg;
        index
    } else if 40 <= property && property <= 47 {
        properties.bg = Some(get_simple_color((property - 40) as u8));
        index
    } else if property == 48 {
        exec_extended_color(properties, parameters, index, false)
    } else if property == 49 {
        properties.bg = None;
        index
    } else if 90 <= property && property <= 97 {
        properties.fg = get_simple_color((property - 90 + 8) as u8);
        index
    } else if 100 <= property && property <= 107 {
        properties.bg = Some(get_simple_color((property - 100 + 8) as u8));
        index
    } else {
        index
    };
    last + 1
}

/// Applies a whole SGR control function.
pub fn apply_sgr(properties: &mut CellProperties, parameters: &[u16])
    ensures
        *final(properties) == select_graphic_rendition(*old(properties), parameters@),
{
    if parameters.len() == 0 {
        *properties = CellProperties::new();
        return;
    }
    let mut index: usize = 0;
    while index < parameters.len()
        invariant
            0 < parameters@.len(),
            index <= parameters@.len(),
            sgr_apply(*properties, parameters@, index as int) == select_graphic_rendition(
                *old(properties),
                parameters@,
            ),
        decreases parameters@.len() - index,
    {
        index = exec_sgr_property(properties, parameters, index);
    }
}

} // verus!
