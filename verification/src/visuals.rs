//! Colors and visual attributes: the single byte the hardware reads for
//! each cell's foreground, background and blink flag.

use vstd::prelude::*;

verus! {

/// One of the 16 colors the display hardware knows, each with a fixed
/// 4-bit code.
#[derive(Debug, Clone, Copy, PartialEq, Eq, Structural)]
pub enum Color {
    Black,
    Blue,
    Green,
    Cyan,
    Red,
    Magenta,
    Brown,
    LightGray,
    DarkGray,
    LightBlue,
    LightGreen,
    LightCyan,
    LightRed,
    Pink,
    Yellow,
    White,
}

/// The 4-bit code of a color.
pub open spec fn color_code(c: Color) -> u8 {
    match c {
        Color::Black => 0,
        Color::Blue => 1,
        Color::Green => 2,
        Color::Cyan => 3,
        Color::Red => 4,
        Color::Magenta => 5,
        Color::Brown => 6,
        Color::LightGray => 7,
        Color::DarkGray => 8,
        Color::LightBlue => 9,
        Color::LightGreen => 10,
        Color::LightCyan => 11,
        Color::LightRed => 12,
        Color::Pink => 13,
        Color::Yellow => 14,
        Color::White => 15,
    }
}

/// The color a 4-bit code names; codes above 15 fall back to white.
pub open spec fn color_of_code(n: u8) -> Color {
    if n == 0 {
        Color::Black
    } else if n == 1 {
        Color::Blue
    } else if n == 2 {
        Color::Green
    } else if n == 3 {
        Color::Cyan
    } else if n == 4 {
        Color::Red
    } else if n == 5 {
        Color::Magenta
    } else if n == 6 {
        Color::Brown
    } else if n == 7 {
        Color::LightGray
    } else if n == 8 {
        Color::DarkGray
    } else if n == 9 {
        Color::LightBlue
    } else if n == 10 {
        Color::LightGreen
    } else if n == 11 {
        Color::LightCyan
    } else if n == 12 {
        Color::LightRed
    } else if n == 13 {
        Color::Pink
    } else if n == 14 {
        Color::Yellow
    } else {
        Color::White
    }
}

/// Decoding the code of a color gives the color back, and every code is
/// 4 bits wide.
pub proof fn lemma_color_code_round_trip(c: Color)
    ensures
        color_of_code(color_code(c)) == c,
        color_code(c) < 16,
{
}

impl Color {
    /// The 4-bit code of this color.
    pub fn code(&self) -> (n: u8)
        ensures
            n == color_code(*self),
            n < 16,
    {
        match self {
            Color::Black => 0,
            Color::Blue => 1,
            Color::Green => 2,
            Color::Cyan => 3,
            Color::Red => 4,
            Color::Magenta => 5,
            Color::Brown => 6,
            Color::LightGray => 7,
            Color::DarkGray => 8,
            Color::LightBlue => 9,
            Color::LightGreen => 10,
            Color::LightCyan => 11,
            Color::LightRed => 12,
            Color::Pink => 13,
            Color::Yellow => 14,
            Color::White => 15,
        }
    }

    /// The color the code `n` names; codes above 15 give white.
    pub fn from_code(n: u8) -> (c: Color)
        ensures
            c == color_of_code(n),
    {
        if n == 0 {
            Color::Black
        } else if n == 1 {
            Color::Blue
        } else if n == 2 {
            Color::Green
        } else if n == 3 {
            Color::Cyan
        } else if n == 4 {
            Color::Red
        } else if n == 5 {
            Color::Magenta
        } else if n == 6 {
            Color::Brown
        } else if n == 7 {
            Color::LightGray
        } else if n == 8 {
            Color::DarkGray
        } else if n == 9 {
            Color::LightBlue
        } else if n == 10 {
            Color::LightGreen
        } else if n == 11 {
            Color::LightCyan
        } else if n == 12 {
            Color::LightRed
        } else if n == 13 {
            Color::Pink
        } else if n == 14 {
            Color::Yellow
        } else {
            Color::White
        }
    }
}

/// A cell's visual attribute: foreground and background color and
/// whether the glyph blinks.
#[derive(Debug, Clone, Copy, PartialEq, Eq, Structural)]
pub struct Visuals {
    pub foreground: Color,
    pub background: Color,
    pub blinking: bool,
}

/// The attribute byte a visual encodes to:
/// `(blink << 5) | (background << 4) | foreground`.
pub open spec fn visuals_code(v: Visuals) -> u8 {
    ((if v.blinking {
        1u8
    } else {
        0u8
    }) << 5) | (color_code(v.background) << 4) | color_code(v.foreground)
}

/// The visual an attribute byte decodes to: the low 4 bits name the
/// foreground, bit 5 carries the blink flag, and the rest of the high
/// nibble names the background. Bit 1 of the background shares bit 5
/// of the byte with the blink flag, so decoding reads it as 0.
pub open spec fn visuals_of_code(code: u8) -> Visuals {
    Visuals {
        foreground: color_of_code(code & 0x0f),
        background: color_of_code((code >> 4) & 0x0d),
        blinking: (code >> 5) & 1 == 1,
    }
}

/// The default attribute: white on black, no blinking.
pub open spec fn default_visuals() -> Visuals {
    Visuals { foreground: Color::White, background: Color::Black, blinking: false }
}

impl Visuals {
    /// A visual with the given foreground, background and blink flag.
    pub fn new(foreground: Color, background: Color, blinking: bool) -> (v: Visuals)
        ensures
            v == (Visuals { foreground, background, blinking }),
    {
        Visuals { foreground, background, blinking }
    }

    /// The default visual: white foreground on a black background, no
    /// blinking.
    pub fn default() -> (v: Visuals)
        ensures
            v == default_visuals(),
    {
        Visuals { foreground: Color::White, background: Color::Black, blinking: false }
    }

    /// A visual with the default white foreground and the given
    /// background and blink flag.
    pub fn default_with(background: Color, blinking: bool) -> (v: Visuals)
        ensures
            v == (Visuals { foreground: Color::White, background, blinking }),
    {
        Visuals { foreground: Color::White, background, blinking }
    }

    /// The attribute byte of this visual, laid out as the hardware
    /// expects it.
    pub fn get_color_code(&self) -> (n: u8)
        ensures
            n == visuals_code(*self),
    {
        let blink: u8 = if self.blinking {
            1
        } else {
            0
        };
        (blink << 5) | (self.background.code() << 4) | self.foreground.code()
    }

    /// The visual an attribute byte decodes to.
    pub fn from_code(code: u8) -> (v: Visuals)
        ensures
            v == visuals_of_code(code),
    {
        Visuals {
            foreground: Color::from_code(code & 0x0f),
            background: Color::from_code((code >> 4) & 0x0d),
            blinking: ((code >> 5) & 1) == 1,
        }
    }
}

/// Law: encoding a visual to its attribute byte and decoding that byte
/// recovers the visual, for every background whose code keeps bit 1
/// clear. For the other backgrounds the byte cannot hold both that bit
/// and the blink flag, and decoding reads the shared bit as blinking.
pub proof fn lemma_visuals_round_trip(v: Visuals)
    requires
        color_code(v.background) & 2 == 0,
    ensures
        visuals_of_code(visuals_code(v)) == v,
{
    let fg = color_code(v.foreground);
    let bg = color_code(v.background);
    let bl: u8 = if v.blinking {
        1
    } else {
        0
    };
    lemma_color_code_round_trip(v.foreground);
    lemma_color_code_round_trip(v.background);
    assert((((bl << 5) | (bg << 4) | fg) & 0x0f) == fg) by (bit_vector)
        requires
            fg < 16,
            bg < 16,
            bl <= 1,
    ;
    assert(((((bl << 5) | (bg << 4) | fg) >> 4) & 0x0d) == bg) by (bit_vector)
        requires
            fg < 16,
            bg < 16,
            bl <= 1,
            bg & 2 == 0,
    ;
    assert((((bl << 5) | (bg << 4) | fg) >> 5) & 1 == bl) by (bit_vector)
        requires
            fg < 16,
            bg < 16,
            bl <= 1,
            bg & 2 == 0,
    ;
}

} // verus!
