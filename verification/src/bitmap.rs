//! An 8x8 bitmap font for on-canvas labels: each character maps to 64 bits,
//! one per pixel, row by row from the top, most significant bit first.
use vstd::prelude::*;

verus! {

/// A character the bitmap font can draw.
#[derive(Debug, Clone, Copy, PartialEq, Eq, Structural)]
pub enum BitmapChar {
    Space,
    ExclamationMark,
    Unknown,
    Underscore,
    Colon,
    OpenParenthesis,
    CloseParenthesis,
    Point,
    Comma,
    Number0,
    Number1,
    Number2,
    Number3,
    Number4,
    Number5,
    Number6,
    Number7,
    Number8,
    Number9,
    UpperA,
    UpperB,
    UpperC,
    UpperD,
    UpperE,
    UpperF,
    UpperG,
    UpperH,
    UpperI,
    UpperJ,
    UpperK,
    UpperL,
    UpperM,
    UpperN,
    UpperO,
    UpperP,
    UpperQ,
    UpperR,
    UpperS,
    UpperT,
    UpperU,
    UpperV,
    UpperW,
    UpperX,
    UpperY,
    UpperZ,
    LowerA,
    LowerB,
    LowerC,
    LowerD,
    LowerE,
    LowerF,
    LowerG,
    LowerH,
    LowerI,
    LowerJ,
    LowerK,
    LowerL,
    LowerM,
    LowerN,
    LowerO,
    LowerP,
    LowerQ,
    LowerR,
    LowerS,
    LowerT,
    LowerU,
    LowerV,
    LowerW,
    LowerX,
    LowerY,
    LowerZ,
}

/// The font table: the 64 pixel bits of each character.
pub open spec fn spec_char_bits(c: BitmapChar) -> u64 {
    match c {
        BitmapChar::Space => 0x0,
        BitmapChar::ExclamationMark => 0x808080800080000,
        BitmapChar::Unknown => 0x0000542a542a542a,
        BitmapChar::Underscore => 0x7E0000,
        BitmapChar::Colon => 0x80000080000,
        BitmapChar::OpenParenthesis => 0x810202010080000,
        BitmapChar::CloseParenthesis => 0x1008040408100000,
        BitmapChar::Point => 0x80000,
        BitmapChar::Comma => 0x81000,
        BitmapChar::Number0 => 0x1824424224180000,
        BitmapChar::Number1 => 0x8180808081C0000,
        BitmapChar::Number2 => 0x3C420418207E0000,
        BitmapChar::Number3 => 0x3C420418423C0000,
        BitmapChar::Number4 => 0x81828487C080000,
        BitmapChar::Number5 => 0x7E407C02423C0000,
        BitmapChar::Number6 => 0x3C407C42423C0000,
        BitmapChar::Number7 => 0x7E04081020400000,
        BitmapChar::Number8 => 0x3C423C42423C0000,
        BitmapChar::Number9 => 0x3C42423E023C0000,
        BitmapChar::UpperA => 0x1818243C42420000,
        BitmapChar::UpperB => 0x7844784444780000,
        BitmapChar::UpperC => 0x3844808044380000,
        BitmapChar::UpperD => 0x7844444444780000,
        BitmapChar::UpperE => 0x7C407840407C0000,
        BitmapChar::UpperF => 0x7C40784040400000,
        BitmapChar::UpperG => 0x3844809C44380000,
        BitmapChar::UpperH => 0x42427E4242420000,
        BitmapChar::UpperI => 0x3E080808083E0000,
        BitmapChar::UpperJ => 0x1C04040444380000,
        BitmapChar::UpperK => 0x4448507048440000,
        BitmapChar::UpperL => 0x40404040407E0000,
        BitmapChar::UpperM => 0x4163554941410000,
        BitmapChar::UpperN => 0x4262524A46420000,
        BitmapChar::UpperO => 0x1C222222221C0000,
        BitmapChar::UpperP => 0x7844784040400000,
        BitmapChar::UpperQ => 0x1C222222221C0200,
        BitmapChar::UpperR => 0x7844785048440000,
        BitmapChar::UpperS => 0x1C22100C221C0000,
        BitmapChar::UpperT => 0x7F08080808080000,
        BitmapChar::UpperU => 0x42424242423C0000,
        BitmapChar::UpperV => 0x8142422424180000,
        BitmapChar::UpperW => 0x4141495563410000,
        BitmapChar::UpperX => 0x4224181824420000,
        BitmapChar::UpperY => 0x4122140808080000,
        BitmapChar::UpperZ => 0x7E040810207E0000,
        BitmapChar::LowerA => 0x3C023E463A0000,
        BitmapChar::LowerB => 0x40407C42625C0000,
        BitmapChar::LowerC => 0x1C20201C0000,
        BitmapChar::LowerD => 0x2023E42463A0000,
        BitmapChar::LowerE => 0x3C427E403C0000,
        BitmapChar::LowerF => 0x18103810100000,
        BitmapChar::LowerG => 0x344C44340438,
        BitmapChar::LowerH => 0x2020382424240000,
        BitmapChar::LowerI => 0x800080808080000,
        BitmapChar::LowerJ => 0x800180808080870,
        BitmapChar::LowerK => 0x20202428302C0000,
        BitmapChar::LowerL => 0x1010101010180000,
        BitmapChar::LowerM => 0x665A42420000,
        BitmapChar::LowerN => 0x2E3222220000,
        BitmapChar::LowerO => 0x3C42423C0000,
        BitmapChar::LowerP => 0x5C62427C4040,
        BitmapChar::LowerQ => 0x3A46423E0202,
        BitmapChar::LowerR => 0x2C3220200000,
        BitmapChar::LowerS => 0x1C201804380000,
        BitmapChar::LowerT => 0x103C1010180000,
        BitmapChar::LowerU => 0x2222261A0000,
        BitmapChar::LowerV => 0x424224180000,
        BitmapChar::LowerW => 0x81815A660000,
        BitmapChar::LowerX => 0x422418660000,
        BitmapChar::LowerY => 0x422214081060,
        BitmapChar::LowerZ => 0x3C08103C0000,
    }
}

/// The character a text character maps to; anything outside the font maps
/// to the marker glyph.
pub open spec fn spec_from_char(input: char) -> BitmapChar {
    match input {
        ' ' => BitmapChar::Space,
        '!' => BitmapChar::ExclamationMark,
        '_' => BitmapChar::Underscore,
        ':' => BitmapChar::Colon,
        '(' => BitmapChar::OpenParenthesis,
        ')' => BitmapChar::CloseParenthesis,
        '.' => BitmapChar::Point,
        ',' => BitmapChar::Comma,
        '0' => BitmapChar::Number0,
        '1' => BitmapChar::Number1,
        '2' => BitmapChar::Number2,
        '3' => BitmapChar::Number3,
        '4' => BitmapChar::Number4,
        '5' => BitmapChar::Number5,
        '6' => BitmapChar::Number6,
        '7' => BitmapChar::Number7,
        '8' => BitmapChar::Number8,
        '9' => BitmapChar::Number9,
        'A' => BitmapChar::UpperA,
        'B' => BitmapChar::UpperB,
        'C' => BitmapChar::UpperC,
        'D' => BitmapChar::UpperD,
        'E' => BitmapChar::UpperE,
        'F' => BitmapChar::UpperF,
        'G' => BitmapChar::UpperG,
        'H' => BitmapChar::UpperH,
        'I' => BitmapChar::UpperI,
        'J' => BitmapChar::UpperJ,
        'K' => BitmapChar::UpperK,
        'L' => BitmapChar::UpperL,
        'M' => BitmapChar::UpperM,
        'N' => BitmapChar::UpperN,
        'O' => BitmapChar::UpperO,
        'P' => BitmapChar::UpperP,
        'Q' => BitmapChar::UpperQ,
        'R' => BitmapChar::UpperR,
        'S' => BitmapChar::UpperS,
        'T' => BitmapChar::UpperT,
        'U' => BitmapChar::UpperU,
        'V' => BitmapChar::UpperV,
        'W' => BitmapChar::UpperW,
        'X' => BitmapChar::UpperX,
        'Y' => BitmapChar::UpperY,
        'Z' => BitmapChar::UpperZ,
        'a' => BitmapChar::LowerA,
        'b' => BitmapChar::LowerB,
        'c' => BitmapChar::LowerC,
        'd' => BitmapChar::LowerD,
        'e' => BitmapChar::LowerE,
        'f' => BitmapChar::LowerF,
        'g' => BitmapChar::LowerG,
        'h' => BitmapChar::LowerH,
        'i' => BitmapChar::LowerI,
        'j' => BitmapChar::LowerJ,
        'k' => BitmapChar::LowerK,
        'l' => BitmapChar::LowerL,
        'm' => BitmapChar::LowerM,
        'n' => BitmapChar::LowerN,
        'o' => BitmapChar::LowerO,
        'p' => BitmapChar::LowerP,
        'q' => BitmapChar::LowerQ,
        'r' => BitmapChar::LowerR,
        's' => BitmapChar::LowerS,
        't' => BitmapChar::LowerT,
        'u' => BitmapChar::LowerU,
        'v' => BitmapChar::LowerV,
        'w' => BitmapChar::LowerW,
        'x' => BitmapChar::LowerX,
        'y' => BitmapChar::LowerY,
        'z' => BitmapChar::LowerZ,
        _ => BitmapChar::Unknown,
    }
}

impl BitmapChar {
    /// The character's 64 pixel bits.
    pub fn as_u64(&self) -> (r: u64)
        ensures
            r == spec_char_bits(*self),
    {
        match self {
            BitmapChar::Space => 0x0,
            BitmapChar::ExclamationMark => 0x808080800080000,
            BitmapChar::Unknown => 0x0000542a542a542a,
            BitmapChar::Underscore => 0x7E0000,
            BitmapChar::Colon => 0x80000080000,
            BitmapChar::OpenParenthesis => 0x810202010080000,
            BitmapChar::CloseParenthesis => 0x1008040408100000,
            BitmapChar::Point => 0x80000,
            BitmapChar::Comma => 0x81000,
            BitmapChar::Number0 => 0x1824424224180000,
            BitmapChar::Number1 => 0x8180808081C0000,
            BitmapChar::Number2 => 0x3C420418207E0000,
            BitmapChar::Number3 => 0x3C420418423C0000,
            BitmapChar::Number4 => 0x81828487C080000,
            BitmapChar::Number5 => 0x7E407C02423C0000,
            BitmapChar::Number6 => 0x3C407C42423C0000,
            BitmapChar::Number7 => 0x7E04081020400000,
            BitmapChar::Number8 => 0x3C423C42423C0000,
            BitmapChar::Number9 => 0x3C42423E023C0000,
            BitmapChar::UpperA => 0x1818243C42420000,
            BitmapChar::UpperB => 0x7844784444780000,
            BitmapChar::UpperC => 0x3844808044380000,
            BitmapChar::UpperD => 0x7844444444780000,
            BitmapChar::UpperE => 0x7C407840407C0000,
            BitmapChar::UpperF => 0x7C40784040400000,
            BitmapChar::UpperG => 0x3844809C44380000,
            BitmapChar::UpperH => 0x42427E4242420000,
            BitmapChar::UpperI => 0x3E080808083E0000,
            BitmapChar::UpperJ => 0x1C04040444380000,
            BitmapChar::UpperK => 0x4448507048440000,
            BitmapChar::UpperL => 0x40404040407E0000,
            BitmapChar::UpperM => 0x4163554941410000,
            BitmapChar::UpperN => 0x4262524A46420000,
            BitmapChar::UpperO => 0x1C222222221C0000,
            BitmapChar::UpperP => 0x7844784040400000,
            BitmapChar::UpperQ => 0x1C222222221C0200,
            BitmapChar::UpperR => 0x7844785048440000,
            BitmapChar::UpperS => 0x1C22100C221C0000,
            BitmapChar::UpperT => 0x7F08080808080000,
            BitmapChar::UpperU => 0x42424242423C0000,
            BitmapChar::UpperV => 0x8142422424180000,
            BitmapChar::UpperW => 0x4141495563410000,
            BitmapChar::UpperX => 0x4224181824420000,
            BitmapChar::UpperY => 0x4122140808080000,
            BitmapChar::UpperZ => 0x7E040810207E0000,
            BitmapChar::LowerA => 0x3C023E463A0000,
            BitmapChar::LowerB => 0x40407C42625C0000,
            BitmapChar::LowerC => 0x1C20201C0000,
            BitmapChar::LowerD => 0x2023E42463A0000,
            BitmapChar::LowerE => 0x3C427E403C0000,
            BitmapChar::LowerF => 0x18103810100000,
            BitmapChar::LowerG => 0x344C44340438,
            BitmapChar::LowerH => 0x2020382424240000,
            BitmapChar::LowerI => 0x800080808080000,
            BitmapChar::LowerJ => 0x800180808080870,
            BitmapChar::LowerK => 0x20202428302C0000,
            BitmapChar::LowerL => 0x1010101010180000,
            BitmapChar::LowerM => 0x665A42420000,
            BitmapChar::LowerN => 0x2E3222220000,
            BitmapChar::LowerO => 0x3C42423C0000,
            BitmapChar::LowerP => 0x5C62427C4040,
            BitmapChar::LowerQ => 0x3A46423E0202,
            BitmapChar::LowerR => 0x2C3220200000,
            BitmapChar::LowerS => 0x1C201804380000,
            BitmapChar::LowerT => 0x103C1010180000,
            BitmapChar::LowerU => 0x2222261A0000,
            BitmapChar::LowerV => 0x424224180000,
            BitmapChar::LowerW => 0x81815A660000,
            BitmapChar::LowerX => 0x422418660000,
            BitmapChar::LowerY => 0x422214081060,
            BitmapChar::LowerZ => 0x3C08103C0000,
        }
    }

    /// The glyph for a text character; anything outside the font draws the
    /// marker glyph.
    pub fn from_char(input: char) -> (r: BitmapChar)
        ensures
            r == spec_from_char(input),
    {
        match input {
            ' ' => BitmapChar::Space,
            '!' => BitmapChar::ExclamationMark,
            '_' => BitmapChar::Underscore,
            ':' => BitmapChar::Colon,
            '(' => BitmapChar::OpenParenthesis,
            ')' => BitmapChar::CloseParenthesis,
            '.' => BitmapChar::Point,
            ',' => BitmapChar::Comma,
            '0' => BitmapChar::Number0,
            '1' => BitmapChar::Number1,
            '2' => BitmapChar::Number2,
            '3' => BitmapChar::Number3,
            '4' => BitmapChar::Number4,
            '5' => BitmapChar::Number5,
            '6' => BitmapChar::Number6,
            '7' => BitmapChar::Number7,
            '8' => BitmapChar::Number8,
            '9' => BitmapChar::Number9,
            'A' => BitmapChar::UpperA,
            'B' => BitmapChar::UpperB,
            'C' => BitmapChar::UpperC,
            'D' => BitmapChar::UpperD,
            'E' => BitmapChar::UpperE,
            'F' => BitmapChar::UpperF,
            'G' => BitmapChar::UpperG,
            'H' => BitmapChar::UpperH,
            'I' => BitmapChar::UpperI,
            'J' => BitmapChar::UpperJ,
            'K' => BitmapChar::UpperK,
            'L' => BitmapChar::UpperL,
            'M' => BitmapChar::UpperM,
            'N' => BitmapChar::UpperN,
            'O' => BitmapChar::UpperO,
            'P' => BitmapChar::UpperP,
            'Q' => BitmapChar::UpperQ,
            'R' => BitmapChar::UpperR,
            'S' => BitmapChar::UpperS,
            'T' => BitmapChar::UpperT,
            'U' => BitmapChar::UpperU,
            'V' => BitmapChar::UpperV,
            'W' => BitmapChar::UpperW,
            'X' => BitmapChar::UpperX,
            'Y' => BitmapChar::UpperY,
            'Z' => BitmapChar::UpperZ,
            'a' => BitmapChar::LowerA,
            'b' => BitmapChar::LowerB,
            'c' => BitmapChar::LowerC,
            'd' => BitmapChar::LowerD,
            'e' => BitmapChar::LowerE,
            'f' => BitmapChar::LowerF,
            'g' => BitmapChar::LowerG,
            'h' => BitmapChar::LowerH,
            'i' => BitmapChar::LowerI,
            'j' => BitmapChar::LowerJ,
            'k' => BitmapChar::LowerK,
            'l' => BitmapChar::LowerL,
            'm' => BitmapChar::LowerM,
            'n' => BitmapChar::LowerN,
            'o' => BitmapChar::LowerO,
            'p' => BitmapChar::LowerP,
            'q' => BitmapChar::LowerQ,
            'r' => BitmapChar::LowerR,
            's' => BitmapChar::LowerS,
            't' => BitmapChar::LowerT,
            'u' => BitmapChar::LowerU,
            'v' => BitmapChar::LowerV,
            'w' => BitmapChar::LowerW,
            'x' => BitmapChar::LowerX,
            'y' => BitmapChar::LowerY,
            'z' => BitmapChar::LowerZ,
            _ => BitmapChar::Unknown,
        }
    }

    /// The pixel rectangle a text occupies at a scale: 8 scaled columns per
    /// character and 8 scaled rows.
    pub fn calculate_rect(input: &str, scale: u32) -> (r: (u32, u32))
        requires
            8 * (scale as int) * input@.len() <= u32::MAX,
            8 * (scale as int) <= u32::MAX,
            input@.len() <= u32::MAX,
        ensures
            r.0 == 8 * scale * input@.len(),
            r.1 == 8 * scale,
    {
        let len: usize = input.unicode_len();
        let w: u32 = 8 * scale;
        proof {
            assert((8 * (scale as int)) * (len as int) == 8 * (scale as int) * (len as int)
                && (len as int) * (8 * (scale as int)) == 8 * (scale as int) * (len as int))
                by (nonlinear_arith);
        }
        (w * (len as u32), w)
    }

    /// Whether the font draws the pixel at `(dx, dy)` of a character's
    /// scaled 8-by-8 cell.
    pub fn pixel_on(&self, dx: u32, dy: u32, scale: u32) -> (r: bool)
        requires
            scale >= 1,
            dx < 8 * scale,
            dy < 8 * scale,
        ensures
            r == (spec_char_bits(*self) >> (63 - ((dy / scale) * 8 + dx / scale)) as u64 & 1u64
                == 1u64),
    {
        let bits = self.as_u64();
        let cx = dx / scale;
        let cy = dy / scale;
        proof {
            assert((dx as int) / (scale as int) < 8 && (dy as int) / (scale as int) < 8)
                by (nonlinear_arith)
                requires
                    scale >= 1,
                    0 <= dx < 8 * scale,
                    0 <= dy < 8 * scale,
            ;
        }
        let bit_index: u64 = 63 - ((cy as u64) * 8 + (cx as u64));
        (bits >> bit_index) & 1u64 == 1u64
    }
}

} // verus!
