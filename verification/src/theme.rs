//! Theme selection: the light/dark mode switch and the parsing of hex
//! color values.
//!
//! Actual color registries and GUI color types live with the host; the
//! library owns the mode logic and turns hex color strings into their
//! channel bytes exactly.

use vstd::prelude::*;
use crate::text::str_chars;

verus! {

/// Theme variant: light or dark.
#[derive(Clone, Copy, Debug, PartialEq, Eq, Structural)]
pub enum ThemeMode {
    /// Light theme (the default).
    Light,
    /// Dark theme.
    Dark,
}

impl ThemeMode {
    /// The configuration name of the mode.
    pub fn as_str(&self) -> (r: &'static str)
        ensures
            self is Light ==> r@ == "light"@,
            self is Dark ==> r@ == "dark"@,
    {
        match self {
            ThemeMode::Light => "light",
            ThemeMode::Dark => "dark",
        }
    }

    /// The name of the syntax-highlighting theme used for code blocks
    /// in this mode.
    pub fn syntect_theme(self) -> (r: &'static str)
        ensures
            self is Light ==> r@ == "base16-ocean.light"@,
            self is Dark ==> r@ == "Solarized (dark)"@,
    {
        match self {
            ThemeMode::Light => "base16-ocean.light",
            ThemeMode::Dark => "Solarized (dark)",
        }
    }

    /// The opposite mode.
    pub fn toggle(self) -> (r: Self)
        ensures
            self is Light <==> r is Dark,
    {
        match self {
            ThemeMode::Light => ThemeMode::Dark,
            ThemeMode::Dark => ThemeMode::Light,
        }
    }
}

impl Default for ThemeMode {
    fn default() -> (r: Self)
        ensures
            r is Light,
    {
        ThemeMode::Light
    }
}

/// The numeric value of one hex digit, or 16 for anything else.
pub open spec fn hex_val(c: char) -> int {
    if '0' <= c && c <= '9' {
        c as int - '0' as int
    } else if 'a' <= c && c <= 'f' {
        c as int - 'a' as int + 10
    } else if 'A' <= c && c <= 'F' {
        c as int - 'A' as int + 10
    } else {
        16
    }
}

/// The byte two hex digits stand for, or zero when either is invalid —
/// a bad pair degrades to zero rather than failing.
pub open spec fn hex_pair(hi: char, lo: char) -> int {
    if hex_val(hi) < 16 && hex_val(lo) < 16 {
        hex_val(hi) * 16 + hex_val(lo)
    } else {
        0
    }
}

/// The channel bytes of a hex color string: `#RRGGBB` yields an opaque
/// color, `#RRGGBBAA` carries its alpha, anything else is opaque black.
/// The leading `#` is optional. Invalid alpha digits degrade to full
/// opacity; invalid color digits degrade to zero.
pub open spec fn rgba_of_hex(s: Seq<char>) -> (int, int, int, int) {
    let b = if s.len() > 0 && s[0] == '#' {
        s.drop_first()
    } else {
        s
    };
    if b.len() == 8 {
        (
            hex_pair(b[0], b[1]),
            hex_pair(b[2], b[3]),
            hex_pair(b[4], b[5]),
            if hex_val(b[6]) < 16 && hex_val(b[7]) < 16 {
                hex_val(b[6]) * 16 + hex_val(b[7])
            } else {
                255
            },
        )
    } else if b.len() == 6 {
        (hex_pair(b[0], b[1]), hex_pair(b[2], b[3]), hex_pair(b[4], b[5]), 255)
    } else {
        (0, 0, 0, 255)
    }
}

/// One hex digit's value, executably; 16 marks an invalid digit.
fn hex_val_exec(c: char) -> (r: u32)
    ensures
        r == hex_val(c),
{
    let u: u32 = c as u32;
    if 48 <= u && u <= 57 {
        u - 48
    } else if 97 <= u && u <= 102 {
        u - 97 + 10
    } else if 65 <= u && u <= 70 {
        u - 65 + 10
    } else {
        16
    }
}

/// Two hex digits as a byte, degraded to zero when invalid.
fn hex_pair_exec(hi: char, lo: char) -> (r: u8)
    ensures
        r == hex_pair(hi, lo),
{
    let h = hex_val_exec(hi);
    let l = hex_val_exec(lo);
    if h < 16 && l < 16 {
        (h * 16 + l) as u8
    } else {
        0
    }
}

/// Parse a hex color like `#RRGGBB` or `#RRGGBBAA` into its red,
/// green, blue and alpha bytes. Returns opaque black on anything else.
pub fn rgba_bytes_from_hex(s: &str) -> (r: (u8, u8, u8, u8))
    ensures
        (r.0 as int, r.1 as int, r.2 as int, r.3 as int) == rgba_of_hex(s@),
{
    let chars = str_chars(s);
    let b: Vec<char> = if chars.len() > 0 && chars[0] == '#' {
        crate::text::subrange_chars(chars.as_slice(), 1, chars.len())
    } else {
        chars
    };
    proof {
        if s@.len() > 0 && s@[0] == '#' {
            assert(b@ =~= s@.drop_first());
        }
    }
    if b.len() == 8 {
        let a_hi = hex_val_exec(b[6]);
        let a_lo = hex_val_exec(b[7]);
        let a: u8 = if a_hi < 16 && a_lo < 16 {
            (a_hi * 16 + a_lo) as u8
        } else {
            255
        };
        (
            hex_pair_exec(b[0], b[1]),
            hex_pair_exec(b[2], b[3]),
            hex_pair_exec(b[4], b[5]),
            a,
        )
    } else if b.len() == 6 {
        (hex_pair_exec(b[0], b[1]), hex_pair_exec(b[2], b[3]), hex_pair_exec(b[4], b[5]), 255)
    } else {
        (0, 0, 0, 255)
    }
}

} // verus!
