//! What the library learns of the terminal it runs in: its colors, whether it is dark or
//! light, and the pixel size of a cell, read from the terminal's answers to escape queries.
use vstd::prelude::*;

use crate::ansi::{all_digits, digit_value, digits_value, is_digit, lemma_digits_value_nonneg};
use crate::text::{chars_of, find_from, first_index, split_on, split_spans};

verus! {

/// A color as the terminal reports it, one byte per channel.
#[derive(Debug, Clone, Copy, PartialEq, Eq, Structural)]
pub struct TerminalColor {
    pub r: u8,
    pub g: u8,
    pub b: u8,
}

/// Whether the terminal shows dark or light colors.
#[derive(Debug, Clone, Copy, PartialEq, Eq, Structural)]
pub enum TerminalTheme {
    Dark,
    Light,
}

/// The foreground and background colors of the terminal.
#[derive(Debug, Clone, Copy, PartialEq, Eq, Structural)]
pub struct TerminalPalette {
    pub foreground: TerminalColor,
    pub background: TerminalColor,
}

/// The pixel dimensions of a single cell in the terminal.
#[derive(Debug, Clone, Copy, PartialEq, Eq, Structural)]
pub struct TerminalCellSize {
    pub width: u32,
    pub height: u32,
}

/// Everything the library asks of the terminal.
#[derive(Debug, Clone)]
pub struct TerminalInfo {
    pub theme: TerminalTheme,
    pub palette: TerminalPalette,
    pub cell_size: TerminalCellSize,
}

#[verifier::external_type_specification]
#[verifier::external_body]
pub struct ExIoError(std::io::Error);

/// Why a query of the terminal gave no answer.
#[derive(Debug)]
pub enum TerminalQueryError {
    Io(std::io::Error),
    Unsupported(&'static str),
}

/// The perceived brightness of a color, in thousandths: 0.299 red, 0.587 green and 0.114 blue.
pub open spec fn brightness_milli(c: TerminalColor) -> int {
    299 * c.r + 587 * c.g + 114 * c.b
}

/// A color is dark when its perceived brightness is below 128 (of 255).
pub open spec fn spec_is_dark(c: TerminalColor) -> bool {
    brightness_milli(c) < 128000
}

/// The theme that goes with a background color.
pub open spec fn theme_of(c: TerminalColor) -> TerminalTheme {
    if spec_is_dark(c) {
        TerminalTheme::Dark
    } else {
        TerminalTheme::Light
    }
}

/// The value of a hexadecimal digit, in either case.
pub open spec fn hex_digit_value(c: char) -> Option<int> {
    if '0' <= c <= '9' {
        Some(c as int - '0' as int)
    } else if 'a' <= c <= 'f' {
        Some(c as int - 'a' as int + 10)
    } else if 'A' <= c <= 'F' {
        Some(c as int - 'A' as int + 10)
    } else {
        None
    }
}

/// True when every character of `s` is a hexadecimal digit.
pub open spec fn all_hex(s: Seq<char>) -> bool {
    forall|i: int| 0 <= i < s.len() ==> (#[trigger] hex_digit_value(s[i])) is Some
}

/// The number that the hexadecimal digits `s` denote.
pub open spec fn hex_value(s: Seq<char>) -> int
    decreases s.len(),
{
    if s.len() == 0 {
        0
    } else {
        16 * hex_value(s.drop_last()) + hex_digit_value(s.last()).unwrap_or(0)
    }
}

/// How the standard library reads a hexadecimal number from text: an optional `+`, then at
/// least one hexadecimal digit.
pub open spec fn parse_hex(s: Seq<char>) -> Option<int> {
    let d = if s.len() > 0 && s[0] == '+' {
        s.drop_first()
    } else {
        s
    };
    if d.len() == 0 || !all_hex(d) {
        None
    } else {
        Some(hex_value(d))
    }
}

/// One color channel of an OSC color answer: two hexadecimal digits, or four of which the
/// first two count.
pub open spec fn channel_value(part: Seq<char>) -> Option<u8> {
    if part.len() == 2 {
        match parse_hex(part) {
            Some(v) => Some(v as u8),
            None => None,
        }
    } else if part.len() == 4 {
        match parse_hex(part) {
            Some(v) => Some((v / 256) as u8),
            None => None,
        }
    } else {
        None
    }
}

/// The color in a terminal's answer to an OSC 10 or 11 query, which reads like
/// `ESC ]10;rgb:c4c4/c4c4/b5b5 ESC \`: the channels stand between the first `:` and the next
/// escape character, separated by `/`.
pub open spec fn osc_color(s: Seq<char>) -> Option<TerminalColor> {
    match first_index(s, ':') {
        None => None,
        Some(p) => {
            let rest = s.subrange(p + 1, s.len() as int);
            match first_index(rest, '\x1b') {
                None => None,
                Some(e) => {
                    let parts = split_on(rest.subrange(0, e), '/');
                    if parts.len() < 3 {
                        None
                    } else {
                        match (
                            channel_value(parts[0]),
                            channel_value(parts[1]),
                            channel_value(parts[2]),
                        ) {
                            (Some(r), Some(g), Some(b)) => Some(TerminalColor { r, g, b }),
                            _ => None,
                        }
                    }
                },
            }
        },
    }
}

/// How the standard library reads a `u32` from text: an optional `+`, then at least one
/// decimal digit, and a value that fits.
pub open spec fn parse_u32(s: Seq<char>) -> Option<u32> {
    let d = if s.len() > 0 && s[0] == '+' {
        s.drop_first()
    } else {
        s
    };
    if d.len() == 0 || !all_digits(d) || digits_value(d) > u32::MAX {
        None
    } else {
        Some(digits_value(d) as u32)
    }
}

/// The cell size in a terminal's answer to the query `CSI 16 t`, which reads like
/// `ESC [6;<height>;<width>t`: the height is the second piece between semicolons, and the
/// width is the third piece up to its first `t`.
pub open spec fn cell_size_answer(s: Seq<char>) -> Option<TerminalCellSize> {
    let parts = split_on(s, ';');
    if parts.len() < 3 {
        None
    } else {
        let height = parse_u32(parts[1]);
        let width = match first_index(parts[2], 't') {
            Some(i) => parse_u32(parts[2].subrange(0, i)),
            None => None,
        };
        match (height, width) {
            (Some(h), Some(w)) => Some(TerminalCellSize { width: w, height: h }),
            _ => None,
        }
    }
}

/// The text of the error for a terminal that does not answer an OSC color query.
pub open spec fn osc_unsupported(foreground: bool) -> Seq<char> {
    if foreground {
        "terminal does not support OSC 10 color query"@
    } else {
        "terminal does not support OSC 11 color query"@
    }
}

/// `16^n`, the number of values that `n` hexadecimal digits can write.
pub open spec fn hex_cap(n: nat) -> int
    decreases n,
{
    if n == 0 {
        1
    } else {
        16 * hex_cap((n - 1) as nat)
    }
}

/// `n` hexadecimal digits denote a number below `16^n`.
pub proof fn lemma_hex_bound(s: Seq<char>)
    requires
        all_hex(s),
    ensures
        0 <= hex_value(s) < hex_cap(s.len()),
    decreases s.len(),
{
    if s.len() > 0 {
        assert(hex_digit_value(s[s.len() - 1]) is Some);
        assert forall|k: int| 0 <= k < s.drop_last().len() implies (#[trigger] hex_digit_value(
            s.drop_last()[k],
        )) is Some by {
            assert(s.drop_last()[k] == s[k]);
        }
        lemma_hex_bound(s.drop_last());
    }
}

/// The value of a hexadecimal digit character, if it is one.
fn hex_digit(c: char) -> (r: Option<u32>)
    ensures
        match hex_digit_value(c) {
            Some(v) => r == Some(v as u32),
            None => r is None,
        },
{
    if '0' <= c && c <= '9' {
        Some(c as u32 - '0' as u32)
    } else if 'a' <= c && c <= 'f' {
        Some(c as u32 - 'a' as u32 + 10)
    } else if 'A' <= c && c <= 'F' {
        Some(c as u32 - 'A' as u32 + 10)
    } else {
        None
    }
}

/// Reads a hexadecimal number of at most four characters from `chars[from..to]`, as the
/// standard library does.
fn parse_hex_range(chars: &Vec<char>, from: usize, to: usize) -> (r: Option<u32>)
    requires
        from <= to <= chars@.len(),
        to - from <= 4,
    ensures
        r is Some <==> parse_hex(chars@.subrange(from as int, to as int)) is Some,
        r is Some ==> r.unwrap() == parse_hex(chars@.subrange(from as int, to as int)).unwrap()
            && r.unwrap() < 65536,
{
    let ghost s = chars@.subrange(from as int, to as int);
    let mut i = from;
    if i < to && chars[i] == '+' {
        i = i + 1;
    }
    let ghost d = chars@.subrange(i as int, to as int);
    proof {
        if s.len() > 0 && s[0] == '+' {
            assert(d =~= s.drop_first());
        } else {
            assert(d =~= s);
        }
    }
    if i == to {
        return None;
    }
    let mut value: u32 = 0;
    let mut j = i;
    while j < to
        invariant
            from <= i <= j <= to <= chars@.len(),
            to - from <= 4,
            d == chars@.subrange(i as int, to as int),
            s == chars@.subrange(from as int, to as int),
            d == (if s.len() > 0 && s[0] == '+' {
                s.drop_first()
            } else {
                s
            }),
            all_hex(chars@.subrange(i as int, j as int)),
            value == hex_value(chars@.subrange(i as int, j as int)),
        decreases to - j,
    {
        let c = chars[j];
        let ghost prev = chars@.subrange(i as int, j as int);
        let ghost next = chars@.subrange(i as int, j + 1);
        match hex_digit(c) {
            None => {
                proof {
                    assert(d[j - i] == chars@[j as int]);
                    assert(!all_hex(d));
                }
                return None;
            },
            Some(dv) => {
                proof {
                    assert(next.drop_last() =~= prev);
                    assert(next.last() == c);
                    assert forall|k: int| 0 <= k < next.len() implies (#[trigger] hex_digit_value(
                        next[k],
                    )) is Some by {
                        if k < prev.len() {
                            assert(next[k] == prev[k]);
                        }
                    }
                    lemma_hex_bound(next);
                    assert(hex_cap(next.len()) <= 65536) by {
                        reveal_with_fuel(hex_cap, 5);
                    }
                }
                value = value * 16 + dv;
            },
        }
        j = j + 1;
    }
    proof {
        assert(chars@.subrange(i as int, to as int) =~= d);
        lemma_hex_bound(d);
        assert(hex_cap(d.len()) <= 65536) by {
            reveal_with_fuel(hex_cap, 5);
        }
    }
    Some(value)
}

/// Reads one color channel from `chars[from..to]`.
fn parse_channel(chars: &Vec<char>, from: usize, to: usize) -> (r: Option<u8>)
    requires
        from <= to <= chars@.len(),
    ensures
        r == channel_value(chars@.subrange(from as int, to as int)),
{
    let n = to - from;
    if n == 2 {
        match parse_hex_range(chars, from, to) {
            Some(v) => {
                proof {
                    let s = chars@.subrange(from as int, to as int);
                    let d = if s.len() > 0 && s[0] == '+' {
                        s.drop_first()
                    } else {
                        s
                    };
                    assert(hex_cap(2) == 256) by {
                        reveal_with_fuel(hex_cap, 3);
                    }
                    assert(hex_cap(1) == 16) by {
                        reveal_with_fuel(hex_cap, 2);
                    }
                    assert(d.len() <= 2);
                    assert(all_hex(d));
                    lemma_hex_bound(d);
                    assert(hex_value(d) < 256);
                    assert(v == hex_value(d));
                }
                Some(v as u8)
            },
            None => None,
        }
    } else if n == 4 {
        match parse_hex_range(chars, from, to) {
            Some(v) => {
                proof {
                    assert(v < 65536);
                    assert(v / 256 < 256);
                }
                Some((v / 256) as u8)
            },
            None => None,
        }
    } else {
        None
    }
}

/// Reads a `u32` from the characters `chars[from..to]`, as the standard library does.
pub fn parse_u32_range(chars: &Vec<char>, from: usize, to: usize) -> (r: Option<u32>)
    requires
        from <= to <= chars@.len(),
    ensures
        r == parse_u32(chars@.subrange(from as int, to as int)),
{
    let ghost s = chars@.subrange(from as int, to as int);
    let mut i = from;
    if i < to && chars[i] == '+' {
        i = i + 1;
    }
    let ghost d = chars@.subrange(i as int, to as int);
    proof {
        if s.len() > 0 && s[0] == '+' {
            assert(d =~= s.drop_first());
        } else {
            assert(d =~= s);
        }
    }
    if i == to {
        return None;
    }
    let cap: u64 = 0x1_0000_0000;
    let mut value: u64 = 0;
    let mut j = i;
    while j < to
        invariant
            from <= i <= j <= to <= chars@.len(),
            cap == 0x1_0000_0000,
            d == chars@.subrange(i as int, to as int),
            s == chars@.subrange(from as int, to as int),
            d == (if s.len() > 0 && s[0] == '+' {
                s.drop_first()
            } else {
                s
            }),
            all_digits(chars@.subrange(i as int, j as int)),
            value == (if digits_value(chars@.subrange(i as int, j as int)) > cap {
                cap as int
            } else {
                digits_value(chars@.subrange(i as int, j as int))
            }),
        decreases to - j,
    {
        let c = chars[j];
        if !('0' <= c && c <= '9') {
            proof {
                assert(d[j - i] == chars@[j as int]);
                assert(!is_digit(d[j - i]));
                assert(!all_digits(d));
            }
            return None;
        }
        let dv = (c as u32 - '0' as u32) as u64;
        let ghost prev = chars@.subrange(i as int, j as int);
        let ghost next = chars@.subrange(i as int, j + 1);
        proof {
            assert(next.drop_last() =~= prev);
            assert(next.last() == c);
            assert(dv == digit_value(c));
            lemma_digits_value_nonneg(prev);
            assert forall|k: int| 0 <= k < next.len() implies is_digit(#[trigger] next[k]) by {
                if k < prev.len() {
                    assert(next[k] == prev[k]);
                }
            }
        }
        let v = value * 10 + dv;
        value = if v > cap {
            cap
        } else {
            v
        };
        j = j + 1;
    }
    proof {
        assert(chars@.subrange(i as int, to as int) =~= d);
    }
    if value > 0xffff_ffff {
        None
    } else {
        Some(value as u32)
    }
}

impl TerminalColor {
    /// Black.
    pub fn black() -> (c: Self)
        ensures
            c == (TerminalColor { r: 0, g: 0, b: 0 }),
    {
        TerminalColor { r: 0, g: 0, b: 0 }
    }

    /// White.
    pub fn white() -> (c: Self)
        ensures
            c == (TerminalColor { r: 255, g: 255, b: 255 }),
    {
        TerminalColor { r: 255, g: 255, b: 255 }
    }

    /// Returns true if the color is perceived as dark: its brightness, weighted 0.299 red,
    /// 0.587 green and 0.114 blue, is below 128.
    pub fn is_dark(&self) -> (b: bool)
        ensures
            b == spec_is_dark(*self),
    {
        let brightness: u32 = 299 * self.r as u32 + 587 * self.g as u32 + 114 * self.b as u32;
        brightness < 128000
    }

    /// The theme that goes with this color as a background.
    pub fn as_theme(&self) -> (t: TerminalTheme)
        ensures
            t == theme_of(*self),
    {
        if self.is_dark() {
            TerminalTheme::Dark
        } else {
            TerminalTheme::Light
        }
    }

    /// The color in a terminal's answer to an OSC color query, if it holds one.
    pub fn parse_osc(response: &str) -> (r: Option<Self>)
        ensures
            r == osc_color(response@),
    {
        let chars = chars_of(response);
        let ghost s = chars@;
        let p = match find_from(&chars, 0, ':') {
            Some(p) => p,
            None => {
                proof {
                    assert(s.subrange(0, s.len() as int) =~= s);
                }
                return None;
            },
        };
        proof {
            assert(s.subrange(0, s.len() as int) =~= s);
        }
        let start = p + 1;
        let ghost rest = s.subrange(start as int, s.len() as int);
        let e = match find_from(&chars, start, '\x1b') {
            Some(e) => e,
            None => {
                return None;
            },
        };
        let ghost payload = rest.subrange(0, e - start);
        proof {
            assert(payload =~= s.subrange(start as int, e as int));
        }
        let parts = split_spans(&chars, start, e, '/');
        if parts.len() < 3 {
            return None;
        }
        let r = parse_channel(&chars, parts[0].0, parts[0].1);
        let g = parse_channel(&chars, parts[1].0, parts[1].1);
        let b = parse_channel(&chars, parts[2].0, parts[2].1);
        match (r, g, b) {
            (Some(r), Some(g), Some(b)) => Some(TerminalColor { r, g, b }),
            _ => None,
        }
    }

    /// The foreground color from the terminal's answer to the OSC 10 query.
    pub fn foreground_from_response(response: &str) -> (r: Result<Self, TerminalQueryError>)
        ensures
            match osc_color(response@) {
                Some(c) => r == Ok::<Self, TerminalQueryError>(c),
                None => r matches Err(TerminalQueryError::Unsupported(m)) && m@ == osc_unsupported(
                    true,
                ),
            },
    {
        match Self::parse_osc(response) {
            Some(c) => Ok(c),
            None => Err(TerminalQueryError::Unsupported("terminal does not support OSC 10 color query")),
        }
    }

    /// The background color from the terminal's answer to the OSC 11 query.
    pub fn background_from_response(response: &str) -> (r: Result<Self, TerminalQueryError>)
        ensures
            match osc_color(response@) {
                Some(c) => r == Ok::<Self, TerminalQueryError>(c),
                None => r matches Err(TerminalQueryError::Unsupported(m)) && m@ == osc_unsupported(
                    false,
                ),
            },
    {
        match Self::parse_osc(response) {
            Some(c) => Ok(c),
            None => Err(TerminalQueryError::Unsupported("terminal does not support OSC 11 color query")),
        }
    }
}

impl TerminalPalette {
    /// The theme of the terminal, which its background decides.
    pub fn theme(&self) -> (t: TerminalTheme)
        ensures
            t == theme_of(self.background),
    {
        self.background.as_theme()
    }
}

impl TerminalCellSize {
    /// The cell size assumed when the terminal does not tell: 10 by 20 pixels.
    pub fn default_size() -> (s: Self)
        ensures
            s == (TerminalCellSize { width: 10, height: 20 }),
    {
        TerminalCellSize { width: 10, height: 20 }
    }

    /// The cell size from the terminal's answer to the query `CSI 16 t`.
    pub fn from_response(response: &str) -> (r: Result<Self, TerminalQueryError>)
        ensures
            match cell_size_answer(response@) {
                Some(c) => r == Ok::<Self, TerminalQueryError>(c),
                None => r matches Err(TerminalQueryError::Unsupported(m))
                    && m@ == "terminal does not support CSI 16 t query for cell size"@,
            },
    {
        let chars = chars_of(response);
        let n = chars.len();
        proof {
            assert(chars@.subrange(0, n as int) =~= response@);
        }
        let parts = split_spans(&chars, 0, n, ';');
        if parts.len() >= 3 {
            let height = parse_u32_range(&chars, parts[1].0, parts[1].1);
            let (ws, we) = parts[2];
            let ghost third = chars@.subrange(ws as int, we as int);
            let width = match find_from(&chars, ws, 't') {
                Some(t) if t < we => {
                    proof {
                        crate::text::lemma_first_index(third, 't', t - ws);
                        let tail = chars@.subrange(ws as int, chars@.len() as int);
                        assert forall|j: int| 0 <= j < t - ws implies third[j] != 't' by {
                            assert(third[j] == tail[j]);
                        }
                        assert(third.subrange(0, t - ws) =~= chars@.subrange(ws as int, t as int));
                    }
                    parse_u32_range(&chars, ws, t)
                },
                _ => {
                    proof {
                        let tail = chars@.subrange(ws as int, chars@.len() as int);
                        assert forall|j: int| 0 <= j < third.len() implies third[j] != 't' by {
                            assert(third[j] == tail[j]);
                        }
                        crate::text::lemma_first_index(third, 't', third.len() as int);
                    }
                    None
                },
            };
            match (height, width) {
                (Some(h), Some(w)) => {
                    return Ok(TerminalCellSize { width: w, height: h });
                },
                _ => {},
            }
        }
        Err(TerminalQueryError::Unsupported("terminal does not support CSI 16 t query for cell size"))
    }
}

impl Default for TerminalCellSize {
    fn default() -> (s: Self)
        ensures
            s == (TerminalCellSize { width: 10, height: 20 }),
    {
        Self::default_size()
    }
}

impl TerminalInfo {
    /// The terminal's information from its palette and cell size; the theme is that of the
    /// palette.
    pub fn new(palette: TerminalPalette, cell_size: TerminalCellSize) -> (i: Self)
        ensures
            i.theme == theme_of(palette.background),
            i.palette == palette,
            i.cell_size == cell_size,
    {
        TerminalInfo { theme: palette.theme(), palette, cell_size }
    }
}

/// A color is dark exactly when its theme is dark, and the two themes split all colors.
pub proof fn law_theme_follows_brightness(c: TerminalColor)
    ensures
        (theme_of(c) == TerminalTheme::Dark) == spec_is_dark(c),
        brightness_milli(TerminalColor { r: 0, g: 0, b: 0 }) == 0,
        theme_of(TerminalColor { r: 0, g: 0, b: 0 }) == TerminalTheme::Dark,
        theme_of(TerminalColor { r: 255, g: 255, b: 255 }) == TerminalTheme::Light,
{
}

} // verus!
