use vstd::prelude::*;

use crate::ansi::{all_digits, digit_value, digits_value, is_digit, parse_u8, parse_u8_range};
use crate::formatting::{decimal, digit_char, push_decimal};
use crate::text::{chars_of, push_char, push_str};

verus! {

/// A terminal color: the sixteen named colors, the terminal's default, a 256-palette
/// index or a true color.
#[derive(Debug, Clone, Copy, PartialEq, Eq, Structural)]
pub enum Color {
    Reset,
    Black,
    Red,
    Green,
    Yellow,
    Blue,
    Magenta,
    Cyan,
    Gray,
    DarkGray,
    LightRed,
    LightGreen,
    LightYellow,
    LightBlue,
    LightMagenta,
    LightCyan,
    White,
    Rgb(u8, u8, u8),
    Indexed(u8),
}

/// The named color at a palette index below sixteen, in the terminal's standard order.
pub open spec fn named_color(i: int) -> Color {
    if i == 0 { Color::Black }
    else if i == 1 { Color::Red }
    else if i == 2 { Color::Green }
    else if i == 3 { Color::Yellow }
    else if i == 4 { Color::Blue }
    else if i == 5 { Color::Magenta }
    else if i == 6 { Color::Cyan }
    else if i == 7 { Color::Gray }
    else if i == 8 { Color::DarkGray }
    else if i == 9 { Color::LightRed }
    else if i == 10 { Color::LightGreen }
    else if i == 11 { Color::LightYellow }
    else if i == 12 { Color::LightBlue }
    else if i == 13 { Color::LightMagenta }
    else if i == 14 { Color::LightCyan }
    else { Color::White }
}

/// The intensity of a level of the palette's color cube: 0, or 95 up to 255 in steps of 40.
pub open spec fn cube_intensity(level: int) -> int {
    if level == 0 { 0 } else { level * 40 + 55 }
}

/// The color a palette index stands for: the sixteen named colors, then a six by six by
/// six color cube (red the slowest, blue the fastest), then a ramp of grays from 8 up to
/// 238 in steps of 10.
pub open spec fn palette_color(i: u8) -> Color {
    if i < 16 {
        named_color(i as int)
    } else if i < 232 {
        let k = i - 16;
        Color::Rgb(
            cube_intensity(k / 36) as u8,
            cube_intensity((k / 6) % 6) as u8,
            cube_intensity(k % 6) as u8,
        )
    } else {
        let gray = 8 + (i - 232) * 10;
        Color::Rgb(gray as u8, gray as u8, gray as u8)
    }
}

/// The intensity of a level of the color cube.
fn cube_level(level: u8) -> (v: u8)
    requires
        level < 6,
    ensures
        v == cube_intensity(level as int),
{
    if level == 0 {
        0
    } else {
        level * 40 + 55
    }
}

/// The color a palette index stands for.
pub fn indexed_to_color(i: u8) -> (c: Color)
    ensures
        c == palette_color(i),
{
    match i {
        0 => Color::Black,
        1 => Color::Red,
        2 => Color::Green,
        3 => Color::Yellow,
        4 => Color::Blue,
        5 => Color::Magenta,
        6 => Color::Cyan,
        7 => Color::Gray,
        8 => Color::DarkGray,
        9 => Color::LightRed,
        10 => Color::LightGreen,
        11 => Color::LightYellow,
        12 => Color::LightBlue,
        13 => Color::LightMagenta,
        14 => Color::LightCyan,
        15 => Color::White,
        _ => {
            if i < 232 {
                let k: u8 = i - 16;
                let r = cube_level(k / 36);
                let g = cube_level((k / 6) % 6);
                let b = cube_level(k % 6);
                Color::Rgb(r, g, b)
            } else {
                let gray: u8 = 8 + (i - 232) * 10;
                Color::Rgb(gray, gray, gray)
            }
        },
    }
}

/// The upper-case hexadecimal digit for `d`.
pub open spec fn hex_digit(d: int) -> char {
    if d < 10 {
        digit_char(d)
    } else if d == 10 {
        'A'
    } else if d == 11 {
        'B'
    } else if d == 12 {
        'C'
    } else if d == 13 {
        'D'
    } else if d == 14 {
        'E'
    } else {
        'F'
    }
}

/// The value of a decimal or upper-case hexadecimal digit.
pub open spec fn hex_value(c: char) -> Option<int> {
    if '0' <= c <= '9' {
        Some(c as int - '0' as int)
    } else if 'A' <= c <= 'F' {
        Some(c as int - 'A' as int + 10)
    } else {
        None
    }
}

/// A byte as two upper-case hexadecimal digits.
pub open spec fn hex2(n: u8) -> Seq<char> {
    seq![hex_digit((n / 16) as int), hex_digit((n % 16) as int)]
}

/// The name of a named color.
pub open spec fn color_name(c: Color) -> Seq<char> {
    match c {
        Color::Reset => seq!['R', 'e', 's', 'e', 't'],
        Color::Black => seq!['B', 'l', 'a', 'c', 'k'],
        Color::Red => seq!['R', 'e', 'd'],
        Color::Green => seq!['G', 'r', 'e', 'e', 'n'],
        Color::Yellow => seq!['Y', 'e', 'l', 'l', 'o', 'w'],
        Color::Blue => seq!['B', 'l', 'u', 'e'],
        Color::Magenta => seq!['M', 'a', 'g', 'e', 'n', 't', 'a'],
        Color::Cyan => seq!['C', 'y', 'a', 'n'],
        Color::Gray => seq!['G', 'r', 'a', 'y'],
        Color::DarkGray => seq!['D', 'a', 'r', 'k', 'G', 'r', 'a', 'y'],
        Color::LightRed => seq!['L', 'i', 'g', 'h', 't', 'R', 'e', 'd'],
        Color::LightGreen => seq!['L', 'i', 'g', 'h', 't', 'G', 'r', 'e', 'e', 'n'],
        Color::LightYellow => seq!['L', 'i', 'g', 'h', 't', 'Y', 'e', 'l', 'l', 'o', 'w'],
        Color::LightBlue => seq!['L', 'i', 'g', 'h', 't', 'B', 'l', 'u', 'e'],
        Color::LightMagenta => seq!['L', 'i', 'g', 'h', 't', 'M', 'a', 'g', 'e', 'n', 't', 'a'],
        Color::LightCyan => seq!['L', 'i', 'g', 'h', 't', 'C', 'y', 'a', 'n'],
        Color::White => seq!['W', 'h', 'i', 't', 'e'],
        Color::Rgb(_, _, _) | Color::Indexed(_) => Seq::empty(),
    }
}

/// How a color is written: its name, `#` and six upper-case hexadecimal digits for a true
/// color, or the decimal palette index.
pub open spec fn color_text(c: Color) -> Seq<char> {
    match c {
        Color::Rgb(r, g, b) => seq!['#'] + hex2(r) + hex2(g) + hex2(b),
        Color::Indexed(i) => decimal(i as nat),
        _ => color_name(c),
    }
}

/// The byte that the two hexadecimal digits of `t` at `i` stand for.
pub open spec fn hex_pair(t: Seq<char>, i: int) -> Option<u8> {
    match (hex_value(t[i]), hex_value(t[i + 1])) {
        (Some(a), Some(b)) => Some((16 * a + b) as u8),
        _ => None,
    }
}

/// The named color whose name is `t`, if any.
pub open spec fn named_color_of(t: Seq<char>) -> Option<Color> {
    if t == color_name(Color::Reset) { Some(Color::Reset) }
    else if t == color_name(Color::Black) { Some(Color::Black) }
    else if t == color_name(Color::Red) { Some(Color::Red) }
    else if t == color_name(Color::Green) { Some(Color::Green) }
    else if t == color_name(Color::Yellow) { Some(Color::Yellow) }
    else if t == color_name(Color::Blue) { Some(Color::Blue) }
    else if t == color_name(Color::Magenta) { Some(Color::Magenta) }
    else if t == color_name(Color::Cyan) { Some(Color::Cyan) }
    else if t == color_name(Color::Gray) { Some(Color::Gray) }
    else if t == color_name(Color::DarkGray) { Some(Color::DarkGray) }
    else if t == color_name(Color::LightRed) { Some(Color::LightRed) }
    else if t == color_name(Color::LightGreen) { Some(Color::LightGreen) }
    else if t == color_name(Color::LightYellow) { Some(Color::LightYellow) }
    else if t == color_name(Color::LightBlue) { Some(Color::LightBlue) }
    else if t == color_name(Color::LightMagenta) { Some(Color::LightMagenta) }
    else if t == color_name(Color::LightCyan) { Some(Color::LightCyan) }
    else if t == color_name(Color::White) { Some(Color::White) }
    else { None }
}

/// The color a text would be if it were written as `color_text` writes colors.
pub open spec fn color_candidate(t: Seq<char>) -> Option<Color> {
    if t.len() == 7 && t[0] == '#' {
        match (hex_pair(t, 1), hex_pair(t, 3), hex_pair(t, 5)) {
            (Some(r), Some(g), Some(b)) => Some(Color::Rgb(r, g, b)),
            _ => None,
        }
    } else if parse_u8(t) is Some {
        Some(Color::Indexed(parse_u8(t).unwrap()))
    } else {
        named_color_of(t)
    }
}

/// The color written as `t`, when `t` is exactly how `color_text` writes a color.
pub open spec fn color_of_text(t: Seq<char>) -> Option<Color> {
    match color_candidate(t) {
        Some(c) => if color_text(c) == t {
            Some(c)
        } else {
            None
        },
        None => None,
    }
}

/// A decimal representation holds only digits, at least one, and denotes its number.
pub proof fn lemma_decimal_digits(n: nat)
    ensures
        decimal(n).len() > 0,
        all_digits(decimal(n)),
        digits_value(decimal(n)) == n,
    decreases n,
{
    if n < 10 {
        assert(decimal(n) == seq![digit_char(n as int)]);
        assert(digit_value(digit_char(n as int)) == n);
        assert(seq![digit_char(n as int)].drop_last() =~= Seq::<char>::empty());
        assert(digits_value(Seq::<char>::empty()) == 0);
        assert(digits_value(decimal(n)) == digit_value(digit_char(n as int)));
    } else {
        lemma_decimal_digits(n / 10);
        let d = (n % 10) as int;
        assert(digit_value(digit_char(d)) == d);
        assert(decimal(n).drop_last() =~= decimal(n / 10));
        assert(decimal(n).last() == digit_char(d));
        assert(digits_value(decimal(n)) == 10 * digits_value(decimal(n / 10)) + d);
        assert(10 * (n / 10) + n % 10 == n);
        assert forall|i: int| 0 <= i < decimal(n).len() implies is_digit(#[trigger] decimal(n)[i]) by {
            if i < decimal(n / 10).len() {
                assert(decimal(n)[i] == decimal(n / 10)[i]);
            }
        }
    }
}

/// The hexadecimal digit of a value below sixteen reads back as that value.
pub proof fn lemma_hex_digit(d: int)
    requires
        0 <= d < 16,
    ensures
        hex_value(hex_digit(d)) == Some(d),
{
}

/// Two hexadecimal digits of a byte read back as that byte.
pub proof fn lemma_hex2(n: u8)
    ensures
        hex_value(hex2(n)[0]) == Some((n / 16) as int),
        hex_value(hex2(n)[1]) == Some((n % 16) as int),
        16 * ((n / 16) as int) + (n % 16) as int == n,
{
    lemma_hex_digit((n / 16) as int);
    lemma_hex_digit((n % 16) as int);
}

/// The length, first letter and, for long names, sixth letter of each color name; no two
/// names agree on all three.
pub proof fn lemma_name_keys()
    ensures
        color_name(Color::Reset).len() == 5, color_name(Color::Reset)[0] == 'R',
        color_name(Color::Black).len() == 5, color_name(Color::Black)[0] == 'B',
        color_name(Color::Red).len() == 3, color_name(Color::Red)[0] == 'R',
        color_name(Color::Green).len() == 5, color_name(Color::Green)[0] == 'G',
        color_name(Color::Yellow).len() == 6, color_name(Color::Yellow)[0] == 'Y', color_name(Color::Yellow)[5] == 'w',
        color_name(Color::Blue).len() == 4, color_name(Color::Blue)[0] == 'B',
        color_name(Color::Magenta).len() == 7, color_name(Color::Magenta)[0] == 'M', color_name(Color::Magenta)[5] == 't',
        color_name(Color::Cyan).len() == 4, color_name(Color::Cyan)[0] == 'C',
        color_name(Color::Gray).len() == 4, color_name(Color::Gray)[0] == 'G',
        color_name(Color::DarkGray).len() == 8, color_name(Color::DarkGray)[0] == 'D', color_name(Color::DarkGray)[5] == 'r',
        color_name(Color::LightRed).len() == 8, color_name(Color::LightRed)[0] == 'L', color_name(Color::LightRed)[5] == 'R',
        color_name(Color::LightGreen).len() == 10, color_name(Color::LightGreen)[0] == 'L', color_name(Color::LightGreen)[5] == 'G',
        color_name(Color::LightYellow).len() == 11, color_name(Color::LightYellow)[0] == 'L', color_name(Color::LightYellow)[5] == 'Y',
        color_name(Color::LightBlue).len() == 9, color_name(Color::LightBlue)[0] == 'L', color_name(Color::LightBlue)[5] == 'B',
        color_name(Color::LightMagenta).len() == 12, color_name(Color::LightMagenta)[0] == 'L', color_name(Color::LightMagenta)[5] == 'M',
        color_name(Color::LightCyan).len() == 9, color_name(Color::LightCyan)[0] == 'L', color_name(Color::LightCyan)[5] == 'C',
        color_name(Color::White).len() == 5, color_name(Color::White)[0] == 'W',
{
}

/// Every color reads back from how it is written.
pub proof fn law_color_text_roundtrip(c: Color)
    ensures
        color_of_text(color_text(c)) == Some(c),
{
    let t = color_text(c);
    match c {
        Color::Rgb(r, g, b) => {
            lemma_hex2(r);
            lemma_hex2(g);
            lemma_hex2(b);
            assert(t.len() == 7);
            assert(t[1] == hex2(r)[0] && t[2] == hex2(r)[1]);
            assert(t[3] == hex2(g)[0] && t[4] == hex2(g)[1]);
            assert(t[5] == hex2(b)[0] && t[6] == hex2(b)[1]);
            assert(hex_pair(t, 1) == Some(r));
            assert(hex_pair(t, 3) == Some(g));
            assert(hex_pair(t, 5) == Some(b));
        },
        Color::Indexed(i) => {
            lemma_decimal_digits(i as nat);
            assert(is_digit(t[0]));
            assert(parse_u8(t) == Some(i));
        },
        _ => {
            assert(!is_digit(t[0]) && t[0] != '+' && t[0] != '#');
            assert(!all_digits(t));
            lemma_name_keys();
        },
    }
}

/// The upper-case hexadecimal digit for a value below sixteen.
fn hex_digit_char(d: u8) -> (c: char)
    requires
        d < 16,
    ensures
        c == hex_digit(d as int),
{
    if d < 10 {
        crate::formatting::digit(d as u64)
    } else if d == 10 {
        'A'
    } else if d == 11 {
        'B'
    } else if d == 12 {
        'C'
    } else if d == 13 {
        'D'
    } else if d == 14 {
        'E'
    } else {
        'F'
    }
}

/// Appends a byte as two upper-case hexadecimal digits.
fn push_hex2(s: &mut String, n: u8)
    ensures
        final(s)@ == old(s)@ + hex2(n),
{
    push_char(s, hex_digit_char(n / 16));
    push_char(s, hex_digit_char(n % 16));
    proof {
        assert(final(s)@ =~= old(s)@ + hex2(n));
    }
}

/// The value of a decimal or upper-case hexadecimal digit.
fn hex_digit_value(c: char) -> (r: Option<u8>)
    ensures
        match hex_value(c) {
            Some(v) => r == Some(v as u8) && 0 <= v < 16,
            None => r is None,
        },
{
    if '0' <= c && c <= '9' {
        Some(((c as u32) - ('0' as u32)) as u8)
    } else if 'A' <= c && c <= 'F' {
        Some(((c as u32) - ('A' as u32) + 10) as u8)
    } else {
        None
    }
}

/// The byte that the two hexadecimal digits at `i` stand for.
fn hex_pair_at(v: &Vec<char>, i: usize) -> (r: Option<u8>)
    requires
        i + 1 < v.len(),
    ensures
        r == hex_pair(v@, i as int),
{
    match (hex_digit_value(v[i]), hex_digit_value(v[i + 1])) {
        (Some(a), Some(b)) => Some(16 * a + b),
        _ => None,
    }
}

/// True when the characters are those of `lit`.
fn same_text(v: &Vec<char>, lit: &str) -> (b: bool)
    ensures
        b == (v@ == lit@),
{
    let w = chars_of(lit);
    same_chars(v, &w)
}

/// True when the two character sequences are equal.
fn same_chars(a: &Vec<char>, b: &Vec<char>) -> (r: bool)
    ensures
        r == (a@ == b@),
{
    if a.len() != b.len() {
        return false;
    }
    let n = a.len();
    let mut i: usize = 0;
    while i < n
        invariant
            n == a@.len(),
            n == b@.len(),
            i <= n,
            forall|j: int| 0 <= j < i ==> a@[j] == b@[j],
        decreases n - i,
    {
        if a[i] != b[i] {
            return false;
        }
        i = i + 1;
    }
    proof {
        assert(a@ =~= b@);
    }
    true
}

/// The named color whose name the characters spell, if any.
fn named_color_at(v: &Vec<char>) -> (r: Option<Color>)
    ensures
        r == named_color_of(v@),
{
    proof {
        reveal_strlit("Reset");
        assert("Reset"@ =~= color_name(Color::Reset));
        reveal_strlit("Black");
        assert("Black"@ =~= color_name(Color::Black));
        reveal_strlit("Red");
        assert("Red"@ =~= color_name(Color::Red));
        reveal_strlit("Green");
        assert("Green"@ =~= color_name(Color::Green));
        reveal_strlit("Yellow");
        assert("Yellow"@ =~= color_name(Color::Yellow));
        reveal_strlit("Blue");
        assert("Blue"@ =~= color_name(Color::Blue));
        reveal_strlit("Magenta");
        assert("Magenta"@ =~= color_name(Color::Magenta));
        reveal_strlit("Cyan");
        assert("Cyan"@ =~= color_name(Color::Cyan));
        reveal_strlit("Gray");
        assert("Gray"@ =~= color_name(Color::Gray));
        reveal_strlit("DarkGray");
        assert("DarkGray"@ =~= color_name(Color::DarkGray));
        reveal_strlit("LightRed");
        assert("LightRed"@ =~= color_name(Color::LightRed));
        reveal_strlit("LightGreen");
        assert("LightGreen"@ =~= color_name(Color::LightGreen));
        reveal_strlit("LightYellow");
        assert("LightYellow"@ =~= color_name(Color::LightYellow));
        reveal_strlit("LightBlue");
        assert("LightBlue"@ =~= color_name(Color::LightBlue));
        reveal_strlit("LightMagenta");
        assert("LightMagenta"@ =~= color_name(Color::LightMagenta));
        reveal_strlit("LightCyan");
        assert("LightCyan"@ =~= color_name(Color::LightCyan));
        reveal_strlit("White");
        assert("White"@ =~= color_name(Color::White));
    }
    if same_text(v, "Reset") {
        return Some(Color::Reset);
    }
    if same_text(v, "Black") {
        return Some(Color::Black);
    }
    if same_text(v, "Red") {
        return Some(Color::Red);
    }
    if same_text(v, "Green") {
        return Some(Color::Green);
    }
    if same_text(v, "Yellow") {
        return Some(Color::Yellow);
    }
    if same_text(v, "Blue") {
        return Some(Color::Blue);
    }
    if same_text(v, "Magenta") {
        return Some(Color::Magenta);
    }
    if same_text(v, "Cyan") {
        return Some(Color::Cyan);
    }
    if same_text(v, "Gray") {
        return Some(Color::Gray);
    }
    if same_text(v, "DarkGray") {
        return Some(Color::DarkGray);
    }
    if same_text(v, "LightRed") {
        return Some(Color::LightRed);
    }
    if same_text(v, "LightGreen") {
        return Some(Color::LightGreen);
    }
    if same_text(v, "LightYellow") {
        return Some(Color::LightYellow);
    }
    if same_text(v, "LightBlue") {
        return Some(Color::LightBlue);
    }
    if same_text(v, "LightMagenta") {
        return Some(Color::LightMagenta);
    }
    if same_text(v, "LightCyan") {
        return Some(Color::LightCyan);
    }
    if same_text(v, "White") {
        return Some(Color::White);
    }
    None
}

impl Color {
    /// The color written as text: its name, `#` and six upper-case hexadecimal digits, or
    /// the palette index.
    pub fn to_string(self) -> (s: String)
        ensures
            s@ == color_text(self),
    {
        proof {
        reveal_strlit("Reset");
        assert("Reset"@ =~= color_name(Color::Reset));
        reveal_strlit("Black");
        assert("Black"@ =~= color_name(Color::Black));
        reveal_strlit("Red");
        assert("Red"@ =~= color_name(Color::Red));
        reveal_strlit("Green");
        assert("Green"@ =~= color_name(Color::Green));
        reveal_strlit("Yellow");
        assert("Yellow"@ =~= color_name(Color::Yellow));
        reveal_strlit("Blue");
        assert("Blue"@ =~= color_name(Color::Blue));
        reveal_strlit("Magenta");
        assert("Magenta"@ =~= color_name(Color::Magenta));
        reveal_strlit("Cyan");
        assert("Cyan"@ =~= color_name(Color::Cyan));
        reveal_strlit("Gray");
        assert("Gray"@ =~= color_name(Color::Gray));
        reveal_strlit("DarkGray");
        assert("DarkGray"@ =~= color_name(Color::DarkGray));
        reveal_strlit("LightRed");
        assert("LightRed"@ =~= color_name(Color::LightRed));
        reveal_strlit("LightGreen");
        assert("LightGreen"@ =~= color_name(Color::LightGreen));
        reveal_strlit("LightYellow");
        assert("LightYellow"@ =~= color_name(Color::LightYellow));
        reveal_strlit("LightBlue");
        assert("LightBlue"@ =~= color_name(Color::LightBlue));
        reveal_strlit("LightMagenta");
        assert("LightMagenta"@ =~= color_name(Color::LightMagenta));
        reveal_strlit("LightCyan");
        assert("LightCyan"@ =~= color_name(Color::LightCyan));
        reveal_strlit("White");
        assert("White"@ =~= color_name(Color::White));
        }
        let mut s = String::new();
        match self {
            Color::Reset => push_str(&mut s, "Reset"),
            Color::Black => push_str(&mut s, "Black"),
            Color::Red => push_str(&mut s, "Red"),
            Color::Green => push_str(&mut s, "Green"),
            Color::Yellow => push_str(&mut s, "Yellow"),
            Color::Blue => push_str(&mut s, "Blue"),
            Color::Magenta => push_str(&mut s, "Magenta"),
            Color::Cyan => push_str(&mut s, "Cyan"),
            Color::Gray => push_str(&mut s, "Gray"),
            Color::DarkGray => push_str(&mut s, "DarkGray"),
            Color::LightRed => push_str(&mut s, "LightRed"),
            Color::LightGreen => push_str(&mut s, "LightGreen"),
            Color::LightYellow => push_str(&mut s, "LightYellow"),
            Color::LightBlue => push_str(&mut s, "LightBlue"),
            Color::LightMagenta => push_str(&mut s, "LightMagenta"),
            Color::LightCyan => push_str(&mut s, "LightCyan"),
            Color::White => push_str(&mut s, "White"),
            Color::Rgb(r, g, b) => {
                push_char(&mut s, '#');
                push_hex2(&mut s, r);
                push_hex2(&mut s, g);
                push_hex2(&mut s, b);
                proof {
                    assert(s@ =~= color_text(self));
                }
            },
            Color::Indexed(i) => {
                push_decimal(&mut s, i as u64);
                proof {
                    assert(s@ =~= color_text(self));
                }
            },
        }
        s
    }

    /// The color that `t` writes, when `t` is exactly how `to_string` writes a color.
    pub fn from_text(t: &str) -> (r: Option<Color>)
        ensures
            r == color_of_text(t@),
    {
        let v = chars_of(t);
        let n = v.len();
        let candidate = if n == 7 && v[0] == '#' {
            match (hex_pair_at(&v, 1), hex_pair_at(&v, 3), hex_pair_at(&v, 5)) {
                (Some(r), Some(g), Some(b)) => Some(Color::Rgb(r, g, b)),
                _ => None,
            }
        } else {
            proof {
                assert(v@.subrange(0, n as int) =~= v@);
            }
            match parse_u8_range(&v, 0, n) {
                Some(i) => Some(Color::Indexed(i)),
                None => named_color_at(&v),
            }
        };
        match candidate {
            Some(c) => {
                let written = c.to_string();
                let w = chars_of(written.as_str());
                if same_chars(&w, &v) {
                    Some(c)
                } else {
                    None
                }
            },
            None => None,
        }
    }
}

/// True when `t` is how `color_text` writes some color.
pub open spec fn writes_a_color(t: Seq<char>) -> bool {
    exists|c: Color| #[trigger] color_text(c) == t
}

/// What the terminal interface library reads as a color from a text, written back the way
/// `color_text` writes colors; `None` when it reads no color.
pub uninterp spec fn parsed_color_text(s: Seq<char>) -> Option<Seq<char>>;

/// Reads a color from a text the way the terminal interface library does, and writes it
/// back.
///
/// Calls `FromStr::from_str` of `ratatui::style::Color` (the `Color` of `ratatui-core`), which
/// reads names in any case and with spaces, dashes or underscores, a few other spellings of
/// them, `#` and six hexadecimal digits, and palette indices; what it reads depends on the
/// text alone and is named `parsed_color_text`. A color it reads is written back with its
/// `Display`, which the crate's source writes exactly as `color_text` does.
#[verifier::external_body]
fn read_color_text(s: &str) -> (r: Option<String>)
    ensures
        match r {
            Some(t) => parsed_color_text(s@) == Some(t@) && writes_a_color(t@),
            None => parsed_color_text(s@) is None,
        },
{
    s.parse::<ratatui::style::Color>().ok().map(|c| c.to_string())
}

/// The color that the terminal interface library reads from a text, if any.
pub open spec fn parsed_color(s: Seq<char>) -> Option<Color> {
    match parsed_color_text(s) {
        Some(t) => color_of_text(t),
        None => None,
    }
}

/// Reads a color from a text: a name, `#` and six hexadecimal digits, or a palette index.
pub fn parse_color(s: &str) -> (r: Option<Color>)
    ensures
        r == parsed_color(s@),
        r is Some <==> parsed_color_text(s@) is Some,
{
    match read_color_text(s) {
        Some(t) => {
            proof {
                let c = choose|c: Color| #[trigger] color_text(c) == t@;
                law_color_text_roundtrip(c);
            }
            Color::from_text(t.as_str())
        },
        None => None,
    }
}

/// Text attributes, as bits of a set.
pub const BOLD: u16 = 1;
pub const DIM: u16 = 2;
pub const ITALIC: u16 = 4;
pub const UNDERLINED: u16 = 8;
pub const SLOW_BLINK: u16 = 16;
pub const RAPID_BLINK: u16 = 32;
pub const REVERSED: u16 = 64;
pub const HIDDEN: u16 = 128;
pub const CROSSED_OUT: u16 = 256;

/// The style of a piece of text: colors and the attributes added to or removed from the
/// style beneath it.
#[derive(Debug, Clone, Copy, PartialEq, Eq, Structural)]
pub struct Style {
    pub fg: Option<Color>,
    pub bg: Option<Color>,
    pub add_modifier: u16,
    pub sub_modifier: u16,
}

/// The plain style: no colors, no attributes.
pub open spec fn plain_style() -> Style {
    Style { fg: None, bg: None, add_modifier: 0, sub_modifier: 0 }
}

impl Style {
    /// The plain style.
    pub fn new() -> (s: Self)
        ensures
            s == plain_style(),
    {
        Style { fg: None, bg: None, add_modifier: 0, sub_modifier: 0 }
    }

    /// True when the attribute bits `bits` are all added.
    pub fn has(&self, bits: u16) -> (b: bool)
        ensures
            b == (self.add_modifier & bits == bits),
    {
        self.add_modifier & bits == bits
    }
}

} // verus!
