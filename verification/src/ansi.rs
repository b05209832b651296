//! Select Graphic Rendition (SGR) escape codes: the tags, how they are written, how a text
//! holding them is parsed back into text and tags, and how tags change a style.
use vstd::prelude::*;
use vstd::utf8::encode_utf8;

use crate::formatting::{decimal, digit_char, push_decimal};
use crate::style::{
    Color, Style, BOLD, CROSSED_OUT, DIM, HIDDEN, ITALIC, RAPID_BLINK, REVERSED, SLOW_BLINK,
    UNDERLINED,
};
use crate::text::{push_char, split_on, split_spans};
use vstd::string::StrSliceExecFns;

verus! {

/// The escape character that starts every code.
pub const ANSI_START: char = '\x1b';

/// The character after the escape character.
pub const ANSI_START2: char = '[';

/// The character that ends every code.
pub const ANSI_END: char = 'm';

/// A Select Graphic Rendition attribute.
#[derive(Debug, Clone, Copy, PartialEq, Eq, Structural)]
pub enum AnsiTag {
    Reset,
    Bold,
    Faint,
    Italic,
    Underline,
    SlowBlink,
    RapidBlink,
    Reverse,
    Conceal,
    CrossedOut,
    NotBold,
    NotItalic,
    NotUnderline,
    NotBlink,
    NotReverse,
    Reveal,
    NotCrossedOut,
    FgBlack,
    FgRed,
    FgGreen,
    FgYellow,
    FgBlue,
    FgMagenta,
    FgCyan,
    FgWhite,
    FgBrightBlack,
    FgBrightRed,
    FgBrightGreen,
    FgBrightYellow,
    FgBrightBlue,
    FgBrightMagenta,
    FgBrightCyan,
    FgBrightWhite,
    FgDefault,
    BgBlack,
    BgRed,
    BgGreen,
    BgYellow,
    BgBlue,
    BgMagenta,
    BgCyan,
    BgWhite,
    BgBrightBlack,
    BgBrightRed,
    BgBrightGreen,
    BgBrightYellow,
    BgBrightBlue,
    BgBrightMagenta,
    BgBrightCyan,
    BgBrightWhite,
    BgDefault,
    Fg256(u8),
    Bg256(u8),
    FgTrueColor(u8, u8, u8),
    BgTrueColor(u8, u8, u8),
}

/// The SGR number of a tag written as a single number; extended colors have none.
pub open spec fn sgr_number(t: AnsiTag) -> Option<u8> {
    match t {
        AnsiTag::Reset => Some(0),
        AnsiTag::Bold => Some(1),
        AnsiTag::Faint => Some(2),
        AnsiTag::Italic => Some(3),
        AnsiTag::Underline => Some(4),
        AnsiTag::SlowBlink => Some(5),
        AnsiTag::RapidBlink => Some(6),
        AnsiTag::Reverse => Some(7),
        AnsiTag::Conceal => Some(8),
        AnsiTag::CrossedOut => Some(9),
        AnsiTag::NotBold => Some(22),
        AnsiTag::NotItalic => Some(23),
        AnsiTag::NotUnderline => Some(24),
        AnsiTag::NotBlink => Some(25),
        AnsiTag::NotReverse => Some(27),
        AnsiTag::Reveal => Some(28),
        AnsiTag::NotCrossedOut => Some(29),
        AnsiTag::FgBlack => Some(30),
        AnsiTag::FgRed => Some(31),
        AnsiTag::FgGreen => Some(32),
        AnsiTag::FgYellow => Some(33),
        AnsiTag::FgBlue => Some(34),
        AnsiTag::FgMagenta => Some(35),
        AnsiTag::FgCyan => Some(36),
        AnsiTag::FgWhite => Some(37),
        AnsiTag::FgDefault => Some(39),
        AnsiTag::BgBlack => Some(40),
        AnsiTag::BgRed => Some(41),
        AnsiTag::BgGreen => Some(42),
        AnsiTag::BgYellow => Some(43),
        AnsiTag::BgBlue => Some(44),
        AnsiTag::BgMagenta => Some(45),
        AnsiTag::BgCyan => Some(46),
        AnsiTag::BgWhite => Some(47),
        AnsiTag::BgDefault => Some(49),
        AnsiTag::FgBrightBlack => Some(90),
        AnsiTag::FgBrightRed => Some(91),
        AnsiTag::FgBrightGreen => Some(92),
        AnsiTag::FgBrightYellow => Some(93),
        AnsiTag::FgBrightBlue => Some(94),
        AnsiTag::FgBrightMagenta => Some(95),
        AnsiTag::FgBrightCyan => Some(96),
        AnsiTag::FgBrightWhite => Some(97),
        AnsiTag::BgBrightBlack => Some(100),
        AnsiTag::BgBrightRed => Some(101),
        AnsiTag::BgBrightGreen => Some(102),
        AnsiTag::BgBrightYellow => Some(103),
        AnsiTag::BgBrightBlue => Some(104),
        AnsiTag::BgBrightMagenta => Some(105),
        AnsiTag::BgBrightCyan => Some(106),
        AnsiTag::BgBrightWhite => Some(107),
        _ => None,
    }
}

/// The parameters of a tag's code: its number, or the extended color form
/// `38;5;n`, `48;5;n`, `38;2;r;g;b` or `48;2;r;g;b`.
pub open spec fn tag_params(t: AnsiTag) -> Seq<char> {
    match t {
        AnsiTag::Fg256(n) => seq!['3', '8', ';', '5', ';'] + decimal(n as nat),
        AnsiTag::Bg256(n) => seq!['4', '8', ';', '5', ';'] + decimal(n as nat),
        AnsiTag::FgTrueColor(r, g, b) => seq!['3', '8', ';', '2', ';'] + decimal(r as nat) + seq![
            ';',
        ] + decimal(g as nat) + seq![';'] + decimal(b as nat),
        AnsiTag::BgTrueColor(r, g, b) => seq!['4', '8', ';', '2', ';'] + decimal(r as nat) + seq![
            ';',
        ] + decimal(g as nat) + seq![';'] + decimal(b as nat),
        _ => decimal(sgr_number(t).unwrap() as nat),
    }
}

/// The full escape code of a tag: `ESC [ params m`.
pub open spec fn tag_code(t: AnsiTag) -> Seq<char> {
    seq![ANSI_START, ANSI_START2] + tag_params(t) + seq![ANSI_END]
}

/// Every tag that is not an extended color has an SGR number.
pub proof fn lemma_sgr_number_total(t: AnsiTag)
    ensures
        !(t is Fg256 || t is Bg256 || t is FgTrueColor || t is BgTrueColor) ==> sgr_number(
            t,
        ) is Some,
        (t is Fg256 || t is Bg256 || t is FgTrueColor || t is BgTrueColor) ==> sgr_number(
            t,
        ) is None,
{
}

/// Two tags with the same SGR number are the same tag.
pub proof fn lemma_sgr_number_injective(a: AnsiTag, b: AnsiTag)
    requires
        sgr_number(a) is Some,
        sgr_number(a) == sgr_number(b),
    ensures
        a == b,
{
}

/// True when `c` is a decimal digit.
pub open spec fn is_digit(c: char) -> bool {
    '0' <= c <= '9'
}

/// The value of the decimal digit `c`.
pub open spec fn digit_value(c: char) -> int {
    c as int - '0' as int
}

/// True when every character of `s` is a decimal digit.
pub open spec fn all_digits(s: Seq<char>) -> bool {
    forall|i: int| 0 <= i < s.len() ==> is_digit(#[trigger] s[i])
}

/// The number that the decimal digits `s` denote.
pub open spec fn digits_value(s: Seq<char>) -> int
    decreases s.len(),
{
    if s.len() == 0 {
        0
    } else {
        10 * digits_value(s.drop_last()) + digit_value(s.last())
    }
}

/// How the standard library reads a `u8` from text: an optional `+`, then at least one
/// decimal digit, and a value that fits in a byte.
pub open spec fn parse_u8(s: Seq<char>) -> Option<u8> {
    let d = if s.len() > 0 && s[0] == '+' {
        s.drop_first()
    } else {
        s
    };
    if d.len() == 0 || !all_digits(d) || digits_value(d) > 255 {
        None
    } else {
        Some(digits_value(d) as u8)
    }
}

/// The pieces of `s` between the semicolons, in order (one piece when there is none).
pub open spec fn split_semicolons(s: Seq<char>) -> Seq<Seq<char>> {
    split_on(s, ';')
}

/// The tag that the parameters `code` of an escape code denote, if any.
pub open spec fn code_tag(code: Seq<char>) -> Option<AnsiTag> {
    let parts = split_semicolons(code);
    if parts.len() > 1 {
        if parts.len() == 3 {
            if parts[1] == seq!['5'] && parse_u8(parts[2]) is Some {
                if parts[0] == seq!['3', '8'] {
                    Some(AnsiTag::Fg256(parse_u8(parts[2]).unwrap()))
                } else if parts[0] == seq!['4', '8'] {
                    Some(AnsiTag::Bg256(parse_u8(parts[2]).unwrap()))
                } else {
                    None
                }
            } else {
                None
            }
        } else if parts.len() == 5 {
            if parts[1] == seq!['2'] && parse_u8(parts[2]) is Some && parse_u8(parts[3]) is Some
                && parse_u8(parts[4]) is Some {
                let r = parse_u8(parts[2]).unwrap();
                let g = parse_u8(parts[3]).unwrap();
                let b = parse_u8(parts[4]).unwrap();
                if parts[0] == seq!['3', '8'] {
                    Some(AnsiTag::FgTrueColor(r, g, b))
                } else if parts[0] == seq!['4', '8'] {
                    Some(AnsiTag::BgTrueColor(r, g, b))
                } else {
                    None
                }
            } else {
                None
            }
        } else {
            None
        }
    } else {
        match parse_u8(code) {
            Some(n) => if exists|t: AnsiTag| sgr_number(t) == Some(n) {
                Some(choose|t: AnsiTag| sgr_number(t) == Some(n))
            } else {
                None
            },
            None => None,
        }
    }
}

/// Looks for the end character within the next 17 characters from `p`: returns the
/// position after the characters looked at, and the position of the end character if
/// it was found.
pub open spec fn find_end(inp: Seq<char>, p: int, budget: int) -> (int, Option<int>)
    decreases budget,
{
    if budget <= 0 || p >= inp.len() {
        (p, None)
    } else if inp[p] == ANSI_END {
        (p + 1, Some(p))
    } else {
        find_end(inp, p + 1, budget - 1)
    }
}

/// Parses an escape code whose escape character stood just before `p`: returns the position
/// after the characters consumed, and on success the position after the code and its tag.
pub open spec fn parse_code_at(inp: Seq<char>, p: int) -> (int, Option<(int, AnsiTag)>) {
    if p >= inp.len() {
        (p, None)
    } else if inp[p] != ANSI_START2 {
        (p + 1, None)
    } else {
        let (q, end) = find_end(inp, p + 1, 17);
        match end {
            Some(e) => match code_tag(inp.subrange(p + 1, e)) {
                Some(t) => (q, Some((e + 1, t))),
                None => (q, None),
            },
            None => (q, None),
        }
    }
}

/// An event of the parser: a stretch of text, or a tag.
pub enum EventView {
    Text(Seq<char>),
    Tag(AnsiTag),
}

/// The parser's position: where the current text began, how far it has looked, and a
/// tag found right after a text, to be handed out next.
pub struct ParserState {
    pub start: int,
    pub pos: int,
    pub tag: Option<AnsiTag>,
}

/// Scans from `pos` for the next escape code, with the current text starting at `start`.
pub open spec fn scan(inp: Seq<char>, start: int, pos: int) -> (ParserState, Option<EventView>)
    decreases inp.len() - pos,
{
    if pos >= inp.len() || pos < 0 {
        let rest = inp.subrange(start, inp.len() as int);
        (
            ParserState { start: inp.len() as int, pos: inp.len() as int, tag: None },
            if rest.len() == 0 {
                None
            } else {
                Some(EventView::Text(rest))
            },
        )
    } else if inp[pos] == ANSI_START {
        let (q, r) = parse_code_at(inp, pos + 1);
        match r {
            Some((end, t)) => if start < pos {
                (
                    ParserState { start: end, pos: q, tag: Some(t) },
                    Some(EventView::Text(inp.subrange(start, pos))),
                )
            } else {
                (ParserState { start: end, pos: q, tag: None }, Some(EventView::Tag(t)))
            },
            None => if pos < q <= inp.len() {
                scan(inp, start, q)
            } else {
                scan(inp, start, pos + 1)
            },
        }
    } else {
        scan(inp, start, pos + 1)
    }
}

/// One step of the parser: a pending tag first, otherwise the next scan.
pub open spec fn parser_step(inp: Seq<char>, st: ParserState) -> (ParserState, Option<EventView>) {
    match st.tag {
        Some(t) => (ParserState { start: st.start, pos: st.pos, tag: None }, Some(EventView::Tag(t))),
        None => scan(inp, st.start, st.pos),
    }
}

/// The value of a digit character.
fn digit_of(c: char) -> (d: u64)
    requires
        is_digit(c),
    ensures
        d == digit_value(c),
{
    (c as u32 - '0' as u32) as u64
}

/// Reads a `u8` from the characters `from..to`, as the standard library does.
pub fn parse_u8_range(chars: &Vec<char>, from: usize, to: usize) -> (r: Option<u8>)
    requires
        from <= to <= chars@.len(),
    ensures
        r == parse_u8(chars@.subrange(from as int, to as int)),
{
    let ghost s = chars@.subrange(from as int, to as int);
    let mut i = from;
    if i < to && chars[i] == '+' {
        i = i + 1;
    }
    let ghost d = chars@.subrange(i as int, to as int);
    proof {
        if s.len() > 0 && s[0] == '+' {
            assert(d =~= s.drop_first());
        } else {
            assert(d =~= s);
        }
    }
    if i == to {
        return None;
    }
    let mut value: u64 = 0;
    let mut j = i;
    while j < to
        invariant
            from <= i <= j <= to <= chars@.len(),
            d == chars@.subrange(i as int, to as int),
            s == chars@.subrange(from as int, to as int),
            d == (if s.len() > 0 && s[0] == '+' {
                s.drop_first()
            } else {
                s
            }),
            all_digits(chars@.subrange(i as int, j as int)),
            value == (if digits_value(chars@.subrange(i as int, j as int)) > 1000 {
                1000
            } else {
                digits_value(chars@.subrange(i as int, j as int))
            }),
        decreases to - j,
    {
        let c = chars[j];
        if !('0' <= c && c <= '9') {
            proof {
                assert(d[j - i] == chars@[j as int]);
                assert(!is_digit(d[j - i]));
                assert(!all_digits(d));
            }
            return None;
        }
        let dv = digit_of(c);
        let ghost prev = chars@.subrange(i as int, j as int);
        let ghost next = chars@.subrange(i as int, j + 1);
        proof {
            assert(next.drop_last() =~= prev);
            assert(next.last() == c);
            lemma_digits_value_nonneg(prev);
            assert forall|k: int| 0 <= k < next.len() implies is_digit(#[trigger] next[k]) by {
                if k < prev.len() {
                    assert(next[k] == prev[k]);
                }
            }
        }
        let v = value * 10 + dv;
        value = if v > 1000 {
            1000
        } else {
            v
        };
        j = j + 1;
    }
    proof {
        assert(chars@.subrange(i as int, to as int) =~= d);
    }
    if value > 255 {
        None
    } else {
        Some(value as u8)
    }
}

/// Digits denote a number that is not negative.
pub proof fn lemma_digits_value_nonneg(s: Seq<char>)
    requires
        all_digits(s),
    ensures
        digits_value(s) >= 0,
    decreases s.len(),
{
    if s.len() > 0 {
        assert(is_digit(s[s.len() - 1]));
        assert forall|k: int| 0 <= k < s.drop_last().len() implies is_digit(
            #[trigger] s.drop_last()[k],
        ) by {
            assert(s.drop_last()[k] == s[k]);
        }
        lemma_digits_value_nonneg(s.drop_last());
    }
}

/// True when `chars[p..e]` is exactly the given characters.
fn piece_is(chars: &Vec<char>, p: (usize, usize), a: char, b: Option<char>) -> (r: bool)
    requires
        p.0 <= p.1 <= chars@.len(),
    ensures
        r == (chars@.subrange(p.0 as int, p.1 as int) == match b {
            Some(b) => seq![a, b],
            None => seq![a],
        }),
{
    let (s, e) = p;
    let ghost piece = chars@.subrange(s as int, e as int);
    match b {
        Some(b) => {
            if e - s == 2 && chars[s] == a && chars[s + 1] == b {
                proof {
                    assert(piece =~= seq![a, b]);
                }
                true
            } else {
                proof {
                    assert(piece.len() == e - s);
                    if piece == seq![a, b] {
                        assert(piece[0] == a && piece[1] == b);
                        assert(piece[0] == chars@[s as int]);
                        assert(piece[1] == chars@[s + 1]);
                    }
                }
                false
            }
        },
        None => {
            if e - s == 1 && chars[s] == a {
                proof {
                    assert(piece =~= seq![a]);
                }
                true
            } else {
                proof {
                    assert(piece.len() == e - s);
                    if piece == seq![a] {
                        assert(piece[0] == a);
                        assert(piece[0] == chars@[s as int]);
                    }
                }
                false
            }
        },
    }
}

/// The tag that the parameters `chars[from..to]` denote, if any.
pub fn parse_code_params(chars: &Vec<char>, from: usize, to: usize) -> (r: Option<AnsiTag>)
    requires
        from <= to <= chars@.len(),
    ensures
        r == code_tag(chars@.subrange(from as int, to as int)),
{
    let ghost code = chars@.subrange(from as int, to as int);
    let parts = split_spans(chars, from, to, ';');
    let ghost sp = split_semicolons(code);
    if parts.len() > 1 {
        if parts.len() == 3 {
            proof {
                let k0: int = 0;
                let k1: int = 1;
                let k2: int = 2;
                assert(parts@[k0].0 <= parts@[k0].1 <= to);
                assert(parts@[k1].0 <= parts@[k1].1 <= to);
                assert(parts@[k2].0 <= parts@[k2].1 <= to);
            }
            let p2 = parse_u8_range(chars, parts[2].0, parts[2].1);
            if piece_is(chars, parts[1], '5', None) && p2.is_some() {
                let n = p2.unwrap();
                if piece_is(chars, parts[0], '3', Some('8')) {
                    Some(AnsiTag::Fg256(n))
                } else if piece_is(chars, parts[0], '4', Some('8')) {
                    Some(AnsiTag::Bg256(n))
                } else {
                    None
                }
            } else {
                None
            }
        } else if parts.len() == 5 {
            proof {
                assert(parts@[0].0 <= parts@[0].1 <= to);
                assert(parts@[1].0 <= parts@[1].1 <= to);
                assert(parts@[2].0 <= parts@[2].1 <= to);
                assert(parts@[3].0 <= parts@[3].1 <= to);
                assert(parts@[4].0 <= parts@[4].1 <= to);
            }
            let pr = parse_u8_range(chars, parts[2].0, parts[2].1);
            let pg = parse_u8_range(chars, parts[3].0, parts[3].1);
            let pb = parse_u8_range(chars, parts[4].0, parts[4].1);
            if piece_is(chars, parts[1], '2', None) && pr.is_some() && pg.is_some()
                && pb.is_some() {
                let r = pr.unwrap();
                let g = pg.unwrap();
                let b = pb.unwrap();
                if piece_is(chars, parts[0], '3', Some('8')) {
                    Some(AnsiTag::FgTrueColor(r, g, b))
                } else if piece_is(chars, parts[0], '4', Some('8')) {
                    Some(AnsiTag::BgTrueColor(r, g, b))
                } else {
                    None
                }
            } else {
                None
            }
        } else {
            None
        }
    } else {
        match parse_u8_range(chars, from, to) {
            Some(n) => match AnsiTag::from_u8(n) {
                Some(t) => {
                    proof {
                        let c = choose|t: AnsiTag| sgr_number(t) == Some(n);
                        lemma_sgr_number_injective(t, c);
                    }
                    Some(t)
                },
                None => None,
            },
            None => None,
        }
    }
}

/// Bounds of the look-ahead for the end character.
pub proof fn lemma_find_end_bounds(inp: Seq<char>, p: int, budget: int)
    requires
        0 <= p <= inp.len(),
    ensures
        p <= find_end(inp, p, budget).0 <= inp.len(),
        find_end(inp, p, budget).1 matches Some(e) ==> p <= e < inp.len() && find_end(
            inp,
            p,
            budget,
        ).0 == e + 1 && inp[e] == ANSI_END,
    decreases budget,
{
    if budget > 0 && p < inp.len() && inp[p] != ANSI_END {
        lemma_find_end_bounds(inp, p + 1, budget - 1);
    }
}

/// Parsing a code consumes at least the character looked at and stays inside the input.
pub proof fn lemma_parse_code_bounds(inp: Seq<char>, p: int)
    requires
        0 < p <= inp.len(),
    ensures
        p <= parse_code_at(inp, p).0 <= inp.len(),
        parse_code_at(inp, p).1 matches Some((end, t)) ==> end == parse_code_at(inp, p).0
            && p + 2 <= end,
{
    if p < inp.len() && inp[p] == ANSI_START2 {
        lemma_find_end_bounds(inp, p + 1, 17);
    }
}

/// A scan that hands out an event moves the start of the text forward, and keeps the
/// parser's positions in order.
pub proof fn lemma_scan_progress(inp: Seq<char>, start: int, pos: int)
    requires
        0 <= start <= pos <= inp.len(),
    ensures
        ({
            let (st, ev) = scan(inp, start, pos);
            &&& 0 <= st.start <= st.pos <= inp.len()
            &&& ev is Some ==> st.start > start
            &&& st.tag is Some ==> ev matches Some(EventView::Text(_))
        }),
    decreases inp.len() - pos,
{
    if pos < inp.len() {
        if inp[pos] == ANSI_START {
            lemma_parse_code_bounds(inp, pos + 1);
            let (q, r) = parse_code_at(inp, pos + 1);
            if r is None {
                lemma_scan_progress(inp, start, q);
            }
        } else {
            lemma_scan_progress(inp, start, pos + 1);
        }
    }
}

/// A scan that finds no event has used up the input.
pub proof fn lemma_scan_ends(inp: Seq<char>, start: int, pos: int)
    requires
        0 <= start <= pos <= inp.len(),
    ensures
        scan(inp, start, pos).1 is None ==> scan(inp, start, pos).0 == (ParserState {
            start: inp.len() as int,
            pos: inp.len() as int,
            tag: None,
        }),
    decreases inp.len() - pos,
{
    if pos < inp.len() {
        if inp[pos] == ANSI_START {
            lemma_parse_code_bounds(inp, pos + 1);
            let (q, r) = parse_code_at(inp, pos + 1);
            if r is None {
                lemma_scan_ends(inp, start, q);
            }
        } else {
            lemma_scan_ends(inp, start, pos + 1);
        }
    }
}

/// Once the parser hands out no event, it hands out none any more.
pub proof fn lemma_step_ends(inp: Seq<char>, st: ParserState)
    requires
        0 <= st.start <= st.pos <= inp.len(),
        parser_step(inp, st).1 is None,
    ensures
        remaining_events(inp, parser_step(inp, st).0) == Seq::<EventView>::empty(),
{
    lemma_scan_ends(inp, st.start, st.pos);
    let end = ParserState { start: inp.len() as int, pos: inp.len() as int, tag: None };
    assert(inp.subrange(inp.len() as int, inp.len() as int).len() == 0);
    assert(parser_step(inp, end).1 is None);
}

/// Each event handed out makes the parser's measure of remaining work smaller.
pub proof fn lemma_step_progress(inp: Seq<char>, st: ParserState)
    requires
        0 <= st.start <= st.pos <= inp.len(),
    ensures
        ({
            let (st2, ev) = parser_step(inp, st);
            &&& 0 <= st2.start <= st2.pos <= inp.len()
            &&& ev is Some ==> 2 * (inp.len() - st2.start) + (if st2.tag is Some {
                1int
            } else {
                0int
            }) < 2 * (inp.len() - st.start) + (if st.tag is Some {
                1int
            } else {
                0int
            })
        }),
{
    if st.tag is None {
        lemma_scan_progress(inp, st.start, st.pos);
    }
}

/// The events that the parser hands out from a state on, one step after the other, until
/// it hands out none.
pub open spec fn remaining_events(inp: Seq<char>, st: ParserState) -> Seq<EventView>
    decreases 2 * (inp.len() - st.start) + (if st.tag is Some {
        1int
    } else {
        0int
    }),
    when 0 <= st.start <= st.pos <= inp.len()
{
    let (st2, ev) = parser_step(inp, st);
    match ev {
        None => seq![],
        Some(e) => {
            proof {
                lemma_step_progress(inp, st);
            }
            seq![e] + remaining_events(inp, st2)
        },
    }
}

/// An event handed out by the parser.
pub enum AnsiEvent<'a> {
    Text(&'a str),
    Tag(AnsiTag),
}

/// The abstract view of an event.
pub open spec fn event_view(e: Option<AnsiEvent>) -> Option<EventView> {
    match e {
        Some(AnsiEvent::Text(s)) => Some(EventView::Text(s@)),
        Some(AnsiEvent::Tag(t)) => Some(EventView::Tag(t)),
        None => None,
    }
}

/// Splits a text with escape codes into stretches of text and tags.
pub struct AnsiParser<'a> {
    input: &'a str,
    chars: Vec<char>,
    start: usize,
    pos: usize,
    tag: Option<AnsiTag>,
}

impl<'a> AnsiParser<'a> {
    /// The text being parsed.
    pub closed spec fn input(&self) -> Seq<char> {
        self.input@
    }

    /// Where the parser stands.
    pub closed spec fn state(&self) -> ParserState {
        ParserState { start: self.start as int, pos: self.pos as int, tag: self.tag }
    }

    /// The parser's fields agree with each other.
    pub closed spec fn wf(&self) -> bool {
        &&& self.chars@ == self.input@
        &&& self.start <= self.pos <= self.chars@.len()
    }

    /// A parser at the start of `input`.
    pub fn new(input: &'a str) -> (p: Self)
        ensures
            p.wf(),
            p.input() == input@,
            p.state() == (ParserState { start: 0, pos: 0, tag: None }),
    {
        let chars = crate::text::chars_of(input);
        AnsiParser { input, chars, start: 0, pos: 0, tag: None }
    }

    /// A parser that also keeps the style that the tags set, starting from the plain style
    /// and from where this parser stands.
    pub fn with_style(self) -> (p: AnsiParserWithStyle<'a>)
        ensures
            self.wf() ==> p.wf(),
            p.input() == self.input(),
            p.state() == self.state(),
            p.style() == crate::style::plain_style(),
    {
        AnsiParserWithStyle { parser: self, style: Style::new() }
    }

    /// Looks for the end character from `p` on, within 17 characters.
    fn find_ansi_end(&self, p: usize) -> (r: (usize, Option<usize>))
        requires
            self.wf(),
            p <= self.chars@.len(),
        ensures
            (r.0 as int, match r.1 {
                Some(e) => Some(e as int),
                None => None,
            }) == find_end(self.input(), p as int, 17),
    {
        let n = self.chars.len();
        let mut k = p;
        let mut budget: usize = 17;
        while budget > 0 && k < n
            invariant
                self.wf(),
                n == self.chars@.len(),
                p <= k <= n,
                budget <= 17,
                find_end(self.input(), p as int, 17) == find_end(
                    self.input(),
                    k as int,
                    budget as int,
                ),
            decreases budget,
        {
            if self.chars[k] == ANSI_END {
                return (k + 1, Some(k));
            }
            k = k + 1;
            budget = budget - 1;
        }
        (k, None)
    }

    /// Parses an escape code whose escape character stood just before `p`.
    fn parse_ansi_code(&self, p: usize) -> (r: (usize, Option<(usize, AnsiTag)>))
        requires
            self.wf(),
            0 < p <= self.chars@.len(),
        ensures
            (r.0 as int, match r.1 {
                Some((e, t)) => Some((e as int, t)),
                None => None,
            }) == parse_code_at(self.input(), p as int),
    {
        let n = self.chars.len();
        if p >= n {
            return (p, None);
        }
        if self.chars[p] != ANSI_START2 {
            return (p + 1, None);
        }
        let (q, end) = self.find_ansi_end(p + 1);
        proof {
            lemma_find_end_bounds(self.input(), p + 1, 17);
        }
        match end {
            Some(e) => match parse_code_params(&self.chars, p + 1, e) {
                Some(t) => (q, Some((e + 1, t))),
                None => (q, None),
            },
            None => (q, None),
        }
    }

    /// The next event: a stretch of text or a tag; `None` once the input is used up.
    pub fn next(&mut self) -> (r: Option<AnsiEvent<'a>>)
        requires
            old(self).wf(),
        ensures
            final(self).wf(),
            final(self).input() == old(self).input(),
            (final(self).state(), event_view(r)) == parser_step(old(self).input(), old(self).state()),
    {
        if let Some(tag) = self.tag {
            self.tag = None;
            return Some(AnsiEvent::Tag(tag));
        }
        let n = self.chars.len();
        let ghost inp = self.input();
        let ghost target = scan(inp, self.start as int, self.pos as int);
        assert(parser_step(old(self).input(), old(self).state()) == target);
        while self.pos < n
            invariant
                self.wf(),
                self.input() == inp,
                n == inp.len(),
                self.tag is None,
                self.start == old(self).start,
                self.input == old(self).input,
                target == scan(inp, self.start as int, self.pos as int),
                parser_step(old(self).input(), old(self).state()) == target,
            decreases n - self.pos,
        {
            let i = self.pos;
            let c = self.chars[i];
            self.pos = i + 1;
            if c == ANSI_START {
                let (q, r) = self.parse_ansi_code(i + 1);
                proof {
                    lemma_parse_code_bounds(inp, i + 1);
                }
                self.pos = q;
                match r {
                    Some((end, tag)) => {
                        proof {
                            assert(parse_code_at(inp, i + 1) == (q as int, Some((end as int, tag))));
                            assert(inp[i as int] == ANSI_START);
                        }
                        let input: &'a str = self.input;
                        if self.start < i {
                            let text = input.substring_char(self.start, i);
                            self.tag = Some(tag);
                            self.start = end;
                            proof {
                                assert(target.1 == Some(EventView::Text(text@)));
                                assert(target.0 == self.state());
                            }
                            return Some(AnsiEvent::Text(text));
                        } else {
                            self.start = end;
                            proof {
                                assert(target.1 == Some(EventView::Tag(tag)));
                                assert(target.0 == self.state());
                            }
                            return Some(AnsiEvent::Tag(tag));
                        }
                    },
                    None => {},
                }
            }
        }
        let input: &'a str = self.input;
        let rest = input.substring_char(self.start, n);
        self.start = n;
        self.pos = n;
        if rest.unicode_len() == 0 {
            None
        } else {
            Some(AnsiEvent::Text(rest))
        }
    }

    /// Every remaining event, in order.
    pub fn collect_events(&mut self) -> (r: Vec<AnsiEvent<'a>>)
        requires
            old(self).wf(),
        ensures
            final(self).wf(),
            final(self).input() == old(self).input(),
            r@.map_values(|e: AnsiEvent<'a>| event_view(Some(e)).unwrap()) == remaining_events(
                old(self).input(),
                old(self).state(),
            ),
            remaining_events(final(self).input(), final(self).state()) == Seq::<EventView>::empty(),
    {
        let mut r: Vec<AnsiEvent<'a>> = Vec::new();
        proof {
            assert(r@.map_values(|e: AnsiEvent<'a>| event_view(Some(e)).unwrap()) =~= Seq::<
                EventView,
            >::empty());
        }
        loop
            invariant
                self.wf(),
                self.input() == old(self).input(),
                r@.map_values(|e: AnsiEvent<'a>| event_view(Some(e)).unwrap()) + remaining_events(
                    self.input(),
                    self.state(),
                ) == remaining_events(old(self).input(), old(self).state()),
            ensures
                remaining_events(self.input(), self.state()) == Seq::<EventView>::empty(),
            decreases 2 * (self.chars@.len() - self.start) + (if self.tag is Some {
                1int
            } else {
                0int
            }),
        {
            let ghost before = self.state();
            let ghost r0 = r@;
            match self.next() {
                Some(e) => {
                    proof {
                        lemma_step_progress(self.input(), before);
                    }
                    r.push(e);
                    proof {
                        let f = |e: AnsiEvent<'a>| event_view(Some(e)).unwrap();
                        assert(r@.map_values(f) =~= r0.map_values(f).push(f(e)));
                        assert(remaining_events(self.input(), before) == seq![f(e)]
                            + remaining_events(self.input(), self.state()));
                        assert(r0.map_values(f) + remaining_events(self.input(), before) =~= r@.map_values(f)
                            + remaining_events(self.input(), self.state()));
                    }
                },
                None => {
                    proof {
                        lemma_step_ends(self.input(), before);
                    }
                    break;
                },
            }
        }
        r
    }
}

/// Digit characters are digits and denote their value.
pub proof fn lemma_digit_char(k: nat)
    requires
        k < 10,
    ensures
        is_digit(digit_char(k as int)),
        digit_value(digit_char(k as int)) == k,
{
}

/// The decimal representation of a number is made of digits, starts with a digit, and
/// denotes the number.
pub proof fn lemma_decimal_digits(n: nat)
    ensures
        decimal(n).len() >= 1,
        all_digits(decimal(n)),
        digits_value(decimal(n)) == n,
        n < 10 ==> decimal(n).len() == 1,
        n < 100 ==> decimal(n).len() <= 2,
        n < 1000 ==> decimal(n).len() <= 3,
    decreases n,
{
    lemma_digit_char(n % 10);
    if n < 10 {
        assert(decimal(n).drop_last() =~= Seq::<char>::empty());
        assert(digits_value(Seq::<char>::empty()) == 0);
        assert(digits_value(decimal(n)) == 10 * digits_value(decimal(n).drop_last()) + digit_value(
            decimal(n).last(),
        ));
    } else {
        lemma_decimal_digits(n / 10);
        let d = decimal(n);
        assert(d.last() == digit_char((n % 10) as int));
        assert(digits_value(d) == 10 * digits_value(d.drop_last()) + digit_value(d.last()));
        assert(n == 10 * (n / 10) + n % 10);
        assert(d.drop_last() =~= decimal(n / 10));
        assert forall|i: int| 0 <= i < d.len() implies is_digit(#[trigger] d[i]) by {
            if i < d.len() - 1 {
                assert(d[i] == decimal(n / 10)[i]);
            }
        }
    }
}

/// Reading back the decimal representation of a byte gives the byte.
pub proof fn lemma_parse_u8_decimal(n: u8)
    ensures
        parse_u8(decimal(n as nat)) == Some(n),
{
    lemma_decimal_digits(n as nat);
    let d = decimal(n as nat);
    assert(is_digit(d[0]));
}

/// Splitting text without semicolons gives the text itself.
pub proof fn lemma_split_no_semicolon(s: Seq<char>)
    requires
        forall|i: int| 0 <= i < s.len() ==> s[i] != ';',
    ensures
        split_semicolons(s) == seq![s],
    decreases s.len(),
{
    if s.len() > 0 {
        assert forall|i: int| 0 <= i < s.drop_last().len() implies s.drop_last()[i] != ';' by {
            assert(s.drop_last()[i] == s[i]);
        }
        lemma_split_no_semicolon(s.drop_last());
        assert(s.last() != ';');
        assert(s.drop_last().push(s.last()) =~= s);
        assert(split_semicolons(s) =~= seq![s]);
    } else {
        assert(s =~= Seq::<char>::empty());
    }
}

/// Splitting always gives at least one piece.
pub proof fn lemma_split_nonempty(s: Seq<char>)
    ensures
        split_semicolons(s).len() >= 1,
    decreases s.len(),
{
    if s.len() > 0 {
        lemma_split_nonempty(s.drop_last());
    }
}

/// Splitting text joined by a semicolon gives the pieces of both sides.
pub proof fn lemma_split_join(a: Seq<char>, b: Seq<char>)
    ensures
        split_semicolons(a + seq![';'] + b) == split_semicolons(a) + split_semicolons(b),
    decreases b.len(),
{
    lemma_split_nonempty(a);
    lemma_split_nonempty(b);
    let j = a + seq![';'] + b;
    if b.len() == 0 {
        assert(j.drop_last() =~= a);
        assert(split_semicolons(b) =~= seq![Seq::<char>::empty()]);
        assert(split_semicolons(a).push(Seq::empty()) =~= split_semicolons(a) + split_semicolons(b));
    } else {
        lemma_split_join(a, b.drop_last());
        assert(j.drop_last() =~= a + seq![';'] + b.drop_last());
        assert(j.last() == b.last());
        lemma_split_nonempty(b.drop_last());
        if b.last() == ';' {
            assert(split_semicolons(j) =~= split_semicolons(a) + split_semicolons(b));
        } else {
            let pa = split_semicolons(a);
            let pb = split_semicolons(b.drop_last());
            assert((pa + pb).last() == pb.last());
            assert(split_semicolons(j) =~= split_semicolons(a) + split_semicolons(b));
        }
    }
}

/// Decimal text holds no semicolon and no end character.
pub proof fn lemma_decimal_plain(n: nat)
    ensures
        forall|i: int|
            0 <= i < decimal(n).len() ==> #[trigger] decimal(n)[i] != ';' && decimal(n)[i]
                != ANSI_END && decimal(n)[i] != ANSI_START,
{
    lemma_decimal_digits(n);
    assert forall|i: int| 0 <= i < decimal(n).len() implies #[trigger] decimal(n)[i] != ';'
        && decimal(n)[i] != ANSI_END && decimal(n)[i] != ANSI_START by {
        assert(is_digit(decimal(n)[i]));
    }
}

/// Looking ahead finds the first end character when it lies within reach.
pub proof fn lemma_find_end_found(inp: Seq<char>, p: int, e: int, budget: int)
    requires
        0 <= p <= e < inp.len(),
        e - p < budget,
        inp[e] == ANSI_END,
        forall|i: int| p <= i < e ==> inp[i] != ANSI_END,
    ensures
        find_end(inp, p, budget) == (e + 1, Some(e)),
    decreases e - p,
{
    if p < e {
        lemma_find_end_found(inp, p + 1, e, budget - 1);
    }
}

/// The parameters of a 256-palette color are read back as that color.
proof fn lemma_params_roundtrip_indexed(t: AnsiTag)
    requires
        t is Fg256 || t is Bg256,
    ensures
        code_tag(tag_params(t)) == Some(t),
        tag_params(t).len() <= 16,
        forall|i: int| 0 <= i < tag_params(t).len() ==> #[trigger] tag_params(t)[i] != ANSI_END
            && tag_params(t)[i] != ANSI_START,
{
    let n = match t {
        AnsiTag::Fg256(n) => n,
        AnsiTag::Bg256(n) => n,
        _ => 0,
    };
    lemma_decimal_plain(n as nat);
    lemma_decimal_digits(n as nat);
    lemma_parse_u8_decimal(n);
    let head = if t is Fg256 { seq!['3', '8'] } else { seq!['4', '8'] };
    let p = tag_params(t);
    assert(p =~= head + seq![';'] + (seq!['5'] + seq![';'] + decimal(n as nat)));
    lemma_split_join(head, seq!['5'] + seq![';'] + decimal(n as nat));
    lemma_split_join(seq!['5'], decimal(n as nat));
    lemma_split_no_semicolon(head);
    lemma_split_no_semicolon(seq!['5']);
    lemma_split_no_semicolon(decimal(n as nat));
    let parts = split_semicolons(p);
    assert(parts =~= seq![head, seq!['5'], decimal(n as nat)]);
    assert forall|i: int| 0 <= i < p.len() implies #[trigger] p[i] != ANSI_END && p[i]
        != ANSI_START by {
        if i >= 5 {
            assert(p[i] == decimal(n as nat)[i - 5]);
        }
    }
}

/// The pieces of a true color's parameters.
proof fn lemma_true_color_parts(head: Seq<char>, r: u8, g: u8, b: u8)
    requires
        head == seq!['3', '8'] || head == seq!['4', '8'],
    ensures
        ({
            let p = head + seq![';', '2', ';'] + decimal(r as nat) + seq![';'] + decimal(g as nat)
                + seq![';'] + decimal(b as nat);
            split_semicolons(p) == seq![head, seq!['2'], decimal(r as nat), decimal(g as nat), decimal(b as nat)]
        }),
{
    let dr = decimal(r as nat);
    let dg = decimal(g as nat);
    let db = decimal(b as nat);
    lemma_decimal_plain(r as nat);
    lemma_decimal_plain(g as nat);
    lemma_decimal_plain(b as nat);
    let p = head + seq![';', '2', ';'] + dr + seq![';'] + dg + seq![';'] + db;
    let tail3 = dg + seq![';'] + db;
    let tail2 = dr + seq![';'] + tail3;
    let tail1 = seq!['2'] + seq![';'] + tail2;
    assert(p =~= head + seq![';'] + tail1);
    lemma_split_join(head, tail1);
    lemma_split_join(seq!['2'], tail2);
    lemma_split_join(dr, tail3);
    lemma_split_join(dg, db);
    lemma_split_no_semicolon(head);
    lemma_split_no_semicolon(seq!['2']);
    lemma_split_no_semicolon(dr);
    lemma_split_no_semicolon(dg);
    lemma_split_no_semicolon(db);
    assert(split_semicolons(p) =~= seq![head, seq!['2'], dr, dg, db]);
}

/// The parameters of a true color are read back as that color.
proof fn lemma_params_roundtrip_true_color(t: AnsiTag)
    requires
        t is FgTrueColor || t is BgTrueColor,
    ensures
        code_tag(tag_params(t)) == Some(t),
        tag_params(t).len() <= 16,
        forall|i: int| 0 <= i < tag_params(t).len() ==> #[trigger] tag_params(t)[i] != ANSI_END
            && tag_params(t)[i] != ANSI_START,
{
    let (r, g, b) = match t {
        AnsiTag::FgTrueColor(r, g, b) => (r, g, b),
        AnsiTag::BgTrueColor(r, g, b) => (r, g, b),
        _ => (0u8, 0u8, 0u8),
    };
    lemma_decimal_plain(r as nat);
    lemma_decimal_plain(g as nat);
    lemma_decimal_plain(b as nat);
    lemma_decimal_digits(r as nat);
    lemma_decimal_digits(g as nat);
    lemma_decimal_digits(b as nat);
    lemma_parse_u8_decimal(r);
    lemma_parse_u8_decimal(g);
    lemma_parse_u8_decimal(b);
    let head = if t is FgTrueColor { seq!['3', '8'] } else { seq!['4', '8'] };
    let dr = decimal(r as nat);
    let dg = decimal(g as nat);
    let db = decimal(b as nat);
    let p = tag_params(t);
    assert(p =~= head + seq![';', '2', ';'] + dr + seq![';'] + dg + seq![';'] + db);
    lemma_true_color_parts(head, r, g, b);
    assert forall|i: int| 0 <= i < p.len() implies #[trigger] p[i] != ANSI_END && p[i]
        != ANSI_START by {
        if 5 <= i < 5 + dr.len() {
            assert(p[i] == dr[i - 5]);
        } else if 6 + dr.len() <= i < 6 + dr.len() + dg.len() {
            assert(p[i] == dg[i - 6 - dr.len()]);
        } else if 7 + dr.len() + dg.len() <= i {
            assert(p[i] == db[i - 7 - dr.len() - dg.len()]);
        }
    }
}

/// The parameters of every tag are read back as that tag, are at most 16 characters
/// long, and hold no end character.
pub proof fn lemma_params_roundtrip(t: AnsiTag)
    ensures
        code_tag(tag_params(t)) == Some(t),
        tag_params(t).len() <= 16,
        forall|i: int| 0 <= i < tag_params(t).len() ==> #[trigger] tag_params(t)[i] != ANSI_END
            && tag_params(t)[i] != ANSI_START,
{
    if t is Fg256 || t is Bg256 {
        lemma_params_roundtrip_indexed(t);
    } else if t is FgTrueColor || t is BgTrueColor {
        lemma_params_roundtrip_true_color(t);
    } else {
        lemma_sgr_number_total(t);
        let n = sgr_number(t).unwrap();
        lemma_decimal_plain(n as nat);
        lemma_decimal_digits(n as nat);
        lemma_parse_u8_decimal(n);
        lemma_split_no_semicolon(decimal(n as nat));
        let c = choose|x: AnsiTag| sgr_number(x) == Some(n);
        lemma_sgr_number_injective(t, c);
    }
}

/// Parsing the escape code of a tag gives back exactly that tag, and then nothing more.
pub proof fn law_code_roundtrip(t: AnsiTag)
    ensures
        scan(tag_code(t), 0, 0) == (
            ParserState {
                start: tag_code(t).len() as int,
                pos: tag_code(t).len() as int,
                tag: None,
            },
            Some(EventView::Tag(t)),
        ),
        scan(tag_code(t), tag_code(t).len() as int, tag_code(t).len() as int).1 is None,
{
    let code = tag_code(t);
    let p = tag_params(t);
    lemma_params_roundtrip(t);
    let e: int = p.len() as int + 2;
    assert(code[e] == ANSI_END);
    assert forall|i: int| 2 <= i < e implies code[i] != ANSI_END by {
        assert(code[i] == p[i - 2]);
    }
    lemma_find_end_found(code, 2, e, 17);
    assert(code.subrange(2, e) =~= p);
    assert(code.subrange(code.len() as int, code.len() as int) =~= Seq::<char>::empty());
}

/// Scanning skips over text that holds no escape character.
pub proof fn lemma_scan_skips_plain(inp: Seq<char>, start: int, pos: int, stop: int)
    requires
        0 <= start <= pos <= stop <= inp.len(),
        forall|i: int| pos <= i < stop ==> inp[i] != ANSI_START,
    ensures
        scan(inp, start, pos) == scan(inp, start, stop),
    decreases stop - pos,
{
    if pos < stop {
        lemma_scan_skips_plain(inp, start, pos + 1, stop);
    }
}

/// A text without escape characters followed by a tag's escape code is parsed as that
/// text, then that tag.
pub proof fn law_text_then_code(x: Seq<char>, t: AnsiTag)
    requires
        x.len() > 0,
        forall|i: int| 0 <= i < x.len() ==> x[i] != ANSI_START,
    ensures
        ({
            let inp = x + tag_code(t);
            let (st, ev) = scan(inp, 0, 0);
            &&& ev == Some(EventView::Text(x))
            &&& st.tag == Some(t)
            &&& parser_step(inp, st).1 == Some(EventView::Tag(t))
        }),
{
    let code = tag_code(t);
    let inp = x + code;
    let p = tag_params(t);
    lemma_params_roundtrip(t);
    assert forall|i: int| 0 <= i < x.len() implies inp[i] != ANSI_START by {
        assert(inp[i] == x[i]);
    }
    lemma_scan_skips_plain(inp, 0, 0, x.len() as int);
    let e: int = x.len() as int + p.len() as int + 2;
    let xs: int = x.len() as int;
    assert(inp[e] == ANSI_END);
    assert forall|i: int| x.len() + 2 <= i < e implies inp[i] != ANSI_END by {
        assert(inp[i] == p[i - x.len() - 2]);
    }
    lemma_find_end_found(inp, xs + 2, e, 17);
    assert(inp.subrange(xs + 2, e) =~= p);
    assert(inp.subrange(0, x.len() as int) =~= x);
}

/// A tag's escape code that stands at position `k` of a text is read there as that tag,
/// and reading goes on right after it.
pub proof fn lemma_code_at(inp: Seq<char>, k: int, t: AnsiTag)
    requires
        0 <= k,
        k + tag_code(t).len() <= inp.len(),
        inp.subrange(k, k + tag_code(t).len()) == tag_code(t),
    ensures
        inp[k] == ANSI_START,
        parse_code_at(inp, k + 1) == (
            k + tag_code(t).len(),
            Some((k + tag_code(t).len(), t)),
        ),
{
    let code = tag_code(t);
    let p = tag_params(t);
    lemma_params_roundtrip(t);
    assert(inp[k] == code[0]);
    assert(inp[k + 1] == code[1]);
    let e: int = k + p.len() + 2;
    assert(inp[e] == code[p.len() as int + 2]);
    assert forall|i: int| k + 2 <= i < e implies inp[i] != ANSI_END by {
        assert(inp[i] == code[i - k]);
        assert(code[i - k] == p[i - k - 2]);
    }
    lemma_find_end_found(inp, k + 2, e, 17);
    assert forall|i: int| 0 <= i < p.len() implies inp.subrange(k + 2, e)[i] == p[i] by {
        assert(inp[k + 2 + i] == code[i + 2]);
    }
    assert(inp.subrange(k + 2, e) =~= p);
}

/// Scanning from `pos` over text without escape characters up to the end gives the text
/// from `start`, if any, and then nothing.
proof fn lemma_scan_to_end(inp: Seq<char>, start: int, pos: int)
    requires
        0 <= start <= pos <= inp.len(),
        forall|i: int| pos <= i < inp.len() ==> inp[i] != ANSI_START,
    ensures
        remaining_events(inp, ParserState { start, pos, tag: None }) == (if start < inp.len() {
            seq![EventView::Text(inp.subrange(start, inp.len() as int))]
        } else {
            Seq::<EventView>::empty()
        }),
{
    let st = ParserState { start, pos, tag: None };
    lemma_scan_skips_plain(inp, start, pos, inp.len() as int);
    lemma_step_progress(inp, st);
    let end = ParserState { start: inp.len() as int, pos: inp.len() as int, tag: None };
    assert(inp.subrange(inp.len() as int, inp.len() as int).len() == 0);
    assert(remaining_events(inp, end) == Seq::<EventView>::empty());
    if start < inp.len() {
        assert(seq![EventView::Text(inp.subrange(start, inp.len() as int))] + Seq::<
            EventView,
        >::empty() =~= seq![EventView::Text(inp.subrange(start, inp.len() as int))]);
    }
}

/// A tag's escape code between two texts without escape characters is parsed back into
/// the pieces: the first text if there is one, the tag, and the second text if there is
/// one.
pub proof fn law_text_code_text(a: Seq<char>, t: AnsiTag, b: Seq<char>)
    requires
        forall|i: int| 0 <= i < a.len() ==> a[i] != ANSI_START,
        forall|i: int| 0 <= i < b.len() ==> b[i] != ANSI_START,
    ensures
        remaining_events(a + tag_code(t) + b, ParserState { start: 0, pos: 0, tag: None }) == (if a.len()
            > 0 {
            seq![EventView::Text(a)]
        } else {
            Seq::<EventView>::empty()
        }) + seq![EventView::Tag(t)] + (if b.len() > 0 {
            seq![EventView::Text(b)]
        } else {
            Seq::<EventView>::empty()
        }),
{
    let code = tag_code(t);
    let inp = a + code + b;
    let k = a.len() as int;
    let m = k + code.len();
    assert(inp.subrange(k, m) =~= code);
    lemma_code_at(inp, k, t);
    assert forall|i: int| 0 <= i < k implies inp[i] != ANSI_START by {
        assert(inp[i] == a[i]);
    }
    assert forall|i: int| m <= i < inp.len() implies inp[i] != ANSI_START by {
        assert(inp[i] == b[i - m]);
    }
    let st0 = ParserState { start: 0, pos: 0, tag: None };
    lemma_scan_skips_plain(inp, 0, 0, k);
    let after = ParserState { start: m, pos: m, tag: None };
    lemma_scan_to_end(inp, m, m);
    assert(inp.subrange(m, inp.len() as int) =~= b);
    let tail = if b.len() > 0 {
        seq![EventView::Text(b)]
    } else {
        Seq::<EventView>::empty()
    };
    assert(remaining_events(inp, after) == tail);
    lemma_step_progress(inp, st0);
    if k > 0 {
        assert(inp.subrange(0, k) =~= a);
        let mid = ParserState { start: m, pos: m, tag: Some(t) };
        assert(parser_step(inp, st0) == (mid, Some(EventView::Text(a))));
        lemma_step_progress(inp, mid);
        assert(parser_step(inp, mid) == (after, Some(EventView::Tag(t))));
        assert(remaining_events(inp, mid) == seq![EventView::Tag(t)] + tail);
        assert(remaining_events(inp, st0) =~= seq![EventView::Text(a)] + seq![EventView::Tag(t)]
            + tail);
    } else {
        assert(parser_step(inp, st0) == (after, Some(EventView::Tag(t))));
        assert(remaining_events(inp, st0) =~= Seq::<EventView>::empty() + seq![EventView::Tag(t)]
            + tail);
    }
}

/// The foreground tag for a color.
pub open spec fn fg_tag(color: Color) -> AnsiTag {
    match color {
        Color::Reset => AnsiTag::FgDefault,
        Color::Black => AnsiTag::FgBlack,
        Color::Red => AnsiTag::FgRed,
        Color::Green => AnsiTag::FgGreen,
        Color::Yellow => AnsiTag::FgYellow,
        Color::Blue => AnsiTag::FgBlue,
        Color::Magenta => AnsiTag::FgMagenta,
        Color::Cyan => AnsiTag::FgCyan,
        Color::Gray => AnsiTag::FgWhite,
        Color::DarkGray => AnsiTag::FgBrightBlack,
        Color::LightRed => AnsiTag::FgBrightRed,
        Color::LightGreen => AnsiTag::FgBrightGreen,
        Color::LightYellow => AnsiTag::FgBrightYellow,
        Color::LightBlue => AnsiTag::FgBrightBlue,
        Color::LightMagenta => AnsiTag::FgBrightMagenta,
        Color::LightCyan => AnsiTag::FgBrightCyan,
        Color::White => AnsiTag::FgBrightWhite,
        Color::Rgb(r, g, b) => AnsiTag::FgTrueColor(r, g, b),
        Color::Indexed(n) => AnsiTag::Fg256(n),
    }
}

/// The foreground color that a tag sets, if it sets one.
pub open spec fn tag_fg(t: AnsiTag) -> Option<Color> {
    match t {
        AnsiTag::FgBlack => Some(Color::Black),
        AnsiTag::FgRed => Some(Color::Red),
        AnsiTag::FgGreen => Some(Color::Green),
        AnsiTag::FgYellow => Some(Color::Yellow),
        AnsiTag::FgBlue => Some(Color::Blue),
        AnsiTag::FgMagenta => Some(Color::Magenta),
        AnsiTag::FgCyan => Some(Color::Cyan),
        AnsiTag::FgWhite => Some(Color::Gray),
        AnsiTag::FgBrightBlack => Some(Color::DarkGray),
        AnsiTag::FgBrightRed => Some(Color::LightRed),
        AnsiTag::FgBrightGreen => Some(Color::LightGreen),
        AnsiTag::FgBrightYellow => Some(Color::LightYellow),
        AnsiTag::FgBrightBlue => Some(Color::LightBlue),
        AnsiTag::FgBrightMagenta => Some(Color::LightMagenta),
        AnsiTag::FgBrightCyan => Some(Color::LightCyan),
        AnsiTag::FgBrightWhite => Some(Color::White),
        AnsiTag::FgDefault => Some(Color::Reset),
        AnsiTag::Fg256(i) => Some(Color::Indexed(i)),
        AnsiTag::FgTrueColor(r, g, b) => Some(Color::Rgb(r, g, b)),
        _ => None,
    }
}

/// The background color that a tag sets, if it sets one.
pub open spec fn tag_bg(t: AnsiTag) -> Option<Color> {
    match t {
        AnsiTag::BgBlack => Some(Color::Black),
        AnsiTag::BgRed => Some(Color::Red),
        AnsiTag::BgGreen => Some(Color::Green),
        AnsiTag::BgYellow => Some(Color::Yellow),
        AnsiTag::BgBlue => Some(Color::Blue),
        AnsiTag::BgMagenta => Some(Color::Magenta),
        AnsiTag::BgCyan => Some(Color::Cyan),
        AnsiTag::BgWhite => Some(Color::Gray),
        AnsiTag::BgBrightBlack => Some(Color::DarkGray),
        AnsiTag::BgBrightRed => Some(Color::LightRed),
        AnsiTag::BgBrightGreen => Some(Color::LightGreen),
        AnsiTag::BgBrightYellow => Some(Color::LightYellow),
        AnsiTag::BgBrightBlue => Some(Color::LightBlue),
        AnsiTag::BgBrightMagenta => Some(Color::LightMagenta),
        AnsiTag::BgBrightCyan => Some(Color::LightCyan),
        AnsiTag::BgBrightWhite => Some(Color::White),
        AnsiTag::BgDefault => Some(Color::Reset),
        AnsiTag::Bg256(i) => Some(Color::Indexed(i)),
        AnsiTag::BgTrueColor(r, g, b) => Some(Color::Rgb(r, g, b)),
        _ => None,
    }
}

/// The attribute bits that a tag switches on.
pub open spec fn tag_on(t: AnsiTag) -> u16 {
    match t {
        AnsiTag::Bold => BOLD,
        AnsiTag::Faint => DIM,
        AnsiTag::Italic => ITALIC,
        AnsiTag::Underline => UNDERLINED,
        AnsiTag::SlowBlink => SLOW_BLINK,
        AnsiTag::RapidBlink => RAPID_BLINK,
        AnsiTag::Reverse => REVERSED,
        AnsiTag::Conceal => HIDDEN,
        AnsiTag::CrossedOut => CROSSED_OUT,
        _ => 0,
    }
}

/// The attribute bits that a tag switches off.
pub open spec fn tag_off(t: AnsiTag) -> u16 {
    match t {
        AnsiTag::NotBold => BOLD,
        AnsiTag::NotItalic => ITALIC,
        AnsiTag::NotUnderline => UNDERLINED,
        AnsiTag::NotBlink => SLOW_BLINK | RAPID_BLINK,
        AnsiTag::NotReverse => REVERSED,
        AnsiTag::Reveal => HIDDEN,
        AnsiTag::NotCrossedOut => CROSSED_OUT,
        _ => 0,
    }
}

/// The style after a tag is applied: a reset gives the plain style, a color tag sets
/// that color, and an attribute tag adds or removes its attribute.
pub open spec fn styled(style: Style, t: AnsiTag) -> Style {
    if t == AnsiTag::Reset {
        crate::style::plain_style()
    } else if tag_fg(t) is Some {
        Style { fg: tag_fg(t), ..style }
    } else if tag_bg(t) is Some {
        Style { bg: tag_bg(t), ..style }
    } else if tag_on(t) != 0 {
        Style { add_modifier: style.add_modifier | tag_on(t), ..style }
    } else {
        Style { add_modifier: style.add_modifier & !tag_off(t), ..style }
    }
}

/// The style after every tag of `tags` is applied in order.
pub open spec fn styled_all(style: Style, tags: Seq<AnsiTag>) -> Style
    decreases tags.len(),
{
    if tags.len() == 0 {
        style
    } else {
        styled(styled_all(style, tags.drop_last()), tags.last())
    }
}

/// The parser's measure of remaining work.
pub open spec fn parser_measure(inp: Seq<char>, st: ParserState) -> int {
    2 * (inp.len() - st.start) + (if st.tag is Some {
        1int
    } else {
        0int
    })
}

/// Steps the parser until it hands out a text (with the style reached by then) or runs out,
/// applying every tag to the style on the way.
pub open spec fn styled_next(inp: Seq<char>, st: ParserState, style: Style) -> (
    ParserState,
    Style,
    Option<(Seq<char>, Style)>,
)
    decreases parser_measure(inp, st),
{
    let (st2, ev) = parser_step(inp, st);
    match ev {
        None => (st2, style, None),
        Some(EventView::Text(x)) => (st2, style, Some((x, style))),
        Some(EventView::Tag(t)) => if 0 <= st2.start <= inp.len() && parser_measure(inp, st2)
            < parser_measure(inp, st) {
            styled_next(inp, st2, styled(style, t))
        } else {
            (st2, styled(style, t), None)
        },
    }
}

/// A parser that hands out stretches of text together with the style that the tags before
/// them set.
pub struct AnsiParserWithStyle<'a> {
    parser: AnsiParser<'a>,
    style: Style,
}

impl<'a> AnsiParserWithStyle<'a> {
    /// The parser's fields agree with each other.
    pub closed spec fn wf(&self) -> bool {
        self.parser.wf()
    }

    /// The text being parsed.
    pub closed spec fn input(&self) -> Seq<char> {
        self.parser.input()
    }

    /// Where the parser stands.
    pub closed spec fn state(&self) -> ParserState {
        self.parser.state()
    }

    /// The style reached so far.
    pub closed spec fn style(&self) -> Style {
        self.style
    }

    /// A styled parser at the start of `input`, with the plain style.
    pub fn new(input: &'a str) -> (p: Self)
        ensures
            p.wf(),
            p.input() == input@,
            p.state() == (ParserState { start: 0, pos: 0, tag: None }),
            p.style() == crate::style::plain_style(),
    {
        AnsiParserWithStyle { parser: AnsiParser::new(input), style: Style::new() }
    }

    /// Goes on with another input, keeping the style reached so far.
    pub fn continue_with(&mut self, input: &'a str)
        ensures
            final(self).wf(),
            final(self).input() == input@,
            final(self).state() == (ParserState { start: 0, pos: 0, tag: None }),
            final(self).style() == old(self).style(),
    {
        self.parser = AnsiParser::new(input);
    }

    /// The next stretch of text and its style; `None` once the input is used up.
    pub fn next(&mut self) -> (r: Option<(&'a str, Style)>)
        requires
            old(self).wf(),
        ensures
            final(self).wf(),
            final(self).input() == old(self).input(),
            ({
                let (st, style, out) = styled_next(old(self).input(), old(self).state(), old(self).style());
                &&& final(self).state() == st
                &&& final(self).style() == style
                &&& match (r, out) {
                    (Some((s, a)), Some((x, b))) => s@ == x && a == b,
                    (None, None) => true,
                    _ => false,
                }
            }),
    {
        let ghost inp = self.input();
        loop
            invariant
                self.wf(),
                self.input() == inp,
                inp == old(self).input(),
                styled_next(inp, self.state(), self.style) == styled_next(
                    inp,
                    old(self).state(),
                    old(self).style(),
                ),
            decreases parser_measure(inp, self.state()),
        {
            let ghost before = self.state();
            proof {
                lemma_step_progress(inp, before);
            }
            match self.parser.next() {
                Some(AnsiEvent::Text(s)) => {
                    return Some((s, self.style));
                },
                Some(AnsiEvent::Tag(t)) => {
                    t.apply_to_style(&mut self.style);
                },
                None => {
                    return None;
                },
            }
        }
    }
}

/// A tag that switches an attribute on adds exactly that attribute and leaves the others
/// and the colors as they were: bold adds bold, faint adds dim and leaves bold alone,
/// italic adds italic, and so on for underline, both blinks, reverse, conceal and
/// crossed-out.
pub proof fn law_on_tags_add_their_attribute(style: Style)
    ensures
        styled(style, AnsiTag::Bold).add_modifier == style.add_modifier | 1u16,
        styled(style, AnsiTag::Faint).add_modifier == style.add_modifier | 2u16,
        styled(style, AnsiTag::Faint).add_modifier & 1u16 == style.add_modifier & 1u16,
        styled(style, AnsiTag::Italic).add_modifier == style.add_modifier | 4u16,
        styled(style, AnsiTag::Underline).add_modifier == style.add_modifier | 8u16,
        styled(style, AnsiTag::SlowBlink).add_modifier == style.add_modifier | 16u16,
        styled(style, AnsiTag::RapidBlink).add_modifier == style.add_modifier | 32u16,
        styled(style, AnsiTag::Reverse).add_modifier == style.add_modifier | 64u16,
        styled(style, AnsiTag::Conceal).add_modifier == style.add_modifier | 128u16,
        styled(style, AnsiTag::CrossedOut).add_modifier == style.add_modifier | 256u16,
        styled(style, AnsiTag::Faint).fg == style.fg,
        styled(style, AnsiTag::Faint).bg == style.bg,
        styled(style, AnsiTag::Bold).add_modifier & 2u16 == style.add_modifier & 2u16,
{
    let m = style.add_modifier;
    assert((m | 2u16) & 1u16 == m & 1u16) by (bit_vector);
    assert((m | 1u16) & 2u16 == m & 2u16) by (bit_vector);
}

/// A tag that switches an attribute off removes exactly that attribute and leaves the
/// others and the colors as they were: not-bold removes bold, not-blink removes both
/// blinks, and so on for italic, underline, reverse, conceal and crossed-out.
pub proof fn law_off_tags_remove_their_attribute(style: Style)
    ensures
        styled(style, AnsiTag::NotBold).add_modifier == style.add_modifier & !1u16,
        styled(style, AnsiTag::NotItalic).add_modifier == style.add_modifier & !4u16,
        styled(style, AnsiTag::NotUnderline).add_modifier == style.add_modifier & !8u16,
        styled(style, AnsiTag::NotBlink).add_modifier == style.add_modifier & !48u16,
        styled(style, AnsiTag::NotReverse).add_modifier == style.add_modifier & !64u16,
        styled(style, AnsiTag::Reveal).add_modifier == style.add_modifier & !128u16,
        styled(style, AnsiTag::NotCrossedOut).add_modifier == style.add_modifier & !256u16,
        styled(style, AnsiTag::NotBold).fg == style.fg,
        styled(style, AnsiTag::NotBold).bg == style.bg,
{
    assert(16u16 | 32u16 == 48u16) by (bit_vector);
}

/// A tag that switches an attribute off undoes the tag that switched it on: after bold
/// and then not-bold, the text is not bold; the same holds for italic, underline,
/// reverse, conceal and crossed-out.
pub proof fn law_off_undoes_on(style: Style)
    ensures
        styled(styled(style, AnsiTag::Bold), AnsiTag::NotBold).add_modifier & BOLD == 0,
        styled(styled(style, AnsiTag::Italic), AnsiTag::NotItalic).add_modifier & ITALIC == 0,
        styled(styled(style, AnsiTag::Underline), AnsiTag::NotUnderline).add_modifier & UNDERLINED
            == 0,
        styled(styled(style, AnsiTag::Reverse), AnsiTag::NotReverse).add_modifier & REVERSED == 0,
        styled(styled(style, AnsiTag::Conceal), AnsiTag::Reveal).add_modifier & HIDDEN == 0,
        styled(styled(style, AnsiTag::CrossedOut), AnsiTag::NotCrossedOut).add_modifier
            & CROSSED_OUT == 0,
        styled(style, AnsiTag::Reset) == crate::style::plain_style(),
{
    let m = style.add_modifier;
    assert(((m | 1u16) & !1u16) & 1u16 == 0) by (bit_vector);
    assert(((m | 4u16) & !4u16) & 4u16 == 0) by (bit_vector);
    assert(((m | 8u16) & !8u16) & 8u16 == 0) by (bit_vector);
    assert(((m | 64u16) & !64u16) & 64u16 == 0) by (bit_vector);
    assert(((m | 128u16) & !128u16) & 128u16 == 0) by (bit_vector);
    assert(((m | 256u16) & !256u16) & 256u16 == 0) by (bit_vector);
}

/// A color tag sets exactly that color and leaves the rest of the style alone.
pub proof fn law_color_tag_sets_color(style: Style, c: Color)
    ensures
        forall|t: AnsiTag|
            tag_fg(t) == Some(c) ==> #[trigger] styled(style, t) == (Style { fg: Some(c), ..style }),
        forall|t: AnsiTag|
            tag_bg(t) == Some(c) ==> #[trigger] styled(style, t) == (Style { bg: Some(c), ..style }),
{
}

/// Replaces some spaces of `text` with line breaks so that lines fit in `width` columns.
pub uninterp spec fn wrapped_text(text: Seq<char>, width: usize) -> Seq<char>;

/// Wraps the text in place.
///
/// Calls `textwrap::fill_inplace`. Its source only overwrites bytes that hold a space with a
/// line break, so the text keeps its length and every other character; which spaces become
/// line breaks is named `wrapped_text` and depends on the text and the width alone.
#[verifier::external_body]
pub(crate) fn fill_inplace(text: &mut String, width: usize)
    ensures
        final(text)@ == wrapped_text(old(text)@, width),
        final(text)@.len() == old(text)@.len(),
        forall|i: int|
            0 <= i < old(text)@.len() ==> #[trigger] final(text)@[i] == old(text)@[i] || (old(
                text,
            )@[i] == ' ' && final(text)@[i] == '\n'),
{
    textwrap::fill_inplace(text, width)
}

/// Inserts a string slice at a byte position.
///
/// Calls `String::insert_str`, which the standard library documents as inserting the slice
/// at that byte position; it panics when the position is not on a character boundary, which
/// `requires` rules out.
#[verifier::external_body]
fn insert_str_at_byte(s: &mut String, idx: usize, t: &str)
    requires
        idx <= encode_utf8(old(s)@).len(),
        vstd::utf8::is_char_boundary(encode_utf8(old(s)@), idx as int),
    ensures
        encode_utf8(final(s)@) == encode_utf8(old(s)@).subrange(0, idx as int) + encode_utf8(t@)
            + encode_utf8(old(s)@).subrange(idx as int, encode_utf8(old(s)@).len() as int),
{
    s.insert_str(idx, t)
}

/// A text buffer for writing text with escape codes.
pub struct AnsiWriter {
    inner: String,
}

impl View for AnsiWriter {
    type V = Seq<char>;

    closed spec fn view(&self) -> Seq<char> {
        self.inner@
    }
}

impl AnsiWriter {
    /// An empty writer.
    pub fn new() -> (w: Self)
        ensures
            w@ == Seq::<char>::empty(),
    {
        AnsiWriter { inner: String::new() }
    }

    /// Length in bytes.
    pub fn len(&self) -> (n: usize)
        ensures
            n == encode_utf8(self@).len(),
    {
        crate::text::byte_len(self.inner.as_str())
    }

    /// The text written so far.
    pub fn as_str(&self) -> (s: &str)
        ensures
            s@ == self@,
    {
        self.inner.as_str()
    }

    /// True when nothing is written.
    pub fn is_empty(&self) -> (b: bool)
        ensures
            b <==> self@.len() == 0,
    {
        self.inner.as_str().is_empty()
    }

    /// The underlying string.
    pub fn inner(&self) -> (s: &String)
        ensures
            s@ == self@,
    {
        &self.inner
    }

    /// The underlying string, for changing it in place.
    pub fn inner_mut(&mut self) -> (s: &mut String)
        ensures
            s@ == old(self)@,
            final(self)@ == final(s)@,
    {
        &mut self.inner
    }

    /// The text between two byte positions, which must lie on character boundaries.
    pub fn slice(&self, range: std::ops::Range<usize>) -> (s: &str)
        requires
            range.start <= range.end <= encode_utf8(self@).len(),
            vstd::utf8::is_char_boundary(encode_utf8(self@), range.start as int),
            vstd::utf8::is_char_boundary(encode_utf8(self@), range.end as int),
        ensures
            encode_utf8(s@) == encode_utf8(self@).subrange(range.start as int, range.end as int),
    {
        let whole = self.inner.as_str();
        let (_, tail) = whole.split_at(range.start);
        proof {
            vstd::utf8::encode_utf8_valid_utf8(self@);
            crate::text::lemma_boundary_in_tail(
                encode_utf8(self@),
                range.start as int,
                range.end as int,
            );
        }
        let (mid, _) = tail.split_at(range.end - range.start);
        proof {
            assert(encode_utf8(mid@) =~= encode_utf8(self@).subrange(
                range.start as int,
                range.end as int,
            ));
        }
        mid
    }

    /// Appends a character.
    pub fn push_char(&mut self, c: char)
        ensures
            final(self)@ == old(self)@.push(c),
    {
        push_char(&mut self.inner, c);
    }

    /// Appends a string slice.
    pub fn push_str(&mut self, s: &str)
        ensures
            final(self)@ == old(self)@ + s@,
    {
        crate::text::push_str(&mut self.inner, s);
    }

    /// Appends formatted text.
    pub fn push_fmt(&mut self, args: std::fmt::Arguments<'_>)
        ensures
            final(self)@.len() >= old(self)@.len(),
            final(self)@.subrange(0, old(self)@.len() as int) == old(self)@,
    {
        crate::formatting::write_args(&mut self.inner, args);
    }

    /// Appends a tag's escape code.
    pub fn push_tag(&mut self, tag: AnsiTag)
        ensures
            final(self)@ == old(self)@ + tag_code(tag),
    {
        tag.write_code(&mut self.inner);
    }

    /// Inserts a string slice at a byte position on a character boundary.
    pub fn insert_str(&mut self, i: usize, s: &str)
        requires
            i <= encode_utf8(old(self)@).len(),
            vstd::utf8::is_char_boundary(encode_utf8(old(self)@), i as int),
        ensures
            encode_utf8(final(self)@) == encode_utf8(old(self)@).subrange(0, i as int)
                + encode_utf8(s@) + encode_utf8(old(self)@).subrange(
                i as int,
                encode_utf8(old(self)@).len() as int,
            ),
    {
        insert_str_at_byte(&mut self.inner, i, s);
    }

    /// Inserts a character at a byte position on a character boundary.
    pub fn insert_char(&mut self, i: usize, ch: char)
        requires
            i <= encode_utf8(old(self)@).len(),
            vstd::utf8::is_char_boundary(encode_utf8(old(self)@), i as int),
        ensures
            encode_utf8(final(self)@) == encode_utf8(old(self)@).subrange(0, i as int)
                + encode_utf8(seq![ch]) + encode_utf8(old(self)@).subrange(
                i as int,
                encode_utf8(old(self)@).len() as int,
            ),
    {
        let mut one = String::new();
        push_char(&mut one, ch);
        insert_str_at_byte(&mut self.inner, i, one.as_str());
    }

    /// Inserts the escape code of a tag at a byte position on a character boundary.
    pub fn insert_tag(&mut self, i: usize, tag: AnsiTag)
        requires
            i <= encode_utf8(old(self)@).len(),
            vstd::utf8::is_char_boundary(encode_utf8(old(self)@), i as int),
        ensures
            encode_utf8(final(self)@) == encode_utf8(old(self)@).subrange(0, i as int)
                + encode_utf8(tag_code(tag)) + encode_utf8(old(self)@).subrange(
                i as int,
                encode_utf8(old(self)@).len() as int,
            ),
    {
        let code = tag.to_string();
        insert_str_at_byte(&mut self.inner, i, code.as_str());
    }

    /// Appends the pieces one after the other.
    pub fn extend(&mut self, pieces: &[&str])
        ensures
            final(self)@ == old(self)@ + crate::formatting::concat_all(
                pieces@.map_values(|p: &str| p@),
            ),
    {
        let ghost views = pieces@.map_values(|p: &str| p@);
        let mut i: usize = 0;
        while i < pieces.len()
            invariant
                i <= pieces@.len(),
                views == pieces@.map_values(|p: &str| p@),
                self@ == old(self)@ + crate::formatting::concat_all(views.take(i as int)),
            decreases pieces@.len() - i,
        {
            crate::text::push_str(&mut self.inner, pieces[i]);
            proof {
                assert(views.take(i + 1).drop_last() =~= views.take(i as int));
                assert(self@ =~= old(self)@ + crate::formatting::concat_all(views.take(i + 1)));
            }
            i = i + 1;
        }
        proof {
            assert(views.take(pieces@.len() as int) =~= views);
        }
    }

    /// Breaks the text into lines of at most `width` columns, by turning spaces into line
    /// breaks.
    pub fn textwrap(&mut self, width: u16)
        ensures
            final(self)@ == wrapped_text(old(self)@, width as usize),
            final(self)@.len() == old(self)@.len(),
            forall|i: int|
                0 <= i < old(self)@.len() ==> #[trigger] final(self)@[i] == old(self)@[i] || (
                old(self)@[i] == ' ' && final(self)@[i] == '\n'),
    {
        fill_inplace(&mut self.inner, width as usize);
    }

    /// Empties the writer.
    pub fn clear(&mut self)
        ensures
            final(self)@ == Seq::<char>::empty(),
    {
        crate::text::string_clear(&mut self.inner);
    }
}

impl AnsiTag {
    /// The tag whose SGR number is `value`, if there is one.
    pub fn from_u8(value: u8) -> (r: Option<Self>)
        ensures
            r matches Some(t) ==> sgr_number(t) == Some(value),
            r is None ==> forall|t: AnsiTag| sgr_number(t) != Some(value),
    {
        match value {
            0 => Some(AnsiTag::Reset),
            1 => Some(AnsiTag::Bold),
            2 => Some(AnsiTag::Faint),
            3 => Some(AnsiTag::Italic),
            4 => Some(AnsiTag::Underline),
            5 => Some(AnsiTag::SlowBlink),
            6 => Some(AnsiTag::RapidBlink),
            7 => Some(AnsiTag::Reverse),
            8 => Some(AnsiTag::Conceal),
            9 => Some(AnsiTag::CrossedOut),
            22 => Some(AnsiTag::NotBold),
            23 => Some(AnsiTag::NotItalic),
            24 => Some(AnsiTag::NotUnderline),
            25 => Some(AnsiTag::NotBlink),
            27 => Some(AnsiTag::NotReverse),
            28 => Some(AnsiTag::Reveal),
            29 => Some(AnsiTag::NotCrossedOut),
            30 => Some(AnsiTag::FgBlack),
            31 => Some(AnsiTag::FgRed),
            32 => Some(AnsiTag::FgGreen),
            33 => Some(AnsiTag::FgYellow),
            34 => Some(AnsiTag::FgBlue),
            35 => Some(AnsiTag::FgMagenta),
            36 => Some(AnsiTag::FgCyan),
            37 => Some(AnsiTag::FgWhite),
            39 => Some(AnsiTag::FgDefault),
            40 => Some(AnsiTag::BgBlack),
            41 => Some(AnsiTag::BgRed),
            42 => Some(AnsiTag::BgGreen),
            43 => Some(AnsiTag::BgYellow),
            44 => Some(AnsiTag::BgBlue),
            45 => Some(AnsiTag::BgMagenta),
            46 => Some(AnsiTag::BgCyan),
            47 => Some(AnsiTag::BgWhite),
            49 => Some(AnsiTag::BgDefault),
            90 => Some(AnsiTag::FgBrightBlack),
            91 => Some(AnsiTag::FgBrightRed),
            92 => Some(AnsiTag::FgBrightGreen),
            93 => Some(AnsiTag::FgBrightYellow),
            94 => Some(AnsiTag::FgBrightBlue),
            95 => Some(AnsiTag::FgBrightMagenta),
            96 => Some(AnsiTag::FgBrightCyan),
            97 => Some(AnsiTag::FgBrightWhite),
            100 => Some(AnsiTag::BgBrightBlack),
            101 => Some(AnsiTag::BgBrightRed),
            102 => Some(AnsiTag::BgBrightGreen),
            103 => Some(AnsiTag::BgBrightYellow),
            104 => Some(AnsiTag::BgBrightBlue),
            105 => Some(AnsiTag::BgBrightMagenta),
            106 => Some(AnsiTag::BgBrightCyan),
            107 => Some(AnsiTag::BgBrightWhite),
            _ => None,
        }
    }

    /// The SGR number of the tag, where it has one.
    pub fn number(self) -> (r: Option<u8>)
        ensures
            r == sgr_number(self),
    {
        match self {
            AnsiTag::Reset => Some(0),
            AnsiTag::Bold => Some(1),
            AnsiTag::Faint => Some(2),
            AnsiTag::Italic => Some(3),
            AnsiTag::Underline => Some(4),
            AnsiTag::SlowBlink => Some(5),
            AnsiTag::RapidBlink => Some(6),
            AnsiTag::Reverse => Some(7),
            AnsiTag::Conceal => Some(8),
            AnsiTag::CrossedOut => Some(9),
            AnsiTag::NotBold => Some(22),
            AnsiTag::NotItalic => Some(23),
            AnsiTag::NotUnderline => Some(24),
            AnsiTag::NotBlink => Some(25),
            AnsiTag::NotReverse => Some(27),
            AnsiTag::Reveal => Some(28),
            AnsiTag::NotCrossedOut => Some(29),
            AnsiTag::FgBlack => Some(30),
            AnsiTag::FgRed => Some(31),
            AnsiTag::FgGreen => Some(32),
            AnsiTag::FgYellow => Some(33),
            AnsiTag::FgBlue => Some(34),
            AnsiTag::FgMagenta => Some(35),
            AnsiTag::FgCyan => Some(36),
            AnsiTag::FgWhite => Some(37),
            AnsiTag::FgDefault => Some(39),
            AnsiTag::BgBlack => Some(40),
            AnsiTag::BgRed => Some(41),
            AnsiTag::BgGreen => Some(42),
            AnsiTag::BgYellow => Some(43),
            AnsiTag::BgBlue => Some(44),
            AnsiTag::BgMagenta => Some(45),
            AnsiTag::BgCyan => Some(46),
            AnsiTag::BgWhite => Some(47),
            AnsiTag::BgDefault => Some(49),
            AnsiTag::FgBrightBlack => Some(90),
            AnsiTag::FgBrightRed => Some(91),
            AnsiTag::FgBrightGreen => Some(92),
            AnsiTag::FgBrightYellow => Some(93),
            AnsiTag::FgBrightBlue => Some(94),
            AnsiTag::FgBrightMagenta => Some(95),
            AnsiTag::FgBrightCyan => Some(96),
            AnsiTag::FgBrightWhite => Some(97),
            AnsiTag::BgBrightBlack => Some(100),
            AnsiTag::BgBrightRed => Some(101),
            AnsiTag::BgBrightGreen => Some(102),
            AnsiTag::BgBrightYellow => Some(103),
            AnsiTag::BgBrightBlue => Some(104),
            AnsiTag::BgBrightMagenta => Some(105),
            AnsiTag::BgBrightCyan => Some(106),
            AnsiTag::BgBrightWhite => Some(107),
            _ => None,
        }
    }

    /// Appends the tag's escape code.
    pub fn write_code(self, s: &mut String)
        ensures
            final(s)@ == old(s)@ + tag_code(self),
    {
        push_char(s, ANSI_START);
        push_char(s, ANSI_START2);
        let ghost mid = s@;
        match self {
            AnsiTag::Fg256(n) => {
                push_char(s, '3');
                push_char(s, '8');
                push_char(s, ';');
                push_char(s, '5');
                push_char(s, ';');
                push_decimal(s, n as u64);
            },
            AnsiTag::Bg256(n) => {
                push_char(s, '4');
                push_char(s, '8');
                push_char(s, ';');
                push_char(s, '5');
                push_char(s, ';');
                push_decimal(s, n as u64);
            },
            AnsiTag::FgTrueColor(r, g, b) => {
                push_char(s, '3');
                push_char(s, '8');
                push_char(s, ';');
                push_char(s, '2');
                push_char(s, ';');
                push_decimal(s, r as u64);
                push_char(s, ';');
                push_decimal(s, g as u64);
                push_char(s, ';');
                push_decimal(s, b as u64);
            },
            AnsiTag::BgTrueColor(r, g, b) => {
                push_char(s, '4');
                push_char(s, '8');
                push_char(s, ';');
                push_char(s, '2');
                push_char(s, ';');
                push_decimal(s, r as u64);
                push_char(s, ';');
                push_decimal(s, g as u64);
                push_char(s, ';');
                push_decimal(s, b as u64);
            },
            _ => {
                let n = match self.number() {
                    Some(n) => n,
                    None => {
                        proof {
                            lemma_sgr_number_total(self);
                        }
                        0
                    },
                };
                proof {
                    lemma_sgr_number_total(self);
                }
                push_decimal(s, n as u64);
            },
        }
        proof {
            assert(s@ =~= mid + tag_params(self));
        }
        push_char(s, ANSI_END);
        proof {
            assert(s@ =~= old(s)@ + tag_code(self));
        }
    }

    /// The foreground tag for a color.
    pub fn from_color_fg(color: Color) -> (t: Self)
        ensures
            tag_fg(t) == Some(color),
            t == fg_tag(color),
    {
        match color {
            Color::Reset => AnsiTag::FgDefault,
            Color::Black => AnsiTag::FgBlack,
            Color::Red => AnsiTag::FgRed,
            Color::Green => AnsiTag::FgGreen,
            Color::Yellow => AnsiTag::FgYellow,
            Color::Blue => AnsiTag::FgBlue,
            Color::Magenta => AnsiTag::FgMagenta,
            Color::Cyan => AnsiTag::FgCyan,
            Color::Gray => AnsiTag::FgWhite,
            Color::DarkGray => AnsiTag::FgBrightBlack,
            Color::LightRed => AnsiTag::FgBrightRed,
            Color::LightGreen => AnsiTag::FgBrightGreen,
            Color::LightYellow => AnsiTag::FgBrightYellow,
            Color::LightBlue => AnsiTag::FgBrightBlue,
            Color::LightMagenta => AnsiTag::FgBrightMagenta,
            Color::LightCyan => AnsiTag::FgBrightCyan,
            Color::White => AnsiTag::FgBrightWhite,
            Color::Rgb(r, g, b) => AnsiTag::FgTrueColor(r, g, b),
            Color::Indexed(n) => AnsiTag::Fg256(n),
        }
    }

    /// The background tag for a color.
    pub fn from_color_bg(color: Color) -> (t: Self)
        ensures
            tag_bg(t) == Some(color),
    {
        match color {
            Color::Reset => AnsiTag::BgDefault,
            Color::Black => AnsiTag::BgBlack,
            Color::Red => AnsiTag::BgRed,
            Color::Green => AnsiTag::BgGreen,
            Color::Yellow => AnsiTag::BgYellow,
            Color::Blue => AnsiTag::BgBlue,
            Color::Magenta => AnsiTag::BgMagenta,
            Color::Cyan => AnsiTag::BgCyan,
            Color::Gray => AnsiTag::BgWhite,
            Color::DarkGray => AnsiTag::BgBrightBlack,
            Color::LightRed => AnsiTag::BgBrightRed,
            Color::LightGreen => AnsiTag::BgBrightGreen,
            Color::LightYellow => AnsiTag::BgBrightYellow,
            Color::LightBlue => AnsiTag::BgBrightBlue,
            Color::LightMagenta => AnsiTag::BgBrightMagenta,
            Color::LightCyan => AnsiTag::BgBrightCyan,
            Color::White => AnsiTag::BgBrightWhite,
            Color::Rgb(r, g, b) => AnsiTag::BgTrueColor(r, g, b),
            Color::Indexed(n) => AnsiTag::Bg256(n),
        }
    }

    /// The foreground color the tag sets, if any.
    pub fn fg_color(self) -> (c: Option<Color>)
        ensures
            c == tag_fg(self),
    {
        match self {
            AnsiTag::FgBlack => Some(Color::Black),
            AnsiTag::FgRed => Some(Color::Red),
            AnsiTag::FgGreen => Some(Color::Green),
            AnsiTag::FgYellow => Some(Color::Yellow),
            AnsiTag::FgBlue => Some(Color::Blue),
            AnsiTag::FgMagenta => Some(Color::Magenta),
            AnsiTag::FgCyan => Some(Color::Cyan),
            AnsiTag::FgWhite => Some(Color::Gray),
            AnsiTag::FgBrightBlack => Some(Color::DarkGray),
            AnsiTag::FgBrightRed => Some(Color::LightRed),
            AnsiTag::FgBrightGreen => Some(Color::LightGreen),
            AnsiTag::FgBrightYellow => Some(Color::LightYellow),
            AnsiTag::FgBrightBlue => Some(Color::LightBlue),
            AnsiTag::FgBrightMagenta => Some(Color::LightMagenta),
            AnsiTag::FgBrightCyan => Some(Color::LightCyan),
            AnsiTag::FgBrightWhite => Some(Color::White),
            AnsiTag::FgDefault => Some(Color::Reset),
            AnsiTag::Fg256(i) => Some(Color::Indexed(i)),
            AnsiTag::FgTrueColor(r, g, b) => Some(Color::Rgb(r, g, b)),
            _ => None,
        }
    }

    /// The background color the tag sets, if any.
    pub fn bg_color(self) -> (c: Option<Color>)
        ensures
            c == tag_bg(self),
    {
        match self {
            AnsiTag::BgBlack => Some(Color::Black),
            AnsiTag::BgRed => Some(Color::Red),
            AnsiTag::BgGreen => Some(Color::Green),
            AnsiTag::BgYellow => Some(Color::Yellow),
            AnsiTag::BgBlue => Some(Color::Blue),
            AnsiTag::BgMagenta => Some(Color::Magenta),
            AnsiTag::BgCyan => Some(Color::Cyan),
            AnsiTag::BgWhite => Some(Color::Gray),
            AnsiTag::BgBrightBlack => Some(Color::DarkGray),
            AnsiTag::BgBrightRed => Some(Color::LightRed),
            AnsiTag::BgBrightGreen => Some(Color::LightGreen),
            AnsiTag::BgBrightYellow => Some(Color::LightYellow),
            AnsiTag::BgBrightBlue => Some(Color::LightBlue),
            AnsiTag::BgBrightMagenta => Some(Color::LightMagenta),
            AnsiTag::BgBrightCyan => Some(Color::LightCyan),
            AnsiTag::BgBrightWhite => Some(Color::White),
            AnsiTag::BgDefault => Some(Color::Reset),
            AnsiTag::Bg256(i) => Some(Color::Indexed(i)),
            AnsiTag::BgTrueColor(r, g, b) => Some(Color::Rgb(r, g, b)),
            _ => None,
        }
    }

    /// The attribute bits the tag switches on.
    pub fn on_bits(self) -> (b: u16)
        ensures
            b == tag_on(self),
    {
        match self {
            AnsiTag::Bold => BOLD,
            AnsiTag::Faint => DIM,
            AnsiTag::Italic => ITALIC,
            AnsiTag::Underline => UNDERLINED,
            AnsiTag::SlowBlink => SLOW_BLINK,
            AnsiTag::RapidBlink => RAPID_BLINK,
            AnsiTag::Reverse => REVERSED,
            AnsiTag::Conceal => HIDDEN,
            AnsiTag::CrossedOut => CROSSED_OUT,
            _ => 0,
        }
    }

    /// The attribute bits the tag switches off.
    pub fn off_bits(self) -> (b: u16)
        ensures
            b == tag_off(self),
    {
        match self {
            AnsiTag::NotBold => BOLD,
            AnsiTag::NotItalic => ITALIC,
            AnsiTag::NotUnderline => UNDERLINED,
            AnsiTag::NotBlink => SLOW_BLINK | RAPID_BLINK,
            AnsiTag::NotReverse => REVERSED,
            AnsiTag::Reveal => HIDDEN,
            AnsiTag::NotCrossedOut => CROSSED_OUT,
            _ => 0,
        }
    }

    /// Applies the tag to a style.
    pub fn apply_to_style(self, style: &mut Style)
        ensures
            *final(style) == styled(*old(style), self),
    {
        if self == AnsiTag::Reset {
            *style = Style::new();
            return;
        }
        match self.fg_color() {
            Some(c) => {
                style.fg = Some(c);
                return;
            },
            None => {},
        }
        match self.bg_color() {
            Some(c) => {
                style.bg = Some(c);
                return;
            },
            None => {},
        }
        let on = self.on_bits();
        if on != 0 {
            style.add_modifier = style.add_modifier | on;
        } else {
            style.add_modifier = style.add_modifier & !self.off_bits();
        }
    }

    /// The plain style with the tag applied.
    pub fn as_style(self) -> (s: Style)
        ensures
            s == styled(crate::style::plain_style(), self),
    {
        let mut style = Style::new();
        self.apply_to_style(&mut style);
        style
    }

    /// The tag's escape code as a string.
    pub fn to_string(self) -> (s: String)
        ensures
            s@ == tag_code(self),
    {
        let mut s = String::new();
        self.write_code(&mut s);
        proof {
            assert(s@ =~= tag_code(self));
        }
        s
    }
}

} // verus!
