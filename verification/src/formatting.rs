use std::ops::Range;
use std::time::Duration;

use vstd::prelude::*;
use vstd::utf8::encode_utf8;

use crate::text::{lemma_encode_concat, lemma_prefix_boundary, push_char, push_str, string_clear, utf8_len};

verus! {

/// The decimal digit for `d`.
pub open spec fn digit_char(d: int) -> char {
    if d == 0 {
        '0'
    } else if d == 1 {
        '1'
    } else if d == 2 {
        '2'
    } else if d == 3 {
        '3'
    } else if d == 4 {
        '4'
    } else if d == 5 {
        '5'
    } else if d == 6 {
        '6'
    } else if d == 7 {
        '7'
    } else if d == 8 {
        '8'
    } else {
        '9'
    }
}

/// The decimal representation of `n`, without leading zeros.
pub open spec fn decimal(n: nat) -> Seq<char>
    decreases n,
{
    if n < 10 {
        seq![digit_char(n as int)]
    } else {
        decimal(n / 10).push(digit_char((n % 10) as int))
    }
}

/// `n` written with two digits, padded with a leading zero.
pub open spec fn two_digits(n: nat) -> Seq<char> {
    seq![digit_char((n / 10) as int), digit_char((n % 10) as int)]
}

/// A duration of `secs` seconds as `mm:ss`; from 100 minutes on it reads `99:99`.
pub open spec fn duration_text(secs: nat) -> Seq<char> {
    let minutes = secs / 60;
    let seconds = secs % 60;
    if minutes < 100 {
        two_digits(minutes) + seq![':'] + two_digits(seconds)
    } else {
        seq!['9', '9', ':', '9', '9']
    }
}

/// The digit character for `d`.
pub fn digit(d: u64) -> (c: char)
    requires
        d < 10,
    ensures
        c == digit_char(d as int),
{
    if d == 0 {
        '0'
    } else if d == 1 {
        '1'
    } else if d == 2 {
        '2'
    } else if d == 3 {
        '3'
    } else if d == 4 {
        '4'
    } else if d == 5 {
        '5'
    } else if d == 6 {
        '6'
    } else if d == 7 {
        '7'
    } else if d == 8 {
        '8'
    } else {
        '9'
    }
}

/// Appends the decimal representation of `n`.
pub fn push_decimal(s: &mut String, n: u64)
    ensures
        final(s)@ == old(s)@ + decimal(n as nat),
    decreases n,
{
    if n < 10 {
        push_char(s, digit(n));
        proof {
            assert(old(s)@.push(digit_char(n as int)) =~= old(s)@ + decimal(n as nat));
        }
    } else {
        push_decimal(s, n / 10);
        push_char(s, digit(n % 10));
        proof {
            assert(final(s)@ =~= old(s)@ + decimal(n as nat));
        }
    }
}

/// Appends the decimal representation of a wide `n`.
fn push_decimal_wide(s: &mut String, n: u128)
    ensures
        final(s)@ == old(s)@ + decimal(n as nat),
    decreases n,
{
    if n < 10 {
        push_char(s, digit(n as u64));
        proof {
            assert(old(s)@.push(digit_char(n as int)) =~= old(s)@ + decimal(n as nat));
        }
    } else {
        push_decimal_wide(s, n / 10);
        push_char(s, digit((n % 10) as u64));
        proof {
            assert(final(s)@ =~= old(s)@ + decimal(n as nat));
        }
    }
}

/// The decimal representation of an integer: a minus sign before the digits of a negative
/// one.
pub open spec fn signed_decimal(v: int) -> Seq<char> {
    if v < 0 {
        seq!['-'] + decimal((-v) as nat)
    } else {
        decimal(v as nat)
    }
}

/// The integer types that can be written in decimal.
pub trait Integer: Copy {
    /// The value of the integer.
    spec fn int_value(self) -> int;

    /// Whether the integer is negative, and its distance from zero.
    fn sign_and_magnitude(self) -> (r: (bool, u128))
        ensures
            r.0 == (self.int_value() < 0),
            r.1 == (if self.int_value() < 0 {
                -self.int_value()
            } else {
                self.int_value()
            }),
    ;
}

impl Integer for u8 {
    open spec fn int_value(self) -> int {
        self as int
    }

    fn sign_and_magnitude(self) -> (r: (bool, u128)) {
        (false, self as u128)
    }
}

impl Integer for u16 {
    open spec fn int_value(self) -> int {
        self as int
    }

    fn sign_and_magnitude(self) -> (r: (bool, u128)) {
        (false, self as u128)
    }
}

impl Integer for u32 {
    open spec fn int_value(self) -> int {
        self as int
    }

    fn sign_and_magnitude(self) -> (r: (bool, u128)) {
        (false, self as u128)
    }
}

impl Integer for u64 {
    open spec fn int_value(self) -> int {
        self as int
    }

    fn sign_and_magnitude(self) -> (r: (bool, u128)) {
        (false, self as u128)
    }
}

impl Integer for u128 {
    open spec fn int_value(self) -> int {
        self as int
    }

    fn sign_and_magnitude(self) -> (r: (bool, u128)) {
        (false, self)
    }
}

impl Integer for usize {
    open spec fn int_value(self) -> int {
        self as int
    }

    fn sign_and_magnitude(self) -> (r: (bool, u128)) {
        (false, self as u128)
    }
}

/// The sign and distance from zero of a wide signed integer.
fn signed_parts(v: i128) -> (r: (bool, u128))
    ensures
        r.0 == (v < 0),
        r.1 == (if v < 0 {
            -v
        } else {
            v as int
        }),
{
    if v < 0 {
        let up: i128 = v + 1;
        let m: i128 = -up;
        (true, m as u128 + 1)
    } else {
        (false, v as u128)
    }
}

impl Integer for i8 {
    open spec fn int_value(self) -> int {
        self as int
    }

    fn sign_and_magnitude(self) -> (r: (bool, u128)) {
        signed_parts(self as i128)
    }
}

impl Integer for i16 {
    open spec fn int_value(self) -> int {
        self as int
    }

    fn sign_and_magnitude(self) -> (r: (bool, u128)) {
        signed_parts(self as i128)
    }
}

impl Integer for i32 {
    open spec fn int_value(self) -> int {
        self as int
    }

    fn sign_and_magnitude(self) -> (r: (bool, u128)) {
        signed_parts(self as i128)
    }
}

impl Integer for i64 {
    open spec fn int_value(self) -> int {
        self as int
    }

    fn sign_and_magnitude(self) -> (r: (bool, u128)) {
        signed_parts(self as i128)
    }
}

impl Integer for i128 {
    open spec fn int_value(self) -> int {
        self as int
    }

    fn sign_and_magnitude(self) -> (r: (bool, u128)) {
        signed_parts(self)
    }
}

impl Integer for isize {
    open spec fn int_value(self) -> int {
        self as int
    }

    fn sign_and_magnitude(self) -> (r: (bool, u128)) {
        signed_parts(self as i128)
    }
}

/// The decimal representation of an integer of any width, signed or not.
pub fn format_int<T: Integer>(i: T) -> (r: String)
    ensures
        r@ == signed_decimal(i.int_value()),
{
    let (negative, magnitude) = i.sign_and_magnitude();
    let mut s = String::new();
    if negative {
        push_char(&mut s, '-');
    }
    push_decimal_wide(&mut s, magnitude);
    proof {
        if !negative {
            assert(s@ =~= decimal(i.int_value() as nat));
        }
    }
    s
}

/// The decimal representations of two integers, in order.
pub fn format_int2<A: Integer, B: Integer>(i1: A, i2: B) -> (r: (String, String))
    ensures
        r.0@ == signed_decimal(i1.int_value()),
        r.1@ == signed_decimal(i2.int_value()),
{
    (format_int(i1), format_int(i2))
}

/// Appends `n` (below 100) with two digits.
fn push_two_digits(s: &mut String, n: u64)
    requires
        n < 100,
    ensures
        final(s)@ == old(s)@ + two_digits(n as nat),
{
    push_char(s, digit(n / 10));
    push_char(s, digit(n % 10));
    proof {
        assert(final(s)@ =~= old(s)@ + two_digits(n as nat));
    }
}

/// The whole number of seconds in a duration, as `Duration::as_secs` gives it.
pub uninterp spec fn whole_seconds(d: Duration) -> u64;

/// Whole seconds of a duration.
///
/// Calls `Duration::as_secs`, which the standard library documents as the number of whole
/// seconds in the duration; the value depends on the duration alone and is named
/// `whole_seconds`.
#[verifier::external_body]
pub(crate) fn duration_secs(d: Duration) -> (s: u64)
    ensures
        s == whole_seconds(d),
{
    d.as_secs()
}

/// Formats `secs` seconds as `mm:ss` and appends it.
pub fn format_seconds_in_place(secs: u64, s: &mut String)
    ensures
        final(s)@ == old(s)@ + duration_text(secs as nat),
{
    let seconds = secs % 60;
    let minutes = (secs - seconds) / 60;
    proof {
        assert(minutes == secs / 60) by (nonlinear_arith)
            requires
                seconds == secs % 60,
                minutes == (secs - seconds) / 60,
        ;
    }
    if minutes < 100 {
        push_two_digits(s, minutes);
        push_char(s, ':');
        push_two_digits(s, seconds);
        proof {
            assert(final(s)@ =~= old(s)@ + duration_text(secs as nat));
        }
    } else {
        push_str(s, "99:99");
        proof {
            reveal_strlit("99:99");
            assert(final(s)@ =~= old(s)@ + duration_text(secs as nat));
        }
    }
}

/// Formats `secs` seconds as `mm:ss`.
pub fn format_seconds(secs: u64) -> (r: String)
    ensures
        r@ == duration_text(secs as nat),
{
    let mut s = String::new();
    format_seconds_in_place(secs, &mut s);
    proof {
        assert(s@ =~= duration_text(secs as nat));
    }
    s
}

/// Formats the duration as `mm:ss`.
pub fn format_duration(duration: Duration) -> (r: String)
    ensures
        r@ == duration_text(whole_seconds(duration) as nat),
{
    let secs = duration_secs(duration);
    format_seconds(secs)
}

/// Formats the duration as `mm:ss` and appends it.
pub fn format_duration_in_place(duration: Duration, s: &mut String)
    ensures
        final(s)@ == old(s)@ + duration_text(whole_seconds(duration) as nat),
{
    let secs = duration_secs(duration);
    format_seconds_in_place(secs, s);
}

/// Formats `secs` seconds as the five characters `mm:ss`.
pub fn format_seconds_on_stack(secs: u64) -> (r: [char; 5])
    ensures
        r@ == duration_text(secs as nat),
{
    let seconds = secs % 60;
    let minutes = (secs - seconds) / 60;
    proof {
        assert(minutes == secs / 60) by (nonlinear_arith)
            requires
                seconds == secs % 60,
                minutes == (secs - seconds) / 60,
        ;
    }
    if minutes < 100 {
        let r = [digit(minutes / 10), digit(minutes % 10), ':', digit(seconds / 10), digit(seconds % 10)];
        proof {
            assert(r@ =~= duration_text(secs as nat));
        }
        r
    } else {
        let r = ['9', '9', ':', '9', '9'];
        proof {
            assert(r@ =~= duration_text(secs as nat));
        }
        r
    }
}

/// Formats the duration as the five characters `mm:ss`.
pub fn format_duration_on_stack(duration: Duration) -> (r: [char; 5])
    ensures
        r@ == duration_text(whole_seconds(duration) as nat),
{
    let secs = duration_secs(duration);
    format_seconds_on_stack(secs)
}

#[verifier::external_type_specification]
#[verifier::external_body]
pub struct ExFmtArguments<'a>(std::fmt::Arguments<'a>);

/// Appends formatted text to a string.
///
/// Calls `fmt::Write::write_fmt` on the string, which the standard library documents as
/// appending the formatted text; writing into a `String` does not fail. What the appended
/// text is goes unsaid here: it comes from the formatting code of the arguments' types.
#[verifier::external_body]
pub(crate) fn write_args(s: &mut String, args: std::fmt::Arguments<'_>)
    ensures
        final(s)@.len() >= old(s)@.len(),
        final(s)@.subrange(0, old(s)@.len() as int) == old(s)@,
{
    let _ = std::fmt::Write::write_fmt(s, args);
}

/// A growing text buffer that hands out the byte range of each piece appended to it.
pub struct Formatter(String);

impl View for Formatter {
    type V = Seq<char>;

    closed spec fn view(&self) -> Seq<char> {
        self.0@
    }
}

impl Formatter {
    /// An empty buffer.
    pub fn new() -> (f: Self)
        ensures
            f@ == Seq::<char>::empty(),
    {
        Formatter(String::new())
    }

    /// Length in bytes.
    pub fn len(&self) -> (n: usize)
        ensures
            n == utf8_len(self@),
    {
        crate::text::byte_len(self.0.as_str())
    }

    /// The whole text.
    pub fn as_str(&self) -> (s: &str)
        ensures
            s@ == self@,
    {
        self.0.as_str()
    }

    /// The text between two byte positions, which must lie on character boundaries.
    pub fn slice(&self, range: Range<usize>) -> (s: &str)
        requires
            range.start <= range.end <= utf8_len(self@),
            vstd::utf8::is_char_boundary(encode_utf8(self@), range.start as int),
            vstd::utf8::is_char_boundary(encode_utf8(self@), range.end as int),
        ensures
            encode_utf8(s@) == encode_utf8(self@).subrange(range.start as int, range.end as int),
    {
        let whole = self.0.as_str();
        let (_, tail) = whole.split_at(range.start);
        proof {
            vstd::utf8::encode_utf8_valid_utf8(self@);
            crate::text::lemma_boundary_in_tail(
                encode_utf8(self@),
                range.start as int,
                range.end as int,
            );
        }
        let (mid, _) = tail.split_at(range.end - range.start);
        proof {
            assert(encode_utf8(mid@) =~= encode_utf8(self@).subrange(range.start as int, range.end as int));
        }
        mid
    }

    /// Appends a string slice and returns the byte range it occupies.
    pub fn push_str(&mut self, s: &str) -> (r: Range<usize>)
        ensures
            final(self)@ == old(self)@ + s@,
            r.start == utf8_len(old(self)@),
            r.end == utf8_len(final(self)@),
            vstd::utf8::is_char_boundary(encode_utf8(final(self)@), r.start as int),
            vstd::utf8::is_char_boundary(encode_utf8(final(self)@), r.end as int),
    {
        let start = crate::text::byte_len(self.0.as_str());
        push_str(&mut self.0, s);
        let end = crate::text::byte_len(self.0.as_str());
        proof {
            lemma_prefix_boundary(old(self)@, s@);
        }
        start..end
    }

    /// Appends two string slices and returns the byte range of each.
    pub fn push_str2(&mut self, s1: &str, s2: &str) -> (r: (Range<usize>, Range<usize>))
        ensures
            final(self)@ == old(self)@ + s1@ + s2@,
            r.0.start == utf8_len(old(self)@),
            r.0.end == utf8_len(old(self)@ + s1@),
            r.1.start == r.0.end,
            r.1.end == utf8_len(final(self)@),
            vstd::utf8::is_char_boundary(encode_utf8(final(self)@), r.0.start as int),
            vstd::utf8::is_char_boundary(encode_utf8(final(self)@), r.0.end as int),
            vstd::utf8::is_char_boundary(encode_utf8(final(self)@), r.1.end as int),
    {
        let start = crate::text::byte_len(self.0.as_str());
        push_str(&mut self.0, s1);
        let middle = crate::text::byte_len(self.0.as_str());
        push_str(&mut self.0, s2);
        let end = crate::text::byte_len(self.0.as_str());
        proof {
            assert(old(self)@ + s1@ + s2@ =~= old(self)@ + (s1@ + s2@));
            lemma_prefix_boundary(old(self)@, s1@ + s2@);
            lemma_prefix_boundary(old(self)@ + s1@, s2@);
        }
        (start..middle, middle..end)
    }

    /// Appends formatted text and returns the byte range it occupies.
    pub fn push_fmt(&mut self, args: std::fmt::Arguments<'_>) -> (r: Range<usize>)
        ensures
            final(self)@.len() >= old(self)@.len(),
            final(self)@.subrange(0, old(self)@.len() as int) == old(self)@,
            r.start == utf8_len(old(self)@),
            r.end == utf8_len(final(self)@),
            vstd::utf8::is_char_boundary(encode_utf8(final(self)@), r.start as int),
            vstd::utf8::is_char_boundary(encode_utf8(final(self)@), r.end as int),
    {
        let start = crate::text::byte_len(self.0.as_str());
        write_args(&mut self.0, args);
        let end = crate::text::byte_len(self.0.as_str());
        proof {
            let added = self@.subrange(old(self)@.len() as int, self@.len() as int);
            assert(self@ =~= old(self)@ + added);
            lemma_prefix_boundary(old(self)@, added);
        }
        start..end
    }

    /// Appends two formatted texts and returns the byte range of each.
    pub fn push_fmt2(&mut self, args1: std::fmt::Arguments<'_>, args2: std::fmt::Arguments<'_>) -> (r: (
        Range<usize>,
        Range<usize>,
    ))
        ensures
            final(self)@.len() >= old(self)@.len(),
            final(self)@.subrange(0, old(self)@.len() as int) == old(self)@,
            r.0.start == utf8_len(old(self)@),
            r.0.end == r.1.start,
            r.1.end == utf8_len(final(self)@),
            vstd::utf8::is_char_boundary(encode_utf8(final(self)@), r.0.start as int),
            vstd::utf8::is_char_boundary(encode_utf8(final(self)@), r.0.end as int),
            vstd::utf8::is_char_boundary(encode_utf8(final(self)@), r.1.end as int),
    {
        let start = crate::text::byte_len(self.0.as_str());
        write_args(&mut self.0, args1);
        let ghost mid = self.0@;
        let middle = crate::text::byte_len(self.0.as_str());
        write_args(&mut self.0, args2);
        let end = crate::text::byte_len(self.0.as_str());
        proof {
            assert(self.0@.subrange(0, old(self).0@.len() as int) =~= mid.subrange(0, old(self).0@.len() as int));
            let head = self.0@.subrange(0, mid.len() as int);
            let tail = self.0@.subrange(mid.len() as int, self.0@.len() as int);
            assert(head =~= mid);
            assert(self.0@ =~= mid + tail);
            lemma_prefix_boundary(mid, tail);
            let added = mid.subrange(old(self).0@.len() as int, mid.len() as int);
            assert(self.0@ =~= old(self).0@ + (added + tail));
            lemma_prefix_boundary(old(self).0@, added + tail);
        }
        (start..middle, middle..end)
    }

    /// Appends the pieces one after the other and returns the byte range they occupy.
    pub fn extend(&mut self, pieces: &[&str]) -> (r: Range<usize>)
        ensures
            final(self)@ == old(self)@ + concat_all(pieces@.map_values(|p: &str| p@)),
            r.start == utf8_len(old(self)@),
            r.end == utf8_len(final(self)@),
            vstd::utf8::is_char_boundary(encode_utf8(final(self)@), r.start as int),
            vstd::utf8::is_char_boundary(encode_utf8(final(self)@), r.end as int),
    {
        let start = crate::text::byte_len(self.0.as_str());
        let ghost views = pieces@.map_values(|p: &str| p@);
        let mut i: usize = 0;
        while i < pieces.len()
            invariant
                i <= pieces@.len(),
                views == pieces@.map_values(|p: &str| p@),
                self@ == old(self)@ + concat_all(views.take(i as int)),
            decreases pieces@.len() - i,
        {
            push_str(&mut self.0, pieces[i]);
            proof {
                assert(views.take(i + 1).drop_last() =~= views.take(i as int));
                assert(self@ =~= old(self)@ + concat_all(views.take(i + 1)));
            }
            i = i + 1;
        }
        proof {
            assert(views.take(pieces@.len() as int) =~= views);
            lemma_prefix_boundary(old(self)@, concat_all(views));
        }
        let end = crate::text::byte_len(self.0.as_str());
        start..end
    }

    /// Empties the buffer.
    pub fn clear(&mut self)
        ensures
            final(self)@ == Seq::<char>::empty(),
    {
        string_clear(&mut self.0);
    }

    /// The text as an owned string.
    pub fn to_string(&self) -> (s: String)
        ensures
            s@ == self@,
    {
        crate::text::to_string(self.0.as_str())
    }
}

/// The pieces written one after the other.
pub open spec fn concat_all(pieces: Seq<Seq<char>>) -> Seq<char>
    decreases pieces.len(),
{
    if pieces.len() == 0 {
        Seq::empty()
    } else {
        concat_all(pieces.drop_last()) + pieces.last()
    }
}

/// The byte length of text appended to a buffer is the sum of the two lengths, so the
/// ranges that the buffer hands out are back to back.
pub proof fn law_utf8_len_additive(a: Seq<char>, b: Seq<char>)
    ensures
        utf8_len(a + b) == utf8_len(a) + utf8_len(b),
{
    lemma_encode_concat(a, b);
}

} // verus!
