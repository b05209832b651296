//! Inline markup: `*bold*` and `_italic_` stretches of a paragraph, the themes that code
//! blocks are highlighted with, and the options and colors that markup is shown with.
use vstd::prelude::*;
use vstd::string::StrSliceExecFns;

use crate::ansi::AnsiTag;
use crate::layout::Padding;
use crate::scroll::ScrollbarColors;
use crate::style::Color;
use crate::text::{chars_of, string_from_chars};

verus! {

/// Where inline markup starts or ends.
#[derive(Debug, Clone, Copy, PartialEq, Eq, Structural)]
pub enum InlineTag {
    BoldStart,
    BoldEnd,
    ItalicStart,
    ItalicEnd,
}

/// A stretch of plain text, or a tag.
pub enum InlineEvent<'a> {
    Text(&'a str),
    Tag(InlineTag),
}

/// An event as plain values.
pub enum InlineEventView {
    Text(Seq<char>),
    Tag(InlineTag),
}

/// The abstract view of an event.
pub open spec fn inline_event_view(e: Option<InlineEvent>) -> Option<InlineEventView> {
    match e {
        Some(InlineEvent::Text(s)) => Some(InlineEventView::Text(s@)),
        Some(InlineEvent::Tag(t)) => Some(InlineEventView::Tag(t)),
        None => None,
    }
}

/// Where the inline parser stands: the start of the text not yet handed out, the position
/// of the next character to look at, a tag found but not yet handed out, and whether bold
/// and italic stretches are open.
pub struct InlineState {
    pub start: int,
    pub pos: int,
    pub tag: Option<InlineTag>,
    pub bold: bool,
    pub italic: bool,
}

/// The characters with the Unicode `White_Space` property.
pub open spec fn spec_is_whitespace(c: char) -> bool {
    ||| '\t' <= c <= '\r'
    ||| c == ' '
    ||| c == '\u{85}'
    ||| c == '\u{a0}'
    ||| c == '\u{1680}'
    ||| '\u{2000}' <= c <= '\u{200a}'
    ||| c == '\u{2028}'
    ||| c == '\u{2029}'
    ||| c == '\u{202f}'
    ||| c == '\u{205f}'
    ||| c == '\u{3000}'
}

/// True when `c` is a whitespace character, as `char::is_whitespace` decides.
pub fn is_whitespace(c: char) -> (b: bool)
    ensures
        b == spec_is_whitespace(c),
{
    ('\t' <= c && c <= '\r') || c == ' ' || c == '\u{85}' || c == '\u{a0}' || c == '\u{1680}' || (
    '\u{2000}' <= c && c <= '\u{200a}') || c == '\u{2028}' || c == '\u{2029}' || c == '\u{202f}'
        || c == '\u{205f}' || c == '\u{3000}'
}

/// True when a neighbour of a markup character lets it open or close a stretch: it is
/// there, it is not whitespace, and it is not the same markup character.
pub open spec fn hugs(neighbour: Option<char>, curr: char) -> bool {
    neighbour matches Some(n) && !spec_is_whitespace(n) && n != curr
}

/// What a markup character `curr` between `prev` and `next` does to a stretch that is open
/// or not: it closes an open stretch when the character before it hugs it, and opens a
/// closed one when the character after it hugs it. Gives the tag, if any, and whether the
/// stretch is open afterwards.
pub open spec fn tag_decision(
    curr: char,
    prev: Option<char>,
    next: Option<char>,
    start: InlineTag,
    end: InlineTag,
    open: bool,
) -> (Option<InlineTag>, bool) {
    if open {
        if hugs(prev, curr) {
            (Some(end), false)
        } else {
            (None, true)
        }
    } else {
        if hugs(next, curr) {
            (Some(start), true)
        } else {
            (None, false)
        }
    }
}

/// The character before position `i`, if any.
pub open spec fn char_before(inp: Seq<char>, i: int) -> Option<char> {
    if i > 0 {
        Some(inp[i - 1])
    } else {
        None
    }
}

/// The character after position `i`, if any.
pub open spec fn char_after(inp: Seq<char>, i: int) -> Option<char> {
    if i + 1 < inp.len() {
        Some(inp[i + 1])
    } else {
        None
    }
}

/// Looks at the characters from `st.pos` on for the next tag, and gives the state after it
/// and the event to hand out: the text before the tag, or the tag itself when there is no
/// such text; at the end, the remaining text, if any.
pub open spec fn inline_scan(inp: Seq<char>, st: InlineState) -> (InlineState, Option<InlineEventView>)
    decreases inp.len() - st.pos,
{
    if st.pos >= inp.len() || st.pos < 0 {
        if st.start >= inp.len() {
            (st, None)
        } else {
            (
                InlineState { start: inp.len() as int, pos: inp.len() as int, ..st },
                Some(InlineEventView::Text(inp.subrange(st.start, inp.len() as int))),
            )
        }
    } else {
        let i = st.pos;
        let c = inp[i];
        let (tag, bold, italic) = if c == '*' {
            let (t, b) = tag_decision(
                c,
                char_before(inp, i),
                char_after(inp, i),
                InlineTag::BoldStart,
                InlineTag::BoldEnd,
                st.bold,
            );
            (t, b, st.italic)
        } else if c == '_' {
            let (t, b) = tag_decision(
                c,
                char_before(inp, i),
                char_after(inp, i),
                InlineTag::ItalicStart,
                InlineTag::ItalicEnd,
                st.italic,
            );
            (t, st.bold, b)
        } else {
            (None, st.bold, st.italic)
        };
        let moved = InlineState { pos: i + 1, bold, italic, ..st };
        match tag {
            Some(t) => if st.start == i {
                (InlineState { start: i + 1, ..moved }, Some(InlineEventView::Tag(t)))
            } else {
                (
                    InlineState { start: i + 1, tag: Some(t), ..moved },
                    Some(InlineEventView::Text(inp.subrange(st.start, i))),
                )
            },
            None => inline_scan(inp, moved),
        }
    }
}

/// One step of the inline parser: a tag held back is handed out first.
pub open spec fn inline_step(inp: Seq<char>, st: InlineState) -> (InlineState, Option<InlineEventView>) {
    match st.tag {
        Some(t) => (InlineState { tag: None, ..st }, Some(InlineEventView::Tag(t))),
        None => inline_scan(inp, st),
    }
}

impl InlineTag {
    /// The text attribute tag a markup tag stands for.
    pub fn into_ansi(self) -> (t: AnsiTag)
        ensures
            t == match self {
                InlineTag::BoldStart => AnsiTag::Bold,
                InlineTag::BoldEnd => AnsiTag::NotBold,
                InlineTag::ItalicStart => AnsiTag::Italic,
                InlineTag::ItalicEnd => AnsiTag::NotItalic,
            },
    {
        match self {
            InlineTag::BoldStart => AnsiTag::Bold,
            InlineTag::BoldEnd => AnsiTag::NotBold,
            InlineTag::ItalicStart => AnsiTag::Italic,
            InlineTag::ItalicEnd => AnsiTag::NotItalic,
        }
    }
}

/// Splits a paragraph into plain text and the tags of its bold and italic stretches.
pub struct InlineParser<'a> {
    input: &'a str,
    chars: Vec<char>,
    start: usize,
    pos: usize,
    tag: Option<InlineTag>,
    bold: bool,
    italic: bool,
}

/// Decides what a markup character does, as `tag_decision` says.
fn decide(
    curr: char,
    prev: Option<char>,
    next: Option<char>,
    start: InlineTag,
    end: InlineTag,
    open: bool,
) -> (r: (Option<InlineTag>, bool))
    ensures
        r == tag_decision(curr, prev, next, start, end, open),
{
    if open {
        match prev {
            Some(p) => if !is_whitespace(p) && p != curr {
                return (Some(end), false);
            },
            None => {},
        }
        (None, true)
    } else {
        match next {
            Some(n) => if !is_whitespace(n) && n != curr {
                return (Some(start), true);
            },
            None => {},
        }
        (None, false)
    }
}

impl<'a> InlineParser<'a> {
    /// The text being parsed.
    pub closed spec fn input(&self) -> Seq<char> {
        self.input@
    }

    /// Where the parser stands.
    pub closed spec fn state(&self) -> InlineState {
        InlineState {
            start: self.start as int,
            pos: self.pos as int,
            tag: self.tag,
            bold: self.bold,
            italic: self.italic,
        }
    }

    /// The parser's fields agree with each other.
    pub closed spec fn wf(&self) -> bool {
        &&& self.chars@ == self.input@
        &&& self.start <= self.pos <= self.chars@.len()
    }

    /// A well-formed parser stands inside its input.
    pub proof fn lemma_state_bounds(&self)
        requires
            self.wf(),
        ensures
            0 <= self.state().start <= self.state().pos <= self.input().len(),
    {
    }

    /// A parser at the start of `input`, with no stretch open.
    pub fn new(input: &'a str) -> (p: Self)
        ensures
            p.wf(),
            p.input() == input@,
            p.state() == (InlineState { start: 0, pos: 0, tag: None, bold: false, italic: false }),
    {
        let chars = crate::text::chars_of(input);
        InlineParser { input, chars, start: 0, pos: 0, tag: None, bold: false, italic: false }
    }

    /// The next event: a stretch of plain text or a tag; `None` once the input is used up.
    pub fn next(&mut self) -> (r: Option<InlineEvent<'a>>)
        requires
            old(self).wf(),
        ensures
            final(self).wf(),
            final(self).input() == old(self).input(),
            (final(self).state(), inline_event_view(r)) == inline_step(
                old(self).input(),
                old(self).state(),
            ),
    {
        if let Some(tag) = self.tag {
            self.tag = None;
            return Some(InlineEvent::Tag(tag));
        }
        let n = self.chars.len();
        let ghost inp = self.input();
        let ghost target = inline_scan(inp, self.state());
        while self.pos < n
            invariant
                self.wf(),
                self.input() == inp,
                n == inp.len(),
                self.tag is None,
                self.start == old(self).start,
                self.input == old(self).input,
                target == inline_scan(inp, self.state()),
                inline_step(old(self).input(), old(self).state()) == target,
            decreases n - self.pos,
        {
            let i = self.pos;
            let c = self.chars[i];
            let prev = if i > 0 {
                Some(self.chars[i - 1])
            } else {
                None
            };
            let next = if i + 1 < n {
                Some(self.chars[i + 1])
            } else {
                None
            };
            let tag = if c == '*' {
                let (t, b) = decide(c, prev, next, InlineTag::BoldStart, InlineTag::BoldEnd, self.bold);
                self.bold = b;
                t
            } else if c == '_' {
                let (t, b) = decide(c, prev, next, InlineTag::ItalicStart, InlineTag::ItalicEnd, self.italic);
                self.italic = b;
                t
            } else {
                None
            };
            self.pos = i + 1;
            match tag {
                Some(t) => {
                    let input: &'a str = self.input;
                    if self.start < i {
                        let text = input.substring_char(self.start, i);
                        self.tag = Some(t);
                        self.start = i + 1;
                        return Some(InlineEvent::Text(text));
                    } else {
                        self.start = i + 1;
                        return Some(InlineEvent::Tag(t));
                    }
                },
                None => {},
            }
        }
        let input: &'a str = self.input;
        let rest = input.substring_char(self.start, n);
        self.start = n;
        self.pos = n;
        if rest.unicode_len() == 0 {
            None
        } else {
            Some(InlineEvent::Text(rest))
        }
    }
}

/// The themes that code blocks can be highlighted with.
#[derive(Debug, Clone, Copy, PartialEq, Eq, Structural)]
pub enum SyntaxHighlightTheme {
    Base16OceanDark,
    Base16OceanLight,
    Base16MochaDark,
    Base16EightiesDark,
    InspiredGitHub,
    SolarizedDark,
    SolarizedLight,
}

/// The name of a highlighting theme in the highlighter's theme set.
pub open spec fn theme_name(t: SyntaxHighlightTheme) -> Seq<char> {
    match t {
        SyntaxHighlightTheme::Base16OceanDark => "base16-ocean.dark"@,
        SyntaxHighlightTheme::Base16OceanLight => "base16-ocean.light"@,
        SyntaxHighlightTheme::Base16MochaDark => "base16-mocha.dark"@,
        SyntaxHighlightTheme::Base16EightiesDark => "base16-eighties.dark"@,
        SyntaxHighlightTheme::InspiredGitHub => "InspiredGitHub"@,
        SyntaxHighlightTheme::SolarizedDark => "Solarized (dark)"@,
        SyntaxHighlightTheme::SolarizedLight => "Solarized (light)"@,
    }
}

impl SyntaxHighlightTheme {
    /// The name of the theme in the highlighter's theme set.
    pub fn as_str(self) -> (s: &'static str)
        ensures
            s@ == theme_name(self),
    {
        match self {
            SyntaxHighlightTheme::Base16OceanDark => "base16-ocean.dark",
            SyntaxHighlightTheme::Base16OceanLight => "base16-ocean.light",
            SyntaxHighlightTheme::Base16MochaDark => "base16-mocha.dark",
            SyntaxHighlightTheme::Base16EightiesDark => "base16-eighties.dark",
            SyntaxHighlightTheme::InspiredGitHub => "InspiredGitHub",
            SyntaxHighlightTheme::SolarizedDark => "Solarized (dark)",
            SyntaxHighlightTheme::SolarizedLight => "Solarized (light)",
        }
    }
}

/// A paragraph without `*` and `_` is handed out whole, as one stretch of text, and
/// nothing follows it.
pub proof fn law_plain_text_passes_whole(inp: Seq<char>)
    requires
        inp.len() > 0,
        forall|i: int| 0 <= i < inp.len() ==> inp[i] != '*' && inp[i] != '_',
    ensures
        ({
            let start = InlineState { start: 0, pos: 0, tag: None, bold: false, italic: false };
            let (st, ev) = inline_step(inp, start);
            &&& ev == Some(InlineEventView::Text(inp))
            &&& inline_step(inp, st).1 is None
        }),
{
    let start = InlineState { start: 0, pos: 0, tag: None, bold: false, italic: false };
    lemma_scan_plain(inp, start);
    assert(inp.subrange(0, inp.len() as int) =~= inp);
}

/// Scanning characters that are not markup only moves the position to the end.
proof fn lemma_scan_plain(inp: Seq<char>, st: InlineState)
    requires
        0 <= st.pos <= inp.len(),
        st.tag is None,
        forall|i: int| 0 <= i < inp.len() ==> inp[i] != '*' && inp[i] != '_',
    ensures
        inline_scan(inp, st) == inline_scan(inp, InlineState { pos: inp.len() as int, ..st }),
    decreases inp.len() - st.pos,
{
    if st.pos < inp.len() {
        let moved = InlineState { pos: st.pos + 1, ..st };
        lemma_scan_plain(inp, moved);
        assert(InlineState { pos: inp.len() as int, ..moved } == InlineState {
            pos: inp.len() as int,
            ..st
        });
    }
}

/// The number of whitespace characters at the start of a text.
pub open spec fn leading_space(s: Seq<char>) -> nat
    decreases s.len(),
{
    if s.len() > 0 && spec_is_whitespace(s[0]) {
        1 + leading_space(s.drop_first())
    } else {
        0
    }
}

/// The number of whitespace characters at the end of a text.
pub open spec fn trailing_space(s: Seq<char>) -> nat
    decreases s.len(),
{
    if s.len() > 0 && spec_is_whitespace(s.last()) {
        1 + trailing_space(s.drop_last())
    } else {
        0
    }
}

/// A text without the whitespace at its start and end, as `str::trim` gives it.
pub open spec fn trimmed(s: Seq<char>) -> Seq<char> {
    let t = s.subrange(leading_space(s) as int, s.len() as int);
    t.subrange(0, t.len() - trailing_space(t))
}

/// The count of leading whitespace is the position of the first other character.
proof fn lemma_leading_space(s: Seq<char>, i: int)
    requires
        0 <= i <= s.len(),
        forall|j: int| 0 <= j < i ==> spec_is_whitespace(#[trigger] s[j]),
        i == s.len() || !spec_is_whitespace(s[i]),
    ensures
        leading_space(s) == i,
    decreases i,
{
    if i > 0 {
        let t = s.drop_first();
        assert forall|j: int| 0 <= j < i - 1 implies spec_is_whitespace(#[trigger] t[j]) by {
            assert(t[j] == s[j + 1]);
        }
        if i - 1 < t.len() {
            assert(t[i - 1] == s[i]);
        }
        lemma_leading_space(t, i - 1);
    }
}

/// The count of trailing whitespace is the number of characters after the last other one.
proof fn lemma_trailing_space(s: Seq<char>, k: int)
    requires
        0 <= k <= s.len(),
        forall|j: int| s.len() - k <= j < s.len() ==> spec_is_whitespace(#[trigger] s[j]),
        k == s.len() || !spec_is_whitespace(s[s.len() - k - 1]),
    ensures
        trailing_space(s) == k,
    decreases k,
{
    if k > 0 {
        let t = s.drop_last();
        assert forall|j: int| t.len() - (k - 1) <= j < t.len() implies spec_is_whitespace(#[trigger] t[j]) by {
            assert(t[j] == s[j]);
        }
        if k - 1 < t.len() {
            assert(t[t.len() - (k - 1) - 1] == s[s.len() - k - 1]);
        }
        lemma_trailing_space(t, k - 1);
    }
}

/// A text without the whitespace at its start and end.
pub fn trim(s: &str) -> (r: String)
    ensures
        r@ == trimmed(s@),
{
    let v = chars_of(s);
    let n = v.len();
    let mut a: usize = 0;
    while a < n && is_whitespace(v[a])
        invariant
            n == v@.len(),
            a <= n,
            forall|j: int| 0 <= j < a ==> spec_is_whitespace(#[trigger] v@[j]),
        decreases n - a,
    {
        a = a + 1;
    }
    proof {
        lemma_leading_space(v@, a as int);
    }
    let ghost t = v@.subrange(a as int, n as int);
    let mut b: usize = n;
    while b > a && is_whitespace(v[b - 1])
        invariant
            n == v@.len(),
            a <= b <= n,
            forall|j: int| b <= j < n ==> spec_is_whitespace(#[trigger] v@[j]),
        decreases b,
    {
        b = b - 1;
    }
    proof {
        assert forall|j: int| t.len() - (n - b) <= j < t.len() implies spec_is_whitespace(#[trigger] t[j]) by {
            assert(t[j] == v@[a + j]);
        }
        if n - b < t.len() {
            assert(t[t.len() - (n - b) - 1] == v@[b - 1]);
        }
        lemma_trailing_space(t, (n - b) as int);
    }
    let mut out: Vec<char> = Vec::new();
    let mut i = a;
    while i < b
        invariant
            n == v@.len(),
            a <= i <= b <= n,
            out@ == v@.subrange(a as int, i as int),
        decreases b - i,
    {
        out.push(v[i]);
        proof {
            assert(out@ =~= v@.subrange(a as int, i + 1));
        }
        i = i + 1;
    }
    proof {
        assert(out@ =~= t.subrange(0, t.len() - trailing_space(t)));
    }
    string_from_chars(&out)
}


/// How markup is shown: its padding, whether it has a scrollbar and how far from the text,
/// and the character that draws a break.
#[derive(Debug, Clone, Copy, PartialEq, Eq, Structural)]
pub struct MarkupOptions {
    pub padding: Padding,
    pub scrollbar: bool,
    pub scrollbar_margin: u16,
    pub break_char: char,
}

impl MarkupOptions {
    /// No padding, no scrollbar (one column away when there is one), and breaks drawn with
    /// a horizontal line.
    pub fn new() -> (o: Self)
        ensures
            o == (MarkupOptions {
                padding: Padding { left: 0, right: 0, top: 0, bottom: 0 },
                scrollbar: false,
                scrollbar_margin: 1,
                break_char: '\u{2500}',
            }),
    {
        MarkupOptions {
            padding: Padding { left: 0, right: 0, top: 0, bottom: 0 },
            scrollbar: false,
            scrollbar_margin: 1,
            break_char: '\u{2500}',
        }
    }
}

impl Default for MarkupOptions {
    fn default() -> (o: Self)
        ensures
            o == (MarkupOptions {
                padding: Padding { left: 0, right: 0, top: 0, bottom: 0 },
                scrollbar: false,
                scrollbar_margin: 1,
                break_char: '\u{2500}',
            }),
    {
        Self::new()
    }
}

/// The colors of markup: the highlighting theme of code, the scrollbar, headings and
/// breaks.
#[derive(Debug, Clone, Copy, PartialEq, Eq, Structural)]
pub struct MarkupColors {
    pub syntax_theme: SyntaxHighlightTheme,
    pub scrollbar: ScrollbarColors,
    pub heading: Color,
    pub break_char: Color,
}

impl MarkupColors {
    /// Code in the eighties theme, the default scrollbar, yellow headings and grey breaks.
    pub fn new() -> (c: Self)
        ensures
            c == (MarkupColors {
                syntax_theme: SyntaxHighlightTheme::Base16EightiesDark,
                scrollbar: ScrollbarColors { thumb: Color::Indexed(240), track: None },
                heading: Color::Yellow,
                break_char: Color::Indexed(240),
            }),
    {
        MarkupColors {
            syntax_theme: SyntaxHighlightTheme::Base16EightiesDark,
            scrollbar: ScrollbarColors::default_colors(),
            heading: Color::Yellow,
            break_char: Color::Indexed(240),
        }
    }
}

impl Default for MarkupColors {
    fn default() -> (c: Self)
        ensures
            c == (MarkupColors {
                syntax_theme: SyntaxHighlightTheme::Base16EightiesDark,
                scrollbar: ScrollbarColors { thumb: Color::Indexed(240), track: None },
                heading: Color::Yellow,
                break_char: Color::Indexed(240),
            }),
    {
        Self::new()
    }
}

} // verus!
