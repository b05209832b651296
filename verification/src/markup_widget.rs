//! The markup widget: a markup text turned into plain items (paragraphs, headings, list
//! items, code, images, breaks), the items laid out as escape-coded text for a width, the
//! scroll over the lines, and the keys that move it. Loading images and drawing stay with
//! the caller: the widget asks for the images it needs and is told how they loaded.
use vstd::prelude::*;

use crate::ansi::{fg_tag, tag_code, wrapped_text, AnsiTag, AnsiWriter};
use crate::blocks::{
    law_next_block_advances, list_items, next_block, BlockView, ListItems, MarkupBlock,
    MarkupBlockParser,
};
use crate::formatting::concat_all;
use crate::highlight::{highlight_code, highlighted_code, CodeHighlighter};
use crate::layout::{sat_sub, HorizontalAlignment, Padding, Rect, Size};
use crate::list::Key;
use crate::markup::{
    inline_scan, inline_step, char_after, char_before, tag_decision, InlineEvent,
    InlineEventView, InlineParser, InlineState, InlineTag, MarkupColors, MarkupOptions,
};
use crate::scroll::{scrolled, MarkupScroll, ScrollMove};
use crate::text::{chars_of, push_char, push_str};
use crate::text_input::{grapheme_clusters, graphemes_of};

verus! {

/// The text attribute a markup tag stands for.
pub open spec fn inline_ansi_tag(t: InlineTag) -> AnsiTag {
    match t {
        InlineTag::BoldStart => AnsiTag::Bold,
        InlineTag::BoldEnd => AnsiTag::NotBold,
        InlineTag::ItalicStart => AnsiTag::Italic,
        InlineTag::ItalicEnd => AnsiTag::NotItalic,
    }
}

/// The work the inline parser has left: twice the characters not yet handed out, and one
/// for a tag held back.
pub open spec fn inline_measure(inp: Seq<char>, st: InlineState) -> int {
    2 * (inp.len() - st.start) + if st.tag is Some {
        1int
    } else {
        0int
    }
}

/// Each event of the inline scan makes the work left smaller, and the scan stays inside
/// the input.
proof fn lemma_inline_scan_progress(inp: Seq<char>, st: InlineState)
    requires
        st.tag is None,
        0 <= st.start <= st.pos <= inp.len(),
    ensures
        ({
            let (st2, ev) = inline_scan(inp, st);
            &&& 0 <= st2.start <= st2.pos <= inp.len()
            &&& ev is Some ==> inline_measure(inp, st2) < inline_measure(inp, st)
        }),
    decreases inp.len() - st.pos,
{
    if st.pos < inp.len() {
        let i = st.pos;
        let c = inp[i];
        let (tag, bold, italic) = if c == '*' {
            let (t, b) = tag_decision(
                c,
                char_before(inp, i),
                char_after(inp, i),
                InlineTag::BoldStart,
                InlineTag::BoldEnd,
                st.bold,
            );
            (t, b, st.italic)
        } else if c == '_' {
            let (t, b) = tag_decision(
                c,
                char_before(inp, i),
                char_after(inp, i),
                InlineTag::ItalicStart,
                InlineTag::ItalicEnd,
                st.italic,
            );
            (t, st.bold, b)
        } else {
            (None, st.bold, st.italic)
        };
        let moved = InlineState { pos: i + 1, bold, italic, ..st };
        if tag is None {
            lemma_inline_scan_progress(inp, moved);
        }
    }
}

/// Each event of the inline parser makes the work left smaller.
pub proof fn lemma_inline_step_progress(inp: Seq<char>, st: InlineState)
    requires
        0 <= st.start <= st.pos <= inp.len(),
    ensures
        ({
            let (st2, ev) = inline_step(inp, st);
            &&& 0 <= st2.start <= st2.pos <= inp.len()
            &&& ev is Some ==> inline_measure(inp, st2) < inline_measure(inp, st)
        }),
{
    if st.tag is None {
        lemma_inline_scan_progress(inp, st);
    }
}

/// The escape-coded text of the inline markup from a parser state on: the stretches of
/// text as they are, and each markup tag as the escape code of its attribute.
pub open spec fn inline_ansi(inp: Seq<char>, st: InlineState) -> Seq<char>
    decreases inline_measure(inp, st),
    when 0 <= st.start <= st.pos <= inp.len()
{
    let (st2, ev) = inline_step(inp, st);
    match ev {
        None => seq![],
        Some(e) => {
            proof {
                lemma_inline_step_progress(inp, st);
            }
            match e {
                InlineEventView::Text(s) => s + inline_ansi(inp, st2),
                InlineEventView::Tag(t) => tag_code(inline_ansi_tag(t)) + inline_ansi(inp, st2),
            }
        },
    }
}

/// The escape-coded text of a whole inline markup text.
pub open spec fn markup_ansi(s: Seq<char>) -> Seq<char> {
    inline_ansi(s, InlineState { start: 0, pos: 0, tag: None, bold: false, italic: false })
}

/// Appends the escape-coded text of an inline markup text.
pub fn push_markup_ansi(writer: &mut AnsiWriter, markup: &str)
    ensures
        final(writer)@ == old(writer)@ + markup_ansi(markup@),
{
    let mut p = InlineParser::new(markup);
    let ghost inp = markup@;
    proof {
        p.lemma_state_bounds();
        assert(old(writer)@ + markup_ansi(inp) == old(writer)@ + inline_ansi(inp, p.state()));
    }
    loop
        invariant_except_break
            writer@ + inline_ansi(inp, p.state()) == old(writer)@ + markup_ansi(inp),
        invariant
            p.wf(),
            p.input() == inp,
            inp == markup@,
        ensures
            writer@ == old(writer)@ + markup_ansi(inp),
        decreases inline_measure(inp, p.state()),
    {
        proof {
            p.lemma_state_bounds();
            lemma_inline_step_progress(inp, p.state());
        }
        let ghost before = p.state();
        let ghost w0 = writer@;
        match p.next() {
            Some(InlineEvent::Text(s)) => {
                writer.push_str(s);
                proof {
                    assert(w0 + (s@ + inline_ansi(inp, p.state())) =~= writer@ + inline_ansi(
                        inp,
                        p.state(),
                    ));
                }
            },
            Some(InlineEvent::Tag(t)) => {
                writer.push_tag(t.into_ansi());
                proof {
                    assert(w0 + (tag_code(inline_ansi_tag(t)) + inline_ansi(inp, p.state()))
                        =~= writer@ + inline_ansi(inp, p.state()));
                }
            },
            None => {
                proof {
                    assert(inline_ansi(inp, before) == Seq::<char>::empty());
                    assert(writer@ + Seq::<char>::empty() =~= writer@);
                }
                break;
            },
        }
    }
}

/// The first line feed at `i` or after it, or the end of the text.
pub open spec fn next_newline(s: Seq<char>, i: int) -> int
    decreases s.len() - i,
{
    if i >= s.len() || i < 0 {
        s.len() as int
    } else if s[i] == '\n' {
        i
    } else {
        next_newline(s, i + 1)
    }
}

/// The first line feed at `i` or after it lies there or later, and nothing before it is a
/// line feed.
pub proof fn lemma_next_newline(s: Seq<char>, i: int)
    requires
        0 <= i <= s.len(),
    ensures
        i <= next_newline(s, i) <= s.len(),
        next_newline(s, i) < s.len() ==> s[next_newline(s, i)] == '\n',
        forall|j: int| i <= j < next_newline(s, i) ==> s[j] != '\n',
    decreases s.len() - i,
{
    if i < s.len() && s[i] != '\n' {
        lemma_next_newline(s, i + 1);
    }
}

/// The lines of a text from position `i` on, as `str::lines` gives them: split at line
/// feeds, a carriage return before a line feed dropped, and no empty line after a final
/// line feed.
pub open spec fn lines_from(s: Seq<char>, i: int) -> Seq<Seq<char>>
    decreases s.len() - i,
    when 0 <= i
{
    if i >= s.len() {
        seq![]
    } else {
        let k = next_newline(s, i);
        proof {
            lemma_next_newline(s, i);
        }
        let piece = s.subrange(i, k);
        let line = if k < s.len() && piece.len() > 0 && piece.last() == '\r' {
            piece.drop_last()
        } else {
            piece
        };
        if k < s.len() {
            seq![line] + lines_from(s, k + 1)
        } else {
            seq![line]
        }
    }
}

/// The characters from `a` up to `b`, as a string.
fn text_between(chars: &Vec<char>, a: usize, b: usize) -> (r: String)
    requires
        a <= b <= chars@.len(),
    ensures
        r@ == chars@.subrange(a as int, b as int),
{
    let mut r = String::new();
    let mut i = a;
    while i < b
        invariant
            a <= i <= b <= chars@.len(),
            r@ == chars@.subrange(a as int, i as int),
        decreases b - i,
    {
        push_char(&mut r, chars[i]);
        proof {
            assert(r@ =~= chars@.subrange(a as int, i + 1));
        }
        i = i + 1;
    }
    r
}

/// The lines of a text, as `str::lines` gives them.
pub fn lines_of(s: &str) -> (v: Vec<String>)
    ensures
        v@.map_values(|l: String| l@) == lines_from(s@, 0),
{
    let chars = chars_of(s);
    let n = chars.len();
    let ghost t = s@;
    let mut v: Vec<String> = Vec::new();
    let mut i: usize = 0;
    proof {
        assert(v@.map_values(|l: String| l@) =~= Seq::<Seq<char>>::empty());
    }
    while i < n
        invariant
            chars@ == t,
            t == s@,
            n == t.len(),
            i <= n,
            v@.map_values(|l: String| l@) + lines_from(t, i as int) == lines_from(t, 0),
        decreases n - i,
    {
        let mut k = i;
        while k < n && chars[k] != '\n'
            invariant
                i <= k <= n,
                n == chars@.len(),
                next_newline(chars@, k as int) == next_newline(chars@, i as int),
            decreases n - k,
        {
            k = k + 1;
        }
        proof {
            lemma_next_newline(t, i as int);
        }
        let line = if k < n && k > i && chars[k - 1] == '\r' {
            text_between(&chars, i, k - 1)
        } else {
            text_between(&chars, i, k)
        };
        let ghost v0 = v@.map_values(|l: String| l@);
        v.push(line);
        proof {
            let piece = t.subrange(i as int, k as int);
            if k < n && k > i && chars@[k - 1] == '\r' {
                assert(piece.drop_last() =~= t.subrange(i as int, k - 1));
            }
            assert(v@.map_values(|l: String| l@) =~= v0.push(line@));
            if k < n {
                assert(lines_from(t, i as int) == seq![line@] + lines_from(t, k + 1));
                assert(v0 + lines_from(t, i as int) =~= v@.map_values(|l: String| l@)
                    + lines_from(t, k + 1));
            } else {
                assert(lines_from(t, i as int) == seq![line@]);
                assert(lines_from(t, n as int) == Seq::<Seq<char>>::empty());
                assert(v0 + lines_from(t, i as int) =~= v@.map_values(|l: String| l@)
                    + lines_from(t, n as int));
            }
        }
        i = if k < n {
            k + 1
        } else {
            n
        };
    }
    proof {
        assert(lines_from(t, i as int) == Seq::<Seq<char>>::empty());
        assert(v@.map_values(|l: String| l@) + Seq::<Seq<char>>::empty() =~= v@.map_values(
            |l: String| l@,
        ));
    }
    v
}

/// The prefix of each line but the first of a list item: four spaces.
pub open spec fn item_indent() -> Seq<char> {
    seq![' ', ' ', ' ', ' ']
}

/// The prefix of the first line of a list item: a bullet.
pub open spec fn item_bullet() -> Seq<char> {
    seq![' ', ' ', '\u{2022}', ' ']
}

/// Lines, each after a prefix and followed by a line feed.
pub open spec fn indent_rest(lines: Seq<Seq<char>>, prefix: Seq<char>) -> Seq<char>
    decreases lines.len(),
{
    if lines.len() == 0 {
        seq![]
    } else {
        indent_rest(lines.drop_last(), prefix) + prefix + lines.last() + seq!['\n']
    }
}

/// Lines, the first after `first` and the others after `other`, each followed by a line
/// feed.
pub open spec fn indented(lines: Seq<Seq<char>>, first: Seq<char>, other: Seq<char>) -> Seq<char> {
    if lines.len() == 0 {
        seq![]
    } else {
        first + lines[0] + seq!['\n'] + indent_rest(lines.drop_first(), other)
    }
}

/// Appends the four characters of a prefix.
fn push_prefix(s: &mut String, bullet: bool)
    ensures
        final(s)@ == old(s)@ + if bullet {
            item_bullet()
        } else {
            item_indent()
        },
{
    push_char(s, ' ');
    push_char(s, ' ');
    if bullet {
        push_char(s, '\u{2022}');
    } else {
        push_char(s, ' ');
    }
    push_char(s, ' ');
    proof {
        if bullet {
            assert(final(s)@ =~= old(s)@ + item_bullet());
        } else {
            assert(final(s)@ =~= old(s)@ + item_indent());
        }
    }
}

/// The lines of a text, the first after a bullet and the others indented.
fn indent_lines(text: &str) -> (r: String)
    ensures
        r@ == indented(lines_from(text@, 0), item_bullet(), item_indent()),
{
    let lines = lines_of(text);
    let ghost ls = lines@.map_values(|l: String| l@);
    let mut r = String::new();
    if lines.len() == 0 {
        proof {
            assert(lines_from(text@, 0) =~= ls);
        }
        return r;
    }
    push_prefix(&mut r, true);
    push_str(&mut r, lines[0].as_str());
    push_char(&mut r, '\n');
    let mut i: usize = 1;
    proof {
        assert(ls.drop_first().subrange(0, 0) =~= Seq::<Seq<char>>::empty());
        assert(r@ =~= item_bullet() + ls[0] + seq!['\n'] + indent_rest(
            ls.drop_first().subrange(0, 0),
            item_indent(),
        ));
    }
    while i < lines.len()
        invariant
            1 <= i <= lines@.len(),
            ls == lines@.map_values(|l: String| l@),
            r@ == item_bullet() + ls[0] + seq!['\n'] + indent_rest(
                ls.drop_first().subrange(0, i - 1),
                item_indent(),
            ),
        decreases lines@.len() - i,
    {
        push_prefix(&mut r, false);
        push_str(&mut r, lines[i].as_str());
        push_char(&mut r, '\n');
        proof {
            let rest = ls.drop_first();
            assert(rest.subrange(0, i as int).drop_last() =~= rest.subrange(0, i - 1));
            assert(rest.subrange(0, i as int).last() == ls[i as int]);
            assert(r@ =~= item_bullet() + ls[0] + seq!['\n'] + indent_rest(
                rest.subrange(0, i as int),
                item_indent(),
            ));
        }
        i = i + 1;
    }
    proof {
        assert(ls.drop_first().subrange(0, lines@.len() - 1) =~= ls.drop_first());
        assert(lines_from(text@, 0) == ls);
    }
    r
}

/// The escape-coded text of an inline markup text, wrapped to `width` columns; for a list
/// item, wrapped four columns narrower, with a bullet before the first line and the other
/// lines indented.
pub open spec fn rich_markup(text: Seq<char>, width: u16, list_item: bool) -> Seq<char> {
    if list_item {
        indented(
            lines_from(wrapped_text(markup_ansi(text), sat_sub(width as int, 4) as usize), 0),
            item_bullet(),
            item_indent(),
        )
    } else {
        wrapped_text(markup_ansi(text), width as usize)
    }
}

/// The escape-coded text of an inline markup text, wrapped and indented as `rich_markup`
/// says.
fn markup_to_rich_ansi(text: &str, width: u16, list_item: bool) -> (r: String)
    ensures
        r@ == rich_markup(text@, width, list_item),
{
    let mut writer = AnsiWriter::new();
    push_markup_ansi(&mut writer, text);
    let w: u16 = if list_item {
        if width > 4 {
            width - 4
        } else {
            0
        }
    } else {
        width
    };
    writer.textwrap(w);
    proof {
        assert(Seq::<char>::empty() + markup_ansi(text@) =~= markup_ansi(text@));
    }
    if list_item {
        indent_lines(writer.as_str())
    } else {
        crate::text::to_string(writer.as_str())
    }
}

/// An item of a markup text before it is laid out: text items hold their text.
#[derive(Debug)]
pub enum MarkupPlain {
    Paragraph { text: String, alignment: HorizontalAlignment },
    Heading { text: String, alignment: HorizontalAlignment },
    ListItem { text: String },
    Code { text: String, language: String },
    Image { index: usize, rows: u16 },
    ImagePending { index: usize },
    ImageError { text: String },
    ImageDescription { text: String },
    Break,
    EmptyLine,
}

/// An item before it is laid out, as plain values.
pub enum PlainView {
    Paragraph { text: Seq<char>, alignment: HorizontalAlignment },
    Heading { text: Seq<char>, alignment: HorizontalAlignment },
    ListItem { text: Seq<char> },
    Code { text: Seq<char>, language: Seq<char> },
    Image { index: int, rows: u16 },
    ImagePending { index: int },
    ImageError { text: Seq<char> },
    ImageDescription { text: Seq<char> },
    Break,
    EmptyLine,
}

impl MarkupPlain {
    /// The item as plain values.
    pub open spec fn view(&self) -> PlainView {
        match self {
            MarkupPlain::Paragraph { text, alignment } => PlainView::Paragraph {
                text: text@,
                alignment: *alignment,
            },
            MarkupPlain::Heading { text, alignment } => PlainView::Heading {
                text: text@,
                alignment: *alignment,
            },
            MarkupPlain::ListItem { text } => PlainView::ListItem { text: text@ },
            MarkupPlain::Code { text, language } => PlainView::Code {
                text: text@,
                language: language@,
            },
            MarkupPlain::Image { index, rows } => PlainView::Image { index: *index as int, rows: *rows },
            MarkupPlain::ImagePending { index } => PlainView::ImagePending { index: *index as int },
            MarkupPlain::ImageError { text } => PlainView::ImageError { text: text@ },
            MarkupPlain::ImageDescription { text } => PlainView::ImageDescription { text: text@ },
            MarkupPlain::Break => PlainView::Break,
            MarkupPlain::EmptyLine => PlainView::EmptyLine,
        }
    }
}

/// An item laid out for a width: escape-coded text with its alignment, an image with the
/// rows it takes, a break, or an empty line.
#[derive(Debug)]
pub enum MarkupRich {
    Text { text: String, alignment: HorizontalAlignment },
    Image { index: usize, rows: u16 },
    Break,
    EmptyLine,
}

/// A laid-out item, as plain values.
pub enum RichView {
    Text { text: Seq<char>, alignment: HorizontalAlignment },
    Image { index: int, rows: u16 },
    Break,
    EmptyLine,
}

impl MarkupRich {
    /// The item as plain values.
    pub open spec fn view(&self) -> RichView {
        match self {
            MarkupRich::Text { text, alignment } => RichView::Text {
                text: text@,
                alignment: *alignment,
            },
            MarkupRich::Image { index, rows } => RichView::Image { index: *index as int, rows: *rows },
            MarkupRich::Break => RichView::Break,
            MarkupRich::EmptyLine => RichView::EmptyLine,
        }
    }
}

/// How an item is laid out for `width` columns: paragraphs, list items and image
/// descriptions through their inline markup, headings in bold in the heading color, image
/// errors in red, code highlighted with the syntax theme; an image not loaded yet takes no
/// rows.
pub open spec fn rich_item(p: PlainView, width: u16, colors: MarkupColors) -> RichView {
    match p {
        PlainView::Paragraph { text, alignment } => RichView::Text {
            text: rich_markup(text, width, false),
            alignment,
        },
        PlainView::Heading { text, alignment } => RichView::Text {
            text: wrapped_text(
                tag_code(AnsiTag::Bold) + tag_code(fg_tag(colors.heading)) + text,
                width as usize,
            ),
            alignment,
        },
        PlainView::ListItem { text } => RichView::Text {
            text: rich_markup(text, width, true),
            alignment: HorizontalAlignment::Left,
        },
        PlainView::Code { text, language } => RichView::Text {
            text: highlighted_code(text, language, colors.syntax_theme),
            alignment: HorizontalAlignment::Left,
        },
        PlainView::Image { index, rows } => RichView::Image { index, rows },
        PlainView::ImagePending { index } => RichView::Image { index, rows: 0 },
        PlainView::ImageError { text } => RichView::Text {
            text: wrapped_text(tag_code(AnsiTag::FgRed) + text, width as usize),
            alignment: HorizontalAlignment::Center,
        },
        PlainView::ImageDescription { text } => RichView::Text {
            text: rich_markup(text, width, false),
            alignment: HorizontalAlignment::Center,
        },
        PlainView::Break => RichView::Break,
        PlainView::EmptyLine => RichView::EmptyLine,
    }
}

/// The items laid out for `width` columns.
pub open spec fn rich_items(ps: Seq<PlainView>, width: u16, colors: MarkupColors) -> Seq<RichView> {
    ps.map_values(|p: PlainView| rich_item(p, width, colors))
}

/// The lines an item takes: those of its text, the rows of an image, one otherwise.
pub open spec fn item_lines(r: RichView) -> int {
    match r {
        RichView::Text { text, .. } => lines_from(text, 0).len() as int,
        RichView::Image { rows, .. } => rows as int,
        RichView::Break | RichView::EmptyLine => 1,
    }
}

/// The lines all items take.
pub open spec fn lines_sum(rs: Seq<RichView>) -> int
    decreases rs.len(),
{
    if rs.len() == 0 {
        0
    } else {
        lines_sum(rs.drop_last()) + item_lines(rs.last())
    }
}

/// The lines all items take, counted up to `u16::MAX`.
pub open spec fn total_lines(rs: Seq<RichView>) -> u16 {
    if lines_sum(rs) < u16::MAX {
        lines_sum(rs) as u16
    } else {
        u16::MAX
    }
}

/// The sum of lines is never negative.
proof fn lemma_lines_sum_nonneg(rs: Seq<RichView>)
    ensures
        lines_sum(rs) >= 0,
    decreases rs.len(),
{
    if rs.len() > 0 {
        lemma_lines_sum_nonneg(rs.drop_last());
    }
}

/// Lays one item out for `width` columns.
fn rich_of(h: &CodeHighlighter, p: &MarkupPlain, width: u16, colors: MarkupColors) -> (r: MarkupRich)
    ensures
        r.view() == rich_item(p.view(), width, colors),
{
    match p {
        MarkupPlain::Paragraph { text, alignment } => MarkupRich::Text {
            text: markup_to_rich_ansi(text.as_str(), width, false),
            alignment: *alignment,
        },
        MarkupPlain::Heading { text, alignment } => {
            let mut writer = AnsiWriter::new();
            writer.push_tag(AnsiTag::Bold);
            writer.push_tag(AnsiTag::from_color_fg(colors.heading));
            writer.push_str(text.as_str());
            writer.textwrap(width);
            proof {
                assert(Seq::<char>::empty() + tag_code(AnsiTag::Bold) + tag_code(
                    fg_tag(colors.heading),
                ) + text@ =~= tag_code(AnsiTag::Bold) + tag_code(fg_tag(colors.heading)) + text@);
            }
            MarkupRich::Text { text: crate::text::to_string(writer.as_str()), alignment: *alignment }
        },
        MarkupPlain::ListItem { text } => MarkupRich::Text {
            text: markup_to_rich_ansi(text.as_str(), width, true),
            alignment: HorizontalAlignment::Left,
        },
        MarkupPlain::Code { text, language } => MarkupRich::Text {
            text: highlight_code(h, text.as_str(), language.as_str(), colors.syntax_theme),
            alignment: HorizontalAlignment::Left,
        },
        MarkupPlain::Image { index, rows } => MarkupRich::Image { index: *index, rows: *rows },
        MarkupPlain::ImagePending { index } => MarkupRich::Image { index: *index, rows: 0 },
        MarkupPlain::ImageError { text } => {
            let mut writer = AnsiWriter::new();
            writer.push_tag(AnsiTag::FgRed);
            writer.push_str(text.as_str());
            writer.textwrap(width);
            proof {
                assert(Seq::<char>::empty() + tag_code(AnsiTag::FgRed) + text@ =~= tag_code(
                    AnsiTag::FgRed,
                ) + text@);
            }
            MarkupRich::Text {
                text: crate::text::to_string(writer.as_str()),
                alignment: HorizontalAlignment::Center,
            }
        },
        MarkupPlain::ImageDescription { text } => MarkupRich::Text {
            text: markup_to_rich_ansi(text.as_str(), width, false),
            alignment: HorizontalAlignment::Center,
        },
        MarkupPlain::Break => MarkupRich::Break,
        MarkupPlain::EmptyLine => MarkupRich::EmptyLine,
    }
}

/// The lines an item takes, counted up to `u16::MAX`.
fn lines_of_item(r: &MarkupRich) -> (n: u16)
    ensures
        n as int == if item_lines(r.view()) < u16::MAX {
            item_lines(r.view())
        } else {
            u16::MAX as int
        },
{
    match r {
        MarkupRich::Text { text, .. } => {
            let n = lines_of(text.as_str()).len();
            if n < 65535 {
                n as u16
            } else {
                65535
            }
        },
        MarkupRich::Image { rows, .. } => *rows,
        MarkupRich::Break | MarkupRich::EmptyLine => 1,
    }
}

/// Lays all items out for `width` columns and counts their lines up to `u16::MAX`.
pub fn layout_items(h: &CodeHighlighter, plain: &Vec<MarkupPlain>, width: u16, colors: MarkupColors) -> (r: (
    Vec<MarkupRich>,
    u16,
))
    ensures
        r.0@.map_values(|x: MarkupRich| x.view()) == rich_items(
            plain@.map_values(|p: MarkupPlain| p.view()),
            width,
            colors,
        ),
        r.1 == total_lines(r.0@.map_values(|x: MarkupRich| x.view())),
{
    let ghost ps = plain@.map_values(|p: MarkupPlain| p.view());
    let mut rich: Vec<MarkupRich> = Vec::new();
    let mut total: u16 = 0;
    let mut i: usize = 0;
    while i < plain.len()
        invariant
            i <= plain@.len(),
            ps == plain@.map_values(|p: MarkupPlain| p.view()),
            rich@.map_values(|x: MarkupRich| x.view()) == rich_items(ps.take(i as int), width, colors),
            total == total_lines(rich@.map_values(|x: MarkupRich| x.view())),
        decreases plain@.len() - i,
    {
        let ghost before = rich@.map_values(|x: MarkupRich| x.view());
        let item = rich_of(h, &plain[i], width, colors);
        let n = lines_of_item(&item);
        proof {
            lemma_lines_sum_nonneg(before);
        }
        total = if total as u32 + n as u32 >= 65535 {
            65535
        } else {
            total + n
        };
        rich.push(item);
        proof {
            let after = rich@.map_values(|x: MarkupRich| x.view());
            assert(after =~= before.push(item.view()));
            assert(after.drop_last() =~= before);
            assert(ps.take(i + 1) =~= ps.take(i as int).push(ps[i as int]));
            assert(rich_items(ps.take(i + 1), width, colors) =~= rich_items(ps.take(i as int), width, colors).push(
                rich_item(ps[i as int], width, colors),
            ));
        }
        i = i + 1;
    }
    proof {
        assert(ps.take(plain@.len() as int) =~= ps);
    }
    (rich, total)
}

/// A cluster made of a tab, made four spaces; any other cluster as it is.
pub open spec fn tab_free(g: Seq<char>) -> Seq<char> {
    if g == seq!['\t'] {
        seq![' ', ' ', ' ', ' ']
    } else {
        g
    }
}

/// A text with each tab cluster made four spaces; a text without tabs as it is.
pub open spec fn expand_tabs(s: Seq<char>) -> Seq<char> {
    if s.contains('\t') {
        concat_all(grapheme_clusters(s).map_values(|g: Seq<char>| tab_free(g)))
    } else {
        s
    }
}

/// True when a text holds a tab.
fn has_tab(s: &str) -> (b: bool)
    ensures
        b == s@.contains('\t'),
{
    let chars = chars_of(s);
    let mut i: usize = 0;
    while i < chars.len()
        invariant
            chars@ == s@,
            i <= chars@.len(),
            forall|j: int| 0 <= j < i ==> chars@[j] != '\t',
        decreases chars@.len() - i,
    {
        if chars[i] == '\t' {
            return true;
        }
        i = i + 1;
    }
    false
}

/// A cluster with each tab made four spaces.
fn cluster_tab_free(g: &str) -> (r: &str)
    ensures
        r@ == tab_free(g@),
{
    let chars = chars_of(g);
    if chars.len() == 1 && chars[0] == '\t' {
        proof {
            assert(g@ =~= seq!['\t']);
            reveal_strlit("    ");
            assert("    "@ =~= seq![' ', ' ', ' ', ' ']);
        }
        "    "
    } else {
        proof {
            if g@ == seq!['\t'] {
                assert(chars@.len() == 1 && chars@[0] == '\t');
            }
        }
        g
    }
}

/// The text with each tab cluster made four spaces.
pub fn expand_tabs_of(s: &str) -> (r: String)
    ensures
        r@ == expand_tabs(s@),
{
    if !has_tab(s) {
        return crate::text::to_string(s);
    }
    let gs = graphemes_of(s);
    let ghost views = gs@.map_values(|g: &str| g@);
    let ghost mapped = views.map_values(|g: Seq<char>| tab_free(g));
    let mut r = String::new();
    let mut i: usize = 0;
    proof {
        assert(mapped.take(0) =~= Seq::<Seq<char>>::empty());
    }
    while i < gs.len()
        invariant
            i <= gs@.len(),
            views == gs@.map_values(|g: &str| g@),
            mapped == views.map_values(|g: Seq<char>| tab_free(g)),
            r@ == concat_all(mapped.take(i as int)),
        decreases gs@.len() - i,
    {
        push_str(&mut r, cluster_tab_free(gs[i]));
        proof {
            assert(mapped.take(i + 1).drop_last() =~= mapped.take(i as int));
        }
        i = i + 1;
    }
    proof {
        assert(mapped.take(gs@.len() as int) =~= mapped);
    }
    r
}

/// The blocks of a text divided into clusters, from cluster `cur` on.
pub open spec fn blocks_from(gs: Seq<Seq<char>>, cur: int) -> Seq<BlockView>
    decreases gs.len() - cur,
    when 0 <= cur <= gs.len()
{
    match next_block(gs, cur) {
        None => seq![],
        Some(f) => {
            proof {
                law_next_block_advances(gs, cur);
            }
            seq![f.block] + blocks_from(gs, f.next)
        },
    }
}

/// What an image is loaded from: a file named in the markup, or a formula.
pub enum ImageSourceView {
    Path(Seq<char>),
    Math(Seq<char>),
}

/// What an image is loaded from.
#[derive(Debug, PartialEq, Eq)]
pub enum ImageSource {
    Path(String),
    Math(String),
}

/// An image the widget needs: its number among the images of the text and its source.
#[derive(Debug, PartialEq, Eq)]
pub struct ImageRequest {
    pub index: usize,
    pub source: ImageSource,
}

impl ImageRequest {
    /// The request as plain values.
    pub open spec fn view(&self) -> (int, ImageSourceView) {
        (
            self.index as int,
            match self.source {
                ImageSource::Path(p) => ImageSourceView::Path(p@),
                ImageSource::Math(m) => ImageSourceView::Math(m@),
            },
        )
    }
}

/// The items of a block whose images are numbered from `c`: a paragraph, a code block or a
/// break and an empty line; a heading, with an empty line when one follows it; each item of
/// a list and an empty line; an image waiting to load, its description if there is one,
/// and an empty line; a formula waiting to load and an empty line; nothing for a comment.
pub open spec fn block_items(b: BlockView, c: int) -> Seq<PlainView> {
    match b {
        BlockView::Paragraph { text, alignment } => seq![
            PlainView::Paragraph { text, alignment },
            PlainView::EmptyLine,
        ],
        BlockView::Heading { text, alignment, newline } => seq![
            PlainView::Heading { text, alignment },
        ] + if newline {
            seq![PlainView::EmptyLine]
        } else {
            seq![]
        },
        BlockView::List { text } => list_items(grapheme_clusters(text), 0).map_values(
            |t: Seq<char>| PlainView::ListItem { text: t },
        ) + seq![PlainView::EmptyLine],
        BlockView::Code { language, text } => seq![
            PlainView::Code { text, language },
            PlainView::EmptyLine,
        ],
        BlockView::Image { description, path } => seq![PlainView::ImagePending { index: c }]
            + if description.len() > 0 {
            seq![PlainView::ImageDescription { text: description }]
        } else {
            seq![]
        } + seq![PlainView::EmptyLine],
        BlockView::Math { text } => seq![
            PlainView::ImagePending { index: c },
            PlainView::EmptyLine,
        ],
        BlockView::Comment { .. } => seq![],
        BlockView::Break => seq![PlainView::Break, PlainView::EmptyLine],
    }
}

/// The images a block needs, numbered from `c`.
pub open spec fn block_requests(b: BlockView, c: int) -> Seq<(int, ImageSourceView)> {
    match b {
        BlockView::Image { path, .. } => seq![(c, ImageSourceView::Path(path))],
        BlockView::Math { text } => seq![(c, ImageSourceView::Math(text))],
        _ => seq![],
    }
}

/// How many images a block has: one for an image or a formula.
pub open spec fn image_count(b: BlockView) -> int {
    match b {
        BlockView::Image { .. } | BlockView::Math { .. } => 1,
        _ => 0,
    }
}

/// The items of blocks whose images are numbered from `c`.
pub open spec fn plain_items_from(bs: Seq<BlockView>, c: int) -> Seq<PlainView>
    decreases bs.len(),
{
    if bs.len() == 0 {
        seq![]
    } else {
        block_items(bs[0], c) + plain_items_from(bs.drop_first(), c + image_count(bs[0]))
    }
}

/// The images blocks need, numbered from `c`.
pub open spec fn requests_from(bs: Seq<BlockView>, c: int) -> Seq<(int, ImageSourceView)>
    decreases bs.len(),
{
    if bs.len() == 0 {
        seq![]
    } else {
        block_requests(bs[0], c) + requests_from(bs.drop_first(), c + image_count(bs[0]))
    }
}

/// The items without a final empty line.
pub open spec fn without_last_empty(ps: Seq<PlainView>) -> Seq<PlainView> {
    if ps.len() > 0 && ps.last() == PlainView::EmptyLine {
        ps.drop_last()
    } else {
        ps
    }
}

/// The blocks of a markup text, its tabs made spaces first.
pub open spec fn markup_blocks(markup: Seq<char>) -> Seq<BlockView> {
    blocks_from(grapheme_clusters(expand_tabs(markup)), 0)
}

/// The items of a markup text.
pub open spec fn plain_of(markup: Seq<char>) -> Seq<PlainView> {
    without_last_empty(plain_items_from(markup_blocks(markup), 0))
}

/// The images a markup text needs, numbered from zero.
pub open spec fn requests_of(markup: Seq<char>) -> Seq<(int, ImageSourceView)> {
    requests_from(markup_blocks(markup), 0)
}

/// Appends the items and the image requests of a block whose images are numbered from
/// `c`.
fn push_block(
    items: &mut Vec<MarkupPlain>,
    requests: &mut Vec<ImageRequest>,
    block: MarkupBlock,
    c: usize,
)
    requires
        block.fresh(),
    ensures
        final(items)@.map_values(|p: MarkupPlain| p.view()) == old(items)@.map_values(
            |p: MarkupPlain| p.view(),
        ) + block_items(block.view(), c as int),
        final(requests)@.map_values(|r: ImageRequest| r.view()) == old(requests)@.map_values(
            |r: ImageRequest| r.view(),
        ) + block_requests(block.view(), c as int),
{
    let ghost i0 = old(items)@.map_values(|p: MarkupPlain| p.view());
    let ghost r0 = old(requests)@.map_values(|r: ImageRequest| r.view());
    let ghost bv = block.view();
    match block {
        MarkupBlock::Paragraph { text, alignment } => {
            items.push(MarkupPlain::Paragraph { text, alignment });
            items.push(MarkupPlain::EmptyLine);
        },
        MarkupBlock::Heading { text, alignment, newline } => {
            items.push(MarkupPlain::Heading { text, alignment });
            if newline {
                items.push(MarkupPlain::EmptyLine);
            }
        },
        MarkupBlock::List { items: mut list } => {
            let ghost t0 = list.text_view();
            let ghost all = list_items(grapheme_clusters(list.text_view()), 0);
            let ghost f = |t: Seq<char>| PlainView::ListItem { text: t };
            loop
                invariant_except_break
                    items@.map_values(|p: MarkupPlain| p.view()) + list.remaining().map_values(f)
                        == i0 + all.map_values(f),
                invariant
                    list.wf(),
                    list.text_view() == t0,
                    f == (|t: Seq<char>| PlainView::ListItem { text: t }),
                ensures
                    items@.map_values(|p: MarkupPlain| p.view()) == i0 + all.map_values(f),
                decreases list.remaining().len(),
            {
                let ghost rem = list.remaining();
                let ghost before = items@.map_values(|p: MarkupPlain| p.view());
                match list.next() {
                    Some(t) => {
                        items.push(MarkupPlain::ListItem { text: t });
                        proof {
                            assert(rem.map_values(f) =~= seq![f(t@)] + rem.drop_first().map_values(f));
                            assert(items@.map_values(|p: MarkupPlain| p.view()) =~= before.push(f(t@)));
                            assert(before + rem.map_values(f) =~= items@.map_values(
                                |p: MarkupPlain| p.view(),
                            ) + list.remaining().map_values(f));
                        }
                    },
                    None => {
                        proof {
                            assert(rem.map_values(f) =~= Seq::<PlainView>::empty());
                            assert(before + rem.map_values(f) =~= before);
                        }
                        break;
                    },
                }
            }
            let ghost mid = items@.map_values(|p: MarkupPlain| p.view());
            items.push(MarkupPlain::EmptyLine);
            proof {
                assert(items@.map_values(|p: MarkupPlain| p.view()) =~= mid.push(PlainView::EmptyLine));
                assert(bv == BlockView::List { text: t0 });
                assert(block_items(bv, c as int) == all.map_values(f) + seq![PlainView::EmptyLine]);
                assert(items@.map_values(|p: MarkupPlain| p.view()) =~= i0 + block_items(bv, c as int));
            }
        },
        MarkupBlock::Code { language, text } => {
            items.push(MarkupPlain::Code { text, language });
            items.push(MarkupPlain::EmptyLine);
        },
        MarkupBlock::Image { description, path } => {
            let ghost d = description@;
            items.push(MarkupPlain::ImagePending { index: c });
            requests.push(ImageRequest { index: c, source: ImageSource::Path(path) });
            let ghost mid = items@.map_values(|p: MarkupPlain| p.view());
            if description.as_str().unicode_len() > 0 {
                items.push(MarkupPlain::ImageDescription { text: description });
            }
            let ghost mid2 = items@.map_values(|p: MarkupPlain| p.view());
            items.push(MarkupPlain::EmptyLine);
            proof {
                assert(items@.map_values(|p: MarkupPlain| p.view()) =~= mid2.push(PlainView::EmptyLine));
                if d.len() > 0 {
                    assert(mid2 =~= mid.push(PlainView::ImageDescription { text: d }));
                } else {
                    assert(mid2 =~= mid);
                }
                assert(items@.map_values(|p: MarkupPlain| p.view()) =~= i0 + block_items(bv, c as int));
            }
        },
        MarkupBlock::Math { text } => {
            items.push(MarkupPlain::ImagePending { index: c });
            requests.push(ImageRequest { index: c, source: ImageSource::Math(text) });
            items.push(MarkupPlain::EmptyLine);
        },
        MarkupBlock::Comment { .. } => {},
        MarkupBlock::Break => {
            items.push(MarkupPlain::Break);
            items.push(MarkupPlain::EmptyLine);
        },
    }
    proof {
        assert(items@.map_values(|p: MarkupPlain| p.view()) =~= i0 + block_items(bv, c as int));
        assert(requests@.map_values(|r: ImageRequest| r.view()) =~= r0 + block_requests(bv, c as int));
    }
}

/// True when an item is an empty line.
fn is_empty_line(p: &MarkupPlain) -> (b: bool)
    ensures
        b == (p.view() == PlainView::EmptyLine),
{
    match p {
        MarkupPlain::EmptyLine => true,
        _ => false,
    }
}

/// The items and image requests of a text whose tabs are already spaces.
#[verifier::spinoff_prover]
#[verifier::rlimit(40)]
fn items_of_text(text: &str) -> (r: (Vec<MarkupPlain>, Vec<ImageRequest>))
    ensures
        r.0@.map_values(|p: MarkupPlain| p.view()) == without_last_empty(
            plain_items_from(blocks_from(grapheme_clusters(text@), 0), 0),
        ),
        r.1@.map_values(|q: ImageRequest| q.view()) == requests_from(
            blocks_from(grapheme_clusters(text@), 0),
            0,
        ),
{
    let mut p = MarkupBlockParser::new(text);
    let ghost gs = p.clusters_view();
    let ghost all_items = plain_items_from(blocks_from(gs, 0), 0);
    let ghost all_requests = requests_from(blocks_from(gs, 0), 0);
    let mut items: Vec<MarkupPlain> = Vec::new();
    let mut requests: Vec<ImageRequest> = Vec::new();
    let mut c: usize = 0;
    proof {
        assert(items@.map_values(|p: MarkupPlain| p.view()) =~= Seq::<PlainView>::empty());
        assert(requests@.map_values(|q: ImageRequest| q.view()) =~= Seq::<
            (int, ImageSourceView),
        >::empty());
        assert(Seq::<PlainView>::empty() + all_items =~= all_items);
        assert(Seq::<(int, ImageSourceView)>::empty() + all_requests =~= all_requests);
    }
    loop
        invariant_except_break
            items@.map_values(|p: MarkupPlain| p.view()) + plain_items_from(
                blocks_from(gs, p.position()),
                c as int,
            ) == all_items,
            requests@.map_values(|q: ImageRequest| q.view()) + requests_from(
                blocks_from(gs, p.position()),
                c as int,
            ) == all_requests,
            c <= p.position(),
        invariant
            p.wf(),
            p.clusters_view() == gs,
            gs == grapheme_clusters(text@),
            all_items == plain_items_from(blocks_from(gs, 0), 0),
            all_requests == requests_from(blocks_from(gs, 0), 0),
        ensures
            items@.map_values(|p: MarkupPlain| p.view()) == all_items,
            requests@.map_values(|q: ImageRequest| q.view()) == all_requests,
        decreases gs.len() - p.position(),
    {
        proof {
            p.lemma_position();
            law_next_block_advances(gs, p.position());
        }
        let ghost pos = p.position();
        let ghost iv = items@.map_values(|p: MarkupPlain| p.view());
        let ghost rv = requests@.map_values(|q: ImageRequest| q.view());
        match p.next() {
            None => {
                proof {
                    assert(blocks_from(gs, pos) == Seq::<BlockView>::empty());
                    assert(iv + Seq::<PlainView>::empty() =~= iv);
                    assert(rv + Seq::<(int, ImageSourceView)>::empty() =~= rv);
                }
                break;
            },
            Some((block, _range)) => {
                let ghost b = block.view();
                let bump: usize = match block {
                    MarkupBlock::Image { .. } | MarkupBlock::Math { .. } => 1,
                    _ => 0,
                };
                proof {
                    p.lemma_position();
                    assert(bump == image_count(b));
                    let next = p.position();
                    let bs = blocks_from(gs, pos);
                    assert(bs == seq![b] + blocks_from(gs, next));
                    assert(bs.drop_first() =~= blocks_from(gs, next));
                    assert(bs[0] == b);
                }
                push_block(&mut items, &mut requests, block, c);
                c = c + bump;
                proof {
                    let next = p.position();
                    let rest = blocks_from(gs, next);
                    assert(plain_items_from(blocks_from(gs, pos), (c - bump) as int) == block_items(
                        b,
                        (c - bump) as int,
                    ) + plain_items_from(rest, c as int));
                    assert(requests_from(blocks_from(gs, pos), (c - bump) as int) == block_requests(
                        b,
                        (c - bump) as int,
                    ) + requests_from(rest, c as int));
                    assert(iv + (block_items(b, (c - bump) as int) + plain_items_from(rest, c as int))
                        =~= items@.map_values(|p: MarkupPlain| p.view()) + plain_items_from(
                        rest,
                        c as int,
                    ));
                    assert(rv + (block_requests(b, (c - bump) as int) + requests_from(
                        rest,
                        c as int,
                    )) =~= requests@.map_values(|q: ImageRequest| q.view()) + requests_from(
                        rest,
                        c as int,
                    ));
                }
            },
        }
    }
    let n = items.len();
    if n > 0 && is_empty_line(&items[n - 1]) {
        let ghost before = items@.map_values(|p: MarkupPlain| p.view());
        items.pop();
        proof {
            assert(items@.map_values(|p: MarkupPlain| p.view()) =~= before.drop_last());
        }
    }
    (items, requests)
}

/// The options a markup widget starts with.
pub open spec fn default_markup_options() -> MarkupOptions {
    MarkupOptions {
        padding: Padding { left: 0, right: 0, top: 0, bottom: 0 },
        scrollbar: false,
        scrollbar_margin: 1,
        break_char: '\u{2500}',
    }
}

/// The colors a markup widget starts with.
pub open spec fn default_markup_colors() -> MarkupColors {
    MarkupColors {
        syntax_theme: crate::markup::SyntaxHighlightTheme::Base16EightiesDark,
        scrollbar: crate::scroll::ScrollbarColors { thumb: crate::style::Color::Indexed(240), track: None },
        heading: crate::style::Color::Yellow,
        break_char: crate::style::Color::Indexed(240),
    }
}

/// The state of a markup widget as plain values: the items of the text and their layout,
/// the scroll (where it is, a move asked for, the lines there are), the hash of the text
/// and the size of the area last laid out for, the area of the text and of the scrollbar,
/// the options, the colors and the folder of the images.
pub struct MarkupView {
    pub plain: Seq<PlainView>,
    pub rich: Seq<RichView>,
    pub current: u16,
    pub desired: Option<ScrollMove>,
    pub total_lines: u16,
    pub hash: u64,
    pub size: Size,
    pub area: Rect,
    pub scroll_area: Option<Rect>,
    pub options: MarkupOptions,
    pub colors: MarkupColors,
    pub assets: Seq<char>,
}

/// What a layout gives for drawing: the area of the text, that of the scrollbar if there
/// is one, the first line shown and the number of lines.
#[derive(Debug, Clone, Copy, PartialEq, Eq)]
pub struct MarkupFrame {
    pub area: Rect,
    pub scroll_area: Option<Rect>,
    pub scroll: u16,
    pub total_lines: u16,
}

/// The rectangle of no size at the origin.
pub open spec fn zero_rect() -> Rect {
    Rect { x: 0, y: 0, width: 0, height: 0 }
}

/// The state after a new text is loaded: its items, a fresh hash, and no layout kept.
pub open spec fn loaded(v: MarkupView, markup: Seq<char>, hash: u64) -> MarkupView {
    MarkupView {
        plain: plan_of(markup),
        hash,
        size: Size { width: 0, height: 0 },
        area: zero_rect(),
        scroll_area: None,
        ..v
    }
}

/// The items of a markup text (named for the state it leads to).
pub open spec fn plan_of(markup: Seq<char>) -> Seq<PlainView> {
    plain_of(markup)
}

/// An item after the image numbered `index` loaded: the image with the rows it takes, or
/// an error that reads `ERROR` and the message on the next line.
pub open spec fn set_image(p: PlainView, index: int, outcome: Result<u16, Seq<char>>) -> PlainView {
    if p == (PlainView::ImagePending { index }) {
        match outcome {
            Ok(rows) => PlainView::Image { index, rows },
            Err(message) => PlainView::ImageError {
                text: seq!['E', 'R', 'R', 'O', 'R', '\n'] + message,
            },
        }
    } else {
        p
    }
}

/// How an image loaded, as plain values.
pub open spec fn outcome_view(o: Result<u16, String>) -> Result<u16, Seq<char>> {
    match o {
        Ok(rows) => Ok(rows),
        Err(m) => Err(m@),
    }
}

/// The scroll move a key makes: arrows a line, pages a page, home and end to the ends.
pub open spec fn scroll_key(key: Key) -> Option<ScrollMove> {
    match key {
        Key::Down => Some(ScrollMove::Down),
        Key::Up => Some(ScrollMove::Up),
        Key::PageDown => Some(ScrollMove::PageDown),
        Key::PageUp => Some(ScrollMove::PageUp),
        Key::Home => Some(ScrollMove::Start),
        Key::End => Some(ScrollMove::End),
        _ => None,
    }
}

/// The state after laying the items out in the area inside the padding of `area`: when
/// the area is the size laid out for before, the layout is kept; otherwise the items are
/// laid out anew, and again narrower beside a scrollbar when the scrollbar is on, the lines
/// do not fit and the area is wider than fifteen columns.
pub open spec fn relaid(v: MarkupView, area: Rect) -> MarkupView {
    let size = Size { width: area.width, height: area.height };
    if v.size == size {
        v
    } else {
        let inner = crate::tokens::inside_padding(area, v.options.padding);
        let rich1 = rich_items(v.plain, inner.width, v.colors);
        let total1 = total_lines(rich1);
        if v.options.scrollbar && total1 > inner.height && inner.width > 15 {
            let narrow = Rect {
                width: sat_sub(inner.width as int, 1 + v.options.scrollbar_margin) as u16,
                ..inner
            };
            let bar = Rect { x: (area.x + sat_sub(area.width as int, 1)) as u16, width: 1, ..area };
            let rich2 = rich_items(v.plain, narrow.width, v.colors);
            MarkupView {
                size,
                area: narrow,
                scroll_area: Some(bar),
                rich: rich2,
                total_lines: total_lines(rich2),
                ..v
            }
        } else {
            MarkupView { size, area: inner, scroll_area: None, rich: rich1, total_lines: total1, ..v }
        }
    }
}

/// The first line shown after the scroll is brought up to date: a move asked for is made;
/// otherwise the scroll stays, but not past the last page.
pub open spec fn updated_scroll(v: MarkupView) -> int {
    match v.desired {
        Some(sm) => scrolled(v.current as int, sm, v.total_lines as int, v.area.height as int),
        None => if v.current < sat_sub(v.total_lines as int, v.area.height as int) {
            v.current as int
        } else {
            sat_sub(v.total_lines as int, v.area.height as int)
        },
    }
}

/// What laying out for `area` gives: nothing when the area inside the padding is empty;
/// otherwise the items laid out, the scroll brought up to date, and the frame to draw.
pub open spec fn markup_frame(v: MarkupView, area: Rect) -> (MarkupView, Option<MarkupFrame>) {
    let inner = crate::tokens::inside_padding(area, v.options.padding);
    if inner.width == 0 || inner.height == 0 {
        (v, None)
    } else {
        let v1 = relaid(v, area);
        let v2 = MarkupView { current: updated_scroll(v1) as u16, desired: None, ..v1 };
        (
            v2,
            Some(
                MarkupFrame {
                    area: v2.area,
                    scroll_area: v2.scroll_area,
                    scroll: v2.current,
                    total_lines: v2.total_lines,
                },
            ),
        )
    }
}

/// A widget that shows a markup text.
pub struct Markup {
    plain: Vec<MarkupPlain>,
    rich: Vec<MarkupRich>,
    scroll: MarkupScroll,
    hash: u64,
    size: Size,
    area: Rect,
    scroll_area: Option<Rect>,
    options: MarkupOptions,
    colors: MarkupColors,
    assets: String,
    highlighter: CodeHighlighter,
}

impl View for Markup {
    type V = MarkupView;

    closed spec fn view(&self) -> MarkupView {
        MarkupView {
            plain: self.plain@.map_values(|p: MarkupPlain| p.view()),
            rich: self.rich@.map_values(|r: MarkupRich| r.view()),
            current: self.scroll.current,
            desired: self.scroll.desired,
            total_lines: self.scroll.total_lines,
            hash: self.hash,
            size: self.size,
            area: self.area,
            scroll_area: self.scroll_area,
            options: self.options,
            colors: self.colors,
            assets: self.assets@,
        }
    }
}

impl Markup {
    /// An empty widget whose images come from the folder `assets`.
    pub fn new(assets: String) -> (m: Self)
        ensures
            m@ == (MarkupView {
                plain: seq![],
                rich: seq![],
                current: 0,
                desired: None,
                total_lines: 0,
                hash: 0,
                size: Size { width: 0, height: 0 },
                area: zero_rect(),
                scroll_area: None,
                options: default_markup_options(),
                colors: default_markup_colors(),
                assets: assets@,
            }),
    {
        let m = Markup {
            plain: Vec::new(),
            rich: Vec::new(),
            scroll: MarkupScroll::new(),
            hash: 0,
            size: Size { width: 0, height: 0 },
            area: Rect { x: 0, y: 0, width: 0, height: 0 },
            scroll_area: None,
            options: MarkupOptions::new(),
            colors: MarkupColors::new(),
            assets,
            highlighter: CodeHighlighter::new(),
        };
        proof {
            assert(m.plain@.map_values(|p: MarkupPlain| p.view()) =~= Seq::<PlainView>::empty());
            assert(m.rich@.map_values(|r: MarkupRich| r.view()) =~= Seq::<RichView>::empty());
        }
        m
    }

    /// The same widget with other options.
    pub fn with_options(self, options: MarkupOptions) -> (m: Self)
        ensures
            m@ == (MarkupView { options, ..self@ }),
    {
        Markup { options, ..self }
    }

    /// The same widget with other colors.
    pub fn with_colors(self, colors: MarkupColors) -> (m: Self)
        ensures
            m@ == (MarkupView { colors, ..self@ }),
    {
        Markup { colors, ..self }
    }

    /// Sets the colors.
    pub fn set_colors(&mut self, colors: MarkupColors)
        ensures
            final(self)@ == (MarkupView { colors, ..old(self)@ }),
    {
        self.colors = colors;
    }

    /// The first line shown.
    pub fn scroll_index(&self) -> (i: u16)
        ensures
            i == self@.current,
    {
        self.scroll.current
    }

    /// Asks for a scroll move, made at the next layout.
    pub fn set_desired_scroll(&mut self, sm: ScrollMove)
        ensures
            final(self)@ == (MarkupView { desired: Some(sm), ..old(self)@ }),
    {
        self.scroll.desired = Some(sm);
    }

    /// The folder the images come from.
    pub fn assets(&self) -> (s: &str)
        ensures
            s@ == self@.assets,
    {
        self.assets.as_str()
    }

    /// The items laid out, for drawing them.
    pub fn rich(&self) -> (r: &Vec<MarkupRich>)
        ensures
            r@.map_values(|x: MarkupRich| x.view()) == self@.rich,
    {
        &self.rich
    }

    /// The items of the text.
    pub fn plain(&self) -> (r: &Vec<MarkupPlain>)
        ensures
            r@.map_values(|x: MarkupPlain| x.view()) == self@.plain,
    {
        &self.plain
    }

    /// Scrolls by a move in the area last laid out; true when the first line shown changed.
    pub fn scroll(&mut self, sm: ScrollMove) -> (changed: bool)
        requires
            sm == ScrollMove::Down ==> old(self)@.current < u16::MAX,
            sm == ScrollMove::PageDown ==> old(self)@.current + old(self)@.area.height <= u16::MAX,
        ensures
            final(self)@ == (MarkupView {
                current: scrolled(
                    old(self)@.current as int,
                    sm,
                    old(self)@.total_lines as int,
                    old(self)@.area.height as int,
                ) as u16,
                ..old(self)@
            }),
            changed == (final(self)@.current != old(self)@.current),
    {
        let old_scroll = self.scroll.current;
        self.scroll.set(sm, self.area.height);
        self.scroll.current != old_scroll
    }

    /// Scrolls by the move a key makes, if any; true when the first line shown changed.
    pub fn input(&mut self, key: Key) -> (changed: bool)
        requires
            key == Key::Down ==> old(self)@.current < u16::MAX,
            key == Key::PageDown ==> old(self)@.current + old(self)@.area.height <= u16::MAX,
        ensures
            match scroll_key(key) {
                Some(sm) => final(self)@ == (MarkupView {
                    current: scrolled(
                        old(self)@.current as int,
                        sm,
                        old(self)@.total_lines as int,
                        old(self)@.area.height as int,
                    ) as u16,
                    ..old(self)@
                }) && changed == (final(self)@.current != old(self)@.current),
                None => final(self)@ == old(self)@ && !changed,
            },
    {
        match key {
            Key::Down => self.scroll(ScrollMove::Down),
            Key::Up => self.scroll(ScrollMove::Up),
            Key::PageDown => self.scroll(ScrollMove::PageDown),
            Key::PageUp => self.scroll(ScrollMove::PageUp),
            Key::Home => self.scroll(ScrollMove::Start),
            Key::End => self.scroll(ScrollMove::End),
            _ => false,
        }
    }

    /// Forgets the text, its layout and the scroll.
    pub fn clear(&mut self)
        ensures
            final(self)@ == (MarkupView {
                plain: seq![],
                rich: seq![],
                current: 0,
                desired: None,
                total_lines: 0,
                hash: 0,
                size: Size { width: 0, height: 0 },
                area: zero_rect(),
                scroll_area: None,
                ..old(self)@
            }),
    {
        self.plain = Vec::new();
        self.rich = Vec::new();
        self.scroll.clear();
        self.hash = 0;
        self.size = Size { width: 0, height: 0 };
        self.area = Rect { x: 0, y: 0, width: 0, height: 0 };
        self.scroll_area = None;
        proof {
            assert(self.plain@.map_values(|p: MarkupPlain| p.view()) =~= Seq::<PlainView>::empty());
            assert(self.rich@.map_values(|r: MarkupRich| r.view()) =~= Seq::<RichView>::empty());
        }
    }

    /// Loads a markup text, unless its hash is the one of the text loaded last, as
    /// `load_hashed` does with the text's hash in this run.
    pub fn load_markup(&mut self, markup: &str) -> (requests: Vec<ImageRequest>)
        ensures
            final(self)@.hash == old(self)@.hash ==> final(self)@ == old(self)@
                && requests@.len() == 0,
            final(self)@.hash != old(self)@.hash ==> final(self)@ == loaded(
                old(self)@,
                markup@,
                final(self)@.hash,
            ) && requests@.map_values(|q: ImageRequest| q.view()) == requests_of(markup@),
    {
        let hash = crate::text::hash_fast(markup);
        self.load_hashed(markup, hash)
    }

    /// Loads a markup text whose hash is `hash`, unless that is the hash of the text loaded
    /// last: its tabs are made spaces, its blocks become items, and the layout is dropped.
    /// Returns the images the text needs; each waits as pending until `image_loaded` tells
    /// how it loaded.
    pub fn load_hashed(&mut self, markup: &str, hash: u64) -> (requests: Vec<ImageRequest>)
        ensures
            hash == old(self)@.hash ==> final(self)@ == old(self)@ && requests@.len() == 0,
            hash != old(self)@.hash ==> final(self)@ == loaded(old(self)@, markup@, hash)
                && requests@.map_values(|q: ImageRequest| q.view()) == requests_of(markup@),
    {
        if hash == self.hash {
            return Vec::new();
        }
        let text = expand_tabs_of(markup);
        let (items, requests) = items_of_text(text.as_str());
        self.plain = items;
        self.hash = hash;
        self.size = Size { width: 0, height: 0 };
        self.area = Rect { x: 0, y: 0, width: 0, height: 0 };
        self.scroll_area = None;
        requests
    }

    /// Tells how the image numbered `index` loaded: with the rows it takes, or with an
    /// error message.
    pub fn image_loaded(&mut self, index: usize, outcome: Result<u16, String>)
        ensures
            final(self)@ == (MarkupView {
                plain: old(self)@.plain.map_values(
                    |p: PlainView| set_image(p, index as int, outcome_view(outcome)),
                ),
                ..old(self)@
            }),
    {
        let ghost oc = outcome_view(outcome);
        let ghost old_plain = self.plain@.map_values(|p: MarkupPlain| p.view());
        let mut items: Vec<MarkupPlain> = Vec::new();
        let mut plain = Vec::new();
        std::mem::swap(&mut plain, &mut self.plain);
        let mut i: usize = 0;
        let ghost src = plain@.map_values(|p: MarkupPlain| p.view());
        proof {
            assert(src == old_plain);
            assert(items@.map_values(|p: MarkupPlain| p.view()) =~= src.take(0).map_values(
                |p: PlainView| set_image(p, index as int, oc),
            ));
        }
        while i < plain.len()
            invariant
                i <= plain@.len(),
                src == plain@.map_values(|p: MarkupPlain| p.view()),
                items@.map_values(|p: MarkupPlain| p.view()) == src.take(i as int).map_values(
                    |p: PlainView| set_image(p, index as int, oc),
                ),
                oc == outcome_view(outcome),
            decreases plain@.len() - i,
        {
            let ghost before = items@.map_values(|p: MarkupPlain| p.view());
            let item = loaded_item(&plain[i], index, &outcome);
            let ghost iv = item.view();
            items.push(item);
            proof {
                assert(src[i as int] == plain@[i as int].view());
                assert(iv == set_image(src[i as int], index as int, oc));
                assert(items@.map_values(|p: MarkupPlain| p.view()) =~= before.push(iv));
                assert(src.take(i + 1) =~= src.take(i as int).push(src[i as int]));
                assert(src.take(i + 1).map_values(|p: PlainView| set_image(p, index as int, oc))
                    =~= src.take(i as int).map_values(|p: PlainView| set_image(p, index as int, oc)).push(
                    set_image(src[i as int], index as int, oc),
                ));
                assert(items@.map_values(|p: MarkupPlain| p.view()) =~= src.take(i + 1).map_values(
                    |p: PlainView| set_image(p, index as int, oc),
                ));
            }
            i = i + 1;
        }
        proof {
            assert(src.take(plain@.len() as int) =~= src);
        }
        self.plain = items;
    }

    /// Lays the items out anew for `width` columns, code blocks highlighted, and counts
    /// their lines.
    pub fn relayout(&mut self, width: u16)
        ensures
            final(self)@ == (MarkupView {
                rich: rich_items(old(self)@.plain, width, old(self)@.colors),
                total_lines: total_lines(rich_items(old(self)@.plain, width, old(self)@.colors)),
                ..old(self)@
            }),
    {
        let (rich, total) = layout_items(&self.highlighter, &self.plain, width, self.colors);
        self.rich = rich;
        self.scroll.total_lines = total;
    }

    /// Lays the items out for `area` as `markup_frame` says, and gives the frame to draw.
    pub fn layout(&mut self, area: Rect) -> (f: Option<MarkupFrame>)
        requires
            area.x + old(self)@.options.padding.left <= u16::MAX,
            area.y + old(self)@.options.padding.top <= u16::MAX,
            old(self)@.options.padding.left + old(self)@.options.padding.right <= u16::MAX,
            old(self)@.options.padding.top + old(self)@.options.padding.bottom <= u16::MAX,
            area.x + area.width <= u16::MAX,
            old(self)@.options.scrollbar_margin < u16::MAX,
            old(self)@.desired == Some(ScrollMove::Down) ==> old(self)@.current < u16::MAX,
            old(self)@.desired == Some(ScrollMove::PageDown) ==> old(self)@.current + relaid(
                old(self)@,
                area,
            ).area.height <= u16::MAX,
        ensures
            (final(self)@, f) == markup_frame(old(self)@, area),
    {
        let inner = area.inner_padding(self.options.padding);
        if inner.is_empty() {
            return None;
        }
        let size = area.as_size();
        if !(self.size.width == size.width && self.size.height == size.height) {
            self.size = size;
            self.area = inner;
            self.scroll_area = None;
            self.relayout(inner.width);
            let total = self.scroll.total_lines;
            if self.options.scrollbar && total > inner.height && inner.width > 15 {
                let mut rest = area;
                let bar = crate::scroll::Scrollbar::make_scroll_area_with_margin(
                    &mut rest,
                    self.options.scrollbar_margin,
                );
                let used: u32 = 1 + self.options.scrollbar_margin as u32;
                self.area.width = if inner.width as u32 > used {
                    (inner.width as u32 - used) as u16
                } else {
                    0
                };
                self.scroll_area = Some(bar);
                let width = self.area.width;
                self.relayout(width);
            }
        }
        let height = self.area.height;
        self.scroll.update(height);
        Some(
            MarkupFrame {
                area: self.area,
                scroll_area: self.scroll_area,
                scroll: self.scroll.current,
                total_lines: self.scroll.total_lines,
            },
        )
    }
}

/// An item after the image numbered `index` loaded, as `set_image` says.
fn loaded_item(p: &MarkupPlain, index: usize, outcome: &Result<u16, String>) -> (r: MarkupPlain)
    ensures
        r.view() == set_image(p.view(), index as int, outcome_view(*outcome)),
{
    match p {
        MarkupPlain::ImagePending { index: j } => {
            if *j == index {
                match outcome {
                    Ok(rows) => MarkupPlain::Image { index, rows: *rows },
                    Err(message) => {
                        let mut text = String::new();
                        push_char(&mut text, 'E');
                        push_char(&mut text, 'R');
                        push_char(&mut text, 'R');
                        push_char(&mut text, 'O');
                        push_char(&mut text, 'R');
                        push_char(&mut text, '\n');
                        push_str(&mut text, message.as_str());
                        proof {
                            assert(text@ =~= seq!['E', 'R', 'R', 'O', 'R', '\n'] + message@);
                        }
                        MarkupPlain::ImageError { text }
                    },
                }
            } else {
                MarkupPlain::ImagePending { index: *j }
            }
        },
        other => copy_plain(other),
    }
}

/// A copy of an item.
fn copy_plain(p: &MarkupPlain) -> (r: MarkupPlain)
    ensures
        r.view() == p.view(),
{
    match p {
        MarkupPlain::Paragraph { text, alignment } => MarkupPlain::Paragraph {
            text: crate::text::to_string(text.as_str()),
            alignment: *alignment,
        },
        MarkupPlain::Heading { text, alignment } => MarkupPlain::Heading {
            text: crate::text::to_string(text.as_str()),
            alignment: *alignment,
        },
        MarkupPlain::ListItem { text } => MarkupPlain::ListItem {
            text: crate::text::to_string(text.as_str()),
        },
        MarkupPlain::Code { text, language } => MarkupPlain::Code {
            text: crate::text::to_string(text.as_str()),
            language: crate::text::to_string(language.as_str()),
        },
        MarkupPlain::Image { index, rows } => MarkupPlain::Image { index: *index, rows: *rows },
        MarkupPlain::ImagePending { index } => MarkupPlain::ImagePending { index: *index },
        MarkupPlain::ImageError { text } => MarkupPlain::ImageError {
            text: crate::text::to_string(text.as_str()),
        },
        MarkupPlain::ImageDescription { text } => MarkupPlain::ImageDescription {
            text: crate::text::to_string(text.as_str()),
        },
        MarkupPlain::Break => MarkupPlain::Break,
        MarkupPlain::EmptyLine => MarkupPlain::EmptyLine,
    }
}

/// A row to draw in the area of the text, `y` rows below its top: a line of a laid-out
/// text item, the part of an image that shows, or a break.
#[derive(Debug, Clone, Copy, PartialEq, Eq)]
pub enum DrawRow {
    Line { item: usize, line: usize, y: u16 },
    Image { index: usize, y: u16, rows: u16, rows_outside_top: u16 },
    Break { y: u16 },
}

/// Where drawing stands: the line of the text reached, the rows of the area left, and the
/// rows drawn so far.
pub struct DrawState {
    pub line: int,
    pub left: int,
    pub rows: Seq<DrawRow>,
}

/// Drawing stops once the area is full or the lines reached are past the view.
pub open spec fn draw_done(st: DrawState, bot: int) -> bool {
    st.left == 0 || st.line >= bot
}

/// The first `n` lines of text item `item`, drawn from state `st` for a view of the lines
/// `top` to `bot` in an area `height` rows high: each line in the view takes a row.
pub open spec fn text_fold(st: DrawState, item: int, n: int, top: int, bot: int, height: int) -> DrawState
    decreases n,
{
    if n <= 0 {
        st
    } else {
        let s = text_fold(st, item, n - 1, top, bot, height);
        if draw_done(s, bot) {
            s
        } else if top <= s.line {
            DrawState {
                line: s.line + 1,
                left: s.left - 1,
                rows: s.rows.push(DrawRow::Line { item: item as usize, line: (n - 1) as usize, y: (height - s.left) as u16 }),
            }
        } else {
            DrawState { line: s.line + 1, ..s }
        }
    }
}

/// An item drawn from state `st`: a text line by line; an image when any of its rows is in
/// the view, cut at the top of the view when it starts above it and at the bottom of the
/// area; a break or an empty line when in the view, taking a row.
pub open spec fn item_step(st: DrawState, r: RichView, item: int, top: int, bot: int, height: int) -> DrawState {
    if draw_done(st, bot) {
        st
    } else {
        match r {
            RichView::Text { text, .. } => text_fold(st, item, lines_from(text, 0).len() as int, top, bot, height),
            RichView::Image { index, rows } => {
                if sat_sub(top, sat_sub(rows as int, 1)) <= st.line {
                    let outside = if st.left == height {
                        if st.line < top {
                            top - st.line
                        } else {
                            st.line - top
                        }
                    } else {
                        0
                    };
                    let wanted = sat_sub(rows as int, outside);
                    let shown = if wanted < st.left {
                        wanted
                    } else {
                        st.left
                    };
                    DrawState {
                        line: st.line + rows,
                        left: st.left - shown,
                        rows: st.rows.push(DrawRow::Image {
                            index: index as usize,
                            y: (height - st.left) as u16,
                            rows: shown as u16,
                            rows_outside_top: outside as u16,
                        }),
                    }
                } else {
                    DrawState { line: st.line + rows, ..st }
                }
            },
            RichView::Break => if top <= st.line {
                DrawState {
                    line: st.line + 1,
                    left: st.left - 1,
                    rows: st.rows.push(DrawRow::Break { y: (height - st.left) as u16 }),
                }
            } else {
                DrawState { line: st.line + 1, ..st }
            },
            RichView::EmptyLine => if top <= st.line {
                DrawState { line: st.line + 1, left: st.left - 1, ..st }
            } else {
                DrawState { line: st.line + 1, ..st }
            },
        }
    }
}

/// The first `n` items drawn for a view of the lines `top` to `bot` in an area `height`
/// rows high.
pub open spec fn draw_fold(rs: Seq<RichView>, n: int, top: int, bot: int, height: int) -> DrawState
    decreases n,
{
    if n <= 0 {
        DrawState { line: 0, left: height, rows: seq![] }
    } else {
        item_step(draw_fold(rs, n - 1, top, bot, height), rs[n - 1], n - 1, top, bot, height)
    }
}

/// The rows to draw for the widget's state: its items in the view from the first line
/// shown, in the area of the text.
pub open spec fn draw_plan(v: MarkupView) -> Seq<DrawRow> {
    draw_fold(
        v.rich,
        v.rich.len() as int,
        v.current as int,
        v.current + v.area.height,
        v.area.height as int,
    ).rows
}

/// The state a markup text is laid out from: the state as it was when the text's hash is
/// the one loaded last, the text loaded otherwise.
pub open spec fn state_for(v: MarkupView, markup: Seq<char>, hash: u64) -> MarkupView {
    if hash == v.hash {
        v
    } else {
        loaded(v, markup, hash)
    }
}

impl Markup {
    /// Shows a markup text in `area`, as `render_hashed` does with the text's hash in this
    /// run; nothing is hashed when the area inside the padding is empty.
    pub fn render(&mut self, area: Rect, markup: &str) -> (r: Option<(Vec<ImageRequest>, MarkupFrame, Vec<DrawRow>)>)
        requires
            area.x + old(self)@.options.padding.left <= u16::MAX,
            area.y + old(self)@.options.padding.top <= u16::MAX,
            old(self)@.options.padding.left + old(self)@.options.padding.right <= u16::MAX,
            old(self)@.options.padding.top + old(self)@.options.padding.bottom <= u16::MAX,
            area.x + area.width <= u16::MAX,
            old(self)@.options.scrollbar_margin < u16::MAX,
            old(self)@.desired == Some(ScrollMove::Down) ==> old(self)@.current < u16::MAX,
            old(self)@.desired == Some(ScrollMove::PageDown) ==> old(self)@.current + relaid(
                old(self)@,
                area,
            ).area.height <= u16::MAX && old(self)@.current + crate::tokens::inside_padding(
                area,
                old(self)@.options.padding,
            ).height <= u16::MAX,
        ensures
            ({
                let inner = crate::tokens::inside_padding(area, old(self)@.options.padding);
                if inner.width == 0 || inner.height == 0 {
                    r is None && final(self)@ == old(self)@
                } else {
                    match r {
                        Some((requests, frame, rows)) => {
                            &&& (final(self)@, Some(frame)) == markup_frame(
                                state_for(old(self)@, markup@, final(self)@.hash),
                                area,
                            )
                            &&& rows@ == draw_plan(final(self)@)
                            &&& final(self)@.hash == old(self)@.hash ==> requests@.len() == 0
                            &&& final(self)@.hash != old(self)@.hash ==> requests@.map_values(
                                |q: ImageRequest| q.view(),
                            ) == requests_of(markup@)
                        },
                        None => false,
                    }
                }
            }),
    {
        let inner = area.inner_padding(self.options.padding);
        if inner.is_empty() {
            return None;
        }
        let hash = crate::text::hash_fast(markup);
        self.render_hashed(area, markup, hash)
    }

    /// Shows a markup text whose hash is `hash` in `area`: nothing when the area inside the
    /// padding is empty; otherwise the text is loaded as `load_hashed` does, laid out as
    /// `layout` does, and the images the text needs, the frame and the rows to draw are
    /// given.
    pub fn render_hashed(&mut self, area: Rect, markup: &str, hash: u64) -> (r: Option<(Vec<ImageRequest>, MarkupFrame, Vec<DrawRow>)>)
        requires
            area.x + old(self)@.options.padding.left <= u16::MAX,
            area.y + old(self)@.options.padding.top <= u16::MAX,
            old(self)@.options.padding.left + old(self)@.options.padding.right <= u16::MAX,
            old(self)@.options.padding.top + old(self)@.options.padding.bottom <= u16::MAX,
            area.x + area.width <= u16::MAX,
            old(self)@.options.scrollbar_margin < u16::MAX,
            old(self)@.desired == Some(ScrollMove::Down) ==> old(self)@.current < u16::MAX,
            old(self)@.desired == Some(ScrollMove::PageDown) ==> old(self)@.current + relaid(
                old(self)@,
                area,
            ).area.height <= u16::MAX && old(self)@.current + crate::tokens::inside_padding(
                area,
                old(self)@.options.padding,
            ).height <= u16::MAX,
        ensures
            ({
                let inner = crate::tokens::inside_padding(area, old(self)@.options.padding);
                if inner.width == 0 || inner.height == 0 {
                    r is None && final(self)@ == old(self)@
                } else {
                    match r {
                        Some((requests, frame, rows)) => {
                            &&& (final(self)@, Some(frame)) == markup_frame(
                                state_for(old(self)@, markup@, hash),
                                area,
                            )
                            &&& rows@ == draw_plan(final(self)@)
                            &&& hash == old(self)@.hash ==> requests@.len() == 0
                            &&& hash != old(self)@.hash ==> requests@.map_values(
                                |q: ImageRequest| q.view(),
                            ) == requests_of(markup@)
                        },
                        None => false,
                    }
                }
            }),
    {
        let inner = area.inner_padding(self.options.padding);
        if inner.is_empty() {
            return None;
        }
        let requests = self.load_hashed(markup, hash);
        let ghost mid = self@;
        proof {
            if mid != old(self)@ {
                assert(relaid(mid, area).area.height == inner.height);
            }
        }
        match self.layout(area) {
            Some(frame) => {
                let rows = self.draw_rows();
                Some((requests, frame, rows))
            },
            None => None,
        }
    }

    /// The rows to draw, as `draw_plan` says.
    pub fn draw_rows(&self) -> (rows: Vec<DrawRow>)
        ensures
            rows@ == draw_plan(self@),
    {
        let ghost rs = self@.rich;
        let height: u64 = self.area.height as u64;
        let top: u64 = self.scroll.current as u64;
        let bot: u64 = top + height;
        let mut line: u64 = 0;
        let mut left: u64 = height;
        let mut rows: Vec<DrawRow> = Vec::new();
        let mut i: usize = 0;
        while i < self.rich.len()
            invariant
                i <= self.rich@.len(),
                rs == self@.rich,
                rs == self.rich@.map_values(|r: MarkupRich| r.view()),
                height == self@.area.height,
                top == self@.current,
                bot == top + height,
                height <= u16::MAX,
                top <= u16::MAX,
                ({
                    let st = draw_fold(rs, i as int, top as int, bot as int, height as int);
                    &&& st.line == line
                    &&& st.left == left
                    &&& st.rows == rows@
                }),
                left <= height,
                line <= bot + u16::MAX,
            decreases self.rich@.len() - i,
        {
            if !(left == 0 || line >= bot) {
                match &self.rich[i] {
                    MarkupRich::Text { text, .. } => {
                        let n = lines_of(text.as_str()).len();
                        let mut j: usize = 0;
                        let ghost st0 = DrawState { line: line as int, left: left as int, rows: rows@ };
                        while j < n
                            invariant
                                j <= n,
                                left <= height,
                                height <= u16::MAX,
                                bot == top + height,
                                top <= u16::MAX,
                                ({
                                    let st = text_fold(st0, i as int, j as int, top as int, bot as int, height as int);
                                    &&& st.line == line
                                    &&& st.left == left
                                    &&& st.rows == rows@
                                }),
                                line <= bot + u16::MAX,
                            decreases n - j,
                        {
                            if !(left == 0 || line >= bot) {
                                if top <= line {
                                    rows.push(DrawRow::Line { item: i, line: j, y: (height - left) as u16 });
                                    left = left - 1;
                                }
                                line = line + 1;
                            }
                            j = j + 1;
                        }
                        proof {
                            assert(n == lines_from(text@, 0).len());
                        }
                    },
                    MarkupRich::Image { index, rows: r } => {
                        let r64 = *r as u64;
                        let lead: u64 = if r64 >= 1 { r64 - 1 } else { 0 };
                        let from: u64 = if top > lead { top - lead } else { 0 };
                        if from <= line {
                            let outside: u64 = if left == height {
                                if line < top { top - line } else { line - top }
                            } else {
                                0
                            };
                            let wanted: u64 = if r64 > outside { r64 - outside } else { 0 };
                            let shown: u64 = if wanted < left { wanted } else { left };
                            rows.push(DrawRow::Image {
                                index: *index,
                                y: (height - left) as u16,
                                rows: shown as u16,
                                rows_outside_top: outside as u16,
                            });
                            left = left - shown;
                        }
                        line = line + r64;
                    },
                    MarkupRich::Break => {
                        if top <= line {
                            rows.push(DrawRow::Break { y: (height - left) as u16 });
                            left = left - 1;
                        }
                        line = line + 1;
                    },
                    MarkupRich::EmptyLine => {
                        if top <= line {
                            left = left - 1;
                        }
                        line = line + 1;
                    },
                }
            }
            proof {
                assert(rs[i as int] == self.rich@[i as int].view());
            }
            i = i + 1;
        }
        rows
    }
}

} // verus!
