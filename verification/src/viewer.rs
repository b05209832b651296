//! A viewer of escape-coded text: it wraps the text to the width of its area, remembers
//! which text and area it laid out for, and scrolls when it shows the text as a page.
use vstd::prelude::*;

use crate::ansi::{fill_inplace, wrapped_text};
use crate::layout::{sat_sub, HorizontalAlignment, Padding, Rect, Size};
use crate::list::Key;
use crate::scroll::{
    scroll_position, scrolled, ScrollMove, ScrollableData, Scrollbar, ScrollbarColors,
    ScrollbarData,
};
use crate::text::{chars_of, hash_fast, push_str, string_clear};
use crate::widgets::AnsiViewMode;

verus! {

/// The number of times `c` occurs in `s`.
pub open spec fn count_char(s: Seq<char>, c: char) -> nat
    decreases s.len(),
{
    if s.len() == 0 {
        0
    } else {
        count_char(s.drop_last(), c) + if s.last() == c {
            1nat
        } else {
            0nat
        }
    }
}

/// The number of lines of a text, as `str::lines` hands them out: one per line break, and
/// one more for a last line that does not end in a line break.
pub open spec fn line_count(s: Seq<char>) -> nat {
    count_char(s, '\n') + if s.len() > 0 && s.last() != '\n' {
        1nat
    } else {
        0nat
    }
}

/// The number of lines of a text.
pub fn lines_in(s: &str) -> (n: usize)
    requires
        s@.len() < usize::MAX,
    ensures
        n == line_count(s@),
{
    let chars = chars_of(s);
    let len = chars.len();
    let mut count: usize = 0;
    let mut i: usize = 0;
    while i < len
        invariant
            len == chars@.len(),
            chars@ == s@,
            i <= len,
            len < usize::MAX,
            count == count_char(chars@.subrange(0, i as int), '\n'),
            count <= i,
        decreases len - i,
    {
        proof {
            assert(chars@.subrange(0, i + 1).drop_last() =~= chars@.subrange(0, i as int));
        }
        if chars[i] == '\n' {
            count = count + 1;
        }
        i = i + 1;
    }
    proof {
        assert(chars@.subrange(0, len as int) =~= chars@);
    }
    if len > 0 && chars[len - 1] != '\n' {
        count + 1
    } else {
        count
    }
}

/// The padding around the text and how its lines are placed.
#[derive(Debug, Clone, Copy, PartialEq, Eq, Structural)]
pub struct AnsiViewerOptions {
    pub padding: Padding,
    pub text_alignment: HorizontalAlignment,
}

impl AnsiViewerOptions {
    /// No padding, lines on the left.
    pub fn new() -> (o: Self)
        ensures
            o.padding == (Padding { left: 0, right: 0, top: 0, bottom: 0 }),
            o.text_alignment == HorizontalAlignment::Left,
    {
        AnsiViewerOptions {
            padding: Padding { left: 0, right: 0, top: 0, bottom: 0 },
            text_alignment: HorizontalAlignment::Left,
        }
    }
}

/// The colors of the viewer's scrollbar.
#[derive(Debug, Clone, Copy, PartialEq, Eq, Structural)]
pub struct AnsiViewerColors {
    pub scrollbar: ScrollbarColors,
}

impl AnsiViewerColors {
    /// The default scrollbar colors.
    pub fn new() -> (c: Self)
        ensures
            c.scrollbar.thumb == crate::style::Color::Indexed(240),
            c.scrollbar.track is None,
    {
        AnsiViewerColors { scrollbar: ScrollbarColors::default_colors() }
    }
}

/// The state of a viewer as plain values: the wrapped text, the scroll, the hash and area
/// size it was laid out for, the size of the text's view, its number of lines, the
/// scrollbar's column, the mode, the options and the colors.
pub struct AnsiViewerView {
    pub text: Seq<char>,
    pub scroll: u16,
    pub hash: u64,
    pub size: Size,
    pub view: Size,
    pub lines: u16,
    pub scroll_area: Option<Rect>,
    pub mode: AnsiViewMode,
    pub options: AnsiViewerOptions,
    pub colors: AnsiViewerColors,
}

/// A scrollbar: the column it is drawn in and what it shows.
#[derive(Debug, Clone, Copy, PartialEq, Eq, Structural)]
pub struct ViewerScrollbar {
    pub area: Rect,
    pub data: ScrollbarData,
}

/// Where a frame of the viewer is drawn: the area of the text, how many of its lines are
/// scrolled past, and the scrollbar with its column, if one is shown.
#[derive(Debug, Clone, Copy, PartialEq, Eq, Structural)]
pub struct AnsiViewerFrame {
    pub inner: Rect,
    pub skip: u16,
    pub scrollbar: Option<ViewerScrollbar>,
}

/// The number of lines of a wrapped text, as a 16-bit count (it wraps around above
/// 65535 lines).
pub open spec fn lines_u16(text: Seq<char>) -> u16 {
    (line_count(text) % 65536) as u16
}

/// The state after wrapping `ansi` to `width` columns.
pub open spec fn relaid(v: AnsiViewerView, ansi: Seq<char>, width: u16) -> AnsiViewerView {
    AnsiViewerView {
        text: wrapped_text(ansi, width as usize),
        lines: lines_u16(wrapped_text(ansi, width as usize)),
        ..v
    }
}

/// The area inside the padding.
pub open spec fn padded(area: Rect, p: Padding) -> Rect {
    Rect {
        x: (area.x + p.left) as u16,
        y: (area.y + p.top) as u16,
        width: sat_sub(area.width as int, p.left + p.right) as u16,
        height: sat_sub(area.height as int, p.top + p.bottom) as u16,
    }
}

/// The scrollbar of a state, if it has a column for one.
pub open spec fn scrollbar_of(v: AnsiViewerView) -> Option<ViewerScrollbar> {
    match v.scroll_area {
        Some(sa) => Some(
            ViewerScrollbar {
                area: sa,
                data: ScrollbarData {
                    viewport_height: v.size.height,
                    current_scroll: v.scroll as usize,
                    total_items: v.lines as usize,
                },
            },
        ),
        None => None,
    }
}

/// A frame laid out for `area` and the text `ansi`, whose hash in this run is `hash`: the
/// state afterwards and where the frame is drawn. Nothing happens when the padding leaves
/// no room. The text is wrapped again to the inner width when its hash or the area's size
/// differ from the last frame's. Shown as text, the frame starts at the first line, and
/// with `center_vertical` it is as high as the text (at most the inner height) and centred
/// in the area. Shown as a page, a text with more lines than the view, in a view wider
/// than 15 columns, gets a scrollbar in the area's last column when the mode asks for one
/// and is wrapped again to what is left beside it and its margin; then the scroll is kept
/// within the text, and the frame skips the lines scrolled past.
pub open spec fn viewer_frame(v: AnsiViewerView, area: Rect, ansi: Seq<char>, hash: u64) -> (
    AnsiViewerView,
    Option<AnsiViewerFrame>,
) {
    let inner = padded(area, v.options.padding);
    if inner.width == 0 || inner.height == 0 {
        (v, None)
    } else {
        let size = Size { width: area.width, height: area.height };
        let v1 = if v.hash != hash || v.size != size {
            relaid(
                AnsiViewerView {
                    size,
                    hash,
                    view: Size { width: inner.width, height: inner.height },
                    scroll_area: None,
                    ..v
                },
                ansi,
                inner.width,
            )
        } else {
            v
        };
        match v.mode {
            AnsiViewMode::Text { center_vertical } => {
                let h = if center_vertical && v1.lines < inner.height {
                    v1.lines
                } else {
                    inner.height
                };
                let y = if center_vertical {
                    (area.y + sat_sub(area.height as int, h as int) / 2) as u16
                } else {
                    inner.y
                };
                (v1, Some(AnsiViewerFrame { inner: Rect { height: h, y, ..inner }, skip: 0, scrollbar: None }))
            },
            AnsiViewMode::Page { scrollbar, scrollbar_margin } => {
                let scrollable = scrollbar && v1.lines > inner.height && inner.width > 15;
                let column = Rect { x: (area.x + sat_sub(area.width as int, 1)) as u16, width: 1, ..area };
                let w2 = sat_sub(inner.width as int, 1 + scrollbar_margin) as u16;
                let v2 = if scrollable {
                    relaid(
                        AnsiViewerView {
                            view: Size { width: w2, height: inner.height },
                            scroll_area: Some(column),
                            ..v1
                        },
                        ansi,
                        w2,
                    )
                } else {
                    v1
                };
                let last = sat_sub(v2.lines as int, v2.view.height as int);
                let v3 = AnsiViewerView {
                    scroll: if v2.scroll < last {
                        v2.scroll
                    } else {
                        last as u16
                    },
                    ..v2
                };
                let inner2 = if scrollable {
                    Rect { width: w2, ..inner }
                } else {
                    inner
                };
                (v3, Some(AnsiViewerFrame { inner: inner2, skip: v3.scroll, scrollbar: scrollbar_of(v3) }))
            },
        }
    }
}

/// Shown as a page, a laid out frame never scrolls past the point where the text's last
/// line is at the bottom of the view, and it skips exactly the lines scrolled past.
pub proof fn law_page_scroll_within_text(v: AnsiViewerView, area: Rect, ansi: Seq<char>, hash: u64)
    requires
        v.mode is Page,
    ensures
        ({
            let (after, frame) = viewer_frame(v, area, ansi, hash);
            frame matches Some(f) ==> {
                &&& after.scroll <= sat_sub(after.lines as int, after.view.height as int)
                &&& f.skip == after.scroll
            }
        }),
{
}

/// A viewer of escape-coded text.
pub struct AnsiViewer {
    ansi: String,
    scroll: u16,
    hash: u64,
    size: Size,
    view: Size,
    lines: u16,
    scroll_area: Option<Rect>,
    mode: AnsiViewMode,
    options: AnsiViewerOptions,
    colors: AnsiViewerColors,
}

impl View for AnsiViewer {
    type V = AnsiViewerView;

    closed spec fn view(&self) -> AnsiViewerView {
        AnsiViewerView {
            text: self.ansi@,
            scroll: self.scroll,
            hash: self.hash,
            size: self.size,
            view: self.view,
            lines: self.lines,
            scroll_area: self.scroll_area,
            mode: self.mode,
            options: self.options,
            colors: self.colors,
        }
    }
}

impl AnsiViewer {
    /// An empty viewer, showing plain text.
    pub fn new() -> (v: Self)
        ensures
            v@.text == Seq::<char>::empty(),
            v@.scroll == 0,
            v@.hash == 0,
            v@.size == (Size { width: 0, height: 0 }),
            v@.view == (Size { width: 0, height: 0 }),
            v@.lines == 0,
            v@.scroll_area is None,
            v@.mode == (AnsiViewMode::Text { center_vertical: false }),
            v@.options == (AnsiViewerOptions {
                padding: Padding { left: 0, right: 0, top: 0, bottom: 0 },
                text_alignment: HorizontalAlignment::Left,
            }),
            v@.colors == (AnsiViewerColors {
                scrollbar: ScrollbarColors {
                    thumb: crate::style::Color::Indexed(240),
                    track: None,
                },
            }),
    {
        AnsiViewer {
            ansi: String::new(),
            scroll: 0,
            hash: 0,
            size: Size { width: 0, height: 0 },
            view: Size { width: 0, height: 0 },
            lines: 0,
            scroll_area: None,
            mode: AnsiViewMode::default_mode(),
            options: AnsiViewerOptions::new(),
            colors: AnsiViewerColors::new(),
        }
    }

    /// The viewer with another padding.
    pub fn with_padding(self, padding: Padding) -> (v: Self)
        ensures
            v@ == (AnsiViewerView {
                options: AnsiViewerOptions { padding, ..self@.options },
                ..self@
            }),
    {
        let mut v = self;
        v.set_padding(padding);
        v
    }

    /// The viewer with another placement of lines.
    pub fn with_text_alignment(self, alignment: HorizontalAlignment) -> (v: Self)
        ensures
            v@ == (AnsiViewerView {
                options: AnsiViewerOptions { text_alignment: alignment, ..self@.options },
                ..self@
            }),
    {
        let mut v = self;
        v.set_text_alignment(alignment);
        v
    }

    /// The viewer with other colors.
    pub fn with_colors(self, colors: AnsiViewerColors) -> (v: Self)
        ensures
            v@ == (AnsiViewerView { colors, ..self@ }),
    {
        let mut v = self;
        v.set_colors(colors);
        v
    }

    /// Sets the padding.
    pub fn set_padding(&mut self, padding: Padding)
        ensures
            final(self)@ == (AnsiViewerView {
                options: AnsiViewerOptions { padding, ..old(self)@.options },
                ..old(self)@
            }),
    {
        self.options.padding = padding;
    }

    /// Sets how lines are placed.
    pub fn set_text_alignment(&mut self, alignment: HorizontalAlignment)
        ensures
            final(self)@ == (AnsiViewerView {
                options: AnsiViewerOptions { text_alignment: alignment, ..old(self)@.options },
                ..old(self)@
            }),
    {
        self.options.text_alignment = alignment;
    }

    /// Sets the colors.
    pub fn set_colors(&mut self, colors: AnsiViewerColors)
        ensures
            final(self)@ == (AnsiViewerView { colors, ..old(self)@ }),
    {
        self.colors = colors;
    }

    /// Sets how the text is shown.
    pub fn set_view_mode(&mut self, mode: AnsiViewMode)
        ensures
            final(self)@ == (AnsiViewerView { mode, ..old(self)@ }),
    {
        self.mode = mode;
    }

    /// The number of lines scrolled past.
    pub fn current_scroll(&self) -> (s: u16)
        ensures
            s == self@.scroll,
    {
        self.scroll
    }

    /// The wrapped text, as it was last laid out.
    pub fn text(&self) -> (s: &str)
        ensures
            s@ == self@.text,
    {
        self.ansi.as_str()
    }

    /// The text's options.
    pub fn options(&self) -> (o: AnsiViewerOptions)
        ensures
            o == self@.options,
    {
        self.options
    }

    /// Scrolls by a key: arrows by a line, page keys by a page, home and end to the ends.
    /// Tells whether the scroll changed.
    pub fn input(&mut self, key: Key) -> (changed: bool)
        requires
            key == Key::Down ==> old(self)@.scroll < u16::MAX,
            key == Key::PageDown ==> old(self)@.scroll + old(self)@.view.height <= u16::MAX,
        ensures
            ({
                let sm = match key {
                    Key::Down => Some(ScrollMove::Down),
                    Key::Up => Some(ScrollMove::Up),
                    Key::PageDown => Some(ScrollMove::PageDown),
                    Key::PageUp => Some(ScrollMove::PageUp),
                    Key::Home => Some(ScrollMove::Start),
                    Key::End => Some(ScrollMove::End),
                    _ => None,
                };
                match sm {
                    Some(sm) => final(self)@ == (AnsiViewerView {
                        scroll: scrolled(
                            old(self)@.scroll as int,
                            sm,
                            old(self)@.lines as int,
                            old(self)@.view.height as int,
                        ) as u16,
                        ..old(self)@
                    }) && changed == (final(self)@.scroll != old(self)@.scroll),
                    None => final(self)@ == old(self)@ && !changed,
                }
            }),
    {
        match key {
            Key::Down => self.scroll(ScrollMove::Down),
            Key::Up => self.scroll(ScrollMove::Up),
            Key::PageDown => self.scroll(ScrollMove::PageDown),
            Key::PageUp => self.scroll(ScrollMove::PageUp),
            Key::Home => self.scroll(ScrollMove::Start),
            Key::End => self.scroll(ScrollMove::End),
            _ => false,
        }
    }

    /// Scrolls the text within its view; tells whether the scroll changed.
    pub fn scroll(&mut self, sm: ScrollMove) -> (changed: bool)
        requires
            sm == ScrollMove::Down ==> old(self)@.scroll < u16::MAX,
            sm == ScrollMove::PageDown ==> old(self)@.scroll + old(self)@.view.height
                <= u16::MAX,
        ensures
            final(self)@ == (AnsiViewerView {
                scroll: scrolled(
                    old(self)@.scroll as int,
                    sm,
                    old(self)@.lines as int,
                    old(self)@.view.height as int,
                ) as u16,
                ..old(self)@
            }),
            changed == (final(self)@.scroll != old(self)@.scroll),
    {
        let old_scroll = self.scroll;
        self.scroll = scroll_position(self.scroll, sm, self.lines, self.view.height);
        self.scroll != old_scroll
    }

    /// Wraps the text to `max_width` columns and counts its lines.
    fn relayout(&mut self, max_width: u16, ansi: &str)
        requires
            ansi@.len() < usize::MAX,
        ensures
            final(self)@ == (AnsiViewerView {
                text: wrapped_text(ansi@, max_width as usize),
                lines: lines_u16(wrapped_text(ansi@, max_width as usize)),
                ..old(self)@
            }),
    {
        string_clear(&mut self.ansi);
        push_str(&mut self.ansi, ansi);
        proof {
            assert(self.ansi@ =~= ansi@);
        }
        fill_inplace(&mut self.ansi, max_width as usize);
        let n = lines_in(self.ansi.as_str());
        self.lines = (n % 65536) as u16;
    }

    /// Keeps the scroll within the text.
    fn update_scroll(&mut self)
        ensures
            final(self)@ == (AnsiViewerView {
                scroll: if old(self)@.scroll < sat_sub(
                    old(self)@.lines as int,
                    old(self)@.view.height as int,
                ) {
                    old(self)@.scroll
                } else {
                    sat_sub(old(self)@.lines as int, old(self)@.view.height as int) as u16
                },
                ..old(self)@
            }),
    {
        let last = if self.lines > self.view.height {
            self.lines - self.view.height
        } else {
            0
        };
        if self.scroll >= last {
            self.scroll = last;
        }
    }

    /// Lays out a frame for `area` and the text `ansi`, as `viewer_frame` tells; the hash
    /// it remembers is that of `ansi` in this run.
    pub fn layout(&mut self, area: Rect, ansi: &str) -> (r: Option<AnsiViewerFrame>)
        requires
            area.x + area.width <= u16::MAX,
            area.y + area.height <= u16::MAX,
            area.x + old(self)@.options.padding.left <= u16::MAX,
            area.y + old(self)@.options.padding.top <= u16::MAX,
            old(self)@.options.padding.left + old(self)@.options.padding.right <= u16::MAX,
            old(self)@.options.padding.top + old(self)@.options.padding.bottom <= u16::MAX,
            old(self)@.mode matches AnsiViewMode::Page { scrollbar_margin, .. }
                ==> scrollbar_margin < u16::MAX,
            ansi@.len() < usize::MAX,
        ensures
            (final(self)@, r) == viewer_frame(old(self)@, area, ansi@, final(self)@.hash),
    {
        let hash = hash_fast(ansi);
        self.layout_hashed(area, ansi, hash)
    }

    /// Lays out a frame for `area` and the text `ansi` whose hash is `hash`, as
    /// `viewer_frame` tells: the text is laid out again when the hash or the size changed.
    pub fn layout_hashed(&mut self, area: Rect, ansi: &str, hash: u64) -> (r: Option<AnsiViewerFrame>)
        requires
            area.x + area.width <= u16::MAX,
            area.y + area.height <= u16::MAX,
            area.x + old(self)@.options.padding.left <= u16::MAX,
            area.y + old(self)@.options.padding.top <= u16::MAX,
            old(self)@.options.padding.left + old(self)@.options.padding.right <= u16::MAX,
            old(self)@.options.padding.top + old(self)@.options.padding.bottom <= u16::MAX,
            old(self)@.mode matches AnsiViewMode::Page { scrollbar_margin, .. }
                ==> scrollbar_margin < u16::MAX,
            ansi@.len() < usize::MAX,
        ensures
            (final(self)@, r) == viewer_frame(old(self)@, area, ansi@, hash),
    {
        let mut area = area;
        let mut inner = area.inner_padding(self.options.padding);
        if inner.is_empty() {
            return None;
        }
        let size = area.as_size();
        if self.hash != hash || self.size != size {
            self.size = size;
            self.hash = hash;
            self.view = inner.as_size();
            self.scroll_area = None;
            self.relayout(inner.width, ansi);
        }
        let skip = match self.mode {
            AnsiViewMode::Text { center_vertical } => {
                if center_vertical {
                    if self.lines < inner.height {
                        inner.height = self.lines;
                    }
                    let free = if area.height > inner.height {
                        area.height - inner.height
                    } else {
                        0
                    };
                    inner.y = area.y + free / 2;
                }
                0
            },
            AnsiViewMode::Page { scrollbar, scrollbar_margin } => {
                let is_scrollable = scrollbar && Scrollbar::is_scrollable(
                    ScrollableData::new(self.lines as usize, inner.as_size()),
                );
                if is_scrollable {
                    let scroll_area = Scrollbar::make_scroll_area_with_margin(
                        &mut area,
                        scrollbar_margin,
                    );
                    let used = scroll_area.width + scrollbar_margin;
                    inner.width = if inner.width > used {
                        inner.width - used
                    } else {
                        0
                    };
                    self.view = inner.as_size();
                    self.scroll_area = Some(scroll_area);
                    self.relayout(inner.width, ansi);
                }
                self.update_scroll();
                self.scroll
            },
        };
        let scrollbar = match self.mode {
            AnsiViewMode::Page { .. } => match self.scroll_area {
                Some(sa) => Some(
                    ViewerScrollbar {
                        area: sa,
                        data: ScrollbarData {
                            viewport_height: self.size.height,
                            current_scroll: self.scroll as usize,
                            total_items: self.lines as usize,
                        },
                    },
                ),
                None => None,
            },
            AnsiViewMode::Text { .. } => None,
        };
        Some(AnsiViewerFrame { inner, skip, scrollbar })
    }
}

} // verus!
