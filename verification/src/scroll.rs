//! How far a view is scrolled: keeping the selected line visible with margins, and moving
//! a page of text by lines or pages.
use vstd::prelude::*;

use crate::layout::{sat_sub, Rect, Size};
use crate::style::Color;

verus! {

/// A request to scroll a view.
#[derive(Debug, Clone, Copy, PartialEq, Eq, Structural)]
pub enum ScrollMove {
    Up,
    Down,
    PageUp,
    PageDown,
    Start,
    End,
}

/// The scroll position after a move, for a text of `total` lines shown `height` lines at a
/// time: it never passes the position where the last line is at the bottom.
pub open spec fn scrolled(current: int, sm: ScrollMove, total: int, height: int) -> int {
    let last = sat_sub(total, height);
    match sm {
        ScrollMove::Up => sat_sub(current, 1),
        ScrollMove::Down => if current + 1 < last {
            current + 1
        } else {
            last
        },
        ScrollMove::PageUp => sat_sub(current, height),
        ScrollMove::PageDown => if current + height < last {
            current + height
        } else {
            last
        },
        ScrollMove::Start => 0,
        ScrollMove::End => last,
    }
}

/// The moves in a text of `total` lines shown `height` at a time, from line `current`:
/// a page up goes back one view height, but not before the first line, so it stops short
/// of the top whenever there is more than a page above; a line up goes back one line; a
/// page down or a line down goes forward by a page or a line, but not past the last page;
/// the start is the first line and the end the last page.
pub proof fn law_scroll_moves(current: int, total: int, height: int)
    requires
        0 <= current,
        0 <= total,
        0 <= height,
    ensures
        scrolled(current, ScrollMove::PageUp, total, height) == if current >= height {
            current - height
        } else {
            0
        },
        current > height ==> scrolled(current, ScrollMove::PageUp, total, height) > scrolled(
            current,
            ScrollMove::Start,
            total,
            height,
        ),
        current > 0 ==> scrolled(current, ScrollMove::Up, total, height) == current - 1,
        current == 0 ==> scrolled(current, ScrollMove::Up, total, height) == 0,
        current + height <= total - height ==> scrolled(current, ScrollMove::PageDown, total, height)
            == current + height,
        current + height >= total - height ==> scrolled(current, ScrollMove::PageDown, total, height)
            == if total > height {
            total - height
        } else {
            0
        },
        current + 1 <= total - height ==> scrolled(current, ScrollMove::Down, total, height)
            == current + 1,
        scrolled(current, ScrollMove::Start, total, height) == 0,
        scrolled(current, ScrollMove::End, total, height) == if total > height {
            total - height
        } else {
            0
        },
{
}

/// The scroll position after a move.
pub fn scroll_position(current: u16, sm: ScrollMove, total: u16, height: u16) -> (r: u16)
    requires
        sm == ScrollMove::Down ==> current < u16::MAX,
        sm == ScrollMove::PageDown ==> current + height <= u16::MAX,
    ensures
        r == scrolled(current as int, sm, total as int, height as int),
{
    let last = if total > height {
        total - height
    } else {
        0
    };
    match sm {
        ScrollMove::Up => if current > 1 {
            current - 1
        } else {
            0
        },
        ScrollMove::Down => if current + 1 < last {
            current + 1
        } else {
            last
        },
        ScrollMove::PageUp => if current > height {
            current - height
        } else {
            0
        },
        ScrollMove::PageDown => if current + height < last {
            current + height
        } else {
            last
        },
        ScrollMove::Start => 0,
        ScrollMove::End => last,
    }
}

/// The scroll state of a page of text: where it is scrolled to, a move waiting for the next
/// layout, and how many lines the text has.
pub struct MarkupScroll {
    pub current: u16,
    pub desired: Option<ScrollMove>,
    pub total_lines: u16,
}

impl MarkupScroll {
    /// At the top, with no move waiting and no text.
    pub fn new() -> (s: Self)
        ensures
            s.current == 0,
            s.desired is None,
            s.total_lines == 0,
    {
        MarkupScroll { current: 0, desired: None, total_lines: 0 }
    }

    /// Applies a move for a view `viewport_height` lines high.
    pub fn set(&mut self, sm: ScrollMove, viewport_height: u16)
        requires
            sm == ScrollMove::Down ==> old(self).current < u16::MAX,
            sm == ScrollMove::PageDown ==> old(self).current + viewport_height <= u16::MAX,
        ensures
            final(self).current == scrolled(
                old(self).current as int,
                sm,
                old(self).total_lines as int,
                viewport_height as int,
            ),
            final(self).desired == old(self).desired,
            final(self).total_lines == old(self).total_lines,
    {
        self.current = scroll_position(self.current, sm, self.total_lines, viewport_height);
    }

    /// Applies the waiting move, or else keeps the position within the text, for a view
    /// `height` lines high.
    pub fn update(&mut self, height: u16)
        requires
            old(self).desired == Some(ScrollMove::Down) ==> old(self).current < u16::MAX,
            old(self).desired == Some(ScrollMove::PageDown) ==> old(self).current + height
                <= u16::MAX,
        ensures
            final(self).desired is None,
            final(self).total_lines == old(self).total_lines,
            final(self).current == match old(self).desired {
                Some(sm) => scrolled(
                    old(self).current as int,
                    sm,
                    old(self).total_lines as int,
                    height as int,
                ),
                None => if old(self).current < sat_sub(old(self).total_lines as int, height as int) {
                    old(self).current as int
                } else {
                    sat_sub(old(self).total_lines as int, height as int)
                },
            },
    {
        match self.desired {
            Some(sm) => {
                self.desired = None;
                self.current = scroll_position(self.current, sm, self.total_lines, height);
            },
            None => {
                let last = if self.total_lines > height {
                    self.total_lines - height
                } else {
                    0
                };
                if self.current >= last {
                    self.current = last;
                }
            },
        }
    }

    /// Back to the top, with no move waiting and no text.
    pub fn clear(&mut self)
        ensures
            final(self).current == 0,
            final(self).desired is None,
            final(self).total_lines == 0,
    {
        self.current = 0;
        self.desired = None;
        self.total_lines = 0;
    }
}

/// Lines kept visible above and below the selected line, and empty lines allowed after
/// the last one.
#[derive(Debug, Clone, Copy, PartialEq, Eq, Structural)]
pub struct ScrollMargins {
    pub margin_top: u16,
    pub margin_bottom: u16,
    pub padding_bottom: u16,
}

impl ScrollMargins {
    /// No margins.
    pub fn zero() -> (m: Self)
        ensures
            m.margin_top == 0 && m.margin_bottom == 0 && m.padding_bottom == 0,
    {
        ScrollMargins { margin_top: 0, margin_bottom: 0, padding_bottom: 0 }
    }

    /// The given margins and padding.
    pub fn new(top: u16, bottom: u16, padding_bottom: u16) -> (m: Self)
        ensures
            m.margin_top == top && m.margin_bottom == bottom && m.padding_bottom == padding_bottom,
    {
        ScrollMargins { margin_top: top, margin_bottom: bottom, padding_bottom }
    }

    /// The same value for both margins and the padding.
    pub fn all(v: u16) -> (m: Self)
        ensures
            m.margin_top == v && m.margin_bottom == v && m.padding_bottom == v,
    {
        Self::new(v, v, v)
    }

    /// The same value for both margins, and no padding.
    pub fn vertical(v: u16) -> (m: Self)
        ensures
            m.margin_top == v && m.margin_bottom == v && m.padding_bottom == 0,
    {
        Self::new(v, v, 0)
    }
}

/// The selected line, the current scroll, the number of lines and the view's height.
#[derive(Debug, Clone, Copy, PartialEq, Eq, Structural)]
pub struct ScrollData {
    pub current_index: usize,
    pub current_scroll: usize,
    pub total_lines: usize,
    pub viewport_height: u16,
}

/// The scroll after the view is moved just enough to show the selected line with the
/// margins (each margin shrunk to fit the view).
pub open spec fn scroll_with_margins(data: ScrollData, margins: ScrollMargins) -> int {
    let height = data.viewport_height as int;
    let max_offset = sat_sub(data.total_lines + margins.padding_bottom, height);
    let available = sat_sub(height, 1);
    let top = if margins.margin_top < available {
        margins.margin_top as int
    } else {
        available
    };
    let bottom = if margins.margin_bottom < available - top {
        margins.margin_bottom as int
    } else {
        available - top
    };
    let top_boundary = data.current_scroll + top;
    let bottom_boundary = data.current_scroll + sat_sub(height, bottom + 1);
    if data.current_index < top_boundary {
        sat_sub(data.current_scroll as int, top_boundary - data.current_index)
    } else if data.current_index > bottom_boundary {
        let delta = data.current_index - bottom_boundary;
        if data.current_scroll + delta < max_offset {
            data.current_scroll + delta
        } else {
            max_offset
        }
    } else {
        data.current_scroll as int
    }
}

/// Whether the arithmetic of the scroll computation stays within `usize`.
pub open spec fn scroll_fits(data: ScrollData, margins: ScrollMargins) -> bool {
    &&& data.total_lines + margins.padding_bottom <= usize::MAX
    &&& data.current_scroll + margins.margin_top <= usize::MAX
    &&& data.current_scroll + data.viewport_height <= usize::MAX
}

/// Colors of a scrollbar: the thumb, and the track if it is drawn.
#[derive(Debug, Clone, Copy, PartialEq, Eq, Structural)]
pub struct ScrollbarColors {
    pub thumb: Color,
    pub track: Option<Color>,
}

impl ScrollbarColors {
    /// A grey thumb and no track.
    pub fn default_colors() -> (c: Self)
        ensures
            c.thumb == Color::Indexed(240),
            c.track is None,
    {
        ScrollbarColors { thumb: Color::Indexed(240), track: None }
    }

    /// The given colors.
    pub fn new(thumb: Color, track: Option<Color>) -> (c: Self)
        ensures
            c.thumb == thumb,
            c.track == track,
    {
        ScrollbarColors { thumb, track }
    }
}

/// A vertical scrollbar: what it shows and its colors.
pub struct Scrollbar {
    pub data: ScrollbarData,
    pub colors: ScrollbarColors,
}

impl Scrollbar {
    /// A scrollbar with the default colors.
    pub fn new(data: ScrollbarData) -> (s: Self)
        ensures
            s.data == data,
            s.colors == (ScrollbarColors { thumb: Color::Indexed(240), track: None }),
    {
        Scrollbar { data, colors: ScrollbarColors::default_colors() }
    }

    /// The same scrollbar with other colors.
    pub fn with_colors(self, colors: ScrollbarColors) -> (s: Self)
        ensures
            s.data == self.data,
            s.colors == colors,
    {
        Scrollbar { data: self.data, colors }
    }

    /// The scroll that keeps the selected line visible, without margins.
    pub fn calculate_scroll(data: ScrollData) -> (r: usize)
        requires
            scroll_fits(data, ScrollMargins { margin_top: 0, margin_bottom: 0, padding_bottom: 0 }),
        ensures
            r == scroll_with_margins(
                data,
                ScrollMargins { margin_top: 0, margin_bottom: 0, padding_bottom: 0 },
            ),
    {
        Self::calculate_scroll_with_margins(data, ScrollMargins { margin_top: 0, margin_bottom: 0, padding_bottom: 0 })
    }

    /// The scroll that keeps the selected line visible with the margins.
    pub fn calculate_scroll_with_margins(data: ScrollData, margins: ScrollMargins) -> (r: usize)
        requires
            scroll_fits(data, margins),
        ensures
            r == scroll_with_margins(data, margins),
    {
        let height = data.viewport_height as usize;
        let lines = data.total_lines + margins.padding_bottom as usize;
        let max_offset = if lines > height {
            lines - height
        } else {
            0
        };
        let available = if height > 1 {
            height - 1
        } else {
            0
        };
        let top = if (margins.margin_top as usize) < available {
            margins.margin_top as usize
        } else {
            available
        };
        let bottom = if (margins.margin_bottom as usize) < available - top {
            margins.margin_bottom as usize
        } else {
            available - top
        };
        let top_boundary = data.current_scroll + top;
        let below = if height > bottom + 1 {
            height - (bottom + 1)
        } else {
            0
        };
        let bottom_boundary = data.current_scroll + below;
        if data.current_index < top_boundary {
            let up = top_boundary - data.current_index;
            if data.current_scroll > up {
                data.current_scroll - up
            } else {
                0
            }
        } else if data.current_index > bottom_boundary {
            let delta = data.current_index - bottom_boundary;
            if delta < max_offset && data.current_scroll < max_offset - delta {
                data.current_scroll + delta
            } else {
                max_offset
            }
        } else {
            data.current_scroll
        }
    }

    /// True when there are more lines than the view holds and the view is wide enough for a
    /// scrollbar.
    pub fn is_scrollable(data: ScrollableData) -> (b: bool)
        ensures
            b == (data.total_lines > data.viewport_size.height && data.viewport_size.width
                > data.min_width),
    {
        data.total_lines > data.viewport_size.height as usize && data.viewport_size.width
            > data.min_width
    }

    /// Takes the rightmost column of `area` for a scrollbar, and narrows `area` by that column
    /// and `margin` more.
    pub fn make_scroll_area_with_margin(area: &mut Rect, margin: u16) -> (r: Rect)
        requires
            old(area).x + sat_sub(old(area).width as int, 1) <= u16::MAX,
            margin < u16::MAX,
        ensures
            r == (Rect {
                x: (old(area).x + sat_sub(old(area).width as int, 1)) as u16,
                width: 1,
                ..*old(area)
            }),
            *final(area) == (Rect {
                width: sat_sub(old(area).width as int, 1 + margin) as u16,
                ..*old(area)
            }),
    {
        let last = if area.width > 1 {
            area.width - 1
        } else {
            0
        };
        let scroll_area = Rect { x: area.x + last, width: 1, ..*area };
        let used = 1 + margin;
        area.width = if area.width > used {
            area.width - used
        } else {
            0
        };
        scroll_area
    }

    /// Takes the rightmost column of `area` for a scrollbar, leaving one column free beside it.
    pub fn make_scroll_area(area: &mut Rect) -> (r: Rect)
        requires
            old(area).x + sat_sub(old(area).width as int, 1) <= u16::MAX,
        ensures
            r == (Rect {
                x: (old(area).x + sat_sub(old(area).width as int, 1)) as u16,
                width: 1,
                ..*old(area)
            }),
            *final(area) == (Rect { width: sat_sub(old(area).width as int, 2) as u16, ..*old(area) }),
    {
        Self::make_scroll_area_with_margin(area, 1)
    }
}

/// After the scroll is computed, a selected line that exists is on screen: at or below the
/// first visible line and above the end of the view.
pub proof fn law_selected_line_visible(data: ScrollData, margins: ScrollMargins)
    requires
        data.viewport_height > 0,
        data.current_index < data.total_lines,
    ensures
        scroll_with_margins(data, margins) <= data.current_index,
        data.current_index < scroll_with_margins(data, margins) + data.viewport_height,
        scroll_with_margins(data, margins) >= 0,
{
}

/// The number of lines and the size of a view, and the narrowest view that shows a
/// scrollbar.
#[derive(Debug, Clone, Copy, PartialEq, Eq, Structural)]
pub struct ScrollableData {
    pub total_lines: usize,
    pub viewport_size: Size,
    pub min_width: u16,
}

impl ScrollableData {
    /// A view needing at least 15 columns for a scrollbar.
    pub fn new(total_lines: usize, viewport_size: Size) -> (d: Self)
        ensures
            d.total_lines == total_lines,
            d.viewport_size == viewport_size,
            d.min_width == 15,
    {
        ScrollableData { total_lines, viewport_size, min_width: 15 }
    }

    /// The same data with another minimum width.
    pub fn with_min_width(self, min_width: u16) -> (d: Self)
        ensures
            d == (ScrollableData { min_width, ..self }),
    {
        ScrollableData { min_width, ..self }
    }
}

/// What a scrollbar shows: the scroll position among the items, and the view's height.
#[derive(Debug, Clone, Copy, PartialEq, Eq, Structural)]
pub struct ScrollbarData {
    pub current_scroll: usize,
    pub total_items: usize,
    pub viewport_height: u16,
}

/// The scroll that keeps line `index` visible in a view `height` lines high: the view moves
/// only as far as needed.
pub open spec fn follow_index(index: int, height: int, scroll: int) -> int {
    if index > scroll {
        let diff = index - scroll;
        let h = sat_sub(height, 1);
        if diff > h {
            scroll + diff - h
        } else {
            scroll
        }
    } else if scroll > index {
        index
    } else {
        scroll
    }
}

/// Calculates the lines to skip so that line `index` is visible in a view `height` lines
/// high, moving the previous scroll as little as possible.
pub fn calculate_scroll(index: usize, height: u16, scroll: usize) -> (r: usize)
    ensures
        r == follow_index(index as int, height as int, scroll as int),
{
    let h = height as usize;
    let mut scroll = scroll;
    if index > scroll {
        let diff = index - scroll;
        let h = if h > 1 {
            h - 1
        } else {
            0
        };
        if diff > h {
            scroll = scroll + (diff - h);
        }
    } else if scroll > index {
        let diff = scroll - index;
        scroll = scroll - diff;
    }
    scroll
}

/// Following an index keeps it inside the view.
pub proof fn law_follow_index_visible(index: int, height: int, scroll: int)
    requires
        height > 0,
        index >= 0,
        scroll >= 0,
    ensures
        follow_index(index, height, scroll) <= index < follow_index(index, height, scroll)
            + height,
{
}

} // verus!
