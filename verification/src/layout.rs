//! Rectangles on the terminal grid and how they are placed inside each other.
use vstd::prelude::*;

verus! {

/// A rectangle of terminal cells.
#[derive(Debug, Clone, Copy, PartialEq, Eq, Structural)]
pub struct Rect {
    pub x: u16,
    pub y: u16,
    pub width: u16,
    pub height: u16,
}

/// A width and a height in terminal cells.
#[derive(Debug, Clone, Copy, PartialEq, Eq, Structural)]
pub struct Size {
    pub width: u16,
    pub height: u16,
}

/// Space left free on each side of a rectangle.
#[derive(Debug, Clone, Copy, PartialEq, Eq, Structural)]
pub struct Padding {
    pub left: u16,
    pub right: u16,
    pub top: u16,
    pub bottom: u16,
}

/// `a - b`, or 0 when `b` is larger.
pub open spec fn sat_sub(a: int, b: int) -> int {
    if a > b {
        a - b
    } else {
        0
    }
}

impl Rect {
    /// The rectangle's size.
    pub fn as_size(self) -> (s: Size)
        ensures
            s.width == self.width,
            s.height == self.height,
    {
        Size { width: self.width, height: self.height }
    }

    /// True when the rectangle holds no cell.
    pub fn is_empty(self) -> (b: bool)
        ensures
            b <==> (self.width == 0 || self.height == 0),
    {
        self.width == 0 || self.height == 0
    }

    /// The rectangle inside the padding.
    pub fn inner_padding(self, padding: Padding) -> (r: Rect)
        requires
            self.x + padding.left <= u16::MAX,
            self.y + padding.top <= u16::MAX,
            padding.left + padding.right <= u16::MAX,
            padding.top + padding.bottom <= u16::MAX,
        ensures
            r.x == self.x + padding.left,
            r.y == self.y + padding.top,
            r.width == sat_sub(self.width as int, padding.left + padding.right),
            r.height == sat_sub(self.height as int, padding.top + padding.bottom),
    {
        let h = padding.left + padding.right;
        let v = padding.top + padding.bottom;
        Rect {
            x: self.x + padding.left,
            y: self.y + padding.top,
            width: if self.width > h {
                self.width - h
            } else {
                0
            },
            height: if self.height > v {
                self.height - v
            } else {
                0
            },
        }
    }

    /// Removes `n` rows from the top.
    pub fn shrink_down(&mut self, n: u16)
        requires
            old(self).y + n <= u16::MAX,
        ensures
            final(self).height == sat_sub(old(self).height as int, n as int),
            final(self).y == old(self).y + n,
            final(self).x == old(self).x,
            final(self).width == old(self).width,
    {
        self.height = if self.height > n {
            self.height - n
        } else {
            0
        };
        self.y = self.y + n;
    }
}

/// How lines of text are placed across their area.
#[derive(Debug, Clone, Copy, PartialEq, Eq, Structural)]
pub enum HorizontalAlignment {
    Left,
    Center,
    Right,
}

/// Where to place a rectangle inside another one.
#[derive(Debug, Clone, Copy, PartialEq, Eq, Structural)]
pub enum Alignment {
    TopLeft,
    Top,
    TopCenter,
    TopRight,
    Right,
    RightCenter,
    BottomRight,
    Bottom,
    BottomCenter,
    BottomLeft,
    Left,
    LeftCenter,
    Center,
    CenterHorizontal,
    CenterVertical,
}

/// Horizontal placement: `None` keeps the inner `x`, otherwise 0 for the left edge, 1 for
/// the center, 2 for the right edge.
pub open spec fn horizontal(a: Alignment) -> Option<int> {
    match a {
        Alignment::TopLeft | Alignment::BottomLeft | Alignment::Left | Alignment::LeftCenter => Some(0),
        Alignment::TopCenter | Alignment::BottomCenter | Alignment::Center
        | Alignment::CenterHorizontal => Some(1),
        Alignment::TopRight | Alignment::Right | Alignment::RightCenter | Alignment::BottomRight => Some(2),
        Alignment::Top | Alignment::Bottom | Alignment::CenterVertical => None,
    }
}

/// Vertical placement: `None` keeps the inner `y`, otherwise 0 for the top edge, 1 for the
/// center, 2 for the bottom edge.
pub open spec fn vertical(a: Alignment) -> Option<int> {
    match a {
        Alignment::TopLeft | Alignment::Top | Alignment::TopCenter | Alignment::TopRight => Some(0),
        Alignment::RightCenter | Alignment::LeftCenter | Alignment::Center
        | Alignment::CenterVertical => Some(1),
        Alignment::BottomRight | Alignment::Bottom | Alignment::BottomCenter
        | Alignment::BottomLeft => Some(2),
        Alignment::Right | Alignment::Left | Alignment::CenterHorizontal => None,
    }
}

/// The coordinate of an inner extent placed in an outer one: at the start, in the middle
/// (rounded down) or at the end.
pub open spec fn place(outer_pos: int, outer_len: int, inner_len: int, how: int) -> int {
    if how == 0 {
        outer_pos
    } else if how == 1 {
        outer_pos + sat_sub(outer_len, inner_len) / 2
    } else {
        outer_pos + sat_sub(outer_len, inner_len)
    }
}

/// The inner rectangle moved inside the outer one as the alignment says; its size stays.
pub open spec fn aligned(inner: Rect, outer: Rect, a: Alignment) -> Rect {
    Rect {
        x: match horizontal(a) {
            Some(h) => place(outer.x as int, outer.width as int, inner.width as int, h) as u16,
            None => inner.x,
        },
        y: match vertical(a) {
            Some(v) => place(outer.y as int, outer.height as int, inner.height as int, v) as u16,
            None => inner.y,
        },
        width: inner.width,
        height: inner.height,
    }
}

/// Places an extent at the start, middle or end of another.
fn place_exec(outer_pos: u16, outer_len: u16, inner_len: u16, how: u8) -> (p: u16)
    requires
        how <= 2,
        outer_pos + sat_sub(outer_len as int, inner_len as int) <= u16::MAX,
    ensures
        p == place(outer_pos as int, outer_len as int, inner_len as int, how as int),
{
    let free = if outer_len > inner_len {
        outer_len - inner_len
    } else {
        0
    };
    if how == 0 {
        outer_pos
    } else if how == 1 {
        outer_pos + free / 2
    } else {
        outer_pos + free
    }
}

/// Aligns the inner rectangle inside the outer one; the outer rectangle must lie within
/// the grid.
pub fn align(inner: Rect, outer: Rect, alignment: Alignment) -> (r: Rect)
    requires
        horizontal(alignment) is Some ==> outer.x + sat_sub(outer.width as int, inner.width as int)
            <= u16::MAX,
        vertical(alignment) is Some ==> outer.y + sat_sub(outer.height as int, inner.height as int)
            <= u16::MAX,
    ensures
        r == aligned(inner, outer, alignment),
{
    let h: Option<u8> = match alignment {
        Alignment::TopLeft | Alignment::BottomLeft | Alignment::Left | Alignment::LeftCenter => Some(0),
        Alignment::TopCenter | Alignment::BottomCenter | Alignment::Center
        | Alignment::CenterHorizontal => Some(1),
        Alignment::TopRight | Alignment::Right | Alignment::RightCenter | Alignment::BottomRight => Some(2),
        Alignment::Top | Alignment::Bottom | Alignment::CenterVertical => None,
    };
    let v: Option<u8> = match alignment {
        Alignment::TopLeft | Alignment::Top | Alignment::TopCenter | Alignment::TopRight => Some(0),
        Alignment::RightCenter | Alignment::LeftCenter | Alignment::Center
        | Alignment::CenterVertical => Some(1),
        Alignment::BottomRight | Alignment::Bottom | Alignment::BottomCenter
        | Alignment::BottomLeft => Some(2),
        Alignment::Right | Alignment::Left | Alignment::CenterHorizontal => None,
    };
    let x = match h {
        Some(h) => place_exec(outer.x, outer.width, inner.width, h),
        None => inner.x,
    };
    let y = match v {
        Some(v) => place_exec(outer.y, outer.height, inner.height, v),
        None => inner.y,
    };
    Rect { x, y, width: inner.width, height: inner.height }
}

/// An inner rectangle that fits in the outer one stays inside it wherever it is aligned
/// on both axes.
pub proof fn law_aligned_inside(inner: Rect, outer: Rect, a: Alignment)
    requires
        inner.width <= outer.width,
        inner.height <= outer.height,
        horizontal(a) is Some,
        vertical(a) is Some,
        outer.x + outer.width <= u16::MAX,
        outer.y + outer.height <= u16::MAX,
    ensures
        outer.x <= aligned(inner, outer, a).x,
        aligned(inner, outer, a).x + inner.width <= outer.x + outer.width,
        outer.y <= aligned(inner, outer, a).y,
        aligned(inner, outer, a).y + inner.height <= outer.y + outer.height,
{
}

} // verus!
