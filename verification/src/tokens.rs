//! A list of tokens laid out in rows like words of a paragraph, with a cursor that moves
//! left and right along the tokens and up and down to the nearest token of the next row.
use vstd::prelude::*;

use crate::layout::{sat_sub, Padding, Rect, Size};
use crate::list::Key;
use crate::scroll::{
    scroll_with_margins, ScrollData, ScrollMargins, ScrollableData, Scrollbar, ScrollbarColors,
};
use crate::style::Color;

verus! {

/// Where each token of widths `ws` goes in rows `max_width` wide with `gap` columns between
/// tokens: the (column, row) of each, the column after the last one, and its row. A token
/// that does not fit goes to the start of the next row.
pub open spec fn token_layout(ws: Seq<u16>, max_width: int, gap: int) -> (Seq<(int, int)>, int, int)
    decreases ws.len(),
{
    if ws.len() == 0 {
        (Seq::empty(), 0, 0)
    } else {
        let (ps, x, y) = token_layout(ws.drop_last(), max_width, gap);
        let w = ws.last() as int;
        let (x2, y2) = if x + w > max_width {
            (
                0,
                if ws.len() == 1 {
                    y
                } else {
                    y + 1
                },
            )
        } else {
            (x, y)
        };
        (ps.push((x2, y2)), x2 + w + gap, y2)
    }
}

/// The positions of the tokens.
pub open spec fn token_positions(ws: Seq<u16>, max_width: int, gap: int) -> Seq<(int, int)> {
    token_layout(ws, max_width, gap).0
}

/// True when laying out the tokens never goes past `u16::MAX`, the range the layout is
/// computed in.
pub open spec fn layout_fits(ws: Seq<u16>, max_width: int, gap: int) -> bool {
    forall|k: int|
        0 <= k < ws.len() ==> {
            let (_, x, y) = #[trigger] token_layout(ws.take(k), max_width, gap);
            let wraps = x + ws[k] > max_width;
            let x2 = if wraps {
                0
            } else {
                x
            };
            let y2 = if wraps && k > 0 {
                y + 1
            } else {
                y
            };
            &&& x + ws[k] <= u16::MAX
            &&& ws[k] + gap <= u16::MAX
            &&& x2 + ws[k] + gap <= u16::MAX
            &&& y2 < u16::MAX
        }
}

/// The distance between two columns.
pub open spec fn col_distance(a: int, b: int) -> int {
    if a > b {
        a - b
    } else {
        b - a
    }
}

/// Among the tokens `from..to` in row `row`, the one nearest to column `col` (the last of
/// equally near ones), and its distance; `(0, u16::MAX)` when there is none.
pub open spec fn nearest_in_row(ps: Seq<(int, int)>, from: int, to: int, row: int, col: int) -> (int, int)
    decreases to - from,
{
    if to <= from {
        (0, u16::MAX as int)
    } else {
        let (b, d) = nearest_in_row(ps, from, to - 1, row, col);
        let (x, y) = ps[to - 1];
        if y == row && col_distance(col, x) <= d {
            (to - 1, col_distance(col, x))
        } else {
            (b, d)
        }
    }
}

/// `n - 1`, or 0.
pub open spec fn last_of(n: int) -> int {
    if n > 0 {
        n - 1
    } else {
        0
    }
}

/// The rows of the layout never go down, and the last token is in the current row.
pub proof fn lemma_rows_ordered(ws: Seq<u16>, max_width: int, gap: int)
    ensures
        token_layout(ws, max_width, gap).0.len() == ws.len(),
        forall|i: int|
            0 <= i < ws.len() ==> #[trigger] token_layout(ws, max_width, gap).0[i].1 <= token_layout(
                ws,
                max_width,
                gap,
            ).2,
        ws.len() > 0 ==> token_layout(ws, max_width, gap).0[ws.len() - 1].1 == token_layout(
            ws,
            max_width,
            gap,
        ).2,
        forall|i: int, j: int|
            0 <= i <= j < ws.len() ==> #[trigger] token_layout(ws, max_width, gap).0[i].1
                <= #[trigger] token_layout(ws, max_width, gap).0[j].1,
        token_layout(ws, max_width, gap).2 >= 0,
    decreases ws.len(),
{
    if ws.len() > 0 {
        lemma_rows_ordered(ws.drop_last(), max_width, gap);
    }
}

/// Tokens beyond `k` that are all outside the row change nothing in the search.
pub proof fn lemma_nearest_stops(ps: Seq<(int, int)>, from: int, k: int, to: int, row: int, col: int)
    requires
        from <= k <= to,
        forall|j: int| k <= j < to ==> #[trigger] ps[j].1 != row,
    ensures
        nearest_in_row(ps, from, to, row, col) == nearest_in_row(ps, from, k, row, col),
    decreases to - k,
{
    if to > k {
        lemma_nearest_stops(ps, from, k, to - 1, row, col);
    }
}

/// The options of a token list.
#[derive(Debug, Clone, Copy, PartialEq, Eq, Structural)]
pub struct TokenListOptions {
    pub gap: u16,
    pub padding: Padding,
    pub scrollbar: bool,
    pub scrollbar_margin: u16,
}

impl TokenListOptions {
    /// Two columns between tokens, a padding of one, and a scrollbar one column away.
    pub fn new() -> (o: Self)
        ensures
            o == (TokenListOptions {
                gap: 2,
                padding: Padding { left: 1, right: 1, top: 1, bottom: 1 },
                scrollbar: true,
                scrollbar_margin: 1,
            }),
    {
        TokenListOptions {
            gap: 2,
            padding: Padding { left: 1, right: 1, top: 1, bottom: 1 },
            scrollbar: true,
            scrollbar_margin: 1,
        }
    }
}

/// The colors of a token list: those of its scrollbar.
#[derive(Debug, Clone, Copy, PartialEq, Eq, Structural)]
pub struct TokenListColors {
    pub scrollbar: ScrollbarColors,
}

impl TokenListColors {
    /// The default scrollbar colors.
    pub fn new() -> (c: Self)
        ensures
            c.scrollbar == (ScrollbarColors { thumb: Color::Indexed(240), track: None }),
    {
        TokenListColors { scrollbar: ScrollbarColors::default_colors() }
    }
}

impl Default for TokenListColors {
    fn default() -> (c: Self)
        ensures
            c.scrollbar == (ScrollbarColors { thumb: Color::Indexed(240), track: None }),
    {
        Self::new()
    }
}

/// A list of tokens in rows, with a cursor.
pub struct TokenList {
    index: usize,
    index_col: u16,
    index_row: u16,
    scroll: u16,
    total_lines: u16,
    total_items: usize,
    list_width: u16,
    last_size: Size,
    options: TokenListOptions,
    colors: TokenListColors,
}

impl TokenList {
    /// The position of the cursor.
    pub closed spec fn index_spec(&self) -> usize {
        self.index
    }

    /// The column and row of the cursor's token at the last layout.
    pub closed spec fn cursor_place(&self) -> (int, int) {
        (self.index_col as int, self.index_row as int)
    }

    /// The number of rows and of tokens at the last layout.
    pub closed spec fn totals(&self) -> (int, int) {
        (self.total_lines as int, self.total_items as int)
    }

    /// The width the tokens were laid out in.
    pub closed spec fn list_width_spec(&self) -> int {
        self.list_width as int
    }

    /// The options.
    pub closed spec fn options_spec(&self) -> TokenListOptions {
        self.options
    }

    /// The rows skipped at the top.
    pub closed spec fn scroll_spec(&self) -> int {
        self.scroll as int
    }

    /// The size of the area at the last layout.
    pub closed spec fn last_size_spec(&self) -> Size {
        self.last_size
    }

    /// The colors.
    pub closed spec fn colors_spec(&self) -> TokenListColors {
        self.colors
    }

    /// An empty list with the cursor at the start.
    pub fn new() -> (l: Self)
        ensures
            l.index_spec() == 0,
            l.cursor_place() == (0int, 0int),
            l.totals() == (0int, 0int),
            l.list_width_spec() == 0,
            l.options_spec() == TokenListOptions::new_spec(),
            l.scroll_spec() == 0,
            l.last_size_spec() == (Size { width: 0, height: 0 }),
            l.colors_spec() == (TokenListColors {
                scrollbar: ScrollbarColors { thumb: Color::Indexed(240), track: None },
            }),
    {
        TokenList {
            index: 0,
            index_col: 0,
            index_row: 0,
            scroll: 0,
            total_lines: 0,
            total_items: 0,
            list_width: 0,
            last_size: Size { width: 0, height: 0 },
            options: TokenListOptions::new(),
            colors: TokenListColors::new(),
        }
    }

    /// The same list with another gap between tokens.
    pub fn with_gap(self, gap: u16) -> (l: Self)
        ensures
            l.options_spec() == (TokenListOptions { gap, ..self.options_spec() }),
            l.index_spec() == self.index_spec(),
    {
        TokenList { options: TokenListOptions { gap, ..self.options }, ..self }
    }

    /// The same list with another padding.
    pub fn with_padding(self, padding: Padding) -> (l: Self)
        ensures
            l.options_spec() == (TokenListOptions { padding, ..self.options_spec() }),
            l.index_spec() == self.index_spec(),
    {
        TokenList { options: TokenListOptions { padding, ..self.options }, ..self }
    }

    /// The same list with a scrollbar.
    pub fn with_scrollbar(self) -> (l: Self)
        ensures
            l.options_spec() == (TokenListOptions { scrollbar: true, ..self.options_spec() }),
            l.index_spec() == self.index_spec(),
    {
        TokenList { options: TokenListOptions { scrollbar: true, ..self.options }, ..self }
    }

    /// Sets the colors.
    pub fn set_colors(&mut self, colors: TokenListColors)
        ensures
            final(self).colors_spec() == colors,
            final(self).index_spec() == old(self).index_spec(),
            final(self).options_spec() == old(self).options_spec(),
            final(self).cursor_place() == old(self).cursor_place(),
            final(self).totals() == old(self).totals(),
            final(self).list_width_spec() == old(self).list_width_spec(),
            final(self).scroll_spec() == old(self).scroll_spec(),
            final(self).last_size_spec() == old(self).last_size_spec(),
    {
        self.colors = colors;
    }

    /// The position of the cursor.
    pub fn index(&self) -> (i: usize)
        ensures
            i == self.index_spec(),
    {
        self.index
    }

    /// Puts the cursor at a position.
    pub fn set_index(&mut self, i: usize)
        ensures
            final(self).index_spec() == i,
            final(self).cursor_place() == old(self).cursor_place(),
            final(self).totals() == old(self).totals(),
            final(self).list_width_spec() == old(self).list_width_spec(),
            final(self).options_spec() == old(self).options_spec(),
    {
        self.index = i;
    }

    /// Lays the tokens out in rows `width` wide: counts them and the rows, and notes where
    /// the cursor's token is.
    pub fn process_items(&mut self, width: u16, widths: &[u16])
        requires
            layout_fits(widths@, width as int, old(self).options_spec().gap as int),
        ensures
            ({
                let ps = token_positions(widths@, width as int, old(self).options_spec().gap as int);
                &&& final(self).totals().1 == widths@.len()
                &&& widths@.len() > 0 ==> final(self).totals().0 == ps.last().1 + 1
                &&& widths@.len() == 0 ==> final(self).totals().0 == old(self).totals().0
                &&& old(self).index_spec() < widths@.len() ==> final(self).cursor_place() == ps[old(
                    self,
                ).index_spec() as int]
                &&& old(self).index_spec() >= widths@.len() ==> final(self).cursor_place() == old(
                    self,
                ).cursor_place()
            }),
            final(self).index_spec() == old(self).index_spec(),
            final(self).list_width_spec() == old(self).list_width_spec(),
            final(self).options_spec() == old(self).options_spec(),
    {
        let gap = self.options.gap;
        let ghost ws = widths@;
        self.total_items = 0;
        let mut x: u16 = 0;
        let mut y: u16 = 0;
        let mut i: usize = 0;
        proof {
            assert(ws.take(0) =~= Seq::<u16>::empty());
        }
        while i < widths.len()
            invariant
                ws == widths@,
                gap == self.options.gap,
                i <= ws.len(),
                layout_fits(ws, width as int, gap as int),
                self.total_items == i,
                token_layout(ws.take(i as int), width as int, gap as int).1 == x,
                token_layout(ws.take(i as int), width as int, gap as int).2 == y,
                self.index == old(self).index,
                self.list_width == old(self).list_width,
                self.options == old(self).options,
                i > 0 ==> self.total_lines == token_layout(ws.take(i as int), width as int, gap as int).0.last().1 + 1,
                i == 0 ==> self.total_lines == old(self).total_lines,
                self.index < i ==> (self.index_col as int, self.index_row as int) == token_layout(
                    ws.take(i as int),
                    width as int,
                    gap as int,
                ).0[self.index as int],
                self.index >= i ==> self.index_col == old(self).index_col && self.index_row == old(self).index_row,
            decreases ws.len() - i,
        {
            let w = widths[i];
            proof {
                let _ = token_layout(ws.take(i as int), width as int, gap as int);
                assert(ws.take(i + 1).drop_last() =~= ws.take(i as int));
                assert(ws.take(i + 1).last() == ws[i as int]);
                lemma_rows_ordered(ws.take(i as int), width as int, gap as int);
                lemma_rows_ordered(ws.take(i + 1), width as int, gap as int);
            }
            if x + w > width {
                x = 0;
                if i > 0 {
                    y = y + 1;
                }
            }
            if self.index == i {
                self.index_col = x;
                self.index_row = y;
            }
            self.total_items = self.total_items + 1;
            self.total_lines = y + 1;
            x = x + (w + gap);
            i = i + 1;
        }
        proof {
            assert(ws.take(ws.len() as int) =~= ws);
        }
    }

    /// Moves the cursor by a key along the tokens as last laid out: right and left step one
    /// token, down and up go to the nearest token of the next or previous row, home and end
    /// go to the first and last token. Reports whether the cursor moved.
    pub fn input(&mut self, key: Key, widths: &[u16]) -> (moved: bool)
        requires
            layout_fits(widths@, old(self).list_width_spec(), old(self).options_spec().gap as int),
            old(self).index_spec() < usize::MAX,
        ensures
            ({
                let i = old(self).index_spec() as int;
                let (lines, items) = old(self).totals();
                let (col, row) = old(self).cursor_place();
                let ps = token_positions(
                    widths@,
                    old(self).list_width_spec(),
                    old(self).options_spec().gap as int,
                );
                final(self).index_spec() == match key {
                    Key::Right => if i + 1 < last_of(items) {
                        i + 1
                    } else {
                        last_of(items)
                    },
                    Key::Left => last_of(i),
                    Key::Down => if row == last_of(lines) {
                        last_of(items)
                    } else {
                        nearest_in_row(ps, i + 1, widths@.len() as int, row + 1, col).0
                    },
                    Key::Up => if row == 0 {
                        0
                    } else {
                        nearest_in_row(ps, 0, widths@.len() as int, row - 1, col).0
                    },
                    Key::Home => 0,
                    Key::End => last_of(items),
                    _ => i,
                }
            }),
            moved == (final(self).index_spec() != old(self).index_spec()),
            final(self).cursor_place() == old(self).cursor_place(),
            final(self).totals() == old(self).totals(),
            final(self).list_width_spec() == old(self).list_width_spec(),
            final(self).options_spec() == old(self).options_spec(),
    {
        let old_index = self.index;
        let last_item = if self.total_items > 0 {
            self.total_items - 1
        } else {
            0
        };
        match key {
            Key::Right => {
                self.index = if self.index + 1 < last_item {
                    self.index + 1
                } else {
                    last_item
                };
            },
            Key::Left => {
                self.index = if self.index > 0 {
                    self.index - 1
                } else {
                    0
                };
            },
            Key::Down => {
                let last_line: u16 = if self.total_lines > 0 {
                    self.total_lines - 1
                } else {
                    0
                };
                self.index = if self.index_row == last_line {
                    last_item
                } else {
                    self.nearest(widths, self.index + 1, self.index_row as u32 + 1, true)
                };
            },
            Key::Up => {
                self.index = if self.index_row == 0 {
                    0
                } else {
                    self.nearest(widths, 0, self.index_row as u32 - 1, false)
                };
            },
            Key::Home => {
                self.index = 0;
            },
            Key::End => {
                self.index = last_item;
            },
            _ => {},
        }
        self.index != old_index
    }

    /// The token from `from` on in row `row` nearest to the cursor's column, scanning the
    /// layout and stopping once past that row (downwards) or at the cursor's row (upwards).
    fn nearest(&self, widths: &[u16], from: usize, row: u32, down: bool) -> (r: usize)
        requires
            layout_fits(widths@, self.list_width_spec(), self.options_spec().gap as int),
            down ==> row == self.cursor_place().1 + 1,
            !down ==> row + 1 == self.cursor_place().1,
        ensures
            r == nearest_in_row(
                token_positions(widths@, self.list_width_spec(), self.options_spec().gap as int),
                from as int,
                widths@.len() as int,
                row as int,
                self.cursor_place().0,
            ).0,
    {
        let gap = self.options.gap;
        let width = self.list_width;
        let col = self.index_col;
        let ghost ws = widths@;
        let ghost full = token_positions(ws, width as int, gap as int);
        proof {
            lemma_rows_ordered(ws, width as int, gap as int);
        }
        let mut best: usize = 0;
        let mut distance: u16 = u16::MAX;
        let mut x: u16 = 0;
        let mut y: u16 = 0;
        let mut i: usize = 0;
        proof {
            assert(ws.take(0) =~= Seq::<u16>::empty());
        }
        while i < widths.len()
            invariant
                ws == widths@,
                gap == self.options.gap,
                width == self.list_width,
                col == self.index_col,
                full == token_positions(ws, width as int, gap as int),
                full.len() == ws.len(),
                i <= ws.len(),
                layout_fits(ws, width as int, gap as int),
                token_layout(ws.take(i as int), width as int, gap as int).1 == x,
                token_layout(ws.take(i as int), width as int, gap as int).2 == y,
                forall|j: int| 0 <= j < i ==> #[trigger] full[j] == token_layout(ws.take(i as int), width as int, gap as int).0[j],
                (best as int, distance as int) == nearest_in_row(full, from as int, i as int, row as int, col as int),
            decreases ws.len() - i,
        {
            let w = widths[i];
            proof {
                let _ = token_layout(ws.take(i as int), width as int, gap as int);
                assert(ws.take(i + 1).drop_last() =~= ws.take(i as int));
                assert(ws.take(i + 1).last() == ws[i as int]);
                lemma_take_prefix_layout(ws, i + 1, width as int, gap as int);
                lemma_rows_ordered(ws.take(i as int), width as int, gap as int);
            }
            if x + w > width {
                x = 0;
                if i > 0 {
                    y = y + 1;
                }
            }
            let ghost here = full[i as int];
            proof {
                assert(here == (x as int, y as int));
            }
            if i >= from {
                if y as u32 == row {
                    let d = if col > x {
                        col - x
                    } else {
                        x - col
                    };
                    if d <= distance {
                        best = i;
                        distance = d;
                    }
                } else if (down && y as u32 > row) || (!down && y as u32 + 1 > row) {
                    proof {
                        assert forall|j: int| i <= j < ws.len() implies #[trigger] full[j].1 != row by {
                            lemma_rows_ordered(ws, width as int, gap as int);
                            let lay = token_layout(ws, width as int, gap as int).0;
                            assert(lay[i as int].1 <= lay[j].1);
                        }
                        lemma_nearest_stops(full, from as int, i as int, ws.len() as int, row as int, col as int);
                    }
                    return best;
                }
            }
            x = x + (w + gap);
            i = i + 1;
        }
        proof {
            assert(ws.take(ws.len() as int) =~= ws);
        }
        best
    }
}

/// The positions of the first tokens do not depend on the tokens after them.
pub proof fn lemma_take_prefix_layout(ws: Seq<u16>, k: int, max_width: int, gap: int)
    requires
        0 <= k <= ws.len(),
    ensures
        forall|j: int|
            0 <= j < k ==> #[trigger] token_layout(ws, max_width, gap).0[j] == token_layout(
                ws.take(k),
                max_width,
                gap,
            ).0[j],
    decreases ws.len() - k,
{
    if k < ws.len() {
        lemma_take_prefix_layout(ws, k + 1, max_width, gap);
        assert(ws.take(k + 1).drop_last() =~= ws.take(k));
        lemma_rows_ordered(ws.take(k), max_width, gap);
    } else {
        assert(ws.take(k) =~= ws);
    }
}

/// The rectangle inside a padding, in the integers the layout is computed in.
pub open spec fn inside_padding(area: Rect, p: Padding) -> Rect {
    Rect {
        x: (area.x + p.left) as u16,
        y: (area.y + p.top) as u16,
        width: sat_sub(area.width as int, p.left + p.right) as u16,
        height: sat_sub(area.height as int, p.top + p.bottom) as u16,
    }
}

/// The number of rows that tokens of widths `ws` take in rows `width` wide, or `rows` when
/// there are no tokens.
pub open spec fn rows_taken(ws: Seq<u16>, width: int, gap: int, rows: int) -> int {
    if ws.len() > 0 {
        token_positions(ws, width, gap).last().1 + 1
    } else {
        rows
    }
}

/// The rectangles a token list lays out in `area` for tokens of widths `ws`, with options
/// `o` and `rows` rows laid out before: the area inside the padding, narrowed by a scrollbar
/// and its margin when the rows do not fit, the area wider than fifteen columns and the
/// scrollbar enabled; and the scrollbar's column, the rightmost of `area`.
pub open spec fn token_list_areas(area: Rect, ws: Seq<u16>, o: TokenListOptions, rows: int) -> (
    Rect,
    Option<Rect>,
) {
    let inner = inside_padding(area, o.padding);
    if inner.width == 0 || inner.height == 0 {
        (inner, None)
    } else if o.scrollbar && rows_taken(ws, inner.width as int, o.gap as int, rows)
        > inner.height && inner.width > 15 {
        (
            Rect { width: sat_sub(inner.width as int, 1 + o.scrollbar_margin) as u16, ..inner },
            Some(
                Rect {
                    x: (area.x + sat_sub(area.width as int, 1)) as u16,
                    width: 1,
                    ..area
                },
            ),
        )
    } else {
        (inner, None)
    }
}

impl TokenList {
    /// True when the list wants a scrollbar: it is enabled and there are more rows than fit.
    fn is_scrollable(&self, list_size: Size) -> (b: bool)
        ensures
            b == (self.options.scrollbar && self.total_lines as int > list_size.height
                && list_size.width > 15),
    {
        self.options.scrollbar && Scrollbar::is_scrollable(
            ScrollableData::new(self.total_lines as usize, list_size),
        )
    }

    /// Scrolls so that the cursor's row shows, starting from the top again when the area's
    /// size changed.
    fn update_scroll(&mut self, area_size: Size, list_height: u16)
        ensures
            final(self).scroll_spec() == scroll_with_margins(
                ScrollData {
                    current_index: old(self).index_row as usize,
                    current_scroll: if old(self).last_size != area_size {
                        0
                    } else {
                        old(self).scroll as usize
                    },
                    total_lines: old(self).total_lines as usize,
                    viewport_height: list_height,
                },
                ScrollMargins { margin_top: 0, margin_bottom: 0, padding_bottom: 0 },
            ),
            final(self).index == old(self).index,
            final(self).index_col == old(self).index_col,
            final(self).index_row == old(self).index_row,
            final(self).total_lines == old(self).total_lines,
            final(self).total_items == old(self).total_items,
            final(self).list_width == old(self).list_width,
            final(self).last_size == old(self).last_size,
            final(self).options == old(self).options,
    {
        let scroll: u16 = if self.last_size != area_size {
            0
        } else {
            self.scroll
        };
        let data = ScrollData {
            current_index: self.index_row as usize,
            current_scroll: scroll as usize,
            total_lines: self.total_lines as usize,
            viewport_height: list_height,
        };
        let s = Scrollbar::calculate_scroll(data);
        proof {
            assert(s <= u16::MAX);
        }
        self.scroll = s as u16;
    }

    /// The layout step of drawing: lays the tokens out in the area inside the padding,
    /// narrowed by a scrollbar when the rows do not fit, and scrolls to the cursor's row.
    /// Returns the area for the tokens and the one for the scrollbar, if any.
    pub fn layout(&mut self, area: Rect, widths: &[u16]) -> (r: (Rect, Option<Rect>))
        requires
            area.x + old(self).options_spec().padding.left <= u16::MAX,
            area.y + old(self).options_spec().padding.top <= u16::MAX,
            old(self).options_spec().padding.left + old(self).options_spec().padding.right <= u16::MAX,
            old(self).options_spec().padding.top + old(self).options_spec().padding.bottom <= u16::MAX,
            area.x + area.width <= u16::MAX,
            old(self).options_spec().scrollbar_margin < u16::MAX,
            forall|w: u16| w <= area.width ==> layout_fits(widths@, w as int, old(self).options_spec().gap as int),
        ensures
            r == token_list_areas(area, widths@, old(self).options_spec(), old(self).totals().0),
            final(self).options_spec() == old(self).options_spec(),
            final(self).index_spec() == old(self).index_spec(),
            inside_padding(area, old(self).options_spec().padding).width == 0 || inside_padding(
                area,
                old(self).options_spec().padding,
            ).height == 0 ==> {
                &&& final(self).totals() == old(self).totals()
                &&& final(self).cursor_place() == old(self).cursor_place()
                &&& final(self).list_width_spec() == old(self).list_width_spec()
                &&& final(self).scroll_spec() == old(self).scroll_spec()
                &&& final(self).last_size_spec() == old(self).last_size_spec()
            },
            r.0.width > 0 && r.0.height > 0 ==> {
                &&& final(self).list_width_spec() == r.0.width
                &&& final(self).totals().1 == widths@.len()
                &&& final(self).last_size_spec() == (Size {
                    width: match r.1 {
                        Some(_) => sat_sub(area.width as int, 1 + old(self).options_spec().scrollbar_margin) as u16,
                        None => area.width,
                    },
                    height: area.height,
                })
            },
            r.0.width <= area.width,
    {
        let mut area = area;
        let mut inner = area.inner_padding(self.options.padding);
        if inner.is_empty() {
            return (inner, None);
        }
        self.process_items(inner.width, widths);
        let scroll_area = if self.is_scrollable(inner.as_size()) {
            let s = Scrollbar::make_scroll_area_with_margin(&mut area, self.options.scrollbar_margin);
            let used: u32 = s.width as u32 + self.options.scrollbar_margin as u32;
            inner.width = if inner.width as u32 > used {
                (inner.width as u32 - used) as u16
            } else {
                0
            };
            self.process_items(inner.width, widths);
            Some(s)
        } else {
            None
        };
        self.update_scroll(area.as_size(), inner.height);
        self.last_size = area.as_size();
        self.list_width = inner.width;
        (inner, scroll_area)
    }
}

impl TokenListOptions {
    /// The default options.
    pub open spec fn new_spec() -> Self {
        TokenListOptions {
            gap: 2,
            padding: Padding { left: 1, right: 1, top: 1, bottom: 1 },
            scrollbar: true,
            scrollbar_margin: 1,
        }
    }
}

} // verus!
