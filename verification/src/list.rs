//! The state of a selectable list: the cursor, an optional range selection anchored at a
//! second position, and the scroll.
use vstd::prelude::*;

use crate::layout::{sat_sub, Padding, Rect, Size};
use crate::style::Color;
use crate::scroll::{
    scroll_fits, scroll_with_margins, ScrollData, ScrollMargins, ScrollableData, Scrollbar,
    ScrollbarColors,
};

verus! {

/// A key that the widgets react to.
#[derive(Debug, Clone, Copy, PartialEq, Eq, Structural)]
pub enum Key {
    Up,
    Down,
    Left,
    Right,
    PageUp,
    PageDown,
    Home,
    End,
    Backspace,
    Delete,
    Enter,
    Char(char),
    Other,
}

/// A move of the list cursor.
#[derive(Debug, Clone, Copy, PartialEq, Eq, Structural)]
pub enum ListMove {
    Up(usize),
    Down(usize),
    PageUp,
    PageDown,
    Start,
    End,
    Custom(usize),
}

/// How a list line is drawn: the cursor line, a line inside the selection, or a plain line.
#[derive(Debug, Clone, Copy, PartialEq, Eq, Structural)]
pub enum ListItem {
    Selected,
    Selection,
    Normal,
}

/// Options of a list: scroll margins, padding, and whether a scrollbar is shown.
#[derive(Debug, Clone, Copy, PartialEq, Eq, Structural)]
pub struct ListOptions {
    pub scrolloff: ScrollMargins,
    pub padding: Padding,
    pub scrollbar: bool,
    pub scrollbar_margin: u16,
}

impl ListOptions {
    /// No margins, no padding, no scrollbar, and one column between list and scrollbar.
    pub fn new() -> (o: Self)
        ensures
            o.scrolloff == (ScrollMargins { margin_top: 0, margin_bottom: 0, padding_bottom: 0 }),
            o.padding == (Padding { left: 0, right: 0, top: 0, bottom: 0 }),
            !o.scrollbar,
            o.scrollbar_margin == 1,
    {
        ListOptions {
            scrolloff: ScrollMargins::zero(),
            padding: Padding { left: 0, right: 0, top: 0, bottom: 0 },
            scrollbar: false,
            scrollbar_margin: 1,
        }
    }
}

/// The options a list starts with: no margins, no padding, no scrollbar, and one column
/// between list and scrollbar.
pub open spec fn default_list_options() -> ListOptions {
    ListOptions {
        scrolloff: ScrollMargins { margin_top: 0, margin_bottom: 0, padding_bottom: 0 },
        padding: Padding { left: 0, right: 0, top: 0, bottom: 0 },
        scrollbar: false,
        scrollbar_margin: 1,
    }
}

/// The abstract state of a list.
pub struct ListState {
    pub index: int,
    pub selector: Option<int>,
    pub len: int,
}

/// The largest index of a list of `len` items (0 for an empty list).
pub open spec fn max_index(len: int) -> int {
    sat_sub(len, 1)
}

/// The list after its cursor is moved to `i` (clamped into the list); with `shift` the
/// selection is anchored at the old cursor, otherwise it is dropped; an anchor on the new
/// cursor is dropped too. The flag says whether anything changed.
pub open spec fn moved_to(st: ListState, i: int, shift: bool) -> (ListState, bool) {
    let anchored = if shift {
        if st.selector is None {
            Some(st.index)
        } else {
            st.selector
        }
    } else {
        None
    };
    let index = if i < max_index(st.len) {
        i
    } else {
        max_index(st.len)
    };
    let selector = if anchored == Some(index) {
        None
    } else {
        anchored
    };
    (
        ListState { index, selector, len: st.len },
        index != st.index || selector != st.selector,
    )
}

/// The list with everything selected: the cursor at the top and the anchor on the last
/// item (no anchor when the list has at most one item).
pub open spec fn all_selected(st: ListState) -> ListState {
    ListState {
        index: 0,
        selector: if max_index(st.len) == 0 {
            None
        } else {
            Some(max_index(st.len))
        },
        len: st.len,
    }
}

/// What a key does to a list last drawn `height` lines high: the arrows move by one, the
/// page keys by `height`, home and end to the ends (shift extends the selection), ctrl-a
/// selects everything, and other keys change nothing; `changed` tells whether it changed.
pub open spec fn list_input_outcome(
    st: ListState,
    height: int,
    key: Key,
    ctrl: bool,
    shift: bool,
    new: ListState,
    changed: bool,
) -> bool {
    match key {
        Key::Down => (new, changed) == moved_to(st, st.index + 1, shift),
        Key::Up => (new, changed) == moved_to(st, sat_sub(st.index, 1), shift),
        Key::Home => (new, changed) == moved_to(st, 0, shift),
        Key::End => (new, changed) == moved_to(st, usize::MAX as int, shift),
        Key::PageDown => (new, changed) == moved_to(st, st.index + height, shift),
        Key::PageUp => (new, changed) == moved_to(st, sat_sub(st.index, height), shift),
        Key::Char(c) => if c == 'a' && ctrl {
            new == all_selected(st) && changed == (st.index != new.index || st.selector
                != new.selector)
        } else {
            !changed && new == st
        },
        _ => !changed && new == st,
    }
}

/// Moving the selection up: without an anchor the cursor moves up; with one, cursor and
/// anchor move up together unless either is at the top.
pub open spec fn selection_moved_up(st: ListState, new: ListState, changed: bool) -> bool {
    match st.selector {
        None => (new, changed) == moved_to(st, sat_sub(st.index, 1), false),
        Some(s) => if st.index == 0 || s == 0 {
            !changed && new == st
        } else {
            changed && new == (ListState { index: st.index - 1, selector: Some(s - 1), len: st.len })
        },
    }
}

/// Moving the selection down: without an anchor the cursor moves down; with one, cursor
/// and anchor move down together unless either would pass the last item.
pub open spec fn selection_moved_down(st: ListState, new: ListState, changed: bool) -> bool {
    match st.selector {
        None => (new, changed) == moved_to(st, st.index + 1, false),
        Some(s) => {
            let m = max_index(st.len);
            let i = if st.index + 1 < m {
                st.index + 1
            } else {
                m
            };
            let t = if s + 1 < m {
                s + 1
            } else {
                m
            };
            if i == st.index || t == s {
                !changed && new == st
            } else {
                changed && new == (ListState { index: i, selector: Some(t), len: st.len })
            }
        },
    }
}

/// The colors of a list: those of its scrollbar.
#[derive(Debug, Clone, Copy, PartialEq, Eq, Structural)]
pub struct ListColors {
    pub scrollbar: ScrollbarColors,
}

impl ListColors {
    /// The default scrollbar colors.
    pub fn new() -> (c: Self)
        ensures
            c.scrollbar == (ScrollbarColors { thumb: Color::Indexed(240), track: None }),
    {
        ListColors { scrollbar: ScrollbarColors::default_colors() }
    }
}

impl Default for ListColors {
    fn default() -> (c: Self)
        ensures
            c.scrollbar == (ScrollbarColors { thumb: Color::Indexed(240), track: None }),
    {
        Self::new()
    }
}

/// A selectable list.
pub struct List {
    index: usize,
    selector: Option<usize>,
    scroll: usize,
    options: ListOptions,
    colors: ListColors,
    last_height: u16,
    len: usize,
}

impl List {
    /// The cursor, anchor and length.
    pub closed spec fn state(&self) -> ListState {
        ListState {
            index: self.index as int,
            selector: match self.selector {
                Some(s) => Some(s as int),
                None => None,
            },
            len: self.len as int,
        }
    }

    /// The scroll position.
    pub closed spec fn scroll_spec(&self) -> int {
        self.scroll as int
    }

    /// The height of the area at the last layout.
    pub closed spec fn last_height_spec(&self) -> int {
        self.last_height as int
    }

    /// The options.
    pub closed spec fn options_spec(&self) -> ListOptions {
        self.options
    }

    /// The colors.
    pub closed spec fn colors_spec(&self) -> ListColors {
        self.colors
    }

    /// An empty list with the cursor at the top.
    pub fn new() -> (l: Self)
        ensures
            l.state() == (ListState { index: 0, selector: None, len: 0 }),
            l.scroll_spec() == 0,
            l.last_height_spec() == 0,
            l.options_spec() == (ListOptions {
                scrolloff: ScrollMargins { margin_top: 0, margin_bottom: 0, padding_bottom: 0 },
                padding: Padding { left: 0, right: 0, top: 0, bottom: 0 },
                scrollbar: false,
                scrollbar_margin: 1,
            }),
            l.colors_spec() == (ListColors {
                scrollbar: ScrollbarColors { thumb: Color::Indexed(240), track: None },
            }),
    {
        List {
            index: 0,
            selector: None,
            scroll: 0,
            options: ListOptions::new(),
            colors: ListColors::new(),
            last_height: 0,
            len: 0,
        }
    }

    /// The same list with the cursor at `index`.
    pub fn with_index(self, index: usize) -> (l: Self)
        ensures
            l.state() == (ListState { index: index as int, ..self.state() }),
            l.scroll_spec() == self.scroll_spec(),
            l.options_spec() == self.options_spec(),
    {
        List { index, ..self }
    }

    /// The same list with other scroll margins.
    pub fn with_scrolloff(self, margins: ScrollMargins) -> (l: Self)
        ensures
            l.state() == self.state(),
            l.scroll_spec() == self.scroll_spec(),
            l.last_height_spec() == self.last_height_spec(),
            l.options_spec() == (ListOptions { scrolloff: margins, ..self.options_spec() }),
    {
        let mut l = self;
        l.set_scrolloff(margins);
        l
    }

    /// The same list with other padding.
    pub fn with_padding(self, padding: Padding) -> (l: Self)
        ensures
            l.state() == self.state(),
            l.scroll_spec() == self.scroll_spec(),
            l.last_height_spec() == self.last_height_spec(),
            l.options_spec() == (ListOptions { padding, ..self.options_spec() }),
    {
        let mut l = self;
        l.set_padding(padding);
        l
    }

    /// The same list with a scrollbar.
    pub fn with_scrollbar(self) -> (l: Self)
        ensures
            l.state() == self.state(),
            l.scroll_spec() == self.scroll_spec(),
            l.last_height_spec() == self.last_height_spec(),
            l.options_spec() == (ListOptions { scrollbar: true, ..self.options_spec() }),
    {
        let mut l = self;
        l.set_scrollbar(true);
        l
    }

    /// The same list with other colors.
    pub fn with_colors(self, colors: ListColors) -> (l: Self)
        ensures
            l.state() == self.state(),
            l.options_spec() == self.options_spec(),
            l.colors_spec() == colors,
    {
        List { colors, ..self }
    }

    /// The cursor, the anchor and the length are machine integers.
    pub proof fn lemma_state_bounds(&self)
        ensures
            0 <= self.state().index <= usize::MAX,
            self.state().selector matches Some(s) ==> 0 <= s <= usize::MAX,
            0 <= self.state().len <= usize::MAX,
            0 <= self.scroll_spec() <= usize::MAX,
            0 <= self.last_height_spec() <= u16::MAX,
    {
    }

    /// The cursor.
    pub fn index(&self) -> (i: usize)
        ensures
            i == self.state().index,
    {
        self.index
    }

    /// The selection anchor.
    pub fn selector(&self) -> (s: Option<usize>)
        ensures
            s.is_some() == self.state().selector.is_some(),
            s matches Some(v) ==> self.state().selector == Some(v as int),
    {
        self.selector
    }

    /// The scroll position.
    pub fn scroll(&self) -> (s: usize)
        ensures
            s == self.scroll_spec(),
    {
        self.scroll
    }

    /// The selected items other than the cursor, as a half-open range; `None` without an
    /// anchor or when the anchor is on the cursor.
    pub fn selection(&self) -> (r: Option<(usize, usize)>)
        requires
            self.state().selector matches Some(s) ==> s < usize::MAX,
        ensures
            r == match self.state().selector {
                Some(s) => if self.state().index < s {
                    Some(((self.state().index + 1) as usize, (s + 1) as usize))
                } else if self.state().index > s {
                    Some((s as usize, self.state().index as usize))
                } else {
                    None
                },
                None => None,
            },
    {
        match self.selector {
            Some(selector) => {
                if self.index < selector {
                    Some((self.index + 1, selector + 1))
                } else if self.index > selector {
                    Some((selector, self.index))
                } else {
                    None
                }
            },
            None => None,
        }
    }

    /// The selected items, cursor included, as an inclusive range.
    pub fn selection_inclusive(&self) -> (r: (usize, usize))
        ensures
            r == match self.state().selector {
                Some(s) => if self.state().index < s {
                    (self.state().index as usize, s as usize)
                } else {
                    (s as usize, self.state().index as usize)
                },
                None => (self.state().index as usize, self.state().index as usize),
            },
    {
        match self.selector {
            Some(selector) => {
                if self.index < selector {
                    (self.index, selector)
                } else {
                    (selector, self.index)
                }
            },
            None => (self.index, self.index),
        }
    }

    /// Puts the cursor at `i`.
    pub fn set_index(&mut self, i: usize)
        ensures
            final(self).state() == (ListState { index: i as int, ..old(self).state() }),
            final(self).scroll_spec() == old(self).scroll_spec(),
            final(self).options_spec() == old(self).options_spec(),
            final(self).last_height_spec() == old(self).last_height_spec(),
    {
        self.index = i;
    }

    /// Sets the selection anchor.
    pub fn set_selector(&mut self, s: Option<usize>)
        ensures
            final(self).state() == (ListState {
                selector: match s {
                    Some(v) => Some(v as int),
                    None => None,
                },
                ..old(self).state()
            }),
            final(self).scroll_spec() == old(self).scroll_spec(),
            final(self).options_spec() == old(self).options_spec(),
            final(self).last_height_spec() == old(self).last_height_spec(),
    {
        self.selector = s;
    }

    /// Sets the scroll margins.
    pub fn set_scrolloff(&mut self, margins: ScrollMargins)
        ensures
            final(self).state() == old(self).state(),
            final(self).options_spec() == (ListOptions { scrolloff: margins, ..old(self).options_spec() }),
            final(self).scroll_spec() == old(self).scroll_spec(),
            final(self).last_height_spec() == old(self).last_height_spec(),
    {
        self.options.scrolloff = margins;
    }

    /// Sets the padding.
    pub fn set_padding(&mut self, padding: Padding)
        ensures
            final(self).state() == old(self).state(),
            final(self).options_spec() == (ListOptions { padding, ..old(self).options_spec() }),
            final(self).scroll_spec() == old(self).scroll_spec(),
            final(self).last_height_spec() == old(self).last_height_spec(),
    {
        self.options.padding = padding;
    }

    /// Shows or hides the scrollbar.
    pub fn set_scrollbar(&mut self, enabled: bool)
        ensures
            final(self).state() == old(self).state(),
            final(self).options_spec() == (ListOptions { scrollbar: enabled, ..old(self).options_spec() }),
            final(self).scroll_spec() == old(self).scroll_spec(),
            final(self).last_height_spec() == old(self).last_height_spec(),
    {
        self.options.scrollbar = enabled;
    }

    /// Sets the colors.
    pub fn set_colors(&mut self, colors: ListColors)
        ensures
            final(self).state() == old(self).state(),
            final(self).options_spec() == old(self).options_spec(),
            final(self).colors_spec() == colors,
    {
        self.colors = colors;
    }

    /// Moves the cursor to `i` (clamped into the list), anchoring the selection with `shift`.
    fn set_index_and_selector(&mut self, i: usize, shift: bool) -> (changed: bool)
        ensures
            (final(self).state(), changed) == moved_to(old(self).state(), i as int, shift),
            final(self).scroll_spec() == old(self).scroll_spec(),
            final(self).last_height_spec() == old(self).last_height_spec(),
            final(self).options_spec() == old(self).options_spec(),
    {
        let old_index = self.index;
        let old_selector = self.selector;
        if shift {
            if self.selector.is_none() {
                self.selector = Some(self.index);
            }
        } else {
            self.selector = None;
        }
        let max = if self.len > 0 {
            self.len - 1
        } else {
            0
        };
        self.index = if i < max {
            i
        } else {
            max
        };
        if self.selector == Some(self.index) {
            self.selector = None;
        }
        old_index != self.index || !option_eq(old_selector, self.selector)
    }

    /// Moves the cursor; `shift` extends the selection.
    pub fn move_index(&mut self, lm: ListMove, shift: bool) -> (changed: bool)
        requires
            lm matches ListMove::Down(n) ==> old(self).state().index + n <= usize::MAX,
            lm is PageDown ==> old(self).state().index + old(self).last_height_spec()
                <= usize::MAX,
        ensures
            (final(self).state(), changed) == moved_to(
                old(self).state(),
                match lm {
                    ListMove::Up(n) => sat_sub(old(self).state().index, n as int),
                    ListMove::Down(n) => old(self).state().index + n,
                    ListMove::PageUp => sat_sub(
                        old(self).state().index,
                        old(self).last_height_spec(),
                    ),
                    ListMove::PageDown => old(self).state().index + old(self).last_height_spec(),
                    ListMove::Start => 0,
                    ListMove::End => usize::MAX as int,
                    ListMove::Custom(i) => i as int,
                },
                shift,
            ),
            final(self).scroll_spec() == old(self).scroll_spec(),
            final(self).last_height_spec() == old(self).last_height_spec(),
            final(self).options_spec() == old(self).options_spec(),
    {
        let target = match lm {
            ListMove::Up(n) => if self.index > n {
                self.index - n
            } else {
                0
            },
            ListMove::Down(n) => self.index + n,
            ListMove::PageUp => {
                let n = self.last_height as usize;
                if self.index > n {
                    self.index - n
                } else {
                    0
                }
            },
            ListMove::PageDown => self.index + self.last_height as usize,
            ListMove::Start => 0,
            ListMove::End => usize::MAX,
            ListMove::Custom(i) => i,
        };
        self.set_index_and_selector(target, shift)
    }

    /// Moves the cursor and the anchor up together; without an anchor, moves the cursor.
    pub fn move_selection_up(&mut self) -> (changed: bool)
        ensures
            selection_moved_up(old(self).state(), final(self).state(), changed),
            final(self).scroll_spec() == old(self).scroll_spec(),
            final(self).last_height_spec() == old(self).last_height_spec(),
            final(self).options_spec() == old(self).options_spec(),
    {
        let selector = match self.selector {
            Some(s) => s,
            None => {
                let target = if self.index > 1 {
                    self.index - 1
                } else {
                    0
                };
                return self.set_index_and_selector(target, false);
            },
        };
        if self.index == 0 || selector == 0 {
            return false;
        }
        self.index = self.index - 1;
        self.selector = Some(selector - 1);
        true
    }

    /// Moves the cursor and the anchor down together, staying in the list; without an
    /// anchor, moves the cursor.
    pub fn move_selection_down(&mut self) -> (changed: bool)
        requires
            old(self).state().index < usize::MAX,
            old(self).state().selector matches Some(s) ==> s < usize::MAX,
        ensures
            selection_moved_down(old(self).state(), final(self).state(), changed),
            final(self).scroll_spec() == old(self).scroll_spec(),
            final(self).last_height_spec() == old(self).last_height_spec(),
            final(self).options_spec() == old(self).options_spec(),
    {
        let selector = match self.selector {
            Some(s) => s,
            None => {
                return self.set_index_and_selector(self.index + 1, false);
            },
        };
        let max = if self.len > 0 {
            self.len - 1
        } else {
            0
        };
        let i = if self.index + 1 < max {
            self.index + 1
        } else {
            max
        };
        let s = if selector + 1 < max {
            selector + 1
        } else {
            max
        };
        if i == self.index || s == selector {
            return false;
        }
        self.index = i;
        self.selector = Some(s);
        true
    }

    /// Selects every item: cursor at the top, anchor at the bottom.
    pub fn select_all(&mut self) -> (changed: bool)
        ensures
            final(self).state().index == 0,
            final(self).state().len == old(self).state().len,
            final(self).state().selector == (if max_index(old(self).state().len) == 0 {
                None
            } else {
                Some(max_index(old(self).state().len))
            }),
            changed == (old(self).state().index != final(self).state().index || old(
                self,
            ).state().selector != final(self).state().selector),
            final(self).scroll_spec() == old(self).scroll_spec(),
            final(self).last_height_spec() == old(self).last_height_spec(),
            final(self).options_spec() == old(self).options_spec(),
    {
        let old_index = self.index;
        let old_selector = self.selector;
        self.index = 0;
        let max = if self.len > 0 {
            self.len - 1
        } else {
            0
        };
        self.selector = if max == 0 {
            None
        } else {
            Some(max)
        };
        old_index != self.index || !option_eq(old_selector, self.selector)
    }

    /// Reacts to a key: arrows, pages, home and end move the cursor (extending the
    /// selection with shift), and ctrl-a selects everything.
    pub fn input(&mut self, key: Key, ctrl: bool, shift: bool) -> (changed: bool)
        requires
            key == Key::Down ==> old(self).state().index < usize::MAX,
            key == Key::PageDown ==> old(self).state().index + old(self).last_height_spec()
                <= usize::MAX,
        ensures
            list_input_outcome(
                old(self).state(),
                old(self).last_height_spec() as int,
                key,
                ctrl,
                shift,
                final(self).state(),
                changed,
            ),
            final(self).scroll_spec() == old(self).scroll_spec(),
            final(self).last_height_spec() == old(self).last_height_spec(),
            final(self).options_spec() == old(self).options_spec(),
    {
        match key {
            Key::Down => self.move_index(ListMove::Down(1), shift),
            Key::Up => self.move_index(ListMove::Up(1), shift),
            Key::PageDown => self.move_index(ListMove::PageDown, shift),
            Key::PageUp => self.move_index(ListMove::PageUp, shift),
            Key::End => self.move_index(ListMove::End, shift),
            Key::Home => self.move_index(ListMove::Start, shift),
            Key::Char(c) => {
                if c == 'a' && ctrl {
                    self.select_all()
                } else {
                    false
                }
            },
            _ => false,
        }
    }

    /// Cursor to the top, no scroll, no anchor.
    pub fn reset(&mut self)
        ensures
            final(self).state() == (ListState { index: 0, selector: None, len: old(self).state().len }),
            final(self).scroll_spec() == 0,
            final(self).last_height_spec() == old(self).last_height_spec(),
            final(self).options_spec() == old(self).options_spec(),
    {
        self.index = 0;
        self.scroll = 0;
        self.selector = None;
    }

    /// How the item at `i` is drawn.
    pub fn item_kind(&self, i: usize) -> (k: ListItem)
        ensures
            k == (if i == self.state().index {
                ListItem::Selected
            } else if (match self.state().selector {
                Some(s) => (s <= i <= self.state().index || self.state().index <= i <= s),
                None => false,
            }) {
                ListItem::Selection
            } else {
                ListItem::Normal
            }),
    {
        let (lo, hi) = self.selection_inclusive();
        if i == self.index {
            ListItem::Selected
        } else if lo <= i && i <= hi {
            ListItem::Selection
        } else {
            ListItem::Normal
        }
    }

    /// Keeps the cursor and the anchor inside the list.
    fn clamp_index_and_selector(&mut self)
        ensures
            final(self).state().len == old(self).state().len,
            final(self).state().index == (if old(self).state().index < max_index(
                old(self).state().len,
            ) {
                old(self).state().index
            } else {
                max_index(old(self).state().len)
            }),
            final(self).state().selector == match old(self).state().selector {
                Some(s) => Some(
                    if s < max_index(old(self).state().len) {
                        s
                    } else {
                        max_index(old(self).state().len)
                    },
                ),
                None => None,
            },
            final(self).scroll_spec() == old(self).scroll_spec(),
            final(self).last_height_spec() == old(self).last_height_spec(),
            final(self).options_spec() == old(self).options_spec(),
    {
        let max = if self.len > 0 {
            self.len - 1
        } else {
            0
        };
        if self.index >= max {
            self.index = max;
        }
        self.selector = match self.selector {
            Some(s) => Some(
                if s < max {
                    s
                } else {
                    max
                },
            ),
            None => None,
        };
    }

    /// The layout step of drawing: records the number of items, keeps the cursor and anchor
    /// inside the list, scrolls to the cursor (from the top again when the area's height
    /// changed) and records the area's height. Returns the rectangle for the list and the
    /// one for the scrollbar, if there is one.
    pub fn layout(&mut self, area: Rect, len: usize) -> (r: (Rect, Option<Rect>))
        requires
            area.x + old(self).options_spec().padding.left <= u16::MAX,
            area.y + old(self).options_spec().padding.top <= u16::MAX,
            old(self).options_spec().padding.left + old(self).options_spec().padding.right
                <= u16::MAX,
            old(self).options_spec().padding.top + old(self).options_spec().padding.bottom
                <= u16::MAX,
            area.x + area.width <= u16::MAX,
            old(self).options_spec().scrollbar_margin < u16::MAX,
            len + old(self).options_spec().scrolloff.padding_bottom <= usize::MAX,
            old(self).scroll_spec() + old(self).options_spec().scrolloff.margin_top + area.height
                <= usize::MAX,
        ensures
            final(self).state().len == len,
            final(self).last_height_spec() == area.height,
            final(self).options_spec() == old(self).options_spec(),
            final(self).state().index <= max_index(len as int),
            final(self).scroll_spec() <= old(self).scroll_spec() || final(self).scroll_spec() <= len
                + old(self).options_spec().scrolloff.padding_bottom,
            len > 0 && r.0.height > 0 ==> final(self).scroll_spec() <= final(self).state().index
                < final(self).scroll_spec() + r.0.height,
    {
        let mut area = area;
        let mut inner = area.inner_padding(self.options.padding);
        self.len = len;
        let scroll_area = if self.options.scrollbar && Scrollbar::is_scrollable(
            ScrollableData::new(self.len, inner.as_size()),
        ) {
            let s = Scrollbar::make_scroll_area_with_margin(&mut area, self.options.scrollbar_margin);
            inner = area.inner_padding(self.options.padding);
            Some(s)
        } else {
            None
        };
        self.clamp_index_and_selector();
        let scroll = if self.last_height != area.height {
            0
        } else {
            self.scroll
        };
        let data = ScrollData {
            current_index: self.index,
            current_scroll: scroll,
            total_lines: self.len,
            viewport_height: inner.height,
        };
        proof {
            assert(inner.height <= area.height);
        }
        self.scroll = Scrollbar::calculate_scroll_with_margins(data, self.options.scrolloff);
        proof {
            if data.current_index < data.total_lines && data.viewport_height > 0 {
                crate::scroll::law_selected_line_visible(data, self.options.scrolloff);
            }
        }
        self.last_height = area.height;
        (inner, scroll_area)
    }
}

/// Equality of optional positions.
fn option_eq(a: Option<usize>, b: Option<usize>) -> (r: bool)
    ensures
        r == (a == b),
{
    match (a, b) {
        (Some(x), Some(y)) => x == y,
        (None, None) => true,
        _ => false,
    }
}

/// After any cursor move the cursor is inside the list (or at 0 for an empty list), and the
/// anchor, if any, is not on the cursor.
pub proof fn law_move_keeps_cursor_in_list(st: ListState, i: int, shift: bool)
    requires
        st.len >= 0,
        i >= 0,
    ensures
        0 <= moved_to(st, i, shift).0.index <= max_index(st.len),
        moved_to(st, i, shift).0.selector != Some(moved_to(st, i, shift).0.index),
        moved_to(st, i, shift).0.len == st.len,
        !shift ==> moved_to(st, i, shift).0.selector is None,
{
}

/// Moving the cursor down by `n` and back up by `n`, without shift and inside the list,
/// returns it to where it was.
pub proof fn law_down_then_up(st: ListState, n: int)
    requires
        st.len > 0,
        0 <= st.index,
        n >= 0,
        st.index + n <= max_index(st.len),
    ensures
        moved_to(moved_to(st, st.index + n, false).0, sat_sub(st.index + n, n), false).0.index
            == st.index,
{
}

} // verus!
