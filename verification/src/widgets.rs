//! Small pieces of the interface: key hints, the moves and deletions of a text cursor, the
//! ways an escape-coded text is shown, and items laid out as tokens.
use vstd::prelude::*;

verus! {

/// A key hint: what a key does, and the key.
#[derive(Debug, Clone, Copy, PartialEq, Eq)]
pub struct Shortcut<'a> {
    name: &'a str,
    key: &'a str,
}

impl<'a> Shortcut<'a> {
    /// A hint that `key` does `name`.
    pub fn new(name: &'a str, key: &'a str) -> (s: Self)
        ensures
            s.name_spec() == name@,
            s.key_spec() == key@,
    {
        Shortcut { name, key }
    }

    /// What the key does.
    pub closed spec fn name_spec(&self) -> Seq<char> {
        self.name@
    }

    /// The key.
    pub closed spec fn key_spec(&self) -> Seq<char> {
        self.key@
    }

    /// What the key does.
    pub fn name(&self) -> (s: &'a str)
        ensures
            s@ == self.name_spec(),
    {
        self.name
    }

    /// The key.
    pub fn key(&self) -> (s: &'a str)
        ensures
            s@ == self.key_spec(),
    {
        self.key
    }
}

/// A move of a text cursor.
#[derive(Debug, Clone, Copy, PartialEq, Eq, Structural)]
pub enum CursorMove {
    Forward,
    Back,
    Up,
    Down,
    Start,
    End,
}

/// A deletion at a text cursor.
#[derive(Debug, Clone, Copy, PartialEq, Eq, Structural)]
pub enum CursorDelete {
    Forward,
    Back,
    _Selection,
}

/// How an escape-coded text is shown: as text, possibly centred vertically, or as a page
/// that scrolls.
#[derive(Debug, Clone, Copy, PartialEq, Eq, Structural)]
pub enum AnsiViewMode {
    Text { center_vertical: bool },
    Page { scrollbar: bool, scrollbar_margin: u16 },
}

impl AnsiViewMode {
    /// The mode used when none is chosen: text, not centred.
    pub fn default_mode() -> (m: Self)
        ensures
            m == (AnsiViewMode::Text { center_vertical: false }),
    {
        AnsiViewMode::Text { center_vertical: false }
    }
}

/// An item that is laid out as a token of some width.
pub trait TokenItem {
    fn width(&self) -> u16;
}

} // verus!
