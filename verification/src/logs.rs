//! The log page: messages reported while the player runs, a count of those not yet seen,
//! and a list to browse them that scrolls long lines sideways.
use unicode_width::UnicodeWidthStr;
use vstd::prelude::*;

use crate::list::{Key, List, ListState};
use crate::track::Route;

verus! {

/// What the interface does after a page handled a key.
pub enum Action {
    Nothing,
    Render,
    Route(Route),
    /// Use the settings the page handed over.
    ApplySettings,
    /// Save the settings in use.
    SaveSettings,
    /// Report a message in the logs.
    Log(Log),
}

/// The number of terminal columns a text takes.
pub uninterp spec fn display_width(s: Seq<char>) -> usize;

/// The width of a text in terminal columns.
///
/// Calls `UnicodeWidthStr::width`, whose result depends on the text alone and is named
/// `display_width`.
#[verifier::external_body]
fn text_width(s: &str) -> (w: usize)
    ensures
        w == display_width(s@),
{
    UnicodeWidthStr::width(s)
}

/// A message and its width in terminal columns.
pub struct Log {
    message: String,
    width: usize,
}

impl Log {
    /// A log of a message.
    pub fn new(message: String) -> (l: Self)
        ensures
            l.message_spec() == message@,
            l.width_spec() == display_width(message@),
    {
        let width = text_width(message.as_str());
        Log { message, width }
    }

    /// The message.
    pub closed spec fn message_spec(&self) -> Seq<char> {
        self.message@
    }

    /// The width of the message.
    pub closed spec fn width_spec(&self) -> usize {
        self.width
    }

    /// The message.
    pub fn message(&self) -> (s: &str)
        ensures
            s@ == self.message_spec(),
    {
        self.message.as_str()
    }

    /// The width of the message in terminal columns.
    pub fn width(&self) -> (w: usize)
        ensures
            w == self.width_spec(),
    {
        self.width
    }
}

/// The log page.
pub struct LogsPage {
    logs: Vec<Log>,
    queue: u32,
    list: List,
    horizontal_scroll: usize,
}

impl LogsPage {
    /// The messages, oldest first.
    pub closed spec fn logs_spec(&self) -> Seq<Seq<char>> {
        self.logs@.map_values(|l: Log| l.message_spec())
    }

    /// The number of messages not yet seen.
    pub closed spec fn unseen(&self) -> u32 {
        self.queue
    }

    /// The cursor state of the list.
    pub closed spec fn list_state(&self) -> ListState {
        self.list.state()
    }

    /// The width of the message at position `i`.
    pub closed spec fn width_at(&self, i: int) -> usize {
        self.logs@[i].width_spec()
    }

    /// The height of the list at its last layout.
    pub closed spec fn list_height(&self) -> int {
        self.list.last_height_spec()
    }

    /// How far the selected line is scrolled sideways.
    pub closed spec fn scroll_spec(&self) -> usize {
        self.horizontal_scroll
    }

    /// An empty page.
    pub fn new() -> (p: Self)
        ensures
            p.logs_spec() == Seq::<Seq<char>>::empty(),
            p.unseen() == 0,
            p.scroll_spec() == 0,
            p.list_state() == (ListState { index: 0, selector: None, len: 0 }),
            p.list_height() == 0,
    {
        let p = LogsPage { logs: Vec::new(), queue: 0, list: List::new(), horizontal_scroll: 0 };
        proof {
            assert(p.logs@.map_values(|l: Log| l.message_spec()) =~= Seq::<Seq<char>>::empty());
        }
        p
    }

    /// Adds a message, which counts as not yet seen.
    pub fn enqueue(&mut self, log: Log)
        requires
            old(self).unseen() < u32::MAX,
        ensures
            final(self).logs_spec() == old(self).logs_spec().push(log.message_spec()),
            final(self).unseen() == old(self).unseen() + 1,
            final(self).scroll_spec() == old(self).scroll_spec(),
            final(self).list_state() == old(self).list_state(),
    {
        let ghost m = log.message_spec();
        self.logs.push(log);
        self.queue = self.queue + 1;
        proof {
            assert(self.logs@.map_values(|l: Log| l.message_spec()) =~= old(self).logs@.map_values(
                |l: Log| l.message_spec(),
            ).push(m));
        }
    }

    /// The number of messages not yet seen.
    pub fn queue_len(&self) -> (n: u32)
        ensures
            n == self.unseen(),
    {
        self.queue
    }

    /// Entering the page sees every message.
    pub fn on_enter(&mut self)
        ensures
            final(self).unseen() == 0,
            final(self).logs_spec() == old(self).logs_spec(),
            final(self).scroll_spec() == old(self).scroll_spec(),
            final(self).list_state() == old(self).list_state(),
    {
        self.queue = 0;
    }

    /// Reacts to a key: right and left scroll the selected line sideways, `c` clears the
    /// messages, and other keys move the list.
    pub fn on_input(&mut self, key: Key) -> (a: Action)
        requires
            old(self).list_state().index < usize::MAX,
            key == Key::Right ==> old(self).scroll_spec() < usize::MAX,
            key == Key::PageDown ==> old(self).list_state().index + old(self).list_height() <= usize::MAX,
        ensures
            key == Key::Right ==> final(self).scroll_spec() == old(self).scroll_spec() + 1
                && a is Render && final(self).logs_spec() == old(self).logs_spec(),
            key == Key::Left ==> final(self).scroll_spec() == (if old(self).scroll_spec() > 0 {
                old(self).scroll_spec() - 1
            } else {
                0
            }) && a is Render && final(self).logs_spec() == old(self).logs_spec(),
            key == Key::Char('c') && old(self).logs_spec().len() > 0 ==> final(self).logs_spec()
                == Seq::<Seq<char>>::empty() && final(self).scroll_spec() == 0
                && final(self).list_state().index == 0 && a is Render,
            key == Key::Char('c') && old(self).logs_spec().len() == 0 ==> final(self).logs_spec()
                == old(self).logs_spec() && a is Nothing,
            (key is Char && key != Key::Char('c')) ==> a is Nothing && final(self).logs_spec() == old(
                self,
            ).logs_spec() && final(self).scroll_spec() == old(self).scroll_spec(),
            final(self).unseen() == old(self).unseen(),
    {
        match key {
            Key::Right => {
                self.horizontal_scroll = self.horizontal_scroll + 1;
                Action::Render
            },
            Key::Left => {
                self.horizontal_scroll = if self.horizontal_scroll > 0 {
                    self.horizontal_scroll - 1
                } else {
                    0
                };
                Action::Render
            },
            Key::Char(c) => {
                if c == 'c' && self.logs.len() > 0 {
                    self.logs = Vec::new();
                    self.horizontal_scroll = 0;
                    self.list.set_index(0);
                    proof {
                        assert(self.logs@.map_values(|l: Log| l.message_spec()) =~= Seq::<Seq<char>>::empty());
                    }
                    Action::Render
                } else {
                    Action::Nothing
                }
            },
            _ => {
                if self.list.input(key, false, false) {
                    self.horizontal_scroll = 0;
                    Action::Render
                } else {
                    Action::Nothing
                }
            },
        }
    }

    /// The sideways scroll of the selected message shown in a line `line_width` columns
    /// wide: the scroll is cut back to what the message needs, and returned; none when no
    /// message is selected.
    pub fn scroll_selected(&mut self, line_width: u16) -> (r: Option<usize>)
        ensures
            final(self).logs_spec() == old(self).logs_spec(),
            final(self).unseen() == old(self).unseen(),
            final(self).list_state() == old(self).list_state(),
            old(self).list_state().index < old(self).logs_spec().len() ==> {
                let w = old(self).width_at(old(self).list_state().index);
                let max_scroll = if w > line_width {
                    w - line_width
                } else {
                    0
                };
                &&& final(self).scroll_spec() == (if max_scroll < old(self).scroll_spec() {
                    max_scroll as usize
                } else {
                    old(self).scroll_spec()
                })
                &&& r == Some(final(self).scroll_spec())
            },
            old(self).list_state().index >= old(self).logs_spec().len() ==> r is None
                && final(self).scroll_spec() == old(self).scroll_spec(),
    {
        let i = self.list.index();
        if i < self.logs.len() {
            let w = self.logs[i].width;
            let max_scroll = if w > line_width as usize {
                w - line_width as usize
            } else {
                0
            };
            if max_scroll < self.horizontal_scroll {
                self.horizontal_scroll = max_scroll;
            }
            Some(self.horizontal_scroll)
        } else {
            None
        }
    }
}

} // verus!
