//! The page of what plays: the queue as a list beside the front cover, and the keys that
//! play, rate, reorder and remove tracks.
use vstd::prelude::*;

use crate::audio::AudioRating;
use crate::database::Database;
use crate::jukebox::{
    cleared, index_played, moved_down_block, moved_down_one, moved_up_block, moved_up_one,
    removed_block, removed_one, shuffled, Jukebox, JukeboxView,
};
use crate::layout::Rect;
use crate::list::{
    list_input_outcome, selection_moved_down, selection_moved_up, Key, List, ListState,
};
use crate::logs::Action;
use crate::queue::QueueIndex;
use crate::settings_page::rating_key;
use crate::track::{Route, TrackId};

verus! {

/// How much room the terminal gives.
#[derive(Debug, Clone, Copy, PartialEq, Eq, Structural)]
pub enum ScreenSize {
    Small,
    Medium,
    Large,
}

/// What the page shows: the queue, the cover, or both.
#[derive(Debug, Clone, Copy, PartialEq, Eq, Structural)]
pub enum ViewMode {
    Queue,
    Cover,
    Both,
}

/// The next view: on a small screen queue and cover take turns; otherwise queue, cover and
/// both take turns.
pub open spec fn next_view(v: ViewMode, size: ScreenSize) -> ViewMode {
    match size {
        ScreenSize::Small => match v {
            ViewMode::Queue => ViewMode::Cover,
            ViewMode::Cover | ViewMode::Both => ViewMode::Queue,
        },
        ScreenSize::Medium | ScreenSize::Large => match v {
            ViewMode::Queue => ViewMode::Cover,
            ViewMode::Cover => ViewMode::Both,
            ViewMode::Both => ViewMode::Queue,
        },
    }
}

/// Pressing `v` three times on a medium or large screen comes back to the same view; on
/// a small screen, once the view is the queue or the cover, two presses come back to it.
pub proof fn law_view_cycle(v: ViewMode, size: ScreenSize)
    ensures
        size != ScreenSize::Small ==> next_view(next_view(next_view(v, size), size), size) == v,
        size == ScreenSize::Small && v != ViewMode::Both ==> next_view(next_view(v, size), size)
            == v,
{
}

/// True when the queue is on screen.
pub open spec fn shows_queue(v: ViewMode) -> bool {
    v == ViewMode::Queue || v == ViewMode::Both
}

/// True when the cover is on screen.
pub open spec fn shows_cover(v: ViewMode) -> bool {
    v == ViewMode::Cover || v == ViewMode::Both
}

impl ViewMode {
    /// The next view for the screen's size.
    pub fn next(self, size: ScreenSize) -> (v: Self)
        ensures
            v == next_view(self, size),
    {
        match size {
            ScreenSize::Small => match self {
                ViewMode::Queue => ViewMode::Cover,
                ViewMode::Cover | ViewMode::Both => ViewMode::Queue,
            },
            ScreenSize::Medium | ScreenSize::Large => match self {
                ViewMode::Queue => ViewMode::Cover,
                ViewMode::Cover => ViewMode::Both,
                ViewMode::Both => ViewMode::Queue,
            },
        }
    }
}

/// The state of the page as plain values: the queue position last seen playing, the list
/// of the queue and the height it was last drawn, and the view.
pub struct PlayingPageView {
    pub current_qi: Option<usize>,
    pub list: ListState,
    pub list_height: int,
    pub list_scroll: int,
    pub view_mode: ViewMode,
}

/// The selected range of the list, cursor included, from its first to its last item.
pub open spec fn selected_range(st: ListState) -> (int, int) {
    match st.selector {
        Some(s) => if st.index < s {
            (st.index, s)
        } else {
            (s, st.index)
        },
        None => (st.index, st.index),
    }
}

/// The queue position of the track that plays.
pub open spec fn playing_index(j: JukeboxView) -> Option<usize> {
    match j.current {
        Some((_, i)) => Some(i.0),
        None => None,
    }
}

/// What a key does on the page, for the page (`o`, `n`), the jukebox (`jo`, `jn`) and the
/// ratings waiting to be written (`wo`, `wn`). With an empty queue only `v`, which changes
/// the view, does anything. Otherwise, with the queue on screen: enter plays the track
/// under the cursor, `c` empties the queue, `s` shuffles it, `g` goes to the track under
/// the cursor in the track list, `m` and `M` move the selected tracks down and up (the
/// selection follows), `r` removes them (the cursor goes to where they began), and other
/// keys move the list. With the cover on screen, `0` to `5` rate the track that plays and
/// `g` goes to it in the track list. `v` changes the view. The page is drawn again when
/// something changed.
pub open spec fn playing_key_outcome(
    o: PlayingPageView,
    n: PlayingPageView,
    jo: JukeboxView,
    jn: JukeboxView,
    wo: Seq<(TrackId, Option<AudioRating>)>,
    wn: Seq<(TrackId, Option<AudioRating>)>,
    key: Key,
    ctrl: bool,
    shift: bool,
    size: ScreenSize,
    db: Database,
    a: Action,
) -> bool {
    let queue = shows_queue(o.view_mode);
    let (start, end) = selected_range(o.list);
    if key == Key::Char('v') {
        n == (PlayingPageView { view_mode: next_view(o.view_mode, size), ..o }) && jn == jo && wn
            == wo && a is Render
    } else if jo.queue.list.len() == 0 {
        n == o && jn == jo && wn == wo && a is Nothing
    } else if key == Key::Enter {
        n == o && wn == wo && a is Nothing && if queue {
            index_played(jo, jn, o.list.index, db)
        } else {
            jn == jo
        }
    } else if key is Char && rating_key(key->Char_0) is Some {
        n == o && jn == jo && a is Nothing && if shows_cover(o.view_mode) && jo.current is Some {
            wn == wo.push((jo.current.unwrap().0, rating_key(key->Char_0).unwrap()))
        } else {
            wn == wo
        }
    } else if key == Key::Char('c') && queue {
        n == o && wn == wo && cleared(jo, jn, a is Render) && (a is Render || a is Nothing)
    } else if key == Key::Char('s') && queue {
        n == o && wn == wo && shuffled(jo, jn, a is Render) && (a is Render || a is Nothing)
    } else if key == Key::Char('g') {
        n == o && jn == jo && wn == wo && if queue {
            a == Action::Route(
                Route::Tracks(
                    if o.list.index < jo.queue.list.len() {
                        Some(jo.queue.list[o.list.index])
                    } else {
                        None
                    },
                ),
            )
        } else {
            match jo.current {
                Some((id, _)) => a == Action::Route(Route::Tracks(Some(id))),
                None => a is Nothing,
            }
        }
    } else if (key == Key::Char('m') || key == Key::Char('M')) && queue {
        let moved = a is Render;
        &&& wn == wo
        &&& a is Render || a is Nothing
        &&& if key == Key::Char('m') {
            if start == end {
                moved_down_one(jo, jn, start, moved)
            } else {
                moved_down_block(jo, jn, start, end, moved)
            }
        } else {
            if start == end {
                moved_up_one(jo, jn, start, moved)
            } else {
                moved_up_block(jo, jn, start, end, moved)
            }
        }
        &&& moved ==> {
            &&& n.current_qi == playing_index(jn)
            &&& n.view_mode == o.view_mode
            &&& n.list_height == o.list_height
            &&& key == Key::Char('m') ==> exists|changed: bool|
                #[trigger] selection_moved_down(o.list, n.list, changed)
            &&& key == Key::Char('M') ==> exists|changed: bool|
                #[trigger] selection_moved_up(o.list, n.list, changed)
        }
        &&& !moved ==> n == o
    } else if key == Key::Char('r') && queue {
        let removed = a is Render;
        &&& wn == wo
        &&& a is Render || a is Nothing
        &&& if start == end {
            removed_one(jo, jn, start, removed)
        } else {
            removed_block(jo, jn, start, end, removed)
        }
        &&& removed ==> n == (PlayingPageView {
            current_qi: playing_index(jn),
            list: ListState { index: start, selector: None, len: o.list.len },
            ..o
        })
        &&& !removed ==> n == o
    } else if queue && !(key is Char && (key->Char_0 == 'c' || key->Char_0 == 's' || key->Char_0
        == 'm' || key->Char_0 == 'M' || key->Char_0 == 'r')) {
        &&& jn == jo
        &&& wn == wo
        &&& n == (PlayingPageView { list: n.list, ..o })
        &&& list_input_outcome(o.list, o.list_height, key, ctrl, shift, n.list, a is Render)
        &&& a is Render || a is Nothing
    } else {
        n == o && jn == jo && wn == wo && a is Nothing
    }
}

/// The rating a key sets: `0` for none, `1` to `5` for that many stars.
pub(crate) fn rating_for(c: char) -> (r: Option<Option<AudioRating>>)
    ensures
        r == rating_key(c),
{
    if c == '0' {
        Some(None)
    } else {
        match AudioRating::from_char(c) {
            Some(rating) => Some(Some(rating)),
            None => None,
        }
    }
}

/// The page of what plays.
pub struct PlayingPage {
    current_qi: Option<usize>,
    list: List,
    view_mode: ViewMode,
}

impl View for PlayingPage {
    type V = PlayingPageView;

    closed spec fn view(&self) -> PlayingPageView {
        PlayingPageView {
            current_qi: self.current_qi,
            list: self.list.state(),
            list_height: self.list.last_height_spec() as int,
            list_scroll: self.list.scroll_spec() as int,
            view_mode: self.view_mode,
        }
    }
}

impl PlayingPage {
    /// The list keeps the options it started with.
    pub closed spec fn wf(&self) -> bool {
        self.list.options_spec() == crate::list::default_list_options()
    }

    /// The page showing both queue and cover, nothing seen playing yet.
    pub fn new() -> (p: Self)
        ensures
            p.wf(),
            p@.list_scroll == 0,
            p@.current_qi is None,
            p@.list == (ListState { index: 0, selector: None, len: 0 }),
            p@.list_height == 0,
            p@.view_mode == ViewMode::Both,
    {
        PlayingPage { current_qi: None, list: List::new(), view_mode: ViewMode::Both }
    }

    /// What the page shows.
    pub fn view_mode(&self) -> (v: ViewMode)
        ensures
            v == self@.view_mode,
    {
        self.view_mode
    }

    /// The list of the queue, for drawing it.
    pub fn list(&self) -> (l: &List)
        ensures
            l.state() == self@.list,
    {
        &self.list
    }

    /// The layout step of drawing the queue of `len` tracks in `area`: returns the
    /// rectangle of the list and that of its scrollbar, if any.
    pub fn layout(&mut self, area: Rect, len: usize) -> (r: (Rect, Option<Rect>))
        requires
            old(self).wf(),
            area.x + area.width <= u16::MAX,
            old(self)@.list_scroll + area.height <= usize::MAX,
        ensures
            final(self).wf(),
            final(self)@.list_scroll <= old(self)@.list_scroll || final(self)@.list_scroll <= len,
            final(self)@.current_qi == old(self)@.current_qi,
            final(self)@.view_mode == old(self)@.view_mode,
            final(self)@.list.len == len,
            final(self)@.list_height == area.height,
            final(self)@.list.index <= crate::list::max_index(len as int),
    {
        self.list.layout(area, len)
    }

    /// Reacts to a key as `playing_key_outcome` tells. The ratings go to the library's queue
    /// of ratings to write; the library is otherwise unchanged.
    pub fn on_input(
        &mut self,
        key: Key,
        ctrl: bool,
        shift: bool,
        db: &mut Database,
        jb: &mut Jukebox,
        size: ScreenSize,
    ) -> (a: Action)
        requires
            old(self).wf(),
            old(db).wf(),
            old(jb).wf(),
            old(self)@.list.index + old(self)@.list_height < usize::MAX,
            old(self)@.list.selector matches Some(s) ==> s < usize::MAX,
            old(jb)@.queue.list.len() > 0 ==> old(self)@.list.index < old(jb)@.queue.list.len(),
            old(jb)@.queue.list.len() > 0 ==> (old(self)@.list.selector matches Some(s) ==> s
                < old(jb)@.queue.list.len()),
        ensures
            final(self).wf(),
            final(db).wf(),
            final(jb).wf(),
            final(self)@.list_scroll == old(self)@.list_scroll,
            final(db).ids() == old(db).ids(),
            final(db).entries() == old(db).entries(),
            final(db).sort_spec() == old(db).sort_spec(),
            final(db).reverse_spec() == old(db).reverse_spec(),
            playing_key_outcome(
                old(self)@,
                final(self)@,
                old(jb)@,
                final(jb)@,
                old(db).pending_writes(),
                final(db).pending_writes(),
                key,
                ctrl,
                shift,
                size,
                *old(db),
                a,
            ),
    {
        proof {
            jb.lemma_view_parts();
            self.list.lemma_state_bounds();
        }
        let shows_queue = match self.view_mode {
            ViewMode::Queue | ViewMode::Both => true,
            ViewMode::Cover => false,
        };
        let shows_cover = match self.view_mode {
            ViewMode::Cover | ViewMode::Both => true,
            ViewMode::Queue => false,
        };
        if key == Key::Char('v') {
            self.view_mode = self.view_mode.next(size);
            return Action::Render;
        }
        if jb.is_empty() {
            return Action::Nothing;
        }
        let (start, end) = self.list.selection_inclusive();
        match key {
            Key::Enter => {
                if shows_queue {
                    jb.play_index(self.list.index(), db);
                    proof {
                        jb.lemma_view_parts();
                    }
                }
                Action::Nothing
            },
            Key::Char(c) => {
                if let Some(rating) = rating_for(c) {
                    if shows_cover {
                        if let Some(id) = jb.current_track_id() {
                            db.write_rating(id, rating);
                    proof {
                        jb.lemma_view_parts();
                    }
                        }
                    }
                    Action::Nothing
                } else if c == 'c' && shows_queue {
                    let changed = jb.clear();
                    proof {
                        jb.lemma_view_parts();
                    }
                    if changed {
                        Action::Render
                    } else {
                        Action::Nothing
                    }
                } else if c == 's' && shows_queue {
                    let changed = jb.shuffle();
                    proof {
                        jb.lemma_view_parts();
                    }
                    if changed {
                        Action::Render
                    } else {
                        Action::Nothing
                    }
                } else if c == 'g' {
                    if shows_queue {
                        Action::Route(Route::Tracks(jb.get(QueueIndex(self.list.index()))))
                    } else {
                        match jb.current_track_id() {
                            Some(id) => Action::Route(Route::Tracks(Some(id))),
                            None => Action::Nothing,
                        }
                    }
                } else if c == 'm' && shows_queue {
                    let moved = if start == end {
                        jb.move_down(start)
                    } else {
                        jb.move_down_range(start, end)
                    };
                    proof {
                        jb.lemma_view_parts();
                    }
                    if moved {
                        self.current_qi = match jb.current_queue_index() {
                            Some(i) => Some(i.0),
                            None => None,
                        };
                        let ghost before = self.list.state();
                        let changed = self.list.move_selection_down();
                        proof {
                            assert(selection_moved_down(before, self.list.state(), changed));
                        }
                        Action::Render
                    } else {
                        Action::Nothing
                    }
                } else if c == 'M' && shows_queue {
                    let moved = if start == end {
                        jb.move_up(start)
                    } else {
                        jb.move_up_range(start, end)
                    };
                    proof {
                        jb.lemma_view_parts();
                    }
                    if moved {
                        self.current_qi = match jb.current_queue_index() {
                            Some(i) => Some(i.0),
                            None => None,
                        };
                        let ghost before = self.list.state();
                        let changed = self.list.move_selection_up();
                        proof {
                            assert(selection_moved_up(before, self.list.state(), changed));
                        }
                        Action::Render
                    } else {
                        Action::Nothing
                    }
                } else if c == 'r' && shows_queue {
                    let removed = if start == end {
                        jb.remove(start)
                    } else {
                        jb.remove_range(start, end)
                    };
                    proof {
                        jb.lemma_view_parts();
                    }
                    if removed {
                        self.current_qi = match jb.current_queue_index() {
                            Some(i) => Some(i.0),
                            None => None,
                        };
                        self.list.set_index(start);
                        self.list.set_selector(None);
                        Action::Render
                    } else {
                        Action::Nothing
                    }
                } else if shows_queue && c != 'c' && c != 's' && c != 'm' && c != 'M' && c != 'r' {
                    if self.list.input(key, ctrl, shift) {
                        Action::Render
                    } else {
                        Action::Nothing
                    }
                } else {
                    Action::Nothing
                }
            },
            _ => {
                if shows_queue {
                    if self.list.input(key, ctrl, shift) {
                        Action::Render
                    } else {
                        Action::Nothing
                    }
                } else {
                    Action::Nothing
                }
            },
        }
    }

    /// Follows a new track in the queue: when the queue position of the track that plays
    /// changed since last seen, the cursor goes there and the selection is dropped.
    pub fn update_scroll_on_new_track(&mut self, jb: &Jukebox)
        ensures
            old(self).wf() ==> final(self).wf(),
            final(self)@.list_scroll == old(self)@.list_scroll,
            playing_index(jb@) != old(self)@.current_qi ==> {
                &&& final(self)@.current_qi == playing_index(jb@)
                &&& final(self)@.view_mode == old(self)@.view_mode
                &&& final(self)@.list_height == old(self)@.list_height
                &&& final(self)@.list == match playing_index(jb@) {
                    Some(i) => ListState { index: i as int, selector: None, len: old(self)@.list.len },
                    None => old(self)@.list,
                }
            },
            playing_index(jb@) == old(self)@.current_qi ==> final(self)@ == old(self)@,
    {
        proof {
            jb.lemma_view_parts();
        }
        let qi = jb.current_queue_index();
        let now = match qi {
            Some(i) => Some(i.0),
            None => None,
        };
        let same = match (self.current_qi, now) {
            (Some(a), Some(b)) => a == b,
            (None, None) => true,
            _ => false,
        };
        if !same {
            self.current_qi = now;
            if let Some(idx) = now {
                self.list.set_index(idx);
                self.list.set_selector(None);
            }
        }
    }
}

} // verus!
