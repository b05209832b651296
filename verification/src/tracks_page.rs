//! The page of all tracks: the library as a table with a cursor and a selection, and the
//! keys that play, queue, rate and sort the tracks.
use vstd::prelude::*;

use crate::audio::AudioRating;
use crate::database::Database;
use crate::jukebox::{same_player_side, Jukebox, JukeboxView, PlayState};
use crate::layout::{Padding, Rect};
use crate::list::{list_input_outcome, moved_to, Key, List, ListMove, ListOptions, ListState};
use crate::scroll::ScrollMargins;
use crate::logs::Action;
use crate::playing::{rating_for, selected_range};
use crate::queue::QueueState;
use crate::settings_page::rating_key;
use crate::track::{sort_position, TrackId};

verus! {

/// The track at position `i` of the library's order, as a one-track sequence, or nothing
/// when there is no such position.
pub open spec fn track_piece(ids: Seq<u64>, i: int) -> Seq<TrackId> {
    if 0 <= i < ids.len() {
        seq![TrackId(ids[i])]
    } else {
        seq![]
    }
}

/// The tracks at positions `start` to `end` (both included) of the library's order, those
/// positions that exist, first to last.
pub open spec fn selected_ids(ids: Seq<u64>, start: int, end: int) -> Seq<TrackId>
    decreases end - start + 1,
{
    if end < start {
        seq![]
    } else {
        selected_ids(ids, start, end - 1) + track_piece(ids, end)
    }
}

/// The selected tracks can also be read from the first one on.
pub proof fn lemma_selected_front(ids: Seq<u64>, start: int, end: int)
    requires
        start <= end,
    ensures
        selected_ids(ids, start, end) == track_piece(ids, start) + selected_ids(ids, start + 1, end),
    decreases end - start,
{
    if start < end {
        lemma_selected_front(ids, start, end - 1);
        assert(track_piece(ids, start) + selected_ids(ids, start + 1, end - 1) + track_piece(
            ids,
            end,
        ) =~= track_piece(ids, start) + (selected_ids(ids, start + 1, end - 1) + track_piece(
            ids,
            end,
        )));
    } else {
        assert(selected_ids(ids, start, start - 1) =~= Seq::<TrackId>::empty());
        assert(selected_ids(ids, start + 1, end) =~= Seq::<TrackId>::empty());
        assert(seq![] + track_piece(ids, start) =~= track_piece(ids, start) + seq![]);
    }
}

/// The ratings to write for tracks, one for each.
pub open spec fn rated(ids: Seq<TrackId>, r: Option<AudioRating>) -> Seq<(TrackId, Option<AudioRating>)> {
    ids.map_values(|id: TrackId| (id, r))
}

/// The position right after the current one in the queue, where tracks played next go.
pub open spec fn next_slot(q: QueueState) -> int {
    match q.index {
        Some(i) => i + 1,
        None => 0,
    }
}

/// The state of the page as plain values: the table's cursor and selection, the height and
/// scroll it was last drawn with, and how sorting behaves.
pub struct TracksPageView {
    pub list: ListState,
    pub list_height: int,
    pub list_scroll: int,
    pub reverse_sort: bool,
    pub keep_on_sort: bool,
}

/// The library is the same before and after, but for the ratings waiting to be written.
pub open spec fn same_library(a: Database, b: Database) -> bool {
    &&& b.ids() == a.ids()
    &&& b.entries() == a.entries()
    &&& b.sort_spec() == a.sort_spec()
    &&& b.reverse_spec() == a.reverse_spec()
    &&& b.is_sorted() == a.is_sorted()
}

/// What a key does on the page, for the page (`o`, `n`), the jukebox (`jo`, `jn`) and the
/// library (`dbo`, `dbn`). Enter plays the track under the cursor. `0` to `5` rate the
/// selected tracks (`0` takes the rating away); `q` adds them to the end of the queue; `n`
/// queues them right after the current track, in the library's order. `s` sorts by the
/// next column and `S` turns the order around; either way the cursor follows the track it
/// was on when the page keeps it on sorting, and the page is drawn again. Other keys move
/// the table.
pub open spec fn tracks_key_outcome(
    o: TracksPageView,
    n: TracksPageView,
    jo: JukeboxView,
    jn: JukeboxView,
    dbo: Database,
    dbn: Database,
    key: Key,
    ctrl: bool,
    shift: bool,
    a: Action,
) -> bool {
    let ids = dbo.ids();
    let (start, end) = selected_range(o.list);
    let chosen = selected_ids(ids, start, end);
    if key == Key::Enter {
        &&& n == o
        &&& a is Nothing
        &&& same_library(dbo, dbn)
        &&& dbn.pending_writes() == dbo.pending_writes()
        &&& if 0 <= o.list.index < ids.len() {
            let id = TrackId(ids[o.list.index]);
            let at = next_slot(jo.queue);
            &&& jn.queue == (QueueState { list: jo.queue.list.insert(at, id), index: Some(at) })
            &&& jn.state == PlayState::Track
            &&& jn.decoding == Some((id, crate::queue::QueueIndex(at as usize)))
            &&& jn.current == jo.current
        } else {
            jn == jo
        }
    } else if key is Char && rating_key(key->Char_0) is Some {
        &&& n == o
        &&& jn == jo
        &&& a is Nothing
        &&& same_library(dbo, dbn)
        &&& dbn.pending_writes() == dbo.pending_writes() + rated(
            chosen,
            rating_key(key->Char_0).unwrap(),
        )
    } else if key == Key::Char('q') || key == Key::Char('n') {
        &&& n == o
        &&& a is Nothing
        &&& same_library(dbo, dbn)
        &&& dbn.pending_writes() == dbo.pending_writes()
        &&& jn.current == jo.current
        &&& same_player_side(jo, jn)
        &&& jn.queue.index == jo.queue.index
        &&& jn.queue.list == if key == Key::Char('q') {
            jo.queue.list + chosen
        } else {
            let at = next_slot(jo.queue);
            jo.queue.list.subrange(0, at) + chosen + jo.queue.list.subrange(
                at,
                jo.queue.list.len() as int,
            )
        }
    } else if key == Key::Char('s') || key == Key::Char('S') {
        let reverse = if key == Key::Char('s') {
            o.reverse_sort
        } else {
            !o.reverse_sort
        };
        &&& a is Render
        &&& jn == jo
        &&& (if key == Key::Char('s') {
            sort_position(dbn.sort_spec()) == (sort_position(dbo.sort_spec()) + 1) % 5
        } else {
            dbn.sort_spec() == dbo.sort_spec()
        })
        &&& dbn.reverse_spec() == reverse
        &&& dbn.is_sorted()
        &&& dbn.ids().to_multiset() == dbo.ids().to_multiset()
        &&& dbn.entries() == dbo.entries()
        &&& dbn.pending_writes() == dbo.pending_writes()
        &&& n == (TracksPageView { list: n.list, reverse_sort: reverse, ..o })
        &&& if o.keep_on_sort && 0 <= o.list.index < ids.len() {
            exists|k: int|
                0 <= k < dbn.ids().len() && dbn.ids()[k] == ids[o.list.index] && n.list == moved_to(
                    o.list,
                    k,
                    false,
                ).0
        } else {
            n.list == o.list
        }
    } else {
        &&& jn == jo
        &&& same_library(dbo, dbn)
        &&& dbn.pending_writes() == dbo.pending_writes()
        &&& n == (TracksPageView { list: n.list, ..o })
        &&& list_input_outcome(o.list, o.list_height, key, ctrl, shift, n.list, a is Render)
        &&& a is Render || a is Nothing
    }
}

/// The options of the table of tracks: a column of padding on each side and a scrollbar one
/// column away.
pub open spec fn tracks_list_options() -> ListOptions {
    ListOptions {
        scrolloff: ScrollMargins { margin_top: 0, margin_bottom: 0, padding_bottom: 0 },
        padding: Padding { left: 1, right: 1, top: 0, bottom: 0 },
        scrollbar: true,
        scrollbar_margin: 1,
    }
}

/// The page of all tracks.
pub struct TracksPage {
    table: List,
    reverse_sort: bool,
    keep_on_sort: bool,
}

impl View for TracksPage {
    type V = TracksPageView;

    closed spec fn view(&self) -> TracksPageView {
        TracksPageView {
            list: self.table.state(),
            list_height: self.table.last_height_spec() as int,
            list_scroll: self.table.scroll_spec() as int,
            reverse_sort: self.reverse_sort,
            keep_on_sort: self.keep_on_sort,
        }
    }
}

impl TracksPage {
    /// The table keeps the options it started with.
    pub closed spec fn wf(&self) -> bool {
        self.table.options_spec() == tracks_list_options()
    }

    /// A table with a column of padding on each side and a scrollbar, sorted forwards, with
    /// the cursor at the top.
    pub fn new() -> (p: Self)
        ensures
            p.wf(),
            p@.list == (ListState { index: 0, selector: None, len: 0 }),
            p@.list_height == 0,
            p@.list_scroll == 0,
            !p@.reverse_sort,
            !p@.keep_on_sort,
    {
        let table = List::new().with_padding(Padding { left: 1, right: 1, top: 0, bottom: 0 }).with_scrollbar();
        TracksPage { table, reverse_sort: false, keep_on_sort: false }
    }

    /// Sets whether the cursor stays on its track when the tracks are sorted.
    pub fn set_keep_on_sort(&mut self, value: bool)
        requires
            old(self).wf(),
        ensures
            final(self).wf(),
            final(self)@ == (TracksPageView { keep_on_sort: value, ..old(self)@ }),
    {
        self.keep_on_sort = value;
    }

    /// The table, for drawing it.
    pub fn table(&self) -> (t: &List)
        ensures
            t.state() == self@.list,
    {
        &self.table
    }

    /// The layout step of drawing `len` tracks in `area`: returns the rectangle of the
    /// table and that of its scrollbar, if any.
    pub fn layout(&mut self, area: Rect, len: usize) -> (r: (Rect, Option<Rect>))
        requires
            old(self).wf(),
            area.x < u16::MAX,
            area.x + area.width <= u16::MAX,
            old(self)@.list_scroll + area.height <= usize::MAX,
        ensures
            final(self).wf(),
            final(self)@.reverse_sort == old(self)@.reverse_sort,
            final(self)@.keep_on_sort == old(self)@.keep_on_sort,
            final(self)@.list.len == len,
            final(self)@.list_height == area.height,
            final(self)@.list.index <= crate::list::max_index(len as int),
    {
        self.table.layout(area, len)
    }

    /// Entering the page with a track puts the cursor on it, without a selection.
    pub fn on_enter(&mut self, id: Option<TrackId>, db: &Database)
        requires
            old(self).wf(),
            db.wf(),
        ensures
            final(self).wf(),
            id matches Some(t) && t.0 < db.ids().len() ==> exists|k: int|
                0 <= k < db.ids().len() && db.ids()[k] == id.unwrap().0 && final(self)@ == (
                TracksPageView {
                    list: ListState { index: k, selector: None, ..old(self)@.list },
                    ..old(self)@
                }),
            !(id matches Some(t) && t.0 < db.ids().len()) ==> final(self)@ == old(self)@,
    {
        proof {
            db.lemma_ids();
        }
        if let Some(id) = id {
            if let Some(index) = db.get_index_from_id(id) {
                self.table.set_index(index);
                self.table.set_selector(None);
                assert(db.ids()[index as int] == id.0);
            }
        }
    }

    /// Reacts to a key as `tracks_key_outcome` tells.
    pub fn on_input(
        &mut self,
        key: Key,
        ctrl: bool,
        shift: bool,
        db: &mut Database,
        jb: &mut Jukebox,
    ) -> (a: Action)
        requires
            old(self).wf(),
            old(db).wf(),
            old(jb).wf(),
            old(jb)@.queue.list.len() + old(db).ids().len() < usize::MAX,
            old(self)@.list.index < usize::MAX,
            old(self)@.list.selector matches Some(s) ==> s < usize::MAX,
            old(self)@.list.index + old(self)@.list_height <= usize::MAX,
        ensures
            final(self).wf(),
            final(db).wf(),
            final(jb).wf(),
            final(self)@.list_height == old(self)@.list_height,
            final(self)@.list_scroll == old(self)@.list_scroll,
            tracks_key_outcome(
                old(self)@,
                final(self)@,
                old(jb)@,
                final(jb)@,
                *old(db),
                *final(db),
                key,
                ctrl,
                shift,
                a,
            ),
    {
        let ghost db0 = *db;
        proof {
            jb.lemma_view_parts();
            self.table.lemma_state_bounds();
            db0.lemma_ids();
        }
        let (start, end) = self.table.selection_inclusive();
        match key {
            Key::Enter => {
                if let Some(id) = db.get_id_from_index(self.table.index()) {
                    jb.play_id(id, db);
                    proof {
                        jb.lemma_view_parts();
                    }
                }
                Action::Nothing
            },
            Key::Char(c) => {
                if let Some(rating) = rating_for(c) {
                    self.rate_selection(start, end, rating, db);
                    Action::Nothing
                } else if c == 'q' {
                    self.queue_selection(start, end, db, jb);
                    Action::Nothing
                } else if c == 'n' {
                    self.queue_selection_next(start, end, db, jb);
                    Action::Nothing
                } else if c == 's' || c == 'S' {
                    let id = db.get_id_from_index(self.table.index());
                    if c == 's' {
                        let next = db.get_sort().next();
                        db.sort_with(next, self.reverse_sort);
                    } else {
                        self.reverse_sort = !self.reverse_sort;
                        let sort = db.get_sort();
                        db.sort_with(sort, self.reverse_sort);
                    }
                    if self.keep_on_sort {
                        if let Some(id) = id {
                            if let Some(i) = db.get_index_from_id(id) {
                                self.table.move_index(ListMove::Custom(i), false);
                            } else {
                                proof {
                                    db.ids().to_multiset_ensures();
                                    db0.ids().to_multiset_ensures();
                                    assert(db.ids().len() == db0.ids().len());
                                }
                            }
                        }
                    }
                    Action::Render
                } else {
                    self.table_input(key, ctrl, shift)
                }
            },
            _ => self.table_input(key, ctrl, shift),
        }
    }

    /// Moves the table by a key that is not the page's own.
    fn table_input(&mut self, key: Key, ctrl: bool, shift: bool) -> (a: Action)
        requires
            old(self).wf(),
            old(self)@.list.index < usize::MAX,
            old(self)@.list.index + old(self)@.list_height <= usize::MAX,
        ensures
            final(self).wf(),
            final(self)@ == (TracksPageView { list: final(self)@.list, ..old(self)@ }),
            list_input_outcome(
                old(self)@.list,
                old(self)@.list_height,
                key,
                ctrl,
                shift,
                final(self)@.list,
                a is Render,
            ),
            a is Render || a is Nothing,
    {
        if self.table.input(key, ctrl, shift) {
            Action::Render
        } else {
            Action::Nothing
        }
    }

    /// Queues a rating for each selected track.
    fn rate_selection(&self, start: usize, end: usize, rating: Option<AudioRating>, db: &mut Database)
        requires
            start <= end < usize::MAX,
        ensures
            same_library(*old(db), *final(db)),
            final(db).wf() == old(db).wf(),
            final(db).pending_writes() == old(db).pending_writes() + rated(
                selected_ids(old(db).ids(), start as int, end as int),
                rating,
            ),
    {
        let ghost ids = db.ids();
        let ghost w0 = db.pending_writes();
        let mut i = start;
        proof {
            assert(w0 + rated(selected_ids(ids, start as int, start - 1), rating) =~= w0);
        }
        while i <= end
            invariant
                start <= i <= end + 1,
                end < usize::MAX,
                same_library(*old(db), *db),
                db.wf() == old(db).wf(),
                ids == db.ids(),
                db.pending_writes() == w0 + rated(selected_ids(ids, start as int, i - 1), rating),
            decreases end + 1 - i,
        {
            let ghost before = db.pending_writes();
            if let Some(id) = db.get_id_from_index(i) {
                db.write_rating(id, rating);
            }
            proof {
                let sel = selected_ids(ids, start as int, i as int);
                assert(sel == selected_ids(ids, start as int, i - 1) + track_piece(ids, i as int));
                assert(rated(sel, rating) =~= rated(selected_ids(ids, start as int, i - 1), rating)
                    + rated(track_piece(ids, i as int), rating));
                assert(db.pending_writes() =~= w0 + rated(sel, rating));
            }
            i = i + 1;
        }
    }

    /// Appends the selected tracks to the queue.
    fn queue_selection(&self, start: usize, end: usize, db: &Database, jb: &mut Jukebox)
        requires
            old(jb).wf(),
            start <= end < usize::MAX,
        ensures
            final(jb).wf(),
            final(jb)@.current == old(jb)@.current,
            same_player_side(old(jb)@, final(jb)@),
            final(jb)@.queue == (QueueState {
                list: old(jb)@.queue.list + selected_ids(db.ids(), start as int, end as int),
                index: old(jb)@.queue.index,
            }),
    {
        let ghost ids = db.ids();
        let ghost j0 = jb@;
        proof {
            jb.lemma_view_parts();
            assert(j0.queue.list + selected_ids(ids, start as int, start - 1) =~= j0.queue.list);
        }
        let mut i = start;
        while i <= end
            invariant
                start <= i <= end + 1,
                end < usize::MAX,
                ids == db.ids(),
                jb.wf(),
                jb@.current == j0.current,
                same_player_side(j0, jb@),
                jb@.queue == (QueueState {
                    list: j0.queue.list + selected_ids(ids, start as int, i - 1),
                    index: j0.queue.index,
                }),
            decreases end + 1 - i,
        {
            proof {
                jb.lemma_view_parts();
            }
            let ghost before = jb@.queue.list;
            if let Some(id) = db.get_id_from_index(i) {
                jb.enqueue(id);
                proof {
                    jb.lemma_view_parts();
                    assert(before.push(id) =~= before + track_piece(ids, i as int));
                }
            } else {
                proof {
                    assert(before + track_piece(ids, i as int) =~= before);
                }
            }
            proof {
                jb.lemma_view_parts();
                assert(j0.queue.list + selected_ids(ids, start as int, i as int) =~= j0.queue.list
                    + selected_ids(ids, start as int, i - 1) + track_piece(ids, i as int));
            }
            i = i + 1;
        }
    }

    /// Queues the selected tracks right after the current one, in the library's order.
    fn queue_selection_next(&self, start: usize, end: usize, db: &Database, jb: &mut Jukebox)
        requires
            old(jb).wf(),
            start <= end < usize::MAX,
        ensures
            final(jb).wf(),
            final(jb)@.current == old(jb)@.current,
            same_player_side(old(jb)@, final(jb)@),
            final(jb)@.queue == (QueueState {
                list: old(jb)@.queue.list.subrange(0, next_slot(old(jb)@.queue)) + selected_ids(
                    db.ids(),
                    start as int,
                    end as int,
                ) + old(jb)@.queue.list.subrange(
                    next_slot(old(jb)@.queue),
                    old(jb)@.queue.list.len() as int,
                ),
                index: old(jb)@.queue.index,
            }),
    {
        let ghost ids = db.ids();
        let ghost j0 = jb@;
        let ghost at = next_slot(j0.queue);
        proof {
            jb.lemma_view_parts();
            jb.lemma_queue_wf();
        }
        let ghost head = j0.queue.list.subrange(0, at);
        let ghost tail = j0.queue.list.subrange(at, j0.queue.list.len() as int);
        proof {
            assert(head + selected_ids(ids, end + 1, end as int) + tail =~= j0.queue.list);
        }
        let mut i = end + 1;
        while i > start
            invariant
                start <= i <= end + 1,
                end < usize::MAX,
                ids == db.ids(),
                jb.wf(),
                jb@.current == j0.current,
                same_player_side(j0, jb@),
                0 <= at <= j0.queue.list.len(),
                at == next_slot(j0.queue),
                head == j0.queue.list.subrange(0, at),
                tail == j0.queue.list.subrange(at, j0.queue.list.len() as int),
                jb@.queue == (QueueState {
                    list: head + selected_ids(ids, i as int, end as int) + tail,
                    index: j0.queue.index,
                }),
            decreases i,
        {
            i = i - 1;
            proof {
                lemma_selected_front(ids, i as int, end as int);
                jb.lemma_view_parts();
            }
            let ghost rest = selected_ids(ids, i + 1, end as int);
            if let Some(id) = db.get_id_from_index(i) {
                jb.enqueue_next(id);
                proof {
                    jb.lemma_view_parts();
                    assert(head.len() == at);
                    assert((head + rest + tail).insert(at, id) =~= head + (track_piece(
                        ids,
                        i as int,
                    ) + rest) + tail);
                }
            } else {
                proof {
                    assert(track_piece(ids, i as int) + rest =~= rest);
                }
            }
            proof {
                jb.lemma_view_parts();
            }
        }
    }
}

} // verus!
