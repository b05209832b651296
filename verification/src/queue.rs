use vstd::prelude::*;

use crate::track::TrackId;

verus! {

/// Position of a track in the play queue.
#[derive(Debug, Clone, Copy, PartialEq, Eq, Structural, PartialOrd, Ord, Hash)]
pub struct QueueIndex(pub usize);

impl QueueIndex {
    /// Wraps a raw position.
    pub fn from(i: usize) -> (q: Self)
        ensures
            q.0 == i,
    {
        QueueIndex(i)
    }

    /// The raw position.
    pub fn raw(self) -> (i: usize)
        ensures
            i == self.0,
    {
        self.0
    }
}

/// The abstract state of a play queue: the tracks in order, and the position of the
/// current track, if one is current.
pub struct QueueState {
    pub list: Seq<TrackId>,
    pub index: Option<int>,
}

impl QueueState {
    /// The current position, where there is one, lies inside the list.
    pub open spec fn wf(self) -> bool {
        self.index matches Some(i) ==> 0 <= i < self.list.len()
    }

    /// The current track and its position.
    pub open spec fn current(self) -> Option<(TrackId, QueueIndex)> {
        match self.index {
            Some(i) => Some((self.list[i], QueueIndex(i as usize))),
            None => None,
        }
    }

    /// The current track, without its position.
    pub open spec fn current_track(self) -> Option<TrackId> {
        match self.index {
            Some(i) => Some(self.list[i]),
            None => None,
        }
    }

    /// Number of tracks after the current one (all of them where none is current).
    pub open spec fn queue_len(self) -> int {
        match self.index {
            Some(i) => self.list.len() - i - 1,
            None => self.list.len() as int,
        }
    }

    /// Number of tracks before the current one.
    pub open spec fn history_len(self) -> int {
        match self.index {
            Some(i) => i,
            None => 0,
        }
    }
}

/// The queue after stepping to the next track, and the track stepped to.
pub open spec fn spec_next(q: QueueState) -> (QueueState, Option<(TrackId, QueueIndex)>) {
    match q.index {
        Some(i) => if i + 1 < q.list.len() {
            (
                QueueState { list: q.list, index: Some(i + 1) },
                Some((q.list[i + 1], QueueIndex((i + 1) as usize))),
            )
        } else {
            (q, None)
        },
        None => if q.list.len() == 0 {
            (q, None)
        } else {
            (QueueState { list: q.list, index: Some(0) }, Some((q.list[0], QueueIndex(0))))
        },
    }
}

/// The queue after stepping to the previous track, and the track stepped to.
pub open spec fn spec_previous(q: QueueState) -> (QueueState, Option<(TrackId, QueueIndex)>) {
    match q.index {
        Some(i) => if i > 0 {
            (
                QueueState { list: q.list, index: Some(i - 1) },
                Some((q.list[i - 1], QueueIndex((i - 1) as usize))),
            )
        } else {
            (q, None)
        },
        None => (q, None),
    }
}

/// The list with the elements at `i` and `j` exchanged.
pub open spec fn swapped(s: Seq<TrackId>, i: int, j: int) -> Seq<TrackId> {
    s.update(i, s[j]).update(j, s[i])
}

/// The list after swapping, for each `k` below `n` in turn, position `start + k` with
/// position `picks[k]`.
pub open spec fn swaps_from(s: Seq<TrackId>, start: int, picks: Seq<usize>, n: int) -> Seq<TrackId>
    decreases n,
{
    if n <= 0 {
        s
    } else {
        swapped(swaps_from(s, start, picks, n - 1), start + n - 1, picks[n - 1] as int)
    }
}

/// The list with the block `start..=end` moved one place towards the front, and the
/// element in front of it moved behind it.
pub open spec fn block_moved_up(s: Seq<TrackId>, start: int, end: int) -> Seq<TrackId> {
    s.subrange(0, start - 1) + s.subrange(start, end + 1) + seq![s[start - 1]] + s.subrange(
        end + 1,
        s.len() as int,
    )
}

/// The list with the block `start..=end` moved one place towards the back, and the
/// element behind it moved in front of it.
pub open spec fn block_moved_down(s: Seq<TrackId>, start: int, end: int) -> Seq<TrackId> {
    s.subrange(0, start) + seq![s[end + 1]] + s.subrange(start, end + 1) + s.subrange(
        end + 2,
        s.len() as int,
    )
}

/// The current position after the block `start..=end` moved up by one.
pub open spec fn index_after_move_up(index: Option<int>, start: int, end: int) -> Option<int> {
    match index {
        Some(c) => if start <= c <= end {
            Some(c - 1)
        } else if c == start - 1 {
            Some(start)
        } else {
            Some(c)
        },
        None => None,
    }
}

/// The current position after the block `start..=end` moved down by one.
pub open spec fn index_after_move_down(index: Option<int>, start: int, end: int) -> Option<int> {
    match index {
        Some(c) => if start <= c <= end {
            Some(c + 1)
        } else if c == end + 1 {
            Some(start)
        } else {
            Some(c)
        },
        None => None,
    }
}

/// The current position after the entry at `i` is removed while the current one stays.
pub open spec fn index_after_remove(current: int, i: int, new_len: int) -> Option<int> {
    if new_len == 0 {
        None
    } else if i < current {
        Some(current - 1)
    } else if current <= new_len - 1 {
        Some(current)
    } else {
        Some(new_len - 1)
    }
}

/// The queue after `remove(i, keep_current)`, and the removed track.
pub open spec fn spec_remove(q: QueueState, i: int, keep_current: bool) -> (
    QueueState,
    Option<TrackId>,
) {
    if i >= q.list.len() {
        (q, None)
    } else {
        match q.index {
            None => (QueueState { list: q.list.remove(i), index: None }, Some(q.list[i])),
            Some(c) => if i == c && keep_current {
                (q, None)
            } else {
                (
                    QueueState {
                        list: q.list.remove(i),
                        index: index_after_remove(c, i, q.list.len() - 1),
                    },
                    Some(q.list[i]),
                )
            },
        }
    }
}

/// The queue after `remove_range(start, end, keep_current)` removed the entries
/// `start..=last` (where `last` is `end` clamped into the list), and whether it did.
pub open spec fn spec_remove_range(q: QueueState, start: int, end: int, keep_current: bool) -> (
    QueueState,
    bool,
) {
    let last = if end < q.list.len() - 1 {
        end
    } else if q.list.len() == 0 {
        0
    } else {
        q.list.len() - 1
    };
    if start > last {
        (q, false)
    } else {
        let rest = q.list.subrange(0, start) + q.list.subrange(last + 1, q.list.len() as int);
        match q.index {
            None => (QueueState { list: rest, index: None }, true),
            Some(c) => {
                let id = q.list[c];
                let kept = start <= c <= last && keep_current;
                // position of the current track once the removed entries are gone
                let shifted = if c < start {
                    c
                } else if c <= last {
                    start
                } else {
                    c - (last - start + 1)
                };
                if rest.len() == 0 {
                    if kept {
                        (QueueState { list: seq![id], index: Some(0) }, true)
                    } else {
                        (QueueState { list: rest, index: None }, true)
                    }
                } else if kept {
                    let p = if shifted < rest.len() {
                        shifted
                    } else {
                        rest.len() as int
                    };
                    (QueueState { list: rest.insert(p, id), index: Some(p) }, true)
                } else {
                    let p = if shifted < rest.len() - 1 {
                        shifted
                    } else {
                        rest.len() - 1
                    };
                    (QueueState { list: rest, index: Some(p) }, true)
                }
            },
        }
    }
}

/// The list of tracks to play: the history before the current track, the current track,
/// and the tracks queued after it.
pub struct PlayQueue {
    list: Vec<TrackId>,
    index: Option<usize>,
}

impl PlayQueue {
    /// The current position, where there is one, lies inside the list.
    pub closed spec fn wf(self) -> bool {
        self.index matches Some(i) ==> i < self.list.len()
    }

    /// The abstract state of the queue.
    pub closed spec fn state(self) -> QueueState {
        QueueState {
            list: self.list@,
            index: match self.index {
                Some(i) => Some(i as int),
                None => None,
            },
        }
    }

    /// A queue holds at most `usize::MAX` tracks.
    pub proof fn lemma_len_bound(&self)
        ensures
            self.state().list.len() <= usize::MAX,
    {
        assert(self.list.len() == self.list@.len());
    }

    /// The current position of a consistent queue lies inside the list.
    pub proof fn lemma_state_wf(&self)
        requires
            self.wf(),
        ensures
            self.state().wf(),
            self.state().list.len() <= usize::MAX,
    {
        assert(self.list.len() == self.list@.len());
    }

    /// An empty queue with no current track.
    pub fn new() -> (q: Self)
        ensures
            q.wf(),
            q.state().list == Seq::<TrackId>::empty(),
            q.state().index == None::<int>,
    {
        PlayQueue { list: Vec::new(), index: None }
    }

    /// Number of tracks in the queue.
    pub fn len(&self) -> (n: usize)
        requires
            self.wf(),
        ensures
            n == self.state().list.len(),
    {
        self.list.len()
    }

    /// Number of tracks after the current one, or all of them when none is current.
    pub fn queue_len(&self) -> (n: usize)
        requires
            self.wf(),
        ensures
            n == self.state().queue_len(),
    {
        match self.index {
            Some(index) => self.list.len() - index - 1,
            None => self.list.len(),
        }
    }

    /// Number of tracks before the current one.
    pub fn history_len(&self) -> (n: usize)
        requires
            self.wf(),
        ensures
            n == self.state().history_len(),
    {
        match self.index {
            Some(index) => index,
            None => 0,
        }
    }

    /// True when the queue holds no track.
    pub fn is_empty(&self) -> (b: bool)
        requires
            self.wf(),
        ensures
            b <==> self.state().list.len() == 0,
    {
        self.list.len() == 0
    }

    /// The track at position `index`.
    pub fn get(&self, index: usize) -> (r: Option<TrackId>)
        requires
            self.wf(),
        ensures
            r == (if index < self.state().list.len() {
                Some(self.state().list[index as int])
            } else {
                None
            }),
    {
        if index < self.list.len() {
            Some(self.list[index])
        } else {
            None
        }
    }

    /// Makes the track at `index` current and returns it; does nothing outside the queue.
    pub fn set_index(&mut self, index: usize) -> (r: Option<TrackId>)
        requires
            old(self).wf(),
        ensures
            final(self).wf(),
            index < old(self).state().list.len() ==> {
                &&& r == Some(old(self).state().list[index as int])
                &&& final(self).state() == (QueueState {
                    list: old(self).state().list,
                    index: Some(index as int),
                })
            },
            index >= old(self).state().list.len() ==> r is None && final(self).state() == old(self).state(),
    {
        if index < self.list.len() {
            let id = self.list[index];
            self.index = Some(index);
            Some(id)
        } else {
            None
        }
    }

    /// The current track and its position.
    pub fn current(&self) -> (r: Option<(TrackId, QueueIndex)>)
        requires
            self.wf(),
        ensures
            r == self.state().current(),
    {
        match self.index {
            Some(i) => Some((self.list[i], QueueIndex(i))),
            None => None,
        }
    }

    /// Every track with its position, in queue order.
    pub fn iter(&self) -> (r: Vec<(TrackId, QueueIndex)>)
        requires
            self.wf(),
        ensures
            r@.len() == self.state().list.len(),
            forall|i: int|
                0 <= i < r@.len() ==> #[trigger] r@[i] == (self.state().list[i], QueueIndex(
                    i as usize,
                )),
    {
        let mut r: Vec<(TrackId, QueueIndex)> = Vec::new();
        let n = self.list.len();
        for i in 0..n
            invariant
                n == self.list@.len(),
                r@.len() == i,
                forall|j: int|
                    0 <= j < i ==> #[trigger] r@[j] == (self.list@[j], QueueIndex(j as usize)),
        {
            r.push((self.list[i], QueueIndex(i)));
        }
        r
    }

    /// Appends a track at the end of the queue.
    pub fn enqueue(&mut self, id: TrackId)
        requires
            old(self).wf(),
        ensures
            final(self).wf(),
            final(self).state() == (QueueState {
                list: old(self).state().list.push(id),
                index: old(self).state().index,
            }),
    {
        self.list.push(id);
    }

    /// Inserts a track right after the current one, or at the front when none is current.
    pub fn enqueue_next(&mut self, id: TrackId)
        requires
            old(self).wf(),
        ensures
            final(self).wf(),
            final(self).state() == (QueueState {
                list: old(self).state().list.insert(
                    match old(self).state().index {
                        Some(i) => i + 1,
                        None => 0,
                    },
                    id,
                ),
                index: old(self).state().index,
            }),
    {
        let insert_index = match self.index {
            Some(i) => i + 1,
            None => 0,
        };
        self.list.insert(insert_index, id);
    }

    /// The current track, or else the next one, which then becomes current.
    pub fn current_or_next(&mut self) -> (r: Option<(TrackId, QueueIndex)>)
        requires
            old(self).wf(),
        ensures
            final(self).wf(),
            old(self).state().index is Some ==> r == old(self).state().current()
                && final(self).state() == old(self).state(),
            old(self).state().index is None ==> (final(self).state(), r) == spec_next(
                old(self).state(),
            ),
    {
        match self.current() {
            Some(c) => Some(c),
            None => self.next(),
        }
    }

    /// Steps to the next track and returns it; at the end of the queue nothing changes.
    pub fn next(&mut self) -> (r: Option<(TrackId, QueueIndex)>)
        requires
            old(self).wf(),
        ensures
            final(self).wf(),
            (final(self).state(), r) == spec_next(old(self).state()),
    {
        match self.index {
            Some(index) => {
                let max_index = self.list.len() - 1;
                let next = if index + 1 < max_index {
                    index + 1
                } else {
                    max_index
                };
                if next != index {
                    self.index = Some(next);
                    Some((self.list[next], QueueIndex(next)))
                } else {
                    None
                }
            },
            None => {
                if self.list.len() == 0 {
                    None
                } else {
                    self.index = Some(0);
                    Some((self.list[0], QueueIndex(0)))
                }
            },
        }
    }

    /// Steps to the previous track and returns it; at the start nothing changes.
    pub fn previous(&mut self) -> (r: Option<(TrackId, QueueIndex)>)
        requires
            old(self).wf(),
        ensures
            final(self).wf(),
            (final(self).state(), r) == spec_previous(old(self).state()),
    {
        match self.index {
            Some(index) => {
                if index > 0 {
                    self.index = Some(index - 1);
                    Some((self.list[index - 1], QueueIndex(index - 1)))
                } else {
                    None
                }
            },
            None => None,
        }
    }

    /// Exchanges two entries of the list, leaving the current position alone.
    fn swap_entries(&mut self, i: usize, j: usize)
        requires
            old(self).wf(),
            i < old(self).list@.len(),
            j < old(self).list@.len(),
        ensures
            final(self).wf(),
            final(self).list@ == swapped(old(self).list@, i as int, j as int),
            final(self).index == old(self).index,
    {
        let a = self.list[i];
        let b = self.list[j];
        self.list.set(i, b);
        self.list.set(j, a);
    }

    /// Shuffles the tracks from position `start` on; the tracks before it and the
    /// current position stay where they are. Each position from `start` on is swapped with
    /// a position drawn at random from `start` on, as `shuffle_with` does with the draws.
    pub fn shuffle(&mut self, start: usize)
        requires
            old(self).wf(),
        ensures
            final(self).wf(),
            final(self).state().index == old(self).state().index,
            final(self).state().list.len() == old(self).state().list.len(),
            final(self).state().list.to_multiset() == old(self).state().list.to_multiset(),
            forall|k: int|
                0 <= k < start && k < old(self).state().list.len() ==> #[trigger] final(self).state().list[k] == old(self).state().list[k],
    {
        let end = self.list.len();
        if start >= end {
            return;
        }
        let mut picks: Vec<usize> = Vec::new();
        let mut i = start;
        while i < end
            invariant
                start <= i <= end,
                picks@.len() == i - start,
                forall|k: int| 0 <= k < picks@.len() ==> start <= #[trigger] picks@[k] < end,
            decreases end - i,
        {
            let random = random_index(start, end);
            picks.push(random);
            i = i + 1;
        }
        self.shuffle_with(start, &picks);
    }

    /// Swaps each position `start + k` in turn with position `picks[k]`, as
    /// `swaps_from` says; the current position stays.
    pub fn shuffle_with(&mut self, start: usize, picks: &Vec<usize>)
        requires
            old(self).wf(),
            start + picks@.len() <= old(self).state().list.len(),
            forall|k: int| 0 <= k < picks@.len() ==> start <= #[trigger] picks@[k] < old(self).state().list.len(),
        ensures
            final(self).wf(),
            final(self).state().index == old(self).state().index,
            final(self).state().list == swaps_from(old(self).state().list, start as int, picks@, picks@.len() as int),
            final(self).state().list.len() == old(self).state().list.len(),
            final(self).state().list.to_multiset() == old(self).state().list.to_multiset(),
            forall|k: int|
                0 <= k < start && k < old(self).state().list.len() ==> #[trigger] final(self).state().list[k] == old(self).state().list[k],
    {
        let ghost orig = self.list@;
        let end = self.list.len();
        let mut k: usize = 0;
        while k < picks.len()
            invariant
                end == self.list@.len(),
                end == orig.len(),
                orig == old(self).list@,
                k <= picks@.len(),
                start + picks@.len() <= end,
                forall|m: int| 0 <= m < picks@.len() ==> start <= #[trigger] picks@[m] < end,
                self.wf(),
                self.index == old(self).index,
                self.list@ == swaps_from(orig, start as int, picks@, k as int),
                self.list@.to_multiset() == orig.to_multiset(),
                forall|m: int| 0 <= m < start ==> #[trigger] self.list@[m] == orig[m],
            decreases picks@.len() - k,
        {
            let ghost before = self.list@;
            let j = picks[k];
            self.swap_entries(start + k, j);
            proof {
                lemma_swap_multiset(before, start + k, j as int);
            }
            k = k + 1;
        }
    }

    /// Moves the track at `i` one place towards the front.
    pub fn move_up(&mut self, i: usize) -> (moved: bool)
        requires
            old(self).wf(),
            i == 0 || old(self).state().list.len() <= 1 || i < old(self).state().list.len(),
        ensures
            final(self).wf(),
            moved <==> (i != 0 && old(self).state().list.len() > 1),
            moved ==> final(self).state() == (QueueState {
                list: swapped(old(self).state().list, i as int, i - 1),
                index: index_after_move_up(old(self).state().index, i as int, i as int),
            }),
            !moved ==> final(self).state() == old(self).state(),
    {
        if i == 0 || self.list.len() <= 1 {
            return false;
        }
        self.swap_entries(i, i - 1);
        if let Some(current) = self.index {
            if current == i {
                self.index = Some(i - 1);
            } else if current == i - 1 {
                self.index = Some(i);
            }
        }
        true
    }

    /// Moves the tracks `start..=end` one place towards the front; the track in front
    /// of them goes behind them.
    pub fn move_up_range(&mut self, start: usize, end: usize) -> (moved: bool)
        requires
            old(self).wf(),
            start == 0 || old(self).state().list.len() <= 1 || (start <= end && end < old(self).state().list.len()),
        ensures
            final(self).wf(),
            moved <==> (start != 0 && old(self).state().list.len() > 1),
            moved ==> final(self).state() == (QueueState {
                list: block_moved_up(old(self).state().list, start as int, end as int),
                index: index_after_move_up(old(self).state().index, start as int, end as int),
            }),
            !moved ==> final(self).state() == old(self).state(),
    {
        if start == 0 || self.list.len() <= 1 {
            return false;
        }
        let ghost orig = self.list@;
        let len = self.list.len();
        let mut i = start;
        while i <= end
            invariant
                1 <= start <= i <= end + 1,
                end < len,
                len == orig.len(),
                self.wf(),
                self.list@.len() == orig.len(),
                self.index == old(self).index,
                self.list@ == orig.subrange(0, start - 1) + orig.subrange(start as int, i as int)
                    + seq![orig[start - 1]] + orig.subrange(i as int, orig.len() as int),
            decreases end + 1 - i,
        {
            let ghost before = self.list@;
            self.swap_entries(i, i - 1);
            proof {
                assert(self.list@ =~= orig.subrange(0, start - 1) + orig.subrange(
                    start as int,
                    i + 1,
                ) + seq![orig[start - 1]] + orig.subrange(i + 1, orig.len() as int));
            }
            i = i + 1;
        }
        if let Some(current) = self.index {
            if current >= start && current <= end {
                self.index = Some(current - 1);
            } else if current == start - 1 {
                self.index = Some(start);
            }
        }
        true
    }

    /// Moves the track at `i` one place towards the back.
    pub fn move_down(&mut self, i: usize) -> (moved: bool)
        requires
            old(self).wf(),
            old(self).state().list.len() <= 1 || i < usize::MAX,
        ensures
            final(self).wf(),
            moved <==> (old(self).state().list.len() > 1 && i + 1 < old(self).state().list.len()),
            moved ==> final(self).state() == (QueueState {
                list: swapped(old(self).state().list, i as int, i + 1),
                index: index_after_move_down(old(self).state().index, i as int, i as int),
            }),
            !moved ==> final(self).state() == old(self).state(),
    {
        let len = self.list.len();
        if len <= 1 || i + 1 >= len {
            return false;
        }
        self.swap_entries(i, i + 1);
        if let Some(current) = self.index {
            if current == i {
                self.index = Some(i + 1);
            } else if current == i + 1 {
                self.index = Some(i);
            }
        }
        true
    }

    /// Moves the tracks `start..=end` one place towards the back; the track behind them
    /// comes in front of them.
    pub fn move_down_range(&mut self, start: usize, end: usize) -> (moved: bool)
        requires
            old(self).wf(),
            old(self).state().list.len() <= 1 || end < usize::MAX,
            old(self).state().list.len() <= 1 || end + 1 >= old(self).state().list.len()
                || start <= end,
        ensures
            final(self).wf(),
            moved <==> (old(self).state().list.len() > 1 && end + 1 < old(self).state().list.len()),
            moved ==> final(self).state() == (QueueState {
                list: block_moved_down(old(self).state().list, start as int, end as int),
                index: index_after_move_down(old(self).state().index, start as int, end as int),
            }),
            !moved ==> final(self).state() == old(self).state(),
    {
        let len = self.list.len();
        if len <= 1 || end + 1 >= len {
            return false;
        }
        let ghost orig = self.list@;
        let mut i = end + 1;
        while i > start
            invariant
                start <= i <= end + 1,
                end + 1 < orig.len(),
                self.wf(),
                self.list@.len() == orig.len(),
                self.index == old(self).index,
                self.list@ == orig.subrange(0, i as int) + seq![orig[end + 1]] + orig.subrange(
                    i as int,
                    end + 1,
                ) + orig.subrange(end + 2, orig.len() as int),
            decreases i,
        {
            self.swap_entries(i - 1, i);
            proof {
                assert(self.list@ =~= orig.subrange(0, i - 1) + seq![orig[end + 1]]
                    + orig.subrange(i - 1, end + 1) + orig.subrange(end + 2, orig.len() as int));
            }
            i = i - 1;
        }
        if let Some(current) = self.index {
            if current >= start && current <= end {
                self.index = Some(current + 1);
            } else if current == end + 1 {
                self.index = Some(start);
            }
        }
        true
    }

    /// Removes the track at `index`. With `keep_current`, the current track is not
    /// removed; otherwise the current position is kept inside the shortened queue.
    pub fn remove(&mut self, index: usize, keep_current: bool) -> (r: Option<TrackId>)
        requires
            old(self).wf(),
        ensures
            final(self).wf(),
            (final(self).state(), r) == spec_remove(old(self).state(), index as int, keep_current),
    {
        if index >= self.list.len() {
            return None;
        }
        match self.index {
            None => {
                let id = self.list.remove(index);
                Some(id)
            },
            Some(current) => {
                if index == current && keep_current {
                    return None;
                }
                self.index = None;
                let id = self.list.remove(index);
                let new_len = self.list.len();
                self.index = if new_len == 0 {
                    None
                } else if index < current {
                    Some(current - 1)
                } else if current <= new_len - 1 {
                    Some(current)
                } else {
                    Some(new_len - 1)
                };
                Some(id)
            },
        }
    }

    /// Removes the tracks `start..=end` (the end clamped into the queue). With
    /// `keep_current`, a current track inside the range stays in the queue and current.
    pub fn remove_range(&mut self, start: usize, end: usize, keep_current: bool) -> (removed:
        bool)
        requires
            old(self).wf(),
            old(self).state().list.len() > 0 || start > 0,
        ensures
            final(self).wf(),
            (final(self).state(), removed) == spec_remove_range(
                old(self).state(),
                start as int,
                end as int,
                keep_current,
            ),
    {
        let len = self.list.len();
        let last_index = if len == 0 {
            0
        } else {
            len - 1
        };
        let last = if end < last_index {
            end
        } else {
            last_index
        };
        if start > last {
            return false;
        }
        let ghost orig = self.list@;
        let mut rest: Vec<TrackId> = Vec::new();
        let mut k: usize = 0;
        while k < start
            invariant
                k <= start <= last < len,
                len == orig.len(),
                self.list@ == orig,
                rest@ == orig.subrange(0, k as int),
            decreases start - k,
        {
            rest.push(self.list[k]);
            k = k + 1;
        }
        let mut k: usize = last + 1;
        while k < len
            invariant
                last + 1 <= k <= len,
                start <= last < len,
                len == orig.len(),
                self.list@ == orig,
                rest@ == orig.subrange(0, start as int) + orig.subrange(last + 1, k as int),
            decreases len - k,
        {
            rest.push(self.list[k]);
            k = k + 1;
        }
        let current = match self.index {
            None => {
                self.list = rest;
                proof {
                    assert(self.list@ =~= spec_remove_range(old(self).state(), start as int, end as int, keep_current).0.list);
                }
                return true;
            },
            Some(c) => c,
        };
        let id = self.list[current];
        self.index = None;
        let shifted = if current < start {
            current
        } else if current <= last {
            start
        } else {
            current - (last - start + 1)
        };
        let kept = current >= start && current <= last && keep_current;
        let rest_len = rest.len();
        if rest_len == 0 {
            if kept {
                rest.push(id);
                self.list = rest;
                self.index = Some(0);
            } else {
                self.list = rest;
                self.index = None;
            }
        } else if kept {
            let p = if shifted < rest_len {
                shifted
            } else {
                rest_len
            };
            rest.insert(p, id);
            self.list = rest;
            self.index = Some(p);
        } else {
            let p = if shifted < rest_len - 1 {
                shifted
            } else {
                rest_len - 1
            };
            self.list = rest;
            self.index = Some(p);
        }
        proof {
            let expected = spec_remove_range(old(self).state(), start as int, end as int, keep_current);
            assert(self.list@ =~= expected.0.list);
        }
        true
    }

    /// Forgets the current track; the tracks stay.
    pub fn reset(&mut self)
        requires
            old(self).wf(),
        ensures
            final(self).wf(),
            final(self).state() == (QueueState {
                list: old(self).state().list,
                index: None,
            }),
    {
        self.index = None;
    }

    /// Removes every track.
    pub fn clear(&mut self)
        requires
            old(self).wf(),
        ensures
            final(self).wf(),
            final(self).state() == (QueueState { list: Seq::<TrackId>::empty(), index: None }),
    {
        self.list.clear();
        self.index = None;
    }
}

/// Exchanging two entries keeps the multiset of tracks.
pub proof fn lemma_swap_multiset(s: Seq<TrackId>, i: int, j: int)
    requires
        0 <= i < s.len(),
        0 <= j < s.len(),
    ensures
        swapped(s, i, j).to_multiset() == s.to_multiset(),
{
    broadcast use vstd::seq_lib::group_to_multiset_ensures;

    let t = s.update(i, s[j]);
    assert(t.to_multiset() == s.to_multiset().remove(s[i]).insert(s[j]));
    assert(t.update(j, s[i]).to_multiset() == t.to_multiset().remove(t[j]).insert(s[i]));
    if i == j {
        assert(swapped(s, i, j) =~= s);
    } else {
        assert(t[j] == s[j]);
    }
}

/// A random position in `start..end`.
///
/// Calls `fastrand::usize` with the range `start..end`; its documentation and source give a
/// value inside the range, and it panics on an empty range, which `requires` rules out.
/// Which value comes back depends on the generator's state and is not stated.
#[verifier::external_body]
fn random_index(start: usize, end: usize) -> (r: usize)
    requires
        start < end,
    ensures
        start <= r < end,
{
    fastrand::usize(start..end)
}

/// In a well-formed queue, the tracks before the current one, the current one and the
/// tracks after it together make up the whole queue.
pub proof fn law_queue_counts(q: QueueState)
    requires
        q.wf(),
    ensures
        q.history_len() + q.queue_len() + (if q.index is Some { 1int } else { 0int })
            == q.list.len(),
        q.history_len() >= 0,
        q.queue_len() >= 0,
{
}

/// Stepping back and then forward returns to the same queue and the same current track;
/// stepping forward from a current track and then back does too.
pub proof fn law_previous_next_roundtrip(q: QueueState)
    requires
        q.wf(),
    ensures
        spec_previous(q).1 is Some ==> spec_next(spec_previous(q).0) == (q, q.current()),
        q.index is Some && spec_next(q).1 is Some ==> spec_previous(spec_next(q).0) == (
            q,
            q.current(),
        ),
{
}

/// Stepping never changes the tracks in the queue, and keeps it well formed.
pub proof fn law_steps_keep_list(q: QueueState)
    requires
        q.wf(),
    ensures
        spec_next(q).0.list == q.list,
        spec_previous(q).0.list == q.list,
        spec_next(q).0.wf(),
        spec_previous(q).0.wf(),
        spec_next(q).1 is Some ==> spec_next(q).1 == spec_next(q).0.current(),
        spec_previous(q).1 is Some ==> spec_previous(q).1 == spec_previous(q).0.current(),
{
}

/// Moving a track up and then moving it back down restores the queue.
pub proof fn law_move_up_then_down(q: QueueState, i: int)
    requires
        q.wf(),
        0 < i < q.list.len(),
    ensures
        ({
            let up = QueueState {
                list: swapped(q.list, i, i - 1),
                index: index_after_move_up(q.index, i, i),
            };
            QueueState {
                list: swapped(up.list, i - 1, i),
                index: index_after_move_down(up.index, i - 1, i - 1),
            }
        }) == q,
{
    assert(swapped(swapped(q.list, i, i - 1), i - 1, i) =~= q.list);
}

/// Moving a block down and then moving it back up restores the tracks; the current
/// position is restored too unless it was on the track just behind a block of more than
/// one track.
pub proof fn law_move_block_down_then_up(q: QueueState, start: int, end: int)
    requires
        q.wf(),
        0 <= start <= end,
        end + 1 < q.list.len(),
        start == end || q.index != Some(end + 1),
    ensures
        ({
            let down = QueueState {
                list: block_moved_down(q.list, start, end),
                index: index_after_move_down(q.index, start, end),
            };
            QueueState {
                list: block_moved_up(down.list, start + 1, end + 1),
                index: index_after_move_up(down.index, start + 1, end + 1),
            }
        }) == q,
{
    let d = block_moved_down(q.list, start, end);
    assert(d[start] == q.list[end + 1]);
    assert(d.subrange(0, start) =~= q.list.subrange(0, start));
    assert(d.subrange(start + 1, end + 2) =~= q.list.subrange(start, end + 1));
    assert(d.subrange(end + 2, d.len() as int) =~= q.list.subrange(end + 2, q.list.len() as int));
    assert(block_moved_up(d, start + 1, end + 1) =~= q.list);
}

/// Moving single tracks, and moving blocks down, keeps the same track current.
pub proof fn law_moves_keep_current_track(q: QueueState, start: int, end: int)
    requires
        q.wf(),
        0 <= start <= end,
        end + 1 < q.list.len(),
    ensures
        (QueueState {
            list: block_moved_down(q.list, start, end),
            index: index_after_move_down(q.index, start, end),
        }).current_track() == q.current_track(),
        (QueueState {
            list: swapped(q.list, start, start + 1),
            index: index_after_move_down(q.index, start, start),
        }).current_track() == q.current_track(),
        (QueueState {
            list: swapped(q.list, start + 1, start),
            index: index_after_move_up(q.index, start + 1, start + 1),
        }).current_track() == q.current_track(),
{
    let d = block_moved_down(q.list, start, end);
    assert forall|k: int| 0 <= k < start implies d[k] == q.list[k] by {}
    assert forall|k: int| start <= k <= end implies d[k + 1] == q.list[k] by {}
    assert(d[start] == q.list[end + 1]);
    assert forall|k: int| end + 1 < k < q.list.len() implies d[k] == q.list[k] by {}
}

/// Removing with `keep_current` never takes the current track out of the queue, nor
/// makes another track current.
pub proof fn law_remove_keeps_current(q: QueueState, i: int)
    requires
        q.wf(),
        0 <= i,
    ensures
        spec_remove(q, i, true).0.current_track() == q.current_track(),
        spec_remove(q, i, true).0.wf(),
        spec_remove(q, i, false).0.wf(),
{
}

/// Removing a range with `keep_current` keeps the same track current.
pub proof fn law_remove_range_keeps_current(q: QueueState, start: int, end: int)
    requires
        q.wf(),
        0 <= start,
        0 <= end,
        q.list.len() > 0 || start > 0,
    ensures
        spec_remove_range(q, start, end, true).0.current_track() == q.current_track(),
        spec_remove_range(q, start, end, true).0.wf(),
        spec_remove_range(q, start, end, false).0.wf(),
{
    let last = if end < q.list.len() - 1 {
        end
    } else if q.list.len() == 0 {
        0
    } else {
        q.list.len() - 1
    };
    if start <= last {
        let rest = q.list.subrange(0, start) + q.list.subrange(last + 1, q.list.len() as int);
        if let Some(c) = q.index {
            if c < start {
                assert(rest[c] == q.list[c]);
            } else if c > last {
                assert(rest[c - (last - start + 1)] == q.list[c]);
            }
        }
    }
}

} // verus!
