//! The decisions of the player: which track plays next, what a finished decode or an idle
//! audio device leads to, and which tracks are skipped. The audio device and the decoding
//! threads are driven by the caller, which performs the commands the jukebox hands out and
//! reports back what happened.
use std::collections::HashSet;
use std::time::Duration;

use vstd::prelude::*;

use crate::audio::{AudioFileExtension, AudioFileReport, AudioRating, stars};
use crate::database::Database;
use crate::queue::{PlayQueue, QueueIndex, QueueState, spec_next, spec_previous};
use crate::symbols::star_count;
use crate::text::to_string;
use crate::track::TrackId;

verus! {

broadcast use vstd::std_specs::hash::group_hash_axioms;

/// What the jukebox reports to the interface.
pub enum JukeboxEvent {
    Play(Option<TrackId>),
    Pause,
    Stop,
    Error(AudioFileReport),
}

/// What the jukebox is doing.
#[derive(Debug, Clone, Copy, PartialEq, Eq, Structural)]
pub enum PlayState {
    Play,
    Pause,
    Stop,
    Next,
    Previous,
    Track,
}

/// A track to decode, and where it stands in the queue.
pub struct DecodeRequest {
    pub id: TrackId,
    pub index: QueueIndex,
    pub path: String,
    pub extension: AudioFileExtension,
}

/// What the audio device and the decoder are to do, in order.
pub enum PlayerCommand {
    /// Start or resume playback.
    Play,
    /// Pause playback.
    Pause,
    /// Drop whatever the device holds.
    Clear,
    /// Start decoding a track, in place of any decode under way.
    Decode(DecodeRequest),
    /// Forget the decode under way.
    CancelDecode,
    /// Hand the decoded track to the device.
    AppendDecoded,
    /// Move the playback position forward by a duration.
    SeekForward(Duration),
}

/// True when a track is skipped: it is not in the library, or it has a rating of at most
/// `skip` stars (an unrated track is never skipped).
pub open spec fn skips(db: Database, skip: Option<AudioRating>, id: TrackId) -> bool {
    !(id.0 < db.ids().len()) || match db.entries()[id.0].rating_spec() {
        None => false,
        Some(r) => stars(r) <= star_count(skip),
    }
}

/// True when a track may be played: it has not failed to decode and it is not skipped.
pub open spec fn playable(faulty: Set<u64>, db: Database, skip: Option<AudioRating>, id: TrackId) -> bool {
    !faulty.contains(id.0) && !skips(db, skip, id)
}

/// The player's decisions and state.
pub struct Jukebox {
    current: Option<(TrackId, QueueIndex)>,
    queue: PlayQueue,
    state: PlayState,
    skip: Option<AudioRating>,
    decoding: Option<(TrackId, QueueIndex)>,
    events: Vec<JukeboxEvent>,
    commands: Vec<PlayerCommand>,
    faulty: HashSet<u64>,
}

impl Jukebox {
    /// The queue is consistent, and the positions kept of the current and the decoding
    /// track leave room for one more.
    pub closed spec fn wf(&self) -> bool {
        &&& self.queue.wf()
        &&& self.current matches Some((_, i)) ==> i.0 < usize::MAX
        &&& self.decoding matches Some((_, i)) ==> i.0 < usize::MAX
    }

    /// Everything but the queue and the current track: the play state, the skip rating,
    /// the decode under way, the pending events and commands, and the faulty tracks.
    pub closed spec fn player_side(&self) -> (
        PlayState,
        Option<AudioRating>,
        Option<(TrackId, QueueIndex)>,
        Seq<JukeboxEvent>,
        Seq<PlayerCommand>,
        Set<u64>,
    ) {
        (self.state, self.skip, self.decoding, self.events@, self.commands@, self.faulty@)
    }

    /// The queue.
    pub closed spec fn queue_spec(&self) -> QueueState {
        self.queue.state()
    }

    /// The track that plays, and its position in the queue when it started.
    pub closed spec fn current_spec(&self) -> Option<(TrackId, QueueIndex)> {
        self.current
    }

    /// What the jukebox is doing.
    pub closed spec fn state_spec(&self) -> PlayState {
        self.state
    }

    /// Tracks rated at most this are skipped.
    pub closed spec fn skip_spec(&self) -> Option<AudioRating> {
        self.skip
    }

    /// The track being decoded, if any.
    pub closed spec fn decoding_spec(&self) -> Option<(TrackId, QueueIndex)> {
        self.decoding
    }

    /// The events not yet handed out, oldest first.
    pub closed spec fn events_spec(&self) -> Seq<JukeboxEvent> {
        self.events@
    }

    /// The commands not yet handed out, oldest first.
    pub closed spec fn commands_spec(&self) -> Seq<PlayerCommand> {
        self.commands@
    }

    /// The ids of the tracks that failed to decode.
    pub closed spec fn faulty_spec(&self) -> Set<u64> {
        self.faulty@
    }

    /// A stopped jukebox with an empty queue, skipping nothing.
    pub fn new() -> (j: Self)
        ensures
            j.wf(),
            j.queue_spec().list == Seq::<TrackId>::empty(),
            j.queue_spec().index == None::<int>,
            j.current_spec() == None::<(TrackId, QueueIndex)>,
            j.state_spec() == PlayState::Stop,
            j.skip_spec() == None::<AudioRating>,
            j.decoding_spec() == None::<(TrackId, QueueIndex)>,
            j.events_spec() == Seq::<JukeboxEvent>::empty(),
            j.commands_spec() == Seq::<PlayerCommand>::empty(),
            j.faulty_spec() == Set::<u64>::empty(),
    {
        Jukebox {
            current: None,
            queue: PlayQueue::new(),
            state: PlayState::Stop,
            skip: None,
            decoding: None,
            events: Vec::new(),
            commands: Vec::new(),
            faulty: HashSet::new(),
        }
    }

    /// True when the queue is empty.
    pub fn is_empty(&self) -> (b: bool)
        requires
            self.wf(),
        ensures
            b == (self.queue_spec().list.len() == 0),
    {
        self.queue.is_empty()
    }

    /// True when the track failed to decode before.
    pub fn is_faulty(&self, id: TrackId) -> (b: bool)
        ensures
            b == self.faulty_spec().contains(id.0),
    {
        self.faulty.contains(&id.0)
    }

    /// The number of tracks in the queue.
    pub fn len(&self) -> (n: usize)
        requires
            self.wf(),
        ensures
            n == self.queue_spec().list.len(),
    {
        self.queue.len()
    }

    /// The number of tracks queued after the current one.
    pub fn queue(&self) -> (n: usize)
        requires
            self.wf(),
        ensures
            n == self.queue_spec().queue_len(),
    {
        self.queue.queue_len()
    }

    /// The number of tracks before the current one.
    pub fn history(&self) -> (n: usize)
        requires
            self.wf(),
        ensures
            n == self.queue_spec().history_len(),
    {
        self.queue.history_len()
    }

    /// The track at a position of the queue.
    pub fn get(&self, index: QueueIndex) -> (r: Option<TrackId>)
        requires
            self.wf(),
        ensures
            r == (if index.0 < self.queue_spec().list.len() {
                Some(self.queue_spec().list[index.0 as int])
            } else {
                None
            }),
    {
        self.queue.get(index.0)
    }

    /// The track that plays and its position in the queue.
    pub fn current_track(&self) -> (r: Option<(TrackId, QueueIndex)>)
        ensures
            r == self.current_spec(),
    {
        self.current
    }

    /// The id of the track that plays.
    pub fn current_track_id(&self) -> (r: Option<TrackId>)
        ensures
            r == match self.current_spec() {
                Some((id, _)) => Some(id),
                None => None,
            },
    {
        match self.current {
            Some((id, _)) => Some(id),
            None => None,
        }
    }

    /// The queue position of the track that plays.
    pub fn current_queue_index(&self) -> (r: Option<QueueIndex>)
        ensures
            r == match self.current_spec() {
                Some((_, index)) => Some(index),
                None => None,
            },
    {
        match self.current {
            Some((_, index)) => Some(index),
            None => None,
        }
    }

    /// Every track of the queue with its position.
    pub fn iter(&self) -> (r: Vec<(TrackId, QueueIndex)>)
        requires
            self.wf(),
        ensures
            r@.len() == self.queue_spec().list.len(),
            forall|i: int|
                0 <= i < r@.len() ==> #[trigger] r@[i] == (self.queue_spec().list[i], QueueIndex(
                    i as usize,
                )),
    {
        self.queue.iter()
    }

    /// Skips tracks rated at most `rating` from now on.
    pub fn set_skip(&mut self, rating: Option<AudioRating>)
        ensures
            final(self).skip_spec() == rating,
            final(self).queue_spec() == old(self).queue_spec(),
            final(self).current_spec() == old(self).current_spec(),
            final(self).state_spec() == old(self).state_spec(),
            final(self).decoding_spec() == old(self).decoding_spec(),
            final(self).events_spec() == old(self).events_spec(),
            final(self).commands_spec() == old(self).commands_spec(),
            final(self).faulty_spec() == old(self).faulty_spec(),
            old(self).wf() ==> final(self).wf(),
    {
        self.skip = rating;
    }

    /// Hands out the events so far, oldest first, and forgets them.
    pub fn take_events(&mut self) -> (r: Vec<JukeboxEvent>)
        ensures
            r@ == old(self).events_spec(),
            final(self).events_spec() == Seq::<JukeboxEvent>::empty(),
            final(self).queue_spec() == old(self).queue_spec(),
            final(self).current_spec() == old(self).current_spec(),
            final(self).state_spec() == old(self).state_spec(),
            final(self).skip_spec() == old(self).skip_spec(),
            final(self).decoding_spec() == old(self).decoding_spec(),
            final(self).commands_spec() == old(self).commands_spec(),
            final(self).faulty_spec() == old(self).faulty_spec(),
            old(self).wf() ==> final(self).wf(),
    {
        let mut r: Vec<JukeboxEvent> = Vec::new();
        std::mem::swap(&mut r, &mut self.events);
        r
    }

    /// Hands out the commands so far, oldest first, and forgets them.
    pub fn take_commands(&mut self) -> (r: Vec<PlayerCommand>)
        ensures
            r@ == old(self).commands_spec(),
            final(self).commands_spec() == Seq::<PlayerCommand>::empty(),
            final(self).queue_spec() == old(self).queue_spec(),
            final(self).current_spec() == old(self).current_spec(),
            final(self).state_spec() == old(self).state_spec(),
            final(self).skip_spec() == old(self).skip_spec(),
            final(self).decoding_spec() == old(self).decoding_spec(),
            final(self).events_spec() == old(self).events_spec(),
            final(self).faulty_spec() == old(self).faulty_spec(),
            old(self).wf() ==> final(self).wf(),
    {
        let mut r: Vec<PlayerCommand> = Vec::new();
        std::mem::swap(&mut r, &mut self.commands);
        r
    }

    /// True when a track is skipped by rating, or missing from the library.
    fn should_skip(&self, id: TrackId, db: &Database) -> (b: bool)
        requires
            db.wf(),
        ensures
            b == skips(*db, self.skip, id),
    {
        match db.get(id) {
            Some(track) => match track.rating() {
                None => false,
                Some(r) => {
                    let limit: u8 = match self.skip {
                        None => 0,
                        Some(s) => s.as_u8(),
                    };
                    r.as_u8() <= limit
                },
            },
            None => true,
        }
    }

    /// Starts decoding a track of the library, if it is there.
    fn start_decode(&mut self, id: TrackId, index: QueueIndex, db: &Database)
        requires
            db.wf(),
            index.0 < usize::MAX,
        ensures
            id.0 < db.ids().len() ==> {
                &&& final(self).decoding_spec() == Some((id, index))
                &&& final(self).commands_spec().len() == old(self).commands_spec().len() + 1
                &&& final(self).commands_spec().drop_last() == old(self).commands_spec()
                &&& final(self).commands_spec().last() matches PlayerCommand::Decode(r) && r.id == id
                    && r.index == index && r.path@ == db.entries()[id.0].path_spec()
                    && r.extension == db.entries()[id.0].extension_spec()
            },
            !(id.0 < db.ids().len()) ==> final(self).decoding_spec() == old(self).decoding_spec()
                && final(self).commands_spec() == old(self).commands_spec(),
            final(self).queue_spec() == old(self).queue_spec(),
            final(self).current_spec() == old(self).current_spec(),
            final(self).state_spec() == old(self).state_spec(),
            final(self).skip_spec() == old(self).skip_spec(),
            final(self).events_spec() == old(self).events_spec(),
            final(self).faulty_spec() == old(self).faulty_spec(),
            old(self).wf() ==> final(self).wf(),
    {
        match db.get(id) {
            Some(track) => {
                let request = DecodeRequest {
                    id,
                    index,
                    path: to_string(track.path()),
                    extension: track.extension(),
                };
                self.decoding = Some((id, index));
                self.commands.push(PlayerCommand::Decode(request));
                proof {
                    assert(self.commands@.drop_last() =~= old(self).commands@);
                }
            },
            None => {},
        }
    }

    /// Resumes playback, unless it is already playing.
    pub fn play(&mut self)
        ensures
            old(self).state_spec() == PlayState::Play ==> *final(self) == *old(self),
            old(self).state_spec() != PlayState::Play ==> {
                &&& final(self).state_spec() == PlayState::Play
                &&& final(self).commands_spec() == old(self).commands_spec().push(PlayerCommand::Play)
                &&& final(self).events_spec() == old(self).events_spec().push(JukeboxEvent::Play(None))
                &&& final(self).queue_spec() == old(self).queue_spec()
                &&& final(self).current_spec() == old(self).current_spec()
                &&& final(self).decoding_spec() == old(self).decoding_spec()
                &&& final(self).skip_spec() == old(self).skip_spec()
                &&& final(self).faulty_spec() == old(self).faulty_spec()
                &&& old(self).wf() ==> final(self).wf()
            },
    {
        if self.state == PlayState::Play {
            return;
        }
        self.state = PlayState::Play;
        self.commands.push(PlayerCommand::Play);
        self.events.push(JukeboxEvent::Play(None));
    }

    /// Pauses playback, unless it is already paused.
    pub fn pause(&mut self)
        ensures
            old(self).state_spec() == PlayState::Pause ==> *final(self) == *old(self),
            old(self).state_spec() != PlayState::Pause ==> {
                &&& final(self).state_spec() == PlayState::Pause
                &&& final(self).commands_spec() == old(self).commands_spec().push(PlayerCommand::Pause)
                &&& final(self).events_spec() == old(self).events_spec().push(JukeboxEvent::Pause)
                &&& final(self).queue_spec() == old(self).queue_spec()
                &&& final(self).current_spec() == old(self).current_spec()
                &&& final(self).decoding_spec() == old(self).decoding_spec()
                &&& final(self).skip_spec() == old(self).skip_spec()
                &&& final(self).faulty_spec() == old(self).faulty_spec()
                &&& old(self).wf() ==> final(self).wf()
            },
    {
        if self.state == PlayState::Pause {
            return;
        }
        self.state = PlayState::Pause;
        self.commands.push(PlayerCommand::Pause);
        self.events.push(JukeboxEvent::Pause);
    }

    /// Plays when paused or stopped, and pauses otherwise.
    pub fn pause_or_play(&mut self)
        ensures
            (old(self).state_spec() == PlayState::Pause || old(self).state_spec() == PlayState::Stop)
                ==> {
                &&& final(self).state_spec() == PlayState::Play
                &&& final(self).commands_spec() == old(self).commands_spec().push(PlayerCommand::Play)
                &&& final(self).events_spec() == old(self).events_spec().push(JukeboxEvent::Play(None))
            },
            old(self).state_spec() == PlayState::Play ==> {
                &&& final(self).state_spec() == PlayState::Pause
                &&& final(self).commands_spec() == old(self).commands_spec().push(PlayerCommand::Pause)
                &&& final(self).events_spec() == old(self).events_spec().push(JukeboxEvent::Pause)
            },
            (old(self).state_spec() == PlayState::Next || old(self).state_spec() == PlayState::Previous
                || old(self).state_spec() == PlayState::Track) ==> {
                &&& final(self).state_spec() == PlayState::Pause
                &&& final(self).commands_spec() == old(self).commands_spec().push(PlayerCommand::Pause)
                &&& final(self).events_spec() == old(self).events_spec().push(JukeboxEvent::Pause)
            },
            final(self).queue_spec() == old(self).queue_spec(),
            final(self).current_spec() == old(self).current_spec(),
            final(self).decoding_spec() == old(self).decoding_spec(),
            final(self).skip_spec() == old(self).skip_spec(),
            final(self).faulty_spec() == old(self).faulty_spec(),
            old(self).wf() ==> final(self).wf(),
    {
        match self.state {
            PlayState::Pause | PlayState::Stop => self.play(),
            _ => self.pause(),
        }
    }

    /// Stops playback: nothing plays and no decode goes on, unless it is already stopped.
    pub fn stop(&mut self)
        ensures
            old(self).state_spec() == PlayState::Stop ==> *final(self) == *old(self),
            old(self).state_spec() != PlayState::Stop ==> {
                &&& final(self).state_spec() == PlayState::Stop
                &&& final(self).current_spec() == None::<(TrackId, QueueIndex)>
                &&& final(self).decoding_spec() == None::<(TrackId, QueueIndex)>
                &&& final(self).commands_spec() == old(self).commands_spec().push(
                    PlayerCommand::CancelDecode,
                ).push(PlayerCommand::Clear)
                &&& final(self).events_spec() == old(self).events_spec().push(JukeboxEvent::Stop)
                &&& final(self).queue_spec() == old(self).queue_spec()
                &&& final(self).skip_spec() == old(self).skip_spec()
                &&& final(self).faulty_spec() == old(self).faulty_spec()
                &&& old(self).wf() ==> final(self).wf()
            },
    {
        if self.state == PlayState::Stop {
            return;
        }
        self.state = PlayState::Stop;
        self.current = None;
        self.decoding = None;
        self.commands.push(PlayerCommand::CancelDecode);
        self.commands.push(PlayerCommand::Clear);
        self.events.push(JukeboxEvent::Stop);
    }
}

impl Jukebox {
    /// Seeks forward by `duration`, unless the device holds nothing to play.
    pub fn fast_forward_by(&mut self, duration: Duration, device_empty: bool)
        ensures
            device_empty ==> *final(self) == *old(self),
            !device_empty ==> {
                &&& final(self).commands_spec() == old(self).commands_spec().push(
                    PlayerCommand::SeekForward(duration),
                )
                &&& final(self).events_spec() == old(self).events_spec()
                &&& final(self).state_spec() == old(self).state_spec()
                &&& final(self).queue_spec() == old(self).queue_spec()
                &&& final(self).current_spec() == old(self).current_spec()
                &&& final(self).decoding_spec() == old(self).decoding_spec()
                &&& final(self).skip_spec() == old(self).skip_spec()
                &&& final(self).faulty_spec() == old(self).faulty_spec()
                &&& old(self).wf() ==> final(self).wf()
            },
    {
        if device_empty {
            return;
        }
        self.commands.push(PlayerCommand::SeekForward(duration));
    }
}

/// The current track after the queue changed: still none if there was none, else the
/// queue's current entry.
pub open spec fn current_after(before: Option<(TrackId, QueueIndex)>, q: QueueState) -> Option<(TrackId, QueueIndex)> {
    match before {
        Some(_) => q.current(),
        None => None,
    }
}

impl Jukebox {
    /// Follows the queue's current entry after the queue changed, if a track was current.
    fn follow_queue(&mut self)
        requires
            old(self).queue.wf(),
            old(self).decoding matches Some((_, i)) ==> i.0 < usize::MAX,
        ensures
            final(self).wf(),
            final(self).current_spec() == current_after(old(self).current_spec(), old(self).queue_spec()),
            final(self).queue_spec() == old(self).queue_spec(),
            final(self).player_side() == old(self).player_side(),
    {
        proof {
            self.queue.lemma_state_wf();
        }
        if self.current.is_some() {
            self.current = self.queue.current();
        }
    }

    /// Shuffles the tracks after the current one (all of them when none is current). Tells
    /// whether there were two or more tracks to shuffle.
    pub fn shuffle(&mut self) -> (any: bool)
        requires
            old(self).wf(),
        ensures
            final(self).wf(),
            shuffled(old(self)@, final(self)@, any),
            final(self).queue_spec().index == old(self).queue_spec().index,
            final(self).queue_spec().list.to_multiset() == old(self).queue_spec().list.to_multiset(),
            final(self).queue_spec().list.len() == old(self).queue_spec().list.len(),
            forall|k: int|
                0 <= k < old(self).queue_spec().list.len() && (old(self).current_spec() matches Some(
                    (_, i),
                ) && k <= i.0) ==> #[trigger] final(self).queue_spec().list[k] == old(
                    self,
                ).queue_spec().list[k],
            final(self).current_spec() == old(self).current_spec(),
            final(self).player_side() == old(self).player_side(),
    {
        let start = match self.current {
            Some((_, index)) => index.0 + 1,
            None => 0,
        };
        let len = self.queue.len();
        self.queue.shuffle(start);
        len >= 2 && start <= len - 2
    }

    /// Moves the track at `i` one place up; the current track follows the queue.
    pub fn move_up(&mut self, i: usize) -> (moved: bool)
        requires
            old(self).wf(),
            i == 0 || old(self).queue_spec().list.len() <= 1 || i < old(self).queue_spec().list.len(),
        ensures
            final(self).wf(),
            moved <==> (i != 0 && old(self).queue_spec().list.len() > 1),
            moved ==> final(self).queue_spec() == (QueueState {
                list: crate::queue::swapped(old(self).queue_spec().list, i as int, i - 1),
                index: crate::queue::index_after_move_up(old(self).queue_spec().index, i as int, i as int),
            }),
            !moved ==> final(self).queue_spec() == old(self).queue_spec(),
            final(self).current_spec() == current_after(old(self).current_spec(), final(self).queue_spec()),
            final(self).player_side() == old(self).player_side(),
            moved_up_one(old(self)@, final(self)@, i as int, moved),
    {
        let moved = self.queue.move_up(i);
        self.follow_queue();
        moved
    }

    /// Moves the tracks `start..=end` one place up; the current track follows the queue.
    pub fn move_up_range(&mut self, start: usize, end: usize) -> (moved: bool)
        requires
            old(self).wf(),
            start == 0 || old(self).queue_spec().list.len() <= 1 || (start <= end && end < old(
                self,
            ).queue_spec().list.len()),
        ensures
            final(self).wf(),
            moved <==> (start != 0 && old(self).queue_spec().list.len() > 1),
            moved ==> final(self).queue_spec() == (QueueState {
                list: crate::queue::block_moved_up(old(self).queue_spec().list, start as int, end as int),
                index: crate::queue::index_after_move_up(old(self).queue_spec().index, start as int, end as int),
            }),
            !moved ==> final(self).queue_spec() == old(self).queue_spec(),
            final(self).current_spec() == current_after(old(self).current_spec(), final(self).queue_spec()),
            final(self).player_side() == old(self).player_side(),
            moved_up_block(old(self)@, final(self)@, start as int, end as int, moved),
    {
        let moved = self.queue.move_up_range(start, end);
        self.follow_queue();
        moved
    }

    /// Moves the track at `i` one place down; the current track follows the queue.
    pub fn move_down(&mut self, i: usize) -> (moved: bool)
        requires
            old(self).wf(),
            old(self).queue_spec().list.len() <= 1 || i < usize::MAX,
        ensures
            final(self).wf(),
            moved <==> (old(self).queue_spec().list.len() > 1 && i + 1 < old(self).queue_spec().list.len()),
            moved ==> final(self).queue_spec() == (QueueState {
                list: crate::queue::swapped(old(self).queue_spec().list, i as int, i + 1),
                index: crate::queue::index_after_move_down(old(self).queue_spec().index, i as int, i as int),
            }),
            !moved ==> final(self).queue_spec() == old(self).queue_spec(),
            final(self).current_spec() == current_after(old(self).current_spec(), final(self).queue_spec()),
            final(self).player_side() == old(self).player_side(),
            moved_down_one(old(self)@, final(self)@, i as int, moved),
    {
        let moved = self.queue.move_down(i);
        self.follow_queue();
        moved
    }

    /// Moves the tracks `start..=end` one place down; the current track follows the queue.
    pub fn move_down_range(&mut self, start: usize, end: usize) -> (moved: bool)
        requires
            old(self).wf(),
            old(self).queue_spec().list.len() <= 1 || end < usize::MAX,
            old(self).queue_spec().list.len() <= 1 || end + 1 >= old(self).queue_spec().list.len()
                || start <= end,
        ensures
            final(self).wf(),
            moved <==> (old(self).queue_spec().list.len() > 1 && end + 1 < old(self).queue_spec().list.len()),
            moved ==> final(self).queue_spec() == (QueueState {
                list: crate::queue::block_moved_down(old(self).queue_spec().list, start as int, end as int),
                index: crate::queue::index_after_move_down(old(self).queue_spec().index, start as int, end as int),
            }),
            !moved ==> final(self).queue_spec() == old(self).queue_spec(),
            final(self).current_spec() == current_after(old(self).current_spec(), final(self).queue_spec()),
            final(self).player_side() == old(self).player_side(),
            moved_down_block(old(self)@, final(self)@, start as int, end as int, moved),
    {
        let moved = self.queue.move_down_range(start, end);
        self.follow_queue();
        moved
    }

    /// Removes the track at `index`; the current track, if any, stays and the queue follows
    /// it.
    pub fn remove(&mut self, index: usize) -> (removed: bool)
        requires
            old(self).wf(),
        ensures
            final(self).wf(),
            ({
                let (q, r) = crate::queue::spec_remove(
                    old(self).queue_spec(),
                    index as int,
                    old(self).current_spec() is Some,
                );
                &&& final(self).queue_spec() == q
                &&& removed == r is Some
            }),
            final(self).current_spec() == current_after(old(self).current_spec(), final(self).queue_spec()),
            final(self).player_side() == old(self).player_side(),
            removed_one(old(self)@, final(self)@, index as int, removed),
    {
        let keep_current = self.current.is_some();
        let removal = self.queue.remove(index, keep_current).is_some();
        self.follow_queue();
        removal
    }

    /// Removes the tracks `start..=end`; the current track, if any, stays and the queue
    /// follows it.
    pub fn remove_range(&mut self, start: usize, end: usize) -> (removed: bool)
        requires
            old(self).wf(),
            old(self).queue_spec().list.len() > 0 || start > 0,
        ensures
            final(self).wf(),
            (final(self).queue_spec(), removed) == crate::queue::spec_remove_range(
                old(self).queue_spec(),
                start as int,
                end as int,
                old(self).current_spec() is Some,
            ),
            final(self).current_spec() == current_after(old(self).current_spec(), final(self).queue_spec()),
            final(self).player_side() == old(self).player_side(),
            removed_block(old(self)@, final(self)@, start as int, end as int, removed),
    {
        let keep_current = self.current.is_some();
        let removal = self.queue.remove_range(start, end, keep_current);
        self.follow_queue();
        removal
    }

    /// Empties the queue; a current track stays, as the only entry. Tells whether tracks
    /// went.
    pub fn clear(&mut self) -> (removed: bool)
        requires
            old(self).wf(),
        ensures
            final(self).wf(),
            cleared(old(self)@, final(self)@, removed),
            old(self).current_spec() matches Some((id, _)) ==> {
                &&& final(self).queue_spec() == (QueueState { list: seq![id], index: Some(0) })
                &&& final(self).current_spec() == Some((id, QueueIndex(0)))
            },
            old(self).current_spec() is None ==> {
                &&& final(self).queue_spec() == (QueueState {
                    list: Seq::<TrackId>::empty(),
                    index: None,
                })
                &&& final(self).current_spec() == None::<(TrackId, QueueIndex)>
            },
            final(self).player_side() == old(self).player_side(),
    {
        let before = self.queue.len();
        self.queue.clear();
        match self.current {
            Some((id, _)) => {
                self.queue.enqueue(id);
                self.current = self.queue.next();
                proof {
                    assert(seq![id] =~= Seq::<TrackId>::empty().push(id));
                }
            },
            None => {},
        }
        before > self.queue.len()
    }

    /// Appends a track to the queue.
    pub fn enqueue(&mut self, id: TrackId)
        requires
            old(self).wf(),
        ensures
            final(self).wf(),
            final(self).queue_spec() == (QueueState {
                list: old(self).queue_spec().list.push(id),
                index: old(self).queue_spec().index,
            }),
            final(self).current_spec() == old(self).current_spec(),
            final(self).player_side() == old(self).player_side(),
    {
        self.queue.enqueue(id);
    }

    /// Queues a track right after the current one.
    pub fn enqueue_next(&mut self, id: TrackId)
        requires
            old(self).wf(),
        ensures
            final(self).wf(),
            final(self).queue_spec() == (QueueState {
                list: old(self).queue_spec().list.insert(
                    match old(self).queue_spec().index {
                        Some(i) => i + 1,
                        None => 0,
                    },
                    id,
                ),
                index: old(self).queue_spec().index,
            }),
            final(self).current_spec() == old(self).current_spec(),
            final(self).player_side() == old(self).player_side(),
    {
        self.queue.enqueue_next(id);
    }

    /// Plays the track at a position of the queue, if there is one there.
    pub fn play_index(&mut self, index: usize, db: &Database)
        requires
            old(self).wf(),
            db.wf(),
        ensures
            final(self).wf(),
            index < old(self).queue_spec().list.len() ==> {
                let id = old(self).queue_spec().list[index as int];
                &&& final(self).queue_spec() == (QueueState {
                    list: old(self).queue_spec().list,
                    index: Some(index as int),
                })
                &&& final(self).state_spec() == PlayState::Track
                &&& id.0 < db.ids().len() ==> final(self).decoding_spec() == Some((id, QueueIndex(index)))
            },
            index >= old(self).queue_spec().list.len() ==> final(self).queue_spec() == old(
                self,
            ).queue_spec() && final(self).player_side() == old(self).player_side(),
            final(self).current_spec() == old(self).current_spec(),
            index_played(old(self)@, final(self)@, index as int, *db),
    {
        proof {
            self.queue.lemma_len_bound();
        }
        match self.queue.set_index(index) {
            Some(id) => {
                self.state = PlayState::Track;
                self.start_decode(id, QueueIndex(index), db);
            },
            None => {},
        }
    }

    /// Plays a track right away: it is queued after the current one and becomes current.
    pub fn play_id(&mut self, id: TrackId, db: &Database)
        requires
            old(self).wf(),
            db.wf(),
            old(self).queue_spec().list.len() < usize::MAX,
        ensures
            final(self).wf(),
            ({
                let at = match old(self).queue_spec().index {
                    Some(i) => i + 1,
                    None => 0,
                };
                &&& final(self).queue_spec() == (QueueState {
                    list: old(self).queue_spec().list.insert(at, id),
                    index: Some(at),
                })
                &&& final(self).state_spec() == PlayState::Track
                &&& id.0 < db.ids().len() ==> final(self).decoding_spec() == Some(
                    (id, QueueIndex(at as usize)),
                )
            }),
            final(self).current_spec() == old(self).current_spec(),
    {
        let ghost at = match self.queue.state().index {
            Some(i) => i + 1,
            None => 0,
        };
        proof {
            self.queue.lemma_state_wf();
            self.queue.state().list.insert_ensures(at, id);
        }
        self.queue.enqueue_next(id);
        let next = self.queue.next();
        let (id, index) = next.unwrap();
        self.state = PlayState::Track;
        self.start_decode(id, index, db);
    }
}

/// Everything the jukebox holds, as plain values.
pub struct JukeboxView {
    pub queue: QueueState,
    pub current: Option<(TrackId, QueueIndex)>,
    pub state: PlayState,
    pub skip: Option<AudioRating>,
    pub decoding: Option<(TrackId, QueueIndex)>,
    pub events: Seq<JukeboxEvent>,
    pub commands: Seq<PlayerCommand>,
    pub faulty: Set<u64>,
}

impl View for Jukebox {
    type V = JukeboxView;

    closed spec fn view(&self) -> JukeboxView {
        JukeboxView {
            queue: self.queue.state(),
            current: self.current,
            state: self.state,
            skip: self.skip,
            decoding: self.decoding,
            events: self.events@,
            commands: self.commands@,
            faulty: self.faulty@,
        }
    }
}

/// Everything but the queue and the current track is unchanged.
pub open spec fn same_player_side(a: JukeboxView, b: JukeboxView) -> bool {
    &&& b.state == a.state
    &&& b.skip == a.skip
    &&& b.decoding == a.decoding
    &&& b.events == a.events
    &&& b.commands == a.commands
    &&& b.faulty == a.faulty
}

/// What `move_up(i)` does: with more than one track and `i` not the first, the track at
/// `i` trades places with the one above it and the queue's position follows.
pub open spec fn moved_up_one(a: JukeboxView, b: JukeboxView, i: int, moved: bool) -> bool {
    &&& moved <==> (i != 0 && a.queue.list.len() > 1)
    &&& moved ==> b.queue == (QueueState {
        list: crate::queue::swapped(a.queue.list, i, i - 1),
        index: crate::queue::index_after_move_up(a.queue.index, i, i),
    })
    &&& !moved ==> b.queue == a.queue
    &&& b.current == current_after(a.current, b.queue)
    &&& same_player_side(a, b)
}

/// What `move_up_range(start, end)` does: the block moves one place up.
pub open spec fn moved_up_block(a: JukeboxView, b: JukeboxView, start: int, end: int, moved: bool) -> bool {
    &&& moved <==> (start != 0 && a.queue.list.len() > 1)
    &&& moved ==> b.queue == (QueueState {
        list: crate::queue::block_moved_up(a.queue.list, start, end),
        index: crate::queue::index_after_move_up(a.queue.index, start, end),
    })
    &&& !moved ==> b.queue == a.queue
    &&& b.current == current_after(a.current, b.queue)
    &&& same_player_side(a, b)
}

/// What `move_down(i)` does: with more than one track and a track below `i`, the two
/// trade places and the queue's position follows.
pub open spec fn moved_down_one(a: JukeboxView, b: JukeboxView, i: int, moved: bool) -> bool {
    &&& moved <==> (a.queue.list.len() > 1 && i + 1 < a.queue.list.len())
    &&& moved ==> b.queue == (QueueState {
        list: crate::queue::swapped(a.queue.list, i, i + 1),
        index: crate::queue::index_after_move_down(a.queue.index, i, i),
    })
    &&& !moved ==> b.queue == a.queue
    &&& b.current == current_after(a.current, b.queue)
    &&& same_player_side(a, b)
}

/// What `move_down_range(start, end)` does: the block moves one place down.
pub open spec fn moved_down_block(a: JukeboxView, b: JukeboxView, start: int, end: int, moved: bool) -> bool {
    &&& moved <==> (a.queue.list.len() > 1 && end + 1 < a.queue.list.len())
    &&& moved ==> b.queue == (QueueState {
        list: crate::queue::block_moved_down(a.queue.list, start, end),
        index: crate::queue::index_after_move_down(a.queue.index, start, end),
    })
    &&& !moved ==> b.queue == a.queue
    &&& b.current == current_after(a.current, b.queue)
    &&& same_player_side(a, b)
}

/// What `remove(index)` does.
pub open spec fn removed_one(a: JukeboxView, b: JukeboxView, index: int, removed: bool) -> bool {
    let (q, r) = crate::queue::spec_remove(a.queue, index, a.current is Some);
    &&& b.queue == q
    &&& removed == r is Some
    &&& b.current == current_after(a.current, b.queue)
    &&& same_player_side(a, b)
}

/// What `remove_range(start, end)` does.
pub open spec fn removed_block(a: JukeboxView, b: JukeboxView, start: int, end: int, removed: bool) -> bool {
    &&& (b.queue, removed) == crate::queue::spec_remove_range(a.queue, start, end, a.current is Some)
    &&& b.current == current_after(a.current, b.queue)
    &&& same_player_side(a, b)
}

/// What `clear` does: the queue empties, a current track stays as its only entry, and the
/// flag tells whether tracks went.
pub open spec fn cleared(a: JukeboxView, b: JukeboxView, removed: bool) -> bool {
    &&& match a.current {
        Some((id, _)) => b.queue == (QueueState { list: seq![id], index: Some(0) }) && b.current
            == Some((id, QueueIndex(0))),
        None => b.queue == (QueueState { list: Seq::<TrackId>::empty(), index: None })
            && b.current == None::<(TrackId, QueueIndex)>,
    }
    &&& removed == (a.queue.list.len() > b.queue.list.len())
    &&& same_player_side(a, b)
}

/// Where shuffling starts: after the current track, or at the start.
pub open spec fn shuffle_start(a: JukeboxView) -> int {
    match a.current {
        Some((_, i)) => i.0 + 1,
        None => 0,
    }
}

/// What `shuffle` does: the tracks after the current one (all of them when none is current)
/// are put in some order, the others stay, and the flag tells whether there were two or
/// more tracks to shuffle.
pub open spec fn shuffled(a: JukeboxView, b: JukeboxView, any: bool) -> bool {
    &&& b.queue.index == a.queue.index
    &&& b.queue.list.to_multiset() == a.queue.list.to_multiset()
    &&& b.queue.list.len() == a.queue.list.len()
    &&& forall|k: int|
        0 <= k < a.queue.list.len() && k < shuffle_start(a) ==> #[trigger] b.queue.list[k]
            == a.queue.list[k]
    &&& b.current == a.current
    &&& any == (a.queue.list.len() >= shuffle_start(a) + 2)
    &&& same_player_side(a, b)
}

/// What `play_index(index)` does: a position in the queue becomes current in the queue,
/// the jukebox waits for its track, and decoding starts when the library has it; a position
/// past the end changes nothing.
pub open spec fn index_played(a: JukeboxView, b: JukeboxView, index: int, db: Database) -> bool {
    &&& 0 <= index < a.queue.list.len() ==> {
        let id = a.queue.list[index];
        &&& b.queue == (QueueState { list: a.queue.list, index: Some(index) })
        &&& b.state == PlayState::Track
        &&& id.0 < db.ids().len() ==> b.decoding == Some((id, QueueIndex(index as usize)))
    }
    &&& index >= a.queue.list.len() ==> b.queue == a.queue && same_player_side(a, b)
    &&& b.current == a.current
}

impl Jukebox {
    /// The parts of the view are what the other specifications of the jukebox name.
    pub proof fn lemma_view_parts(&self)
        ensures
            self@.queue == self.queue_spec(),
            self@.current == self.current_spec(),
            self@.state == self.state_spec(),
            self@.skip == self.skip_spec(),
            self@.decoding == self.decoding_spec(),
            self@.events == self.events_spec(),
            self@.commands == self.commands_spec(),
            self@.faulty == self.faulty_spec(),
            self.player_side() == (
                self@.state,
                self@.skip,
                self@.decoding,
                self@.events,
                self@.commands,
                self@.faulty,
            ),
    {
    }

    /// The queue of a jukebox is well formed: its position, if any, is in the queue.
    pub proof fn lemma_queue_wf(&self)
        requires
            self.wf(),
        ensures
            self@.queue.wf(),
            self@.queue.list.len() <= usize::MAX,
    {
        self.queue.lemma_state_wf();
    }
}

/// Where the search for a next track starts: at the current position of the queue, or at
/// its start.
pub open spec fn next_start(q: QueueState) -> int {
    match q.index {
        Some(i) => i,
        None => 0,
    }
}

/// True when the search for a next track steps over position `p`: the track there may not
/// be played, or it is the one playing.
pub open spec fn passed(v: JukeboxView, db: Database, p: int) -> bool {
    ||| !playable(v.faulty, db, v.skip, v.queue.list[p])
    ||| v.current == Some((v.queue.list[p], QueueIndex(p as usize)))
}

/// `b` is `a` with a decode of track `id` at queue position `index` started: the decode
/// is under way and its command was handed out.
pub open spec fn decode_started(a: JukeboxView, b: JukeboxView, db: Database, id: TrackId, index: int) -> bool {
    &&& b.decoding == Some((id, QueueIndex(index as usize)))
    &&& b.commands.len() == a.commands.len() + 1
    &&& b.commands.drop_last() == a.commands
    &&& b.commands.last() matches PlayerCommand::Decode(r) && r.id == id && r.index == QueueIndex(
        index as usize,
    ) && r.path@ == db.entries()[id.0].path_spec() && r.extension == db.entries()[id.0].extension_spec()
}

/// What `play_next` does: with an empty library nothing; else it steps through the queue
/// from the current position to the first track that may be played and is not the one
/// playing, and decodes it; when there is none, it appends a random track of the library
/// and decodes that.
pub open spec fn plays_next(a: JukeboxView, b: JukeboxView, db: Database) -> bool {
    if db.ids().len() == 0 {
        b == a
    } else {
        let l = a.queue.list;
        let s = next_start(a.queue);
        &&& b.state == PlayState::Next
        &&& b.current == a.current
        &&& b.skip == a.skip
        &&& b.events == a.events
        &&& b.faulty == a.faulty
        &&& {
            ||| exists|k: int|
                #![trigger l[k]]
                s <= k < l.len() && !passed(a, db, k) && (forall|p: int| s <= p < k ==> passed(a, db, p))
                    && b.queue == QueueState { list: l, index: Some(k) } && decode_started(
                    a,
                    b,
                    db,
                    l[k],
                    k,
                )
            ||| (forall|p: int| s <= p < l.len() ==> passed(a, db, p)) && exists|r: TrackId|
                r.0 < db.ids().len() && b.queue == QueueState {
                    list: l.push(r),
                    index: Some(l.len() as int),
                } && decode_started(a, b, db, r, l.len() as int)
        }
    }
}

/// The queue position after it is brought back to the playing track: its position when
/// that is in the queue, else `fallback`; none when nothing plays.
pub open spec fn synced_index(current: Option<(TrackId, QueueIndex)>, len: int, fallback: Option<int>) -> Option<int> {
    match current {
        Some((_, i)) => if i.0 < len {
            Some(i.0 as int)
        } else {
            fallback
        },
        None => None,
    }
}

/// `a` with the queue position set.
pub open spec fn with_index(a: JukeboxView, index: Option<int>) -> JukeboxView {
    JukeboxView { queue: QueueState { list: a.queue.list, index }, ..a }
}

/// What `play_previous` does: it steps back through the queue to the first track that may
/// be played and decodes it; when there is none, the queue goes back to the playing track.
pub open spec fn plays_previous(a: JukeboxView, b: JukeboxView, db: Database) -> bool {
    let l = a.queue.list;
    match a.queue.index {
        None => b == with_index(a, synced_index(a.current, l.len() as int, None)),
        Some(i) => {
            ||| exists|k: int|
                #![trigger l[k]]
                0 <= k < i && playable(a.faulty, db, a.skip, l[k]) && (forall|p: int|
                    k < p < i ==> !playable(a.faulty, db, a.skip, #[trigger] l[p])) && b.state
                    == PlayState::Previous && b.queue == QueueState { list: l, index: Some(k) }
                    && decode_started(a, b, db, l[k], k) && b.current == a.current && b.skip
                    == a.skip && b.events == a.events && b.faulty == a.faulty
            ||| (forall|p: int| 0 <= p < i ==> !playable(a.faulty, db, a.skip, #[trigger] l[p])) && b
                == with_index(a, synced_index(a.current, l.len() as int, Some(0)))
        },
    }
}

/// What a finished decode leads to. A decoded track replaces what the device holds and
/// plays, unless the jukebox is paused. A track that failed is marked faulty and reported,
/// and then the jukebox moves on in the direction it was going: forward when playing or
/// going to the next track, back when going to the previous one, and back to the playing
/// track when a chosen track failed.
pub open spec fn decode_done(a: JukeboxView, b: JukeboxView, outcome: Result<(), AudioFileReport>, db: Database) -> bool {
    match a.decoding {
        None => b == a,
        Some((id, index)) => match outcome {
            Ok(_) => b == JukeboxView {
                decoding: None,
                current: Some((id, index)),
                state: if a.state != PlayState::Pause {
                    PlayState::Play
                } else {
                    PlayState::Pause
                },
                commands: if a.state != PlayState::Pause {
                    a.commands.push(PlayerCommand::Clear).push(PlayerCommand::AppendDecoded).push(
                        PlayerCommand::Play,
                    )
                } else {
                    a.commands.push(PlayerCommand::Clear).push(PlayerCommand::AppendDecoded)
                },
                events: a.events.push(JukeboxEvent::Play(Some(id))),
                ..a
            },
            Err(err) => {
                let mid = JukeboxView {
                    decoding: None,
                    faulty: a.faulty.insert(id.0),
                    events: a.events.push(JukeboxEvent::Error(err)),
                    ..a
                };
                match a.state {
                    PlayState::Play | PlayState::Next => plays_next(mid, b, db),
                    PlayState::Previous => plays_previous(mid, b, db),
                    PlayState::Track => b == JukeboxView {
                        state: PlayState::Play,
                        ..with_index(
                            mid,
                            synced_index(mid.current, mid.queue.list.len() as int, mid.queue.index),
                        )
                    },
                    _ => b == mid,
                }
            },
        },
    }
}

/// What an idle audio device leads to: when it is empty and not paused, a playing jukebox
/// goes on to the next track, and one that was choosing a track now counts as playing.
pub open spec fn idle_done(a: JukeboxView, b: JukeboxView, device_empty: bool, device_paused: bool, db: Database) -> bool {
    if device_empty && !device_paused {
        match a.state {
            PlayState::Play => plays_next(a, b, db),
            PlayState::Next | PlayState::Previous | PlayState::Track => b == JukeboxView {
                state: PlayState::Play,
                ..a
            },
            _ => b == a,
        }
    } else {
        b == a
    }
}

/// True when two queue entries are the same.
fn same_entry(a: Option<(TrackId, QueueIndex)>, b: Option<(TrackId, QueueIndex)>) -> (r: bool)
    ensures
        r == (a == b),
{
    match (a, b) {
        (Some((x, i)), Some((y, j))) => x.0 == y.0 && i.0 == j.0,
        (None, None) => true,
        _ => false,
    }
}

impl Jukebox {
    /// True when a random pick is not taken: it is the track playing, it failed to decode,
    /// or it is skipped.
    fn rejected(&self, pick: TrackId, playing: Option<TrackId>, db: &Database) -> (b: bool)
        requires
            db.wf(),
        ensures
            b == (playing == Some(pick) || !playable(self.faulty@, *db, self.skip, pick)),
    {
        let is_playing = match playing {
            Some(c) => c.0 == pick.0,
            None => false,
        };
        is_playing || self.is_faulty(pick) || self.should_skip(pick, db)
    }

    /// Goes on to the next track that may be played, or to a random track of the library
    /// when the queue has none left.
    pub fn play_next(&mut self, db: &Database)
        requires
            old(self).wf(),
            db.wf(),
            old(self)@.queue.list.len() < usize::MAX,
        ensures
            final(self).wf(),
            plays_next(old(self)@, final(self)@, *db),
    {
        if db.is_empty() {
            return;
        }
        let ghost a = self@;
        let ghost l = a.queue.list;
        let ghost s = next_start(a.queue);
        proof {
            self.queue.lemma_state_wf();
        }
        let mut next = self.queue.current_or_next();
        loop
            invariant
                self.wf(),
                db.wf(),
                db.ids().len() > 0,
                a == old(self)@,
                a.queue.wf(),
                a.queue.list == l,
                s == next_start(a.queue),
                l.len() < usize::MAX,
                self@ == with_index(a, self@.queue.index),
                match next {
                    Some((id, qi)) => self@.queue.index == Some(qi.0 as int) && s <= qi.0 < l.len()
                        && id == l[qi.0 as int],
                    None => (self@.queue.index is None && l.len() == 0) || self@.queue.index == Some(
                        l.len() - 1,
                    ),
                },
                forall|p: int|
                    s <= p < (match next {
                        Some((_, qi)) => qi.0 as int,
                        None => l.len() as int,
                    }) ==> passed(a, *db, p),
            ensures
                self.wf(),
                self@ == with_index(a, self@.queue.index),
                (self@.queue.index is None && l.len() == 0) || self@.queue.index == Some(l.len() - 1),
                forall|p: int| s <= p < l.len() ==> passed(a, *db, p),
            decreases match next {
                Some((_, qi)) => l.len() + 1 - qi.0,
                None => 0,
            },
        {
            proof {
                self.queue.lemma_state_wf();
            }
            let ghost head = next;
            if same_entry(next, self.current) {
                proof {
                    match head {
                        Some((_, qi)) => {
                            assert(passed(a, *db, qi.0 as int));
                        },
                        None => {},
                    }
                }
                next = self.queue.next();
            }
            proof {
                if next is Some && head is Some {
                    assert(next != a.current);
                }
                assert forall|p: int|
                    s <= p < (match next {
                        Some((_, qi)) => qi.0 as int,
                        None => l.len() as int,
                    }) implies passed(a, *db, p) by {
                    match head {
                        Some((_, hi)) => {
                            if p >= hi.0 {
                                assert(p == hi.0);
                            }
                        },
                        None => {},
                    }
                }
            }
            match next {
                Some((id, index)) => {
                    if self.is_faulty(id) || self.should_skip(id, db) {
                        proof {
                            self.queue.lemma_state_wf();
                        }
                        next = self.queue.next();
                    } else {
                        self.state = PlayState::Next;
                        self.start_decode(id, index, db);
                        proof {
                            let k = index.0 as int;
                            assert(!passed(a, *db, k));
                            assert(self@.queue == QueueState { list: l, index: Some(k) });
                            assert(decode_started(a, self@, *db, l[k], k));
                            assert(forall|p: int| s <= p < k ==> passed(a, *db, p));
                            assert(s <= k < l.len() && !passed(a, *db, k) && (forall|p: int|
                                s <= p < k ==> passed(a, *db, p)) && self@.queue == QueueState {
                                list: l,
                                index: Some(k),
                            } && decode_started(a, self@, *db, l[k], k));
                            assert(plays_next(a, self@, *db));
                        }
                        return;
                    }
                },
                None => {
                    break;
                },
            }
        }
        let playing = self.current_track_id();
        let mut pick = db.random_id();
        let mut tries: u8 = 5;
        while tries > 1 && self.rejected(pick, playing, db)
            invariant
                db.wf(),
                pick.0 < db.ids().len(),
            decreases tries,
        {
            tries = tries - 1;
            pick = db.random_id();
        }
        let ghost before = self@;
        proof {
            self.queue.lemma_state_wf();
        }
        self.queue.enqueue(pick);
        let stepped = self.queue.next();
        proof {
            assert(self@.queue.list == l.push(pick));
            assert(l.push(pick)[l.len() as int] == pick);
        }
        let (id, index) = stepped.unwrap();
        self.state = PlayState::Next;
        self.start_decode(id, index, db);
        proof {
            assert(self@.queue == QueueState { list: l.push(pick), index: Some(l.len() as int) });
            assert(decode_started(a, self@, *db, pick, l.len() as int));
        }
    }
}

impl Jukebox {
    /// Brings the queue back to the playing track: its position when it is in the queue,
    /// no position when nothing plays.
    fn sync_queue_index(&mut self)
        requires
            old(self).wf(),
        ensures
            final(self).wf(),
            final(self)@ == with_index(
                old(self)@,
                synced_index(
                    old(self)@.current,
                    old(self)@.queue.list.len() as int,
                    old(self)@.queue.index,
                ),
            ),
    {
        match self.current {
            Some((_, index)) => {
                self.queue.set_index(index.0);
            },
            None => {
                self.queue.reset();
            },
        }
    }

    /// Goes back to the previous track that may be played; when there is none, the queue
    /// goes back to the playing track.
    pub fn play_previous(&mut self, db: &Database)
        requires
            old(self).wf(),
            db.wf(),
        ensures
            final(self).wf(),
            plays_previous(old(self)@, final(self)@, *db),
    {
        let ghost a = self@;
        let ghost l = a.queue.list;
        proof {
            self.queue.lemma_state_wf();
            match a.queue.index {
                Some(i) => {
                    assert(self@.queue.index == Some(i));
                    assert(0 <= i);
                },
                None => {},
            }
        }
        loop
            invariant
                self.wf(),
                db.wf(),
                a == old(self)@,
                a.queue.list == l,
                self@ == with_index(a, self@.queue.index),
                a.queue.index is None ==> self@.queue.index is None,
                a.queue.index matches Some(i) ==> self@.queue.index matches Some(c) && 0 <= c <= i
                    && forall|p: int| c <= p < i ==> !playable(a.faulty, *db, a.skip, #[trigger] l[p]),
            ensures
                self.wf(),
                self@ == with_index(a, self@.queue.index),
                a.queue.index is None ==> self@.queue.index is None,
                a.queue.index matches Some(i) ==> self@.queue.index == Some(0int) && forall|p: int|
                    0 <= p < i ==> !playable(a.faulty, *db, a.skip, #[trigger] l[p]),
            decreases match self@.queue.index {
                Some(c) => c + 1,
                None => 0,
            },
        {
            proof {
                self.queue.lemma_state_wf();
            }
            match self.queue.previous() {
                Some((id, index)) => {
                    if self.is_faulty(id) || self.should_skip(id, db) {
                    } else {
                        self.state = PlayState::Previous;
                        self.start_decode(id, index, db);
                        proof {
                            let i = a.queue.index.unwrap();
                            let k = index.0 as int;
                            assert(0 <= k < i && playable(a.faulty, *db, a.skip, l[k]) && (forall|
                                p: int,
                            |
                                k < p < i ==> !playable(a.faulty, *db, a.skip, #[trigger] l[p]))
                                && self@.state == PlayState::Previous && self@.queue == QueueState {
                                list: l,
                                index: Some(k),
                            } && decode_started(a, self@, *db, l[k], k));
                        }
                        return;
                    }
                },
                None => {
                    break;
                },
            }
        }
        self.sync_queue_index();
    }

    /// Acts on a finished decode: `Ok` when the decoded track is ready to be handed to the
    /// device, or the report of why it failed.
    pub fn decode_finished(&mut self, outcome: Result<(), AudioFileReport>, db: &Database)
        requires
            old(self).wf(),
            db.wf(),
            old(self)@.queue.list.len() < usize::MAX,
        ensures
            final(self).wf(),
            decode_done(old(self)@, final(self)@, outcome, *db),
    {
        match self.decoding {
            None => {},
            Some((id, index)) => {
                self.decoding = None;
                match outcome {
                    Ok(()) => {
                        self.commands.push(PlayerCommand::Clear);
                        self.commands.push(PlayerCommand::AppendDecoded);
                        if self.state != PlayState::Pause {
                            self.state = PlayState::Play;
                            self.commands.push(PlayerCommand::Play);
                        }
                        self.current = Some((id, index));
                        self.events.push(JukeboxEvent::Play(Some(id)));
                    },
                    Err(err) => {
                        self.faulty.insert(id.0);
                        self.events.push(JukeboxEvent::Error(err));
                        match self.state {
                            PlayState::Play | PlayState::Next => {
                                self.play_next(db);
                            },
                            PlayState::Previous => {
                                self.play_previous(db);
                            },
                            PlayState::Track => {
                                self.state = PlayState::Play;
                                self.sync_queue_index();
                            },
                            _ => {},
                        }
                    },
                }
            },
        }
    }

    /// Acts on the state of the audio device: when it is empty and not paused, a playing
    /// jukebox goes on to the next track.
    pub fn idle(&mut self, device_empty: bool, device_paused: bool, db: &Database)
        requires
            old(self).wf(),
            db.wf(),
            old(self)@.queue.list.len() < usize::MAX,
        ensures
            final(self).wf(),
            idle_done(old(self)@, final(self)@, device_empty, device_paused, *db),
    {
        if device_empty && !device_paused {
            match self.state {
                PlayState::Play => {
                    self.play_next(db);
                },
                PlayState::Next | PlayState::Previous | PlayState::Track => {
                    self.state = PlayState::Play;
                },
                _ => {},
            }
        }
    }
}

/// A track without a rating is never skipped, and one rated above the skip rating never
/// is either; a track rated at or below it always is.
pub proof fn law_skip_by_rating(db: Database, skip: Option<AudioRating>, id: TrackId)
    requires
        id.0 < db.ids().len(),
    ensures
        db.entries()[id.0].rating_spec() is None ==> !skips(db, skip, id),
        db.entries()[id.0].rating_spec() matches Some(r) ==> (skips(db, skip, id) <==> stars(r)
            <= star_count(skip)),
        skip is None ==> !skips(db, skip, id),
{
    match db.entries()[id.0].rating_spec() {
        Some(r) => {
            assert(stars(r) >= 1);
        },
        None => {},
    }
}

} // verus!
