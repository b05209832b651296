//! The music library: the table of tracks keyed by id, kept in the order of a sort column,
//! searched by fuzzy matching, with rating changes queued for writing back to the files.
use std::time::Duration;

use vstd::prelude::*;

use std::collections::VecDeque;

use indexmap::IndexMap;
use nucleo_matcher::pattern::Atom;

use crate::audio::{
    AudioFileExtension, AudioFileReport, AudioMetadata, AudioProperties, AudioRating, stars,
};
use crate::formatting::{duration_secs, duration_text, format_duration, whole_seconds};
use crate::text::{chars_of, to_string};
use crate::track::{directed_column, is_descending, DirectedSort, TrackId, TrackSort};

verus! {

/// A track of the library: its tags, its audio properties, and where its file is.
#[derive(Debug)]
pub struct Track {
    metadata: AudioMetadata,
    properties: AudioProperties,
    path: String,
    extension: AudioFileExtension,
    duration_text: String,
}

/// The nanoseconds of a duration beyond its whole seconds, as `Duration::subsec_nanos`
/// gives it.
pub uninterp spec fn fraction_nanos(d: Duration) -> u32;

/// Nanoseconds of a duration beyond its whole seconds.
///
/// Calls `Duration::subsec_nanos`, which the standard library documents as the fractional
/// part of the duration in nanoseconds; the value depends on the duration alone and is
/// named `fraction_nanos`.
#[verifier::external_body]
fn duration_nanos(d: Duration) -> (n: u32)
    ensures
        n == fraction_nanos(d),
{
    d.subsec_nanos()
}

/// Lexicographic comparison of two texts by code point (which is also the order of their
/// UTF-8 bytes): -1, 0 or 1.
pub open spec fn text_order(a: Seq<char>, b: Seq<char>) -> int
    decreases a.len(),
{
    if a.len() == 0 {
        if b.len() == 0 {
            0
        } else {
            -1
        }
    } else if b.len() == 0 {
        1
    } else if a[0] < b[0] {
        -1
    } else if a[0] > b[0] {
        1
    } else {
        text_order(a.drop_first(), b.drop_first())
    }
}

/// Comparison of two numbers: -1, 0 or 1.
pub open spec fn number_order(a: int, b: int) -> int {
    if a < b {
        -1
    } else if a > b {
        1
    } else {
        0
    }
}

/// The rank of a rating in the order of ratings: no rating first, then by stars.
pub open spec fn rating_rank(r: Option<AudioRating>) -> int {
    match r {
        None => 0,
        Some(r) => stars(r),
    }
}

/// How two tracks compare in a sort column: -1, 0 or 1.
pub open spec fn track_order(sort: TrackSort, a: Track, b: Track) -> int {
    match sort {
        TrackSort::Title => text_order(a.title_spec(), b.title_spec()),
        TrackSort::Artist => text_order(a.artist_spec(), b.artist_spec()),
        TrackSort::Album => text_order(a.album_spec(), b.album_spec()),
        TrackSort::Time => {
            let sa = whole_seconds(a.duration_spec());
            let sb = whole_seconds(b.duration_spec());
            if sa != sb {
                number_order(sa as int, sb as int)
            } else {
                number_order(
                    fraction_nanos(a.duration_spec()) as int,
                    fraction_nanos(b.duration_spec()) as int,
                )
            }
        },
        TrackSort::Rating => number_order(rating_rank(a.rating_spec()), rating_rank(b.rating_spec())),
    }
}

/// True when two tracks agree in everything but their ratings.
pub open spec fn same_but_rating(a: Track, b: Track) -> bool {
    &&& b.title_spec() == a.title_spec()
    &&& b.artist_spec() == a.artist_spec()
    &&& b.album_spec() == a.album_spec()
    &&& b.duration_spec() == a.duration_spec()
    &&& b.bit_rate_spec() == a.bit_rate_spec()
    &&& b.bit_depth_spec() == a.bit_depth_spec()
    &&& b.sample_rate_spec() == a.sample_rate_spec()
    &&& b.path_spec() == a.path_spec()
    &&& b.extension_spec() == a.extension_spec()
    &&& b.duration_text_spec() == a.duration_text_spec()
}

/// True when `a` may stand before `b` in a sort column.
pub open spec fn track_le(sort: TrackSort, a: Track, b: Track) -> bool {
    track_order(sort, a, b) <= 0
}

/// How two tracks compare in a sort column read in a direction: reversed, the comparison
/// is that of the swapped tracks.
pub open spec fn directed_order(sort: TrackSort, reverse: bool, a: Track, b: Track) -> int {
    if reverse {
        track_order(sort, b, a)
    } else {
        track_order(sort, a, b)
    }
}

/// True when `a` may stand before `b` in a sort column read in a direction.
pub open spec fn directed_le(sort: TrackSort, reverse: bool, a: Track, b: Track) -> bool {
    directed_order(sort, reverse, a, b) <= 0
}

impl Track {
    /// The title.
    pub closed spec fn title_spec(self) -> Seq<char> {
        self.metadata.title_spec()
    }

    /// The artist.
    pub closed spec fn artist_spec(self) -> Seq<char> {
        self.metadata.artist_spec()
    }

    /// The album.
    pub closed spec fn album_spec(self) -> Seq<char> {
        self.metadata.album_spec()
    }

    /// The rating.
    pub closed spec fn rating_spec(self) -> Option<AudioRating> {
        self.metadata.rating_spec()
    }

    /// The duration.
    pub closed spec fn duration_spec(self) -> Duration {
        self.properties.duration_spec()
    }

    /// The path of the file.
    /// The audio bit rate in kbps.
    pub closed spec fn bit_rate_spec(self) -> u32 {
        self.properties.bit_rate_spec()
    }

    /// The bits per sample, if known.
    pub closed spec fn bit_depth_spec(self) -> Option<u8> {
        self.properties.bit_depth_spec()
    }

    /// The sample rate in kHz, if known.
    pub closed spec fn sample_rate_spec(self) -> Option<u32> {
        self.properties.sample_rate_spec()
    }

    pub closed spec fn path_spec(self) -> Seq<char> {
        self.path@
    }

    /// The kind of file.
    pub closed spec fn extension_spec(self) -> AudioFileExtension {
        self.extension
    }

    /// The duration as it is shown.
    pub closed spec fn duration_text_spec(self) -> Seq<char> {
        self.duration_text@
    }

    /// A track from its tags, audio properties, path and kind of file; the duration is
    /// shown as `mm:ss`.
    pub fn new(
        metadata: AudioMetadata,
        properties: AudioProperties,
        path: String,
        extension: AudioFileExtension,
    ) -> (t: Self)
        ensures
            t.title_spec() == metadata.title_spec(),
            t.artist_spec() == metadata.artist_spec(),
            t.album_spec() == metadata.album_spec(),
            t.rating_spec() == metadata.rating_spec(),
            t.duration_spec() == properties.duration_spec(),
            t.bit_rate_spec() == properties.bit_rate_spec(),
            t.bit_depth_spec() == properties.bit_depth_spec(),
            t.sample_rate_spec() == properties.sample_rate_spec(),
            t.path_spec() == path@,
            t.extension_spec() == extension,
            t.duration_text_spec() == duration_text(
                whole_seconds(properties.duration_spec()) as nat,
            ),
    {
        let duration_text = format_duration(properties.duration());
        Track { metadata, properties, path, extension, duration_text }
    }

    /// The title.
    pub fn title(&self) -> (s: &str)
        ensures
            s@ == self.title_spec(),
    {
        self.metadata.title()
    }

    /// The artist.
    pub fn artist(&self) -> (s: &str)
        ensures
            s@ == self.artist_spec(),
    {
        self.metadata.artist()
    }

    /// The album.
    pub fn album(&self) -> (s: &str)
        ensures
            s@ == self.album_spec(),
    {
        self.metadata.album()
    }

    /// The rating.
    pub fn rating(&self) -> (r: Option<AudioRating>)
        ensures
            r == self.rating_spec(),
    {
        self.metadata.rating()
    }

    /// Changes the rating and nothing else.
    pub fn set_rating(&mut self, rating: Option<AudioRating>)
        ensures
            final(self).rating_spec() == rating,
            final(self).title_spec() == old(self).title_spec(),
            final(self).artist_spec() == old(self).artist_spec(),
            final(self).album_spec() == old(self).album_spec(),
            final(self).duration_spec() == old(self).duration_spec(),
            final(self).bit_rate_spec() == old(self).bit_rate_spec(),
            final(self).bit_depth_spec() == old(self).bit_depth_spec(),
            final(self).sample_rate_spec() == old(self).sample_rate_spec(),
            final(self).path_spec() == old(self).path_spec(),
            final(self).extension_spec() == old(self).extension_spec(),
            final(self).duration_text_spec() == old(self).duration_text_spec(),
    {
        self.metadata.set_rating(rating);
    }

    /// The duration.
    pub fn duration(&self) -> (d: Duration)
        ensures
            d == self.duration_spec(),
    {
        self.properties.duration()
    }

    /// The duration as it is shown, `mm:ss`.
    pub fn duration_display(&self) -> (s: &str)
        ensures
            s@ == self.duration_text_spec(),
    {
        self.duration_text.as_str()
    }

    /// The audio bit rate in kbps.
    pub fn bit_rate(&self) -> (r: u32)
        ensures
            r == self.bit_rate_spec(),
    {
        self.properties.bit_rate_kbps()
    }

    /// The bits per sample, usually 16 or 24, if known.
    pub fn bit_depth(&self) -> (r: Option<u8>)
        ensures
            r == self.bit_depth_spec(),
    {
        self.properties.bit_depth()
    }

    /// The sample rate in kHz, if known.
    pub fn sample_rate(&self) -> (r: Option<u32>)
        ensures
            r == self.sample_rate_spec(),
    {
        self.properties.sample_rate_khz()
    }

    /// The path of the file.
    pub fn path(&self) -> (s: &str)
        ensures
            s@ == self.path_spec(),
    {
        self.path.as_str()
    }

    /// The kind of file.
    pub fn extension(&self) -> (e: AudioFileExtension)
        ensures
            e == self.extension_spec(),
    {
        self.extension
    }

    /// The text of the track in a sort column: a tag, the duration, or the rating's stars.
    pub fn field_str(&self, sort: TrackSort) -> (s: &str)
        ensures
            s@ == match sort {
                TrackSort::Title => self.title_spec(),
                TrackSort::Artist => self.artist_spec(),
                TrackSort::Album => self.album_spec(),
                TrackSort::Time => self.duration_text_spec(),
                TrackSort::Rating => crate::symbols::repeated(
                    '★',
                    crate::symbols::star_count(self.rating_spec()),
                ),
            },
    {
        match sort {
            TrackSort::Title => self.title(),
            TrackSort::Artist => self.artist(),
            TrackSort::Album => self.album(),
            TrackSort::Time => self.duration_display(),
            TrackSort::Rating => crate::symbols::stars_of(self.rating()),
        }
    }
}

/// Compares two texts lexicographically by code point.
pub fn compare_text(a: &str, b: &str) -> (r: i8)
    ensures
        r == text_order(a@, b@),
{
    let x = chars_of(a);
    let y = chars_of(b);
    let mut i: usize = 0;
    proof {
        assert(x@.subrange(0, x@.len() as int) =~= x@);
        assert(y@.subrange(0, y@.len() as int) =~= y@);
    }
    while i < x.len() && i < y.len()
        invariant
            i <= x@.len(),
            i <= y@.len(),
            x@ == a@,
            y@ == b@,
            text_order(a@, b@) == text_order(x@.subrange(i as int, x@.len() as int), y@.subrange(i as int, y@.len() as int)),
        decreases x@.len() - i,
    {
        let ghost xs = x@.subrange(i as int, x@.len() as int);
        let ghost ys = y@.subrange(i as int, y@.len() as int);
        if x[i] < y[i] {
            proof {
                assert(xs[0] == x@[i as int]);
                assert(ys[0] == y@[i as int]);
            }
            return -1;
        }
        if x[i] > y[i] {
            proof {
                assert(xs[0] == x@[i as int]);
                assert(ys[0] == y@[i as int]);
            }
            return 1;
        }
        proof {
            assert(xs[0] == x@[i as int]);
            assert(ys[0] == y@[i as int]);
            assert(xs.drop_first() =~= x@.subrange(i + 1, x@.len() as int));
            assert(ys.drop_first() =~= y@.subrange(i + 1, y@.len() as int));
        }
        i = i + 1;
    }
    let ghost xs = x@.subrange(i as int, x@.len() as int);
    let ghost ys = y@.subrange(i as int, y@.len() as int);
    if i < x.len() {
        1
    } else if i < y.len() {
        -1
    } else {
        0
    }
}

/// Compares two numbers.
fn compare_numbers(a: u64, b: u64) -> (r: i8)
    ensures
        r == number_order(a as int, b as int),
{
    if a < b {
        -1
    } else if a > b {
        1
    } else {
        0
    }
}

/// The rank of a rating: no rating first, then by stars.
fn rating_rank_of(r: Option<AudioRating>) -> (n: u64)
    ensures
        n == rating_rank(r),
{
    match r {
        None => 0,
        Some(r) => r.as_u8() as u64,
    }
}

impl TrackSort {
    /// How two tracks compare in this sort column, as an ordering.
    pub fn cmp(self, t1: &Track, t2: &Track) -> (r: std::cmp::Ordering)
        ensures
            (r == std::cmp::Ordering::Less) == (track_order(self, *t1, *t2) < 0),
            (r == std::cmp::Ordering::Equal) == (track_order(self, *t1, *t2) == 0),
            (r == std::cmp::Ordering::Greater) == (track_order(self, *t1, *t2) > 0),
    {
        let c = self.compare(t1, t2);
        if c < 0 {
            std::cmp::Ordering::Less
        } else if c > 0 {
            std::cmp::Ordering::Greater
        } else {
            std::cmp::Ordering::Equal
        }
    }

    /// How two tracks compare in this sort column read in a direction, as an ordering.
    pub fn order(self, reverse: bool, t1: &Track, t2: &Track) -> (r: std::cmp::Ordering)
        ensures
            (r == std::cmp::Ordering::Less) == (directed_order(self, reverse, *t1, *t2) < 0),
            (r == std::cmp::Ordering::Equal) == (directed_order(self, reverse, *t1, *t2) == 0),
            (r == std::cmp::Ordering::Greater) == (directed_order(self, reverse, *t1, *t2) > 0),
    {
        if reverse {
            self.cmp(t2, t1)
        } else {
            self.cmp(t1, t2)
        }
    }

    /// How two tracks compare in this sort column: -1, 0 or 1.
    pub fn compare(self, t1: &Track, t2: &Track) -> (r: i8)
        ensures
            r == track_order(self, *t1, *t2),
    {
        match self {
            TrackSort::Title => compare_text(t1.title(), t2.title()),
            TrackSort::Artist => compare_text(t1.artist(), t2.artist()),
            TrackSort::Album => compare_text(t1.album(), t2.album()),
            TrackSort::Time => {
                let d1 = t1.duration();
                let d2 = t2.duration();
                let s1 = duration_secs(d1);
                let s2 = duration_secs(d2);
                if s1 != s2 {
                    compare_numbers(s1, s2)
                } else {
                    compare_numbers(duration_nanos(d1) as u64, duration_nanos(d2) as u64)
                }
            },
            TrackSort::Rating => compare_numbers(rating_rank_of(t1.rating()), rating_rank_of(t2.rating())),
        }
    }
}

impl DirectedSort {
    /// How two tracks compare in this directed sort, as an ordering: by its column, the
    /// tracks swapped when descending.
    pub fn cmp(self, t1: &Track, t2: &Track) -> (r: std::cmp::Ordering)
        ensures
            (r == std::cmp::Ordering::Less) == (directed_order(directed_column(self), is_descending(self), *t1, *t2) < 0),
            (r == std::cmp::Ordering::Equal) == (directed_order(directed_column(self), is_descending(self), *t1, *t2) == 0),
            (r == std::cmp::Ordering::Greater) == (directed_order(directed_column(self), is_descending(self), *t1, *t2) > 0),
    {
        self.column().order(self.descending(), t1, t2)
    }
}

/// The time column orders tracks by how long they play: a track with fewer whole seconds
/// comes first whatever the fractions, and between tracks of the same whole seconds the
/// one with the smaller fraction comes first; only equal durations compare equal.
pub proof fn law_time_orders_by_duration(a: Track, b: Track)
    ensures
        whole_seconds(a.duration_spec()) < whole_seconds(b.duration_spec()) ==> track_order(
            TrackSort::Time,
            a,
            b,
        ) == -1,
        whole_seconds(a.duration_spec()) > whole_seconds(b.duration_spec()) ==> track_order(
            TrackSort::Time,
            a,
            b,
        ) == 1,
        whole_seconds(a.duration_spec()) == whole_seconds(b.duration_spec()) && fraction_nanos(
            a.duration_spec(),
        ) < fraction_nanos(b.duration_spec()) ==> track_order(TrackSort::Time, a, b) == -1,
        track_order(TrackSort::Time, a, b) == 0 <==> (whole_seconds(a.duration_spec())
            == whole_seconds(b.duration_spec()) && fraction_nanos(a.duration_spec())
            == fraction_nanos(b.duration_spec())),
{
}

/// Text order is antisymmetric: swapping the texts flips the result.
pub proof fn lemma_text_order_flip(a: Seq<char>, b: Seq<char>)
    ensures
        text_order(a, b) == -text_order(b, a),
        text_order(a, b) == 0 <==> a == b,
    decreases a.len(),
{
    if a.len() > 0 && b.len() > 0 && a[0] == b[0] {
        lemma_text_order_flip(a.drop_first(), b.drop_first());
        if a.drop_first() == b.drop_first() {
            assert(a =~= seq![a[0]] + a.drop_first());
            assert(b =~= seq![b[0]] + b.drop_first());
        }
    }
    if a.len() > 0 && b.len() > 0 && a[0] != b[0] {
        assert(a != b);
    }
    if a.len() == 0 && b.len() > 0 {
        assert(a != b);
    }
    if a.len() > 0 && b.len() == 0 {
        assert(a != b);
    }
    if a.len() == 0 && b.len() == 0 {
        assert(a =~= b);
    }
}

/// Text order is transitive.
pub proof fn lemma_text_order_transitive(a: Seq<char>, b: Seq<char>, c: Seq<char>)
    requires
        text_order(a, b) <= 0,
        text_order(b, c) <= 0,
    ensures
        text_order(a, c) <= 0,
    decreases a.len(),
{
    if a.len() > 0 && b.len() > 0 && c.len() > 0 && a[0] == b[0] && b[0] == c[0] {
        lemma_text_order_transitive(a.drop_first(), b.drop_first(), c.drop_first());
    }
}

/// Each sort column orders the tracks totally: any two compare one way or the other, a
/// comparison flips when the tracks swap, and the order is transitive.
pub proof fn law_sort_order_total(sort: TrackSort, a: Track, b: Track, c: Track)
    ensures
        track_le(sort, a, b) || track_le(sort, b, a),
        track_order(sort, a, b) == -track_order(sort, b, a),
        track_le(sort, a, b) && track_le(sort, b, c) ==> track_le(sort, a, c),
{
    lemma_text_order_flip(a.title_spec(), b.title_spec());
    lemma_text_order_flip(a.artist_spec(), b.artist_spec());
    lemma_text_order_flip(a.album_spec(), b.album_spec());
    match sort {
        TrackSort::Title => {
            if track_le(sort, a, b) && track_le(sort, b, c) {
                lemma_text_order_transitive(a.title_spec(), b.title_spec(), c.title_spec());
            }
        },
        TrackSort::Artist => {
            if track_le(sort, a, b) && track_le(sort, b, c) {
                lemma_text_order_transitive(a.artist_spec(), b.artist_spec(), c.artist_spec());
            }
        },
        TrackSort::Album => {
            if track_le(sort, a, b) && track_le(sort, b, c) {
                lemma_text_order_transitive(a.album_spec(), b.album_spec(), c.album_spec());
            }
        },
        _ => {},
    }
}

#[verifier::external_type_specification]
#[verifier::external_body]
#[verifier::reject_recursive_types(K)]
#[verifier::reject_recursive_types(V)]
#[verifier::reject_recursive_types(S)]
pub struct ExIndexMap<K, V, S>(IndexMap<K, V, S>);

#[verifier::external_type_specification]
#[verifier::external_body]
pub struct ExFuzzyMatcher(nucleo_matcher::Matcher);

#[verifier::external_type_specification]
#[verifier::external_body]
pub struct ExAtom(Atom);

/// The table of tracks by id, in an order of its own.
pub type TrackTable = IndexMap<u64, Track>;

/// The ids of a track table, in the table's order.
pub uninterp spec fn table_ids(m: IndexMap<u64, Track>) -> Seq<u64>;

/// The tracks of a track table, by id.
pub uninterp spec fn table_entries(m: IndexMap<u64, Track>) -> Map<u64, Track>;

/// What an index map always is: no id twice, and a track for exactly the ids it lists.
pub open spec fn table_consistent(m: IndexMap<u64, Track>) -> bool {
    &&& table_ids(m).no_duplicates()
    &&& forall|k: u64| #[trigger] table_entries(m).dom().contains(k) <==> table_ids(m).contains(k)
}

/// The track at position `i` of a table.
pub open spec fn track_at(m: IndexMap<u64, Track>, i: int) -> Track {
    table_entries(m)[table_ids(m)[i]]
}

/// True when the tracks of a table stand in the order of a sort column read in a
/// direction.
pub open spec fn table_sorted(m: IndexMap<u64, Track>, sort: TrackSort, reverse: bool) -> bool {
    forall|i: int, j: int|
        0 <= i < j < table_ids(m).len() ==> directed_le(
            sort,
            reverse,
            #[trigger] track_at(m, i),
            #[trigger] track_at(m, j),
        )
}

/// `s` with `id` inserted at position `p`.
pub open spec fn inserted_at(s: Seq<u64>, p: usize, id: u64) -> Seq<u64> {
    s.insert(p as int, id)
}

/// An empty track table.
///
/// Calls `IndexMap::new`, which creates an empty map.
#[verifier::external_body]
fn table_new() -> (table: TrackTable)
    ensures
        table_ids(table) == Seq::<u64>::empty(),
        table_entries(table).dom() == Set::<u64>::empty(),
{
    IndexMap::new()
}

/// The number of tracks in a table.
///
/// Calls `IndexMap::len`, the number of key-value pairs in the map.
#[verifier::external_body]
fn table_len(m: &IndexMap<u64, Track>) -> (n: usize)
    ensures
        n == table_ids(*m).len(),
{
    m.len()
}

/// The track with an id.
///
/// Calls `IndexMap::get`, which returns the value stored for the key, if any.
#[verifier::external_body]
fn table_get(m: &IndexMap<u64, Track>, id: u64) -> (r: Option<&Track>)
    ensures
        match r {
            Some(t) => table_entries(*m).dom().contains(id) && *t == table_entries(*m)[id],
            None => !table_entries(*m).dom().contains(id),
        },
{
    m.get(&id)
}

/// The track with an id, to change in place.
///
/// Calls `IndexMap::get_mut`, which returns a mutable reference to the value stored for the
/// key, if any; the keys and their order stay as they are.
#[verifier::external_body]
fn table_get_mut(m: &mut IndexMap<u64, Track>, id: u64) -> (r: Option<&mut Track>)
    ensures
        match r {
            Some(t) => {
                &&& table_entries(*old(m)).dom().contains(id)
                &&& *t == table_entries(*old(m))[id]
                &&& table_ids(*final(m)) == table_ids(*old(m))
                &&& table_entries(*final(m)) == table_entries(*old(m)).insert(id, *final(t))
            },
            None => {
                &&& !table_entries(*old(m)).dom().contains(id)
                &&& *final(m) == *old(m)
            },
        },
{
    m.get_mut(&id)
}

/// The position of an id in the table's order.
///
/// Calls `IndexMap::get_index_of`, which returns the index of the key, if it is present.
#[verifier::external_body]
fn table_index_of(m: &IndexMap<u64, Track>, id: u64) -> (r: Option<usize>)
    ensures
        match r {
            Some(i) => i < table_ids(*m).len() && table_ids(*m)[i as int] == id,
            None => !table_ids(*m).contains(id),
        },
{
    m.get_index_of(&id)
}

/// The id at a position of the table's order.
///
/// Calls `IndexMap::get_index`, which returns the key-value pair at the index, if the index
/// is below the length; the key is kept.
#[verifier::external_body]
fn table_id_at(m: &IndexMap<u64, Track>, i: usize) -> (r: Option<u64>)
    ensures
        r == (if i < table_ids(*m).len() {
            Some(table_ids(*m)[i as int])
        } else {
            None
        }),
{
    m.get_index(i).map(|(k, _)| *k)
}

/// The ids of the table, in its order.
///
/// Calls `IndexMap::keys`, which iterates the keys in the map's order, and collects them.
#[verifier::external_body]
fn table_keys(m: &IndexMap<u64, Track>) -> (v: Vec<u64>)
    ensures
        v@ == table_ids(*m),
{
    m.keys().copied().collect()
}

/// Inserts a track under a new id at its place in the order of a sort column read in a
/// direction.
///
/// Calls `IndexMap::insert_sorted_by` with a comparison by `TrackSort::order`. The crate
/// documents it as a binary search for the position followed by an insertion there: the new
/// key goes in at one position and the other keys keep their order; when the keys were
/// sorted by the comparison they still are. The position is returned. Where the table was
/// not sorted, the position is left open.
#[verifier::external_body]
fn table_insert_sorted(
    m: &mut IndexMap<u64, Track>,
    id: u64,
    track: Track,
    sort: TrackSort,
    reverse: bool,
) -> (p: usize)
    requires
        !table_ids(*old(m)).contains(id),
    ensures
        p <= table_ids(*old(m)).len(),
        table_ids(*final(m)) == inserted_at(table_ids(*old(m)), p, id),
        table_entries(*final(m)) == table_entries(*old(m)).insert(id, track),
        table_sorted(*old(m), sort, reverse) ==> table_sorted(*final(m), sort, reverse),
{
    m.insert_sorted_by(id, track, |_, a, _, b| sort.order(reverse, a, b)).0
}

/// Sorts the table by a sort column read in a direction.
///
/// Calls `IndexMap::sort_unstable_by` with a comparison by `TrackSort::order`, which
/// reorders the key-value pairs so that they are sorted by the comparison; the pairs
/// themselves do not change.
#[verifier::external_body]
fn table_sort(m: &mut IndexMap<u64, Track>, sort: TrackSort, reverse: bool)
    ensures
        table_ids(*final(m)).to_multiset() == table_ids(*old(m)).to_multiset(),
        table_entries(*final(m)) == table_entries(*old(m)),
        table_sorted(*final(m), sort, reverse),
{
    m.sort_unstable_by(|_, a, _, b| sort.order(reverse, a, b))
}

/// The fuzzy-match pattern made from a search text.
pub uninterp spec fn fuzzy_atom(needle: Seq<char>) -> Atom;

/// The score of a text against a fuzzy-match pattern, if the text matches.
pub uninterp spec fn fuzzy_score(atom: Atom, haystack: Seq<char>) -> Option<u16>;

/// The fuzzy-match pattern for a search text.
///
/// Calls `Atom::new` with smart case matching, smart normalization, fuzzy matching and
/// escaped whitespace; the pattern depends on the text alone and is named `fuzzy_atom`.
#[verifier::external_body]
fn create_atom(needle: &str) -> (a: Atom)
    ensures
        a == fuzzy_atom(needle@),
{
    Atom::new(
        needle,
        nucleo_matcher::pattern::CaseMatching::Smart,
        nucleo_matcher::pattern::Normalization::Smart,
        nucleo_matcher::pattern::AtomKind::Fuzzy,
        true,
    )
}

/// A matcher with the default configuration.
///
/// Calls `nucleo_matcher::Matcher::new` with `Config::DEFAULT`.
#[verifier::external_body]
fn create_fuzzy_matcher() -> (m: nucleo_matcher::Matcher) {
    nucleo_matcher::Matcher::new(nucleo_matcher::Config::DEFAULT)
}

/// The score of a text against a pattern.
///
/// Calls `Atom::score` on the text; the matcher and the buffer are scratch space whose
/// contents do not change the result, which depends on the pattern and the text alone and
/// is named `fuzzy_score`.
#[verifier::external_body]
fn atom_score(
    atom: &Atom,
    haystack: &str,
    matcher: &mut nucleo_matcher::Matcher,
    buffer: &mut Vec<char>,
) -> (r: Option<u16>)
    ensures
        r == fuzzy_score(*atom, haystack@),
{
    atom.score(nucleo_matcher::Utf32Str::new(haystack, buffer), matcher)
}

/// A random id below `n`.
///
/// Calls `fastrand::u64` with the range `0..n`; its documentation and source give a value
/// in the range, and panic only on an empty range, which `requires` rules out.
#[verifier::external_body]
fn random_below(n: u64) -> (r: u64)
    requires
        n > 0,
    ensures
        r < n,
{
    fastrand::u64(0..n)
}

/// Fuzzy matching of search text against tracks.
pub struct SearchMatcher {
    matcher: nucleo_matcher::Matcher,
    atom: Atom,
    buffer: Vec<char>,
}

impl SearchMatcher {
    /// The pattern in use.
    pub closed spec fn atom_spec(&self) -> Atom {
        self.atom
    }

    /// A matcher for the empty search text.
    pub fn new() -> (m: Self)
        ensures
            m.atom_spec() == fuzzy_atom(Seq::<char>::empty()),
    {
        proof {
            reveal_strlit("");
            assert(""@ =~= Seq::<char>::empty());
        }
        SearchMatcher { matcher: create_fuzzy_matcher(), atom: create_atom(""), buffer: Vec::new() }
    }

    /// Matches against a new search text from now on.
    pub fn update(&mut self, needle: &str)
        ensures
            final(self).atom_spec() == fuzzy_atom(needle@),
    {
        self.atom = create_atom(needle);
    }

    /// The score of a text, if it matches.
    pub fn score(&mut self, haystack: &str) -> (r: Option<u16>)
        ensures
            r == fuzzy_score(old(self).atom_spec(), haystack@),
            final(self).atom_spec() == old(self).atom_spec(),
    {
        atom_score(&self.atom, haystack, &mut self.matcher, &mut self.buffer)
    }
}

/// What the library reports of its work.
pub enum DatabaseEvent {
    Rating(TrackId),
    Error(AudioFileReport),
}

/// A rating to write into a track's file.
pub struct RatingWrite {
    pub id: TrackId,
    pub rating: Option<AudioRating>,
    pub path: String,
    pub extension: AudioFileExtension,
}

/// The text a track is searched by: artist, album and title, and the path if asked for,
/// separated by spaces.
pub open spec fn search_text(t: Track, include_path: bool) -> Seq<char> {
    let base = t.artist_spec() + " "@ + t.album_spec() + " "@ + t.title_spec();
    if include_path {
        base + " "@ + t.path_spec()
    } else {
        base
    }
}

/// The text a track is searched by holds its artist, album and title in that order, a
/// space between each, and then a space and its path when the path is asked for; so the
/// album stands right after the artist and a space.
pub proof fn law_search_text_holds_fields(t: Track)
    ensures
        search_text(t, false) == t.artist_spec() + seq![' '] + t.album_spec() + seq![' '] + t.title_spec(),
        search_text(t, true) == search_text(t, false) + seq![' '] + t.path_spec(),
        search_text(t, false).len() == t.artist_spec().len() + t.album_spec().len() + t.title_spec().len() + 2,
        search_text(t, false).subrange(
            t.artist_spec().len() + 1int,
            t.artist_spec().len() + 1int + t.album_spec().len(),
        ) == t.album_spec(),
{
    reveal_strlit(" ");
    assert(" "@ =~= seq![' ']);
    let a = t.artist_spec();
    let b = t.album_spec();
    let c = t.title_spec();
    let s = a + seq![' '] + b + seq![' '] + c;
    assert(search_text(t, false) =~= s);
    assert(s.subrange(a.len() + 1int, a.len() + 1int + b.len()) =~= b);
    assert(search_text(t, true) =~= search_text(t, false) + seq![' '] + t.path_spec());
}

/// The matches among the tracks `ids` of `entries`, in order, with their scores.
pub open spec fn search_results(
    ids: Seq<u64>,
    entries: Map<u64, Track>,
    atom: Atom,
    include_path: bool,
) -> Seq<(TrackId, u16)>
    decreases ids.len(),
{
    if ids.len() == 0 {
        Seq::empty()
    } else {
        let before = search_results(ids.drop_last(), entries, atom, include_path);
        match fuzzy_score(atom, search_text(entries[ids.last()], include_path)) {
            Some(score) => before.push((TrackId(ids.last()), score)),
            None => before,
        }
    }
}

/// The music library.
pub struct Database {
    music_dir: String,
    tracks: IndexMap<u64, Track>,
    sort: TrackSort,
    reverse: bool,
    matcher: SearchMatcher,
    write_queue: VecDeque<(TrackId, Option<AudioRating>)>,
}

impl Database {
    /// What the library always is: the ids are `0, 1, ...` up to the number of tracks, each
    /// once, in some order.
    pub closed spec fn wf(&self) -> bool {
        &&& table_consistent(self.tracks)
        &&& forall|k: u64| #[trigger] table_entries(self.tracks).dom().contains(k) <==> k < table_ids(self.tracks).len()
    }

    /// The ids of the tracks, in the library's order.
    pub closed spec fn ids(&self) -> Seq<u64> {
        table_ids(self.tracks)
    }

    /// The tracks by id.
    pub closed spec fn entries(&self) -> Map<u64, Track> {
        table_entries(self.tracks)
    }

    /// The sort column in use.
    pub closed spec fn sort_spec(&self) -> TrackSort {
        self.sort
    }

    /// True when the sort column is read backwards.
    pub closed spec fn reverse_spec(&self) -> bool {
        self.reverse
    }

    /// The folder the music is read from.
    pub closed spec fn music_dir_spec(&self) -> Seq<char> {
        self.music_dir@
    }

    /// The ratings waiting to be written, oldest first.
    pub closed spec fn pending_writes(&self) -> Seq<(TrackId, Option<AudioRating>)> {
        self.write_queue@
    }

    /// True when the tracks stand in the order of the sort column in use, read in the
    /// direction in use.
    pub closed spec fn is_sorted(&self) -> bool {
        table_sorted(self.tracks, self.sort, self.reverse)
    }

    /// The pattern of the last search.
    pub closed spec fn atom_spec(&self) -> Atom {
        self.matcher.atom_spec()
    }

    /// The ids are those below the number of tracks, each at some position.
    pub proof fn lemma_ids(&self)
        requires
            self.wf(),
        ensures
            forall|i: int| 0 <= i < self.ids().len() ==> #[trigger] self.ids()[i] < self.ids().len(),
            forall|k: u64| k < self.ids().len() ==> #[trigger] self.ids().contains(k),
    {
        assert forall|i: int| 0 <= i < self.ids().len() implies #[trigger] self.ids()[i]
            < self.ids().len() by {
            assert(self.ids().contains(self.ids()[i]));
            assert(table_entries(self.tracks).dom().contains(self.ids()[i]));
        }
        assert forall|k: u64| k < self.ids().len() implies #[trigger] self.ids().contains(k) by {
            assert(table_entries(self.tracks).dom().contains(k));
        }
    }

    /// An empty library for the music in a folder, sorted by album.
    pub fn new(music_dir: String) -> (db: Self)
        ensures
            db.wf(),
            db.ids() == Seq::<u64>::empty(),
            db.sort_spec() == TrackSort::Album,
            !db.reverse_spec(),
            db.music_dir_spec() == music_dir@,
            db.pending_writes() == Seq::<(TrackId, Option<AudioRating>)>::empty(),
            db.is_sorted(),
    {
        Database {
            music_dir,
            tracks: table_new(),
            sort: TrackSort::default_sort(),
            reverse: false,
            matcher: SearchMatcher::new(),
            write_queue: VecDeque::new(),
        }
    }

    /// The folder the music is read from.
    pub fn music_dir(&self) -> (s: &str)
        ensures
            s@ == self.music_dir_spec(),
    {
        self.music_dir.as_str()
    }

    /// True when there is no track.
    pub fn is_empty(&self) -> (b: bool)
        ensures
            b == (self.ids().len() == 0),
    {
        table_len(&self.tracks) == 0
    }

    /// The number of tracks.
    pub fn len(&self) -> (n: usize)
        ensures
            n == self.ids().len(),
    {
        table_len(&self.tracks)
    }

    /// The track with an id.
    pub fn get(&self, id: TrackId) -> (r: Option<&Track>)
        requires
            self.wf(),
        ensures
            match r {
                Some(t) => id.0 < self.ids().len() && *t == self.entries()[id.0],
                None => id.0 >= self.ids().len(),
            },
    {
        table_get(&self.tracks, id.0)
    }

    /// The id at a position of the library's order.
    pub fn get_id_from_index(&self, i: usize) -> (r: Option<TrackId>)
        ensures
            r == (if i < self.ids().len() {
                Some(TrackId(self.ids()[i as int]))
            } else {
                None
            }),
    {
        match table_id_at(&self.tracks, i) {
            Some(k) => Some(TrackId(k)),
            None => None,
        }
    }

    /// The position of an id in the library's order.
    pub fn get_index_from_id(&self, id: TrackId) -> (r: Option<usize>)
        requires
            self.wf(),
        ensures
            match r {
                Some(i) => i < self.ids().len() && self.ids()[i as int] == id.0,
                None => id.0 >= self.ids().len(),
            },
    {
        let r = table_index_of(&self.tracks, id.0);
        proof {
            if r is None {
                if id.0 < table_ids(self.tracks).len() {
                    assert(table_entries(self.tracks).dom().contains(id.0));
                }
            }
        }
        r
    }

    /// The ids of the tracks, in the library's order.
    pub fn iter(&self) -> (v: Vec<TrackId>)
        ensures
            v@.len() == self.ids().len(),
            forall|i: int| 0 <= i < v@.len() ==> #[trigger] v@[i] == TrackId(self.ids()[i]),
    {
        let keys = table_keys(&self.tracks);
        let mut v: Vec<TrackId> = Vec::new();
        let mut i: usize = 0;
        while i < keys.len()
            invariant
                i <= keys@.len(),
                keys@ == table_ids(self.tracks),
                v@.len() == i,
                forall|j: int| 0 <= j < i ==> #[trigger] v@[j] == TrackId(keys@[j]),
            decreases keys@.len() - i,
        {
            v.push(TrackId(keys[i]));
            i = i + 1;
        }
        v
    }

    /// The sort column in use.
    pub fn get_sort(&self) -> (s: TrackSort)
        ensures
            s == self.sort_spec(),
    {
        self.sort
    }

    /// Sorts the tracks by a sort column, first to last, and keeps to it from now on.
    pub fn sort(&mut self, sort: TrackSort)
        requires
            old(self).wf(),
        ensures
            final(self).wf(),
            final(self).sort_spec() == sort,
            !final(self).reverse_spec(),
            final(self).is_sorted(),
            final(self).ids().to_multiset() == old(self).ids().to_multiset(),
            final(self).entries() == old(self).entries(),
            final(self).pending_writes() == old(self).pending_writes(),
            final(self).music_dir_spec() == old(self).music_dir_spec(),
    {
        self.sort_with(sort, false)
    }

    /// Sorts the tracks by a sort column, backwards when `reverse` is set, and keeps to it
    /// from now on.
    pub fn sort_with(&mut self, sort: TrackSort, reverse: bool)
        requires
            old(self).wf(),
        ensures
            final(self).wf(),
            final(self).sort_spec() == sort,
            final(self).reverse_spec() == reverse,
            final(self).is_sorted(),
            final(self).ids().to_multiset() == old(self).ids().to_multiset(),
            final(self).entries() == old(self).entries(),
            final(self).pending_writes() == old(self).pending_writes(),
            final(self).music_dir_spec() == old(self).music_dir_spec(),
    {
        let ghost before = table_ids(self.tracks);
        table_sort(&mut self.tracks, sort, reverse);
        self.sort = sort;
        self.reverse = reverse;
        proof {
            let after = table_ids(self.tracks);
            before.to_multiset_ensures();
            after.to_multiset_ensures();
            before.lemma_multiset_has_no_duplicates();
            after.lemma_multiset_has_no_duplicates_conv();
            assert forall|k: u64| #[trigger] table_entries(self.tracks).dom().contains(k) <==> after.contains(k) by {
                lemma_same_multiset_contains(before, after, k);
            }
        }
    }
}

impl Database {
    /// Adds a track under the next free id, at its place in the order of the sort column in
    /// use, and returns the id.
    pub fn add_track(&mut self, track: Track) -> (id: TrackId)
        requires
            old(self).wf(),
            old(self).ids().len() < u64::MAX,
        ensures
            final(self).wf(),
            id.0 == old(self).ids().len(),
            exists|p: int|
                0 <= p <= old(self).ids().len() && final(self).ids() == old(self).ids().insert(
                    p,
                    id.0,
                ),
            final(self).entries() == old(self).entries().insert(id.0, track),
            old(self).is_sorted() ==> final(self).is_sorted(),
            final(self).sort_spec() == old(self).sort_spec(),
            final(self).reverse_spec() == old(self).reverse_spec(),
            final(self).pending_writes() == old(self).pending_writes(),
            final(self).music_dir_spec() == old(self).music_dir_spec(),
    {
        let n = table_len(&self.tracks) as u64;
        let ghost before = table_ids(self.tracks);
        proof {
            assert(!table_entries(self.tracks).dom().contains(n));
        }
        let p = table_insert_sorted(&mut self.tracks, n, track, self.sort, self.reverse);
        proof {
            let after = table_ids(self.tracks);
            lemma_insert_fresh(before, p as int, n);
            assert forall|k: u64| #[trigger] table_entries(self.tracks).dom().contains(k) <==> after.contains(k) by {
                assert(after.contains(k) <==> (k == n || before.contains(k)));
            }
            assert forall|k: u64| #[trigger] table_entries(self.tracks).dom().contains(k) <==> k < after.len() by {
                assert(after.contains(k) <==> (k == n || before.contains(k)));
            }
            assert(after == before.insert(p as int, n));
        }
        TrackId(n)
    }

    /// The track with an id, to change in place; the ids and their order stay.
    pub fn get_mut(&mut self, id: TrackId) -> (r: Option<&mut Track>)
        requires
            old(self).wf(),
        ensures
            match r {
                Some(t) => {
                    &&& id.0 < old(self).ids().len()
                    &&& *t == old(self).entries()[id.0]
                    &&& final(self).ids() == old(self).ids()
                    &&& final(self).entries() == old(self).entries().insert(id.0, *final(t))
                    &&& final(self).sort_spec() == old(self).sort_spec()
                    &&& final(self).reverse_spec() == old(self).reverse_spec()
                    &&& final(self).pending_writes() == old(self).pending_writes()
                },
                None => {
                    &&& id.0 >= old(self).ids().len()
                    &&& final(self).ids() == old(self).ids()
                    &&& final(self).entries() == old(self).entries()
                    &&& final(self).sort_spec() == old(self).sort_spec()
                    &&& final(self).reverse_spec() == old(self).reverse_spec()
                    &&& final(self).pending_writes() == old(self).pending_writes()
                },
            },
    {
        table_get_mut(&mut self.tracks, id.0)
    }

    /// Sets the rating of a track that was written to its file; reports the change, or
    /// nothing when there is no such track.
    pub fn apply_rating(&mut self, id: TrackId, rating: Option<AudioRating>) -> (e: Option<DatabaseEvent>)
        requires
            old(self).wf(),
        ensures
            final(self).wf(),
            final(self).ids() == old(self).ids(),
            final(self).sort_spec() == old(self).sort_spec(),
            final(self).reverse_spec() == old(self).reverse_spec(),
            final(self).pending_writes() == old(self).pending_writes(),
            if id.0 < old(self).ids().len() {
                &&& e matches Some(DatabaseEvent::Rating(i)) && i == id
                &&& final(self).entries().dom() == old(self).entries().dom()
                &&& final(self).entries()[id.0].rating_spec() == rating
                &&& same_but_rating(old(self).entries()[id.0], final(self).entries()[id.0])
                &&& forall|k: u64| k != id.0 ==> #[trigger] final(self).entries()[k] == old(self).entries()[k]
            } else {
                &&& e is None
                &&& final(self).entries() == old(self).entries()
            },
    {
        let ghost before = table_entries(self.tracks);
        match table_get_mut(&mut self.tracks, id.0) {
            Some(track) => {
                track.set_rating(rating);
                proof {
                    assert(table_entries(self.tracks).dom() =~= before.dom());
                }
                Some(DatabaseEvent::Rating(id))
            },
            None => None,
        }
    }

    /// Queues a rating to be written to a track's file.
    pub fn write_rating(&mut self, id: TrackId, rating: Option<AudioRating>)
        ensures
            final(self).pending_writes() == old(self).pending_writes().push((id, rating)),
            final(self).ids() == old(self).ids(),
            final(self).entries() == old(self).entries(),
            final(self).sort_spec() == old(self).sort_spec(),
            final(self).reverse_spec() == old(self).reverse_spec(),
            final(self).is_sorted() == old(self).is_sorted(),
            final(self).wf() == old(self).wf(),
    {
        self.write_queue.push_back((id, rating));
    }

    /// Takes the oldest queued rating and gives what writing it takes, unless the track is
    /// gone or already has that rating.
    pub fn next_write(&mut self) -> (w: Option<RatingWrite>)
        requires
            old(self).wf(),
        ensures
            final(self).wf(),
            final(self).ids() == old(self).ids(),
            final(self).entries() == old(self).entries(),
            final(self).sort_spec() == old(self).sort_spec(),
            final(self).reverse_spec() == old(self).reverse_spec(),
            old(self).pending_writes().len() == 0 ==> w is None && final(self).pending_writes()
                == old(self).pending_writes(),
            old(self).pending_writes().len() > 0 ==> {
                let (id, rating) = old(self).pending_writes()[0];
                &&& final(self).pending_writes() == old(self).pending_writes().drop_first()
                &&& if id.0 < old(self).ids().len() && old(self).entries()[id.0].rating_spec()
                    != rating {
                    &&& w is Some
                    &&& w.unwrap().id == id
                    &&& w.unwrap().rating == rating
                    &&& w.unwrap().path@ == old(self).entries()[id.0].path_spec()
                    &&& w.unwrap().extension == old(self).entries()[id.0].extension_spec()
                } else {
                    w is None
                }
            },
    {
        let job = self.write_queue.pop_front();
        match job {
            None => None,
            Some((id, rating)) => {
                match table_get(&self.tracks, id.0) {
                    None => None,
                    Some(track) => {
                        if track.rating() == rating {
                            None
                        } else {
                            Some(
                                RatingWrite {
                                    id,
                                    rating,
                                    path: to_string(track.path()),
                                    extension: track.extension(),
                                },
                            )
                        }
                    },
                }
            },
        }
    }

    /// A random id of a track.
    pub fn random_id(&self) -> (id: TrackId)
        requires
            self.wf(),
            self.ids().len() > 0,
        ensures
            id.0 < self.ids().len(),
            self.entries().dom().contains(id.0),
    {
        let n = table_len(&self.tracks) as u64;
        TrackId(random_below(n))
    }

    /// The tracks that match a search text, in the library's order, with their scores. The
    /// text searched is the artist, album and title of each track, and its path if asked
    /// for.
    pub fn search(&mut self, keywords: &str, include_path: bool) -> (r: Vec<(TrackId, u16)>)
        requires
            old(self).wf(),
        ensures
            final(self).wf(),
            final(self).ids() == old(self).ids(),
            final(self).entries() == old(self).entries(),
            final(self).sort_spec() == old(self).sort_spec(),
            final(self).reverse_spec() == old(self).reverse_spec(),
            final(self).pending_writes() == old(self).pending_writes(),
            final(self).atom_spec() == fuzzy_atom(keywords@),
            r@ == search_results(
                old(self).ids(),
                old(self).entries(),
                fuzzy_atom(keywords@),
                include_path,
            ),
    {
        self.matcher.update(keywords);
        let ghost tracks0 = self.tracks;
        let ghost queue0 = self.write_queue@;
        let ghost sort0 = self.sort;
        let ghost reverse0 = self.reverse;
        let keys = table_keys(&self.tracks);
        let mut r: Vec<(TrackId, u16)> = Vec::new();
        let mut i: usize = 0;
        while i < keys.len()
            invariant
                self.wf(),
                self.tracks == tracks0,
                self.write_queue@ == queue0,
                self.sort == sort0,
                self.reverse == reverse0,
                i <= keys@.len(),
                keys@ == table_ids(self.tracks),
                self.matcher.atom_spec() == fuzzy_atom(keywords@),
                r@ == search_results(
                    keys@.subrange(0, i as int),
                    table_entries(self.tracks),
                    fuzzy_atom(keywords@),
                    include_path,
                ),
            decreases keys@.len() - i,
        {
            let id = keys[i];
            proof {
                assert(keys@.contains(id));
                assert(table_entries(self.tracks).dom().contains(id));
            }
            let track = table_get(&self.tracks, id).unwrap();
            let text = search_text_of(track, include_path);
            let score = self.matcher.score(text.as_str());
            proof {
                let prefix = keys@.subrange(0, i + 1);
                assert(prefix.drop_last() =~= keys@.subrange(0, i as int));
                assert(prefix.last() == id);
            }
            match score {
                Some(sc) => r.push((TrackId(id), sc)),
                None => {},
            }
            i = i + 1;
        }
        proof {
            assert(keys@.subrange(0, keys@.len() as int) =~= keys@);
        }
        r
    }
}

/// The text a track is searched by.
fn search_text_of(t: &Track, include_path: bool) -> (s: String)
    ensures
        s@ == search_text(*t, include_path),
{
    let mut s = String::new();
    crate::text::push_str(&mut s, t.artist());
    crate::text::push_str(&mut s, " ");
    crate::text::push_str(&mut s, t.album());
    crate::text::push_str(&mut s, " ");
    crate::text::push_str(&mut s, t.title());
    if include_path {
        crate::text::push_str(&mut s, " ");
        crate::text::push_str(&mut s, t.path());
    }
    proof {
        assert(s@ =~= search_text(*t, include_path));
    }
    s
}

/// Inserting an id that is not there keeps the ids distinct and adds just that id.
proof fn lemma_insert_fresh(s: Seq<u64>, p: int, x: u64)
    requires
        s.no_duplicates(),
        !s.contains(x),
        0 <= p <= s.len(),
    ensures
        s.insert(p, x).no_duplicates(),
        forall|k: u64| #[trigger] s.insert(p, x).contains(k) <==> (k == x || s.contains(k)),
        s.insert(p, x).len() == s.len() + 1,
{
    let t = s.insert(p, x);
    assert forall|k: u64| #[trigger] t.contains(k) <==> (k == x || s.contains(k)) by {
        if t.contains(k) {
            let i = choose|i: int| 0 <= i < t.len() && t[i] == k;
            if i < p {
                assert(s[i] == k);
            } else if i > p {
                assert(s[i - 1] == k);
            }
        }
        if k == x {
            assert(t[p] == x);
        }
        if s.contains(k) {
            let i = choose|i: int| 0 <= i < s.len() && s[i] == k;
            if i < p {
                assert(t[i] == k);
            } else {
                assert(t[i + 1] == k);
            }
        }
    }
    assert forall|i: int, j: int| 0 <= i < t.len() && 0 <= j < t.len() && i != j implies t[i] != t[j] by {
        if i != p && j != p {
            let si = if i < p { i } else { i - 1 };
            let sj = if j < p { j } else { j - 1 };
            assert(t[i] == s[si]);
            assert(t[j] == s[sj]);
        } else if i == p {
            let sj = if j < p { j } else { j - 1 };
            assert(t[j] == s[sj]);
        } else {
            let si = if i < p { i } else { i - 1 };
            assert(t[i] == s[si]);
        }
    }
}

/// Sequences with the same elements counted contain the same things.
proof fn lemma_same_multiset_contains(a: Seq<u64>, b: Seq<u64>, k: u64)
    requires
        a.to_multiset() == b.to_multiset(),
    ensures
        a.contains(k) <==> b.contains(k),
{
    a.to_multiset_ensures();
    b.to_multiset_ensures();
    assert(a.contains(k) <==> a.to_multiset().count(k) > 0);
    assert(b.contains(k) <==> b.to_multiset().count(k) > 0);
}

} // verus!
