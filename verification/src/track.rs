use vstd::prelude::*;

verus! {

/// Identifier of a track in the music library.
#[derive(Debug, Clone, Copy, PartialEq, Eq, Structural, PartialOrd, Ord, Hash)]
pub struct TrackId(pub u64);

/// The column by which the track list is sorted.
#[derive(Debug, Clone, Copy, PartialEq, Eq, Structural)]
pub enum TrackSort {
    Title,
    Artist,
    Album,
    Time,
    Rating,
}

/// Position of a sort column in the cycle `Title, Artist, Album, Time, Rating`.
pub open spec fn sort_position(s: TrackSort) -> int {
    match s {
        TrackSort::Title => 0,
        TrackSort::Artist => 1,
        TrackSort::Album => 2,
        TrackSort::Time => 3,
        TrackSort::Rating => 4,
    }
}

impl TrackSort {
    /// The sort column used when nothing else was chosen.
    pub fn default_sort() -> (s: Self)
        ensures
            s == TrackSort::Album,
    {
        TrackSort::Album
    }

    /// The next column in the cycle.
    pub fn next(self) -> (s: Self)
        ensures
            sort_position(s) == (sort_position(self) + 1) % 5,
    {
        match self {
            TrackSort::Title => TrackSort::Artist,
            TrackSort::Artist => TrackSort::Album,
            TrackSort::Album => TrackSort::Time,
            TrackSort::Time => TrackSort::Rating,
            TrackSort::Rating => TrackSort::Title,
        }
    }

    /// The previous column in the cycle.
    pub fn prev(self) -> (s: Self)
        ensures
            sort_position(s) == (sort_position(self) + 4) % 5,
    {
        match self {
            TrackSort::Title => TrackSort::Rating,
            TrackSort::Artist => TrackSort::Title,
            TrackSort::Album => TrackSort::Artist,
            TrackSort::Time => TrackSort::Album,
            TrackSort::Rating => TrackSort::Time,
        }
    }

    /// The label shown for the sort column.
    pub fn as_str(self) -> (s: &'static str)
        ensures
            s@ == sort_label(self),
    {
        match self {
            TrackSort::Title => "Rating",
            TrackSort::Artist => "Title",
            TrackSort::Album => "Artist",
            TrackSort::Time => "Album",
            TrackSort::Rating => "Time",
        }
    }
}

/// The label of each sort column, as the track list shows it.
pub open spec fn sort_label(s: TrackSort) -> Seq<char> {
    match s {
        TrackSort::Title => "Rating"@,
        TrackSort::Artist => "Title"@,
        TrackSort::Album => "Artist"@,
        TrackSort::Time => "Album"@,
        TrackSort::Rating => "Time"@,
    }
}

/// Two sort columns are the same exactly when their positions in the cycle are.
pub proof fn lemma_sort_position_injective(a: TrackSort, b: TrackSort)
    ensures
        sort_position(a) == sort_position(b) <==> a == b,
        0 <= sort_position(a) < 5,
{
}

/// Stepping to the next sort column and then to the previous one returns to the column
/// one started from, and so does stepping back and then forward.
pub proof fn law_sort_next_prev_inverse(s: TrackSort, a: TrackSort, b: TrackSort)
    requires
        sort_position(a) == (sort_position(s) + 1) % 5,
        sort_position(b) == (sort_position(s) + 4) % 5,
    ensures
        forall|x: TrackSort| sort_position(x) == (sort_position(a) + 4) % 5 ==> x == s,
        forall|y: TrackSort| sort_position(y) == (sort_position(b) + 1) % 5 ==> y == s,
{
    assert forall|x: TrackSort| sort_position(x) == (sort_position(a) + 4) % 5 implies x == s by {
        lemma_sort_position_injective(x, s);
    }
    assert forall|y: TrackSort| sort_position(y) == (sort_position(b) + 1) % 5 implies y == s by {
        lemma_sort_position_injective(y, s);
    }
}

/// A sort column together with its direction, stepped through in the order title,
/// artist, album, time, rating, each ascending before descending.
#[derive(Debug, Clone, Copy, PartialEq, Eq, Structural)]
pub enum DirectedSort {
    TitleAscending,
    TitleDescending,
    ArtistAscending,
    ArtistDescending,
    AlbumAscending,
    AlbumDescending,
    TimeAscending,
    TimeDescending,
    RatingAscending,
    RatingDescending,
}

/// The column of a directed sort.
pub open spec fn directed_column(s: DirectedSort) -> TrackSort {
    match s {
        DirectedSort::TitleAscending | DirectedSort::TitleDescending => TrackSort::Title,
        DirectedSort::ArtistAscending | DirectedSort::ArtistDescending => TrackSort::Artist,
        DirectedSort::AlbumAscending | DirectedSort::AlbumDescending => TrackSort::Album,
        DirectedSort::TimeAscending | DirectedSort::TimeDescending => TrackSort::Time,
        DirectedSort::RatingAscending | DirectedSort::RatingDescending => TrackSort::Rating,
    }
}

/// True for the descending directions.
pub open spec fn is_descending(s: DirectedSort) -> bool {
    match s {
        DirectedSort::TitleDescending | DirectedSort::ArtistDescending
        | DirectedSort::AlbumDescending | DirectedSort::TimeDescending
        | DirectedSort::RatingDescending => true,
        _ => false,
    }
}

/// Position of a directed sort in its cycle: twice its column's position, plus one when
/// descending.
pub open spec fn directed_position(s: DirectedSort) -> int {
    2 * sort_position(directed_column(s)) + if is_descending(s) {
        1int
    } else {
        0int
    }
}

impl DirectedSort {
    /// The directed sort used when nothing else was chosen: album, ascending.
    pub fn default_sort() -> (s: Self)
        ensures
            s == DirectedSort::AlbumAscending,
    {
        DirectedSort::AlbumAscending
    }

    /// The next directed sort in the cycle.
    pub fn next(self) -> (s: Self)
        ensures
            directed_position(s) == (directed_position(self) + 1) % 10,
    {
        match self {
            DirectedSort::TitleAscending => DirectedSort::TitleDescending,
            DirectedSort::TitleDescending => DirectedSort::ArtistAscending,
            DirectedSort::ArtistAscending => DirectedSort::ArtistDescending,
            DirectedSort::ArtistDescending => DirectedSort::AlbumAscending,
            DirectedSort::AlbumAscending => DirectedSort::AlbumDescending,
            DirectedSort::AlbumDescending => DirectedSort::TimeAscending,
            DirectedSort::TimeAscending => DirectedSort::TimeDescending,
            DirectedSort::TimeDescending => DirectedSort::RatingAscending,
            DirectedSort::RatingAscending => DirectedSort::RatingDescending,
            DirectedSort::RatingDescending => DirectedSort::TitleAscending,
        }
    }

    /// The previous directed sort in the cycle.
    pub fn prev(self) -> (s: Self)
        ensures
            directed_position(s) == (directed_position(self) + 9) % 10,
    {
        match self {
            DirectedSort::TitleAscending => DirectedSort::RatingDescending,
            DirectedSort::TitleDescending => DirectedSort::TitleAscending,
            DirectedSort::ArtistAscending => DirectedSort::TitleDescending,
            DirectedSort::ArtistDescending => DirectedSort::ArtistAscending,
            DirectedSort::AlbumAscending => DirectedSort::ArtistDescending,
            DirectedSort::AlbumDescending => DirectedSort::AlbumAscending,
            DirectedSort::TimeAscending => DirectedSort::AlbumDescending,
            DirectedSort::TimeDescending => DirectedSort::TimeAscending,
            DirectedSort::RatingAscending => DirectedSort::TimeDescending,
            DirectedSort::RatingDescending => DirectedSort::RatingAscending,
        }
    }

    /// The column sorted by.
    pub fn column(self) -> (c: TrackSort)
        ensures
            c == directed_column(self),
    {
        match self {
            DirectedSort::TitleAscending | DirectedSort::TitleDescending => TrackSort::Title,
            DirectedSort::ArtistAscending | DirectedSort::ArtistDescending => TrackSort::Artist,
            DirectedSort::AlbumAscending | DirectedSort::AlbumDescending => TrackSort::Album,
            DirectedSort::TimeAscending | DirectedSort::TimeDescending => TrackSort::Time,
            DirectedSort::RatingAscending | DirectedSort::RatingDescending => TrackSort::Rating,
        }
    }

    /// True when the column is read descending.
    pub fn descending(self) -> (b: bool)
        ensures
            b == is_descending(self),
    {
        match self {
            DirectedSort::TitleDescending | DirectedSort::ArtistDescending
            | DirectedSort::AlbumDescending | DirectedSort::TimeDescending
            | DirectedSort::RatingDescending => true,
            _ => false,
        }
    }
}

/// Each position of the cycle belongs to one directed sort, and each pair of a column and
/// a direction to one directed sort.
pub proof fn lemma_directed_position_injective(a: DirectedSort, b: DirectedSort)
    ensures
        directed_position(a) == directed_position(b) <==> a == b,
        (directed_column(a) == directed_column(b) && is_descending(a) == is_descending(b)) <==> a == b,
        0 <= directed_position(a) < 10,
{
}

/// Stepping to the next directed sort and then to the previous one returns to the one
/// started from, and so does stepping back and then forward.
pub proof fn law_directed_next_prev_inverse(s: DirectedSort, a: DirectedSort, b: DirectedSort)
    requires
        directed_position(a) == (directed_position(s) + 1) % 10,
        directed_position(b) == (directed_position(s) + 9) % 10,
    ensures
        forall|x: DirectedSort| directed_position(x) == (directed_position(a) + 9) % 10 ==> x == s,
        forall|y: DirectedSort| directed_position(y) == (directed_position(b) + 1) % 10 ==> y == s,
{
    assert forall|x: DirectedSort| directed_position(x) == (directed_position(a) + 9) % 10 implies x == s by {
        lemma_directed_position_injective(x, s);
    }
    assert forall|y: DirectedSort| directed_position(y) == (directed_position(b) + 1) % 10 implies y == s by {
        lemma_directed_position_injective(y, s);
    }
}

/// A page of the application.
#[derive(Debug, Clone, Copy, PartialEq, Eq, Structural)]
pub enum Route {
    /// The track list, optionally focused on one track.
    Tracks(Option<TrackId>),
    NowPlaying,
    Settings,
}

/// Stepping to the next page and then to the previous one returns to the page one started
/// from, except that the track list loses its focus.
pub proof fn law_route_next_prev_inverse(r: Route, a: Route, b: Route)
    requires
        route_position(a) == (route_position(r) + 1) % 3,
        route_position(b) == (route_position(a) + 2) % 3,
        b is Tracks ==> b == Route::Tracks(None),
    ensures
        route_position(b) == route_position(r),
        !(r is Tracks) ==> b == r,
        r is Tracks ==> b == Route::Tracks(None),
{
}

/// Position of a route in the cycle `Tracks, NowPlaying, Settings`.
pub open spec fn route_position(r: Route) -> int {
    match r {
        Route::Tracks(_) => 0,
        Route::NowPlaying => 1,
        Route::Settings => 2,
    }
}

impl Route {
    /// The page shown at start.
    pub fn default_route() -> (r: Self)
        ensures
            r == Route::Tracks(None),
    {
        Route::Tracks(None)
    }

    /// The next page in the cycle; the track list is entered without focus.
    pub fn next(self) -> (r: Self)
        ensures
            route_position(r) == (route_position(self) + 1) % 3,
            r is Tracks ==> r == Route::Tracks(None),
    {
        match self {
            Route::Tracks(_) => Route::NowPlaying,
            Route::NowPlaying => Route::Settings,
            Route::Settings => Route::Tracks(None),
        }
    }

    /// The previous page in the cycle; the track list is entered without focus.
    pub fn prev(self) -> (r: Self)
        ensures
            route_position(r) == (route_position(self) + 2) % 3,
            r is Tracks ==> r == Route::Tracks(None),
    {
        match self {
            Route::Tracks(_) => Route::Settings,
            Route::NowPlaying => Route::Tracks(None),
            Route::Settings => Route::NowPlaying,
        }
    }
}

} // verus!
