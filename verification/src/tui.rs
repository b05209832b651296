//! The key bindings of the first terminal interface: which keys quit, switch pages and
//! control playback, and which go on to the page on screen.
use vstd::prelude::*;

verus! {

/// The pages of the first terminal interface, in the order that tab goes through them.
#[derive(Debug, Clone, Copy, PartialEq, Eq, Structural)]
pub enum Route {
    Tracks,
    NowPlaying,
    Queue,
    Search,
    Logs,
}

/// The position of a page in the tab order.
pub open spec fn route_index(r: Route) -> int {
    match r {
        Route::Tracks => 0,
        Route::NowPlaying => 1,
        Route::Queue => 2,
        Route::Search => 3,
        Route::Logs => 4,
    }
}

impl Route {
    /// The first page.
    pub fn default_route() -> (r: Self)
        ensures
            r == Route::Tracks,
    {
        Route::Tracks
    }

    /// The page after this one, wrapping around to the first.
    pub fn next(self) -> (r: Self)
        ensures
            route_index(r) == (route_index(self) + 1) % 5,
    {
        match self {
            Route::Tracks => Route::NowPlaying,
            Route::NowPlaying => Route::Queue,
            Route::Queue => Route::Search,
            Route::Search => Route::Logs,
            Route::Logs => Route::Tracks,
        }
    }

    /// The page before this one, wrapping around to the last.
    pub fn prev(self) -> (r: Self)
        ensures
            route_index(r) == (route_index(self) + 4) % 5,
    {
        match self {
            Route::Tracks => Route::Logs,
            Route::NowPlaying => Route::Tracks,
            Route::Queue => Route::NowPlaying,
            Route::Search => Route::Queue,
            Route::Logs => Route::Search,
        }
    }
}

/// Going to the next page and then to the previous one, or the other way round, comes
/// back to the page one started from (as `next` and `prev` state their results).
pub proof fn law_next_then_prev(r: Route, a: Route, c: Route)
    requires
        route_index(a) == (route_index(r) + 1) % 5 && route_index(c) == (route_index(a) + 4)
            % 5 || route_index(a) == (route_index(r) + 4) % 5 && route_index(c) == (
        route_index(a) + 1) % 5,
    ensures
        c == r,
{
}

/// A media key of the keyboard.
#[derive(Debug, Clone, Copy, PartialEq, Eq, Structural)]
pub enum MediaKey {
    Play,
    Pause,
    PlayPause,
    Stop,
    TrackNext,
    TrackPrevious,
    Reverse,
    FastForward,
    Rewind,
    Record,
    LowerVolume,
    RaiseVolume,
    MuteVolume,
}

/// A key that the interface reacts to.
#[derive(Debug, Clone, Copy, PartialEq, Eq, Structural)]
pub enum AppKey {
    Esc,
    Tab,
    BackTab,
    Up,
    Down,
    Left,
    Right,
    Media(MediaKey),
    Char(char),
    Other,
}

/// What a key press leads to: quitting, going to a page, a playback command, or handing
/// the key to the page on screen.
#[derive(Debug, Clone, Copy, PartialEq, Eq, Structural)]
pub enum KeyPress {
    Quit,
    Route(Route),
    PauseOrPlay,
    Stop,
    PlayNext,
    PlayPrevious,
    FastForward(u64),
    ToPage,
}

/// What a key does: escape quits; tab and shift-tab go to the next and previous page; with
/// ctrl, up plays or pauses, down stops, right and left play the next and previous track;
/// alt-right seeks 30 seconds forward; the play-pause and next-track media keys control
/// playback; `/` goes to the search page, unless it is on screen; every other key goes to
/// the page on screen.
pub open spec fn key_press(key: AppKey, ctrl: bool, alt: bool, route: Route) -> KeyPress {
    match key {
        AppKey::Esc => KeyPress::Quit,
        AppKey::Tab => KeyPress::Route(
            match route {
                Route::Tracks => Route::NowPlaying,
                Route::NowPlaying => Route::Queue,
                Route::Queue => Route::Search,
                Route::Search => Route::Logs,
                Route::Logs => Route::Tracks,
            },
        ),
        AppKey::BackTab => KeyPress::Route(
            match route {
                Route::Tracks => Route::Logs,
                Route::NowPlaying => Route::Tracks,
                Route::Queue => Route::NowPlaying,
                Route::Search => Route::Queue,
                Route::Logs => Route::Search,
            },
        ),
        AppKey::Up => if ctrl {
            KeyPress::PauseOrPlay
        } else {
            KeyPress::ToPage
        },
        AppKey::Down => if ctrl {
            KeyPress::Stop
        } else {
            KeyPress::ToPage
        },
        AppKey::Right => if ctrl {
            KeyPress::PlayNext
        } else if alt {
            KeyPress::FastForward(30)
        } else {
            KeyPress::ToPage
        },
        AppKey::Left => if ctrl {
            KeyPress::PlayPrevious
        } else {
            KeyPress::ToPage
        },
        AppKey::Media(MediaKey::TrackNext) => KeyPress::PlayNext,
        AppKey::Media(_) => KeyPress::PauseOrPlay,
        AppKey::Char('/') => if route == Route::Search {
            KeyPress::ToPage
        } else {
            KeyPress::Route(Route::Search)
        },
        _ => KeyPress::ToPage,
    }
}

/// What a key press leads to. Of the media keys only play-pause and next-track are bound;
/// the others are not handled.
pub fn handle_key_press(key: AppKey, ctrl: bool, alt: bool, route: Route) -> (r: KeyPress)
    requires
        key matches AppKey::Media(m) ==> m == MediaKey::PlayPause || m == MediaKey::TrackNext,
    ensures
        r == key_press(key, ctrl, alt, route),
{
    match key {
        AppKey::Esc => KeyPress::Quit,
        AppKey::Tab => KeyPress::Route(route.next()),
        AppKey::BackTab => KeyPress::Route(route.prev()),
        AppKey::Up => {
            if ctrl {
                KeyPress::PauseOrPlay
            } else {
                KeyPress::ToPage
            }
        },
        AppKey::Down => {
            if ctrl {
                KeyPress::Stop
            } else {
                KeyPress::ToPage
            }
        },
        AppKey::Right => {
            if ctrl {
                KeyPress::PlayNext
            } else if alt {
                KeyPress::FastForward(30)
            } else {
                KeyPress::ToPage
            }
        },
        AppKey::Left => {
            if ctrl {
                KeyPress::PlayPrevious
            } else {
                KeyPress::ToPage
            }
        },
        AppKey::Media(m) => {
            if m == MediaKey::TrackNext {
                KeyPress::PlayNext
            } else {
                KeyPress::PauseOrPlay
            }
        },
        AppKey::Char(c) => {
            if c == '/' && route != Route::Search {
                KeyPress::Route(Route::Search)
            } else {
                KeyPress::ToPage
            }
        },
        AppKey::Other => KeyPress::ToPage,
    }
}

} // verus!
