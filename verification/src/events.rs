//! The events that drive the application: its own ticks and navigation, and the media keys.
use vstd::prelude::*;

use crate::track::Route;

verus! {

/// What the application does next.
pub enum AppEvent {
    Update,
    Render,
    UpdateAndRender,
    Route(Route),
    Quit,
}

/// A media key or a request of the desktop's media controls.
#[derive(Debug, Clone, Copy, PartialEq, Eq, Structural)]
pub enum MediaEvent {
    Play,
    Pause,
    Toggle,
    Next,
    Previous,
    Stop,
    Raise,
    Quit,
}

/// The playback state shown to the desktop's media controls.
#[derive(Debug, Clone, Copy, PartialEq, Eq, Structural)]
pub enum MediaPlayback {
    Playing,
    Paused,
    Stopped,
}

} // verus!
