//! A terminal music player whose library is built from the music files themselves:
//! the play queue, the track table, the text formats and the widget state machines.
use vstd::prelude::*;

pub mod ansi;
pub mod audio;
pub mod blocks;
pub mod database;
pub mod events;
pub mod formatting;
pub mod highlight;
pub mod jukebox;
pub mod layout;
pub mod list;
pub mod logs;
pub mod markup;
pub mod markup_widget;
pub mod playing;
pub mod queue;
pub mod review;
pub mod scroll;
pub mod settings;
pub mod settings_page;
pub mod style;
pub mod symbols;
pub mod terminal;
pub mod text;
pub mod text_input;
pub mod tokens;
pub mod tracks_page;
pub mod track;
pub mod tui;
pub mod viewer;
pub mod widgets;

verus! {

} // verus!
