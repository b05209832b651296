//! The user's settings: which tracks to skip, how the track list behaves, the colors, and
//! the desired retention of the review tool.
use vstd::prelude::*;

use crate::audio::AudioRating;
use crate::style::{indexed_to_color, palette_color, Color};
use crate::terminal::TerminalTheme;

verus! {

/// The version of the settings format this library reads and writes.
pub const SETTINGS_VERSION: u8 = 0;

/// General settings of the review tool.
#[derive(Debug, Clone, Copy, PartialEq, Eq, Structural)]
pub struct General {
    desired_retention: u8,
}

impl General {
    /// The desired retention, in percent.
    pub closed spec fn retention(self) -> u8 {
        self.desired_retention
    }

    /// The default: 80 percent.
    pub fn new() -> (g: Self)
        ensures
            g.retention() == 80,
    {
        General { desired_retention: 80 }
    }

    /// The desired retention, in percent.
    pub fn desired_retention(&self) -> (r: u8)
        ensures
            r == self.retention(),
    {
        self.desired_retention
    }

    /// Sets the desired retention; more than 100 percent counts as 100.
    pub fn set_desired_retention(&mut self, percent: u8)
        ensures
            final(self).retention() == (if percent > 100 {
                100
            } else {
                percent
            }),
    {
        self.desired_retention = if percent > 100 {
            100
        } else {
            percent
        };
    }
}

/// The colors of the interface.
#[derive(Debug, Clone, Copy, PartialEq, Eq, Structural)]
pub struct Colors {
    pub accent: Color,
    pub on_accent: Color,
    pub neutral: Color,
    pub on_neutral: Color,
}

impl Colors {
    /// The default colors for a terminal theme: yellow accents on dark terminals, cyan on
    /// light ones.
    pub fn for_theme(theme: TerminalTheme) -> (c: Self)
        ensures
            c.accent == (match theme {
                TerminalTheme::Dark => Color::Yellow,
                TerminalTheme::Light => Color::Cyan,
            }),
            c.on_accent == Color::Black,
            c.neutral == Color::Indexed(245),
            c.on_neutral == Color::Black,
    {
        match theme {
            TerminalTheme::Dark => Colors {
                accent: Color::Yellow,
                on_accent: Color::Black,
                neutral: Color::Indexed(245),
                on_neutral: Color::Black,
            },
            TerminalTheme::Light => Colors {
                accent: Color::Cyan,
                on_accent: Color::Black,
                neutral: Color::Indexed(245),
                on_neutral: Color::Black,
            },
        }
    }
}

/// The text color that reads well on a background: a fixed one, or, on a true color,
/// black or white, whichever contrasts more with the color's relative luminance.
#[derive(Debug, Clone, Copy, PartialEq, Eq, Structural)]
pub enum ReadableForeground {
    Fixed(Color),
    ByLuminance(u8, u8, u8),
}

/// The text color that reads well on a background that is a named or a true color.
pub open spec fn readable_on(bg: Color) -> Option<ReadableForeground> {
    match bg {
        Color::Black => Some(ReadableForeground::Fixed(Color::White)),
        Color::Red => Some(ReadableForeground::Fixed(Color::White)),
        Color::Green => Some(ReadableForeground::Fixed(Color::Black)),
        Color::Yellow => Some(ReadableForeground::Fixed(Color::Black)),
        Color::Blue => Some(ReadableForeground::Fixed(Color::White)),
        Color::Magenta => Some(ReadableForeground::Fixed(Color::White)),
        Color::Cyan => Some(ReadableForeground::Fixed(Color::White)),
        Color::Gray => Some(ReadableForeground::Fixed(Color::DarkGray)),
        Color::DarkGray => Some(ReadableForeground::Fixed(Color::Gray)),
        Color::LightRed => Some(ReadableForeground::Fixed(Color::White)),
        Color::LightGreen => Some(ReadableForeground::Fixed(Color::Black)),
        Color::LightYellow => Some(ReadableForeground::Fixed(Color::Black)),
        Color::LightBlue => Some(ReadableForeground::Fixed(Color::Black)),
        Color::LightMagenta => Some(ReadableForeground::Fixed(Color::White)),
        Color::LightCyan => Some(ReadableForeground::Fixed(Color::Black)),
        Color::White => Some(ReadableForeground::Fixed(Color::Black)),
        Color::Rgb(r, g, b) => Some(ReadableForeground::ByLuminance(r, g, b)),
        Color::Reset | Color::Indexed(_) => None,
    }
}

/// The text color that reads well on a background: none on the terminal's default,
/// otherwise that of the named or true color the background stands for.
pub open spec fn readable_fg_spec(bg: Color) -> Option<ReadableForeground> {
    match bg {
        Color::Reset => None,
        Color::Indexed(i) => readable_on(palette_color(i)),
        _ => readable_on(bg),
    }
}

impl Colors {
    /// The text color that reads well on a background, or `None` on the terminal's default
    /// background. On a true color the choice between black and white is left to the
    /// contrast of its luminance.
    pub fn readable_fg(bg: Color) -> (r: Option<ReadableForeground>)
        ensures
            r == readable_fg_spec(bg),
    {
        let resolved = match bg {
            Color::Reset => {
                return None;
            },
            Color::Indexed(i) => indexed_to_color(i),
            _ => bg,
        };
        match resolved {
            Color::Black => Some(ReadableForeground::Fixed(Color::White)),
            Color::Red => Some(ReadableForeground::Fixed(Color::White)),
            Color::Green => Some(ReadableForeground::Fixed(Color::Black)),
            Color::Yellow => Some(ReadableForeground::Fixed(Color::Black)),
            Color::Blue => Some(ReadableForeground::Fixed(Color::White)),
            Color::Magenta => Some(ReadableForeground::Fixed(Color::White)),
            Color::Cyan => Some(ReadableForeground::Fixed(Color::White)),
            Color::Gray => Some(ReadableForeground::Fixed(Color::DarkGray)),
            Color::DarkGray => Some(ReadableForeground::Fixed(Color::Gray)),
            Color::LightRed => Some(ReadableForeground::Fixed(Color::White)),
            Color::LightGreen => Some(ReadableForeground::Fixed(Color::Black)),
            Color::LightYellow => Some(ReadableForeground::Fixed(Color::Black)),
            Color::LightBlue => Some(ReadableForeground::Fixed(Color::Black)),
            Color::LightMagenta => Some(ReadableForeground::Fixed(Color::White)),
            Color::LightCyan => Some(ReadableForeground::Fixed(Color::Black)),
            Color::White => Some(ReadableForeground::Fixed(Color::Black)),
            Color::Rgb(r, g, b) => Some(ReadableForeground::ByLuminance(r, g, b)),
            Color::Reset | Color::Indexed(_) => None,
        }
    }
}

/// Every background but the terminal's default gets a readable text color.
pub proof fn law_readable_fg_for_every_color(bg: Color)
    ensures
        readable_fg_spec(bg) is None <==> bg == Color::Reset,
{
    if let Color::Indexed(i) = bg {
        let c = palette_color(i);
        assert(c !is Reset && c !is Indexed);
    }
}

/// The player's settings.
#[derive(Debug, Clone, Copy, PartialEq, Eq, Structural)]
pub struct Settings {
    pub version: u8,
    pub skip_tracks_with_rating: Option<AudioRating>,
    pub keep_selected_track_on_sort: bool,
    pub search_by_path: bool,
    pub colors: Colors,
}

impl Settings {
    /// The default settings for a terminal theme: skip nothing, do not keep the selection
    /// when sorting, do not search by path, and the theme's colors.
    pub fn new(theme: TerminalTheme) -> (s: Self)
        ensures
            s.version == SETTINGS_VERSION,
            s.skip_tracks_with_rating == None::<AudioRating>,
            !s.keep_selected_track_on_sort,
            !s.search_by_path,
            s.colors == Colors::for_theme_spec(theme),
    {
        Settings {
            version: SETTINGS_VERSION,
            skip_tracks_with_rating: None,
            keep_selected_track_on_sort: false,
            search_by_path: false,
            colors: Colors::for_theme(theme),
        }
    }

    /// True when settings written in format `version` can be read.
    pub fn is_known_version(version: u8) -> (b: bool)
        ensures
            b == (version == SETTINGS_VERSION),
    {
        version == SETTINGS_VERSION
    }

    /// Tracks rated at most this are skipped.
    pub fn skip_rating(&self) -> (r: Option<AudioRating>)
        ensures
            r == self.skip_tracks_with_rating,
    {
        self.skip_tracks_with_rating
    }

    /// Whether the selected track stays selected when the list is sorted.
    pub fn keep_on_sort(&self) -> (b: bool)
        ensures
            b == self.keep_selected_track_on_sort,
    {
        self.keep_selected_track_on_sort
    }

    /// Whether searches also look at the paths of the files.
    pub fn search_by_path(&self) -> (b: bool)
        ensures
            b == self.search_by_path,
    {
        self.search_by_path
    }
}

impl Settings {
    /// Skips tracks rated at most `rating` from now on.
    pub fn set_skip_rating(&mut self, rating: Option<AudioRating>)
        ensures
            *final(self) == (Settings { skip_tracks_with_rating: rating, ..*old(self) }),
    {
        self.skip_tracks_with_rating = rating;
    }

    /// Sets whether the selected track stays selected when the list is sorted.
    pub fn set_keep_on_sort(&mut self, value: bool)
        ensures
            *final(self) == (Settings { keep_selected_track_on_sort: value, ..*old(self) }),
    {
        self.keep_selected_track_on_sort = value;
    }

    /// Sets whether searches also look at the paths of the files.
    pub fn set_search_by_path(&mut self, value: bool)
        ensures
            *final(self) == (Settings { search_by_path: value, ..*old(self) }),
    {
        self.search_by_path = value;
    }

    /// The colors of the interface.
    pub fn colors(&self) -> (c: &Colors)
        ensures
            *c == self.colors,
    {
        &self.colors
    }

    /// The accent color.
    pub fn accent(&self) -> (c: Color)
        ensures
            c == self.colors.accent,
    {
        self.colors.accent
    }

    /// The color of text on the accent color.
    pub fn on_accent(&self) -> (c: Color)
        ensures
            c == self.colors.on_accent,
    {
        self.colors.on_accent
    }

    /// The neutral color.
    pub fn neutral(&self) -> (c: Color)
        ensures
            c == self.colors.neutral,
    {
        self.colors.neutral
    }

    /// The color of text on the neutral color.
    pub fn on_neutral(&self) -> (c: Color)
        ensures
            c == self.colors.on_neutral,
    {
        self.colors.on_neutral
    }

    /// Sets the accent color.
    pub fn set_accent(&mut self, color: Color)
        ensures
            *final(self) == (Settings { colors: Colors { accent: color, ..old(self).colors }, ..*old(self) }),
    {
        self.colors.accent = color;
    }

    /// Sets the color of text on the accent color.
    pub fn set_on_accent(&mut self, color: Color)
        ensures
            *final(self) == (Settings { colors: Colors { on_accent: color, ..old(self).colors }, ..*old(self) }),
    {
        self.colors.on_accent = color;
    }

    /// Sets the neutral color.
    pub fn set_neutral(&mut self, color: Color)
        ensures
            *final(self) == (Settings { colors: Colors { neutral: color, ..old(self).colors }, ..*old(self) }),
    {
        self.colors.neutral = color;
    }

    /// Sets the color of text on the neutral color.
    pub fn set_on_neutral(&mut self, color: Color)
        ensures
            *final(self) == (Settings { colors: Colors { on_neutral: color, ..old(self).colors }, ..*old(self) }),
    {
        self.colors.on_neutral = color;
    }
}

impl Colors {
    /// The default colors for a terminal theme.
    pub open spec fn for_theme_spec(theme: TerminalTheme) -> Self {
        Colors {
            accent: match theme {
                TerminalTheme::Dark => Color::Yellow,
                TerminalTheme::Light => Color::Cyan,
            },
            on_accent: Color::Black,
            neutral: Color::Indexed(245),
            on_neutral: Color::Black,
        }
    }
}

} // verus!
