//! The settings of the card review tool: its three colors, the desired retention, where its
//! files live, what the terminal told it, and the colors its widgets take from them.
use vstd::prelude::*;

use crate::list::ListColors;
use crate::markup::{MarkupColors, SyntaxHighlightTheme};
use crate::scroll::ScrollbarColors;
use crate::settings::{General, SETTINGS_VERSION};
use crate::style::Color;
use crate::terminal::{TerminalCellSize, TerminalInfo, TerminalPalette, TerminalTheme};
use crate::tokens::TokenListColors;

verus! {

/// The colors of a text input: its text, cursor, selection, placeholder and disabled text.
#[derive(Debug, Clone, Copy, PartialEq, Eq, Structural)]
pub struct TextInputColors {
    pub normal: Color,
    pub cursor: Color,
    pub selector: Color,
    pub placeholder: Color,
    pub disabled: Color,
}

/// The colors of a text editor: its text, cursor, selection, placeholder and disabled text.
#[derive(Debug, Clone, Copy, PartialEq, Eq, Structural)]
pub struct TextEditorColors {
    pub normal: Color,
    pub cursor: Color,
    pub selector: Color,
    pub placeholder: Color,
    pub disabled: Color,
}

/// The colors of the review tool.
#[derive(Debug, Clone, Copy, PartialEq, Eq, Structural)]
pub struct Colors {
    pub primary: Color,
    pub secondary: Color,
    pub neutral: Color,
}

/// The default colors for a terminal theme: yellow on dark terminals, cyan on light ones,
/// with a grey neutral.
pub open spec fn default_colors(theme: TerminalTheme) -> Colors {
    match theme {
        TerminalTheme::Dark => Colors {
            primary: Color::LightYellow,
            secondary: Color::Yellow,
            neutral: Color::Indexed(245),
        },
        TerminalTheme::Light => Colors {
            primary: Color::LightCyan,
            secondary: Color::Cyan,
            neutral: Color::Indexed(245),
        },
    }
}

/// The scrollbar of the review tool: a neutral thumb and no track.
pub open spec fn scrollbar_of(c: Colors) -> ScrollbarColors {
    ScrollbarColors { thumb: c.neutral, track: None }
}

impl Colors {
    /// The default colors for a terminal theme.
    pub fn new(theme: TerminalTheme) -> (c: Self)
        ensures
            c == default_colors(theme),
    {
        match theme {
            TerminalTheme::Dark => Colors {
                primary: Color::LightYellow,
                secondary: Color::Yellow,
                neutral: Color::Indexed(245),
            },
            TerminalTheme::Light => Colors {
                primary: Color::LightCyan,
                secondary: Color::Cyan,
                neutral: Color::Indexed(245),
            },
        }
    }

    /// A text input in the terminal's own color, with a secondary cursor and neutral
    /// selection, placeholder and disabled text.
    pub fn text_input(&self) -> (t: TextInputColors)
        ensures
            t == (TextInputColors {
                normal: Color::Reset,
                cursor: self.secondary,
                selector: self.neutral,
                placeholder: self.neutral,
                disabled: self.neutral,
            }),
    {
        TextInputColors {
            normal: Color::Reset,
            cursor: self.secondary,
            selector: self.neutral,
            placeholder: self.neutral,
            disabled: self.neutral,
        }
    }

    /// A text editor colored as a text input.
    pub fn text_editor(&self) -> (t: TextEditorColors)
        ensures
            t == (TextEditorColors {
                normal: Color::Reset,
                cursor: self.secondary,
                selector: self.neutral,
                placeholder: self.neutral,
                disabled: self.neutral,
            }),
    {
        TextEditorColors {
            normal: Color::Reset,
            cursor: self.secondary,
            selector: self.neutral,
            placeholder: self.neutral,
            disabled: self.neutral,
        }
    }

    /// A list with the tool's scrollbar.
    pub fn list(&self) -> (l: ListColors)
        ensures
            l.scrollbar == scrollbar_of(*self),
    {
        ListColors { scrollbar: self.scrollbar() }
    }

    /// A token list with the tool's scrollbar.
    pub fn token_list(&self) -> (l: TokenListColors)
        ensures
            l.scrollbar == scrollbar_of(*self),
    {
        TokenListColors { scrollbar: self.scrollbar() }
    }

    /// The tool's scrollbar.
    pub fn scrollbar(&self) -> (s: ScrollbarColors)
        ensures
            s == scrollbar_of(*self),
    {
        ScrollbarColors { thumb: self.neutral, track: None }
    }
}

/// The settings that are saved: the format version, the general settings and the colors.
#[derive(Debug, Clone, Copy, PartialEq, Eq, Structural)]
pub struct Config {
    pub version: u8,
    pub general: General,
    pub colors: Colors,
}

impl Config {
    /// The defaults for a terminal theme: this format's version, a retention of 80 percent
    /// and the theme's colors.
    pub fn new(theme: TerminalTheme) -> (c: Self)
        ensures
            c.version == SETTINGS_VERSION,
            c.general.retention() == 80,
            c.colors == default_colors(theme),
    {
        Config { version: SETTINGS_VERSION, general: General::new(), colors: Colors::new(theme) }
    }

    /// True for the version of the format this library reads.
    pub fn is_known_version(version: u8) -> (b: bool)
        ensures
            b == (version == SETTINGS_VERSION),
    {
        version == SETTINGS_VERSION
    }
}

/// The settings of the review tool: what is saved, the file it is saved to, the directory
/// of the assets, and what the terminal told about itself.
pub struct Settings {
    config: Config,
    config_file: String,
    assets_dir: String,
    info: TerminalInfo,
}

/// The markup colors of the review tool: code highlighted for the terminal's theme, the
/// tool's scrollbar, secondary headings and neutral breaks.
pub open spec fn markup_colors_of(theme: TerminalTheme, c: Colors) -> MarkupColors {
    MarkupColors {
        syntax_theme: match theme {
            TerminalTheme::Dark => SyntaxHighlightTheme::Base16EightiesDark,
            TerminalTheme::Light => SyntaxHighlightTheme::InspiredGitHub,
        },
        scrollbar: scrollbar_of(c),
        heading: c.secondary,
        break_char: c.neutral,
    }
}

impl Settings {
    /// What is saved.
    pub closed spec fn config_spec(&self) -> Config {
        self.config
    }

    /// The settings file and the assets directory.
    pub closed spec fn paths(&self) -> (Seq<char>, Seq<char>) {
        (self.config_file@, self.assets_dir@)
    }

    /// The terminal's theme, palette and cell size.
    pub closed spec fn terminal(&self) -> (TerminalTheme, TerminalPalette, TerminalCellSize) {
        (self.info.theme, self.info.palette, self.info.cell_size)
    }

    /// The defaults for the terminal's theme, saved to `config_file`.
    pub fn new(config_file: String, assets_dir: String, info: TerminalInfo) -> (s: Self)
        ensures
            s.config_spec().version == SETTINGS_VERSION,
            s.config_spec().general.retention() == 80,
            s.config_spec().colors == default_colors(info.theme),
            s.paths() == (config_file@, assets_dir@),
            s.terminal() == (info.theme, info.palette, info.cell_size),
    {
        let config = Config::new(info.theme);
        Settings { config, config_file, assets_dir, info }
    }

    /// What is saved.
    pub fn config(&self) -> (c: &Config)
        ensures
            *c == self.config_spec(),
    {
        &self.config
    }

    /// Replaces what is saved.
    pub fn set_config(&mut self, config: Config)
        ensures
            final(self).config_spec() == config,
            final(self).paths() == old(self).paths(),
            final(self).terminal() == old(self).terminal(),
    {
        self.config = config;
    }

    /// The settings file.
    pub fn config_file(&self) -> (f: &str)
        ensures
            f@ == self.paths().0,
    {
        self.config_file.as_str()
    }

    /// The directory of the assets.
    pub fn assets_dir(&self) -> (d: &str)
        ensures
            d@ == self.paths().1,
    {
        self.assets_dir.as_str()
    }

    /// The terminal's theme.
    pub fn theme(&self) -> (t: TerminalTheme)
        ensures
            t == self.terminal().0,
    {
        self.info.theme
    }

    /// The terminal's palette.
    pub fn palette(&self) -> (p: TerminalPalette)
        ensures
            p == self.terminal().1,
    {
        self.info.palette
    }

    /// The terminal's cell size.
    pub fn cell_size(&self) -> (c: TerminalCellSize)
        ensures
            c == self.terminal().2,
    {
        self.info.cell_size
    }

    /// The desired retention, in percent.
    pub fn desired_retention(&self) -> (r: u8)
        ensures
            r == self.config_spec().general.retention(),
    {
        self.config.general.desired_retention()
    }

    /// Sets the desired retention; more than 100 percent counts as 100.
    pub fn set_desired_retention(&mut self, percent: u8)
        ensures
            final(self).config_spec().general.retention() == (if percent > 100 {
                100
            } else {
                percent
            }),
            final(self).config_spec().version == old(self).config_spec().version,
            final(self).config_spec().colors == old(self).config_spec().colors,
            final(self).paths() == old(self).paths(),
            final(self).terminal() == old(self).terminal(),
    {
        self.config.general.set_desired_retention(percent);
    }

    /// The colors.
    pub fn colors(&self) -> (c: &Colors)
        ensures
            *c == self.config_spec().colors,
    {
        &self.config.colors
    }

    /// The primary color.
    pub fn primary(&self) -> (c: Color)
        ensures
            c == self.config_spec().colors.primary,
    {
        self.config.colors.primary
    }

    /// The secondary color.
    pub fn secondary(&self) -> (c: Color)
        ensures
            c == self.config_spec().colors.secondary,
    {
        self.config.colors.secondary
    }

    /// The neutral color.
    pub fn neutral(&self) -> (c: Color)
        ensures
            c == self.config_spec().colors.neutral,
    {
        self.config.colors.neutral
    }

    /// Sets the primary color.
    pub fn set_primary(&mut self, color: Color)
        ensures
            final(self).config_spec() == (Config {
                colors: Colors { primary: color, ..old(self).config_spec().colors },
                ..old(self).config_spec()
            }),
            final(self).paths() == old(self).paths(),
            final(self).terminal() == old(self).terminal(),
    {
        self.config.colors.primary = color;
    }

    /// Sets the secondary color.
    pub fn set_secondary(&mut self, color: Color)
        ensures
            final(self).config_spec() == (Config {
                colors: Colors { secondary: color, ..old(self).config_spec().colors },
                ..old(self).config_spec()
            }),
            final(self).paths() == old(self).paths(),
            final(self).terminal() == old(self).terminal(),
    {
        self.config.colors.secondary = color;
    }

    /// Sets the neutral color.
    pub fn set_neutral(&mut self, color: Color)
        ensures
            final(self).config_spec() == (Config {
                colors: Colors { neutral: color, ..old(self).config_spec().colors },
                ..old(self).config_spec()
            }),
            final(self).paths() == old(self).paths(),
            final(self).terminal() == old(self).terminal(),
    {
        self.config.colors.neutral = color;
    }

    /// The colors markup is shown with.
    pub fn markup_colors(&self) -> (m: MarkupColors)
        ensures
            m == markup_colors_of(self.terminal().0, self.config_spec().colors),
    {
        MarkupColors {
            syntax_theme: match self.info.theme {
                TerminalTheme::Dark => SyntaxHighlightTheme::Base16EightiesDark,
                TerminalTheme::Light => SyntaxHighlightTheme::InspiredGitHub,
            },
            scrollbar: self.config.colors.scrollbar(),
            heading: self.config.colors.secondary,
            break_char: self.config.colors.neutral,
        }
    }
}

} // verus!
