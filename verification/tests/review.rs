use trollstov::list::ListColors;
use trollstov::markup::{MarkupColors, MarkupOptions, SyntaxHighlightTheme};
use trollstov::review::{Colors, Config, Settings};
use trollstov::scroll::ScrollbarColors;
use trollstov::style::Color;
use trollstov::terminal::{TerminalCellSize, TerminalColor, TerminalInfo, TerminalPalette, TerminalTheme};
use trollstov::tokens::TokenListColors;

fn info(light: bool) -> TerminalInfo {
    let (fg, bg) = if light {
        (TerminalColor { r: 0, g: 0, b: 0 }, TerminalColor { r: 255, g: 255, b: 255 })
    } else {
        (TerminalColor { r: 255, g: 255, b: 255 }, TerminalColor { r: 0, g: 0, b: 0 })
    };
    TerminalInfo::new(
        TerminalPalette { foreground: fg, background: bg },
        TerminalCellSize { width: 8, height: 16 },
    )
}

#[test]
fn review_defaults_follow_the_theme() {
    let dark = Settings::new("cfg.toml".to_string(), "assets".to_string(), info(false));
    assert_eq!(dark.theme(), TerminalTheme::Dark);
    assert_eq!(dark.primary(), Color::LightYellow);
    assert_eq!(dark.secondary(), Color::Yellow);
    assert_eq!(dark.neutral(), Color::Indexed(245));
    assert_eq!(dark.desired_retention(), 80);
    assert_eq!(dark.config_file(), "cfg.toml");
    assert_eq!(dark.assets_dir(), "assets");
    assert_eq!(dark.cell_size(), TerminalCellSize { width: 8, height: 16 });

    let light = Settings::new("a".to_string(), "b".to_string(), info(true));
    assert_eq!(light.theme(), TerminalTheme::Light);
    assert_eq!(light.primary(), Color::LightCyan);
    assert_eq!(light.secondary(), Color::Cyan);
}

#[test]
fn review_retention_is_at_most_a_hundred() {
    let mut s = Settings::new("a".to_string(), "b".to_string(), info(false));
    s.set_desired_retention(95);
    assert_eq!(s.desired_retention(), 95);
    s.set_desired_retention(130);
    assert_eq!(s.desired_retention(), 100);
    assert_eq!(s.primary(), Color::LightYellow);
}

#[test]
fn review_color_setters_and_config() {
    let mut s = Settings::new("a".to_string(), "b".to_string(), info(false));
    s.set_primary(Color::Red);
    s.set_secondary(Color::Green);
    s.set_neutral(Color::Blue);
    assert_eq!(*s.colors(), Colors { primary: Color::Red, secondary: Color::Green, neutral: Color::Blue });
    let fresh = Config::new(TerminalTheme::Light);
    s.set_config(fresh);
    assert_eq!(s.primary(), Color::LightCyan);
    assert_eq!(s.config().version, 0);
    assert!(Config::is_known_version(0));
    assert!(!Config::is_known_version(1));
}

#[test]
fn review_widget_colors() {
    let c = Colors::new(TerminalTheme::Dark);
    let bar = ScrollbarColors { thumb: Color::Indexed(245), track: None };
    assert_eq!(c.scrollbar(), bar);
    assert_eq!(c.list(), ListColors { scrollbar: bar });
    assert_eq!(c.token_list(), TokenListColors { scrollbar: bar });
    let t = c.text_input();
    assert_eq!(t.normal, Color::Reset);
    assert_eq!(t.cursor, Color::Yellow);
    assert_eq!(t.placeholder, Color::Indexed(245));
    let e = c.text_editor();
    assert_eq!(e.selector, Color::Indexed(245));
    assert_eq!(e.disabled, Color::Indexed(245));
}

#[test]
fn review_markup_colors() {
    let mut s = Settings::new("a".to_string(), "b".to_string(), info(true));
    s.set_secondary(Color::Magenta);
    let m = s.markup_colors();
    assert_eq!(m.syntax_theme, SyntaxHighlightTheme::InspiredGitHub);
    assert_eq!(m.heading, Color::Magenta);
    assert_eq!(m.break_char, Color::Indexed(245));
    let dark = Settings::new("a".to_string(), "b".to_string(), info(false));
    assert_eq!(dark.markup_colors().syntax_theme, SyntaxHighlightTheme::Base16EightiesDark);
}

#[test]
fn markup_defaults() {
    let o = MarkupOptions::default();
    assert!(!o.scrollbar);
    assert_eq!(o.scrollbar_margin, 1);
    assert_eq!(o.break_char, '\u{2500}');
    let c = MarkupColors::default();
    assert_eq!(c.heading, Color::Yellow);
    assert_eq!(c.break_char, Color::Indexed(240));
    assert_eq!(c.syntax_theme, SyntaxHighlightTheme::Base16EightiesDark);
    assert_eq!(ListColors::default().scrollbar.thumb, Color::Indexed(240));
    assert_eq!(TokenListColors::new().scrollbar.track, None);
}
