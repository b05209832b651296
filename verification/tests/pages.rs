use std::time::Duration;

use trollstov::ansi::AnsiParser;
use trollstov::audio::{AudioFileExtension, AudioMetadata, AudioProperties, AudioRating};
use trollstov::database::{Database, Track};
use trollstov::formatting::{format_int, format_int2};
use trollstov::jukebox::{Jukebox, PlayerCommand};
use trollstov::layout::{HorizontalAlignment, Padding, Rect};
use trollstov::list::Key;
use trollstov::logs::Action;
use trollstov::playing::{PlayingPage, ScreenSize, ViewMode};
use trollstov::queue::QueueIndex;
use trollstov::settings::{Colors, ReadableForeground, Settings};
use trollstov::markup::trim;
use trollstov::settings_page::{next, previous, ColorSlot, LuminanceChoice, Setting, SettingsPage};
use trollstov::style::{indexed_to_color, parse_color, Color};
use trollstov::terminal::TerminalTheme;
use trollstov::text::hash_fast;
use trollstov::track::{Route, TrackId};
use trollstov::tui::{handle_key_press, AppKey, KeyPress, MediaKey, Route as Page};
use trollstov::viewer::{lines_in, AnsiViewer};
use trollstov::widgets::AnsiViewMode;

fn track(title: &str, rating: Option<AudioRating>) -> Track {
    Track::new(
        AudioMetadata::new(title.to_string(), "Artist".to_string(), "Album".to_string(), rating),
        AudioProperties::new(Duration::from_secs(60)),
        format!("/music/{title}.flac"),
        AudioFileExtension::Flac,
    )
}

fn library(n: usize) -> Database {
    let mut db = Database::new("/music".to_string());
    for i in 0..n {
        db.add_track(track(&format!("Track {i}"), None));
    }
    db
}

#[test]
fn palette_indices_name_colors() {
    assert_eq!(indexed_to_color(0), Color::Black);
    assert_eq!(indexed_to_color(9), Color::LightRed);
    assert_eq!(indexed_to_color(15), Color::White);
    assert_eq!(indexed_to_color(16), Color::Rgb(0, 0, 0));
    assert_eq!(indexed_to_color(21), Color::Rgb(0, 0, 255));
    assert_eq!(indexed_to_color(196), Color::Rgb(255, 0, 0));
    assert_eq!(indexed_to_color(231), Color::Rgb(255, 255, 255));
    assert_eq!(indexed_to_color(232), Color::Rgb(8, 8, 8));
    assert_eq!(indexed_to_color(255), Color::Rgb(238, 238, 238));
}

#[test]
fn readable_text_colors() {
    assert_eq!(Colors::readable_fg(Color::Reset), None);
    assert_eq!(Colors::readable_fg(Color::Yellow), Some(ReadableForeground::Fixed(Color::Black)));
    assert_eq!(Colors::readable_fg(Color::Blue), Some(ReadableForeground::Fixed(Color::White)));
    assert_eq!(Colors::readable_fg(Color::Gray), Some(ReadableForeground::Fixed(Color::DarkGray)));
    assert_eq!(Colors::readable_fg(Color::Indexed(3)), Some(ReadableForeground::Fixed(Color::Black)));
    assert_eq!(
        Colors::readable_fg(Color::Indexed(245)),
        Some(ReadableForeground::ByLuminance(138, 138, 138))
    );
    assert_eq!(
        Colors::readable_fg(Color::Rgb(1, 2, 3)),
        Some(ReadableForeground::ByLuminance(1, 2, 3))
    );
}

#[test]
fn settings_getters_and_setters() {
    let mut s = Settings::new(TerminalTheme::Dark);
    assert_eq!(s.accent(), Color::Yellow);
    assert_eq!(s.on_accent(), Color::Black);
    assert_eq!(s.neutral(), Color::Indexed(245));
    assert_eq!(s.on_neutral(), Color::Black);
    s.set_accent(Color::Red);
    s.set_on_accent(Color::White);
    s.set_neutral(Color::Blue);
    s.set_on_neutral(Color::Green);
    s.set_skip_rating(Some(AudioRating::Bad));
    s.set_keep_on_sort(true);
    s.set_search_by_path(true);
    assert_eq!(s.colors().accent, Color::Red);
    assert_eq!(s.colors().on_accent, Color::White);
    assert_eq!(s.colors().neutral, Color::Blue);
    assert_eq!(s.colors().on_neutral, Color::Green);
    assert_eq!(s.skip_rating(), Some(AudioRating::Bad));
    assert!(s.keep_on_sort());
    assert!(s.search_by_path());
}

#[test]
fn counts_as_text() {
    assert_eq!(format_int(0), "0");
    assert_eq!(format_int(1234567), "1234567");
    assert_eq!(format_int2(12, 300), ("12".to_string(), "300".to_string()));
    assert_eq!(format_int(-42i32), "-42");
    assert_eq!(format_int(0u8), "0");
    assert_eq!(format_int(i128::MIN), i128::MIN.to_string());
    assert_eq!(format_int(u128::MAX), u128::MAX.to_string());
    assert_eq!(format_int2(3u16, 10usize), ("3".to_string(), "10".to_string()));
    assert_eq!(format_int2(-1i8, 255u8), ("-1".to_string(), "255".to_string()));
}

#[test]
fn track_audio_quality() {
    let props = AudioProperties::new(Duration::from_secs(10)).with_quality(
        320,
        Some(24),
        Some(44100),
    );
    let t = Track::new(
        AudioMetadata::new("T".to_string(), "A".to_string(), "B".to_string(), None),
        props,
        "/t.flac".to_string(),
        AudioFileExtension::Flac,
    );
    assert_eq!(t.bit_rate(), 320);
    assert_eq!(t.bit_depth(), Some(24));
    assert_eq!(t.sample_rate(), Some(44));
    let plain = track("P", None);
    assert_eq!(plain.bit_rate(), 0);
    assert_eq!(plain.bit_depth(), None);
    assert_eq!(plain.sample_rate(), None);
}

#[test]
fn colors_as_text_and_back() {
    for c in [
        Color::Reset,
        Color::LightMagenta,
        Color::DarkGray,
        Color::Rgb(255, 128, 0),
        Color::Indexed(0),
        Color::Indexed(42),
        Color::Indexed(255),
    ] {
        assert_eq!(Color::from_text(&c.to_string()), Some(c));
    }
    assert_eq!(Color::Rgb(255, 128, 0).to_string(), "#FF8000");
    assert_eq!(Color::Indexed(42).to_string(), "42");
    assert_eq!(Color::LightBlue.to_string(), "LightBlue");
    assert_eq!(Color::from_text("#ff8000"), None);
    assert_eq!(Color::from_text("042"), None);
    assert_eq!(Color::from_text("red"), None);
}

#[test]
fn colors_are_read_like_the_interface_library() {
    assert_eq!(parse_color("red"), Some(Color::Red));
    assert_eq!(parse_color("Light Red"), Some(Color::LightRed));
    assert_eq!(parse_color("bright-blue"), Some(Color::LightBlue));
    assert_eq!(parse_color("grey"), Some(Color::Gray));
    assert_eq!(parse_color("#ff8000"), Some(Color::Rgb(255, 128, 0)));
    assert_eq!(parse_color("200"), Some(Color::Indexed(200)));
    assert_eq!(parse_color("256"), None);
    assert_eq!(parse_color("nope"), None);
}

#[test]
fn trimming_removes_outer_whitespace() {
    assert_eq!(trim("  red \t"), "red");
    assert_eq!(trim("light red"), "light red");
    assert_eq!(trim(" \n "), "");
    assert_eq!(trim(""), "");
}

#[test]
fn fast_hash_is_stable_within_a_run() {
    assert_eq!(hash_fast("same text"), hash_fast("same text"));
}

#[test]
fn lines_are_counted_like_str_lines() {
    for s in ["", "a", "a\n", "a\nb", "\n\n", "a\r\nb\r\n"] {
        assert_eq!(lines_in(s), s.lines().count());
    }
}

#[test]
fn styled_parser_from_a_parser() {
    let mut p = AnsiParser::new("\u{1b}[1mbold").with_style();
    let (text, style) = p.next().unwrap();
    assert_eq!(text, "bold");
    assert!(style.has(trollstov::style::BOLD));
}

#[test]
fn viewer_scrolls_a_page() {
    let text = "one\ntwo\nthree\nfour\nfive\nsix\nseven\neight\nnine\nten";
    let mut v = AnsiViewer::new().with_text_alignment(HorizontalAlignment::Center);
    v.set_view_mode(AnsiViewMode::Page { scrollbar: true, scrollbar_margin: 1 });
    let area = Rect { x: 0, y: 0, width: 20, height: 3 };
    let frame = v.layout(area, text).unwrap();
    assert_eq!(frame.skip, 0);
    assert_eq!(frame.inner.width, 18);
    assert_eq!(frame.inner.height, 3);
    let bar = frame.scrollbar.unwrap();
    assert_eq!(bar.area.x, 19);
    assert_eq!(bar.data.total_items, 10);
    assert!(v.input(Key::End));
    assert_eq!(v.current_scroll(), 7);
    assert!(!v.input(Key::Down));
    assert!(v.input(Key::Up));
    let frame = v.layout(area, text).unwrap();
    assert_eq!(frame.skip, 6);
    assert!(v.input(Key::Home));
    assert_eq!(v.current_scroll(), 0);
    assert!(!v.input(Key::Char('x')));
}

#[test]
fn viewer_centres_short_text() {
    let mut v = AnsiViewer::new()
        .with_padding(Padding { left: 1, right: 1, top: 0, bottom: 0 });
    v.set_view_mode(AnsiViewMode::Text { center_vertical: true });
    let frame = v.layout(Rect { x: 0, y: 0, width: 30, height: 10 }, "two\nlines").unwrap();
    assert_eq!(frame.inner, Rect { x: 1, y: 4, width: 28, height: 2 });
    assert_eq!(frame.skip, 0);
    assert!(frame.scrollbar.is_none());
    assert_eq!(v.text(), "two\nlines");
    assert!(v.layout(Rect { x: 0, y: 0, width: 2, height: 10 }, "x").is_none());
}

#[test]
fn fast_forward_only_with_something_to_play() {
    let mut jb = Jukebox::new();
    jb.fast_forward_by(Duration::from_secs(30), true);
    assert!(jb.take_commands().is_empty());
    jb.fast_forward_by(Duration::from_secs(30), false);
    let cmds = jb.take_commands();
    assert_eq!(cmds.len(), 1);
    assert!(matches!(cmds[0], PlayerCommand::SeekForward(d) if d == Duration::from_secs(30)));
}

#[test]
fn clear_and_shuffle_report_changes() {
    let mut jb = Jukebox::new();
    assert!(!jb.shuffle());
    assert!(!jb.clear());
    jb.enqueue(TrackId(0));
    assert!(!jb.shuffle());
    jb.enqueue(TrackId(1));
    assert!(jb.shuffle());
    assert!(jb.clear());
    assert_eq!(jb.len(), 0);
}

#[test]
fn key_bindings_of_the_first_interface() {
    assert_eq!(handle_key_press(AppKey::Esc, false, false, Page::Tracks), KeyPress::Quit);
    assert_eq!(
        handle_key_press(AppKey::Tab, false, false, Page::Logs),
        KeyPress::Route(Page::Tracks)
    );
    assert_eq!(
        handle_key_press(AppKey::BackTab, false, false, Page::Tracks),
        KeyPress::Route(Page::Logs)
    );
    assert_eq!(handle_key_press(AppKey::Up, true, false, Page::Tracks), KeyPress::PauseOrPlay);
    assert_eq!(handle_key_press(AppKey::Up, false, false, Page::Tracks), KeyPress::ToPage);
    assert_eq!(handle_key_press(AppKey::Down, true, false, Page::Queue), KeyPress::Stop);
    assert_eq!(handle_key_press(AppKey::Right, true, true, Page::Queue), KeyPress::PlayNext);
    assert_eq!(
        handle_key_press(AppKey::Right, false, true, Page::Queue),
        KeyPress::FastForward(30)
    );
    assert_eq!(handle_key_press(AppKey::Left, true, false, Page::Queue), KeyPress::PlayPrevious);
    assert_eq!(
        handle_key_press(AppKey::Media(MediaKey::TrackNext), false, false, Page::Queue),
        KeyPress::PlayNext
    );
    assert_eq!(
        handle_key_press(AppKey::Media(MediaKey::PlayPause), false, false, Page::Queue),
        KeyPress::PauseOrPlay
    );
    assert_eq!(
        handle_key_press(AppKey::Char('/'), false, false, Page::Tracks),
        KeyPress::Route(Page::Search)
    );
    assert_eq!(handle_key_press(AppKey::Char('/'), false, false, Page::Search), KeyPress::ToPage);
    assert_eq!(handle_key_press(AppKey::Char('x'), false, false, Page::Search), KeyPress::ToPage);
    assert_eq!(Page::Logs.next(), Page::Tracks);
    assert_eq!(Page::Tracks.prev(), Page::Logs);
}

#[test]
fn settings_lines_skip_headings_and_gaps() {
    assert_eq!(next(0), Some(2));
    assert_eq!(next(4), Some(8));
    assert_eq!(next(11), None);
    assert_eq!(previous(8), Some(4));
    assert_eq!(previous(2), None);
    assert_eq!(previous(0), None);
    assert!(!Setting::General.filter());
    assert!(Setting::AccentColor.filter());
}

fn settings_page() -> (SettingsPage, Settings) {
    let settings = Settings::new(TerminalTheme::Dark);
    let mut page = SettingsPage::new(&settings, Settings::new(TerminalTheme::Light));
    page.layout(Rect { x: 0, y: 0, width: 60, height: 20 });
    (page, settings)
}

const LUM: LuminanceChoice = LuminanceChoice { on_accent: Color::White, on_neutral: Color::Black };

#[test]
fn settings_page_edits_applies_and_saves() {
    let (mut page, mut settings) = settings_page();
    assert_eq!(page.current(), Setting::SkipRating);
    assert!(matches!(page.on_input(Key::Up, false, false, &mut settings, LUM), Action::Nothing));
    assert!(matches!(page.on_input(Key::Char('3'), false, false, &mut settings, LUM), Action::Render));
    assert_eq!(page.settings().skip_rating(), Some(AudioRating::Okay));
    assert!(matches!(page.on_input(Key::Char('3'), false, false, &mut settings, LUM), Action::Nothing));
    assert!(!page.is_applied());
    assert!(matches!(page.on_input(Key::Down, false, false, &mut settings, LUM), Action::Render));
    assert_eq!(page.current(), Setting::KeepTrackSort);
    assert!(matches!(page.on_input(Key::Char(' '), false, false, &mut settings, LUM), Action::Render));
    assert!(page.settings().keep_on_sort());
    assert!(matches!(page.on_input(Key::Char('a'), true, false, &mut settings, LUM), Action::ApplySettings));
    assert_eq!(settings, *page.settings());
    assert!(page.is_applied());
    assert!(!page.is_written());
    assert!(matches!(page.on_input(Key::Char('s'), true, false, &mut settings, LUM), Action::SaveSettings));
    page.mark_written();
    assert!(page.is_written());
    assert!(matches!(page.on_input(Key::Char('r'), true, false, &mut settings, LUM), Action::Render));
    assert_eq!(page.settings().accent(), Color::Cyan);
    assert_eq!(page.color_input(ColorSlot::Accent).as_str(), "Cyan");
}

#[test]
fn settings_page_reads_colors() {
    let (mut page, mut settings) = settings_page();
    for _ in 0..3 {
        page.on_input(Key::Down, false, false, &mut settings, LUM);
    }
    assert_eq!(page.current(), Setting::AccentColor);
    assert_eq!(page.color_input(ColorSlot::Accent).as_str(), "Yellow");
    assert!(matches!(page.on_input(Key::Enter, false, false, &mut settings, LUM), Action::Nothing));
    for _ in 0..6 {
        page.on_input(Key::Backspace, false, false, &mut settings, LUM);
    }
    for c in " zzz ".chars() {
        page.on_input(Key::Char(c), false, false, &mut settings, LUM);
    }
    match page.on_input(Key::Enter, false, false, &mut settings, LUM) {
        Action::Log(log) => assert_eq!(log.message(), "Failed to parse \"zzz\" as a color"),
        _ => panic!("expected a log"),
    }
    page.on_input(Key::Char('a'), true, false, &mut settings, LUM);
    for c in "#00ff00".chars() {
        page.on_input(Key::Char(c), false, false, &mut settings, LUM);
    }
    assert!(matches!(page.on_input(Key::Enter, false, false, &mut settings, LUM), Action::Render));
    assert_eq!(page.settings().accent(), Color::Rgb(0, 255, 0));
    assert!(matches!(page.on_input(Key::Down, false, false, &mut settings, LUM), Action::Render));
    assert!(matches!(page.on_input(Key::Char('g'), true, false, &mut settings, LUM), Action::Render));
    assert_eq!(page.settings().on_accent(), Color::White);
    assert_eq!(page.color_input(ColorSlot::OnAccent).as_str(), "White");
    page.on_input(Key::Down, false, false, &mut settings, LUM);
    page.on_input(Key::Down, false, false, &mut settings, LUM);
    assert_eq!(page.current(), Setting::OnNeutralColor);
    assert!(matches!(page.on_input(Key::Char('g'), true, false, &mut settings, LUM), Action::Render));
    assert_eq!(page.settings().on_neutral(), Color::Black);
}

#[test]
fn playing_page_with_an_empty_queue() {
    let mut db = library(2);
    let mut jb = Jukebox::new();
    let mut page = PlayingPage::new();
    assert_eq!(page.view_mode(), ViewMode::Both);
    assert!(matches!(
        page.on_input(Key::Enter, false, false, &mut db, &mut jb, ScreenSize::Large),
        Action::Nothing
    ));
    assert!(matches!(
        page.on_input(Key::Char('v'), false, false, &mut db, &mut jb, ScreenSize::Large),
        Action::Render
    ));
    assert_eq!(page.view_mode(), ViewMode::Queue);
    page.on_input(Key::Char('v'), false, false, &mut db, &mut jb, ScreenSize::Small);
    assert_eq!(page.view_mode(), ViewMode::Cover);
}

#[test]
fn playing_page_edits_the_queue() {
    let mut db = library(3);
    let mut jb = Jukebox::new();
    for i in 0..3 {
        jb.enqueue(TrackId(i));
    }
    let mut page = PlayingPage::new();
    page.layout(Rect { x: 0, y: 0, width: 40, height: 10 }, jb.len());
    let large = ScreenSize::Large;
    assert!(matches!(
        page.on_input(Key::Char('g'), false, false, &mut db, &mut jb, large),
        Action::Route(Route::Tracks(Some(TrackId(0))))
    ));
    assert!(matches!(page.on_input(Key::Char('m'), false, false, &mut db, &mut jb, large), Action::Render));
    assert_eq!(jb.get(QueueIndex::from(1)), Some(TrackId(0)));
    assert_eq!(page.list().index(), 1);
    assert!(matches!(page.on_input(Key::Char('M'), false, false, &mut db, &mut jb, large), Action::Render));
    assert_eq!(jb.get(QueueIndex::from(0)), Some(TrackId(0)));
    assert!(matches!(page.on_input(Key::Char('r'), false, false, &mut db, &mut jb, large), Action::Render));
    assert_eq!(jb.len(), 2);
    assert_eq!(jb.get(QueueIndex::from(0)), Some(TrackId(1)));
    page.layout(Rect { x: 0, y: 0, width: 40, height: 10 }, jb.len());
    assert!(matches!(page.on_input(Key::Enter, false, false, &mut db, &mut jb, large), Action::Nothing));
    assert!(jb
        .take_commands()
        .iter()
        .any(|c| matches!(c, PlayerCommand::Decode(r) if r.id == TrackId(1))));
    jb.decode_finished(Ok(()), &db);
    assert!(matches!(page.on_input(Key::Char('4'), false, false, &mut db, &mut jb, large), Action::Nothing));
    let write = db.next_write().unwrap();
    assert_eq!(write.id, TrackId(1));
    assert_eq!(write.rating, Some(AudioRating::Good));
    assert!(matches!(page.on_input(Key::Down, false, false, &mut db, &mut jb, large), Action::Render));
    assert!(matches!(page.on_input(Key::Char('c'), false, false, &mut db, &mut jb, large), Action::Render));
    assert_eq!(jb.len(), 1);
    page.update_scroll_on_new_track(&jb);
    assert_eq!(page.list().index(), 0);
}

#[test]
fn viewer_lays_out_again_only_for_a_new_hash_or_size() {
    let mut v = AnsiViewer::new();
    let area = Rect { x: 0, y: 0, width: 20, height: 5 };
    v.layout_hashed(area, "first", 1).unwrap();
    assert_eq!(v.text(), "first");
    v.layout_hashed(area, "second", 1).unwrap();
    assert_eq!(v.text(), "first");
    v.layout_hashed(Rect { width: 21, ..area }, "second", 1).unwrap();
    assert_eq!(v.text(), "second");
    v.layout_hashed(Rect { width: 21, ..area }, "third", 2).unwrap();
    assert_eq!(v.text(), "third");
}
