use trollstov::layout::{align, Alignment, Padding, Rect};
use trollstov::list::{Key, List, ListMove};
use trollstov::scroll::{calculate_scroll, scroll_position, ScrollData, ScrollMargins, ScrollMove, Scrollbar};
use trollstov::settings::{Colors, General, Settings};
use trollstov::style::Color;
use trollstov::symbols::{checkmark, checkmark_with_value, stars_of, stars_split, CHECKMARK_NO, CHECKMARK_YES};
use trollstov::terminal::TerminalTheme;
use trollstov::track::{Route, TrackId, TrackSort};
use trollstov::audio::AudioRating;
use trollstov::text::hash_portable;
use trollstov::widgets::{AnsiViewMode, Shortcut};

#[test]
fn sort_columns_cycle() {
    let mut s = TrackSort::default_sort();
    assert_eq!(s, TrackSort::Album);
    for _ in 0..5 {
        s = s.next();
    }
    assert_eq!(s, TrackSort::Album);
    assert_eq!(TrackSort::Title.prev(), TrackSort::Rating);
    assert_eq!(TrackSort::Rating.next().prev(), TrackSort::Rating);
    assert_eq!(TrackSort::Title.as_str(), "Rating");
    assert_eq!(TrackSort::Rating.as_str(), "Time");
}

#[test]
fn routes_cycle() {
    assert_eq!(Route::default_route(), Route::Tracks(None));
    assert_eq!(Route::Tracks(Some(TrackId(3))).next(), Route::NowPlaying);
    assert_eq!(Route::NowPlaying.next().next(), Route::Tracks(None));
    assert_eq!(Route::Settings.prev(), Route::NowPlaying);
    assert_eq!(Route::NowPlaying.prev().next(), Route::NowPlaying);
}

#[test]
fn padding_and_alignment() {
    let r = Rect { x: 2, y: 3, width: 10, height: 6 };
    let inner = r.inner_padding(Padding { left: 1, right: 2, top: 1, bottom: 1 });
    assert_eq!(inner, Rect { x: 3, y: 4, width: 7, height: 4 });
    let big = r.inner_padding(Padding { left: 20, right: 0, top: 0, bottom: 0 });
    assert!(big.is_empty());
    let outer = Rect { x: 0, y: 0, width: 20, height: 10 };
    let placed = align(Rect { x: 0, y: 0, width: 4, height: 2 }, outer, Alignment::Center);
    assert_eq!(placed, Rect { x: 8, y: 4, width: 4, height: 2 });
    let corner = align(Rect { x: 0, y: 0, width: 4, height: 2 }, outer, Alignment::BottomRight);
    assert_eq!(corner, Rect { x: 16, y: 8, width: 4, height: 2 });
}

#[test]
fn scroll_follows_the_selected_line() {
    assert_eq!(calculate_scroll(0, 5, 0), 0);
    assert_eq!(calculate_scroll(10, 5, 0), 6);
    assert_eq!(calculate_scroll(3, 5, 6), 3);
    assert_eq!(calculate_scroll(7, 5, 6), 6);
    let s = Scrollbar::calculate_scroll(ScrollData {
        current_index: 20,
        current_scroll: 0,
        total_lines: 50,
        viewport_height: 10,
    });
    assert!(s <= 20 && 20 < s + 10);
    let m = Scrollbar::calculate_scroll_with_margins(
        ScrollData { current_index: 20, current_scroll: 0, total_lines: 50, viewport_height: 10 },
        ScrollMargins::vertical(2),
    );
    assert!(m + 2 <= 20 && 20 + 2 < m + 10);
}

#[test]
fn scroll_moves() {
    assert_eq!(scroll_position(0, ScrollMove::Down, 100, 10), 1);
    assert_eq!(scroll_position(0, ScrollMove::Up, 100, 10), 0);
    assert_eq!(scroll_position(0, ScrollMove::End, 100, 10), 90);
    assert_eq!(scroll_position(50, ScrollMove::Start, 100, 10), 0);
}

#[test]
fn list_cursor_moves_and_selects() {
    let mut list = List::new();
    list.layout(Rect { x: 0, y: 0, width: 20, height: 5 }, 10);
    assert!(list.input(Key::Down, false, false));
    assert_eq!(list.index(), 1);
    assert!(list.input(Key::Down, false, true));
    assert_eq!(list.selection_inclusive(), (1, 2));
    assert!(list.move_index(ListMove::End, false));
    assert_eq!(list.index(), 9);
    assert!(!list.move_index(ListMove::Down(1), false));
    assert!(list.input(Key::Up, false, false));
    assert_eq!(list.index(), 8);
    list.reset();
    assert_eq!(list.index(), 0);
}

#[test]
fn check_marks_and_stars() {
    assert_eq!(checkmark(true), CHECKMARK_YES);
    assert_eq!(checkmark(false), CHECKMARK_NO);
    assert_eq!(checkmark_with_value(false, 1, 2), (CHECKMARK_NO, 2));
    assert_eq!(stars_of(Some(AudioRating::Okay)), "★★★");
    assert_eq!(stars_of(None), "");
    assert_eq!(stars_split(Some(AudioRating::Bad)), ("🟊🟊", "🟊🟊🟊"));
}

#[test]
fn settings_defaults_and_limits() {
    let mut g = General::new();
    assert_eq!(g.desired_retention(), 80);
    g.set_desired_retention(150);
    assert_eq!(g.desired_retention(), 100);
    g.set_desired_retention(42);
    assert_eq!(g.desired_retention(), 42);
    let s = Settings::new(TerminalTheme::Light);
    assert_eq!(s.colors.accent, Color::Cyan);
    assert_eq!(s.skip_rating(), None);
    assert!(!s.keep_on_sort() && !s.search_by_path());
    assert_eq!(Colors::for_theme(TerminalTheme::Dark).accent, Color::Yellow);
    assert!(Settings::is_known_version(0));
    assert!(!Settings::is_known_version(1));
}

#[test]
fn small_pieces() {
    let s = Shortcut::new("Play", "Space");
    assert_eq!((s.name(), s.key()), ("Play", "Space"));
    assert_eq!(AnsiViewMode::default_mode(), AnsiViewMode::Text { center_vertical: false });
    assert_eq!(hash_portable(b"abc"), hash_portable(b"abc"));
    assert_ne!(hash_portable(b"abc"), hash_portable(b"abd"));
}

use trollstov::text_input::TextInput;
use trollstov::tokens::TokenList;
use trollstov::widgets::{CursorDelete, CursorMove};

fn typed(s: &str) -> TextInput {
    let mut t = TextInput::new(Color::Black, Color::White, Color::Gray);
    t.push_str(s);
    t
}

#[test]
fn text_input_types_and_moves_by_cluster() {
    let mut t = typed("ae\u{301}o");
    assert_eq!(t.as_str(), "ae\u{301}o");
    assert!(t.move_cursor(CursorMove::Back, false));
    assert!(t.move_cursor(CursorMove::Back, false));
    t.push_char('X');
    assert_eq!(t.as_str(), "aXe\u{301}o");
    assert!(t.delete(CursorDelete::Forward));
    assert_eq!(t.as_str(), "aXo");
    assert!(t.delete(CursorDelete::Back));
    assert_eq!(t.as_str(), "ao");
    assert!(!t.move_cursor(CursorMove::Start, false) || t.as_str() == "ao");
}

#[test]
fn text_input_whitespace_becomes_space() {
    let mut t = typed("a\tb\r\nc");
    assert_eq!(t.as_str(), "a b c");
    t.push_char('\n');
    assert_eq!(t.as_str(), "a b c ");
}

#[test]
fn text_input_selection_is_replaced() {
    let mut t = typed("hello world");
    assert!(t.move_cursor(CursorMove::Start, false));
    for _ in 0..5 {
        t.move_cursor(CursorMove::Forward, true);
    }
    assert_eq!(t.selected_text(), Some("hello".to_string()));
    assert_eq!(t.selection_range(), Some((0, 5)));
    t.push_str("bye");
    assert_eq!(t.as_str(), "bye world");
    assert!(t.select_all());
    assert!(t.delete(CursorDelete::Back));
    assert!(t.is_empty());
    assert!(!t.delete(CursorDelete::_Selection));
}

#[test]
fn text_input_keys() {
    let mut t = TextInput::new(Color::Black, Color::White, Color::Gray).with_placeholder("Search");
    assert_eq!(t.placeholder(), "Search");
    assert!(t.input(Key::Char('a'), false, false));
    assert!(t.input(Key::Char('b'), false, false));
    assert!(t.input(Key::Left, false, true));
    assert_eq!(t.selected_text(), Some("b".to_string()));
    assert!(!t.input(Key::Char('c'), true, false));
    assert!(t.input(Key::Backspace, false, false));
    assert_eq!(t.as_str(), "a");
    assert!(t.input(Key::Char('a'), true, false));
    assert_eq!(t.selection_range(), Some((0, 1)));
    assert!(!t.input(Key::Other, false, false));
    t.clear();
    assert!(t.is_empty());
}

#[test]
fn tokens_flow_into_rows_and_the_cursor_follows() {
    let widths = [3u16, 3, 3, 3, 3];
    let mut list = TokenList::new().with_gap(1);
    // Inside a padding of one, rows are 8 wide: two tokens of width 3 with a gap of 1.
    let area = Rect { x: 0, y: 0, width: 10, height: 10 };
    let (inner, scrollbar) = list.layout(area, &widths);
    assert_eq!(inner.width, 8);
    assert!(scrollbar.is_none());
    assert!(list.input(Key::Right, &widths));
    assert_eq!(list.index(), 1);
    list.layout(area, &widths);
    assert!(list.input(Key::Down, &widths));
    assert_eq!(list.index(), 3);
    list.layout(area, &widths);
    assert!(list.input(Key::Down, &widths));
    assert_eq!(list.index(), 4);
    list.layout(area, &widths);
    assert!(list.input(Key::Up, &widths));
    assert_eq!(list.index(), 2);
    assert!(list.input(Key::End, &widths));
    assert_eq!(list.index(), 4);
    assert!(list.input(Key::Home, &widths));
    assert_eq!(list.index(), 0);
    assert!(!list.input(Key::Left, &widths));
}

use trollstov::logs::{Action, Log, LogsPage};

#[test]
fn logs_count_unseen_messages_and_scroll_sideways() {
    let mut page = LogsPage::new();
    page.enqueue(Log::new("first".to_string()));
    page.enqueue(Log::new("a much longer second message".to_string()));
    assert_eq!(page.queue_len(), 2);
    page.on_enter();
    assert_eq!(page.queue_len(), 0);
    assert!(matches!(page.on_input(Key::Right), Action::Render));
    assert!(matches!(page.on_input(Key::Right), Action::Render));
    assert_eq!(page.scroll_selected(4), Some(1));
    assert!(matches!(page.on_input(Key::Left), Action::Render));
    assert!(matches!(page.on_input(Key::Char('x')), Action::Nothing));
    assert!(matches!(page.on_input(Key::Char('c')), Action::Render));
    assert!(matches!(page.on_input(Key::Char('c')), Action::Nothing));
    assert_eq!(page.scroll_selected(4), None);
    assert_eq!(Log::new("日本".to_string()).width(), 4);
}
