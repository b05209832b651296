use std::time::Duration;

use trollstov::audio::{AudioFileExtension, AudioMetadata, AudioProperties, AudioRating};
use trollstov::database::{Database, Track};
use trollstov::jukebox::{Jukebox, PlayerCommand};
use trollstov::layout::Rect;
use trollstov::list::Key;
use trollstov::logs::Action;
use trollstov::queue::QueueIndex;
use trollstov::track::{TrackId, TrackSort};
use trollstov::tracks_page::TracksPage;

fn track(title: &str, album: &str, secs: u64) -> Track {
    Track::new(
        AudioMetadata::new(title.to_string(), "Artist".to_string(), album.to_string(), None),
        AudioProperties::new(Duration::from_secs(secs)),
        format!("/music/{title}.flac"),
        AudioFileExtension::Flac,
    )
}

fn library() -> Database {
    let mut db = Database::new("/music".to_string());
    db.add_track(track("c", "A", 30));
    db.add_track(track("a", "B", 10));
    db.add_track(track("b", "C", 20));
    db
}

fn order(db: &Database) -> Vec<u64> {
    db.iter().into_iter().map(|id| id.0).collect()
}

fn area() -> Rect {
    Rect { x: 0, y: 0, width: 60, height: 10 }
}

#[test]
fn tracks_page_plays_the_track_under_the_cursor() {
    let mut db = library();
    let mut jb = Jukebox::new();
    let mut page = TracksPage::new();
    page.layout(area(), db.len());
    assert!(matches!(page.on_input(Key::Down, false, false, &mut db, &mut jb), Action::Render));
    assert!(matches!(page.on_input(Key::Enter, false, false, &mut db, &mut jb), Action::Nothing));
    assert_eq!(jb.len(), 1);
    assert_eq!(jb.get(QueueIndex::from(0)), Some(TrackId(1)));
    assert!(jb
        .take_commands()
        .iter()
        .any(|c| matches!(c, PlayerCommand::Decode(r) if r.id == TrackId(1))));
}

#[test]
fn tracks_page_queues_the_selection() {
    let mut db = library();
    let mut jb = Jukebox::new();
    let mut page = TracksPage::new();
    page.layout(area(), db.len());
    assert!(matches!(page.on_input(Key::Down, false, true, &mut db, &mut jb), Action::Render));
    assert_eq!(page.table().selection_inclusive(), (0, 1));
    assert!(matches!(page.on_input(Key::Char('q'), false, false, &mut db, &mut jb), Action::Nothing));
    assert_eq!(jb.len(), 2);
    assert_eq!(jb.get(QueueIndex::from(0)), Some(TrackId(0)));
    assert_eq!(jb.get(QueueIndex::from(1)), Some(TrackId(1)));
    assert!(matches!(page.on_input(Key::Char('n'), false, false, &mut db, &mut jb), Action::Nothing));
    assert_eq!(jb.len(), 4);
    let queued: Vec<TrackId> = (0..4).map(|i| jb.get(QueueIndex::from(i)).unwrap()).collect();
    assert_eq!(queued, vec![TrackId(0), TrackId(1), TrackId(0), TrackId(1)]);
}

#[test]
fn tracks_page_plays_next_after_the_current_track() {
    let mut db = library();
    let mut jb = Jukebox::new();
    jb.enqueue(TrackId(2));
    jb.enqueue(TrackId(2));
    jb.play_index(0, &db);
    let mut page = TracksPage::new();
    page.layout(area(), db.len());
    page.on_input(Key::Down, false, true, &mut db, &mut jb);
    page.on_input(Key::Char('n'), false, false, &mut db, &mut jb);
    let queued: Vec<TrackId> = (0..4).map(|i| jb.get(QueueIndex::from(i)).unwrap()).collect();
    assert_eq!(queued, vec![TrackId(2), TrackId(0), TrackId(1), TrackId(2)]);
}

#[test]
fn tracks_page_rates_the_selection() {
    let mut db = library();
    let mut jb = Jukebox::new();
    let mut page = TracksPage::new();
    page.layout(area(), db.len());
    page.on_input(Key::End, false, true, &mut db, &mut jb);
    assert!(matches!(page.on_input(Key::Char('5'), false, false, &mut db, &mut jb), Action::Nothing));
    let ids: Vec<TrackId> = (0..3).map(|_| db.next_write().unwrap().id).collect();
    assert_eq!(ids, vec![TrackId(0), TrackId(1), TrackId(2)]);
    assert!(db.next_write().is_none());
    page.on_input(Key::Home, false, false, &mut db, &mut jb);
    page.on_input(Key::Char('0'), false, false, &mut db, &mut jb);
    assert!(db.next_write().is_none());
    page.on_input(Key::Char('3'), false, false, &mut db, &mut jb);
    let w = db.next_write().unwrap();
    assert_eq!((w.id, w.rating), (TrackId(0), Some(AudioRating::Okay)));
}

#[test]
fn tracks_page_sorts_and_keeps_the_cursor_on_its_track() {
    let mut db = library();
    let mut jb = Jukebox::new();
    let mut page = TracksPage::new();
    page.set_keep_on_sort(true);
    page.layout(area(), db.len());
    assert_eq!(order(&db), vec![0, 1, 2]);
    assert!(matches!(page.on_input(Key::Char('s'), false, false, &mut db, &mut jb), Action::Render));
    assert_eq!(db.get_sort(), TrackSort::Time);
    assert_eq!(order(&db), vec![1, 2, 0]);
    assert_eq!(page.table().index(), 2);
    assert!(matches!(page.on_input(Key::Char('S'), false, false, &mut db, &mut jb), Action::Render));
    assert_eq!(db.get_sort(), TrackSort::Time);
    assert_eq!(order(&db), vec![0, 2, 1]);
    assert_eq!(page.table().index(), 0);
}

#[test]
fn tracks_page_sorting_without_keeping_the_cursor() {
    let mut db = library();
    let mut jb = Jukebox::new();
    let mut page = TracksPage::new();
    page.layout(area(), db.len());
    page.on_input(Key::Char('s'), false, false, &mut db, &mut jb);
    page.on_input(Key::Char('s'), false, false, &mut db, &mut jb);
    assert_eq!(db.get_sort(), TrackSort::Rating);
    page.on_input(Key::Char('s'), false, false, &mut db, &mut jb);
    assert_eq!(db.get_sort(), TrackSort::Title);
    assert_eq!(order(&db), vec![1, 2, 0]);
    assert_eq!(page.table().index(), 0);
}

#[test]
fn tracks_page_enters_on_a_track() {
    let db = library();
    let mut page = TracksPage::new();
    page.layout(area(), db.len());
    page.on_enter(Some(TrackId(2)), &db);
    assert_eq!(page.table().index(), 2);
    assert_eq!(page.table().selector(), None);
    page.on_enter(Some(TrackId(9)), &db);
    assert_eq!(page.table().index(), 2);
}

#[test]
fn reversed_library_keeps_new_tracks_in_order() {
    let mut db = library();
    db.sort_with(TrackSort::Title, true);
    assert_eq!(order(&db), vec![0, 2, 1]);
    db.add_track(track("bb", "D", 5));
    assert_eq!(order(&db), vec![0, 3, 2, 1]);
}
