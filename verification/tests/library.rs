use std::time::Duration;

use trollstov::audio::{AudioFileExtension, AudioFileReport, AudioMetadata, AudioProperties, AudioRating};
use trollstov::database::{Database, DatabaseEvent, Track};
use trollstov::jukebox::{Jukebox, JukeboxEvent, PlayerCommand};
use trollstov::queue::QueueIndex;
use trollstov::track::{DirectedSort, TrackId, TrackSort};

fn track(title: &str, artist: &str, album: &str, rating: Option<AudioRating>, secs: u64) -> Track {
    Track::new(
        AudioMetadata::new(title.to_string(), artist.to_string(), album.to_string(), rating),
        AudioProperties::new(Duration::from_secs(secs)),
        format!("/music/{title}.flac"),
        AudioFileExtension::Flac,
    )
}

fn library() -> Database {
    let mut db = Database::new("/music".to_string());
    db.add_track(track("Beta", "Zed", "Middle", Some(AudioRating::Good), 200));
    db.add_track(track("Alpha", "Young", "Last", None, 100));
    db.add_track(track("Gamma", "Xavier", "First", Some(AudioRating::Awful), 300));
    db
}

fn titles(db: &Database) -> Vec<String> {
    db.iter()
        .into_iter()
        .map(|id| db.get(id).unwrap().title().to_string())
        .collect()
}

#[test]
fn tracks_get_ids_in_order_of_arrival() {
    let db = library();
    assert_eq!(db.len(), 3);
    assert_eq!(db.get(TrackId(0)).unwrap().title(), "Beta");
    assert_eq!(db.get(TrackId(2)).unwrap().title(), "Gamma");
    assert!(db.get(TrackId(3)).is_none());
}

#[test]
fn new_tracks_land_in_album_order() {
    let db = library();
    assert_eq!(db.get_sort(), TrackSort::Album);
    assert_eq!(titles(&db), vec!["Gamma", "Alpha", "Beta"]);
    assert_eq!(db.get_index_from_id(TrackId(2)), Some(0));
    assert_eq!(db.get_id_from_index(1), Some(TrackId(1)));
    assert_eq!(db.get_id_from_index(3), None);
}

#[test]
fn sorting_by_each_column() {
    let mut db = library();
    db.sort(TrackSort::Title);
    assert_eq!(titles(&db), vec!["Alpha", "Beta", "Gamma"]);
    db.sort(TrackSort::Artist);
    assert_eq!(titles(&db), vec!["Gamma", "Alpha", "Beta"]);
    db.sort(TrackSort::Time);
    assert_eq!(titles(&db), vec!["Alpha", "Beta", "Gamma"]);
    db.sort(TrackSort::Rating);
    assert_eq!(titles(&db), vec!["Alpha", "Gamma", "Beta"]);
    db.add_track(track("Delta", "W", "Z", Some(AudioRating::Bad), 10));
    assert_eq!(titles(&db), vec!["Alpha", "Gamma", "Delta", "Beta"]);
}

#[test]
fn track_fields_and_duration_text() {
    let db = library();
    let t = db.get(TrackId(1)).unwrap();
    assert_eq!(t.duration_display(), "01:40");
    assert_eq!(t.field_str(TrackSort::Time), "01:40");
    assert_eq!(t.field_str(TrackSort::Rating), "");
    assert_eq!(db.get(TrackId(0)).unwrap().field_str(TrackSort::Rating), "★★★★");
    assert_eq!(t.path(), "/music/Alpha.flac");
    assert_eq!(t.extension(), AudioFileExtension::Flac);
}

#[test]
fn compare_orders_texts_by_code_point() {
    assert_eq!(trollstov::database::compare_text("abc", "abd"), -1);
    assert_eq!(trollstov::database::compare_text("ab", "abc"), -1);
    assert_eq!(trollstov::database::compare_text("b", "abc"), 1);
    assert_eq!(trollstov::database::compare_text("é", "é"), 0);
    assert_eq!(trollstov::database::compare_text("Z", "a"), -1);
}

#[test]
fn search_finds_matching_tracks_in_library_order() {
    let mut db = library();
    let found = db.search("gamma", false);
    assert_eq!(found.len(), 1);
    assert_eq!(found[0].0, TrackId(2));
    let none = db.search("qqqq", false);
    assert!(none.is_empty());
    let by_path = db.search("music", true);
    assert_eq!(by_path.len(), 3);
    assert!(db.search("music", false).is_empty());
}

#[test]
fn random_ids_are_tracks_of_the_library() {
    let db = library();
    for _ in 0..50 {
        let id = db.random_id();
        assert!(db.get(id).is_some());
    }
}

#[test]
fn rating_writes_are_queued_and_skipped_when_unchanged() {
    let mut db = library();
    db.write_rating(TrackId(0), Some(AudioRating::Good));
    db.write_rating(TrackId(1), Some(AudioRating::Amazing));
    db.write_rating(TrackId(9), Some(AudioRating::Bad));
    assert!(db.next_write().is_none());
    let w = db.next_write().unwrap();
    assert_eq!(w.id, TrackId(1));
    assert_eq!(w.rating, Some(AudioRating::Amazing));
    assert_eq!(w.path, "/music/Alpha.flac");
    assert!(db.next_write().is_none());
    assert!(db.next_write().is_none());
    match db.apply_rating(TrackId(1), Some(AudioRating::Amazing)) {
        Some(DatabaseEvent::Rating(id)) => assert_eq!(id, TrackId(1)),
        _ => panic!("expected a rating event"),
    }
    let rated = db.get(TrackId(1)).unwrap();
    assert_eq!(rated.rating(), Some(AudioRating::Amazing));
    assert_eq!(rated.title(), "Alpha");
    assert_eq!(rated.path(), "/music/Alpha.flac");
    assert!(db.apply_rating(TrackId(7), None).is_none());
}

#[test]
fn get_mut_changes_a_track_in_place() {
    let mut db = library();
    db.get_mut(TrackId(2)).unwrap().set_rating(Some(AudioRating::Okay));
    assert_eq!(db.get(TrackId(2)).unwrap().rating(), Some(AudioRating::Okay));
    assert!(db.get_mut(TrackId(5)).is_none());
}

fn decode_target(commands: &[PlayerCommand]) -> Option<(TrackId, QueueIndex, String)> {
    commands.iter().rev().find_map(|c| match c {
        PlayerCommand::Decode(r) => Some((r.id, r.index, r.path.clone())),
        _ => None,
    })
}

#[test]
fn play_and_pause_emit_events_once() {
    let mut jb = Jukebox::new();
    jb.play();
    jb.play();
    jb.pause();
    jb.pause_or_play();
    let events = jb.take_events();
    assert_eq!(events.len(), 3);
    assert!(matches!(events[0], JukeboxEvent::Play(None)));
    assert!(matches!(events[1], JukeboxEvent::Pause));
    assert!(matches!(events[2], JukeboxEvent::Play(None)));
    let commands = jb.take_commands();
    assert!(matches!(commands[..], [PlayerCommand::Play, PlayerCommand::Pause, PlayerCommand::Play]));
    jb.stop();
    jb.stop();
    assert_eq!(jb.take_events().len(), 1);
    assert!(jb.current_track().is_none());
}

#[test]
fn play_next_skips_low_ratings_and_decodes() {
    let db = library();
    let mut jb = Jukebox::new();
    jb.set_skip(Some(AudioRating::Bad));
    jb.enqueue(TrackId(2));
    jb.enqueue(TrackId(0));
    jb.play_next(&db);
    let (id, index, path) = decode_target(&jb.take_commands()).unwrap();
    assert_eq!(id, TrackId(0));
    assert_eq!(index, QueueIndex::from(1));
    assert_eq!(path, "/music/Beta.flac");
    jb.decode_finished(Ok(()), &db);
    assert_eq!(jb.current_track(), Some((TrackId(0), QueueIndex::from(1))));
    let commands = jb.take_commands();
    assert!(matches!(
        commands[..],
        [PlayerCommand::Clear, PlayerCommand::AppendDecoded, PlayerCommand::Play]
    ));
    assert!(matches!(jb.take_events()[..], [JukeboxEvent::Play(Some(TrackId(0)))]));
}

#[test]
fn play_next_with_an_exhausted_queue_appends_a_random_track() {
    let db = library();
    let mut jb = Jukebox::new();
    jb.play_next(&db);
    assert_eq!(jb.len(), 1);
    let (id, index, _) = decode_target(&jb.take_commands()).unwrap();
    assert!(db.get(id).is_some());
    assert_eq!(index, QueueIndex::from(0));
    assert_eq!(jb.get(QueueIndex::from(0)), Some(id));
}

#[test]
fn play_next_on_an_empty_library_does_nothing() {
    let db = Database::new("/music".to_string());
    let mut jb = Jukebox::new();
    jb.enqueue(TrackId(0));
    jb.play_next(&db);
    assert!(jb.take_commands().is_empty());
    assert_eq!(jb.history(), 0);
}

#[test]
fn a_failed_decode_marks_the_track_and_moves_on() {
    let db = library();
    let mut jb = Jukebox::new();
    jb.enqueue(TrackId(1));
    jb.enqueue(TrackId(0));
    jb.play();
    jb.play_next(&db);
    jb.take_commands();
    jb.decode_finished(Err(AudioFileReport::new("broken".to_string())), &db);
    assert!(jb.is_faulty(TrackId(1)));
    let (id, _, _) = decode_target(&jb.take_commands()).unwrap();
    assert_eq!(id, TrackId(0));
    let events = jb.take_events();
    assert!(matches!(&events[events.len() - 1], JukeboxEvent::Error(r) if r.message() == "broken"));
}

#[test]
fn play_previous_steps_back_over_faulty_tracks() {
    let db = library();
    let mut jb = Jukebox::new();
    for i in 0..3 {
        jb.enqueue(TrackId(i));
    }
    jb.play_index(2, &db);
    jb.decode_finished(Ok(()), &db);
    jb.play_previous(&db);
    let (id, index, _) = decode_target(&jb.take_commands()).unwrap();
    assert_eq!((id, index), (TrackId(1), QueueIndex::from(1)));
    jb.decode_finished(Err(AudioFileReport::new("bad".to_string())), &db);
    let (id, _, _) = decode_target(&jb.take_commands()).unwrap();
    assert_eq!(id, TrackId(0));
}

#[test]
fn an_idle_device_moves_a_playing_jukebox_on() {
    let db = library();
    let mut jb = Jukebox::new();
    jb.enqueue(TrackId(0));
    jb.enqueue(TrackId(1));
    jb.play_index(0, &db);
    jb.decode_finished(Ok(()), &db);
    jb.take_commands();
    jb.idle(false, false, &db);
    assert!(jb.take_commands().is_empty());
    jb.idle(true, false, &db);
    let (id, _, _) = decode_target(&jb.take_commands()).unwrap();
    assert_eq!(id, TrackId(1));
}

#[test]
fn play_id_queues_after_the_current_track() {
    let db = library();
    let mut jb = Jukebox::new();
    jb.enqueue(TrackId(0));
    jb.enqueue(TrackId(1));
    jb.play_index(0, &db);
    jb.play_id(TrackId(2), &db);
    assert_eq!(jb.get(QueueIndex::from(1)), Some(TrackId(2)));
    let (id, index, _) = decode_target(&jb.take_commands()).unwrap();
    assert_eq!((id, index), (TrackId(2), QueueIndex::from(1)));
}

#[test]
fn clearing_keeps_the_playing_track() {
    let db = library();
    let mut jb = Jukebox::new();
    jb.enqueue(TrackId(0));
    jb.enqueue(TrackId(1));
    jb.play_index(1, &db);
    jb.decode_finished(Ok(()), &db);
    jb.clear();
    assert_eq!(jb.len(), 1);
    assert_eq!(jb.current_track(), Some((TrackId(1), QueueIndex::from(0))));
}

#[test]
fn directed_sorts_cycle_and_compare() {
    let mut s = DirectedSort::default_sort();
    assert_eq!(s, DirectedSort::AlbumAscending);
    let mut seen = Vec::new();
    for _ in 0..10 {
        seen.push(s);
        s = s.next();
    }
    assert_eq!(s, DirectedSort::AlbumAscending);
    assert_eq!(seen[1], DirectedSort::AlbumDescending);
    assert_eq!(seen[6], DirectedSort::TitleAscending);
    assert_eq!(DirectedSort::TitleAscending.prev(), DirectedSort::RatingDescending);
    assert_eq!(DirectedSort::TimeDescending.next().prev(), DirectedSort::TimeDescending);
    assert_eq!(DirectedSort::RatingDescending.column(), TrackSort::Rating);
    assert!(DirectedSort::RatingDescending.descending());
    let a = track("Alpha", "Young", "Last", None, 100);
    let b = track("Beta", "Zed", "Middle", Some(AudioRating::Good), 200);
    assert_eq!(DirectedSort::TitleAscending.cmp(&a, &b), std::cmp::Ordering::Less);
    assert_eq!(DirectedSort::TitleDescending.cmp(&a, &b), std::cmp::Ordering::Greater);
    assert_eq!(DirectedSort::TimeDescending.cmp(&b, &a), std::cmp::Ordering::Less);
    assert_eq!(DirectedSort::ArtistAscending.cmp(&a, &a), std::cmp::Ordering::Equal);
}
