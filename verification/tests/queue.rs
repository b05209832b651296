use trollstov::queue::{PlayQueue, QueueIndex};
use trollstov::track::TrackId;

fn check_play_queue() {
    const TRACKS_LEN: usize = 2;
    let mut queue = PlayQueue::new();

    for i in 0..TRACKS_LEN {
        queue.enqueue(TrackId(i as u64));
    }

    assert_eq!(queue.current(), None);
    assert_eq!(queue.len(), TRACKS_LEN);
    assert_eq!(queue.queue_len(), TRACKS_LEN);
    assert_eq!(queue.history_len(), 0);

    // Next
    assert_eq!(queue.next(), Some((TrackId(0), QueueIndex::from(0))));
    assert_eq!(queue.current(), Some((TrackId(0), QueueIndex::from(0))));
    assert_eq!(queue.len(), TRACKS_LEN);
    assert_eq!(queue.queue_len(), TRACKS_LEN - 1);
    assert_eq!(queue.history_len(), 0);

    assert_eq!(queue.next(), Some((TrackId(1), QueueIndex::from(1))));
    assert_eq!(queue.current(), Some((TrackId(1), QueueIndex::from(1))));
    assert_eq!(queue.len(), TRACKS_LEN);
    assert_eq!(queue.queue_len(), TRACKS_LEN - 2);
    assert_eq!(queue.history_len(), 1);

    assert_eq!(queue.next(), None);
    assert_eq!(queue.current(), Some((TrackId(1), QueueIndex::from(1))));
    assert_eq!(queue.len(), TRACKS_LEN);
    assert_eq!(queue.queue_len(), 0);
    assert_eq!(queue.history_len(), 1);

    // Previous
    assert_eq!(queue.previous(), Some((TrackId(0), QueueIndex::from(0))));
    assert_eq!(queue.current(), Some((TrackId(0), QueueIndex::from(0))));
    assert_eq!(queue.len(), TRACKS_LEN);
    assert_eq!(queue.queue_len(), 1);
    assert_eq!(queue.history_len(), 0);

    assert_eq!(queue.previous(), None);
    assert_eq!(queue.current(), Some((TrackId(0), QueueIndex::from(0))));
    assert_eq!(queue.len(), TRACKS_LEN);
    assert_eq!(queue.queue_len(), 1);
    assert_eq!(queue.history_len(), 0);
}

#[test]
fn play_queue() {
    check_play_queue();
}

#[test]
fn queue_play_queue() {
    check_play_queue();
}

#[test]
fn jukebox_play_queue() {
    check_play_queue();
}

fn ids(queue: &PlayQueue) -> Vec<u64> {
    queue.iter().into_iter().map(|(id, _)| id.0).collect()
}

fn queue_of(n: u64) -> PlayQueue {
    let mut queue = PlayQueue::new();
    for i in 0..n {
        queue.enqueue(TrackId(i));
    }
    queue
}

#[test]
fn enqueue_next_goes_after_current() {
    let mut queue = queue_of(3);
    queue.enqueue_next(TrackId(9));
    assert_eq!(ids(&queue), vec![9, 0, 1, 2]);
    queue.set_index(1);
    queue.enqueue_next(TrackId(8));
    assert_eq!(ids(&queue), vec![9, 0, 8, 1, 2]);
    assert_eq!(queue.current(), Some((TrackId(0), QueueIndex::from(1))));
}

#[test]
fn previous_then_next_returns_to_the_same_track() {
    let mut queue = queue_of(4);
    queue.set_index(2);
    assert_eq!(queue.previous(), Some((TrackId(1), QueueIndex::from(1))));
    assert_eq!(queue.next(), Some((TrackId(2), QueueIndex::from(2))));
}

#[test]
fn shuffle_keeps_tracks_and_history() {
    let mut queue = queue_of(20);
    queue.set_index(4);
    queue.shuffle(5);
    let after = ids(&queue);
    assert_eq!(&after[..5], &[0, 1, 2, 3, 4]);
    let mut sorted = after.clone();
    sorted.sort();
    assert_eq!(sorted, (0..20).collect::<Vec<u64>>());
    assert_eq!(queue.current(), Some((TrackId(4), QueueIndex::from(4))));
}

#[test]
fn move_up_and_down_swap_neighbours() {
    let mut queue = queue_of(4);
    queue.set_index(2);
    assert!(queue.move_up(2));
    assert_eq!(ids(&queue), vec![0, 2, 1, 3]);
    assert_eq!(queue.current(), Some((TrackId(2), QueueIndex::from(1))));
    assert!(queue.move_down(1));
    assert_eq!(ids(&queue), vec![0, 1, 2, 3]);
    assert_eq!(queue.current(), Some((TrackId(2), QueueIndex::from(2))));
    assert!(!queue.move_up(0));
    assert!(!queue.move_down(3));
}

#[test]
fn move_ranges_shift_blocks() {
    let mut queue = queue_of(5);
    assert!(queue.move_down_range(1, 2));
    assert_eq!(ids(&queue), vec![0, 3, 1, 2, 4]);
    assert!(queue.move_up_range(2, 3));
    assert_eq!(ids(&queue), vec![0, 1, 2, 3, 4]);
}

#[test]
fn remove_keeps_current_track() {
    let mut queue = queue_of(4);
    queue.set_index(2);
    assert_eq!(queue.remove(2, true), None);
    assert_eq!(queue.remove(0, true), Some(TrackId(0)));
    assert_eq!(queue.current(), Some((TrackId(2), QueueIndex::from(1))));
    assert_eq!(queue.remove(7, true), None);
}

#[test]
fn remove_range_keeps_current_track() {
    let mut queue = queue_of(6);
    queue.set_index(3);
    assert!(queue.remove_range(1, 4, true));
    assert_eq!(ids(&queue), vec![0, 3, 5]);
    assert_eq!(queue.current(), Some((TrackId(3), QueueIndex::from(1))));
}

#[test]
fn clear_and_reset() {
    let mut queue = queue_of(3);
    queue.set_index(1);
    queue.reset();
    assert_eq!(queue.current(), None);
    queue.clear();
    assert!(queue.is_empty());
}

#[test]
fn shuffle_with_swaps_in_turn() {
    let mut queue = PlayQueue::new();
    for i in 1..=4 {
        queue.enqueue(TrackId(i));
    }
    assert_eq!(queue.next(), Some((TrackId(1), QueueIndex::from(0))));
    queue.shuffle_with(1, &vec![3, 1, 3]);
    let ids: Vec<u64> = (0..4).map(|i| queue.get(i).unwrap().0).collect();
    assert_eq!(ids, vec![1, 3, 4, 2]);
    assert_eq!(queue.current(), Some((TrackId(1), QueueIndex::from(0))));
}
