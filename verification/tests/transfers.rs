use niri_input_portal::portal::tracker::MAX_PENDING_TRANSFERS;
use niri_input_portal::portal::ClipboardTracker;
use rustix::fd::OwnedFd;

fn a_pipe() -> OwnedFd {
    // The read end: an fd whose only job here is to be held and dropped.
    rustix::pipe::pipe().expect("pipe").0
}

#[test]
fn parked_transfers_are_capped() {
    let mut tracker = ClipboardTracker::default();
    for _ in 0..MAX_PENDING_TRANSFERS * 3 {
        tracker.begin_transfer(a_pipe());
    }
    // Local applications poll the clipboard indefinitely; without the cap
    // this is where the process runs out of file descriptors.
    assert_eq!(tracker.transfers.len(), MAX_PENDING_TRANSFERS);
    assert_eq!(tracker.order.len(), MAX_PENDING_TRANSFERS);
}

#[test]
fn the_oldest_transfer_is_the_one_dropped() {
    let mut tracker = ClipboardTracker::default();
    let first = tracker.begin_transfer(a_pipe());
    for _ in 0..MAX_PENDING_TRANSFERS {
        tracker.begin_transfer(a_pipe());
    }
    assert!(
        tracker.take_transfer(first).is_none(),
        "the oldest transfer should have been evicted, not a newer one"
    );
}

#[test]
fn taking_a_transfer_removes_it_once() {
    let mut tracker = ClipboardTracker::default();
    let serial = tracker.begin_transfer(a_pipe());
    assert!(tracker.take_transfer(serial).is_some());
    assert!(tracker.take_transfer(serial).is_none());
    assert!(tracker.order.is_empty(), "order must not keep a taken serial");
}

#[test]
fn serials_never_reuse_zero() {
    // Zero is the "no such transfer" value, so a wrap must skip it.
    let mut tracker = ClipboardTracker { next_serial: u32::MAX, ..Default::default() };
    let serial = tracker.begin_transfer(a_pipe());
    assert_ne!(serial, 0);
}

#[test]
fn serials_count_up_from_one() {
    let mut tracker: ClipboardTracker<&str> = ClipboardTracker::default();
    assert_eq!(tracker.begin_transfer("a"), 1);
    assert_eq!(tracker.begin_transfer("b"), 2);
    tracker.next_serial = u32::MAX;
    assert_eq!(tracker.begin_transfer("c"), 1);
    // The serial came round to a read that was still waiting; the newer one has
    // it now.
    assert_eq!(tracker.take_transfer(1), Some("c"));
    assert_eq!(tracker.order.iter().copied().collect::<Vec<u32>>(), vec![2]);
}

#[test]
fn the_transfer_behind_the_oldest_stays() {
    let mut tracker: ClipboardTracker<u32> = ClipboardTracker::default();
    for n in 0..(MAX_PENDING_TRANSFERS as u32 + 1) {
        assert_eq!(tracker.begin_transfer(n * 10), n + 1);
    }
    assert_eq!(tracker.take_transfer(1), None);
    assert_eq!(tracker.take_transfer(2), Some(10));
    assert_eq!(tracker.take_transfer(MAX_PENDING_TRANSFERS as u32 + 1), Some(160));
}

#[test]
fn the_list_names_what_is_parked_oldest_first() {
    let mut tracker: ClipboardTracker<u8> = ClipboardTracker::default();
    for n in 0..5 {
        tracker.begin_transfer(n);
    }
    tracker.take_transfer(3);
    assert_eq!(tracker.order.iter().copied().collect::<Vec<u32>>(), vec![1, 2, 4, 5]);
    let mut parked: Vec<u32> = tracker.transfers.keys().copied().collect();
    parked.sort_unstable();
    assert_eq!(parked, vec![1, 2, 4, 5]);
}

#[test]
fn clearing_closes_every_pipe() {
    let mut tracker = ClipboardTracker::default();
    let (read, write) = rustix::pipe::pipe().expect("pipe");
    tracker.begin_transfer(write);
    tracker.clear_transfers();
    assert!(tracker.transfers.is_empty());
    assert!(tracker.order.is_empty());
    // With the only writer gone the reader sees the end.
    let mut buf = [0u8; 8];
    assert_eq!(rustix::io::read(&read, &mut buf).expect("read"), 0);
}

#[test]
fn giving_up_a_claim_keeps_the_types() {
    let mut tracker: ClipboardTracker<u8> = ClipboardTracker::default();
    tracker.mime_types = vec!["text/plain".to_owned()];
    tracker.owned_by_session = true;
    tracker.owner_session = Some("/s/1".to_owned());
    tracker.begin_transfer(7);
    tracker.unclaim();
    assert_eq!(tracker.mime_types, vec!["text/plain".to_owned()]);
    assert!(!tracker.owned_by_session);
    assert_eq!(tracker.owner_session, None);
    assert!(tracker.transfers.is_empty());
    assert_eq!(tracker.next_serial, 1);
}
