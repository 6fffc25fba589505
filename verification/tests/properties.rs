use futures::future::lazy;
use futures::sync::mpsc::Receiver;
use futures::{Async, Future, Stream};

use raii_change_tracker::DataTracker;

#[derive(Clone, PartialEq, Debug)]
struct StoreType {
    val: i32,
}

/// Takes the next event out of `rx` if one is waiting there, without blocking.
fn take_now<T>(rx: &mut Receiver<(T, T)>) -> Option<(T, T)> {
    match lazy(|| Ok::<_, ()>(rx.poll())).wait() {
        Ok(Ok(Async::Ready(Some(event)))) => Some(event),
        _ => None,
    }
}

/// Everything that was sent to `rx`. The tracker must be gone by now, since
/// this reads until the channel is closed.
fn drain<T>(rx: Receiver<(T, T)>) -> Vec<(T, T)> {
    rx.wait().map(|event| event.unwrap()).collect()
}

fn set_val(tracker: &mut DataTracker<StoreType>, val: i32) -> bool {
    let mut guard = tracker.as_tracked_mut();
    guard.deref_mut().val = val;
    guard.release()
}

#[test]
fn change_is_delivered_exactly_once() {
    let mut tracker = DataTracker::new(StoreType { val: 123 });
    let rx = tracker.add_listener();
    let changed = set_val(&mut tracker, 124);
    assert!(changed);
    assert_eq!(tracker.as_ref(), &StoreType { val: 124 });
    drop(tracker);
    assert_eq!(drain(rx), vec![(StoreType { val: 123 }, StoreType { val: 124 })]);
}

#[test]
fn unchanged_value_sends_nothing() {
    let mut tracker = DataTracker::new(StoreType { val: 5 });
    let s1 = tracker.add_listener();
    let s2 = tracker.add_listener();
    let changed = set_val(&mut tracker, 5);
    assert!(!changed);
    assert_eq!(tracker.as_ref().val, 5);
    drop(tracker);
    assert_eq!(drain(s1), vec![]);
    assert_eq!(drain(s2), vec![]);
}

#[test]
fn untouched_guard_sends_nothing() {
    let mut tracker = DataTracker::new(StoreType { val: 9 });
    let rx = tracker.add_listener();
    let guard = tracker.as_tracked_mut();
    assert_eq!(guard.val, 9);
    assert!(!guard.release());
    drop(tracker);
    assert_eq!(drain(rx), vec![]);
}

#[test]
fn dropped_receiver_does_not_fail_the_mutator() {
    let mut tracker = DataTracker::new(StoreType { val: 0 });
    let rx = tracker.add_listener();
    drop(rx);
    let changed = set_val(&mut tracker, 1);
    assert!(changed);
    assert_eq!(tracker.as_ref().val, 1);
    // The stale listener is gone; a later change goes through as well.
    assert!(set_val(&mut tracker, 2));
    assert_eq!(tracker.as_ref().val, 2);
}

#[test]
fn change_without_listeners_is_reported() {
    let mut tracker = DataTracker::new(StoreType { val: 1 });
    assert!(set_val(&mut tracker, 2));
    assert!(!set_val(&mut tracker, 2));
    assert_eq!(tracker.as_ref().val, 2);
}

#[test]
fn every_listener_gets_its_own_copy() {
    let mut tracker = DataTracker::new(StoreType { val: 10 });
    let first = tracker.add_listener();
    let second = tracker.add_listener();
    let third = tracker.add_listener();
    assert!(set_val(&mut tracker, 11));
    drop(tracker);
    let expected = vec![(StoreType { val: 10 }, StoreType { val: 11 })];
    let mut got_first = drain(first);
    assert_eq!(got_first, expected);
    // A copy can be changed without touching the others.
    got_first[0].1.val = 99;
    assert_eq!(drain(second), expected);
    assert_eq!(drain(third), expected);
}

#[test]
fn idle_cycles_send_nothing() {
    let mut tracker = DataTracker::new(StoreType { val: 7 });
    let mut rx = tracker.add_listener();
    for _ in 0..100 {
        assert!(!set_val(&mut tracker, 7));
        assert_eq!(take_now(&mut rx), None);
    }
    assert_eq!(tracker.as_ref().val, 7);
    drop(tracker);
    assert_eq!(drain(rx), vec![]);
}

#[test]
fn unsubscribed_listener_is_left_out() {
    let mut tracker = DataTracker::new(StoreType { val: 1 });
    let gone = tracker.add_listener();
    let mut kept = tracker.add_listener();
    drop(gone);
    assert!(set_val(&mut tracker, 2));
    assert_eq!(take_now(&mut kept), Some((StoreType { val: 1 }, StoreType { val: 2 })));
    assert_eq!(take_now(&mut kept), None);
    assert!(set_val(&mut tracker, 3));
    assert_eq!(take_now(&mut kept), Some((StoreType { val: 2 }, StoreType { val: 3 })));
    assert_eq!(take_now(&mut kept), None);
}

#[test]
fn receiver_dropped_with_an_unread_event_is_pruned() {
    let mut tracker = DataTracker::new(StoreType { val: 1 });
    let rx = tracker.add_listener();
    let mut other = tracker.add_listener();
    assert!(set_val(&mut tracker, 2));
    assert_eq!(take_now(&mut other), Some((StoreType { val: 1 }, StoreType { val: 2 })));
    // `rx` never read its event. Once it is gone the next change goes through.
    drop(rx);
    assert!(set_val(&mut tracker, 3));
    assert_eq!(take_now(&mut other), Some((StoreType { val: 2 }, StoreType { val: 3 })));
}

#[test]
fn reading_never_notifies() {
    let mut tracker = DataTracker::new(StoreType { val: 42 });
    let mut rx = tracker.add_listener();
    for _ in 0..50 {
        assert_eq!(tracker.as_ref(), &StoreType { val: 42 });
    }
    assert_eq!(take_now(&mut rx), None);
    drop(tracker);
    assert_eq!(drain(rx), vec![]);
}

#[test]
fn change_that_is_reverted_is_not_observed() {
    let mut tracker = DataTracker::new(StoreType { val: 3 });
    let rx = tracker.add_listener();
    let mut guard = tracker.as_tracked_mut();
    guard.deref_mut().val = 4;
    assert_eq!(guard.val, 4);
    guard.deref_mut().val = 3;
    assert!(!guard.release());
    assert_eq!(tracker.as_ref().val, 3);
    drop(tracker);
    assert_eq!(drain(rx), vec![]);
}

#[test]
fn only_the_net_change_is_sent() {
    let mut tracker = DataTracker::new(StoreType { val: 1 });
    let rx = tracker.add_listener();
    let mut guard = tracker.as_tracked_mut();
    guard.deref_mut().val = 2;
    guard.deref_mut().val = 3;
    *guard.deref_mut() = StoreType { val: 8 };
    assert!(guard.release());
    drop(tracker);
    assert_eq!(drain(rx), vec![(StoreType { val: 1 }, StoreType { val: 8 })]);
}

#[test]
fn successive_changes_arrive_in_order() {
    let mut tracker = DataTracker::new(StoreType { val: 0 });
    let mut rx = tracker.add_listener();
    for next in 1..20 {
        assert!(set_val(&mut tracker, next));
        assert_eq!(
            take_now(&mut rx),
            Some((StoreType { val: next - 1 }, StoreType { val: next }))
        );
    }
    assert_eq!(tracker.as_ref().val, 19);
}

#[test]
fn late_listener_sees_only_later_changes() {
    let mut tracker = DataTracker::new(StoreType { val: 0 });
    let mut early = tracker.add_listener();
    assert!(set_val(&mut tracker, 1));
    assert_eq!(take_now(&mut early), Some((StoreType { val: 0 }, StoreType { val: 1 })));
    let mut late = tracker.add_listener();
    assert_eq!(take_now(&mut late), None);
    assert!(set_val(&mut tracker, 2));
    let second = (StoreType { val: 1 }, StoreType { val: 2 });
    assert_eq!(take_now(&mut early), Some(second.clone()));
    assert_eq!(take_now(&mut late), Some(second));
}

#[test]
fn dropping_the_tracker_closes_the_channels() {
    let mut tracker = DataTracker::new(StoreType { val: 0 });
    let rx = tracker.add_listener();
    drop(tracker);
    let mut events = rx.wait();
    assert!(events.next().is_none());
}

#[test]
fn guard_reads_and_writes_the_live_value() {
    let mut tracker = DataTracker::new(vec![String::from("a")]);
    let rx = tracker.add_listener();
    let mut guard = tracker.as_tracked_mut();
    assert_eq!(guard.len(), 1);
    guard.deref_mut().push(String::from("b"));
    assert_eq!(*guard, vec![String::from("a"), String::from("b")]);
    assert!(guard.release());
    assert_eq!(tracker.as_ref().len(), 2);
    drop(tracker);
    assert_eq!(
        drain(rx),
        vec![(vec![String::from("a")], vec![String::from("a"), String::from("b")])]
    );
}
