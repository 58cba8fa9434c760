use m64prs::requests::{LoopAction, LoopEvent, RequestTracker};

type Event = LoopEvent<&'static str, u32, char>;
type Action = LoopAction<&'static str, u32, char>;

#[test]
fn new_tracker_starts_at_zero() {
    let t: RequestTracker<char> = RequestTracker::new();
    assert_eq!(t.next_id(), 0);
    assert!(!t.is_pending(0));
}

#[test]
fn requests_get_consecutive_ids() {
    let mut t = RequestTracker::new();
    assert_eq!(t.register('a'), 0);
    assert_eq!(t.register('b'), 1);
    assert_eq!(t.register('c'), 2);
    assert_eq!(t.next_id(), 3);
    assert!(t.is_pending(0) && t.is_pending(1) && t.is_pending(2));
    assert!(!t.is_pending(3));
}

#[test]
fn reply_reaches_its_waiter() {
    let mut t = RequestTracker::new();
    let a = t.register('a');
    let b = t.register('b');
    assert_eq!(t.take_waiter(b), Some('b'));
    assert_eq!(t.take_waiter(a), Some('a'));
    assert_eq!(t.take_waiter(a), None);
    assert!(!t.is_pending(a) && !t.is_pending(b));
}

#[test]
fn queued_request_is_sent_with_its_number() {
    let mut t = RequestTracker::new();
    let first: Action = t.on_event(Event::Queued { request: "first", waiter: 'x' });
    assert!(matches!(first, LoopAction::Send { request_id: 0, request: "first" }));
    let second: Action = t.on_event(Event::Queued { request: "second", waiter: 'y' });
    assert!(matches!(second, LoopAction::Send { request_id: 1, request: "second" }));
    assert!(t.is_pending(0) && t.is_pending(1));
}

#[test]
fn reply_event_delivers_to_waiter() {
    let mut t = RequestTracker::new();
    let _ = t.on_event(Event::Queued { request: "q", waiter: 'w' });
    let action: Action = t.on_event(Event::Reply { request_id: 0, reply: 42 });
    assert!(matches!(action, LoopAction::Deliver { waiter: 'w', reply: 42 }));
    assert!(!t.is_pending(0));
    assert_eq!(t.next_id(), 1);
}

#[test]
fn unknown_and_repeated_replies_are_not_pending() {
    let mut t = RequestTracker::new();
    let _ = t.on_event::<&str, u32>(LoopEvent::Queued { request: "q", waiter: 'w' });
    assert!(!t.is_pending(7));
    let _ = t.on_event::<&str, u32>(LoopEvent::Reply { request_id: 0, reply: 1 });
    assert!(!t.is_pending(0));
    assert_eq!(t.take_waiter(0), None);
    assert_eq!(t.next_id(), 1);
}

#[test]
fn cancellation_stops() {
    let mut t = RequestTracker::new();
    let _ = t.register('w');
    let action: Action = t.on_event(Event::Cancelled);
    assert!(matches!(action, LoopAction::Stop));
    assert!(t.is_pending(0));
}

#[test]
fn closed_queue_continues() {
    let mut t: RequestTracker<char> = RequestTracker::new();
    let action: Action = t.on_event(Event::QueueClosed);
    assert!(matches!(action, LoopAction::Continue));
    assert_eq!(t.next_id(), 0);
}

#[test]
fn numbering_over_a_run() {
    let mut t = RequestTracker::new();
    let mut sent: Vec<u64> = Vec::new();
    let events: Vec<Event> = vec![
        Event::Queued { request: "a", waiter: 'a' },
        Event::Queued { request: "b", waiter: 'b' },
        Event::QueueClosed,
        Event::Reply { request_id: 1, reply: 10 },
        Event::Queued { request: "c", waiter: 'c' },
        Event::Queued { request: "d", waiter: 'd' },
        Event::Reply { request_id: 0, reply: 20 },
    ];
    for e in events {
        if let LoopAction::Send { request_id, .. } = t.on_event(e) {
            sent.push(request_id);
        }
    }
    assert_eq!(sent, vec![0, 1, 2, 3]);
    assert_eq!(t.next_id(), 4);
    assert!(!t.is_pending(0) && !t.is_pending(1));
    assert_eq!(t.take_waiter(2), Some('c'));
    assert_eq!(t.take_waiter(3), Some('d'));
}
