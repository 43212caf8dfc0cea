use ocl::rw_vec::{AsyncError, Event, EventStatus, PollResult, RwVec};

#[test]
fn fifo_order_and_single_holder() {
    let mut v: RwVec<u8> = RwVec::new();
    let mut a = v.lock_pending_event();
    let mut b = v.lock_pending_event();
    let mut c = v.lock_pending_event();
    let done = Event {
        status: EventStatus::Complete,
    };

    assert!(v.grants - v.releases <= 1);
    let guard_a = match a.poll(&mut v, &done) {
        PollResult::Ready(g) => g,
        _ => panic!("first requester should be granted first"),
    };
    assert!(v.grants - v.releases <= 1);

    // While A holds the guard, B and C stay not-ready even though their
    // events are complete.
    assert!(matches!(b.poll(&mut v, &done), PollResult::NotReady));
    assert!(matches!(c.poll(&mut v, &done), PollResult::NotReady));

    guard_a.release(&mut v);
    assert!(v.grants - v.releases <= 1);

    // C polls first, but B was enqueued earlier: B is granted, C is not.
    assert!(matches!(c.poll(&mut v, &done), PollResult::NotReady));
    let guard_b = match b.poll(&mut v, &done) {
        PollResult::Ready(g) => g,
        _ => panic!("second requester should be granted second"),
    };
    assert!(matches!(c.poll(&mut v, &done), PollResult::NotReady));

    guard_b.release(&mut v);
    let guard_c = match c.poll(&mut v, &done) {
        PollResult::Ready(g) => g,
        _ => panic!("third requester should be granted third"),
    };
    guard_c.release(&mut v);
    assert_eq!(v.grants, 3);
    assert_eq!(v.releases, 3);
}

#[test]
fn release_promotes_next_request() {
    let mut v: RwVec<u8> = RwVec::new();
    let mut a = v.lock_pending_event();
    let mut b = v.lock_pending_event();
    let done = Event {
        status: EventStatus::Complete,
    };
    let guard_a = match a.poll(&mut v, &done) {
        PollResult::Ready(g) => g,
        _ => panic!("expected a guard"),
    };
    // B occupies its slot but cannot be promoted while A holds access.
    assert_eq!(v.notified, None);
    guard_a.release(&mut v);
    // Releasing the guard promoted B without any further trigger.
    assert_eq!(v.notified, Some(b.request_id));
    assert!(matches!(b.poll(&mut v, &done), PollResult::Ready(_)));
}

#[test]
fn free_container_promotes_at_enqueue() {
    let mut v: RwVec<u8> = RwVec::new();
    let id = v.acquire_async();
    // One pending request and no active holder: promoted immediately.
    assert_eq!(v.notified, Some(id));
    assert_eq!(v.queue.len(), 0);
}

#[test]
fn unfired_event_never_yields_a_guard() {
    let mut v: RwVec<u8> = RwVec::new();
    let mut pg = v.lock_pending_event();
    let mut ev = Event::user();
    for _ in 0..5 {
        assert!(matches!(pg.poll(&mut v, &ev), PollResult::NotReady));
    }
    ev.set_complete();
    // The very next poll yields the guard, exactly once.
    assert!(matches!(pg.poll(&mut v, &ev), PollResult::Ready(_)));
    assert!(matches!(
        pg.poll(&mut v, &ev),
        PollResult::Failed(AsyncError::AlreadyCompleted)
    ));
}

#[test]
fn polling_a_spent_guard_is_a_terminal_failure() {
    let mut v: RwVec<u8> = RwVec::new();
    let mut pg = v.lock_pending_event();
    let done = Event {
        status: EventStatus::Complete,
    };
    assert!(matches!(pg.poll(&mut v, &done), PollResult::Ready(_)));
    for _ in 0..3 {
        assert!(matches!(
            pg.poll(&mut v, &done),
            PollResult::Failed(AsyncError::AlreadyCompleted)
        ));
    }

    // A failed pending guard is just as spent.
    let mut v2: RwVec<u8> = RwVec::new();
    let mut bad = v2.lock_pending_event();
    let mut ev = Event::user();
    ev.set_error();
    assert!(matches!(
        bad.poll(&mut v2, &ev),
        PollResult::Failed(AsyncError::EventError)
    ));
    assert!(matches!(
        bad.poll(&mut v2, &ev),
        PollResult::Failed(AsyncError::AlreadyCompleted)
    ));
}

#[test]
fn cancelling_mid_wait_does_not_deadlock_later_requesters() {
    let mut v: RwVec<u8> = RwVec::new();
    let first = v.lock_pending_event();
    let mut second = v.lock_pending_event();
    let mut ev_second = Event::user();

    // Drop the first pending guard before its event ever fires.
    first.cancel(&mut v);

    ev_second.set_complete();
    assert!(matches!(second.poll(&mut v, &ev_second), PollResult::Ready(_)));
}

#[test]
fn event_gated_handoff_scenario() {
    let mut v: RwVec<u8> = RwVec::new();
    // Caller A enqueues with an already-complete event.
    let mut a = v.lock_pending_event();
    assert_eq!(a.len(), 0);
    let done = Event {
        status: EventStatus::Complete,
    };
    let guard_a = match a.poll(&mut v, &done) {
        PollResult::Ready(g) => g,
        _ => panic!("a complete event resolves on the first poll"),
    };
    assert_eq!(guard_a.payload.len(), 0);

    // Caller B enqueues with a not-yet-complete event while A holds.
    let mut b = v.lock_pending_event();
    let mut ev_b = Event::user();
    assert!(matches!(b.poll(&mut v, &ev_b), PollResult::NotReady));
    ev_b.set_complete();
    // B's event fired, but A still holds the guard.
    assert!(matches!(b.poll(&mut v, &ev_b), PollResult::NotReady));
    guard_a.release(&mut v);
    assert!(matches!(b.poll(&mut v, &ev_b), PollResult::Ready(_)));
}

#[test]
fn lost_request_reports_channel_failure() {
    let mut v: RwVec<u8> = RwVec::new();
    let mut pg = v.lock_pending_event();
    // The container the request lived in goes away; the requester's
    // notification can never fire.
    v = RwVec::new();
    let done = Event {
        status: EventStatus::Complete,
    };
    assert!(matches!(
        pg.poll(&mut v, &done),
        PollResult::Failed(AsyncError::ChannelCanceled)
    ));
}

#[test]
fn guard_owns_and_returns_the_payload() {
    let mut v: RwVec<u32> = RwVec::from_vec(vec![1, 2, 3]);
    let mut pg = v.lock_pending_event();
    assert_eq!(pg.len(), 3);
    let done = Event {
        status: EventStatus::Complete,
    };
    let mut guard = match pg.poll(&mut v, &done) {
        PollResult::Ready(g) => g,
        _ => panic!("expected a guard"),
    };
    assert_eq!(guard.payload, vec![1, 2, 3]);
    guard.payload.push(4);
    guard.release(&mut v);
    assert_eq!(v.len_hint, 4);
    let pg2 = v.lock_pending_event();
    assert_eq!(pg2.len(), 4);
    assert_eq!(v.payload.as_ref().unwrap(), &vec![1, 2, 3, 4]);
}

#[test]
fn trigger_event_starts_pending() {
    let mut v: RwVec<u8> = RwVec::new();
    let pg = v.lock_pending_event();
    assert_eq!(pg.trigger_event().status, EventStatus::Pending);
}

#[test]
fn event_queries_report_their_status() {
    let mut ev = Event::user();
    assert_eq!(ev.is_complete(), Ok(false));
    ev.set_complete();
    assert_eq!(ev.is_complete(), Ok(true));
    ev.set_error();
    assert_eq!(ev.is_complete(), Err(AsyncError::EventError));
}

#[test]
fn cancelling_a_promoted_request_frees_the_slot() {
    let mut v: RwVec<u8> = RwVec::new();
    let first = v.lock_pending_event();
    let mut second = v.lock_pending_event();
    // The first request was promoted at enqueue time.
    assert_eq!(v.notified, Some(first.request_id));
    first.cancel(&mut v);
    // Cancelling the promoted request hands promotion to the second.
    assert_eq!(v.notified, Some(second.request_id));
    let done = Event {
        status: EventStatus::Complete,
    };
    assert!(matches!(second.poll(&mut v, &done), PollResult::Ready(_)));
}
