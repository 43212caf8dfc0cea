//! A mutex-like lock over a growable buffer which can interact with
//! externally-signalled completion events.
//!
//! The container ([`RwVec`]) owns one payload vector and a FIFO queue of
//! pending access requests.  At most one holder is active at any instant:
//! while a [`RwGuard`] exists, the container's payload slot is empty, so
//! exclusive access is enforced by ownership rather than by runtime checks.
//! A [`PendingRwGuard`] is a queued request that is additionally gated on an
//! external completion event; its `poll` only hands out a guard once that
//! event has fired and the queue has promoted the request.

use vstd::prelude::*;

verus! {

/// Status of a completion token.  A fresh user event is `Pending`; the
/// signalling side drives it to `Complete`, or to `Error` when the
/// underlying operation failed.
#[derive(Clone, Copy, PartialEq, Eq, Structural, Debug)]
pub enum EventStatus {
    Pending,
    Complete,
    Error,
}

/// A completion token: a queryable signal that an external operation has
/// finished.  The lock core only ever asks whether the event is complete;
/// driving the status is the signalling side's business.
#[derive(Clone, Copy, PartialEq, Eq, Structural, Debug)]
pub struct Event {
    pub status: EventStatus,
}

/// The failures a pending acquisition can surface.
#[derive(Clone, Copy, PartialEq, Eq, Structural, Debug)]
pub enum AsyncError {
    /// The external completion event reported an error.
    EventError,
    /// The request's notification channel was lost: the request is no
    /// longer queued and was never promoted.
    ChannelCanceled,
    /// A terminal pending guard was polled again.
    AlreadyCompleted,
}

impl Event {
    /// Mints a fresh, manually-triggered event, initially not complete.
    pub fn user() -> (ev: Event)
        ensures
            ev.status is Pending,
    {
        Event { status: EventStatus::Pending }
    }

    /// Drives the event to successful completion.
    pub fn set_complete(&mut self)
        ensures
            final(self).status is Complete,
    {
        self.status = EventStatus::Complete;
    }

    /// Puts the event into its error state.
    pub fn set_error(&mut self)
        ensures
            final(self).status is Error,
    {
        self.status = EventStatus::Error;
    }

    /// Queries completion.  Reports an error exactly when the event is in
    /// its error state.
    pub fn is_complete(&self) -> (r: Result<bool, AsyncError>)
        ensures
            self.status is Pending ==> r == Ok::<bool, AsyncError>(false),
            self.status is Complete ==> r == Ok::<bool, AsyncError>(true),
            self.status is Error ==> r == Err::<bool, AsyncError>(AsyncError::EventError),
    {
        match self.status {
            EventStatus::Pending => Ok(false),
            EventStatus::Complete => Ok(true),
            EventStatus::Error => Err(AsyncError::EventError),
        }
    }
}

/// Whether a queued request is still waiting for promotion or has been
/// abandoned by its requester (and must be skipped, never promoted).
#[derive(Clone, Copy, PartialEq, Eq, Structural, Debug)]
pub enum ReqState {
    Waiting,
    Abandoned,
}

/// One caller's queued desire for exclusive access.  Requests are
/// identified by the ticket number handed out at enqueue time; ticket
/// numbers grow with enqueue order, so queue order is ticket order.
#[derive(Clone, Copy, PartialEq, Eq, Structural, Debug)]
pub struct Request {
    pub id: u64,
    pub state: ReqState,
}

/// Queue entries carry strictly increasing ticket numbers.
pub open spec fn ids_increasing(q: Seq<Request>) -> bool {
    forall|i: int, j: int| 0 <= i < j < q.len() ==> q[i].id < q[j].id
}

/// Every queued ticket number lies below the bound.
pub open spec fn ids_below(q: Seq<Request>, bound: u64) -> bool {
    forall|i: int| 0 <= i < q.len() ==> q[i].id < bound
}

/// The request with this ticket is queued and still waiting.
pub open spec fn has_waiting(q: Seq<Request>, id: u64) -> bool {
    exists|i: int| 0 <= i < q.len() && q[i].id == id && q[i].state is Waiting
}

/// The queue with its abandoned prefix removed: what promotion sees.
pub open spec fn skip_abandoned(q: Seq<Request>) -> Seq<Request>
    decreases q.len(),
{
    if q.len() == 0 {
        q
    } else if q[0].state is Abandoned {
        skip_abandoned(q.skip(1))
    } else {
        q
    }
}

/// The queue left after one promotion pass over a free container:
/// abandoned requests at the front are dropped, and the first waiting
/// request (if any) is popped for promotion.
pub open spec fn promoted_queue(q: Seq<Request>) -> Seq<Request> {
    let s = skip_abandoned(q);
    if s.len() > 0 {
        s.skip(1)
    } else {
        s
    }
}

/// The ticket promoted by one pass over a free container, if any.
pub open spec fn promoted_id(q: Seq<Request>) -> Option<u64> {
    let s = skip_abandoned(q);
    if s.len() > 0 {
        Some(s[0].id)
    } else {
        None
    }
}

/// The queue after a promotion pass that runs only when the container is
/// free (payload present, nobody already promoted).
pub open spec fn step_queue(free: bool, q: Seq<Request>) -> Seq<Request> {
    if free {
        promoted_queue(q)
    } else {
        q
    }
}

/// The promoted ticket after a pass that runs only when the container is
/// free.
pub open spec fn step_notified(free: bool, q: Seq<Request>, n: Option<u64>) -> Option<u64> {
    if free {
        promoted_id(q)
    } else {
        n
    }
}

/// The request with the given ticket marked abandoned in place.
pub open spec fn abandon_in(q: Seq<Request>, id: u64) -> Seq<Request> {
    q.map(|i: int, r: Request| if r.id == id {
        (Request { id: r.id, state: ReqState::Abandoned })
    } else {
        r
    })
}

/// A shareable container holding one growable payload plus the FIFO queue
/// of pending access requests.
///
/// `payload` is `None` exactly while a [`RwGuard`] is out; `notified` is
/// the ticket whose request has been promoted (its notification has fired)
/// but whose guard has not been produced yet.  `grants` and `releases`
/// count guard hand-outs and hand-backs; well-formedness pins
/// `grants - releases` to the number of live guards, which never exceeds
/// one.
pub struct RwVec<T> {
    pub payload: Option<Vec<T>>,
    pub queue: Vec<Request>,
    pub notified: Option<u64>,
    pub next_id: u64,
    pub grants: u64,
    pub releases: u64,
    pub len_hint: usize,
}

impl<T> RwVec<T> {
    /// The container is free to promote: it holds the payload and no
    /// promotion is outstanding.
    pub open spec fn is_free(self) -> bool {
        self.payload is Some && self.notified is None
    }

    /// Number of live guards: one exactly while the payload is out.
    pub open spec fn holders(self) -> int {
        if self.payload is None {
            1
        } else {
            0
        }
    }

    /// The container's internal invariant.
    pub open spec fn wf(self) -> bool {
        &&& ids_increasing(self.queue@)
        &&& ids_below(self.queue@, self.next_id)
        &&& (self.notified matches Some(id) ==> {
            &&& id < self.next_id
            &&& forall|i: int| 0 <= i < self.queue@.len() ==> id < self.queue@[i].id
            &&& self.payload is Some
        })
        &&& self.grants as int == self.releases as int + self.holders()
        &&& self.grants as int + self.queue@.len() + (if self.notified is Some {
            1int
        } else {
            0int
        }) <= self.next_id as int
        &&& (self.payload matches Some(p) ==> self.len_hint as int == p@.len() as int)
    }

    /// Creates and returns a new, empty container with no waiters.
    pub fn new() -> (v: RwVec<T>)
        ensures
            v.wf(),
            v.payload matches Some(p) && p@ == Seq::<T>::empty(),
            v.queue@.len() == 0,
            v.notified is None,
            v.next_id == 0,
            v.grants == 0,
            v.releases == 0,
            v.len_hint == 0,
    {
        RwVec {
            payload: Some(Vec::new()),
            queue: Vec::new(),
            notified: None,
            next_id: 0,
            grants: 0,
            releases: 0,
            len_hint: 0,
        }
    }

    /// Creates a container already holding the given payload.
    pub fn from_vec(payload: Vec<T>) -> (v: RwVec<T>)
        ensures
            v.wf(),
            v.payload matches Some(p) && p@ == payload@,
            v.queue@.len() == 0,
            v.notified is None,
            v.next_id == 0,
            v.grants == 0,
            v.releases == 0,
            v.len_hint == payload@.len(),
    {
        let len_hint = payload.len();
        RwVec {
            payload: Some(payload),
            queue: Vec::new(),
            notified: None,
            next_id: 0,
            grants: 0,
            releases: 0,
            len_hint,
        }
    }
}

/// A prefix of abandoned requests does not affect what promotion sees.
proof fn lemma_skip_abandoned_prefix(q: Seq<Request>, k: int)
    requires
        0 <= k <= q.len(),
        forall|i: int| 0 <= i < k ==> q[i].state is Abandoned,
    ensures
        skip_abandoned(q) == skip_abandoned(q.skip(k)),
    decreases k,
{
    if k > 0 {
        assert(q[0].state is Abandoned);
        assert(skip_abandoned(q) == skip_abandoned(q.skip(1)));
        assert(forall|i: int| 0 <= i < k - 1 ==> q.skip(1)[i] == q[i + 1]);
        lemma_skip_abandoned_prefix(q.skip(1), k - 1);
        assert(q.skip(1).skip(k - 1) =~= q.skip(k));
    } else {
        assert(q.skip(0) =~= q);
    }
}

impl<T> RwVec<T> {
    /// Attempts promotion: if the container is free, drops abandoned
    /// requests from the front of the queue and promotes the first waiting
    /// one, firing its notification.  Idempotent and safe to call
    /// opportunistically; touches nothing when a holder or a promoted
    /// request is outstanding.
    pub fn process_queue(&mut self)
        requires
            old(self).wf(),
        ensures
            final(self).wf(),
            final(self).payload == old(self).payload,
            final(self).next_id == old(self).next_id,
            final(self).grants == old(self).grants,
            final(self).releases == old(self).releases,
            final(self).len_hint == old(self).len_hint,
            final(self).queue@ == step_queue(old(self).is_free(), old(self).queue@),
            final(self).notified == step_notified(
                old(self).is_free(),
                old(self).queue@,
                old(self).notified,
            ),
    {
        if self.payload.is_some() && self.notified.is_none() {
            let ghost q0 = self.queue@;
            let ghost pay0 = self.payload;
            // Scan past the abandoned prefix.
            let mut k: usize = 0;
            loop
                invariant
                    self.payload == pay0,
                    self.notified is None,
                    self.queue@ == q0,
                    k <= q0.len(),
                    forall|i: int| 0 <= i < k ==> q0[i].state is Abandoned,
                ensures
                    self.payload == pay0,
                    self.notified is None,
                    self.queue@ == q0,
                    k <= q0.len(),
                    forall|i: int| 0 <= i < k ==> q0[i].state is Abandoned,
                    k == q0.len() || q0[k as int].state is Waiting,
                decreases q0.len() - k,
            {
                if k >= self.queue.len() {
                    break ;
                }
                let waiting = matches!(self.queue[k].state, ReqState::Waiting);
                if waiting {
                    break ;
                }
                k = k + 1;
            }
            proof {
                lemma_skip_abandoned_prefix(q0, k as int);
            }
            if k < self.queue.len() {
                // Promote the first waiting request.
                let id = self.queue[k].id;
                self.notified = Some(id);
                proof {
                    assert(skip_abandoned(q0) == q0.skip(k as int));
                    assert(q0.skip(k as int)[0] == q0[k as int]);
                }
                self.drop_front(k + 1);
                proof {
                    assert(skip_abandoned(q0).skip(1) =~= q0.skip(k as int + 1));
                }
            } else {
                // Nothing but abandoned requests: clear them out.
                proof {
                    assert(q0.skip(k as int) =~= Seq::<Request>::empty());
                    assert(skip_abandoned(q0).len() == 0);
                }
                self.drop_front(k);
            }
        }
    }

    /// Removes the first `k` queue entries, shifting the rest forward.
    fn drop_front(&mut self, k: usize)
        requires
            k <= old(self).queue@.len(),
        ensures
            final(self).payload == old(self).payload,
            final(self).notified == old(self).notified,
            final(self).next_id == old(self).next_id,
            final(self).grants == old(self).grants,
            final(self).releases == old(self).releases,
            final(self).len_hint == old(self).len_hint,
            final(self).queue@ == old(self).queue@.skip(k as int),
    {
        let ghost q0 = self.queue@;
        let ghost pay0 = self.payload;
        let ghost n0 = self.notified;
        let ghost id0 = self.next_id;
        let ghost g0 = self.grants;
        let ghost r0 = self.releases;
        let ghost h0 = self.len_hint;
        let mut j: usize = 0;
        while j < k
            invariant
                j <= k,
                k <= q0.len(),
                self.payload == pay0,
                self.notified == n0,
                self.next_id == id0,
                self.grants == g0,
                self.releases == r0,
                self.len_hint == h0,
                self.queue@ == q0.skip(j as int),
            decreases k - j,
        {
            self.queue.remove(0);
            j = j + 1;
            proof {
                assert(q0.skip(j as int - 1).remove(0) =~= q0.skip(j as int));
            }
        }
        proof {
            assert(self.queue@ == q0.skip(k as int));
        }
    }
}

impl<T> RwVec<T> {
    /// Enqueues a fairness-preserving request for exclusive access and
    /// returns its ticket; if the container is free, the head of the queue
    /// is promoted immediately.
    pub fn acquire_async(&mut self) -> (id: u64)
        requires
            old(self).wf(),
            old(self).next_id < u64::MAX,
        ensures
            final(self).wf(),
            id == old(self).next_id,
            final(self).next_id == old(self).next_id + 1,
            final(self).payload == old(self).payload,
            final(self).grants == old(self).grants,
            final(self).releases == old(self).releases,
            final(self).len_hint == old(self).len_hint,
            ({
                let q2 = old(self).queue@.push(Request { id, state: ReqState::Waiting });
                &&& final(self).queue@ == step_queue(old(self).is_free(), q2)
                &&& final(self).notified == step_notified(
                    old(self).is_free(),
                    q2,
                    old(self).notified,
                )
            }),
    {
        let id = self.next_id;
        self.queue.push(Request { id, state: ReqState::Waiting });
        self.next_id = self.next_id + 1;
        self.process_queue();
        id
    }

    /// Enqueues a request and wraps it in a pending guard that is
    /// additionally gated on an external completion event; also mints the
    /// fresh trigger event that downstream consumers of this guard's
    /// resolution can wait on.  The captured length is the payload length
    /// as last observed by the container.
    pub fn lock_pending_event(&mut self) -> (pg: PendingRwGuard)
        requires
            old(self).wf(),
            old(self).next_id < u64::MAX,
        ensures
            final(self).wf(),
            pg.request_id == old(self).next_id,
            pg.state is Waiting,
            pg.trigger_event.status is Pending,
            pg.len == old(self).len_hint,
            old(self).payload matches Some(p) ==> pg.len as int == p@.len() as int,
            final(self).next_id == old(self).next_id + 1,
            final(self).payload == old(self).payload,
            final(self).grants == old(self).grants,
            final(self).releases == old(self).releases,
            final(self).len_hint == old(self).len_hint,
            ({
                let q2 = old(self).queue@.push(
                    (Request { id: pg.request_id, state: ReqState::Waiting }),
                );
                &&& final(self).queue@ == step_queue(old(self).is_free(), q2)
                &&& final(self).notified == step_notified(
                    old(self).is_free(),
                    q2,
                    old(self).notified,
                )
            }),
    {
        let len = self.len_hint;
        let id = self.acquire_async();
        PendingRwGuard {
            request_id: id,
            state: PendingState::Waiting,
            trigger_event: Event::user(),
            len,
        }
    }

    /// Marks the request with this ticket abandoned, leaving it in place
    /// to be skipped by the next promotion pass.
    fn mark_abandoned(&mut self, id: u64)
        requires
            old(self).wf(),
        ensures
            final(self).wf(),
            final(self).payload == old(self).payload,
            final(self).notified == old(self).notified,
            final(self).next_id == old(self).next_id,
            final(self).grants == old(self).grants,
            final(self).releases == old(self).releases,
            final(self).len_hint == old(self).len_hint,
            final(self).queue@ == abandon_in(old(self).queue@, id),
    {
        let ghost q0 = self.queue@;
        let mut i: usize = 0;
        while i < self.queue.len()
            invariant
                i <= q0.len(),
                self.payload == old(self).payload,
                self.notified == old(self).notified,
                self.next_id == old(self).next_id,
                self.grants == old(self).grants,
                self.releases == old(self).releases,
                self.len_hint == old(self).len_hint,
                self.queue@.len() == q0.len(),
                forall|j: int| 0 <= j < i && j < q0.len() ==> self.queue@[j] == abandon_in(
                    q0,
                    id,
                )[j],
                forall|j: int| i <= j < q0.len() ==> self.queue@[j] == q0[j],
            decreases q0.len() - i,
        {
            if self.queue[i].id == id {
                self.queue[i] = Request { id, state: ReqState::Abandoned };
            }
            i = i + 1;
        }
        proof {
            assert(self.queue@ =~= abandon_in(q0, id));
        }
    }
}

/// Progress of a pending acquisition.
#[derive(Clone, Copy, PartialEq, Eq, Structural, Debug)]
pub enum PendingState {
    /// Still polling the external event.
    Waiting,
    /// The event fired; polling the request's own notification.
    RequestSettling,
    /// A guard was handed out; the pending guard is spent.
    Resolved,
    /// The event or the notification channel failed; terminal.
    Failed,
}

/// Proof of exclusive access: owns the container's payload for its
/// lifetime.  Only the queue's promotion path manufactures one, and the
/// payload slot of the container stays empty until `release` gives the
/// payload back.
pub struct RwGuard<T> {
    pub payload: Vec<T>,
}

/// What one poll of a pending guard produced.
pub enum PollResult<T> {
    /// Neither failed nor resolved; poll again once the event or the
    /// queue has made progress.
    NotReady,
    /// The request was promoted: here is the guard.
    Ready(RwGuard<T>),
    /// Terminal failure; no guard will ever be produced.
    Failed(AsyncError),
}

impl<T> RwGuard<T> {
    /// Hands the payload back to the container it was granted from and
    /// promotes the next queued request, if any.  This is the drop
    /// obligation of a guard: access always returns to the queue.
    pub fn release(self, vec: &mut RwVec<T>)
        requires
            old(vec).wf(),
            old(vec).payload is None,
        ensures
            final(vec).wf(),
            final(vec).payload matches Some(p) && p@ == self.payload@,
            final(vec).len_hint as int == self.payload@.len() as int,
            final(vec).releases == old(vec).releases + 1,
            final(vec).grants == old(vec).grants,
            final(vec).next_id == old(vec).next_id,
            final(vec).queue@ == promoted_queue(old(vec).queue@),
            final(vec).notified == promoted_id(old(vec).queue@),
    {
        let len = self.payload.len();
        vec.len_hint = len;
        vec.payload = Some(self.payload);
        vec.releases = vec.releases + 1;
        vec.process_queue();
    }
}

/// Reports whether the request with this ticket is still queued and
/// waiting.
fn find_waiting(q: &Vec<Request>, id: u64) -> (r: bool)
    ensures
        r == has_waiting(q@, id),
{
    let mut i: usize = 0;
    while i < q.len()
        invariant
            i <= q@.len(),
            forall|j: int| 0 <= j < i ==> !(q@[j].id == id && q@[j].state is Waiting),
        decreases q@.len() - i,
    {
        if q[i].id == id {
            let w = matches!(q[i].state, ReqState::Waiting);
            if w {
                assert(has_waiting(q@, id));
                return true;
            }
        }
        i = i + 1;
    }
    false
}

/// A staged, not-yet-resolved access attempt: a queued request gated on
/// an external completion event.  It resolves into a [`RwGuard`] exactly
/// once, or terminates in failure; polling it again afterwards is
/// reported as a failure of its own.
pub struct PendingRwGuard {
    pub request_id: u64,
    pub state: PendingState,
    pub trigger_event: Event,
    pub len: usize,
}

impl PendingRwGuard {
    /// The guard is spent: it has resolved or failed.
    pub open spec fn is_terminal(self) -> bool {
        self.state is Resolved || self.state is Failed
    }

    /// The fresh event minted at enqueue time; downstream operations can
    /// be scheduled to wait on it once this guard's resolution fires it.
    pub fn trigger_event(&self) -> (ev: &Event)
        ensures
            *ev == self.trigger_event,
    {
        &self.trigger_event
    }

    /// The payload length captured at enqueue time, available before the
    /// lock resolves.
    pub fn len(&self) -> (n: usize)
        ensures
            n == self.len,
    {
        self.len
    }

    /// Drives the state machine one step.  A promotion pass always runs
    /// first, so other pending resolutions make progress even while this
    /// one is blocked.  While the external event has not fired the poll
    /// reports not-ready and never yields a guard; once it has fired, the
    /// poll yields a guard exactly when this request's notification has
    /// fired, and a guard is produced at most once: later polls report
    /// the terminal reuse failure.  An event error, or a notification
    /// that was lost, is a terminal failure.
    pub fn poll<T>(&mut self, vec: &mut RwVec<T>, wait_event: &Event) -> (r: PollResult<T>)
        requires
            old(vec).wf(),
        ensures
            final(vec).wf(),
            final(self).request_id == old(self).request_id,
            final(self).trigger_event == old(self).trigger_event,
            final(self).len == old(self).len,
            old(self).is_terminal() ==> {
                &&& r matches PollResult::Failed(e) && e is AlreadyCompleted
                &&& *final(self) == *old(self)
                &&& *final(vec) == *old(vec)
            },
            !old(self).is_terminal() ==> {
                let q1 = step_queue(old(vec).is_free(), old(vec).queue@);
                let n1 = step_notified(old(vec).is_free(), old(vec).queue@, old(vec).notified);
                &&& final(vec).next_id == old(vec).next_id
                &&& final(vec).releases == old(vec).releases
                &&& final(vec).len_hint == old(vec).len_hint
                &&& (wait_event.status is Pending ==> {
                    &&& r is NotReady
                    &&& final(self).state is Waiting
                    &&& final(vec).queue@ == q1
                    &&& final(vec).notified == n1
                    &&& final(vec).payload == old(vec).payload
                    &&& final(vec).grants == old(vec).grants
                })
                &&& (wait_event.status is Error ==> {
                    &&& r matches PollResult::Failed(e) && e is EventError
                    &&& final(self).state is Failed
                    &&& final(vec).queue@ == q1
                    &&& final(vec).notified == n1
                    &&& final(vec).payload == old(vec).payload
                    &&& final(vec).grants == old(vec).grants
                })
                &&& (wait_event.status is Complete && n1 == Some(old(self).request_id) ==> {
                    &&& r matches PollResult::Ready(g) && old(vec).payload matches Some(p)
                        && g.payload@ == p@
                    &&& final(self).state is Resolved
                    &&& final(vec).payload is None
                    &&& final(vec).notified is None
                    &&& final(vec).queue@ == q1
                    &&& final(vec).grants == old(vec).grants + 1
                })
                &&& (wait_event.status is Complete && n1 != Some(old(self).request_id) ==> {
                    &&& final(vec).queue@ == q1
                    &&& final(vec).notified == n1
                    &&& final(vec).payload == old(vec).payload
                    &&& final(vec).grants == old(vec).grants
                    &&& (has_waiting(q1, old(self).request_id) ==> {
                        &&& r is NotReady
                        &&& final(self).state is RequestSettling
                    })
                    &&& (!has_waiting(q1, old(self).request_id) ==> {
                        &&& r matches PollResult::Failed(e) && e is ChannelCanceled
                        &&& final(self).state is Failed
                    })
                })
            },
    {
        let terminal = matches!(self.state, PendingState::Resolved | PendingState::Failed);
        if terminal {
            return PollResult::Failed(AsyncError::AlreadyCompleted);
        }
        vec.process_queue();
        match wait_event.is_complete() {
            Err(e) => {
                self.state = PendingState::Failed;
                PollResult::Failed(e)
            },
            Ok(false) => {
                self.state = PendingState::Waiting;
                PollResult::NotReady
            },
            Ok(true) => {
                let mine = match vec.notified {
                    Some(nid) => nid == self.request_id,
                    None => false,
                };
                if mine {
                    let taken = vec.payload.take();
                    assert(taken is Some);
                    let payload = taken.unwrap();
                    vec.notified = None;
                    assert(vec.grants < u64::MAX);
                    vec.grants = vec.grants + 1;
                    self.state = PendingState::Resolved;
                    PollResult::Ready(RwGuard { payload })
                } else {
                    if find_waiting(&vec.queue, self.request_id) {
                        self.state = PendingState::RequestSettling;
                        PollResult::NotReady
                    } else {
                        self.state = PendingState::Failed;
                        PollResult::Failed(AsyncError::ChannelCanceled)
                    }
                }
            },
        }
    }

    /// Gives up on this acquisition, modelling the drop of a pending
    /// guard mid-wait.  If the request had already been promoted, its
    /// slot is released and the next queued request is promoted; if it is
    /// still queued, it becomes inert and the next promotion pass skips
    /// it.  Subsequent requesters are never blocked by a cancelled one.
    pub fn cancel<T>(self, vec: &mut RwVec<T>)
        requires
            old(vec).wf(),
        ensures
            final(vec).wf(),
            final(vec).payload == old(vec).payload,
            final(vec).next_id == old(vec).next_id,
            final(vec).grants == old(vec).grants,
            final(vec).releases == old(vec).releases,
            final(vec).len_hint == old(vec).len_hint,
            old(vec).notified == Some(self.request_id) ==> {
                &&& final(vec).queue@ == promoted_queue(old(vec).queue@)
                &&& final(vec).notified == promoted_id(old(vec).queue@)
            },
            old(vec).notified != Some(self.request_id) ==> {
                let q2 = abandon_in(old(vec).queue@, self.request_id);
                &&& final(vec).queue@ == step_queue(old(vec).is_free(), q2)
                &&& final(vec).notified == step_notified(
                    old(vec).is_free(),
                    q2,
                    old(vec).notified,
                )
            },
    {
        let mine = match vec.notified {
            Some(nid) => nid == self.request_id,
            None => false,
        };
        if mine {
            vec.notified = None;
            vec.process_queue();
        } else {
            vec.mark_abandoned(self.request_id);
            vec.process_queue();
        }
    }
}

/// At most one guard is live at any instant: the grant counter never runs
/// ahead of the release counter by more than one, and it does so exactly
/// while the payload is out with a guard.
pub proof fn lemma_at_most_one_holder<T>(v: RwVec<T>)
    requires
        v.wf(),
    ensures
        v.releases <= v.grants,
        v.grants as int - v.releases as int <= 1,
        (v.grants > v.releases) <==> (v.payload is None),
{
}

/// Grants respect enqueue order: a promoted request carries a ticket
/// strictly below every ticket still queued, so no later request can
/// overtake it.
pub proof fn lemma_fifo_order<T>(v: RwVec<T>)
    requires
        v.wf(),
    ensures
        v.notified matches Some(id) ==> forall|i: int|
            0 <= i < v.queue@.len() ==> id < v.queue@[i].id,
{
}

/// A promotion pass picks exactly the earliest waiting request: the
/// promoted ticket is waiting in the queue it was taken from, and no
/// waiting request has a smaller ticket.  When the pass promotes nothing,
/// no request was waiting at all.
pub proof fn lemma_promotion_is_fifo(q: Seq<Request>)
    requires
        ids_increasing(q),
    ensures
        promoted_id(q) matches Some(id) ==> {
            &&& has_waiting(q, id)
            &&& forall|i: int| 0 <= i < q.len() && q[i].state is Waiting ==> id <= q[i].id
        },
        promoted_id(q) is None ==> forall|i: int| 0 <= i < q.len() ==> q[i].state is Abandoned,
    decreases q.len(),
{
    if q.len() > 0 && q[0].state is Waiting {
        assert(skip_abandoned(q) == q);
        assert(q[0].id == promoted_id(q).unwrap() && q[0].state is Waiting);
        assert(has_waiting(q, q[0].id));
    }
    if q.len() > 0 && q[0].state is Abandoned {
        lemma_promotion_is_fifo(q.skip(1));
        assert(forall|i: int, j: int|
            0 <= i < j < q.skip(1).len() ==> q.skip(1)[i].id < q.skip(1)[j].id);
        assert(skip_abandoned(q) == skip_abandoned(q.skip(1)));
        if let Some(id) = promoted_id(q) {
            let w = choose|j: int|
                0 <= j < q.skip(1).len() && q.skip(1)[j].id == id && q.skip(1)[j].state
                    is Waiting;
            assert(q[w + 1].id == id && q[w + 1].state is Waiting);
            assert(has_waiting(q, id));
            assert forall|i: int| 0 <= i < q.len() && q[i].state is Waiting implies id
                <= q[i].id by {
                assert(q.skip(1)[i - 1] == q[i]);
            }
        } else {
            assert forall|i: int| 0 <= i < q.len() implies q[i].state is Abandoned by {
                if i >= 1 {
                    assert(q.skip(1)[i - 1] == q[i]);
                }
            }
        }
    }
}

/// Promotion never starves a waiter: whenever some request is still
/// waiting, a promotion pass over the queue promotes one.
pub proof fn lemma_waiting_request_is_promoted(q: Seq<Request>, id: u64)
    requires
        has_waiting(q, id),
    ensures
        promoted_id(q) is Some,
    decreases q.len(),
{
    let w = choose|i: int| 0 <= i < q.len() && q[i].id == id && q[i].state is Waiting;
    if q[0].state is Abandoned {
        assert(q.skip(1)[w - 1].id == id && q.skip(1)[w - 1].state is Waiting);
        lemma_waiting_request_is_promoted(q.skip(1), id);
    }
}

/// Abandoning one request leaves every other waiting request waiting, so
/// a promotion pass after the cancellation still promotes somebody:
/// dropping a pending guard mid-wait cannot deadlock later requesters.
pub proof fn lemma_cancel_preserves_others(q: Seq<Request>, dropped: u64, other: u64)
    requires
        has_waiting(q, other),
        other != dropped,
    ensures
        has_waiting(abandon_in(q, dropped), other),
        promoted_id(abandon_in(q, dropped)) is Some,
{
    let w = choose|i: int| 0 <= i < q.len() && q[i].id == other && q[i].state is Waiting;
    assert(abandon_in(q, dropped)[w].id == other && abandon_in(q, dropped)[w].state
        is Waiting);
    lemma_waiting_request_is_promoted(abandon_in(q, dropped), other);
}

} // verus!
