//! Sync-to-sync/async oneshot channel: a single-slot handoff cell bridging
//! one synchronous producer to one blocking-or-asynchronous consumer,
//! without a full async-runtime dependency.
//!
//! The cell's behaviour is the `State` machine below, whose transitions are
//! fully specified; `Sender` and `Receiver` run those transitions under a
//! verified reader-writer lock. The consumer side is generic over the
//! wake-callback payload `W`, so an asynchronous wrapper can park its waker
//! in the cell and wake it from the producer's thread; this library never
//! calls into a runtime itself, it hands the parked payload back to the
//! caller that must wake it.

use std::sync::Arc;
use vstd::prelude::*;
use vstd::rwlock::RwLock;

verus! {

/// The handoff cell's state: pending (with or without a parked consumer),
/// value-ready, or end-of-life from either side.
pub enum State<T, W> {
    /// No value yet, no consumer waiting.
    Idle,
    /// No value yet; a consumer parked this wake payload.
    WaitingForValue(W),
    /// The producer delivered a value nobody has consumed yet.
    Ready(T),
    /// The consumer is gone; a later send becomes a silent no-op.
    ReceiverDropped,
    /// The producer is gone without sending.
    SenderDropped,
}

impl<T, W> State<T, W> {
    /// Consume a ready value: on success the cell is spent (the consumer is
    /// done with it); otherwise the state is untouched.
    pub fn take(&mut self) -> (r: Option<T>)
        ensures
            match *old(self) {
                State::Ready(v) => r == Some(v) && *final (self) matches State::ReceiverDropped,
                _ => r is None && *final (self) == *old(self),
            },
    {
        let mut alt = State::ReceiverDropped;
        core::mem::swap(self, &mut alt);
        match alt {
            State::Ready(v) => Some(v),
            other => {
                let mut back = other;
                core::mem::swap(self, &mut back);
                None
            },
        }
    }

    /// Deliver a value: the cell becomes Ready whatever it held, and a
    /// parked wake payload, if any, is handed back to be woken.
    pub fn done(&mut self, value: T) -> (r: Option<W>)
        ensures
            *final (self) matches State::Ready(v) && v == value,
            match *old(self) {
                State::WaitingForValue(w) => r == Some(w),
                _ => r is None,
            },
    {
        let mut alt = State::Ready(value);
        core::mem::swap(self, &mut alt);
        match alt {
            State::WaitingForValue(w) => Some(w),
            _ => None,
        }
    }

    /// The producer leaves without sending: a delivered value or a spent
    /// cell stays as it is; otherwise the cell records the loss, and a
    /// parked wake payload is handed back to be woken.
    pub fn drop_send(&mut self) -> (r: Option<W>)
        ensures
            match *old(self) {
                State::Ready(_) | State::ReceiverDropped => *final (self) == *old(self) && r
                    is None,
                State::WaitingForValue(w) => (*final (self) matches State::SenderDropped) && r
                    == Some(w),
                _ => (*final (self) matches State::SenderDropped) && r is None,
            },
    {
        match self {
            State::Ready(_) | State::ReceiverDropped => {
                return None;
            },
            _ => (),
        }
        let mut alt = State::SenderDropped;
        core::mem::swap(self, &mut alt);
        match alt {
            State::WaitingForValue(w) => Some(w),
            _ => None,
        }
    }

    /// The consumer leaves: whatever the cell held, it is now spent.
    pub fn drop_recv(&mut self)
        ensures
            *final (self) matches State::ReceiverDropped,
    {
        *self = State::ReceiverDropped;
    }
}

/// The lock-guarded cell both endpoints share.
type Shared<T, W> = Arc<RwLock<State<T, W>, spec_fn(State<T, W>) -> bool>>;

/// Relies on std's `Arc::clone`: a clone of the handle refers to the same
/// shared cell.
#[verifier::external_body]
fn clone_shared<T, W>(a: &Shared<T, W>) -> (r: Shared<T, W>)
    ensures
        r == *a,
{
    a.clone()
}

/// Sender side of a oneshot channel.
#[verifier::reject_recursive_types(T)]
#[verifier::reject_recursive_types(W)]
pub struct Sender<T, W> {
    shared: Shared<T, W>,
}

impl<T, W> Sender<T, W> {
    /// The shared lock admits every cell state.
    #[verifier::type_invariant]
    spec fn lock_open(self) -> bool {
        forall|s: State<T, W>| (*self.shared).inv(s)
    }
}

/// Receiver side of a oneshot channel.
#[verifier::reject_recursive_types(T)]
#[verifier::reject_recursive_types(W)]
pub struct Receiver<T, W> {
    shared: Shared<T, W>,
}

impl<T, W> Receiver<T, W> {
    /// The shared lock admits every cell state.
    #[verifier::type_invariant]
    spec fn lock_open(self) -> bool {
        forall|s: State<T, W>| (*self.shared).inv(s)
    }
}

/// What polling the receiver reports.
pub enum RecvPoll<T> {
    /// A value arrived.
    Ready(T),
    /// The producer is gone without sending.
    Closed,
    /// Nothing yet; the wake payload is parked in the cell.
    Pending,
}

/// Do the two endpoints share one handoff cell? Exactly the pairs `new`
/// returns are linked: a send on the one resolves a receive on the other
/// and no other.
pub closed spec fn linked<T, W>(tx: Sender<T, W>, rx: Receiver<T, W>) -> bool {
    tx.shared == rx.shared
}

/// Create a new oneshot channel: a linked pair of endpoints over one fresh
/// cell, created pending (no value ready, neither side gone).
///
/// The sender can send from any thread without blocking, whether or not a
/// consumer is waiting; no error is given if the receiver has hung up. The
/// sender can check for a hung-up receiver with `is_cancelled`.
///
/// What each endpoint operation does to the shared cell is specified
/// exactly on the [`State`] machine the operations run; the cell itself
/// sits behind a lock shared across threads, and its momentary contents
/// are not expressible in these functions' contracts without the tracked
/// ghost permissions this crate does not use.
pub fn new<T, W>() -> (r: (Sender<T, W>, Receiver<T, W>))
    ensures
        linked(r.0, r.1),
{
    let lock = RwLock::<State<T, W>, spec_fn(State<T, W>) -> bool>::new(
        State::Idle,
        Ghost(|s: State<T, W>| true),
    );
    let shared: Shared<T, W> = Arc::new(lock);
    let shared2 = clone_shared(&shared);
    proof {
        assert(forall|s: State<T, W>| (*shared).inv(s));
    }
    (Sender { shared: shared2 }, Receiver { shared })
}

impl<T, W> Sender<T, W> {
    /// Returns true if the receiver has hung up: precisely, whether the
    /// cell was ReceiverDropped at the moment this call held the lock (the
    /// answer can go stale the instant the lock is released, so no more
    /// than this momentary reading is promised).
    pub fn is_cancelled(&self) -> bool {
        proof {
            use_type_invariant(self);
        }
        let handle = (*self.shared).acquire_read();
        let cancelled = match handle.borrow() {
            State::ReceiverDropped => true,
            _ => false,
        };
        handle.release_read();
        cancelled
    }

    /// Sends the provided value, consuming the sender: at most one value
    /// is ever delivered per channel. The cell transition is
    /// [`State::done`]: the cell becomes Ready whatever it held, so a send
    /// into a spent cell (receiver already gone) is a silent no-op that
    /// neither blocks nor fails; a parked wake payload is returned and
    /// must be woken by the caller.
    pub fn send(self, value: T) -> Option<W> {
        proof {
            use_type_invariant(&self);
        }
        let (mut state, handle) = (*self.shared).acquire_write();
        let waker = state.done(value);
        handle.release_write(state);
        waker
    }

    /// The producer abandons the cell without sending; a parked wake
    /// payload is returned and must be woken by the caller.
    pub fn abandon(self) -> Option<W> {
        proof {
            use_type_invariant(&self);
        }
        let (mut state, handle) = (*self.shared).acquire_write();
        let waker = state.drop_send();
        handle.release_write(state);
        waker
    }
}

impl<T, W> Receiver<T, W> {
    /// Synchronously receive a value, spinning until the producer delivers
    /// one or hangs up. Returns an error if the sender hung up prematurely
    /// ("sender hung up"), or — unlike a condition-variable wait, this spin
    /// is bounded — "receiver starved" if no resolution arrived within the
    /// (practically inexhaustible) spin budget. Success consumes the one
    /// value the cell held, per [`State::take`].
    ///
    /// This is a "consuming" method; there are no retries.
    pub fn recv(self) -> (r: Result<T, &'static str>)
        ensures
            r matches Err(e) ==> (e@ == "sender hung up"@ || e@ == "receiver starved"@),
    {
        proof {
            use_type_invariant(&self);
        }
        let ghost me = self;
        let mut spins: u64 = 0;
        while spins < u64::MAX
            invariant
                self == me,
                forall|s: State<T, W>| (*me.shared).inv(s),
            decreases u64::MAX - spins,
        {
            let (mut state, handle) = (*self.shared).acquire_write();
            match state.take() {
                Some(v) => {
                    handle.release_write(state);
                    return Ok(v);
                },
                None => (),
            }
            let hung_up = match &state {
                State::SenderDropped => true,
                _ => false,
            };
            handle.release_write(state);
            if hung_up {
                return Err("sender hung up");
            }
            spins = spins + 1;
        }
        Err("receiver starved")
    }

    /// Poll once for a value: consume it if present ([`State::take`]),
    /// report a hung-up producer (Closed), or park the given wake payload
    /// in the cell — to be woken once, on value arrival or producer drop —
    /// and report Pending.
    pub fn poll(&self, waker: W) -> RecvPoll<T> {
        proof {
            use_type_invariant(self);
        }
        let (mut state, handle) = (*self.shared).acquire_write();
        match state.take() {
            Some(v) => {
                handle.release_write(state);
                return RecvPoll::Ready(v);
            },
            None => (),
        }
        let hung_up = match &state {
            State::SenderDropped => true,
            _ => false,
        };
        if hung_up {
            handle.release_write(state);
            return RecvPoll::Closed;
        }
        handle.release_write(State::WaitingForValue(waker));
        RecvPoll::Pending
    }

    /// The consumer abandons the cell; a later send becomes a silent no-op.
    pub fn cancel(self) {
        proof {
            use_type_invariant(&self);
        }
        let (mut state, handle) = (*self.shared).acquire_write();
        state.drop_recv();
        handle.release_write(state);
    }
}

} // verus!
