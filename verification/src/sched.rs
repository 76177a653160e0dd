//! The asynchronous substrate: event channel, wakers, timer future.
//!
//! The kernel runs one cooperative executor per USB host. A task that
//! cannot progress parks its thread on an event channel; interrupt
//! handlers wake it through a waker handle. The library models the state
//! of these primitives; the actual thread blocking and the vtable
//! plumbing stand outside it, driven by the contracts here.

use vstd::prelude::*;

verus! {

/// A one-shot edge-triggered wait primitive.
///
/// `post` marks an event; several posts before the next sleep coalesce
/// into one. A sleep returns once at least one post has been observed
/// since the last return, and consumes the pending mark.
pub struct EventChannel {
    pending: bool,
}

impl EventChannel {
    /// Whether a post is pending, i.e. a sleeper would return at once.
    pub closed spec fn spec_pending(self) -> bool {
        self.pending
    }

    /// A fresh channel with no pending event.
    pub fn new() -> (r: EventChannel)
        ensures
            !r.spec_pending(),
    {
        EventChannel { pending: false }
    }

    /// Mark an event. Posts coalesce: the channel only remembers that at
    /// least one arrived. Safe to call from interrupt context.
    pub fn post(&mut self)
        ensures
            final(self).spec_pending(),
    {
        self.pending = true;
    }

    /// Return from a sleep: the calling thread blocked until a post was
    /// observed, and the pending mark is consumed. The blocking itself
    /// happens outside the model, so a pending post is what lets the
    /// sleep return.
    pub fn sleep(&mut self)
        requires
            old(self).spec_pending(),
        ensures
            !final(self).spec_pending(),
    {
        self.pending = false;
    }
}

/// A waker handle as a task or a transfer descriptor stores it: either
/// the null waker, whose wake is a no-op, or a handle onto the simple
/// waiter with the given identity.
#[derive(Clone, Copy, Debug, PartialEq, Eq, Structural)]
pub enum WakerToken {
    Null,
    Simple(u64),
}

/// The statically constructed waker that does nothing when woken; used
/// wherever a waker slot needs a value but no wakeup is wanted.
pub fn null_waker() -> (w: WakerToken)
    ensures
        w == WakerToken::Null,
{
    WakerToken::Null
}

impl WakerToken {
    /// Whether waking `self` would wake the same target as `other`.
    pub fn will_wake(&self, other: &WakerToken) -> (r: bool)
        ensures
            r == (*self == *other),
    {
        match (self, other) {
            (WakerToken::Null, WakerToken::Null) => true,
            (WakerToken::Simple(a), WakerToken::Simple(b)) => *a == *b,
            _ => false,
        }
    }
}

/// The executor's waiter: an atomic reference count of the waker handles
/// pointing at it, and the event channel its thread sleeps on.
///
/// The count starts at zero; every handle handed out (the initial one
/// and every clone) raises it, every dropped handle lowers it. The
/// waiter may only be destroyed once the count is back to zero.
pub struct SimpleWaiter {
    id: u64,
    ref_count: usize,
    ec: EventChannel,
    clones: Ghost<nat>,
    drops: Ghost<nat>,
}

impl SimpleWaiter {
    /// The identity carried by every waker handle onto this waiter.
    pub closed spec fn id(self) -> u64 {
        self.id
    }

    /// The live handle count.
    pub closed spec fn ref_count(self) -> nat {
        self.ref_count as nat
    }

    /// How many handles were ever handed out (initial handle included).
    pub closed spec fn clones(self) -> nat {
        self.clones@
    }

    /// How many handles were dropped.
    pub closed spec fn drops(self) -> nat {
        self.drops@
    }

    /// Whether the waiter's event channel has a pending post.
    pub closed spec fn spec_pending(self) -> bool {
        self.ec.spec_pending()
    }

    /// Bookkeeping invariant: the live count is exactly handles handed
    /// out minus handles dropped.
    pub open spec fn wf(self) -> bool {
        self.drops() <= self.clones() && self.ref_count() == self.clones() - self.drops()
    }

    /// A fresh waiter: no handles yet, nothing pending.
    pub fn new(id: u64) -> (r: SimpleWaiter)
        ensures
            r.wf(),
            r.id() == id,
            r.ref_count() == 0,
            r.clones() == 0,
            r.drops() == 0,
            !r.spec_pending(),
    {
        SimpleWaiter {
            id,
            ref_count: 0,
            ec: EventChannel::new(),
            clones: Ghost(0),
            drops: Ghost(0),
        }
    }

    /// Hand out a waker handle onto this waiter, raising the count.
    /// Cloning an existing handle comes through here as well.
    pub fn raw_waker(&mut self) -> (w: WakerToken)
        requires
            old(self).wf(),
            old(self).ref_count() < usize::MAX,
        ensures
            final(self).wf(),
            w == WakerToken::Simple(old(self).id()),
            final(self).id() == old(self).id(),
            final(self).ref_count() == old(self).ref_count() + 1,
            final(self).clones() == old(self).clones() + 1,
            final(self).drops() == old(self).drops(),
            final(self).spec_pending() == old(self).spec_pending(),
    {
        self.ref_count = self.ref_count + 1;
        proof {
            self.clones@ = self.clones@ + 1;
        }
        WakerToken::Simple(self.id)
    }

    /// Wake without consuming the handle: post the event channel.
    pub fn wake_by_ref(&mut self, w: &WakerToken)
        requires
            old(self).wf(),
            *w == WakerToken::Simple(old(self).id()),
        ensures
            final(self).wf(),
            final(self).id() == old(self).id(),
            final(self).ref_count() == old(self).ref_count(),
            final(self).clones() == old(self).clones(),
            final(self).drops() == old(self).drops(),
            final(self).spec_pending(),
    {
        self.ec.post();
    }

    /// Drop a handle, lowering the count.
    pub fn drop_waker(&mut self, w: WakerToken)
        requires
            old(self).wf(),
            w == WakerToken::Simple(old(self).id()),
            old(self).ref_count() > 0,
        ensures
            final(self).wf(),
            final(self).id() == old(self).id(),
            final(self).ref_count() == old(self).ref_count() - 1,
            final(self).clones() == old(self).clones(),
            final(self).drops() == old(self).drops() + 1,
            final(self).spec_pending() == old(self).spec_pending(),
    {
        self.ref_count = self.ref_count - 1;
        proof {
            self.drops@ = self.drops@ + 1;
        }
    }

    /// Wake and consume the handle: post, then drop.
    pub fn wake(&mut self, w: WakerToken)
        requires
            old(self).wf(),
            w == WakerToken::Simple(old(self).id()),
            old(self).ref_count() > 0,
        ensures
            final(self).wf(),
            final(self).id() == old(self).id(),
            final(self).ref_count() == old(self).ref_count() - 1,
            final(self).clones() == old(self).clones(),
            final(self).drops() == old(self).drops() + 1,
            final(self).spec_pending(),
    {
        let wr = w;
        self.wake_by_ref(&wr);
        self.drop_waker(wr);
    }

    /// Return from the executor's sleep between polls: a post has been
    /// observed and is consumed.
    pub fn sleep(&mut self)
        requires
            old(self).wf(),
            old(self).spec_pending(),
        ensures
            final(self).wf(),
            final(self).id() == old(self).id(),
            final(self).ref_count() == old(self).ref_count(),
            final(self).clones() == old(self).clones(),
            final(self).drops() == old(self).drops(),
            !final(self).spec_pending(),
    {
        self.ec.sleep();
    }

    /// Destroy the waiter. Destruction with handles still live would be
    /// a broken invariant, so a zero count is demanded.
    pub fn finish(self)
        requires
            self.ref_count() == 0,
    {
    }
}

/// On destruction the waiter's count is back to zero exactly when every
/// handle ever handed out (construction count plus clones) has been
/// dropped again.
pub proof fn lemma_refcount_balance(w: SimpleWaiter)
    requires
        w.wf(),
    ensures
        w.ref_count() == w.clones() - w.drops(),
        (w.ref_count() == 0) <==> (w.clones() == w.drops()),
{
}

/// A timer future: ready once the tick counter reaches its deadline.
pub struct Sleep {
    wake_at: u64,
}

impl Sleep {
    /// The tick at which the sleep elapses.
    pub closed spec fn wake_at(self) -> u64 {
        self.wake_at
    }

    /// Poll against the current tick counter.
    pub fn poll(&self, now: u64) -> (ready: bool)
        ensures
            ready == (now >= self.wake_at()),
    {
        now >= self.wake_at
    }
}

/// Sleep for `ms` milliseconds of tick time from `now`: a future that
/// becomes ready once the tick counter passes `now + ms`.
pub fn msleep(now: u64, ms: usize) -> (s: Sleep)
    requires
        now + ms <= u64::MAX,
    ensures
        s.wake_at() == now + ms as u64,
{
    Sleep { wake_at: now + ms as u64 }
}

} // verus!
