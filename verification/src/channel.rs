use vstd::prelude::*;
use vstd::rwlock::{RwLock, RwLockPredicate};
use crate::message::Message;

verus! {

/// The state guarded by the channel's lock: the messages enqueued and not
/// yet dequeued, plus the ghost record of every message ever enqueued.
///
/// The well-formedness invariant `wf` ties the two together: the pending
/// queue is exactly the suffix of the history that has not been dequeued.
/// Every dequeue therefore hands out the oldest pending message — the
/// channel is first-in-first-out, and a message is dequeued at most once.
pub struct ChannelState<J> {
    /// Messages enqueued and not yet dequeued, oldest first.
    pub pending: Vec<Message<J>>,
    /// Whether intake has been closed: once teardown begins, no further
    /// job is accepted.
    pub closed: bool,
    /// Every message ever enqueued, in enqueue order.
    pub history: Ghost<Seq<Message<J>>>,
    /// How many messages of the history have been dequeued.
    pub taken: Ghost<nat>,
}

impl<J> ChannelState<J> {
    /// First-in-first-out: the pending queue is exactly the history's
    /// not-yet-dequeued suffix.
    pub open spec fn wf(self) -> bool {
        &&& self.taken@ + self.pending@.len() == self.history@.len()
        &&& self.pending@ =~= self.history@.skip(self.taken@ as int)
    }

    /// A fresh channel: nothing enqueued, nothing dequeued, intake open.
    pub fn empty() -> (c: ChannelState<J>)
        ensures
            c.wf(),
            c.history@ == Seq::<Message<J>>::empty(),
            c.taken@ == 0,
            !c.closed,
    {
        ChannelState {
            pending: Vec::new(),
            closed: false,
            history: Ghost(Seq::empty()),
            taken: Ghost(0nat),
        }
    }

    /// Enqueues one job while intake is open; once intake is closed the job
    /// is handed back unchanged, never silently dropped.
    pub fn enqueue_job(&mut self, job: J) -> (r: Result<(), J>)
        requires
            old(self).wf(),
        ensures
            final(self).wf(),
            final(self).closed == old(self).closed,
            final(self).taken == old(self).taken,
            if old(self).closed {
                &&& r matches Err(j) && j == job
                &&& final(self).history == old(self).history
                &&& final(self).pending == old(self).pending
            } else {
                &&& r is Ok
                &&& final(self).history@ == old(self).history@.push(Message::NewJob(job))
                &&& final(self).pending@ == old(self).pending@.push(Message::NewJob(job))
            },
    {
        if self.closed {
            Err(job)
        } else {
            let ghost prior = self.history@;
            self.pending.push(Message::NewJob(job));
            self.history = Ghost(prior.push(Message::NewJob(job)));
            proof {
                assert(self.pending@ =~= self.history@.skip(self.taken@ as int));
            }
            Ok(())
        }
    }

    /// Closes intake and enqueues one terminate signal per worker, `count`
    /// in all, after everything already pending. Teardown happens once: on
    /// a channel whose intake is already closed this changes nothing, so no
    /// worker is ever promised more than one terminate signal.
    pub fn close_and_terminate(&mut self, count: usize)
        requires
            old(self).wf(),
        ensures
            final(self).wf(),
            final(self).closed,
            final(self).taken == old(self).taken,
            final(self).history@ == if old(self).closed {
                old(self).history@
            } else {
                old(self).history@ + Seq::new(count as nat, |i: int| Message::<J>::Terminate)
            },
    {
        if self.closed {
            return;
        }
        self.closed = true;
        let ghost prior = self.history@;
        let mut sent: usize = 0;
        while sent < count
            invariant
                sent <= count,
                self.wf(),
                self.closed,
                self.taken == old(self).taken,
                self.pending@.len() == old(self).pending@.len() + sent,
                self.history@ == prior
                    + Seq::new(sent as nat, |i: int| Message::<J>::Terminate),
            decreases count - sent,
        {
            self.pending.push(Message::Terminate);
            self.history = Ghost(self.history@.push(Message::Terminate));
            sent = sent + 1;
            proof {
                assert(self.history@ =~= prior
                    + Seq::new(sent as nat, |i: int| Message::<J>::Terminate));
                assert(self.pending@ =~= self.history@.skip(self.taken@ as int));
            }
        }
        proof {
            assert(self.history@ =~= prior
                + Seq::new(count as nat, |i: int| Message::<J>::Terminate));
        }
    }

    /// Dequeues the oldest pending message, if any. The message handed out
    /// is exactly the next undelivered entry of the history, and it is
    /// marked delivered, so no message is ever handed out twice.
    pub fn dequeue(&mut self) -> (r: Option<Message<J>>)
        requires
            old(self).wf(),
        ensures
            final(self).wf(),
            final(self).closed == old(self).closed,
            final(self).history == old(self).history,
            match r {
                Some(m) => {
                    &&& old(self).pending@.len() > 0
                    &&& m == old(self).history@[old(self).taken@ as int]
                    &&& final(self).taken@ == old(self).taken@ + 1
                    &&& final(self).pending@ == old(self).pending@.skip(1)
                },
                None => {
                    &&& old(self).pending@.len() == 0
                    &&& final(self).taken == old(self).taken
                    &&& final(self).pending == old(self).pending
                },
            },
    {
        if self.pending.len() > 0 {
            let m = self.pending.remove(0);
            self.taken = Ghost(self.taken@ + 1);
            proof {
                assert(self.pending@ =~= old(self).pending@.skip(1));
                assert(self.pending@ =~= self.history@.skip(self.taken@ as int));
            }
            Some(m)
        } else {
            None
        }
    }
}

/// The predicate the channel's lock maintains: every state stored in the
/// lock is well formed, so every thread that acquires the lock finds the
/// first-in-first-out invariant intact.
pub struct ChannelInv;

impl<J> RwLockPredicate<ChannelState<J>> for ChannelInv {
    open spec fn inv(self, v: ChannelState<J>) -> bool {
        v.wf()
    }
}

/// The shared channel: one unbounded first-in-first-out queue of messages
/// behind a mutual-exclusion lock.
///
/// Any number of submitters enqueue concurrently, and the pool's workers
/// compete to dequeue; the lock admits one party at a time, and is held
/// only for the enqueue or dequeue itself, never while a job executes.
/// The lock's invariant keeps every stored state well formed, so the
/// collective dequeue order always equals the enqueue order, and no message
/// is delivered twice.
pub struct Channel<J> {
    lock: RwLock<ChannelState<J>, ChannelInv>,
}

impl<J> Channel<J> {
    /// Creates an empty channel with its intake open.
    pub fn new() -> (c: Channel<J>) {
        Channel { lock: RwLock::new(ChannelState::empty(), Ghost(ChannelInv)) }
    }

    /// Enqueues one job, fire and forget: the submitter learns nothing of
    /// when or where it runs. The enqueue succeeds whenever intake is still
    /// open; once teardown has closed the intake, the job is handed back
    /// unchanged — it is never silently dropped.
    pub fn send_job(&self, job: J) -> (r: Result<(), J>)
        ensures
            r matches Err(j) ==> j == job,
    {
        let (mut state, handle) = self.lock.acquire_write();
        let r = state.enqueue_job(job);
        handle.release_write(state);
        r
    }

    /// Begins teardown: closes the intake and enqueues exactly `count`
    /// terminate signals, one per worker, behind every job already queued.
    /// Workers therefore drain all earlier jobs before they stop. Teardown
    /// begins at most once: on a channel already closed this changes
    /// nothing.
    pub fn shutdown(&self, count: usize) {
        let (mut state, handle) = self.lock.acquire_write();
        state.close_and_terminate(count);
        handle.release_write(state);
    }

    /// Dequeues the oldest pending message, if any. The lock is held only
    /// for the duration of the dequeue: it is released before this function
    /// returns, so the caller acts on the message — in particular, runs a
    /// job — with the channel free for other workers.
    pub fn try_recv(&self) -> (r: Option<Message<J>>) {
        let (mut state, handle) = self.lock.acquire_write();
        let r = state.dequeue();
        handle.release_write(state);
        r
    }
}

} // verus!
