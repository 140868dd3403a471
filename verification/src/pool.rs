use vstd::prelude::*;
use std::sync::Arc;
use crate::channel::Channel;
use crate::worker::Worker;

verus! {

/// The thread handles still present in a sequence of worker records, in
/// worker-index order.
pub open spec fn present_threads<H>(ws: Seq<Worker<H>>) -> Seq<H>
    decreases ws.len(),
{
    if ws.len() == 0 {
        Seq::empty()
    } else {
        let rest = present_threads(ws.drop_last());
        match ws.last().thread {
            Some(h) => rest.push(h),
            None => rest,
        }
    }
}

/// When every record still holds its handle — as after construction, before
/// any teardown — the handles surrendered are exactly all of them, one per
/// worker, in worker-index order.
pub proof fn lemma_present_threads_all<H>(ws: Seq<Worker<H>>)
    requires
        forall|i: int| 0 <= i < ws.len() ==> (#[trigger] ws[i]).thread is Some,
    ensures
        present_threads(ws).len() == ws.len(),
        forall|i: int|
            0 <= i < ws.len() ==> #[trigger] present_threads(ws)[i] == ws[i].thread->0,
    decreases ws.len(),
{
    if ws.len() > 0 {
        assert(forall|i: int|
            0 <= i < ws.len() - 1 ==> (#[trigger] ws.drop_last()[i]) == ws[i]);
        lemma_present_threads_all(ws.drop_last());
    }
}

/// When no record holds a handle any more — as after a completed teardown —
/// a further teardown pass surrenders nothing.
pub proof fn lemma_present_threads_none<H>(ws: Seq<Worker<H>>)
    requires
        forall|i: int| 0 <= i < ws.len() ==> (#[trigger] ws[i]).thread is None,
    ensures
        present_threads(ws) == Seq::<H>::empty(),
    decreases ws.len(),
{
    if ws.len() > 0 {
        assert(forall|i: int|
            0 <= i < ws.len() - 1 ==> (#[trigger] ws.drop_last()[i]) == ws[i]);
        lemma_present_threads_none(ws.drop_last());
        assert(present_threads(ws) =~= Seq::<H>::empty());
    }
}

/// The caller-facing pool handle: it owns the submission side of the shared
/// channel and the records of its workers. Built once over a fixed, positive
/// number of workers; never resized.
///
/// Teardown is a two-step protocol, run exactly once by the owner when the
/// pool is released: `shutdown` enqueues one terminate signal per worker
/// behind every job already queued, then the owner joins each handle that
/// `take_threads` surrenders, in worker-index order, and so does not finish
/// before every worker thread has exited.
pub struct ThreadPool<J, H> {
    workers: Vec<Worker<H>>,
    channel: Arc<Channel<J>>,
}

impl<J, H> ThreadPool<J, H> {
    /// The pool's worker records.
    pub closed spec fn workers(self) -> Seq<Worker<H>> {
        self.workers@
    }

    /// How many workers the pool was built with.
    pub open spec fn size(self) -> nat {
        self.workers().len()
    }

    /// A pool is well formed when it has at least one worker and each
    /// worker's identity equals its slot index — identities are unique and
    /// stable for the worker's lifetime.
    pub open spec fn wf(self) -> bool {
        &&& self.size() >= 1
        &&& forall|i: int|
            0 <= i < self.workers().len() ==> (#[trigger] self.workers()[i]).id == i
    }

    /// Assembles a pool over an already-created channel, taking ownership of
    /// one worker thread handle per slot. A pool of zero workers could never
    /// make progress, so a positive worker count is a precondition: a caller
    /// that cannot prove it must fail fast instead of constructing a pool.
    /// Worker `i` is given identity `i` and holds the `i`-th handle.
    pub fn new(channel: Arc<Channel<J>>, threads: Vec<H>) -> (pool: ThreadPool<J, H>)
        requires
            threads@.len() >= 1,
        ensures
            pool.wf(),
            pool.size() == threads@.len(),
            forall|i: int|
                0 <= i < threads@.len() ==> (#[trigger] pool.workers()[i]).thread == Some(
                    threads@[i],
                ),
    {
        let ghost orig = threads@;
        let n = threads.len();
        let mut threads = threads;
        let mut workers: Vec<Worker<H>> = Vec::new();
        let mut id: usize = 0;
        while id < n
            invariant
                id <= n,
                n == orig.len(),
                workers@.len() == id,
                threads@ =~= orig.skip(id as int),
                forall|i: int|
                    0 <= i < id ==> (#[trigger] workers@[i]).id == i && workers@[i].thread
                        == Some(orig[i]),
            decreases n - id,
        {
            let h = threads.remove(0);
            proof {
                assert(orig.skip(id as int)[0] == orig[id as int]);
                assert(orig.skip(id as int).remove(0) =~= orig.skip(id as int + 1));
            }
            workers.push(Worker::new(id, h));
            id = id + 1;
        }
        ThreadPool { workers, channel }
    }

    /// Submits one job: fire and forget. The job is enqueued behind every
    /// message already queued; the caller learns neither when nor on which
    /// worker it runs, nor its outcome. Submission fails only once teardown
    /// has closed the channel's intake, and then the job comes back
    /// unchanged — a late submission is signalled, never silently dropped.
    pub fn execute(&self, job: J) -> (r: Result<(), J>)
        ensures
            r matches Err(j) ==> j == job,
    {
        self.channel.send_job(job)
    }

    /// First step of teardown: closes the channel's intake and enqueues
    /// exactly one terminate signal per worker. Every job queued before this
    /// call is drained by the workers before they stop. A repeated call
    /// changes nothing: no worker is ever sent a second terminate signal.
    pub fn shutdown(&self) {
        self.channel.shutdown(self.workers.len())
    }

    /// Second step of teardown: surrenders every worker's join handle, in
    /// worker-index order, for the owner to join. Each handle is taken
    /// exactly once; a worker whose handle is already gone is skipped, so a
    /// partial earlier teardown is harmless.
    pub fn take_threads(&mut self) -> (handles: Vec<H>)
        requires
            old(self).wf(),
        ensures
            final(self).wf(),
            final(self).size() == old(self).size(),
            forall|i: int|
                0 <= i < final(self).workers().len() ==> (#[trigger] final(self).workers()[i]).id
                    == old(self).workers()[i].id && final(self).workers()[i].thread is None,
            handles@ == present_threads(old(self).workers()),
    {
        let ghost orig = self.workers@;
        let mut handles: Vec<H> = Vec::new();
        let mut drained: Vec<Worker<H>> = Vec::new();
        while self.workers.len() > 0
            invariant
                orig.len() >= 1,
                drained@.len() + self.workers@.len() == orig.len(),
                self.workers@ =~= orig.skip(drained@.len() as int),
                forall|i: int|
                    0 <= i < drained@.len() ==> (#[trigger] drained@[i]).id == orig[i].id
                        && drained@[i].thread is None,
                handles@ == present_threads(orig.take(drained@.len() as int)),
            decreases self.workers@.len(),
        {
            let ghost k = drained@.len() as int;
            let mut w = self.workers.remove(0);
            proof {
                assert(orig.skip(k)[0] == orig[k]);
                assert(orig.skip(k).remove(0) =~= orig.skip(k + 1));
            }
            match w.take_thread() {
                Some(h) => handles.push(h),
                None => (),
            }
            drained.push(w);
            proof {
                assert(orig.take(k + 1).drop_last() =~= orig.take(k));
                assert(orig.take(k + 1).last() == orig[k]);
            }
        }
        proof {
            assert(orig.take(orig.len() as int) =~= orig);
        }
        self.workers = drained;
        handles
    }
}

} // verus!
