use vstd::prelude::*;
use crate::channel::Channel;
use crate::message::{Job, Message};

verus! {

/// A worker's state machine: `Waiting` is the initial state, re-entered
/// after each executed job; `Terminated` is terminal and never left.
#[derive(Clone, Copy, PartialEq, Eq, Structural, Debug)]
pub enum WorkerState {
    Waiting,
    Terminated,
}

/// What one delivered message does to a waiting worker: a job leaves it
/// waiting again once the job has run, a terminate signal stops it.
pub open spec fn step<J>(m: Message<J>) -> WorkerState {
    match m {
        Message::NewJob(_) => WorkerState::Waiting,
        Message::Terminate => WorkerState::Terminated,
    }
}

/// Acts on one delivered message, outside the channel's lock: a job runs
/// synchronously to completion and the worker waits again; a terminate
/// signal moves the worker to `Terminated` without running anything
/// further. Consuming the message consumes the job, so a job runs at most
/// once.
pub fn handle_message<J: Job>(m: Message<J>) -> (next: WorkerState)
    ensures
        next == step(m),
{
    match m {
        Message::NewJob(job) => {
            job.run();
            WorkerState::Waiting
        },
        Message::Terminate => WorkerState::Terminated,
    }
}

/// One iteration of a worker's loop: dequeue the next message — the lock is
/// held only inside `try_recv`, never while a job executes — and act on it.
/// A worker with nothing to dequeue stays waiting, and a terminated worker
/// never consumes another message.
pub fn poll<J: Job>(channel: &Channel<J>, state: WorkerState) -> (next: WorkerState)
    ensures
        state is Terminated ==> next is Terminated,
{
    match state {
        WorkerState::Terminated => WorkerState::Terminated,
        WorkerState::Waiting => match channel.try_recv() {
            Some(m) => handle_message(m),
            None => WorkerState::Waiting,
        },
    }
}

/// One worker record: a stable identity, unique within its pool, and
/// ownership of the worker thread's join handle. The handle is taken
/// exactly once, during teardown.
pub struct Worker<H> {
    pub id: usize,
    pub thread: Option<H>,
}

impl<H> Worker<H> {
    /// A fresh record for worker `id`, holding its thread's handle.
    pub fn new(id: usize, thread: H) -> (w: Worker<H>)
        ensures
            w.id == id,
            w.thread == Some(thread),
    {
        Worker { id, thread: Some(thread) }
    }

    /// Takes the join handle, leaving the record empty: a second take — or
    /// a take after a partial earlier teardown — yields nothing, so joining
    /// through this record is idempotent-safe.
    pub fn take_thread(&mut self) -> (r: Option<H>)
        ensures
            final(self).id == old(self).id,
            final(self).thread is None,
            r == old(self).thread,
    {
        self.thread.take()
    }
}

} // verus!
