use vstd::prelude::*;

verus! {

/// A single-invocation unit of work.
///
/// A job is an owned value, handed over irrevocably on submission and
/// consumed by `run`, so the type system alone guarantees that a dequeued
/// job is invoked at most once. The pool promises nothing about a job's
/// outcome: submission is fire-and-forget.
pub trait Job: Sized {
    /// Performs the work. Consumes the job, so it can run only once.
    fn run(self);
}

/// The unit transported on the shared channel: either one job, or the
/// signal that tells the worker that dequeues it to stop.
pub enum Message<J> {
    NewJob(J),
    Terminate,
}

} // verus!
