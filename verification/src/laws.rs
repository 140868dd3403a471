use vstd::prelude::*;
use crate::message::Message;
use crate::worker;
use crate::worker::WorkerState;

verus! {

/// The jobs a sequence of channel messages carries, in channel order.
///
/// The channel's lock invariant makes the workers' collective dequeue order
/// equal the enqueue order, with each message dequeued exactly once, and a
/// waiting worker runs exactly the jobs of the messages it dequeues; so this
/// is, in order, what the pool's workers collectively execute when they
/// drain a channel whose history is `trace`.
pub open spec fn jobs_of<J>(trace: Seq<Message<J>>) -> Seq<J>
    decreases trace.len(),
{
    if trace.len() == 0 {
        Seq::empty()
    } else {
        let rest = jobs_of(trace.drop_last());
        if trace.last() is NewJob {
            rest.push(trace.last()->0)
        } else {
            rest
        }
    }
}

/// How many terminate signals a sequence of channel messages carries. Each
/// one stops exactly one worker, since a worker exits on the first one it
/// dequeues and dequeues nothing further.
pub open spec fn terminate_count<J>(trace: Seq<Message<J>>) -> nat
    decreases trace.len(),
{
    if trace.len() == 0 {
        0
    } else {
        terminate_count(trace.drop_last()) + if trace.last() is Terminate {
            1nat
        } else {
            0nat
        }
    }
}

/// The channel history that a full run of the pool produces: the submitted
/// jobs, in submission order, followed by teardown's one terminate signal
/// per worker, `n` in all.
pub open spec fn teardown_trace<J>(jobs: Seq<J>, n: nat) -> Seq<Message<J>> {
    jobs.map_values(|j: J| Message::NewJob(j)) + Seq::new(n, |i: int| Message::<J>::Terminate)
}

/// Splitting a trace splits its jobs: concatenated messages carry the
/// concatenation of their jobs.
pub proof fn lemma_jobs_of_concat<J>(a: Seq<Message<J>>, b: Seq<Message<J>>)
    ensures
        jobs_of(a + b) == jobs_of(a) + jobs_of(b),
    decreases b.len(),
{
    if b.len() == 0 {
        assert(a + b =~= a);
        assert(jobs_of(a) + jobs_of(b) =~= jobs_of(a));
    } else {
        lemma_jobs_of_concat(a, b.drop_last());
        assert((a + b).drop_last() =~= a + b.drop_last());
        if b.last() is NewJob {
            assert((jobs_of(a) + jobs_of(b.drop_last())).push(b.last()->0) =~= jobs_of(a)
                + jobs_of(b.drop_last()).push(b.last()->0));
        }
    }
}

/// Splitting a trace splits its terminate signals likewise.
pub proof fn lemma_terminate_count_concat<J>(a: Seq<Message<J>>, b: Seq<Message<J>>)
    ensures
        terminate_count(a + b) == terminate_count(a) + terminate_count(b),
    decreases b.len(),
{
    if b.len() == 0 {
        assert(a + b =~= a);
    } else {
        lemma_terminate_count_concat(a, b.drop_last());
        assert((a + b).drop_last() =~= a + b.drop_last());
    }
}

/// A trace of job messages alone carries exactly those jobs, in order, and
/// no terminate signal.
pub proof fn lemma_jobs_trace<J>(jobs: Seq<J>)
    ensures
        jobs_of(jobs.map_values(|j: J| Message::NewJob(j))) == jobs,
        terminate_count(jobs.map_values(|j: J| Message::NewJob(j))) == 0,
    decreases jobs.len(),
{
    let trace = jobs.map_values(|j: J| Message::NewJob(j));
    if jobs.len() == 0 {
        assert(jobs_of(trace) =~= jobs);
    } else {
        lemma_jobs_trace(jobs.drop_last());
        assert(trace.drop_last() =~= jobs.drop_last().map_values(
            |j: J| Message::NewJob(j),
        ));
        assert(jobs_of(trace) =~= jobs);
    }
}

/// A trace of terminate signals alone carries no job and `n` signals.
pub proof fn lemma_terminate_trace<J>(n: nat)
    ensures
        jobs_of(Seq::new(n, |i: int| Message::<J>::Terminate)) == Seq::<J>::empty(),
        terminate_count(Seq::new(n, |i: int| Message::<J>::Terminate)) == n,
    decreases n,
{
    let trace = Seq::new(n, |i: int| Message::<J>::Terminate);
    if n > 0 {
        lemma_terminate_trace::<J>((n - 1) as nat);
        assert(trace.drop_last() =~= Seq::new((n - 1) as nat, |i: int| Message::<J>::Terminate));
    }
}

/// The delivery law of a full pool run. For every sequence of submitted
/// jobs and every worker count `n`, the channel history that teardown
/// leaves behind carries each submitted job exactly once, in submission
/// order, and exactly one terminate signal per worker: a pool that drains
/// the channel runs all jobs exactly once and stops all `n` workers.
pub proof fn lemma_teardown_delivers_all<J>(jobs: Seq<J>, n: nat)
    ensures
        jobs_of(teardown_trace(jobs, n)) == jobs,
        terminate_count(teardown_trace(jobs, n)) == n,
        teardown_trace(jobs, n).len() == jobs.len() + n,
{
    let front = jobs.map_values(|j: J| Message::NewJob(j));
    let back = Seq::new(n, |i: int| Message::<J>::Terminate);
    lemma_jobs_of_concat(front, back);
    lemma_terminate_count_concat(front, back);
    lemma_jobs_trace(jobs);
    lemma_terminate_trace::<J>(n);
    assert(jobs_of(teardown_trace(jobs, n)) =~= jobs);
}

/// No submission is lost, and one submitter's order is kept: if one
/// submitter enqueues job `a` strictly before job `b`, then whatever worker
/// count the pool has, the delivered jobs hold both, each exactly once, in
/// that same order.
pub proof fn lemma_submission_order_kept<J>(jobs: Seq<J>, n: nat, a: int, b: int)
    requires
        0 <= a < b < jobs.len(),
    ensures
        jobs_of(teardown_trace(jobs, n)).len() == jobs.len(),
        jobs_of(teardown_trace(jobs, n))[a] == jobs[a],
        jobs_of(teardown_trace(jobs, n))[b] == jobs[b],
{
    lemma_teardown_delivers_all(jobs, n);
}

/// The state one worker reaches after acting, from its initial waiting
/// state, on each message delivered to it, in delivery order. `Terminated`
/// absorbs: a stopped worker acts on nothing further.
pub open spec fn worker_after<J>(ms: Seq<Message<J>>) -> WorkerState
    decreases ms.len(),
{
    if ms.len() == 0 {
        WorkerState::Waiting
    } else if worker_after(ms.drop_last()) is Terminated {
        WorkerState::Terminated
    } else {
        worker::step(ms.last())
    }
}

/// A worker stops exactly when a terminate signal is among the messages
/// delivered to it — one signal suffices, jobs alone never stop it, and
/// once stopped it stays stopped whatever follows.
pub proof fn lemma_worker_stops_on_terminate<J>(ms: Seq<Message<J>>)
    ensures
        worker_after(ms) is Terminated <==> exists|i: int|
            0 <= i < ms.len() && ms[i] is Terminate,
    decreases ms.len(),
{
    if ms.len() > 0 {
        let front = ms.drop_last();
        lemma_worker_stops_on_terminate(front);
        if worker_after(ms) is Terminated {
            if worker_after(front) is Terminated {
                let i = choose|i: int| 0 <= i < front.len() && front[i] is Terminate;
                assert(ms[i] is Terminate);
            } else {
                assert(ms[ms.len() - 1] is Terminate);
            }
        }
        if exists|i: int| 0 <= i < ms.len() && ms[i] is Terminate {
            let i = choose|i: int| 0 <= i < ms.len() && ms[i] is Terminate;
            if i < ms.len() - 1 {
                assert(front[i] is Terminate);
            }
        }
    }
}

} // verus!
