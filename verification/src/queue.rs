//! The bounded queue between the submissions and the worker.

use crate::bisect::Job;
use crate::bisect::JobView;
use crate::options::Options;
use std::collections::VecDeque;
use vstd::prelude::*;

verus! {

/// How many jobs can wait at a time.
pub const QUEUE_CAPACITY: usize = 10;

/// The queue with `job` added at its end, or `None` where the queue is full.
pub open spec fn enqueued(queue: Seq<JobView>, job: JobView) -> Option<Seq<JobView>> {
    if queue.len() < QUEUE_CAPACITY {
        Some(queue.push(job))
    } else {
        None
    }
}

/// The job at the head of the queue and the queue without it, or `None` where the
/// queue is empty.
pub open spec fn dequeued(queue: Seq<JobView>) -> Option<(JobView, Seq<JobView>)> {
    if queue.len() > 0 {
        Some((queue[0], queue.drop_first()))
    } else {
        None
    }
}

/// The queue after the jobs were submitted one after the other, or `None` where one of
/// them found the queue full.
pub open spec fn enqueued_all(queue: Seq<JobView>, jobs: Seq<JobView>) -> Option<Seq<JobView>>
    decreases jobs.len(),
{
    if jobs.len() == 0 {
        Some(queue)
    } else {
        match enqueued(queue, jobs[0]) {
            Some(next) => enqueued_all(next, jobs.drop_first()),
            None => None,
        }
    }
}

/// The jobs in the order in which the worker takes them out of the queue.
pub open spec fn service_order(queue: Seq<JobView>) -> Seq<JobView>
    decreases queue.len(),
{
    match dequeued(queue) {
        Some((job, rest)) => seq![job] + service_order(rest),
        None => Seq::empty(),
    }
}

/// The jobs that wait, the one that waits longest first. Never more than
/// `QUEUE_CAPACITY` of them.
pub struct JobQueue {
    jobs: VecDeque<Job>,
}

/// Said of a submission that found the queue full.
#[derive(Clone, Copy, Debug, PartialEq, Eq, Structural)]
pub struct QueueFull;

impl View for JobQueue {
    type V = Seq<JobView>;

    closed spec fn view(&self) -> Seq<JobView> {
        self.jobs@.map_values(|job: Job| job@)
    }
}

/// Calls `uuid::Uuid::new_v4` and gives the identifier as a number. The identifier is
/// drawn at random, so nothing is said of it.
#[verifier::external_body]
fn random_id() -> (id: u128) {
    uuid::Uuid::new_v4().as_u128()
}

impl JobQueue {
    /// No more jobs wait than the queue has room for.
    pub open spec fn wf(&self) -> bool {
        self@.len() <= QUEUE_CAPACITY
    }

    /// A queue in which nothing waits.
    pub fn new() -> (queue: JobQueue)
        ensures
            queue.wf(),
            queue@ == Seq::<JobView>::empty(),
    {
        let queue = JobQueue { jobs: VecDeque::new() };
        proof {
            assert(queue@ =~= Seq::<JobView>::empty());
        }
        queue
    }

    /// How many jobs wait.
    pub fn len(&self) -> (n: usize)
        ensures
            n == self@.len(),
    {
        self.jobs.len()
    }

    /// Adds `job` at the end unless the queue is full; a full queue hands it back.
    pub fn try_enqueue(&mut self, job: Job) -> (r: Result<(), Job>)
        requires
            old(self).wf(),
        ensures
            final(self).wf(),
            match enqueued(old(self)@, job@) {
                Some(queue) => r is Ok && final(self)@ == queue,
                None => r is Err && r->Err_0 == job && final(self)@ == old(self)@,
            },
    {
        if self.jobs.len() < QUEUE_CAPACITY {
            proof {
                assert(self.jobs@.push(job).map_values(|job: Job| job@) =~= self@.push(job@));
            }
            self.jobs.push_back(job);
            Ok(())
        } else {
            Err(job)
        }
    }

    /// Takes the job that waits longest out of the queue, if any waits.
    pub fn dequeue(&mut self) -> (r: Option<Job>)
        requires
            old(self).wf(),
        ensures
            final(self).wf(),
            match dequeued(old(self)@) {
                Some((job, queue)) => r is Some && r->0@ == job && final(self)@ == queue,
                None => r is None && final(self)@ == old(self)@,
            },
    {
        proof {
            if self.jobs@.len() > 0 {
                assert(self.jobs@.subrange(1, self.jobs@.len() as int).map_values(
                    |job: Job| job@,
                ) =~= self@.drop_first());
            }
        }
        self.jobs.pop_front()
    }
}

/// Admits a submission: gives it a fresh identifier and puts it at the end of the
/// queue, or rejects it where the queue is full. Nothing but the queue changes.
pub fn submit(queue: &mut JobQueue, code: String, options: Options) -> (r: Result<u128, QueueFull>)
    requires
        old(queue).wf(),
    ensures
        final(queue).wf(),
        r is Ok <==> old(queue)@.len() < QUEUE_CAPACITY,
        r is Ok ==> final(queue)@ == old(queue)@.push(
            JobView { id: r->Ok_0, code: code@, options: options@ },
        ),
        r is Err ==> final(queue)@ == old(queue)@,
{
    let id = random_id();
    match queue.try_enqueue(Job::new(id, code, options)) {
        Ok(()) => Ok(id),
        Err(_) => Err(QueueFull),
    }
}

/// The worker takes the jobs out in the order in which they stand in the queue.
pub proof fn lemma_service_order(queue: Seq<JobView>)
    ensures
        service_order(queue) == queue,
    decreases queue.len(),
{
    if queue.len() > 0 {
        lemma_service_order(queue.drop_first());
        assert(seq![queue[0]] + queue.drop_first() =~= queue);
    } else {
        assert(queue =~= Seq::<JobView>::empty());
    }
}

/// The capacity is exactly `QUEUE_CAPACITY`: a queue with fewer jobs admits one more,
/// a queue with that many rejects it, and admits the same job once one job has left.
pub proof fn lemma_capacity(queue: Seq<JobView>, job: JobView)
    requires
        queue.len() <= QUEUE_CAPACITY,
    ensures
        enqueued(queue, job) is Some <==> queue.len() < QUEUE_CAPACITY,
        queue.len() == QUEUE_CAPACITY ==> {
            let (_, rest) = dequeued(queue).unwrap();
            dequeued(queue) is Some && enqueued(rest, job) == Some(queue.drop_first().push(job))
        },
{
}

/// Jobs are served first in, first out: jobs that are admitted one after the other
/// are served in that order, after all that waited before them.
pub proof fn lemma_first_in_first_out(queue: Seq<JobView>, jobs: Seq<JobView>)
    requires
        queue.len() + jobs.len() <= QUEUE_CAPACITY,
    ensures
        enqueued_all(queue, jobs) == Some(queue + jobs),
        service_order(queue + jobs) == service_order(queue) + jobs,
    decreases jobs.len(),
{
    lemma_service_order(queue);
    lemma_service_order(queue + jobs);
    if jobs.len() == 0 {
        assert(queue + jobs =~= queue);
    } else {
        lemma_first_in_first_out(queue.push(jobs[0]), jobs.drop_first());
        assert(queue.push(jobs[0]) + jobs.drop_first() =~= queue + jobs);
    }
}

} // verus!
