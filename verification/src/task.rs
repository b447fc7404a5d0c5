//! The queues of the task that serves a Modbus server: one-off reads,
//! streams and writes, each kept in slave order, the progress of each
//! request through its partial reads, and what a pass over a queue does to
//! every request in it. The task itself (connections, channels, timers) runs
//! outside; it reports what happened to each request as a [`JobEvent`].

use vstd::prelude::*;

use crate::connection::{Destination, DestinationView};
use crate::record::SimpleRecord;
use crate::register::Timestamp;
use crate::span::SimpleSpan;
use crate::worker::{
    accept_request, all_filled, conclude_attempt, insertion_index, law_insertion_keeps_order,
    law_removal_keeps_order, max_generation, max_generation_spec, next_generation,
    served_generation, slaves_sorted, stream_step, stream_step_spec, unmarked, Attempt, Incoming, ReadResponseEntry, StreamStep,
};

verus! {

/// `n` slots, none of them read yet.
pub open spec fn empty_slots_spec<T>(n: nat) -> Seq<Option<T>> {
    Seq::new(n, |_i: int| None)
}

/// `n` slots, none of them read yet.
pub fn empty_slots<T>(n: usize) -> (r: Vec<Option<T>>)
    ensures
        r@ == empty_slots_spec::<T>(n as nat),
{
    let mut r: Vec<Option<T>> = Vec::new();
    let mut i: usize = 0;
    while i < n
        invariant
            i <= n,
            r@ == empty_slots_spec::<T>(i as nat),
        decreases n - i,
    {
        r.push(None);
        i = i + 1;
        assert(r@ =~= empty_slots_spec::<T>(i as nat));
    }
    r
}

/// The retry count after one more unsuccessful pass (saturating).
pub open spec fn next_retries(retries: u32) -> u32 {
    if retries == u32::MAX {
        u32::MAX
    } else {
        (retries + 1) as u32
    }
}

/// The generation after a reset or a delivered response (saturating).
pub open spec fn next_generation_spec(generation: u64) -> u64 {
    if generation == u64::MAX {
        u64::MAX
    } else {
        (generation + 1) as u64
    }
}

/// A queued request: where it goes, what it asks for (spans to read or
/// records to write), one slot per item with what was obtained so far, the
/// passes that did not complete it, the stream generation it belongs to, and
/// the reply channel of whoever asked.
pub struct Job<I, T, P> {
    pub destination: Destination,
    pub items: Vec<I>,
    pub slots: Vec<Option<T>>,
    pub retries: u32,
    pub generation: u64,
    pub reply: P,
}

/// What a [`Job`] is, as plain values.
pub struct JobView<I, T, P> {
    pub destination: DestinationView,
    pub items: Seq<I>,
    pub slots: Seq<Option<T>>,
    pub retries: u32,
    pub generation: u64,
    pub reply: P,
}

impl<I, T, P> View for Job<I, T, P> {
    type V = JobView<I, T, P>;

    open spec fn view(&self) -> JobView<I, T, P> {
        JobView {
            destination: self.destination@,
            items: self.items@,
            slots: self.slots@,
            retries: self.retries,
            generation: self.generation,
            reply: self.reply,
        }
    }
}

/// A request as it is queued: no slot read, no retry, in generation
/// `generation`.
pub open spec fn fresh_job<I, T, P>(
    destination: DestinationView,
    items: Seq<I>,
    generation: u64,
    reply: P,
) -> JobView<I, T, P> {
    JobView {
        destination,
        items,
        slots: empty_slots_spec(items.len()),
        retries: 0,
        generation,
        reply,
    }
}

/// The job with other slots and retry count.
pub open spec fn with_progress<I, T, P>(j: JobView<I, T, P>, slots: Seq<Option<T>>, retries: u32) -> JobView<
    I,
    T,
    P,
> {
    JobView {
        destination: j.destination,
        items: j.items,
        slots,
        retries,
        generation: j.generation,
        reply: j.reply,
    }
}

/// A stream that starts over: every slot empty, no retry, in the next
/// generation.
pub open spec fn reset_job<I, T, P>(j: JobView<I, T, P>) -> JobView<I, T, P> {
    JobView {
        destination: j.destination,
        items: j.items,
        slots: empty_slots_spec(j.items.len()),
        retries: 0,
        generation: next_generation_spec(j.generation),
        reply: j.reply,
    }
}

impl<I, T, P> Job<I, T, P> {
    /// A request as it is queued (see [`fresh_job`]).
    pub fn new(destination: Destination, items: Vec<I>, generation: u64, reply: P) -> (j: Self)
        ensures
            j@ == fresh_job::<I, T, P>(destination@, items@, generation, reply),
    {
        let slots = empty_slots(items.len());
        Job { destination, items, slots, retries: 0, generation, reply }
    }

    /// Starts the request over (see [`reset_job`]).
    pub fn reset(&mut self)
        ensures
            final(self)@ == reset_job(old(self)@),
    {
        self.slots = empty_slots(self.items.len());
        self.retries = 0;
        self.generation = next_generation(self.generation);
    }

    /// Records what was obtained for item `slot`.
    pub fn fill(&mut self, slot: usize, value: T)
        requires
            slot < old(self).slots@.len(),
        ensures
            final(self)@ == with_progress(
                old(self)@,
                old(self)@.slots.update(slot as int, Some(value)),
                old(self).retries,
            ),
    {
        self.slots.set(slot, Some(value));
    }

    /// Concludes a pass over the request: when every slot is filled, the
    /// values in order, with the slots emptied; otherwise nothing, with the
    /// slots kept and one more retry counted.
    pub fn conclude(&mut self) -> (r: Option<Vec<T>>)
        ensures
            all_filled(old(self)@.slots) <==> r is Some,
            r matches Some(values) ==> {
                &&& values@.len() == old(self)@.slots.len()
                &&& forall|i: int|
                    0 <= i < values@.len() ==> old(self)@.slots[i] == Some(#[trigger] values@[i])
                &&& final(self)@ == with_progress(
                    old(self)@,
                    empty_slots_spec(old(self)@.slots.len()),
                    old(self).retries,
                )
            },
            r is None ==> final(self)@ == with_progress(
                old(self)@,
                old(self)@.slots,
                next_retries(old(self).retries),
            ),
    {
        let mut slots: Vec<Option<T>> = Vec::new();
        std::mem::swap(&mut slots, &mut self.slots);
        let n = slots.len();
        match conclude_attempt(slots, self.retries) {
            Attempt::Complete(values) => {
                self.slots = empty_slots(n);
                Some(values)
            },
            Attempt::Partial { slots, retries } => {
                self.slots = slots;
                self.retries = retries;
                None
            },
        }
    }
}

/// What happened to a request in a pass of the task.
#[derive(Clone, Copy, Debug, PartialEq, Eq, Structural)]
pub enum JobEvent {
    /// Whoever asked stopped listening.
    Disconnected,
    /// The server could not be reached; the error was sent to whoever asked.
    ConnectFailed,
    /// A stream ahead of the generation being served.
    NotServed,
    /// A stream that ran out of retries.
    OutOfRetries,
    /// Some items are still missing.
    Incomplete,
    /// Every item was obtained and the response was sent; `delivered` says
    /// whether it reached whoever asked.
    Completed { delivered: bool },
}

/// What a pass does to a request afterwards.
#[derive(Clone, Copy, Debug, PartialEq, Eq, Structural)]
pub enum JobAction {
    /// It stays queued as it is.
    Keep,
    /// It leaves the queue.
    Remove,
    /// It stays queued and starts over in the next generation.
    Reset,
}

/// What becomes of a one-off read or a write: it leaves the queue once it
/// is answered or cannot be answered, and stays otherwise.
pub open spec fn read_action(e: JobEvent) -> JobAction {
    match e {
        JobEvent::Disconnected => JobAction::Remove,
        JobEvent::ConnectFailed => JobAction::Remove,
        JobEvent::Completed { .. } => JobAction::Remove,
        _ => JobAction::Keep,
    }
}

/// What becomes of a stream: it starts over after a delivered response or
/// when out of retries, leaves the queue when nobody listens or the server
/// cannot be reached, and stays otherwise.
pub open spec fn stream_action(e: JobEvent) -> JobAction {
    match e {
        JobEvent::Disconnected => JobAction::Remove,
        JobEvent::ConnectFailed => JobAction::Remove,
        JobEvent::Completed { delivered } => if delivered {
            JobAction::Reset
        } else {
            JobAction::Remove
        },
        JobEvent::OutOfRetries => JobAction::Reset,
        JobEvent::NotServed => JobAction::Keep,
        JobEvent::Incomplete => JobAction::Keep,
    }
}

/// What becomes of a one-off read or a write (see [`read_action`]).
pub fn read_job_next(e: JobEvent) -> (a: JobAction)
    ensures
        a == read_action(e),
{
    match e {
        JobEvent::Disconnected => JobAction::Remove,
        JobEvent::ConnectFailed => JobAction::Remove,
        JobEvent::Completed { .. } => JobAction::Remove,
        _ => JobAction::Keep,
    }
}

/// What becomes of a stream (see [`stream_action`]).
pub fn stream_job_next(e: JobEvent) -> (a: JobAction)
    ensures
        a == stream_action(e),
{
    match e {
        JobEvent::Disconnected => JobAction::Remove,
        JobEvent::ConnectFailed => JobAction::Remove,
        JobEvent::Completed { delivered } => if delivered {
            JobAction::Reset
        } else {
            JobAction::Remove
        },
        JobEvent::OutOfRetries => JobAction::Reset,
        JobEvent::NotServed => JobAction::Keep,
        JobEvent::Incomplete => JobAction::Keep,
    }
}

/// What a pass that serves generation `serving` decides for a stream
/// before any I/O: disconnected when its reader no longer listens, whatever
/// its generation; otherwise not served when it is ahead, out of retries
/// when it has used more than `partial_retries`, and nothing yet when it is
/// to be read.
pub fn stream_event<I, T, P>(job: &Job<I, T, P>, listening: bool, serving: u64, partial_retries: u32) -> (e:
    Option<JobEvent>)
    ensures
        e == if !listening {
            Some(JobEvent::Disconnected)
        } else {
            match stream_step_spec(job.generation, serving, job.retries, partial_retries) {
                StreamStep::Skip => Some(JobEvent::NotServed),
                StreamStep::Reset => Some(JobEvent::OutOfRetries),
                StreamStep::Read => None::<JobEvent>,
            }
        },
{
    if !listening {
        return Some(JobEvent::Disconnected);
    }
    match stream_step(job.generation, serving, job.retries, partial_retries) {
        StreamStep::Skip => Some(JobEvent::NotServed),
        StreamStep::Reset => Some(JobEvent::OutOfRetries),
        StreamStep::Read => None,
    }
}

/// The views of the jobs of a queue, in order.
pub open spec fn queue_view<I, T, P>(q: Seq<Job<I, T, P>>) -> Seq<JobView<I, T, P>> {
    q.map_values(|j: Job<I, T, P>| j@)
}

/// The slaves of the jobs of a queue, in order.
pub open spec fn slaves_of<I, T, P>(q: Seq<JobView<I, T, P>>) -> Seq<Option<u8>> {
    q.map_values(|j: JobView<I, T, P>| j.destination.slave)
}

/// The generations of the jobs of a queue, in order.
pub open spec fn generations_of<I, T, P>(q: Seq<JobView<I, T, P>>) -> Seq<u64> {
    q.map_values(|j: JobView<I, T, P>| j.generation)
}

/// A queue whose jobs are in slave order and have one slot per item.
pub open spec fn queue_ready<I, T, P>(q: Seq<JobView<I, T, P>>) -> bool {
    &&& slaves_sorted(slaves_of(q))
    &&& forall|i: int| 0 <= i < q.len() ==> (#[trigger] q[i]).slots.len() == q[i].items.len()
}

/// `after` is `before` with `job` inserted at some position.
pub open spec fn queued<I, T, P>(
    before: Seq<JobView<I, T, P>>,
    after: Seq<JobView<I, T, P>>,
    job: JobView<I, T, P>,
) -> bool {
    exists|p: int| 0 <= p <= before.len() && after == before.insert(p, job)
}

/// The queue after a pass that decided `actions[i]` for its `i`-th job:
/// removed jobs leave, reset jobs start over, the others stay as they are,
/// and the order is kept.
pub open spec fn settled<I, T, P>(q: Seq<JobView<I, T, P>>, actions: Seq<JobAction>) -> Seq<
    JobView<I, T, P>,
>
    decreases q.len(),
{
    if q.len() == 0 {
        Seq::empty()
    } else {
        let rest = settled(q.drop_last(), actions);
        match actions[q.len() - 1] {
            JobAction::Remove => rest,
            JobAction::Keep => rest.push(q.last()),
            JobAction::Reset => rest.push(reset_job(q.last())),
        }
    }
}

/// Which jobs the actions remove.
pub open spec fn removals(actions: Seq<JobAction>) -> Seq<bool> {
    actions.map_values(|a: JobAction| a == JobAction::Remove)
}

/// The actions a pass takes on one-off reads or writes, from their events.
pub open spec fn read_actions(events: Seq<JobEvent>) -> Seq<JobAction> {
    events.map_values(|e: JobEvent| read_action(e))
}

/// The actions a pass takes on streams, from their events.
pub open spec fn stream_actions(events: Seq<JobEvent>) -> Seq<JobAction> {
    events.map_values(|e: JobEvent| stream_action(e))
}

proof fn lemma_settled_slaves<I, T, P>(q: Seq<JobView<I, T, P>>, actions: Seq<JobAction>)
    requires
        actions.len() >= q.len(),
    ensures
        slaves_of(settled(q, actions)) == unmarked(slaves_of(q), removals(actions)),
    decreases q.len(),
{
    if q.len() > 0 {
        let rest = q.drop_last();
        lemma_settled_slaves(rest, actions);
        assert(slaves_of(q).drop_last() =~= slaves_of(rest));
        let s = settled(rest, actions);
        match actions[q.len() - 1] {
            JobAction::Remove => {},
            JobAction::Keep => {
                assert(slaves_of(s.push(q.last())) =~= slaves_of(s).push(q.last().destination.slave));
            },
            JobAction::Reset => {
                assert(slaves_of(s.push(reset_job(q.last()))) =~= slaves_of(s).push(
                    q.last().destination.slave,
                ));
            },
        }
    }
}

proof fn lemma_settled_sized<I, T, P>(q: Seq<JobView<I, T, P>>, actions: Seq<JobAction>)
    requires
        actions.len() >= q.len(),
        forall|i: int| 0 <= i < q.len() ==> (#[trigger] q[i]).slots.len() == q[i].items.len(),
    ensures
        forall|i: int|
            0 <= i < settled(q, actions).len() ==> (#[trigger] settled(q, actions)[i]).slots.len()
                == settled(q, actions)[i].items.len(),
    decreases q.len(),
{
    if q.len() > 0 {
        let rest = q.drop_last();
        assert forall|i: int| 0 <= i < rest.len() implies (#[trigger] rest[i]).slots.len()
            == rest[i].items.len() by {
            assert(rest[i] == q[i]);
        }
        lemma_settled_sized(rest, actions);
        assert(q.last() == q[q.len() - 1]);
    }
}

/// Law: a pass keeps a queue in slave order with one slot per item, and
/// the jobs that stay are exactly those that no action removed, in order.
pub proof fn law_settle_keeps_order<I, T, P>(q: Seq<JobView<I, T, P>>, actions: Seq<JobAction>)
    requires
        queue_ready(q),
        actions.len() == q.len(),
    ensures
        queue_ready(settled(q, actions)),
        slaves_of(settled(q, actions)) == unmarked(slaves_of(q), removals(actions)),
{
    lemma_settled_slaves(q, actions);
    lemma_settled_sized(q, actions);
    law_removal_keeps_order(slaves_of(q), removals(actions));
}

/// The number of jobs among the first `n` that the actions do not remove.
pub open spec fn survivors(actions: Seq<JobAction>, n: int) -> int
    decreases n,
{
    if n <= 0 {
        0
    } else {
        survivors(actions, n - 1) + if actions[n - 1] == JobAction::Remove {
            0int
        } else {
            1int
        }
    }
}

proof fn lemma_survivors_nonnegative(actions: Seq<JobAction>, i: int)
    ensures
        0 <= survivors(actions, i),
    decreases i,
{
    if i > 0 {
        lemma_survivors_nonnegative(actions, i - 1);
    }
}

proof fn lemma_survivors_grow(actions: Seq<JobAction>, i: int, n: int)
    requires
        0 <= i < n,
        actions[i] != JobAction::Remove,
    ensures
        survivors(actions, i) < survivors(actions, n),
    decreases n - i,
{
    if n > i + 1 {
        lemma_survivors_grow(actions, i, n - 1);
    }
}

/// Law: after a pass, the `i`-th job of the queue, unless removed, is the
/// job at the position given by the jobs kept before it: unchanged when it
/// was kept, started over when it was reset; and nothing else is queued.
pub proof fn law_settled_positions<I, T, P>(q: Seq<JobView<I, T, P>>, actions: Seq<JobAction>)
    requires
        actions.len() == q.len(),
    ensures
        settled(q, actions).len() == survivors(actions, q.len() as int),
        forall|i: int|
            #![trigger q[i]]
            0 <= i < q.len() && actions[i] == JobAction::Keep ==> settled(q, actions)[survivors(
                actions,
                i,
            )] == q[i],
        forall|i: int|
            #![trigger q[i]]
            0 <= i < q.len() && actions[i] == JobAction::Reset ==> settled(q, actions)[survivors(
                actions,
                i,
            )] == reset_job(q[i]),
{
    lemma_settled_positions(q, actions);
}

proof fn lemma_settled_prefix<I, T, P>(q: Seq<JobView<I, T, P>>, actions: Seq<JobAction>, k: int)
    requires
        q.len() > 0,
        actions.len() >= q.len(),
        0 <= k < settled(q.drop_last(), actions).len(),
    ensures
        settled(q, actions)[k] == settled(q.drop_last(), actions)[k],
{
}

proof fn lemma_settled_positions<I, T, P>(q: Seq<JobView<I, T, P>>, actions: Seq<JobAction>)
    requires
        actions.len() >= q.len(),
    ensures
        settled(q, actions).len() == survivors(actions, q.len() as int),
        forall|i: int|
            #![trigger q[i]]
            0 <= i < q.len() && actions[i] == JobAction::Keep ==> settled(q, actions)[survivors(
                actions,
                i,
            )] == q[i],
        forall|i: int|
            #![trigger q[i]]
            0 <= i < q.len() && actions[i] == JobAction::Reset ==> settled(q, actions)[survivors(
                actions,
                i,
            )] == reset_job(q[i]),
    decreases q.len(),
{
    if q.len() > 0 {
        let n = q.len() - 1;
        let rest = q.drop_last();
        lemma_settled_positions(rest, actions);
        let r = settled(rest, actions);
        let s = settled(q, actions);
        assert(r.len() == survivors(actions, n));
        assert forall|i: int| #![trigger q[i]] 0 <= i < q.len() && actions[i] != JobAction::Remove implies (
        actions[i] == JobAction::Keep ==> s[survivors(actions, i)] == q[i]) && (actions[i]
            == JobAction::Reset ==> s[survivors(actions, i)] == reset_job(q[i])) by {
            if i < n {
                lemma_survivors_grow(actions, i, n);
                lemma_survivors_nonnegative(actions, i);
                assert(rest[i] == q[i]);
                lemma_settled_prefix(q, actions, survivors(actions, i));
            } else {
                assert(survivors(actions, i) == r.len());
            }
        }
    }
}

fn slave_list<I, T, P>(q: &Vec<Job<I, T, P>>) -> (r: Vec<Option<u8>>)
    ensures
        r@ == slaves_of(queue_view(q@)),
{
    let mut r: Vec<Option<u8>> = Vec::new();
    let mut i: usize = 0;
    while i < q.len()
        invariant
            i <= q@.len(),
            r@ =~= slaves_of(queue_view(q@)).take(i as int),
        decreases q@.len() - i,
    {
        r.push(q[i].destination.slave);
        i = i + 1;
    }
    r
}

fn generation_list<I, T, P>(q: &Vec<Job<I, T, P>>) -> (r: Vec<u64>)
    ensures
        r@ == generations_of(queue_view(q@)),
{
    let mut r: Vec<u64> = Vec::new();
    let mut i: usize = 0;
    while i < q.len()
        invariant
            i <= q@.len(),
            r@ =~= generations_of(queue_view(q@)).take(i as int),
        decreases q@.len() - i,
    {
        r.push(q[i].generation);
        i = i + 1;
    }
    r
}

fn insert_job<I, T, P>(q: &mut Vec<Job<I, T, P>>, job: Job<I, T, P>)
    requires
        queue_ready(queue_view(old(q)@)),
        job@.slots.len() == job@.items.len(),
    ensures
        queue_ready(queue_view(final(q)@)),
        queued(queue_view(old(q)@), queue_view(final(q)@), job@),
{
    let ghost before = queue_view(q@);
    let slaves = slave_list(q);
    let slave = job.destination.slave;
    let p = insertion_index(&slaves, slave);
    let ghost j = job@;
    q.insert(p, job);
    proof {
        law_insertion_keeps_order(slaves@, slave, p as int);
        assert(queue_view(q@) =~= before.insert(p as int, j));
        assert(slaves_of(queue_view(q@)) =~= slaves@.insert(p as int, slave));
        let after = queue_view(q@);
        assert forall|i: int| 0 <= i < after.len() implies (#[trigger] after[i]).slots.len()
            == after[i].items.len() by {
            if i < p {
                assert(after[i] == before[i]);
            } else if i > p {
                assert(after[i] == before[i - 1]);
            }
        }
    }
}

fn fill_at<I, T, P>(q: &mut Vec<Job<I, T, P>>, i: usize, slot: usize, value: T)
    requires
        queue_ready(queue_view(old(q)@)),
        i < old(q)@.len(),
        slot < old(q)@[i as int].items@.len(),
    ensures
        queue_ready(queue_view(final(q)@)),
        queue_view(final(q)@) == queue_view(old(q)@).update(
            i as int,
            with_progress(
                old(q)@[i as int]@,
                old(q)@[i as int]@.slots.update(slot as int, Some(value)),
                old(q)@[i as int].retries,
            ),
        ),
{
    let ghost before = queue_view(q@);
    assert(before[i as int] == q@[i as int]@);
    let mut job = q.remove(i);
    job.fill(slot, value);
    let ghost j = job@;
    q.insert(i, job);
    proof {
        let after = queue_view(q@);
        assert(after =~= before.update(i as int, j));
        assert(slaves_of(after) =~= slaves_of(before));
        assert forall|k: int| 0 <= k < after.len() implies (#[trigger] after[k]).slots.len()
            == after[k].items.len() by {
            if k != i {
                assert(after[k] == before[k]);
            }
        }
    }
}

fn conclude_at<I, T, P>(q: &mut Vec<Job<I, T, P>>, i: usize) -> (r: Option<Vec<T>>)
    requires
        queue_ready(queue_view(old(q)@)),
        i < old(q)@.len(),
    ensures
        queue_ready(queue_view(final(q)@)),
        all_filled(old(q)@[i as int]@.slots) <==> r is Some,
        r matches Some(values) ==> {
            &&& values@.len() == old(q)@[i as int]@.slots.len()
            &&& forall|k: int|
                0 <= k < values@.len() ==> old(q)@[i as int]@.slots[k] == Some(#[trigger] values@[k])
            &&& queue_view(final(q)@) == queue_view(old(q)@).update(
                i as int,
                with_progress(
                    old(q)@[i as int]@,
                    empty_slots_spec(old(q)@[i as int]@.slots.len()),
                    old(q)@[i as int].retries,
                ),
            )
        },
        r is None ==> queue_view(final(q)@) == queue_view(old(q)@).update(
            i as int,
            with_progress(
                old(q)@[i as int]@,
                old(q)@[i as int]@.slots,
                next_retries(old(q)@[i as int].retries),
            ),
        ),
{
    let ghost before = queue_view(q@);
    assert(before[i as int] == q@[i as int]@);
    let mut job = q.remove(i);
    let r = job.conclude();
    let ghost j = job@;
    q.insert(i, job);
    proof {
        let after = queue_view(q@);
        assert(after =~= before.update(i as int, j));
        assert(slaves_of(after) =~= slaves_of(before));
        assert forall|k: int| 0 <= k < after.len() implies (#[trigger] after[k]).slots.len()
            == after[k].items.len() by {
            if k != i {
                assert(after[k] == before[k]);
            }
        }
    }
    r
}

fn actions_for(events: &Vec<JobEvent>, stream: bool) -> (r: Vec<JobAction>)
    ensures
        r@ == (if stream {
            stream_actions(events@)
        } else {
            read_actions(events@)
        }),
{
    let mut r: Vec<JobAction> = Vec::new();
    let mut i: usize = 0;
    while i < events.len()
        invariant
            i <= events@.len(),
            r@ =~= (if stream {
                stream_actions(events@)
            } else {
                read_actions(events@)
            }).take(i as int),
        decreases events@.len() - i,
    {
        let a = if stream {
            stream_job_next(events[i])
        } else {
            read_job_next(events[i])
        };
        r.push(a);
        i = i + 1;
    }
    r
}

fn settle_queue<I, T, P>(q: Vec<Job<I, T, P>>, actions: &Vec<JobAction>) -> (r: Vec<Job<I, T, P>>)
    requires
        actions@.len() == q@.len(),
    ensures
        queue_view(r@) == settled(queue_view(q@), actions@),
{
    let ghost source = queue_view(q@);
    let ghost jobs = q@;
    let count = q.len();
    let mut rest = q;
    let mut kept: Vec<Job<I, T, P>> = Vec::new();
    let mut i: usize = 0;
    while rest.len() > 0
        invariant
            source.len() == count,
            jobs.len() == count,
            source == queue_view(jobs),
            actions@.len() == count,
            i + rest@.len() == count,
            rest@ == jobs.subrange(i as int, count as int),
            queue_view(kept@) == settled(source.take(i as int), actions@),
        decreases rest@.len(),
    {
        let mut job = rest.remove(0);
        let ghost done = kept@;
        assert(source.take(i + 1).drop_last() =~= source.take(i as int));
        assert(source.take(i + 1).last() == job@);
        match actions[i] {
            JobAction::Remove => {},
            JobAction::Keep => {
                kept.push(job);
                assert(queue_view(kept@) =~= queue_view(done).push(source[i as int]));
            },
            JobAction::Reset => {
                job.reset();
                kept.push(job);
                assert(queue_view(kept@) =~= queue_view(done).push(reset_job(source[i as int])));
            },
        }
        i = i + 1;
    }
    assert(source.take(count as int) =~= source);
    kept
}


/// A request that reaches the task: spans to read once or as a stream,
/// records to write, each with its reply channel, or the order to terminate.
#[derive(Debug)]
pub enum Request<R, W> {
    Read { destination: Destination, spans: Vec<SimpleSpan>, stream: bool, reply: R },
    Write { destination: Destination, records: Vec<SimpleRecord>, reply: W },
    Terminate,
}

/// A queued read: spans, and the registers read for each.
pub type ReadJob<R> = Job<SimpleSpan, ReadResponseEntry, R>;

/// A queued write: records, and when each was written.
pub type WriteJob<W> = Job<SimpleRecord, Timestamp, W>;

/// The queues of reads: one-off reads, or streams.
#[derive(Clone, Copy, Debug, PartialEq, Eq, Structural)]
pub enum ReadQueue {
    Reads,
    Streams,
}

/// The other queue of reads.
pub open spec fn other_queue(which: ReadQueue) -> ReadQueue {
    match which {
        ReadQueue::Reads => ReadQueue::Streams,
        ReadQueue::Streams => ReadQueue::Reads,
    }
}

/// The queues of a task, and whether it is terminating.
pub struct TaskQueues<R, W> {
    reads: Vec<ReadJob<R>>,
    streams: Vec<ReadJob<R>>,
    writes: Vec<WriteJob<W>>,
    terminating: bool,
}

impl<R, W> TaskQueues<R, W> {
    /// The one-off reads, in order.
    pub closed spec fn reads_view(&self) -> Seq<JobView<SimpleSpan, ReadResponseEntry, R>> {
        queue_view(self.reads@)
    }

    /// The streams, in order.
    pub closed spec fn streams_view(&self) -> Seq<JobView<SimpleSpan, ReadResponseEntry, R>> {
        queue_view(self.streams@)
    }

    /// The writes, in order.
    pub closed spec fn writes_view(&self) -> Seq<JobView<SimpleRecord, Timestamp, W>> {
        queue_view(self.writes@)
    }

    /// Whether the task is terminating.
    pub closed spec fn terminating_view(&self) -> bool {
        self.terminating
    }

    /// One of the queues of reads.
    pub open spec fn read_queue(&self, which: ReadQueue) -> Seq<JobView<SimpleSpan, ReadResponseEntry, R>> {
        match which {
            ReadQueue::Reads => self.reads_view(),
            ReadQueue::Streams => self.streams_view(),
        }
    }

    /// Every queue is in slave order, with one slot per item in each job.
    pub open spec fn wf(&self) -> bool {
        &&& queue_ready(self.reads_view())
        &&& queue_ready(self.streams_view())
        &&& queue_ready(self.writes_view())
    }

    /// Empty queues, not terminating.
    pub fn new() -> (t: Self)
        ensures
            t.wf(),
            t.reads_view().len() == 0,
            t.streams_view().len() == 0,
            t.writes_view().len() == 0,
            !t.terminating_view(),
    {
        let t = TaskQueues { reads: Vec::new(), streams: Vec::new(), writes: Vec::new(), terminating: false };
        assert(slaves_of(t.reads_view()) =~= Seq::empty());
        assert(slaves_of(t.streams_view()) =~= Seq::empty());
        assert(slaves_of(t.writes_view()) =~= Seq::empty());
        t
    }

    /// Whether every queue is empty.
    pub fn is_idle(&self) -> (r: bool)
        ensures
            r == (self.reads_view().len() == 0 && self.streams_view().len() == 0
                && self.writes_view().len() == 0),
    {
        self.reads.len() == 0 && self.streams.len() == 0 && self.writes.len() == 0
    }

    /// Whether the task is terminating.
    pub fn is_terminating(&self) -> (r: bool)
        ensures
            r == self.terminating_view(),
    {
        self.terminating
    }

    /// The number of jobs in a queue of reads.
    pub fn read_len(&self, which: ReadQueue) -> (n: usize)
        ensures
            n == self.read_queue(which).len(),
    {
        match which {
            ReadQueue::Reads => self.reads.len(),
            ReadQueue::Streams => self.streams.len(),
        }
    }

    /// The number of writes.
    pub fn write_len(&self) -> (n: usize)
        ensures
            n == self.writes_view().len(),
    {
        self.writes.len()
    }

    /// The `i`-th job of a queue of reads.
    pub fn read_job(&self, which: ReadQueue, i: usize) -> (j: &ReadJob<R>)
        requires
            i < self.read_queue(which).len(),
        ensures
            j@ == self.read_queue(which)[i as int],
    {
        match which {
            ReadQueue::Reads => &self.reads[i],
            ReadQueue::Streams => &self.streams[i],
        }
    }

    /// The `i`-th write.
    pub fn write_job(&self, i: usize) -> (j: &WriteJob<W>)
        requires
            i < self.writes_view().len(),
        ensures
            j@ == self.writes_view()[i as int],
    {
        &self.writes[i]
    }

    /// The generation of streams served in the next pass: none while
    /// terminating or without streams, the oldest one otherwise.
    pub fn served(&self) -> (g: Option<u64>)
        ensures
            self.terminating_view() ==> g is None,
            !self.terminating_view() ==> (g is None <==> self.streams_view().len() == 0),
            g matches Some(m) ==> generations_of(self.streams_view()).contains(m) && forall|i: int|
                0 <= i < self.streams_view().len() ==> m <= (#[trigger] self.streams_view()[i]).generation,
    {
        let generations = generation_list(&self.streams);
        let g = served_generation(self.terminating, &generations);
        proof {
            if let Some(m) = g {
                assert forall|i: int| 0 <= i < self.streams_view().len() implies m <= (
                #[trigger] self.streams_view()[i]).generation by {
                    assert(generations@[i] == self.streams_view()[i].generation);
                }
            }
        }
        g
    }

    /// Takes in a request. A terminate order makes the task terminate and
    /// drops its streams. While terminating, other requests are ignored.
    /// Otherwise a read, stream or write is queued in slave order, with no
    /// slot read and no retry; reads and streams start in the newest
    /// generation among the streams (zero without streams), writes in
    /// generation zero.
    pub fn receive(&mut self, request: Request<R, W>)
        requires
            old(self).wf(),
        ensures
            final(self).wf(),
            final(self).terminating_view() == (old(self).terminating_view() || request is Terminate),
            request is Terminate ==> {
                &&& final(self).streams_view().len() == 0
                &&& final(self).reads_view() == old(self).reads_view()
                &&& final(self).writes_view() == old(self).writes_view()
            },
            old(self).terminating_view() && !(request is Terminate) ==> {
                &&& final(self).reads_view() == old(self).reads_view()
                &&& final(self).streams_view() == old(self).streams_view()
                &&& final(self).writes_view() == old(self).writes_view()
            },
            !old(self).terminating_view() ==> match request {
                Request::Read { destination, spans, stream, reply } => {
                    let job = fresh_job(
                        destination@,
                        spans@,
                        max_generation_spec(generations_of(old(self).streams_view())),
                        reply,
                    );
                    &&& stream ==> queued(old(self).streams_view(), final(self).streams_view(), job)
                        && final(self).reads_view() == old(self).reads_view()
                    &&& !stream ==> queued(old(self).reads_view(), final(self).reads_view(), job)
                        && final(self).streams_view() == old(self).streams_view()
                    &&& final(self).writes_view() == old(self).writes_view()
                },
                Request::Write { destination, records, reply } => {
                    &&& queued(
                        old(self).writes_view(),
                        final(self).writes_view(),
                        fresh_job(destination@, records@, 0, reply),
                    )
                    &&& final(self).reads_view() == old(self).reads_view()
                    &&& final(self).streams_view() == old(self).streams_view()
                },
                Request::Terminate => true,
            },
    {
        let incoming = match &request {
            Request::Read { stream, .. } => if *stream {
                Incoming::Stream
            } else {
                Incoming::Read
            },
            Request::Write { .. } => Incoming::Write,
            Request::Terminate => Incoming::Terminate,
        };
        let admission = accept_request(self.terminating, incoming);
        self.terminating = admission.terminating;
        if admission.drop_streams {
            self.streams = Vec::new();
            assert(slaves_of(self.streams_view()) =~= Seq::empty());
        }
        if !admission.queue {
            return;
        }
        match request {
            Request::Read { destination, spans, stream, reply } => {
                let generations = generation_list(&self.streams);
                let generation = max_generation(&generations);
                let job = Job::new(destination, spans, generation, reply);
                if stream {
                    insert_job(&mut self.streams, job);
                } else {
                    insert_job(&mut self.reads, job);
                }
            },
            Request::Write { destination, records, reply } => {
                let job = Job::new(destination, records, 0, reply);
                insert_job(&mut self.writes, job);
            },
            Request::Terminate => {},
        }
    }

    /// Records the registers read for span `slot` of the `i`-th job of a
    /// queue of reads.
    pub fn fill_read(&mut self, which: ReadQueue, i: usize, slot: usize, value: ReadResponseEntry)
        requires
            old(self).wf(),
            i < old(self).read_queue(which).len(),
            slot < old(self).read_queue(which)[i as int].items.len(),
        ensures
            final(self).wf(),
            final(self).read_queue(which) == old(self).read_queue(which).update(
                i as int,
                with_progress(
                    old(self).read_queue(which)[i as int],
                    old(self).read_queue(which)[i as int].slots.update(slot as int, Some(value)),
                    old(self).read_queue(which)[i as int].retries,
                ),
            ),
            final(self).read_queue(other_queue(which)) == old(self).read_queue(other_queue(which)),
            final(self).writes_view() == old(self).writes_view(),
            final(self).terminating_view() == old(self).terminating_view(),
    {
        match which {
            ReadQueue::Reads => fill_at(&mut self.reads, i, slot, value),
            ReadQueue::Streams => fill_at(&mut self.streams, i, slot, value),
        }
    }

    /// Concludes a pass over the `i`-th job of a queue of reads (see
    /// [`Job::conclude`]).
    pub fn conclude_read(&mut self, which: ReadQueue, i: usize) -> (r: Option<Vec<ReadResponseEntry>>)
        requires
            old(self).wf(),
            i < old(self).read_queue(which).len(),
        ensures
            final(self).wf(),
            all_filled(old(self).read_queue(which)[i as int].slots) <==> r is Some,
            r matches Some(values) ==> {
                &&& values@.len() == old(self).read_queue(which)[i as int].slots.len()
                &&& forall|k: int|
                    0 <= k < values@.len() ==> old(self).read_queue(which)[i as int].slots[k] == Some(
                        #[trigger] values@[k],
                    )
                &&& final(self).read_queue(which) == old(self).read_queue(which).update(
                    i as int,
                    with_progress(
                        old(self).read_queue(which)[i as int],
                        empty_slots_spec(old(self).read_queue(which)[i as int].slots.len()),
                        old(self).read_queue(which)[i as int].retries,
                    ),
                )
            },
            r is None ==> final(self).read_queue(which) == old(self).read_queue(which).update(
                i as int,
                with_progress(
                    old(self).read_queue(which)[i as int],
                    old(self).read_queue(which)[i as int].slots,
                    next_retries(old(self).read_queue(which)[i as int].retries),
                ),
            ),
            final(self).read_queue(other_queue(which)) == old(self).read_queue(other_queue(which)),
            final(self).writes_view() == old(self).writes_view(),
            final(self).terminating_view() == old(self).terminating_view(),
    {
        match which {
            ReadQueue::Reads => conclude_at(&mut self.reads, i),
            ReadQueue::Streams => conclude_at(&mut self.streams, i),
        }
    }

    /// Records when record `slot` of the `i`-th write was written.
    pub fn fill_write(&mut self, i: usize, slot: usize, value: Timestamp)
        requires
            old(self).wf(),
            i < old(self).writes_view().len(),
            slot < old(self).writes_view()[i as int].items.len(),
        ensures
            final(self).wf(),
            final(self).writes_view() == old(self).writes_view().update(
                i as int,
                with_progress(
                    old(self).writes_view()[i as int],
                    old(self).writes_view()[i as int].slots.update(slot as int, Some(value)),
                    old(self).writes_view()[i as int].retries,
                ),
            ),
            final(self).reads_view() == old(self).reads_view(),
            final(self).streams_view() == old(self).streams_view(),
            final(self).terminating_view() == old(self).terminating_view(),
    {
        fill_at(&mut self.writes, i, slot, value)
    }

    /// Concludes a pass over the `i`-th write (see [`Job::conclude`]).
    pub fn conclude_write(&mut self, i: usize) -> (r: Option<Vec<Timestamp>>)
        requires
            old(self).wf(),
            i < old(self).writes_view().len(),
        ensures
            final(self).wf(),
            all_filled(old(self).writes_view()[i as int].slots) <==> r is Some,
            r matches Some(values) ==> {
                &&& values@.len() == old(self).writes_view()[i as int].slots.len()
                &&& forall|k: int|
                    0 <= k < values@.len() ==> old(self).writes_view()[i as int].slots[k] == Some(
                        #[trigger] values@[k],
                    )
                &&& final(self).writes_view() == old(self).writes_view().update(
                    i as int,
                    with_progress(
                        old(self).writes_view()[i as int],
                        empty_slots_spec(old(self).writes_view()[i as int].slots.len()),
                        old(self).writes_view()[i as int].retries,
                    ),
                )
            },
            r is None ==> final(self).writes_view() == old(self).writes_view().update(
                i as int,
                with_progress(
                    old(self).writes_view()[i as int],
                    old(self).writes_view()[i as int].slots,
                    next_retries(old(self).writes_view()[i as int].retries),
                ),
            ),
            final(self).reads_view() == old(self).reads_view(),
            final(self).streams_view() == old(self).streams_view(),
            final(self).terminating_view() == old(self).terminating_view(),
    {
        conclude_at(&mut self.writes, i)
    }

    /// Ends a pass over the one-off reads, given what happened to each:
    /// those answered, unreachable or no longer listened to leave the queue,
    /// the others stay as they are, in order.
    pub fn settle_reads(&mut self, events: &Vec<JobEvent>)
        requires
            old(self).wf(),
            events@.len() == old(self).reads_view().len(),
        ensures
            final(self).wf(),
            final(self).reads_view() == settled(old(self).reads_view(), read_actions(events@)),
            final(self).streams_view() == old(self).streams_view(),
            final(self).writes_view() == old(self).writes_view(),
            final(self).terminating_view() == old(self).terminating_view(),
    {
        let actions = actions_for(events, false);
        let mut q: Vec<ReadJob<R>> = Vec::new();
        std::mem::swap(&mut q, &mut self.reads);
        self.reads = settle_queue(q, &actions);
        proof {
            law_settle_keeps_order(old(self).reads_view(), actions@);
        }
    }

    /// Ends a pass over the streams, given what happened to each: those
    /// whose response was delivered or that ran out of retries start over
    /// in the next generation; those unreachable, no longer listened to, or
    /// whose response could not be delivered leave the queue; the others
    /// stay as they are, in order.
    pub fn settle_streams(&mut self, events: &Vec<JobEvent>)
        requires
            old(self).wf(),
            events@.len() == old(self).streams_view().len(),
        ensures
            final(self).wf(),
            final(self).streams_view() == settled(old(self).streams_view(), stream_actions(events@)),
            final(self).reads_view() == old(self).reads_view(),
            final(self).writes_view() == old(self).writes_view(),
            final(self).terminating_view() == old(self).terminating_view(),
    {
        let actions = actions_for(events, true);
        let mut q: Vec<ReadJob<R>> = Vec::new();
        std::mem::swap(&mut q, &mut self.streams);
        self.streams = settle_queue(q, &actions);
        proof {
            law_settle_keeps_order(old(self).streams_view(), actions@);
        }
    }

    /// Ends a pass over the writes, as [`TaskQueues::settle_reads`] does for
    /// reads.
    pub fn settle_writes(&mut self, events: &Vec<JobEvent>)
        requires
            old(self).wf(),
            events@.len() == old(self).writes_view().len(),
        ensures
            final(self).wf(),
            final(self).writes_view() == settled(old(self).writes_view(), read_actions(events@)),
            final(self).reads_view() == old(self).reads_view(),
            final(self).streams_view() == old(self).streams_view(),
            final(self).terminating_view() == old(self).terminating_view(),
    {
        let actions = actions_for(events, false);
        let mut q: Vec<WriteJob<W>> = Vec::new();
        std::mem::swap(&mut q, &mut self.writes);
        self.writes = settle_queue(q, &actions);
        proof {
            law_settle_keeps_order(old(self).writes_view(), actions@);
        }
    }
}

} // verus!
