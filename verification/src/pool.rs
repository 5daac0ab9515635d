//! How many downloads run at once.
//!
//! The download list is worked off in order. A download is started only
//! while fewer than the limit are under way, so that at no time more than
//! the limit are. Each entry of the list is started once.
//!
//! A name that the list holds twice is therefore started twice. The two
//! downloads share their temporary file and their final name and may run at
//! the same time; nothing here keeps them from writing over each other. A
//! caller that wants none of this hands over a list without repetitions.

use crate::text::texts;
use vstd::prelude::*;

verus! {

/// How many downloads may be under way at once, unless the caller says otherwise.
pub const MAX_IN_FLIGHT: usize = 8;

/// The state of a pool, as numbers.
pub struct PoolView {
    /// The download list.
    pub queue: Seq<Seq<char>>,
    /// How many entries of the list have been started: the first so many.
    pub started: nat,
    /// How many of the downloads that were started have not yet ended.
    pub in_flight: nat,
    /// How many downloads may be under way at once.
    pub limit: nat,
}

/// What can happen to a pool.
#[derive(Clone, Copy, Debug, PartialEq, Eq, Structural)]
pub enum PoolEvent {
    /// The caller asks for the next download to start.
    Start,
    /// A download has ended, in whatever way.
    End,
}

impl PoolView {
    /// The pool as it starts: nothing started, nothing under way.
    pub open spec fn fresh(queue: Seq<Seq<char>>, limit: nat) -> PoolView {
        PoolView { queue, started: 0, in_flight: 0, limit }
    }

    /// What holds of every pool: no more downloads are under way than the
    /// limit allows, nor more than were started, and no more were started
    /// than the list holds.
    pub open spec fn wf(self) -> bool {
        &&& self.in_flight <= self.limit
        &&& self.in_flight <= self.started
        &&& self.started <= self.queue.len()
    }

    /// Whether the next download may start: there is one left, and fewer
    /// than the limit are under way.
    pub open spec fn may_start(self) -> bool {
        self.started < self.queue.len() && self.in_flight < self.limit
    }

    /// The pool after the next download has started.
    pub open spec fn after_start(self) -> PoolView {
        PoolView { started: self.started + 1, in_flight: self.in_flight + 1, ..self }
    }

    /// The pool after one download has ended.
    pub open spec fn after_end(self) -> PoolView {
        PoolView { in_flight: (self.in_flight - 1) as nat, ..self }
    }

    /// Whether every download of the list has been started and has ended.
    pub open spec fn finished(self) -> bool {
        self.started == self.queue.len() && self.in_flight == 0
    }

    /// The pool after `event`. A request to start that cannot be granted, and
    /// an end that no download under way accounts for, change nothing.
    pub open spec fn step(self, event: PoolEvent) -> PoolView {
        match event {
            PoolEvent::Start => if self.may_start() {
                self.after_start()
            } else {
                self
            },
            PoolEvent::End => if self.in_flight > 0 {
                self.after_end()
            } else {
                self
            },
        }
    }

    /// The pool after `events`, one after the other.
    pub open spec fn run(self, events: Seq<PoolEvent>) -> PoolView
        decreases events.len(),
    {
        if events.len() == 0 {
            self
        } else {
            self.run(events.drop_last()).step(events.last())
        }
    }

    /// The names of the downloads that are started while `events` happen, in
    /// the order in which they are started.
    pub open spec fn handed_out(self, events: Seq<PoolEvent>) -> Seq<Seq<char>>
        decreases events.len(),
    {
        if events.len() == 0 {
            Seq::empty()
        } else {
            let before = self.run(events.drop_last());
            let earlier = self.handed_out(events.drop_last());
            if events.last() == PoolEvent::Start && before.may_start() {
                earlier.push(before.queue[before.started as int])
            } else {
                earlier
            }
        }
    }
}

/// Whatever happens, and in whatever order, a pool never has more
/// downloads under way than its limit allows.
pub proof fn lemma_never_over_limit(queue: Seq<Seq<char>>, limit: nat, events: Seq<PoolEvent>)
    ensures
        PoolView::fresh(queue, limit).run(events).in_flight <= limit,
{
    lemma_run_keeps_pool(PoolView::fresh(queue, limit), events);
}

/// Every event leaves a pool well formed, with its list and its limit as they were.
pub proof fn lemma_run_keeps_pool(start: PoolView, events: Seq<PoolEvent>)
    requires
        start.wf(),
    ensures
        start.run(events).wf(),
        start.run(events).queue == start.queue,
        start.run(events).limit == start.limit,
        start.run(events).started >= start.started,
    decreases events.len(),
{
    if events.len() > 0 {
        lemma_run_keeps_pool(start, events.drop_last());
    }
}

/// Nothing is tried twice and nothing is left out: the downloads that a pool
/// has started are the first entries of its list, each once and in the order
/// of the list; and a pool that is finished has started them all.
pub proof fn lemma_each_entry_started_once(
    queue: Seq<Seq<char>>,
    limit: nat,
    events: Seq<PoolEvent>,
)
    ensures
        PoolView::fresh(queue, limit).handed_out(events) == queue.take(
            PoolView::fresh(queue, limit).run(events).started as int,
        ),
        PoolView::fresh(queue, limit).run(events).finished() ==> PoolView::fresh(
            queue,
            limit,
        ).handed_out(events) == queue,
    decreases events.len(),
{
    let fresh = PoolView::fresh(queue, limit);
    lemma_run_keeps_pool(fresh, events);
    if events.len() == 0 {
        assert(queue.take(0) =~= Seq::<Seq<char>>::empty());
    } else {
        let front = events.drop_last();
        lemma_each_entry_started_once(queue, limit, front);
        lemma_run_keeps_pool(fresh, front);
        let before = fresh.run(front);
        if events.last() == PoolEvent::Start && before.may_start() {
            assert(queue.take(before.started as int + 1) =~= queue.take(
                before.started as int,
            ).push(queue[before.started as int]));
        }
    }
    if fresh.run(events).finished() {
        assert(queue.take(queue.len() as int) =~= queue);
    }
}

/// A pool with a limit of at least one never comes to a halt before its
/// work is done: as long as it is not finished, a download is under way or
/// the next one may start.
pub proof fn lemma_pool_goes_on(pool: PoolView)
    requires
        pool.wf(),
        pool.limit >= 1,
        !pool.finished(),
    ensures
        pool.in_flight > 0 || pool.may_start(),
{
}

/// The downloads of one run: the list, and how far it has been worked off.
#[derive(Debug)]
pub struct Pool {
    queue: Vec<String>,
    started: usize,
    in_flight: usize,
    limit: usize,
}

impl View for Pool {
    type V = PoolView;

    closed spec fn view(&self) -> PoolView {
        PoolView {
            queue: texts(self.queue@),
            started: self.started as nat,
            in_flight: self.in_flight as nat,
            limit: self.limit as nat,
        }
    }
}

impl Pool {
    /// No more downloads are under way than the limit allows.
    #[verifier::type_invariant]
    spec fn within_limit(&self) -> bool {
        self@.wf()
    }

    /// A pool for the download list `queue`, with at most `limit` downloads at once.
    pub fn new(queue: Vec<String>, limit: usize) -> (pool: Pool)
        ensures
            pool@ == PoolView::fresh(texts(queue@), limit as nat),
            pool@.wf(),
    {
        Pool { queue, started: 0, in_flight: 0, limit }
    }

    /// Starts the next download of the list, if one is left and fewer than
    /// the limit are under way, and hands out its name.
    pub fn start_next(&mut self) -> (name: Option<String>)
        ensures
            final(self)@.wf(),
            final(self)@ == old(self)@.step(PoolEvent::Start),
            match name {
                Some(name) => old(self)@.may_start() && name@ == old(self)@.queue[old(
                    self,
                )@.started as int],
                None => !old(self)@.may_start(),
            },
    {
        proof {
            use_type_invariant(&*self);
        }
        if self.started < self.queue.len() && self.in_flight < self.limit {
            let name = self.queue[self.started].clone();
            self.started = self.started + 1;
            self.in_flight = self.in_flight + 1;
            Some(name)
        } else {
            None
        }
    }

    /// Takes note that a download has ended, with the file in place or not.
    /// Says whether a download was under way at all; if none was, nothing changes.
    pub fn end_one(&mut self) -> (was_under_way: bool)
        ensures
            final(self)@.wf(),
            final(self)@ == old(self)@.step(PoolEvent::End),
            was_under_way == (old(self)@.in_flight > 0),
    {
        proof {
            use_type_invariant(&*self);
        }
        if self.in_flight > 0 {
            self.in_flight = self.in_flight - 1;
            true
        } else {
            false
        }
    }

    /// How many downloads are under way.
    pub fn in_flight(&self) -> (count: usize)
        ensures
            count == self@.in_flight,
            count <= self@.limit,
            self@.wf(),
    {
        proof {
            use_type_invariant(self);
        }
        self.in_flight
    }

    /// How many downloads have been started so far.
    pub fn started(&self) -> (count: usize)
        ensures
            count == self@.started,
    {
        self.started
    }

    /// How many downloads may be under way at once.
    pub fn limit(&self) -> (limit: usize)
        ensures
            limit == self@.limit,
    {
        self.limit
    }

    /// Whether every download of the list has been started and has ended.
    pub fn is_finished(&self) -> (finished: bool)
        ensures
            finished == self@.finished(),
    {
        self.started == self.queue.len() && self.in_flight == 0
    }
}

} // verus!
