//! One download: from the request to the file in its place.
//!
//! A download is a chain of operations on the network and on the disk. The
//! caller performs them; the task decides which one comes next. The body is
//! written to a temporary file beside the destination, and only a body that
//! has arrived whole, and has been written and flushed whole, is renamed to
//! the final name. Whatever goes wrong ends the task; nothing is tried twice.

use crate::endpoint::{download_url, is_success, is_success_status, url_of};
use crate::names::{check_file_name, is_file_name, temp_name, temp_name_of};
use vstd::prelude::*;

verus! {

/// Why a download was given up.
#[derive(Clone, Copy, Debug, PartialEq, Eq, Structural)]
pub enum DownloadError {
    /// The transfer failed, or the service answered with a status other than success.
    Network,
    /// Creating, writing, flushing or renaming the file failed.
    Io,
    /// The name cannot be the name of a file in the destination directory.
    Encoding,
}

/// An operation that a download asks its caller to perform.
#[derive(Clone, Copy, Debug, PartialEq, Eq, Structural)]
pub enum Step {
    /// Send the request for the file and wait for the head of the response.
    Request,
    /// Create the temporary file, empty.
    CreateTemp,
    /// Wait for the next piece of the response body.
    ReadChunk,
    /// Append the piece just received to the temporary file.
    WriteChunk,
    /// Flush the temporary file and close it.
    Flush,
    /// Rename the temporary file to the final name.
    Rename,
}

/// Where a download stands.
#[derive(Clone, Copy, Debug, PartialEq, Eq, Structural)]
pub enum Phase {
    /// The operation is under way; its outcome is awaited.
    Waiting(Step),
    /// The file is in place.
    Done,
    /// The download was given up.
    Failed(DownloadError),
}

/// What the caller reports back.
#[derive(Clone, Copy, Debug, PartialEq, Eq, Structural)]
pub enum Event {
    /// The head of the response arrived, with this status.
    Replied(u16),
    /// A piece of the body arrived.
    Chunk,
    /// The body has ended.
    EndOfBody,
    /// The operation on the disk succeeded.
    Stored,
    /// The transfer broke off.
    NetworkFailed,
    /// The operation on the disk failed.
    DiskFailed,
}

/// Whether a phase is final: the download is done or given up.
pub open spec fn is_settled(phase: Phase) -> bool {
    !(phase is Waiting)
}

/// The failure that an event stands for when it ends a download: events
/// that come from the network count as network failures, events that come
/// from the disk as failures of the disk.
pub open spec fn fault_of(event: Event) -> DownloadError {
    match event {
        Event::Stored | Event::DiskFailed => DownloadError::Io,
        _ => DownloadError::Network,
    }
}

/// The phase that follows `phase` when `event` is reported.
///
/// A settled download stays as it is. A download that waits for an operation
/// goes on to the next one when the operation's success is reported; any
/// other report, a failure or an answer to something that was not asked,
/// ends it.
pub open spec fn advance(phase: Phase, event: Event) -> Phase {
    match phase {
        Phase::Waiting(step) => match (step, event) {
            (Step::Request, Event::Replied(status)) => if is_success_status(status) {
                Phase::Waiting(Step::CreateTemp)
            } else {
                Phase::Failed(DownloadError::Network)
            },
            (Step::CreateTemp, Event::Stored) => Phase::Waiting(Step::ReadChunk),
            (Step::ReadChunk, Event::Chunk) => Phase::Waiting(Step::WriteChunk),
            (Step::ReadChunk, Event::EndOfBody) => Phase::Waiting(Step::Flush),
            (Step::WriteChunk, Event::Stored) => Phase::Waiting(Step::ReadChunk),
            (Step::Flush, Event::Stored) => Phase::Waiting(Step::Rename),
            (Step::Rename, Event::Stored) => Phase::Done,
            _ => Phase::Failed(fault_of(event)),
        },
        _ => phase,
    }
}

/// The phase reached from `start` when `events` are reported one after the other.
pub open spec fn run(start: Phase, events: Seq<Event>) -> Phase
    decreases events.len(),
{
    if events.len() == 0 {
        start
    } else {
        advance(run(start, events.drop_last()), events.last())
    }
}

/// The phase in which the download of `name` starts: with the request, or
/// given up at once where `name` cannot name a file.
pub open spec fn first_phase(name: Seq<char>) -> Phase {
    if is_file_name(name) {
        Phase::Waiting(Step::Request)
    } else {
        Phase::Failed(DownloadError::Encoding)
    }
}

/// The phase that follows `phase` when `event` is reported.
pub fn next_phase(phase: Phase, event: Event) -> (next: Phase)
    ensures
        next == advance(phase, event),
{
    match phase {
        Phase::Waiting(step) => match (step, event) {
            (Step::Request, Event::Replied(status)) => if is_success(status) {
                Phase::Waiting(Step::CreateTemp)
            } else {
                Phase::Failed(DownloadError::Network)
            },
            (Step::CreateTemp, Event::Stored) => Phase::Waiting(Step::ReadChunk),
            (Step::ReadChunk, Event::Chunk) => Phase::Waiting(Step::WriteChunk),
            (Step::ReadChunk, Event::EndOfBody) => Phase::Waiting(Step::Flush),
            (Step::WriteChunk, Event::Stored) => Phase::Waiting(Step::ReadChunk),
            (Step::Flush, Event::Stored) => Phase::Waiting(Step::Rename),
            (Step::Rename, Event::Stored) => Phase::Done,
            (_, Event::Stored) => Phase::Failed(DownloadError::Io),
            (_, Event::DiskFailed) => Phase::Failed(DownloadError::Io),
            _ => Phase::Failed(DownloadError::Network),
        },
        Phase::Done => Phase::Done,
        Phase::Failed(error) => Phase::Failed(error),
    }
}

/// Where a task stands, and what has led it there.
struct Standing {
    phase: Phase,
    reports: Ghost<Seq<Event>>,
}

/// The download of one file.
pub struct DownloadTask {
    name: String,
    standing: Standing,
}

impl DownloadTask {
    /// The name of the file that the task downloads.
    pub closed spec fn name(&self) -> Seq<char> {
        self.name@
    }

    /// Where the task stands.
    pub closed spec fn phase(&self) -> Phase {
        self.standing.phase
    }

    /// What has been reported to the task so far, in order.
    pub closed spec fn reports(&self) -> Seq<Event> {
        self.standing.reports@
    }

    /// Whether the task stands where its reports have led it. This holds
    /// of every task that there is.
    pub open spec fn wf(&self) -> bool {
        self.phase() == run(first_phase(self.name()), self.reports())
    }

    /// Every task stands where its reports have led it.
    #[verifier::type_invariant]
    spec fn stands_where_led(&self) -> bool {
        self.wf()
    }

    /// The task that downloads `name`. A name that cannot name a file ends
    /// the task before anything is requested.
    pub fn new(name: String) -> (task: DownloadTask)
        ensures
            task.name() == name@,
            task.phase() == first_phase(name@),
            task.reports() == Seq::<Event>::empty(),
    {
        let phase = if check_file_name(name.as_str()) {
            Phase::Waiting(Step::Request)
        } else {
            Phase::Failed(DownloadError::Encoding)
        };
        DownloadTask { name, standing: Standing { phase, reports: Ghost(Seq::empty()) } }
    }

    /// The name of the file, which is also its final name in the destination directory.
    pub fn file_name(&self) -> (name: &str)
        ensures
            name@ == self.name(),
    {
        self.name.as_str()
    }

    /// The name of the temporary file, in the destination directory.
    pub fn temp_file_name(&self) -> (temp: String)
        ensures
            temp@ == temp_name_of(self.name()),
    {
        temp_name(self.name.as_str())
    }

    /// The address that the file is requested from.
    pub fn url(&self) -> (url: String)
        ensures
            url@ == url_of(self.name()),
    {
        download_url(self.name.as_str())
    }

    /// Where the task stands.
    pub fn current_phase(&self) -> (phase: Phase)
        ensures
            phase == self.phase(),
            self.wf(),
    {
        proof {
            use_type_invariant(self);
        }
        self.standing.phase
    }

    /// The operation whose outcome the task waits for, if it is not settled.
    ///
    /// The task asks for the rename only when everything that was reported
    /// to it makes up a download in which nothing went wrong: the whole body
    /// has arrived, and has been written and flushed.
    pub fn pending(&self) -> (step: Option<Step>)
        ensures
            step == (match self.phase() {
                Phase::Waiting(step) => Some(step),
                _ => None::<Step>,
            }),
            self.wf(),
            step == Some(Step::Rename) <==> is_file_name(self.name()) && is_whole_transfer(
                self.reports(),
            ),
    {
        proof {
            use_type_invariant(self);
            if is_file_name(self.name()) {
                lemma_rename_after_whole_body(self.reports());
            } else {
                lemma_only_file_names_are_downloaded(self.name(), self.reports());
            }
        }
        match self.standing.phase {
            Phase::Waiting(step) => Some(step),
            _ => None,
        }
    }

    /// How the task ended, if it has: with the file in place, or with the
    /// reason for which it was given up.
    pub fn outcome(&self) -> (outcome: Option<Result<(), DownloadError>>)
        ensures
            outcome == (match self.phase() {
                Phase::Waiting(_) => None::<Result<(), DownloadError>>,
                Phase::Done => Some(Ok::<(), DownloadError>(())),
                Phase::Failed(error) => Some(Err::<(), DownloadError>(error)),
            }),
            self.wf(),
    {
        proof {
            use_type_invariant(self);
        }
        match self.standing.phase {
            Phase::Waiting(_) => None,
            Phase::Done => Some(Ok(())),
            Phase::Failed(error) => Some(Err(error)),
        }
    }

    /// Takes note of what the caller reports and moves on.
    pub fn handle(&mut self, event: Event)
        ensures
            final(self).name() == old(self).name(),
            final(self).phase() == advance(old(self).phase(), event),
            final(self).reports() == old(self).reports().push(event),
    {
        proof {
            use_type_invariant(&*self);
            assert(self.standing.reports@.push(event).drop_last() =~= self.standing.reports@);
        }
        self.standing = Standing {
            phase: next_phase(self.standing.phase, event),
            reports: Ghost(self.standing.reports@.push(event)),
        };
    }
}

/// A report that something went wrong: the transfer broke off, the disk
/// refused, or the service answered with a status other than success.
pub open spec fn is_failure(event: Event) -> bool {
    match event {
        Event::NetworkFailed | Event::DiskFailed => true,
        Event::Replied(status) => !is_success_status(status),
        _ => false,
    }
}

/// How far a download has come. No report ever takes a download back.
pub open spec fn progress(phase: Phase) -> nat {
    match phase {
        Phase::Waiting(Step::Request) => 0,
        Phase::Waiting(Step::CreateTemp) => 1,
        Phase::Waiting(Step::ReadChunk) => 2,
        Phase::Waiting(Step::WriteChunk) => 2,
        Phase::Waiting(Step::Flush) => 3,
        Phase::Waiting(Step::Rename) => 4,
        Phase::Done => 5,
        Phase::Failed(_) => 6,
    }
}

/// Whether the download asked for the rename at some point while `events` were reported.
pub open spec fn asked_for_rename(start: Phase, events: Seq<Event>) -> bool {
    exists|n: int|
        0 <= n <= events.len() && #[trigger] run(start, events.take(n)) == Phase::Waiting(
            Step::Rename,
        )
}

/// One more report takes the run one phase further.
pub proof fn lemma_run_take_next(start: Phase, events: Seq<Event>, n: int)
    requires
        0 <= n < events.len(),
    ensures
        run(start, events.take(n + 1)) == advance(run(start, events.take(n)), events[n]),
{
    assert(events.take(n + 1).drop_last() =~= events.take(n));
}

/// Nothing is tried twice: a download that is done or given up stays so,
/// whatever is reported afterwards.
pub proof fn lemma_settled_stays(start: Phase, events: Seq<Event>)
    requires
        is_settled(start),
    ensures
        run(start, events) == start,
    decreases events.len(),
{
    if events.len() > 0 {
        lemma_settled_stays(start, events.drop_last());
    }
}

/// A download only moves forward.
pub proof fn lemma_progress_grows(start: Phase, events: Seq<Event>, n: int, m: int)
    requires
        0 <= n <= m <= events.len(),
    ensures
        progress(run(start, events.take(n))) <= progress(run(start, events.take(m))),
    decreases m - n,
{
    if n < m {
        lemma_progress_grows(start, events, n, m - 1);
        lemma_run_take_next(start, events, m - 1);
    }
}

/// A download that has been given up after `k` reports is given up after any more.
pub proof fn lemma_failed_stays(start: Phase, events: Seq<Event>, k: int, n: int)
    requires
        0 <= k <= n <= events.len(),
        run(start, events.take(k)) is Failed,
    ensures
        run(start, events.take(n)) == run(start, events.take(k)),
    decreases n - k,
{
    if k < n {
        lemma_failed_stays(start, events, k, n - 1);
        lemma_run_take_next(start, events, n - 1);
    }
}

/// What is reported in the course of a download in which nothing goes
/// wrong, up to the flush: the service answers with success and the temporary
/// file is created; then each piece of the body arrives and is written before
/// the next one is waited for; then the body ends and the file is flushed.
pub open spec fn is_whole_transfer(events: Seq<Event>) -> bool {
    let n = events.len() as int;
    &&& n >= 4
    &&& n % 2 == 0
    &&& events[0] matches Event::Replied(status) && is_success_status(status)
    &&& events[1] == Event::Stored
    &&& forall|i: int| 2 <= i < n - 2 ==> #[trigger] events[i] == body_report(i)
    &&& events[n - 2] == Event::EndOfBody
    &&& events[n - 1] == Event::Stored
}

/// The report at place `i` while the body is transferred: a piece arrives
/// at the even places, and is written at the odd ones.
pub open spec fn body_report(i: int) -> Event {
    if i % 2 == 0 {
        Event::Chunk
    } else {
        Event::Stored
    }
}

/// The phase in which a download stands after the first `k` of the `n`
/// reports of a download in which nothing goes wrong.
spec fn phase_on_the_way(k: int, n: int) -> Phase {
    if k == 0 {
        Phase::Waiting(Step::Request)
    } else if k == 1 {
        Phase::Waiting(Step::CreateTemp)
    } else if k == n {
        Phase::Waiting(Step::Rename)
    } else if k == n - 1 {
        Phase::Waiting(Step::Flush)
    } else if k % 2 == 0 {
        Phase::Waiting(Step::ReadChunk)
    } else {
        Phase::Waiting(Step::WriteChunk)
    }
}

/// What has been reported to a download that is still under way.
spec fn is_on_the_way(events: Seq<Event>, phase: Phase) -> bool {
    let n = events.len() as int;
    let head = n >= 2 && (events[0] matches Event::Replied(status) && is_success_status(status))
        && events[1] == Event::Stored;
    match phase {
        Phase::Waiting(Step::Request) => n == 0,
        Phase::Waiting(Step::CreateTemp) => n == 1 && (events[0] matches Event::Replied(status)
            && is_success_status(status)),
        Phase::Waiting(Step::ReadChunk) => head && n % 2 == 0 && forall|i: int|
            2 <= i < n ==> #[trigger] events[i] == body_report(i),
        Phase::Waiting(Step::WriteChunk) => head && n % 2 == 1 && forall|i: int|
            2 <= i < n ==> #[trigger] events[i] == body_report(i),
        Phase::Waiting(Step::Flush) => head && n % 2 == 1 && events[n - 1] == Event::EndOfBody && forall|
            i: int,
        | 2 <= i < n - 1 ==> #[trigger] events[i] == body_report(i),
        Phase::Waiting(Step::Rename) => is_whole_transfer(events),
        _ => true,
    }
}

/// A download that is under way has been told exactly what leads to where it stands.
proof fn lemma_live_run_is_on_the_way(events: Seq<Event>)
    ensures
        is_on_the_way(events, run(Phase::Waiting(Step::Request), events)),
    decreases events.len(),
{
    if events.len() > 0 {
        let front = events.drop_last();
        lemma_live_run_is_on_the_way(front);
        assert forall|i: int| 0 <= i < front.len() implies front[i] == events[i] by {}
    }
}

/// A download in which nothing goes wrong passes through its phases in order.
proof fn lemma_whole_transfer_on_the_way(events: Seq<Event>, k: int)
    requires
        is_whole_transfer(events),
        0 <= k <= events.len(),
    ensures
        run(Phase::Waiting(Step::Request), events.take(k)) == phase_on_the_way(
            k,
            events.len() as int,
        ),
    decreases k,
{
    if k > 0 {
        lemma_whole_transfer_on_the_way(events, k - 1);
        lemma_run_take_next(Phase::Waiting(Step::Request), events, k - 1);
        if 2 <= k - 1 < events.len() - 2 {
            assert(events[k - 1] == body_report(k - 1));
        }
    }
}

/// The rename is asked for exactly when the whole body has arrived and has
/// been written and flushed: what was reported up to then is a download in
/// which nothing went wrong, and nothing else leads to the rename.
pub proof fn lemma_rename_after_whole_body(events: Seq<Event>)
    ensures
        run(Phase::Waiting(Step::Request), events) == Phase::Waiting(Step::Rename)
            <==> is_whole_transfer(events),
{
    lemma_live_run_is_on_the_way(events);
    if is_whole_transfer(events) {
        lemma_whole_transfer_on_the_way(events, events.len() as int);
        assert(events.take(events.len() as int) =~= events);
    }
}

/// In a download in which nothing went wrong, nothing that was reported was
/// a failure, and the body has come to its end.
pub proof fn lemma_whole_transfer_is_clean(events: Seq<Event>)
    requires
        is_whole_transfer(events),
    ensures
        events.contains(Event::EndOfBody),
        forall|i: int| 0 <= i < events.len() ==> !is_failure(#[trigger] events[i]),
{
    assert(events[events.len() - 2] == Event::EndOfBody);
    assert forall|i: int| 0 <= i < events.len() implies !is_failure(#[trigger] events[i]) by {
        if 2 <= i < events.len() - 2 {
            assert(events[i] == body_report(i));
        }
    }
}

/// A download that breaks off never puts a file in place. Where the task is
/// given up with the `k`-th report, while it waits for anything but the
/// rename itself, it has not asked for the rename before and will not ask
/// for it later.
pub proof fn lemma_broken_off_never_renames(events: Seq<Event>, k: int)
    requires
        0 <= k < events.len(),
        run(Phase::Waiting(Step::Request), events.take(k)) is Waiting,
        run(Phase::Waiting(Step::Request), events.take(k)) != Phase::Waiting(Step::Rename),
        run(Phase::Waiting(Step::Request), events.take(k + 1)) is Failed,
    ensures
        !asked_for_rename(Phase::Waiting(Step::Request), events),
        run(Phase::Waiting(Step::Request), events) is Failed,
{
    let start = Phase::Waiting(Step::Request);
    assert forall|n: int| 0 <= n <= events.len() implies #[trigger] run(start, events.take(n))
        != Phase::Waiting(Step::Rename) by {
        if n <= k {
            lemma_progress_grows(start, events, n, k);
        } else {
            lemma_failed_stays(start, events, k + 1, n);
        }
    }
    lemma_failed_stays(start, events, k + 1, events.len() as int);
    assert(events.take(events.len() as int) =~= events);
}

/// A download that ends with the file in place has asked for the rename.
pub proof fn lemma_done_after_rename(events: Seq<Event>)
    requires
        run(Phase::Waiting(Step::Request), events) == Phase::Done,
    ensures
        asked_for_rename(Phase::Waiting(Step::Request), events),
    decreases events.len(),
{
    let start = Phase::Waiting(Step::Request);
    let front = events.drop_last();
    assert(front =~= events.take(events.len() - 1));
    if run(start, front) == Phase::Done {
        lemma_done_after_rename(front);
        let n = choose|n: int|
            0 <= n <= front.len() && #[trigger] run(start, front.take(n)) == Phase::Waiting(
                Step::Rename,
            );
        assert(front.take(n) =~= events.take(n));
    }
}

/// Nothing is requested, written or renamed for a name that cannot name a
/// file in the destination directory: such a download is given up before
/// its first operation, and stays so.
pub proof fn lemma_only_file_names_are_downloaded(name: Seq<char>, events: Seq<Event>)
    requires
        !is_file_name(name),
    ensures
        run(first_phase(name), events) == Phase::Failed(DownloadError::Encoding),
{
    lemma_settled_stays(first_phase(name), events);
}

} // verus!
