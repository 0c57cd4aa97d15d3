//! What holds of operations and commits over any course of events.
use vstd::prelude::*;

use crate::persistence::{
    changes, CommitFailed, CommitModel, CommitPhase, StoreChange, StoreOperation,
};

verus! {

/// What can happen to a store. Beginning something that is refused, and waiting, are no events:
/// they change nothing.
pub enum CommitEvent {
    /// A change is queued.
    Queue(StoreChange),
    /// An operation begins.
    BeginOperation,
    /// The operation ends.
    EndOperation,
    /// An atomic commit begins.
    BeginAtomicCommit,
    /// The queued changes are taken out and handed to the store as one batch.
    StartCommit,
    /// The store has written the batch.
    FinishCommitWritten,
    /// The store has failed to write the batch.
    FinishCommitFailed,
    /// The atomic commit ends.
    EndAtomicCommit,
}

/// A store in the course of events.
pub struct CommitRun {
    pub state: CommitModel,
    /// All batches that the store was ever handed, in order, whatever came of them.
    pub handed_over: Seq<Seq<StoreChange>>,
    /// The batch that the store is at work on, where it is handed one at a time.
    pub in_flight: Option<Seq<StoreChange>>,
    /// The batches that the store has written, in order.
    pub written: Seq<Seq<StoreChange>>,
}

impl CommitRun {
    /// A store that nothing was done with.
    pub open spec fn initial() -> Self {
        CommitRun {
            state: CommitModel::initial(),
            handed_over: Seq::empty(),
            in_flight: None,
            written: Seq::empty(),
        }
    }

    /// Whether `event` keeps to the discipline of operations and commits. Operations and atomic
    /// commits begin only while nothing runs, and end only after they began: that much the commit
    /// state demands. A batch is handed to the store, and comes back from it, within an atomic
    /// commit, one at a time: that is up to the callers, a commit can be started at any time.
    pub open spec fn allows(self, event: CommitEvent) -> bool {
        match event {
            CommitEvent::Queue(_) => true,
            CommitEvent::BeginOperation => self.state.phase == CommitPhase::Idle,
            CommitEvent::EndOperation => self.state.phase == CommitPhase::Operation,
            CommitEvent::BeginAtomicCommit => self.state.phase == CommitPhase::Idle,
            CommitEvent::StartCommit => self.state.phase == CommitPhase::Commit
                && self.in_flight is None,
            CommitEvent::FinishCommitWritten => self.in_flight is Some,
            CommitEvent::FinishCommitFailed => self.in_flight is Some,
            CommitEvent::EndAtomicCommit => self.state.phase == CommitPhase::Commit
                && self.in_flight is None,
        }
    }

    /// The store after `event`.
    pub open spec fn step(self, event: CommitEvent) -> Self {
        match event {
            CommitEvent::Queue(change) => CommitRun { state: self.state.queue(change), ..self },
            CommitEvent::BeginOperation => CommitRun {
                state: self.state.enter(CommitPhase::Operation),
                ..self
            },
            CommitEvent::BeginAtomicCommit => CommitRun {
                state: self.state.enter(CommitPhase::Commit),
                ..self
            },
            CommitEvent::EndOperation | CommitEvent::EndAtomicCommit => CommitRun {
                state: self.state.enter(CommitPhase::Idle),
                ..self
            },
            CommitEvent::StartCommit => CommitRun {
                state: self.state.take(),
                handed_over: self.handed_over.push(self.state.queued),
                in_flight: Some(self.state.queued),
                ..self
            },
            CommitEvent::FinishCommitWritten => CommitRun {
                state: self.state.commit(),
                in_flight: None,
                written: self.written.push(self.in_flight->0),
                ..self
            },
            CommitEvent::FinishCommitFailed => CommitRun {
                state: self.state.fail(),
                in_flight: None,
                ..self
            },
        }
    }

    /// Whether all of `events`, one after the other, keep to the discipline.
    pub open spec fn allows_all(self, events: Seq<CommitEvent>) -> bool
        decreases events.len(),
    {
        events.len() == 0 || {
            &&& self.allows_all(events.drop_last())
            &&& self.after(events.drop_last()).allows(events.last())
        }
    }

    /// The store after all of `events`.
    pub open spec fn after(self, events: Seq<CommitEvent>) -> Self
        decreases events.len(),
    {
        if events.len() == 0 {
            self
        } else {
            self.after(events.drop_last()).step(events.last())
        }
    }

    /// The changes that are queued, or with the store but not written, in order.
    pub open spec fn unwritten(self) -> Seq<StoreChange> {
        match self.in_flight {
            Some(batch) => batch + self.state.queued,
            None => self.state.queued,
        }
    }

    /// The store after an operation from its beginning to its end, in which `changes` were queued.
    pub open spec fn after_operation(self, changes: Seq<StoreChange>) -> Self {
        self.step(CommitEvent::BeginOperation).after(
            changes.map_values(|change: StoreChange| CommitEvent::Queue(change)),
        ).step(CommitEvent::EndOperation)
    }
}

/// The changes that `events` queue, in order.
pub open spec fn changes_queued(events: Seq<CommitEvent>) -> Seq<StoreChange>
    decreases events.len(),
{
    if events.len() == 0 {
        Seq::empty()
    } else {
        match events.last() {
            CommitEvent::Queue(change) => changes_queued(events.drop_last()).push(change),
            _ => changes_queued(events.drop_last()),
        }
    }
}

/// How many batches are written in `events`.
pub open spec fn batches_written(events: Seq<CommitEvent>) -> nat
    decreases events.len(),
{
    if events.len() == 0 {
        0
    } else if events.last() is FinishCommitWritten {
        batches_written(events.drop_last()) + 1
    } else {
        batches_written(events.drop_last())
    }
}

/// A change has the kind, the namespaces, the key and the value of its operation.
pub proof fn law_change_is_what_the_operation_says(operation: StoreOperation)
    ensures
        match operation {
            StoreOperation::Write { primary_namespace, secondary_namespace, key, value } => {
                operation@ == (StoreChange::Write {
                    primary_namespace: primary_namespace@,
                    secondary_namespace: secondary_namespace@,
                    key: key@,
                    value: value@,
                })
            },
            StoreOperation::Remove { primary_namespace, secondary_namespace, key } => {
                operation@ == (StoreChange::Remove {
                    primary_namespace: primary_namespace@,
                    secondary_namespace: secondary_namespace@,
                    key: key@,
                })
            },
        },
{
}

/// The changes of a batch are those of its operations, one for each, in the same order.
pub proof fn law_batch_keeps_the_order(operations: Seq<StoreOperation>)
    ensures
        changes(operations).len() == operations.len(),
        forall|i: int|
            0 <= i < operations.len() ==> #[trigger] changes(operations)[i] == operations[i]@,
{
}

/// A batch with one operation more has one change more, at the end.
pub proof fn law_batch_grows_at_the_end(operations: Seq<StoreOperation>, operation: StoreOperation)
    ensures
        changes(Seq::<StoreOperation>::empty()).len() == 0,
        changes(operations.push(operation)) == changes(operations).push(operation@),
{
    assert(changes(operations.push(operation)) =~= changes(operations).push(operation@));
}

/// A change that is queued stands behind all others, and nothing else is changed by it.
pub proof fn law_queueing_appends(state: CommitModel, change: StoreChange)
    ensures
        state.queue(change).queued == state.queued.push(change),
        state.queue(change).phase == state.phase,
        state.queue(change).generation == state.generation,
        state.queue(change).failed == state.failed,
{
}

/// Starting a commit leaves nothing queued, and changes nothing else.
pub proof fn law_taking_leaves_nothing(state: CommitModel)
    ensures
        state.take().queued.len() == 0,
        state.take().phase == state.phase,
        state.take().generation == state.generation,
        state.take().failed == state.failed,
{
}

/// A written batch raises the generation by one, modulo its range, and changes nothing else.
pub proof fn law_written_batch_counts_one(state: CommitModel)
    ensures
        state.generation < u64::MAX ==> state.commit().generation == state.generation + 1,
        state.generation == u64::MAX ==> state.commit().generation == 0,
        state.commit().queued == state.queued,
        state.commit().phase == state.phase,
        state.commit().failed == state.failed,
{
}

/// A failed batch is noted, and changes nothing else.
pub proof fn law_failed_batch_is_noted(state: CommitModel)
    ensures
        state.fail().failed,
        state.fail().queued == state.queued,
        state.fail().phase == state.phase,
        state.fail().generation == state.generation,
{
}

/// Whoever begins or ends changes who has the store to itself, whatever is queued and however the
/// commits went, and changes nothing else.
pub proof fn law_beginning_takes_the_store(state: CommitModel, phase: CommitPhase)
    ensures
        state.enter(phase).phase == phase,
        state.enter(phase).queued == state.queued,
        state.enter(phase).generation == state.generation,
        state.enter(phase).failed == state.failed,
{
}

/// A store that nothing was done with is idle, has nothing queued, and knows of no commit.
pub proof fn law_store_starts_idle()
    ensures
        CommitModel::initial().queued.len() == 0,
        CommitModel::initial().phase == CommitPhase::Idle,
        CommitModel::initial().generation == 0,
        !CommitModel::initial().failed,
{
}

/// Nobody is told of a failure that did not happen, nor of a commit that did not: one who waits is
/// told of a failure exactly where a batch has failed, and otherwise of a commit exactly where the
/// generation is past the one given, however far.
pub proof fn law_waiters_are_told_the_truth(state: CommitModel, after: u64)
    ensures
        state.outcome(after) == Some(Err::<(), CommitFailed>(CommitFailed)) <==> state.failed,
        state.outcome(after) == Some(Ok::<(), CommitFailed>(())) <==> !state.failed
            && state.generation > after,
        state.outcome(after) is None <==> !state.failed && state.generation <= after,
{
}

/// One who is told of a commit after some generation is told the same of every earlier one, and one
/// who is told to wait is told the same of every later one.
pub proof fn law_waiting_longer_tells_more(state: CommitModel, earlier: u64, later: u64)
    requires
        earlier <= later,
    ensures
        state.outcome(later) is Some ==> state.outcome(earlier) == state.outcome(later),
        state.outcome(earlier) is None ==> state.outcome(later) is None,
{
}

/// In a course of events in which no batch fails, one who waits since its beginning is never told
/// of a failure: the wait is over as soon as a batch was written, however many are, and goes on
/// until then.
pub proof fn law_waiting_ends_with_the_first_batch(run: CommitRun, events: Seq<CommitEvent>)
    requires
        !run.state.failed,
        forall|i: int| 0 <= i < events.len() ==> !(#[trigger] events[i] is FinishCommitFailed),
        run.state.generation + batches_written(events) <= u64::MAX,
    ensures
        (exists|i: int| 0 <= i < events.len() && #[trigger] events[i] is FinishCommitWritten)
            ==> run.after(events).state.outcome(run.state.generation) == Some(
            Ok::<(), CommitFailed>(()),
        ),
        (forall|i: int| 0 <= i < events.len() ==> !(#[trigger] events[i] is FinishCommitWritten))
            ==> run.after(events).state.outcome(run.state.generation) is None,
{
    law_generation_counts_batches(run, events);
    law_batches_written_are_counted(events);
    lemma_no_failure(run, events);
}

/// Without a failed batch there is no failure.
proof fn lemma_no_failure(run: CommitRun, events: Seq<CommitEvent>)
    requires
        !run.state.failed,
        forall|i: int| 0 <= i < events.len() ==> !(#[trigger] events[i] is FinishCommitFailed),
    ensures
        !run.after(events).state.failed,
    decreases events.len(),
{
    if events.len() > 0 {
        let earlier = events.drop_last();
        assert forall|i: int| 0 <= i < earlier.len() implies !(
        #[trigger] earlier[i] is FinishCommitFailed) by {
            assert(earlier[i] == events[i]);
        }
        lemma_no_failure(run, earlier);
        assert(!(events[events.len() - 1] is FinishCommitFailed));
    }
}

/// A failure of any batch is noted at the end, whatever else happens.
pub proof fn law_any_failure_is_noted(run: CommitRun, events: Seq<CommitEvent>, i: int, after: u64)
    requires
        0 <= i < events.len(),
        events[i] is FinishCommitFailed,
    ensures
        run.after(events).state.outcome(after) == Some(Err::<(), CommitFailed>(CommitFailed)),
    decreases events.len(),
{
    let earlier = events.drop_last();
    if i < events.len() - 1 {
        assert(earlier[i] == events[i]);
        law_any_failure_is_noted(run, earlier, i, after);
    }
}

/// The number of batches written in a course of events is that of the events that say so: no more
/// than there are events, and none exactly where there is no such event.
pub proof fn law_batches_written_are_counted(events: Seq<CommitEvent>)
    ensures
        batches_written(events) <= events.len(),
        batches_written(events) == events.filter(
            |event: CommitEvent| event is FinishCommitWritten,
        ).len(),
        batches_written(events) == 0 <==> (forall|i: int|
            0 <= i < events.len() ==> !(#[trigger] events[i] is FinishCommitWritten)),
    decreases events.len(),
{
    let says_so = |event: CommitEvent| event is FinishCommitWritten;
    reveal(Seq::filter);
    if events.len() > 0 {
        let earlier = events.drop_last();
        law_batches_written_are_counted(earlier);
        assert(forall|i: int| 0 <= i < earlier.len() ==> #[trigger] earlier[i] == events[i]);
        assert(events.last() == events[events.len() - 1]);
        if batches_written(events) == 0 {
            assert forall|i: int| 0 <= i < events.len() implies !(
            #[trigger] events[i] is FinishCommitWritten) by {
                if i < earlier.len() {
                    assert(earlier[i] == events[i]);
                }
            }
        } else if batches_written(earlier) != 0 {
            let i = choose|i: int|
                0 <= i < earlier.len() && #[trigger] earlier[i] is FinishCommitWritten;
            assert(events[i] is FinishCommitWritten);
        }
    }
}

/// An operation that has begun keeps the store to itself until it ends, whatever was queued before
/// and whatever is queued meanwhile: neither another operation nor an atomic commit can begin.
pub proof fn law_operation_holds_the_store(run: CommitRun, changes: Seq<StoreChange>)
    requires
        run.allows(CommitEvent::BeginOperation),
    ensures
        ({
            let during = run.step(CommitEvent::BeginOperation).after(
                changes.map_values(|change: StoreChange| CommitEvent::Queue(change)),
            );
            &&& run.state.phase == CommitPhase::Idle
            &&& during.state.phase == CommitPhase::Operation
            &&& !during.allows(CommitEvent::BeginOperation)
            &&& !during.allows(CommitEvent::BeginAtomicCommit)
            &&& during.step(CommitEvent::EndOperation).state.phase == CommitPhase::Idle
        }),
{
    lemma_queueing(run.step(CommitEvent::BeginOperation), changes);
}

/// An atomic commit that has begun keeps the store to itself until it ends, whatever happens
/// meanwhile: neither an operation nor another atomic commit can begin.
pub proof fn law_commit_holds_the_store(run: CommitRun, events: Seq<CommitEvent>)
    requires
        run.state.phase == CommitPhase::Idle,
        run.step(CommitEvent::BeginAtomicCommit).allows_all(events),
        forall|i: int| 0 <= i < events.len() ==> !(#[trigger] events[i] is EndAtomicCommit),
    ensures
        ({
            let during = run.step(CommitEvent::BeginAtomicCommit).after(events);
            &&& during.state.phase == CommitPhase::Commit
            &&& !during.allows(CommitEvent::BeginOperation)
            &&& !during.allows(CommitEvent::BeginAtomicCommit)
            &&& during.step(CommitEvent::EndAtomicCommit).state.phase == CommitPhase::Idle
        }),
    decreases events.len(),
{
    if events.len() > 0 {
        let earlier = events.drop_last();
        assert forall|i: int| 0 <= i < earlier.len() implies !(
        #[trigger] earlier[i] is EndAtomicCommit) by {
            assert(earlier[i] == events[i]);
        }
        law_commit_holds_the_store(run, earlier);
        assert(!(events[events.len() - 1] is EndAtomicCommit));
    }
}

/// While an operation runs nothing else begins and no batch is under way: the one event besides
/// queueing that can happen is that the operation ends.
pub proof fn law_operation_excludes_commits(run: CommitRun, event: CommitEvent)
    requires
        run.state.phase == CommitPhase::Operation,
        run.in_flight is None,
    ensures
        run.allows(event) <==> event is Queue || event is EndOperation,
{
}

/// While an atomic commit runs nothing else begins.
pub proof fn law_commit_excludes_operations(run: CommitRun)
    requires
        run.state.phase == CommitPhase::Commit,
    ensures
        !run.allows(CommitEvent::BeginOperation),
        !run.allows(CommitEvent::BeginAtomicCommit),
        !run.allows(CommitEvent::EndOperation),
{
}

/// A batch is under way only within an atomic commit.
pub proof fn law_batches_stay_within_commits(events: Seq<CommitEvent>)
    requires
        CommitRun::initial().allows_all(events),
    ensures
        CommitRun::initial().after(events).in_flight is Some ==> CommitRun::initial().after(
            events,
        ).state.phase == CommitPhase::Commit,
    decreases events.len(),
{
    if events.len() > 0 {
        law_batches_stay_within_commits(events.drop_last());
    }
}

/// As long as no batch fails, every change is written exactly once, in the order in which it was
/// queued, by the time that nothing is left unwritten.
pub proof fn law_changes_are_written_in_order(events: Seq<CommitEvent>)
    requires
        CommitRun::initial().allows_all(events),
        !CommitRun::initial().after(events).state.failed,
    ensures
        CommitRun::initial().after(events).written.flatten() + CommitRun::initial().after(
            events,
        ).unwritten() == changes_queued(events),
    decreases events.len(),
{
    let end = CommitRun::initial().after(events);
    if events.len() > 0 {
        law_changes_are_written_in_order(events.drop_last());
        let before = CommitRun::initial().after(events.drop_last());
        if events.last() is FinishCommitWritten {
            before.written.lemma_flatten_push(before.in_flight->0);
        }
    }
    assert(end.written.flatten() + end.unwritten() =~= changes_queued(events));
}

/// Every change is handed to the store exactly once, in the order in which it was queued, with
/// none left out: all batches one after the other, followed by what is queued, are all changes
/// that were ever queued. This holds of any events and any outcomes, with commits that overlap and
/// batches that fail. So a failed batch is never handed over again.
pub proof fn law_changes_are_handed_over_once(run: CommitRun, events: Seq<CommitEvent>)
    ensures
        run.after(events).handed_over.flatten() + run.after(events).state.queued
            == run.handed_over.flatten() + run.state.queued + changes_queued(events),
    decreases events.len(),
{
    let end = run.after(events);
    let start = run.handed_over.flatten() + run.state.queued;
    if events.len() == 0 {
        assert(start + changes_queued(events) =~= start);
    } else {
        law_changes_are_handed_over_once(run, events.drop_last());
        let before = run.after(events.drop_last());
        match events.last() {
            CommitEvent::Queue(change) => {
                let earlier = changes_queued(events.drop_last());
                assert(start + earlier.push(change) =~= (start + earlier).push(change));
                assert(end.handed_over.flatten() + end.state.queued =~= (
                before.handed_over.flatten() + before.state.queued).push(change));
            },
            CommitEvent::StartCommit => {
                before.handed_over.lemma_flatten_push(before.state.queued);
                assert(end.handed_over.flatten() + end.state.queued =~= end.handed_over.flatten());
            },
            _ => {},
        }
    }
}

/// All changes of one operation are handed to the store in one and the same batch, the first after
/// the operation, together with what was queued before it: until then they all are queued. This
/// holds of any events after the operation, and of any outcomes.
pub proof fn law_operation_is_handed_over_whole(
    run: CommitRun,
    changes: Seq<StoreChange>,
    events: Seq<CommitEvent>,
)
    requires
        run.state.phase == CommitPhase::Idle,
    ensures
        ({
            let end = run.after_operation(changes).after(events);
            &&& run.handed_over.is_prefix_of(end.handed_over)
            &&& if end.handed_over.len() == run.handed_over.len() {
                (run.state.queued + changes).is_prefix_of(end.state.queued)
            } else {
                (run.state.queued + changes).is_prefix_of(
                    end.handed_over[run.handed_over.len() as int],
                )
            }
        }),
    decreases events.len(),
{
    law_operation_queues_its_changes(run, changes);
    if events.len() > 0 {
        law_operation_is_handed_over_whole(run, changes, events.drop_last());
    }
}

/// The generation counts the batches that were written.
pub proof fn law_generation_counts_batches(run: CommitRun, events: Seq<CommitEvent>)
    requires
        run.state.generation + batches_written(events) <= u64::MAX,
    ensures
        run.after(events).state.generation == run.state.generation + batches_written(events),
    decreases events.len(),
{
    if events.len() > 0 {
        law_generation_counts_batches(run, events.drop_last());
    }
}

/// Once a batch has failed, everyone who waits is told so, whatever happens after that.
pub proof fn law_failure_is_final(run: CommitRun, events: Seq<CommitEvent>, after: u64)
    requires
        run.state.failed,
    ensures
        run.after(events).state.outcome(after) == Some(Err::<(), CommitFailed>(CommitFailed)),
    decreases events.len(),
{
    if events.len() > 0 {
        law_failure_is_final(run, events.drop_last(), after);
    }
}

/// What an operation leaves behind: its changes are queued behind the others, and nothing else
/// has changed.
pub proof fn law_operation_queues_its_changes(run: CommitRun, changes: Seq<StoreChange>)
    requires
        run.state.phase == CommitPhase::Idle,
    ensures
        run.after_operation(changes) == (CommitRun {
            state: CommitModel { queued: run.state.queued + changes, ..run.state },
            ..run
        }),
{
    lemma_queueing(run.step(CommitEvent::BeginOperation), changes);
}

/// Queueing changes one by one appends them.
proof fn lemma_queueing(run: CommitRun, changes: Seq<StoreChange>)
    ensures
        run.after(changes.map_values(|change: StoreChange| CommitEvent::Queue(change))) == (
        CommitRun {
            state: CommitModel { queued: run.state.queued + changes, ..run.state },
            ..run
        }),
    decreases changes.len(),
{
    let events = changes.map_values(|change: StoreChange| CommitEvent::Queue(change));
    if changes.len() == 0 {
        assert(run.state.queued + changes =~= run.state.queued);
    } else {
        let earlier = changes.drop_last();
        lemma_queueing(run, earlier);
        assert(events.drop_last() =~= earlier.map_values(
            |change: StoreChange| CommitEvent::Queue(change),
        ));
        assert((run.state.queued + earlier).push(changes.last()) =~= run.state.queued + changes);
    }
}

/// How far the changes that were queued in `start` can have come: they are all queued or all in one
/// batch that the store is at work on, or they are in the first batch that the store has written
/// since, or a batch has failed.
spec fn all_or_nothing(start: CommitRun, now: CommitRun) -> bool {
    ||| now.state.failed
    ||| {
        &&& now.written == start.written
        &&& now.state.generation == start.state.generation
        &&& match now.in_flight {
            Some(batch) => start.state.queued.is_prefix_of(batch),
            None => start.state.queued.is_prefix_of(now.state.queued),
        }
    }
    ||| {
        &&& start.written.len() < now.written.len()
        &&& start.written.is_prefix_of(now.written)
        &&& start.state.queued.is_prefix_of(now.written[start.written.len() as int])
    }
}

/// The changes that were queued while no batch was under way stay together.
proof fn lemma_all_or_nothing(start: CommitRun, events: Seq<CommitEvent>)
    requires
        start.in_flight is None,
        start.allows_all(events),
    ensures
        all_or_nothing(start, start.after(events)),
    decreases events.len(),
{
    if events.len() > 0 {
        lemma_all_or_nothing(start, events.drop_last());
    }
}

/// Whoever waits for a commit after an operation, and is told that there was one, finds that the
/// store has written every change of the operation, all in one batch, behind what was queued
/// earlier: in the first batch that was written since.
///
/// `run` is the store before the operation, `changes` is what the operation queued, and `events`
/// is what happened between its end and the answer.
pub proof fn law_commit_covers_the_operation(
    run: CommitRun,
    changes: Seq<StoreChange>,
    events: Seq<CommitEvent>,
)
    requires
        run.state.phase == CommitPhase::Idle,
        run.in_flight is None,
        run.after_operation(changes).allows_all(events),
        run.after_operation(changes).after(events).state.outcome(run.state.generation) == Some(
            Ok::<(), CommitFailed>(()),
        ),
    ensures
        ({
            let end = run.after_operation(changes).after(events);
            &&& run.written.len() < end.written.len()
            &&& run.written.is_prefix_of(end.written)
            &&& (run.state.queued + changes).is_prefix_of(end.written[run.written.len() as int])
        }),
{
    let start = run.after_operation(changes);
    law_operation_queues_its_changes(run, changes);
    lemma_all_or_nothing(start, events);
}

/// Whoever waits for a commit after an operation, and is told nothing yet, waits rightly: the
/// store has written none of the operation's changes, and no batch has failed.
pub proof fn law_nobody_waits_for_what_is_done(
    run: CommitRun,
    changes: Seq<StoreChange>,
    events: Seq<CommitEvent>,
)
    requires
        run.state.phase == CommitPhase::Idle,
        run.in_flight is None,
        run.after_operation(changes).allows_all(events),
        run.state.generation + batches_written(events) <= u64::MAX,
        run.after_operation(changes).after(events).state.outcome(run.state.generation) is None,
    ensures
        run.after_operation(changes).after(events).written == run.written,
        (run.state.queued + changes).is_prefix_of(
            run.after_operation(changes).after(events).unwritten(),
        ),
        !run.after_operation(changes).after(events).state.failed,
{
    let start = run.after_operation(changes);
    law_operation_queues_its_changes(run, changes);
    law_generation_counts_batches(start, events);
    lemma_unwritten(start, events);
}

/// While no batch is written, what was queued is still unwritten.
proof fn lemma_unwritten(start: CommitRun, events: Seq<CommitEvent>)
    requires
        start.in_flight is None,
        start.allows_all(events),
        batches_written(events) == 0,
        !start.after(events).state.failed,
    ensures
        start.after(events).written == start.written,
        start.state.queued.is_prefix_of(start.after(events).unwritten()),
    decreases events.len(),
{
    if events.len() > 0 {
        lemma_unwritten(start, events.drop_last());
        let before = start.after(events.drop_last());
        let now = start.after(events);
        if events.last() is StartCommit {
            assert(now.unwritten() =~= before.unwritten());
        }
    }
}

/// An operation's waiting ends with the next commit: with `Ok` where the store writes the batch,
/// with an error where it does not.
pub proof fn law_next_commit_ends_the_wait(run: CommitRun, changes: Seq<StoreChange>)
    requires
        run.state.phase == CommitPhase::Idle,
        run.in_flight is None,
        !run.state.failed,
        run.state.generation < u64::MAX,
    ensures
        ({
            let under_way = run.after_operation(changes).step(CommitEvent::BeginAtomicCommit).step(
                CommitEvent::StartCommit,
            );
            &&& under_way.in_flight == Some(run.state.queued + changes)
            &&& under_way.step(CommitEvent::FinishCommitWritten).state.outcome(run.state.generation)
                == Some(Ok::<(), CommitFailed>(()))
            &&& under_way.step(CommitEvent::FinishCommitFailed).state.outcome(run.state.generation)
                == Some(Err::<(), CommitFailed>(CommitFailed))
        }),
{
    law_operation_queues_its_changes(run, changes);
}

} // verus!
