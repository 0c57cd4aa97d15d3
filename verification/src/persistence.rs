//! Collecting store writes into batches that are committed atomically.
//!
//! Changes to the store are queued in memory, by operations that run one at a time. A commit, which
//! runs while no operation does, hands all that is queued to the store as one batch. Whoever made a
//! change can then wait for a commit that came after it.
use vstd::prelude::*;

use crate::errors::ErrorKind;

verus! {

/// One change to a key-value store.
pub enum StoreOperation {
    Write { primary_namespace: String, secondary_namespace: String, key: String, value: Vec<u8> },
    Remove { primary_namespace: String, secondary_namespace: String, key: String },
}

/// A [`StoreOperation`] as plain sequences.
pub enum StoreChange {
    Write {
        primary_namespace: Seq<char>,
        secondary_namespace: Seq<char>,
        key: Seq<char>,
        value: Seq<u8>,
    },
    Remove { primary_namespace: Seq<char>, secondary_namespace: Seq<char>, key: Seq<char> },
}

impl View for StoreOperation {
    type V = StoreChange;

    open spec fn view(&self) -> StoreChange {
        match *self {
            StoreOperation::Write { primary_namespace, secondary_namespace, key, value } => {
                StoreChange::Write {
                    primary_namespace: primary_namespace@,
                    secondary_namespace: secondary_namespace@,
                    key: key@,
                    value: value@,
                }
            },
            StoreOperation::Remove { primary_namespace, secondary_namespace, key } => {
                StoreChange::Remove {
                    primary_namespace: primary_namespace@,
                    secondary_namespace: secondary_namespace@,
                    key: key@,
                }
            },
        }
    }
}

/// What the changes of a batch are, in order.
pub open spec fn changes(operations: Seq<StoreOperation>) -> Seq<StoreChange> {
    operations.map_values(|operation: StoreOperation| operation@)
}

/// Who has the store to itself.
#[derive(Clone, Copy, PartialEq, Eq, Structural, Debug)]
pub enum CommitPhase {
    /// Nobody.
    Idle,
    /// An operation that queues changes.
    Operation,
    /// A commit of the queued changes.
    Commit,
}

/// The changes that wait for the next commit, and who has the store to itself.
struct BatchState {
    operations: Vec<StoreOperation>,
    phase: CommitPhase,
}

/// What is queued, who runs, and how the commits went so far.
pub struct CommitState {
    batch: BatchState,
    generation: u64,
    failed: bool,
}

/// A [`CommitState`] as plain values, and what each step makes of it.
pub struct CommitModel {
    /// The queued changes, in order.
    pub queued: Seq<StoreChange>,
    /// Who has the store to itself.
    pub phase: CommitPhase,
    /// How many batches were committed, modulo the range of `u64`.
    pub generation: u64,
    /// Whether the commit of any batch has failed.
    pub failed: bool,
}

impl CommitModel {
    /// Nothing is queued, nobody runs, no commit was made.
    pub open spec fn initial() -> Self {
        CommitModel {
            queued: Seq::empty(),
            phase: CommitPhase::Idle,
            generation: 0,
            failed: false,
        }
    }

    /// `change` is queued behind the others.
    pub open spec fn queue(self, change: StoreChange) -> Self {
        CommitModel { queued: self.queued.push(change), ..self }
    }

    /// All that was queued was taken out, to be committed.
    pub open spec fn take(self) -> Self {
        CommitModel { queued: Seq::empty(), ..self }
    }

    /// A batch was committed: the generation goes up by one, and wraps around.
    pub open spec fn commit(self) -> Self {
        CommitModel {
            generation: if self.generation == u64::MAX {
                0
            } else {
                (self.generation + 1) as u64
            },
            ..self
        }
    }

    /// The commit of a batch failed.
    pub open spec fn fail(self) -> Self {
        CommitModel { failed: true, ..self }
    }

    /// Who has the store to itself changes.
    pub open spec fn enter(self, phase: CommitPhase) -> Self {
        CommitModel { phase, ..self }
    }

    /// What one is told who waits for a commit after generation `after`: nothing yet, that a batch
    /// failed, or that there was one. A failure comes first.
    pub open spec fn outcome(self, after: u64) -> Option<Result<(), CommitFailed>> {
        if self.failed {
            Some(Err(CommitFailed))
        } else if self.generation > after {
            Some(Ok(()))
        } else {
            None
        }
    }
}

/// The error of one who waits for a commit when a batch failed.
#[derive(Clone, Copy, PartialEq, Eq, Structural, Debug)]
pub struct CommitFailed;

impl CommitFailed {
    /// The kind of the error.
    pub fn kind(&self) -> (kind: ErrorKind)
        ensures
            kind == ErrorKind::Other,
    {
        ErrorKind::Other
    }

    /// The error in words.
    pub fn message(&self) -> (text: &'static str)
        ensures
            text@ == "atomic persistence batch failed"@,
    {
        "atomic persistence batch failed"
    }
}

impl View for CommitState {
    type V = CommitModel;

    closed spec fn view(&self) -> CommitModel {
        CommitModel {
            queued: changes(self.batch.operations@),
            phase: self.batch.phase,
            generation: self.generation,
            failed: self.failed,
        }
    }
}

impl CommitState {
    /// The state of a store that nothing was done with.
    pub fn new() -> (state: Self)
        ensures
            state@ == CommitModel::initial(),
            state@.queued.len() == 0,
            state@.phase == CommitPhase::Idle,
            state@.generation == 0,
            !state@.failed,
    {
        let state = Self {
            batch: BatchState { operations: Vec::new(), phase: CommitPhase::Idle },
            generation: 0,
            failed: false,
        };
        assert(state@.queued =~= CommitModel::initial().queued);
        state
    }

    /// Puts `operation` behind the queued ones.
    fn push(&mut self, operation: StoreOperation)
        ensures
            final(self)@ == old(self)@.queue(operation@),
            final(self)@ == (CommitModel {
                queued: old(self)@.queued.push(operation@),
                ..old(self)@
            }),
    {
        self.batch.operations.push(operation);
        assert(self@.queued =~= old(self)@.queue(operation@).queued);
    }

    /// Queues the write of `buf` under `key`. The write is made by the next commit.
    pub fn queue_write(
        &mut self,
        primary_namespace: &str,
        secondary_namespace: &str,
        key: &str,
        buf: Vec<u8>,
    )
        ensures
            final(self)@ == old(self)@.queue(
                (StoreChange::Write {
                    primary_namespace: primary_namespace@,
                    secondary_namespace: secondary_namespace@,
                    key: key@,
                    value: buf@,
                }),
            ),
            final(self)@ == (CommitModel {
                queued: old(self)@.queued.push(
                    StoreChange::Write {
                        primary_namespace: primary_namespace@,
                        secondary_namespace: secondary_namespace@,
                        key: key@,
                        value: buf@,
                    },
                ),
                ..old(self)@
            }),
    {
        self.push(
            StoreOperation::Write {
                primary_namespace: primary_namespace.to_owned(),
                secondary_namespace: secondary_namespace.to_owned(),
                key: key.to_owned(),
                value: buf,
            },
        );
    }

    /// Queues the removal of `key`. The removal is made by the next commit, lazy or not.
    pub fn queue_remove(
        &mut self,
        primary_namespace: &str,
        secondary_namespace: &str,
        key: &str,
        _lazy: bool,
    )
        ensures
            final(self)@ == old(self)@.queue(
                (StoreChange::Remove {
                    primary_namespace: primary_namespace@,
                    secondary_namespace: secondary_namespace@,
                    key: key@,
                }),
            ),
            final(self)@ == (CommitModel {
                queued: old(self)@.queued.push(
                    StoreChange::Remove {
                        primary_namespace: primary_namespace@,
                        secondary_namespace: secondary_namespace@,
                        key: key@,
                    },
                ),
                ..old(self)@
            }),
    {
        self.push(
            StoreOperation::Remove {
                primary_namespace: primary_namespace.to_owned(),
                secondary_namespace: secondary_namespace.to_owned(),
                key: key.to_owned(),
            },
        );
    }

    /// Starts a commit: takes out all queued operations, which are to be written as one batch.
    /// What came of it is reported to [`CommitState::finish_commit`].
    pub fn start_commit(&mut self) -> (operations: Vec<StoreOperation>)
        ensures
            changes(operations@) == old(self)@.queued,
            final(self)@ == old(self)@.take(),
            operations@.len() == old(self)@.queued.len(),
            forall|i: int|
                0 <= i < operations@.len() ==> (match #[trigger] operations@[i] {
                    StoreOperation::Write { primary_namespace, secondary_namespace, key, value } => {
                        old(self)@.queued[i] == (StoreChange::Write {
                            primary_namespace: primary_namespace@,
                            secondary_namespace: secondary_namespace@,
                            key: key@,
                            value: value@,
                        })
                    },
                    StoreOperation::Remove { primary_namespace, secondary_namespace, key } => {
                        old(self)@.queued[i] == (StoreChange::Remove {
                            primary_namespace: primary_namespace@,
                            secondary_namespace: secondary_namespace@,
                            key: key@,
                        })
                    },
                }),
            final(self)@ == (CommitModel { queued: Seq::empty(), ..old(self)@ }),
    {
        let mut operations: Vec<StoreOperation> = Vec::new();
        std::mem::swap(&mut operations, &mut self.batch.operations);
        assert(self@.queued =~= old(self)@.take().queued);
        assert forall|i: int| 0 <= i < operations@.len() implies old(self)@.queued[i] == (
        #[trigger] operations@[i])@ by {
            assert(changes(operations@)[i] == operations@[i]@);
        }
        operations
    }

    /// Ends a commit: notes whether the batch was written, and hands on what the store said.
    /// All who wait for a commit are to look again after that.
    pub fn finish_commit<E>(&mut self, written: Result<(), E>) -> (result: Result<(), E>)
        ensures
            result == written,
            final(self)@ == (match written {
                Ok(_) => old(self)@.commit(),
                Err(_) => old(self)@.fail(),
            }),
            final(self)@.queued == old(self)@.queued,
            final(self)@.phase == old(self)@.phase,
            written is Ok ==> final(self)@.failed == old(self)@.failed,
            written is Ok && old(self)@.generation < u64::MAX ==> final(self)@.generation == old(
                self,
            )@.generation + 1,
            written is Ok && old(self)@.generation == u64::MAX ==> final(self)@.generation == 0,
            written is Err ==> final(self)@.failed && final(self)@.generation == old(
                self,
            )@.generation,
    {
        match written {
            Ok(done) => {
                self.generation = self.generation.wrapping_add(1);
                Ok(done)
            },
            Err(e) => {
                self.failed = true;
                Err(e)
            },
        }
    }

    /// Who has the store to itself.
    pub fn phase(&self) -> (phase: CommitPhase)
        ensures
            phase == self@.phase,
    {
        self.batch.phase
    }

    /// How many batches were committed, modulo the range of `u64`.
    pub fn commit_generation(&self) -> (generation: u64)
        ensures
            generation == self@.generation,
    {
        self.generation
    }

    /// What one is told who waits for a commit after generation `after_generation`: `None` is to
    /// go on waiting.
    pub fn poll_commit(&self, after_generation: u64) -> (outcome: Option<Result<(), CommitFailed>>)
        ensures
            outcome == self@.outcome(after_generation),
            outcome == Some(Err::<(), CommitFailed>(CommitFailed)) <==> self@.failed,
            outcome == Some(Ok::<(), CommitFailed>(())) <==> !self@.failed && self@.generation
                > after_generation,
            outcome is None <==> !self@.failed && self@.generation <= after_generation,
    {
        if self.failed {
            return Some(Err(CommitFailed));
        }
        if self.generation > after_generation {
            return Some(Ok(()));
        }
        None
    }

    /// Starts an operation, unless somebody has the store to itself.
    pub fn begin_operation(&mut self) -> (begun: bool)
        ensures
            begun == (old(self)@.phase == CommitPhase::Idle),
            final(self)@ == if begun {
                old(self)@.enter(CommitPhase::Operation)
            } else {
                old(self)@
            },
            begun ==> final(self)@ == (CommitModel { phase: CommitPhase::Operation, ..old(self)@ }),
    {
        if self.batch.phase != CommitPhase::Idle {
            return false;
        }
        self.batch.phase = CommitPhase::Operation;
        true
    }

    /// Ends the operation that runs. All who want to begin something are to try again after that.
    pub fn end_operation(&mut self)
        requires
            old(self)@.phase == CommitPhase::Operation,
        ensures
            final(self)@ == old(self)@.enter(CommitPhase::Idle),
            final(self)@ == (CommitModel { phase: CommitPhase::Idle, ..old(self)@ }),
    {
        self.batch.phase = CommitPhase::Idle;
    }

    /// Starts an atomic commit, unless somebody has the store to itself.
    pub fn begin_atomic_commit(&mut self) -> (begun: bool)
        ensures
            begun == (old(self)@.phase == CommitPhase::Idle),
            final(self)@ == if begun {
                old(self)@.enter(CommitPhase::Commit)
            } else {
                old(self)@
            },
            begun ==> final(self)@ == (CommitModel { phase: CommitPhase::Commit, ..old(self)@ }),
    {
        if self.batch.phase != CommitPhase::Idle {
            return false;
        }
        self.batch.phase = CommitPhase::Commit;
        true
    }

    /// Ends the atomic commit that runs. All who want to begin something are to try again after
    /// that.
    pub fn end_atomic_commit(&mut self)
        requires
            old(self)@.phase == CommitPhase::Commit,
        ensures
            final(self)@ == old(self)@.enter(CommitPhase::Idle),
            final(self)@ == (CommitModel { phase: CommitPhase::Idle, ..old(self)@ }),
    {
        self.batch.phase = CommitPhase::Idle;
    }
}

/// Held by whoever runs an operation. It ends the operation once, and knows which commits came
/// before it.
pub struct PersistenceOperationGuard {
    holds_operation: bool,
    commit_generation: u64,
}

impl PersistenceOperationGuard {
    /// Whether the operation is still to be ended.
    pub closed spec fn holds_operation(&self) -> bool {
        self.holds_operation
    }

    /// The generation when the operation began.
    pub closed spec fn generation(&self) -> u64 {
        self.commit_generation
    }

    /// The guard of an operation that has begun, when the generation was `commit_generation`.
    pub fn begun(commit_generation: u64) -> (guard: Self)
        ensures
            guard.holds_operation(),
            guard.generation() == commit_generation,
    {
        Self { holds_operation: true, commit_generation }
    }

    /// The generation when the operation began.
    pub fn commit_generation(&self) -> (generation: u64)
        ensures
            generation == self.generation(),
    {
        self.commit_generation
    }

    /// Gives the operation up. Whoever calls this is to end the operation if it is told `true`,
    /// which happens once.
    pub fn give_up(&mut self) -> (held: bool)
        ensures
            held == old(self).holds_operation(),
            !final(self).holds_operation(),
            final(self).generation() == old(self).generation(),
    {
        let held = self.holds_operation;
        self.holds_operation = false;
        held
    }

    /// Starts an operation on `store`. Where somebody has the store to itself there is no guard,
    /// and it is to be tried again when that one has ended.
    pub fn new(store: &mut CommitState) -> (guard: Option<Self>)
        ensures
            guard is Some <==> old(store)@.phase == CommitPhase::Idle,
            match guard {
                Some(guard) => {
                    &&& guard.holds_operation()
                    &&& guard.generation() == old(store)@.generation
                    &&& final(store)@ == old(store)@.enter(CommitPhase::Operation)
                    &&& final(store)@ == (CommitModel {
                        phase: CommitPhase::Operation,
                        ..old(store)@
                    })
                },
                None => final(store)@ == old(store)@,
            },
    {
        if !store.begin_operation() {
            return None;
        }
        Some(Self::begun(store.commit_generation()))
    }

    /// Ends the operation, to wait for a commit of what it queued: one after the generation that is
    /// returned.
    pub fn wait_for_commit(self, store: &mut CommitState) -> (after_generation: u64)
        requires
            self.holds_operation(),
            old(store)@.phase == CommitPhase::Operation,
        ensures
            after_generation == self.generation(),
            final(store)@ == old(store)@.enter(CommitPhase::Idle),
            final(store)@ == (CommitModel { phase: CommitPhase::Idle, ..old(store)@ }),
    {
        store.end_operation();
        self.commit_generation
    }

    /// Ends the operation, unless that was done.
    pub fn release(&mut self, store: &mut CommitState)
        requires
            old(self).holds_operation() ==> old(store)@.phase == CommitPhase::Operation,
        ensures
            !final(self).holds_operation(),
            final(self).generation() == old(self).generation(),
            final(store)@ == if old(self).holds_operation() {
                old(store)@.enter(CommitPhase::Idle)
            } else {
                old(store)@
            },
            old(self).holds_operation() ==> final(store)@ == (CommitModel {
                phase: CommitPhase::Idle,
                ..old(store)@
            }),
    {
        if self.give_up() {
            store.end_operation();
        }
    }
}

} // verus!
