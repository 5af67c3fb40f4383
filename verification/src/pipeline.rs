//! The order of a run: the metadata document first, then one batch for each
//! latitude row in increasing order, and nothing after the first failure.
//!
//! The run itself writes nothing. It names the next thing to do, is told how
//! that went, and names the next.

use vstd::prelude::*;

verus! {

/// Where a run stands.
#[derive(Debug, Clone, Copy, PartialEq, Eq, Structural)]
pub enum Phase {
    /// The metadata document is to be written.
    Metadata,
    /// The batch of this row is to be written.
    Row(usize),
    /// Every row is written.
    Finished,
    /// Something failed; nothing more is written.
    Aborted,
}

/// What is to be done next.
#[derive(Debug, Clone, Copy, PartialEq, Eq, Structural)]
pub enum Action {
    /// Make the metadata document and write it.
    WriteMetadata,
    /// Make the documents of this row and write them as one batch.
    WriteRow(usize),
    /// End the run as a success.
    Finish,
    /// End the run as a failure.
    Abort,
}

/// How the last action went.
#[derive(Debug, Clone, Copy, PartialEq, Eq, Structural)]
pub enum Outcome {
    /// The documents were made and written.
    Written,
    /// The documents could not be made, or the write failed.
    Failed,
}

/// The state of a run.
pub struct RunState {
    /// Number of latitude rows of the grid.
    pub rows: usize,
    /// Number of rows whose batches are written.
    pub flushed: usize,
    /// Where the run stands.
    pub phase: Phase,
}

impl RunState {
    /// The count of written rows fits where the run stands.
    pub open spec fn well_formed(self) -> bool {
        match self.phase {
            Phase::Metadata => self.flushed == 0,
            Phase::Row(k) => k == self.flushed && k < self.rows,
            Phase::Finished => self.flushed == self.rows,
            Phase::Aborted => self.flushed <= self.rows,
        }
    }

    /// The state of a run at its start.
    pub open spec fn start(rows: usize) -> RunState {
        RunState { rows, flushed: 0, phase: Phase::Metadata }
    }

    /// What the run asks for in this state.
    pub open spec fn pending(self) -> Action {
        match self.phase {
            Phase::Metadata => Action::WriteMetadata,
            Phase::Row(k) => Action::WriteRow(k),
            Phase::Finished => Action::Finish,
            Phase::Aborted => Action::Abort,
        }
    }

    /// The row to write once `flushed` rows are written, or the end.
    pub open spec fn onward(rows: usize, flushed: usize) -> RunState {
        RunState {
            rows,
            flushed,
            phase: if flushed < rows {
                Phase::Row(flushed)
            } else {
                Phase::Finished
            },
        }
    }

    /// The state after the pending action went as `outcome` says. A run that
    /// is finished or aborted stays as it is.
    pub open spec fn after(self, outcome: Outcome) -> RunState {
        match (self.phase, outcome) {
            (Phase::Finished, _) => self,
            (Phase::Aborted, _) => self,
            (_, Outcome::Failed) => RunState { phase: Phase::Aborted, ..self },
            (Phase::Metadata, Outcome::Written) => RunState::onward(self.rows, 0),
            (Phase::Row(k), Outcome::Written) => RunState::onward(self.rows, (k + 1) as usize),
        }
    }

    /// The state after the actions of the run went as `outcomes` say, one
    /// after the other.
    pub open spec fn after_all(self, outcomes: Seq<Outcome>) -> RunState
        decreases outcomes.len(),
    {
        if outcomes.len() == 0 {
            self
        } else {
            self.after_all(outcomes.drop_last()).after(outcomes.last())
        }
    }
}

/// A run over the rows of a grid.
#[derive(Debug, Clone, Copy)]
pub struct Run {
    rows: usize,
    flushed: usize,
    phase: Phase,
}

impl View for Run {
    type V = RunState;

    closed spec fn view(&self) -> RunState {
        RunState { rows: self.rows, flushed: self.flushed, phase: self.phase }
    }
}

impl Run {
    #[verifier::type_invariant]
    spec fn consistent(self) -> bool {
        self@.well_formed()
    }

    /// A run over a grid of `rows` latitude rows, at its start.
    pub fn new(rows: usize) -> (run: Run)
        ensures
            run@ == RunState::start(rows),
    {
        Run { rows, flushed: 0, phase: Phase::Metadata }
    }

    /// Number of latitude rows of the grid.
    pub fn rows(&self) -> (rows: usize)
        ensures
            rows == self@.rows,
    {
        self.rows
    }

    /// Number of rows whose batches are written.
    pub fn flushed(&self) -> (flushed: usize)
        ensures
            flushed == self@.flushed,
            self@.well_formed(),
    {
        proof {
            use_type_invariant(self);
        }
        self.flushed
    }

    /// Where the run stands.
    pub fn phase(&self) -> (phase: Phase)
        ensures
            phase == self@.phase,
    {
        self.phase
    }

    /// What is to be done next.
    pub fn action(&self) -> (action: Action)
        ensures
            action == self@.pending(),
    {
        match self.phase {
            Phase::Metadata => Action::WriteMetadata,
            Phase::Row(k) => Action::WriteRow(k),
            Phase::Finished => Action::Finish,
            Phase::Aborted => Action::Abort,
        }
    }

    /// Takes note of how the pending action went, and says what is to be
    /// done next.
    pub fn step(&mut self, outcome: Outcome) -> (next: Action)
        ensures
            final(self)@ == old(self)@.after(outcome),
            next == final(self)@.pending(),
    {
        proof {
            use_type_invariant(&*self);
        }
        let rows = self.rows;
        match (self.phase, outcome) {
            (Phase::Finished, _) => {},
            (Phase::Aborted, _) => {},
            (_, Outcome::Failed) => {
                *self = Run { rows, flushed: self.flushed, phase: Phase::Aborted };
            },
            (Phase::Metadata, Outcome::Written) => {
                *self = Run {
                    rows,
                    flushed: 0,
                    phase: if 0 < rows {
                        Phase::Row(0)
                    } else {
                        Phase::Finished
                    },
                };
            },
            (Phase::Row(k), Outcome::Written) => {
                *self = Run {
                    rows,
                    flushed: k + 1,
                    phase: if k + 1 < rows {
                        Phase::Row(k + 1)
                    } else {
                        Phase::Finished
                    },
                };
            },
        }
        self.action()
    }
}

/// All of the first `n` outcomes say that the action was written.
pub open spec fn all_written(outcomes: Seq<Outcome>, n: int) -> bool {
    forall|i: int| 0 <= i < n ==> #[trigger] outcomes[i] == Outcome::Written
}

/// As long as nothing fails, the run asks for the metadata document first
/// and then for the rows in increasing order, one at a time, each after the
/// one before it is written; after the last row it is finished.
pub proof fn lemma_run_in_order(rows: usize, outcomes: Seq<Outcome>)
    requires
        all_written(outcomes, outcomes.len() as int),
    ensures
        RunState::start(rows).after_all(outcomes).well_formed(),
        outcomes.len() == 0 ==> RunState::start(rows).after_all(outcomes).pending()
            == Action::WriteMetadata,
        0 < outcomes.len() <= rows ==> RunState::start(rows).after_all(outcomes) == (RunState {
            rows,
            flushed: (outcomes.len() - 1) as usize,
            phase: Phase::Row((outcomes.len() - 1) as usize),
        }),
        outcomes.len() > rows ==> RunState::start(rows).after_all(outcomes) == (RunState {
            rows,
            flushed: rows,
            phase: Phase::Finished,
        }),
    decreases outcomes.len(),
{
    if outcomes.len() > 0 {
        lemma_run_in_order(rows, outcomes.drop_last());
    }
}

/// Whatever a run is told, it is finished only after the metadata document
/// and every row were written, none of them having failed.
pub proof fn lemma_finished_means_all_written(rows: usize, outcomes: Seq<Outcome>)
    ensures
        RunState::start(rows).after_all(outcomes).well_formed(),
        RunState::start(rows).after_all(outcomes).rows == rows,
        RunState::start(rows).after_all(outcomes).phase == Phase::Metadata ==> outcomes.len() == 0,
        RunState::start(rows).after_all(outcomes).phase matches Phase::Row(k) ==> outcomes.len()
            == k + 1 && all_written(outcomes, k + 1),
        RunState::start(rows).after_all(outcomes).phase == Phase::Finished ==> outcomes.len()
            > rows && all_written(outcomes, rows + 1),
    decreases outcomes.len(),
{
    if outcomes.len() > 0 {
        lemma_finished_means_all_written(rows, outcomes.drop_last());
        let before = RunState::start(rows).after_all(outcomes.drop_last());
        assert forall|i: int| 0 <= i < outcomes.len() - 1 implies outcomes.drop_last()[i]
            == outcomes[i] by {}
        if before.phase == Phase::Finished {
            assert forall|i: int| 0 <= i < rows + 1 implies #[trigger] outcomes[i]
                == Outcome::Written by {
                assert(outcomes.drop_last()[i] == Outcome::Written);
            }
        } else if before.phase != Phase::Aborted && outcomes.last() == Outcome::Written {
            assert forall|i: int| 0 <= i < outcomes.len() implies #[trigger] outcomes[i]
                == Outcome::Written by {
                if i < outcomes.len() - 1 {
                    assert(outcomes.drop_last()[i] == Outcome::Written);
                }
            }
        }
    }
}

/// Once a run is aborted it stays so whatever it is told: it asks for no
/// further row, and the count of written rows stays.
pub proof fn lemma_aborted_stays(run: RunState, outcomes: Seq<Outcome>)
    requires
        run.phase == Phase::Aborted,
    ensures
        run.after_all(outcomes) == run,
        run.after_all(outcomes).pending() == Action::Abort,
    decreases outcomes.len(),
{
    if outcomes.len() > 0 {
        lemma_aborted_stays(run, outcomes.drop_last());
    }
}

/// The state after one list of outcomes and then another.
pub proof fn lemma_after_all_concat(run: RunState, first: Seq<Outcome>, second: Seq<Outcome>)
    ensures
        run.after_all(first + second) == run.after_all(first).after_all(second),
    decreases second.len(),
{
    if second.len() == 0 {
        assert(first + second =~= first);
    } else {
        lemma_after_all_concat(run, first, second.drop_last());
        assert((first + second).drop_last() =~= first + second.drop_last());
        assert((first + second).last() == second.last());
    }
}

/// If the write of row `k` fails, the rows before it are written, in their
/// order, and whatever the run is told afterwards it asks for no row again:
/// the rows after `k` are never attempted.
pub proof fn lemma_failed_row_ends_the_run(
    rows: usize,
    k: usize,
    before: Seq<Outcome>,
    later: Seq<Outcome>,
)
    requires
        all_written(before, before.len() as int),
        RunState::start(rows).after_all(before).pending() == Action::WriteRow(k),
    ensures
        before.len() == k + 1,
        k < rows,
        forall|i: int|
            1 <= i <= k ==> RunState::start(rows).after_all(#[trigger] before.take(i)).pending()
                == Action::WriteRow((i - 1) as usize),
        RunState::start(rows).after_all(before.push(Outcome::Failed) + later) == (RunState {
            rows,
            flushed: k,
            phase: Phase::Aborted,
        }),
        RunState::start(rows).after_all(before.push(Outcome::Failed) + later).pending()
            == Action::Abort,
{
    lemma_run_in_order(rows, before);
    assert forall|i: int| 1 <= i <= k implies RunState::start(rows).after_all(
        #[trigger] before.take(i),
    ).pending() == Action::WriteRow((i - 1) as usize) by {
        lemma_run_in_order(rows, before.take(i));
    }
    let failed = before.push(Outcome::Failed);
    assert(failed.drop_last() =~= before);
    let aborted = RunState::start(rows).after_all(failed);
    assert(aborted == RunState { rows, flushed: k, phase: Phase::Aborted });
    lemma_after_all_concat(RunState::start(rows), failed, later);
    lemma_aborted_stays(aborted, later);
}

} // verus!
