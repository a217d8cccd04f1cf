//! The protocol of one benchmark run, the same for every backend.
//!
//! A backend adapter is a loop around a `BenchmarkRun`: it asks which
//! action is pending, performs it against its backend, its clock or the
//! sampler's channel, and reports how it went. The run decides what comes
//! next. Building the workload and storing the baseline entries come before
//! the clock starts; the sampler is told to start before it and to stop
//! after it.

use crate::command::CPUStatsCommand;
use crate::decision::valid_percentage;
use crate::points::{is_runnable, BenchmarkResult, SweepPoint};
use crate::workload::{
    all_reads, all_writes, baseline_key, baseline_transaction, build_workload, follows_plan,
    reads_in_all, OperationModel, Transaction, Workload,
};
use vstd::prelude::*;

verus! {

/// Where a run stands: the action it is waiting for, or how it ended.
#[derive(Clone, Copy, Debug, PartialEq, Eq, Structural)]
pub enum RunPhase {
    /// Waiting for the backend to be set up and the baseline entries stored.
    Populating,
    /// Waiting for `Start` to be sent to the sampler.
    Starting,
    /// Waiting for the start of the clock.
    StartingClock,
    /// Waiting for the transaction with this index to be executed.
    Executing(usize),
    /// Waiting for the elapsed time to be read.
    ReadingClock,
    /// Waiting for `Stop` to be sent to the sampler; holds the duration.
    Stopping(u128),
    /// Waiting for the backend's temporary resources to be released.
    Releasing(u128),
    /// Done, with the measured duration in milliseconds.
    Finished(u128),
    /// Abandoned: an action failed, and the run has no result.
    Failed,
}

/// How the pending action went.
#[derive(Clone, Copy, Debug, PartialEq, Eq, Structural)]
pub enum RunEvent {
    /// The action was performed.
    Done,
    /// The clock was read: so many whole milliseconds since its start.
    Elapsed(u128),
    /// The action failed.
    Failed,
}

/// What the adapter is asked to do.
#[derive(Clone, Copy, Debug, PartialEq, Eq, Structural)]
pub enum RunAction {
    /// Set up the backend and store this many baseline entries.
    Populate(usize),
    /// Send this command to the sampler.
    Signal(CPUStatsCommand),
    /// Take the start timestamp.
    StartClock,
    /// Execute the transaction with this index as one atomic unit.
    Execute(usize),
    /// Read the time elapsed since the start timestamp.
    ReadClock,
    /// Release what the backend created for this run alone.
    Release,
    /// Nothing is left to do: this is the result.
    Report(BenchmarkResult),
    /// Nothing is left to do: the run failed and has no result.
    Abandon,
}

/// The phase that follows `phase` on `event`, in a run of `count`
/// transactions. An action that was performed leads to the next action in
/// the fixed order. A failure, or an event that does not answer the pending
/// action, abandons the run. The two final phases are never left.
pub open spec fn advanced(phase: RunPhase, count: nat, event: RunEvent) -> RunPhase {
    match (phase, event) {
        (RunPhase::Finished(duration), _) => RunPhase::Finished(duration),
        (RunPhase::Populating, RunEvent::Done) => RunPhase::Starting,
        (RunPhase::Starting, RunEvent::Done) => RunPhase::StartingClock,
        (RunPhase::StartingClock, RunEvent::Done) => if count == 0 {
            RunPhase::ReadingClock
        } else {
            RunPhase::Executing(0)
        },
        (RunPhase::Executing(index), RunEvent::Done) => if index + 1 < count {
            RunPhase::Executing((index + 1) as usize)
        } else {
            RunPhase::ReadingClock
        },
        (RunPhase::ReadingClock, RunEvent::Elapsed(duration)) => RunPhase::Stopping(duration),
        (RunPhase::Stopping(duration), RunEvent::Done) => RunPhase::Releasing(duration),
        (RunPhase::Releasing(duration), RunEvent::Done) => RunPhase::Finished(duration),
        _ => RunPhase::Failed,
    }
}

/// The action that a run in `phase` asks for.
pub open spec fn action_in(phase: RunPhase, point: SweepPoint, reads: nat) -> RunAction {
    match phase {
        RunPhase::Populating => RunAction::Populate(reads as usize),
        RunPhase::Starting => RunAction::Signal(CPUStatsCommand::Start),
        RunPhase::StartingClock => RunAction::StartClock,
        RunPhase::Executing(index) => RunAction::Execute(index),
        RunPhase::ReadingClock => RunAction::ReadClock,
        RunPhase::Stopping(_) => RunAction::Signal(CPUStatsCommand::Stop),
        RunPhase::Releasing(_) => RunAction::Release,
        RunPhase::Finished(duration) => RunAction::Report(
            BenchmarkResult {
                duration_ms: duration,
                write_percentage: point.write_percentage,
                transaction_size: point.transaction_size,
                transaction_count: point.transaction_count,
            },
        ),
        RunPhase::Failed => RunAction::Abandon,
    }
}

/// The phase of a run of `count` transactions after a sequence of events.
pub open spec fn phase_after(count: nat, events: Seq<RunEvent>) -> RunPhase
    decreases events.len(),
{
    if events.len() == 0 {
        RunPhase::Populating
    } else {
        advanced(phase_after(count, events.drop_last()), count, events.last())
    }
}

/// The position of a phase in the order of a run of `count` transactions.
pub open spec fn position(phase: RunPhase, count: nat) -> nat {
    match phase {
        RunPhase::Populating => 0,
        RunPhase::Starting => 1,
        RunPhase::StartingClock => 2,
        RunPhase::Executing(index) => 3 + index as nat,
        RunPhase::ReadingClock => 3 + count,
        RunPhase::Stopping(_) => 4 + count,
        RunPhase::Releasing(_) => 5 + count,
        RunPhase::Finished(_) => 6 + count,
        RunPhase::Failed => 7 + count,
    }
}

/// True of a phase that a run of `count` transactions can be in: an
/// execution names a transaction of the workload.
pub open spec fn phase_in_range(phase: RunPhase, count: nat) -> bool {
    phase matches RunPhase::Executing(index) ==> index < count
}

/// What a run is: its parameters, its workload and its phase.
pub struct RunModel {
    pub point: SweepPoint,
    pub workload: Seq<Seq<OperationModel>>,
    pub phase: RunPhase,
}

/// One benchmark run: the workload, built ahead of the clock, and the
/// progress through the protocol.
pub struct BenchmarkRun {
    point: SweepPoint,
    workload: Workload,
    phase: RunPhase,
}

impl View for BenchmarkRun {
    type V = RunModel;

    closed spec fn view(&self) -> RunModel {
        RunModel { point: self.point, workload: self.workload@, phase: self.phase }
    }
}

impl BenchmarkRun {
    /// The invariant of a run: the workload follows the plan for the run's
    /// parameters, and the phase is one that the run can be in.
    pub closed spec fn well_formed(&self) -> bool {
        &&& self.workload.well_formed()
        &&& valid_percentage(self.point.write_percentage as int)
        &&& follows_plan(
            self.workload@,
            self.point.transaction_size as nat,
            self.point.transaction_count as nat,
        )
        &&& phase_in_range(self.phase, self.point.transaction_count as nat)
    }

    /// Prepares a run: builds the workload for the parameters. Nothing has
    /// been asked of the backend yet; the first pending action is to
    /// populate it.
    pub fn new(write_percentage: i32, transaction_size: usize, transaction_count: usize) -> (run:
        BenchmarkRun)
        requires
            is_runnable(SweepPoint { write_percentage, transaction_size, transaction_count }),
        ensures
            run.well_formed(),
            run@.point == (SweepPoint { write_percentage, transaction_size, transaction_count }),
            run@.phase == RunPhase::Populating,
            follows_plan(run@.workload, transaction_size as nat, transaction_count as nat),
            write_percentage == 0 ==> all_reads(run@.workload),
            write_percentage == 100 ==> all_writes(run@.workload),
    {
        let workload = build_workload(write_percentage, transaction_size, transaction_count);
        BenchmarkRun {
            point: SweepPoint { write_percentage, transaction_size, transaction_count },
            workload,
            phase: RunPhase::Populating,
        }
    }

    /// The parameters of the run.
    pub fn point(&self) -> (point: SweepPoint)
        ensures
            point == self@.point,
    {
        self.point
    }

    /// The phase of the run.
    pub fn phase(&self) -> (phase: RunPhase)
        ensures
            phase == self@.phase,
    {
        self.phase
    }

    /// The workload of the run.
    pub fn workload(&self) -> (workload: &Workload)
        ensures
            workload@ == self@.workload,
            self.well_formed() ==> workload.well_formed(),
    {
        &self.workload
    }

    /// The transaction that `Execute(index)` asks for.
    pub fn transaction(&self, index: usize) -> (transaction: &Transaction)
        requires
            index < self@.workload.len(),
        ensures
            transaction@ == self@.workload[index as int],
    {
        self.workload.transaction(index)
    }

    /// The transaction that `Populate` asks to be executed: it stores one
    /// baseline entry for every read of the workload.
    pub fn baseline(&self) -> (transaction: Transaction)
        requires
            self.well_formed(),
        ensures
            transaction@.len() == reads_in_all(self@.workload),
            forall|i: int|
                0 <= i < transaction@.len() ==> #[trigger] transaction@[i] == OperationModel::Put(
                    baseline_key(i as nat),
                    i as usize,
                ),
    {
        baseline_transaction(self.workload.reads())
    }

    /// The action that the run is waiting for.
    pub fn pending(&self) -> (action: RunAction)
        requires
            self.well_formed(),
        ensures
            action == action_in(self@.phase, self@.point, reads_in_all(self@.workload)),
    {
        match self.phase {
            RunPhase::Populating => RunAction::Populate(self.workload.reads()),
            RunPhase::Starting => RunAction::Signal(CPUStatsCommand::Start),
            RunPhase::StartingClock => RunAction::StartClock,
            RunPhase::Executing(index) => RunAction::Execute(index),
            RunPhase::ReadingClock => RunAction::ReadClock,
            RunPhase::Stopping(_) => RunAction::Signal(CPUStatsCommand::Stop),
            RunPhase::Releasing(_) => RunAction::Release,
            RunPhase::Finished(duration) => RunAction::Report(
                BenchmarkResult {
                    duration_ms: duration,
                    write_percentage: self.point.write_percentage,
                    transaction_size: self.point.transaction_size,
                    transaction_count: self.point.transaction_count,
                },
            ),
            RunPhase::Failed => RunAction::Abandon,
        }
    }

    /// Takes how the pending action went and moves to the next phase.
    pub fn advance(&mut self, event: RunEvent)
        requires
            old(self).well_formed(),
        ensures
            final(self).well_formed(),
            final(self)@ == (RunModel {
                phase: advanced(
                    old(self)@.phase,
                    old(self)@.point.transaction_count as nat,
                    event,
                ),
                ..old(self)@
            }),
    {
        let count = self.point.transaction_count;
        let next = match (self.phase, event) {
            (RunPhase::Finished(duration), _) => RunPhase::Finished(duration),
            (RunPhase::Populating, RunEvent::Done) => RunPhase::Starting,
            (RunPhase::Starting, RunEvent::Done) => RunPhase::StartingClock,
            (RunPhase::StartingClock, RunEvent::Done) => if count == 0 {
                RunPhase::ReadingClock
            } else {
                RunPhase::Executing(0)
            },
            (RunPhase::Executing(index), RunEvent::Done) => if index + 1 < count {
                RunPhase::Executing(index + 1)
            } else {
                RunPhase::ReadingClock
            },
            (RunPhase::ReadingClock, RunEvent::Elapsed(duration)) => RunPhase::Stopping(duration),
            (RunPhase::Stopping(duration), RunEvent::Done) => RunPhase::Releasing(duration),
            (RunPhase::Releasing(duration), RunEvent::Done) => RunPhase::Finished(duration),
            _ => RunPhase::Failed,
        };
        self.phase = next;
    }

    /// The result of the run, once it has finished. A run that is still
    /// under way, or that failed, has none.
    pub fn result(&self) -> (result: Option<BenchmarkResult>)
        ensures
            match self@.phase {
                RunPhase::Finished(duration) => result == Some(
                    BenchmarkResult {
                        duration_ms: duration,
                        write_percentage: self@.point.write_percentage,
                        transaction_size: self@.point.transaction_size,
                        transaction_count: self@.point.transaction_count,
                    },
                ),
                _ => result is None,
            },
    {
        match self.phase {
            RunPhase::Finished(duration) => Some(
                BenchmarkResult {
                    duration_ms: duration,
                    write_percentage: self.point.write_percentage,
                    transaction_size: self.point.transaction_size,
                    transaction_count: self.point.transaction_count,
                },
            ),
            _ => None,
        }
    }
}

/// A sequence of `length` events that each report a performed action.
pub open spec fn performed(length: nat) -> Seq<RunEvent> {
    Seq::new(length, |i: int| RunEvent::Done)
}

/// The events of a run in which every action is performed and the clock
/// reads `duration`.
pub open spec fn faultless(count: nat, duration: u128) -> Seq<RunEvent> {
    performed(3 + count).push(RunEvent::Elapsed(duration)).push(RunEvent::Done).push(
        RunEvent::Done,
    )
}

/// Every event moves a run that is under way one position on, or abandons
/// it. So the order of the actions is fixed: populate, signal `Start`, start
/// the clock, execute the transactions in the order of the workload, read
/// the clock, signal `Stop`, release.
pub proof fn lemma_each_event_moves_one_on(phase: RunPhase, count: nat, event: RunEvent)
    requires
        count <= usize::MAX,
        phase_in_range(phase, count),
        !(phase is Finished),
        !(phase is Failed),
    ensures
        phase_in_range(advanced(phase, count, event), count),
        advanced(phase, count, event) is Failed || position(advanced(phase, count, event), count)
            == position(phase, count) + 1,
{
}

/// The sampler is told to start before the clock starts, every
/// transaction is executed between the start of the clock and its reading,
/// and the sampler is told to stop only after the clock was read.
pub proof fn lemma_signals_surround_the_clock(count: nat, index: usize, duration: u128)
    requires
        index < count,
    ensures
        position(RunPhase::Populating, count) < position(RunPhase::Starting, count),
        position(RunPhase::Starting, count) < position(RunPhase::StartingClock, count),
        position(RunPhase::StartingClock, count) < position(RunPhase::Executing(index), count),
        position(RunPhase::Executing(index), count) < position(RunPhase::ReadingClock, count),
        position(RunPhase::ReadingClock, count) < position(RunPhase::Stopping(duration), count),
        position(RunPhase::Stopping(duration), count) < position(
            RunPhase::Releasing(duration),
            count,
        ),
{
}

/// A finished run stays finished and a failed run stays failed, whatever
/// event follows; and a failure abandons any run that has not finished.
pub proof fn lemma_final_phases_stay(phase: RunPhase, count: nat, event: RunEvent)
    ensures
        phase is Finished ==> advanced(phase, count, event) == phase,
        phase is Failed ==> advanced(phase, count, event) == phase,
        !(phase is Finished) ==> advanced(phase, count, RunEvent::Failed) == RunPhase::Failed,
{
}

/// While every action is performed, the run asks for the transactions one
/// by one in the order of the workload: after the three actions that come
/// before the first transaction and `index` executions, it asks for
/// transaction `index`; after the last, for the clock to be read.
pub proof fn lemma_transactions_in_order(count: nat, index: nat)
    requires
        index <= count,
        count <= usize::MAX,
    ensures
        index < count ==> phase_after(count, performed(3 + index)) == RunPhase::Executing(
            index as usize,
        ),
        index == count ==> phase_after(count, performed(3 + index)) == RunPhase::ReadingClock,
    decreases index,
{
    assert(performed(3 + index).drop_last() =~= performed((2 + index) as nat));
    if index == 0 {
        assert(performed(2).drop_last() =~= performed(1));
        assert(performed(1).drop_last() =~= performed(0));
        assert(phase_after(count, performed(0)) == RunPhase::Populating);
        assert(phase_after(count, performed(1)) == RunPhase::Starting);
        assert(phase_after(count, performed(2)) == RunPhase::StartingClock);
    } else {
        lemma_transactions_in_order(count, (index - 1) as nat);
    }
}

/// A run in which every action is performed finishes, and its duration is
/// the one that the clock read.
pub proof fn lemma_faultless_run_finishes(count: nat, duration: u128)
    requires
        count <= usize::MAX,
    ensures
        phase_after(count, faultless(count, duration)) == RunPhase::Finished(duration),
{
    lemma_transactions_in_order(count, count);
    let executed = performed(3 + count);
    let read = executed.push(RunEvent::Elapsed(duration));
    let stopped = read.push(RunEvent::Done);
    let released = stopped.push(RunEvent::Done);
    assert(read.drop_last() =~= executed);
    assert(stopped.drop_last() =~= read);
    assert(released.drop_last() =~= stopped);
    assert(phase_after(count, read) == RunPhase::Stopping(duration));
    assert(phase_after(count, stopped) == RunPhase::Releasing(duration));
}

/// A run cannot be further on than the number of its events.
proof fn lemma_position_bounded(count: nat, events: Seq<RunEvent>)
    ensures
        phase_in_range(phase_after(count, events), count),
        !(phase_after(count, events) is Failed) ==> position(phase_after(count, events), count)
            <= events.len(),
    decreases events.len(),
{
    if events.len() > 0 {
        lemma_position_bounded(count, events.drop_last());
    }
}

/// No run reports a result before every step was taken: a finished run has
/// seen an event for each of the six actions around the transactions and
/// one for each transaction.
pub proof fn lemma_result_takes_every_step(count: nat, events: Seq<RunEvent>)
    requires
        phase_after(count, events) is Finished,
    ensures
        events.len() >= count + 6,
{
    lemma_position_bounded(count, events);
}

} // verus!
