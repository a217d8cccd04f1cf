//! The CPU sampler: a state machine that a polling loop drives, one tick at
//! a time.
//!
//! The loop belongs to the caller. In every tick it polls the control
//! channel without waiting, hands what it found to `CpuSampler::step` and
//! does what the returned `Tick` says. The sampler decides; it reads no
//! clock, no channel and no file.

use crate::command::CPUStatsCommand;
use crate::report::{csv_line, is_whole_line, record_line, texts};
use vstd::prelude::*;

verus! {

/// The state of the sampler.
#[derive(Clone, Copy, Debug, PartialEq, Eq, Structural)]
pub enum SamplerState {
    /// Polling for commands, recording nothing.
    Idle,
    /// Recording one row per tick.
    Capturing,
    /// Done: the trace is closed and the loop has ended.
    Terminated,
}

/// What a poll of the control channel found.
#[derive(Clone, Copy, Debug, PartialEq, Eq, Structural)]
pub enum Poll {
    /// A command was pending.
    Command(CPUStatsCommand),
    /// Nothing was pending.
    Empty,
    /// The owner of the channel has closed it.
    Disconnected,
}

/// What the loop does in a tick, after the poll.
#[derive(Clone, Copy, Debug, PartialEq, Eq, Structural)]
pub enum Tick {
    /// Take a snapshot of all cores, append it as one row, then sleep.
    Sample,
    /// Sleep, and nothing else.
    Rest,
    /// Flush and close the trace, and leave the loop.
    Finish,
}

/// Why a row was not recorded.
#[derive(Clone, Copy, Debug, PartialEq, Eq, Structural)]
pub enum TraceError {
    /// The sampler is not capturing.
    NotCapturing,
    /// The row does not have one reading per core.
    WrongWidth,
}

/// The state after a poll. `Abort` terminates from any state, and a
/// terminated sampler stays terminated. `Start` begins capturing. `Stop`
/// ends it, and so does the loss of the channel. An empty poll changes
/// nothing.
pub open spec fn next_state(state: SamplerState, polled: Poll) -> SamplerState {
    match state {
        SamplerState::Terminated => SamplerState::Terminated,
        _ => match polled {
            Poll::Command(CPUStatsCommand::Abort) => SamplerState::Terminated,
            Poll::Command(CPUStatsCommand::Start) => SamplerState::Capturing,
            Poll::Command(CPUStatsCommand::Stop) => SamplerState::Idle,
            Poll::Disconnected => SamplerState::Idle,
            Poll::Empty => state,
        },
    }
}

/// What a tick does in a given state.
pub open spec fn tick_in(state: SamplerState) -> Tick {
    match state {
        SamplerState::Idle => Tick::Rest,
        SamplerState::Capturing => Tick::Sample,
        SamplerState::Terminated => Tick::Finish,
    }
}

/// The state after a sequence of polls, starting idle.
pub open spec fn state_after(polls: Seq<Poll>) -> SamplerState
    decreases polls.len(),
{
    if polls.len() == 0 {
        SamplerState::Idle
    } else {
        next_state(state_after(polls.drop_last()), polls.last())
    }
}

/// The number of rows that the ticks of a sequence of polls ask for.
pub open spec fn rows_after(polls: Seq<Poll>) -> nat
    decreases polls.len(),
{
    if polls.len() == 0 {
        0
    } else {
        rows_after(polls.drop_last()) + if tick_in(state_after(polls)) == Tick::Sample {
            1nat
        } else {
            0nat
        }
    }
}

/// What a sampler is: its state, the number of cores, and the lines of its
/// trace so far, the header apart from the rows.
pub struct SamplerModel {
    pub state: SamplerState,
    pub columns: nat,
    pub header: Seq<u8>,
    pub rows: Seq<Seq<u8>>,
}

impl SamplerModel {
    /// The lines of the trace in the order they were handed out. The header
    /// is always the first.
    pub open spec fn trace(self) -> Seq<Seq<u8>> {
        seq![self.header] + self.rows
    }

    /// True when the header and every row end with a line feed, so that the
    /// trace holds whole lines only.
    pub open spec fn holds_whole_lines(self) -> bool {
        &&& is_whole_line(self.header)
        &&& forall|i: int| 0 <= i < self.rows.len() ==> is_whole_line(#[trigger] self.rows[i])
    }
}

/// The sampler of one benchmark run.
pub struct CpuSampler {
    state: SamplerState,
    columns: usize,
    header: Ghost<Seq<u8>>,
    rows: Ghost<Seq<Seq<u8>>>,
}

impl View for CpuSampler {
    type V = SamplerModel;

    closed spec fn view(&self) -> SamplerModel {
        SamplerModel {
            state: self.state,
            columns: self.columns as nat,
            header: self.header@,
            rows: self.rows@,
        }
    }
}

impl CpuSampler {
    /// Creates an idle sampler for cores with the given names and returns it
    /// with the header line of its trace, one field per core.
    pub fn new(core_names: &Vec<String>) -> (created: (CpuSampler, Vec<u8>))
        ensures
            created.0@ == (SamplerModel {
                state: SamplerState::Idle,
                columns: core_names@.len(),
                header: csv_line(texts(core_names@)),
                rows: Seq::empty(),
            }),
            created.1@ == csv_line(texts(core_names@)),
            created.0@.holds_whole_lines(),
    {
        let header = record_line(core_names);
        let sampler = CpuSampler {
            state: SamplerState::Idle,
            columns: core_names.len(),
            header: Ghost(header@),
            rows: Ghost(Seq::empty()),
        };
        (sampler, header)
    }

    /// The current state.
    pub fn state(&self) -> (state: SamplerState)
        ensures
            state == self@.state,
    {
        self.state
    }

    /// The number of cores, which is the number of fields in every line of
    /// the trace.
    pub fn columns(&self) -> (columns: usize)
        ensures
            columns == self@.columns,
    {
        self.columns
    }

    /// Takes what the poll of this tick found and says what the tick does.
    /// The state changes as `next_state` says; the trace does not change.
    pub fn step(&mut self, polled: Poll) -> (tick: Tick)
        ensures
            final(self)@ == (SamplerModel {
                state: next_state(old(self)@.state, polled),
                ..old(self)@
            }),
            tick == tick_in(final(self)@.state),
    {
        let state = match self.state {
            SamplerState::Terminated => SamplerState::Terminated,
            _ => match polled {
                Poll::Command(CPUStatsCommand::Abort) => SamplerState::Terminated,
                Poll::Command(CPUStatsCommand::Start) => SamplerState::Capturing,
                Poll::Command(CPUStatsCommand::Stop) => SamplerState::Idle,
                Poll::Disconnected => SamplerState::Idle,
                Poll::Empty => self.state,
            },
        };
        self.state = state;
        match state {
            SamplerState::Idle => Tick::Rest,
            SamplerState::Capturing => Tick::Sample,
            SamplerState::Terminated => Tick::Finish,
        }
    }

    /// Records the snapshot of a tick: one reading per core, already as
    /// text. Returns the line to append to the trace.
    ///
    /// A row is recorded only while capturing, and only with one reading per
    /// core. In every other case the sampler is left as it was and the
    /// error says why.
    pub fn record_row(&mut self, readings: &Vec<String>) -> (line: Result<Vec<u8>, TraceError>)
        ensures
            old(self)@.state != SamplerState::Capturing ==> line == Err::<Vec<u8>, TraceError>(
                TraceError::NotCapturing,
            ),
            old(self)@.state == SamplerState::Capturing && readings@.len() != old(self)@.columns
                ==> line == Err::<Vec<u8>, TraceError>(TraceError::WrongWidth),
            old(self)@.state == SamplerState::Capturing && readings@.len() == old(self)@.columns
                ==> line is Ok,
            line is Err ==> final(self)@ == old(self)@,
            line matches Ok(bytes) ==> {
                &&& bytes@ == csv_line(texts(readings@))
                &&& is_whole_line(bytes@)
                &&& final(self)@ == (SamplerModel {
                    rows: old(self)@.rows.push(bytes@),
                    ..old(self)@
                })
            },
            old(self)@.holds_whole_lines() ==> final(self)@.holds_whole_lines(),
    {
        match self.state {
            SamplerState::Capturing => {
                if readings.len() != self.columns {
                    return Err(TraceError::WrongWidth);
                }
                let bytes = record_line(readings);
                self.rows = Ghost(self.rows@.push(bytes@));
                Ok(bytes)
            },
            _ => Err(TraceError::NotCapturing),
        }
    }
}

/// A tick records a row exactly when the sampler is capturing after the
/// poll: never while idle, never once terminated.
pub proof fn lemma_rows_only_while_capturing(state: SamplerState, polled: Poll)
    ensures
        tick_in(next_state(state, polled)) == Tick::Sample <==> next_state(state, polled)
            == SamplerState::Capturing,
        next_state(state, polled) == SamplerState::Idle ==> tick_in(next_state(state, polled))
            == Tick::Rest,
{
}

/// `Abort` terminates the sampler from any state, and the tick that polls
/// it finishes the trace. In particular `Abort` right after `Start`, with no
/// `Stop` in between, ends the same way.
pub proof fn lemma_abort_terminates(state: SamplerState)
    ensures
        next_state(state, Poll::Command(CPUStatsCommand::Abort)) == SamplerState::Terminated,
        tick_in(next_state(state, Poll::Command(CPUStatsCommand::Abort))) == Tick::Finish,
{
}

/// Once terminated, the sampler stays terminated whatever is polled.
pub proof fn lemma_terminated_is_final(polled: Poll)
    ensures
        next_state(SamplerState::Terminated, polled) == SamplerState::Terminated,
{
}

/// After an `Abort` no further row is asked for: however the polls go on,
/// the state stays terminated and the number of rows stays what it was when
/// the `Abort` was polled.
pub proof fn lemma_no_rows_after_abort(before: Seq<Poll>, after: Seq<Poll>)
    ensures
        state_after(before.push(Poll::Command(CPUStatsCommand::Abort)) + after)
            == SamplerState::Terminated,
        rows_after(before.push(Poll::Command(CPUStatsCommand::Abort)) + after) == rows_after(
            before,
        ),
    decreases after.len(),
{
    let aborted = before.push(Poll::Command(CPUStatsCommand::Abort));
    assert(aborted.drop_last() =~= before);
    if after.len() == 0 {
        assert(aborted + after =~= aborted);
    } else {
        lemma_no_rows_after_abort(before, after.drop_last());
        assert((aborted + after).drop_last() =~= aborted + after.drop_last());
        assert((aborted + after).last() == after.last());
    }
}

/// Without a `Start` no row is asked for: polls that hold no `Start` leave
/// the sampler idle or terminated, and the trace holds its header alone.
pub proof fn lemma_no_rows_without_start(polls: Seq<Poll>)
    requires
        forall|i: int| 0 <= i < polls.len() ==> polls[i] != Poll::Command(CPUStatsCommand::Start),
    ensures
        state_after(polls) != SamplerState::Capturing,
        rows_after(polls) == 0,
    decreases polls.len(),
{
    if polls.len() > 0 {
        lemma_no_rows_without_start(polls.drop_last());
        assert(polls.last() == polls[polls.len() - 1]);
    }
}

/// The trace of a sampler always begins with its header, and every data row
/// comes after it.
pub proof fn lemma_header_comes_first(sampler: SamplerModel)
    ensures
        sampler.trace().len() == 1 + sampler.rows.len(),
        sampler.trace()[0] == sampler.header,
        forall|i: int| 0 <= i < sampler.rows.len() ==> sampler.trace()[i + 1] == sampler.rows[i],
{
}

/// A trace of whole lines leaves no partial row, wherever it is cut off
/// between two lines: every line of it ends with a line feed.
pub proof fn lemma_no_partial_row(sampler: SamplerModel)
    requires
        sampler.holds_whole_lines(),
    ensures
        forall|i: int|
            0 <= i < sampler.trace().len() ==> is_whole_line(#[trigger] sampler.trace()[i]),
{
    assert forall|i: int| 0 <= i < sampler.trace().len() implies is_whole_line(
        #[trigger] sampler.trace()[i],
    ) by {
        if i > 0 {
            assert(sampler.trace()[i] == sampler.rows[i - 1]);
        }
    }
}

} // verus!
