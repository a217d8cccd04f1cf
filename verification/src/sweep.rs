//! The sweep driver: runs a benchmark once for every point of a sweep,
//! between the start and the end of the CPU sampler.
//!
//! The harness around a `SweepDriver` asks which action is pending, performs
//! it and reports how it went. The driver holds the points and collects the
//! results, and decides what comes next: the sampler is started before the
//! first point and aborted after the last, and the results are written
//! after that.

use crate::command::CPUStatsCommand;
use crate::points::{
    lemma_standard_powers, percentage_point, percentage_points, power_of_ten, result_at,
    shape_point, size_point, transaction_shape_points, transaction_size_points, BenchmarkResult,
    SweepPoint, PERCENTAGE_SWEEP_SIZE, SHAPE_SWEEP_POWER, SIZE_SWEEP_LARGEST, STANDARD_COUNT,
    STANDARD_WRITE_PERCENTAGE,
};
use vstd::prelude::*;

verus! {

/// Where a sweep stands: the action it is waiting for, or how it ended.
#[derive(Clone, Copy, Debug, PartialEq, Eq, Structural)]
pub enum SweepStage {
    /// Waiting for the sampler and its control channel to be set up.
    Preparing,
    /// Waiting for the benchmark at the point with this index.
    Running(usize),
    /// Waiting for `Abort` to be sent to the sampler.
    Aborting,
    /// Waiting for the results to be written.
    Writing,
    /// Done: every point was measured and the results are written.
    Finished,
    /// Abandoned: an action failed, and nothing is written.
    Failed,
}

/// How the pending action of a sweep went.
#[derive(Clone, Copy, Debug, PartialEq, Eq, Structural)]
pub enum SweepEvent {
    /// The action was performed.
    Done,
    /// The benchmark ran and took so many whole milliseconds.
    Measured(u128),
    /// The action failed.
    Failed,
}

/// What the harness around a sweep is asked to do.
#[derive(Clone, Copy, Debug, PartialEq, Eq, Structural)]
pub enum SweepAction {
    /// Create the control channel and start the sampler on it.
    StartSampler,
    /// Run the benchmark with these parameters and report its duration.
    Run(SweepPoint),
    /// Send this command to the sampler.
    Signal(CPUStatsCommand),
    /// Write the results to their file.
    Write,
    /// Nothing is left to do.
    Finish,
    /// Nothing is left to do: the sweep failed, and no file is written.
    Abandon,
}

/// What a sweep is: its points, the results measured so far, and its stage.
pub struct SweepModel {
    pub points: Seq<SweepPoint>,
    pub results: Seq<BenchmarkResult>,
    pub stage: SweepStage,
}

impl SweepModel {
    /// A sweep over `points` of which nothing has been done yet.
    pub open spec fn fresh(points: Seq<SweepPoint>) -> SweepModel {
        SweepModel { points, results: Seq::empty(), stage: SweepStage::Preparing }
    }

    /// The stage that follows the benchmark at the point with index
    /// `index`: the next point, or the end of the sampling.
    pub open spec fn stage_past(self, index: int) -> SweepStage {
        if index + 1 < self.points.len() {
            SweepStage::Running((index + 1) as usize)
        } else {
            SweepStage::Aborting
        }
    }

    /// The sweep after `event`. An action that was performed leads to the
    /// next one: the sampler is started first, then every point is run in
    /// order and its result appended, then the sampler is aborted, then the
    /// results are written. A failure, or an event that does not answer the
    /// pending action, abandons the sweep. The two final stages are never
    /// left.
    pub open spec fn after(self, event: SweepEvent) -> SweepModel {
        match (self.stage, event) {
            (SweepStage::Finished, _) => self,
            (SweepStage::Preparing, SweepEvent::Done) => SweepModel {
                stage: self.stage_past(-1),
                ..self
            },
            (SweepStage::Running(index), SweepEvent::Measured(duration_ms)) => SweepModel {
                results: self.results.push(result_at(self.points[index as int], duration_ms)),
                stage: self.stage_past(index as int),
                ..self
            },
            (SweepStage::Aborting, SweepEvent::Done) => SweepModel {
                stage: SweepStage::Writing,
                ..self
            },
            (SweepStage::Writing, SweepEvent::Done) => SweepModel {
                stage: SweepStage::Finished,
                ..self
            },
            _ => SweepModel { stage: SweepStage::Failed, ..self },
        }
    }

    /// The action that the sweep asks for.
    pub open spec fn action(self) -> SweepAction {
        match self.stage {
            SweepStage::Preparing => SweepAction::StartSampler,
            SweepStage::Running(index) => SweepAction::Run(self.points[index as int]),
            SweepStage::Aborting => SweepAction::Signal(CPUStatsCommand::Abort),
            SweepStage::Writing => SweepAction::Write,
            SweepStage::Finished => SweepAction::Finish,
            SweepStage::Failed => SweepAction::Abandon,
        }
    }

    /// The invariant of a sweep. The results so far are those of the first
    /// points, in order. While points are run, the next point is the first
    /// without a result. Once the sampler is to be aborted, every point has
    /// its result.
    pub open spec fn well_formed(self) -> bool {
        &&& self.points.len() <= usize::MAX
        &&& self.results.len() <= self.points.len()
        &&& forall|k: int|
            0 <= k < self.results.len() ==> (#[trigger] self.results[k]).point() == self.points[k]
        &&& match self.stage {
            SweepStage::Preparing => self.results.len() == 0,
            SweepStage::Running(index) => index < self.points.len() && self.results.len() == index,
            SweepStage::Aborting => self.results.len() == self.points.len(),
            SweepStage::Writing => self.results.len() == self.points.len(),
            SweepStage::Finished => self.results.len() == self.points.len(),
            SweepStage::Failed => true,
        }
    }

    /// The position of the sweep in the order of its actions.
    pub open spec fn position(self) -> nat {
        stage_position(self.stage, self.points.len())
    }
}

/// The position of a stage in the order of the actions of a sweep over
/// `points` points.
pub open spec fn stage_position(stage: SweepStage, points: nat) -> nat {
    match stage {
        SweepStage::Preparing => 0,
        SweepStage::Running(index) => 1 + index as nat,
        SweepStage::Aborting => 1 + points,
        SweepStage::Writing => 2 + points,
        SweepStage::Finished => 3 + points,
        SweepStage::Failed => 4 + points,
    }
}

/// The sweep over `points` after a sequence of events.
pub open spec fn sweep_after(points: Seq<SweepPoint>, events: Seq<SweepEvent>) -> SweepModel
    decreases events.len(),
{
    if events.len() == 0 {
        SweepModel::fresh(points)
    } else {
        sweep_after(points, events.drop_last()).after(events.last())
    }
}

/// True when the benchmark function accepts the parameters of `point`.
pub open spec fn accepts<F: Fn(i32, usize, usize) -> u128>(
    function_under_test: F,
    point: SweepPoint,
) -> bool {
    call_requires(
        function_under_test,
        (point.write_percentage, point.transaction_size, point.transaction_count),
    )
}

/// True when `result` is what the benchmark function can return for
/// `point`: it carries the point's parameters, and its duration is one that
/// the function's own contract allows for them.
pub open spec fn measured_by<F: Fn(i32, usize, usize) -> u128>(
    function_under_test: F,
    point: SweepPoint,
    result: BenchmarkResult,
) -> bool {
    &&& result.point() == point
    &&& call_ensures(
        function_under_test,
        (point.write_percentage, point.transaction_size, point.transaction_count),
        result.duration_ms,
    )
}

/// A sweep: an ordered list of points, the results measured for them so
/// far, and the progress through the protocol of the driver.
///
/// The harness around a sweep asks which action is pending, performs it and
/// reports how it went. The sampler is started before the first point and
/// aborted after the last; the results are written after that.
pub struct SweepDriver {
    points: Vec<SweepPoint>,
    results: Vec<BenchmarkResult>,
    stage: SweepStage,
}

impl View for SweepDriver {
    type V = SweepModel;

    closed spec fn view(&self) -> SweepModel {
        SweepModel { points: self.points@, results: self.results@, stage: self.stage }
    }
}

impl SweepDriver {
    /// A sweep over `points`, with nothing done yet.
    pub fn new(points: Vec<SweepPoint>) -> (driver: SweepDriver)
        ensures
            driver@ == SweepModel::fresh(points@),
            driver@.well_formed(),
    {
        assert(points@.len() == points.len());
        SweepDriver { points, results: Vec::new(), stage: SweepStage::Preparing }
    }

    /// The stage of the sweep.
    pub fn stage(&self) -> (stage: SweepStage)
        ensures
            stage == self@.stage,
    {
        self.stage
    }

    /// The points of the sweep.
    pub fn points(&self) -> (points: &Vec<SweepPoint>)
        ensures
            points@ == self@.points,
    {
        &self.points
    }

    /// The results measured so far, in the order of their points.
    pub fn results(&self) -> (results: &Vec<BenchmarkResult>)
        ensures
            results@ == self@.results,
    {
        &self.results
    }

    /// The action that the sweep is waiting for.
    pub fn pending(&self) -> (action: SweepAction)
        requires
            self@.well_formed(),
        ensures
            action == self@.action(),
    {
        match self.stage {
            SweepStage::Preparing => SweepAction::StartSampler,
            SweepStage::Running(index) => SweepAction::Run(self.points[index]),
            SweepStage::Aborting => SweepAction::Signal(CPUStatsCommand::Abort),
            SweepStage::Writing => SweepAction::Write,
            SweepStage::Finished => SweepAction::Finish,
            SweepStage::Failed => SweepAction::Abandon,
        }
    }

    /// The stage after the point with index `index - 1`.
    fn stage_from(&self, index: usize) -> (stage: SweepStage)
        requires
            index <= self@.points.len(),
        ensures
            stage == self@.stage_past(index - 1),
    {
        if index < self.points.len() {
            SweepStage::Running(index)
        } else {
            SweepStage::Aborting
        }
    }

    /// Takes how the pending action went and moves to the next stage.
    pub fn advance(&mut self, event: SweepEvent)
        requires
            old(self)@.well_formed(),
        ensures
            final(self)@ == old(self)@.after(event),
            final(self)@.well_formed(),
    {
        match (self.stage, event) {
            (SweepStage::Finished, _) => {},
            (SweepStage::Preparing, SweepEvent::Done) => {
                self.stage = self.stage_from(0);
            },
            (SweepStage::Running(index), SweepEvent::Measured(duration_ms)) => {
                let point = self.points[index];
                self.results.push(
                    BenchmarkResult {
                        duration_ms,
                        write_percentage: point.write_percentage,
                        transaction_size: point.transaction_size,
                        transaction_count: point.transaction_count,
                    },
                );
                self.stage = self.stage_from(index + 1);
            },
            (SweepStage::Aborting, SweepEvent::Done) => {
                self.stage = SweepStage::Writing;
            },
            (SweepStage::Writing, SweepEvent::Done) => {
                self.stage = SweepStage::Finished;
            },
            _ => {
                self.stage = SweepStage::Failed;
            },
        }
    }

    /// Runs the benchmark function at every point that is still to be run,
    /// in order, and records each duration as `advance` does for a
    /// measurement. A sweep that is not waiting for a benchmark is left as
    /// it is.
    pub fn run_points<F: Fn(i32, usize, usize) -> u128>(&mut self, function_under_test: F)
        requires
            old(self)@.well_formed(),
            old(self)@.stage is Running ==> forall|k: int|
                old(self)@.results.len() <= k < old(self)@.points.len() ==> accepts(
                    function_under_test,
                    #[trigger] old(self)@.points[k],
                ),
        ensures
            final(self)@.well_formed(),
            final(self)@.points == old(self)@.points,
            !(old(self)@.stage is Running) ==> final(self)@ == old(self)@,
            old(self)@.stage is Running ==> {
                &&& final(self)@.stage == SweepStage::Aborting
                &&& final(self)@.results.len() == old(self)@.points.len()
                &&& forall|k: int|
                    0 <= k < old(self)@.results.len() ==> final(self)@.results[k] == old(
                        self,
                    )@.results[k]
                &&& forall|k: int|
                    old(self)@.results.len() <= k < old(self)@.points.len() ==> measured_by(
                        function_under_test,
                        old(self)@.points[k],
                        #[trigger] final(self)@.results[k],
                    )
            },
    {
        loop
            invariant
                self@.well_formed(),
                self@.points == old(self)@.points,
                old(self)@.stage is Running ==> forall|k: int|
                    old(self)@.results.len() <= k < self@.points.len() ==> accepts(
                        function_under_test,
                        #[trigger] self@.points[k],
                    ),
                !(old(self)@.stage is Running) ==> self@ == old(self)@,
                old(self)@.stage is Running ==> {
                    &&& self@.stage is Running || self@.stage == SweepStage::Aborting
                    &&& old(self)@.results.len() <= self@.results.len()
                    &&& forall|k: int|
                        0 <= k < old(self)@.results.len() ==> self@.results[k] == old(
                            self,
                        )@.results[k]
                    &&& forall|k: int|
                        old(self)@.results.len() <= k < self@.results.len() ==> measured_by(
                            function_under_test,
                            self@.points[k],
                            #[trigger] self@.results[k],
                        )
                },
            ensures
                !(self@.stage is Running),
            decreases self@.points.len() - self@.results.len(),
        {
            match self.stage {
                SweepStage::Running(index) => {
                    let point = self.points[index];
                    assert(accepts(function_under_test, self@.points[index as int]));
                    let duration_ms = function_under_test(
                        point.write_percentage,
                        point.transaction_size,
                        point.transaction_count,
                    );
                    self.advance(SweepEvent::Measured(duration_ms));
                },
                _ => {
                    break ;
                },
            }
        }
    }
}

/// The standard percentage sweep: ten runs with write percentages 0, 10 and
/// so on up to 90, each with 100 transactions of 100000 operations.
pub fn create_percentage_test() -> (driver: SweepDriver)
    ensures
        driver@.well_formed(),
        driver@ == SweepModel::fresh(driver@.points),
        driver@.points.len() == 10,
        forall|k: int|
            0 <= k < 10 ==> #[trigger] driver@.points[k] == percentage_point(
                k,
                PERCENTAGE_SWEEP_SIZE,
                STANDARD_COUNT,
            ),
{
    SweepDriver::new(percentage_points(PERCENTAGE_SWEEP_SIZE, STANDARD_COUNT))
}

/// The standard transaction-shape sweep: ten million operations at 10
/// percent writes, first as transactions of 100 operations, then of 1000,
/// and so on up to transactions of one million operations.
pub fn create_transaction_size_test() -> (driver: SweepDriver)
    ensures
        driver@.well_formed(),
        driver@ == SweepModel::fresh(driver@.points),
        driver@.points.len() == 5,
        forall|k: int|
            0 <= k < 5 ==> #[trigger] driver@.points[k] == shape_point(
                STANDARD_WRITE_PERCENTAGE,
                SHAPE_SWEEP_POWER as nat,
                2,
                k as nat,
            ),
{
    proof {
        lemma_standard_powers();
    }
    SweepDriver::new(
        transaction_shape_points(
            STANDARD_WRITE_PERCENTAGE,
            SHAPE_SWEEP_POWER,
            2,
            SHAPE_SWEEP_POWER - 1,
        ),
    )
}

/// A single run: 100 transactions of 100000 operations at 10 percent
/// writes.
pub fn create_simple_test() -> (driver: SweepDriver)
    ensures
        driver@.well_formed(),
        driver@ == SweepModel::fresh(driver@.points),
        driver@.points == seq![
            SweepPoint {
                write_percentage: STANDARD_WRITE_PERCENTAGE,
                transaction_size: 100000,
                transaction_count: 100,
            },
        ],
{
    proof {
        lemma_standard_powers();
    }
    let mut points: Vec<SweepPoint> = Vec::new();
    points.push(
        SweepPoint {
            write_percentage: STANDARD_WRITE_PERCENTAGE,
            transaction_size: power_of_ten(5),
            transaction_count: power_of_ten(2),
        },
    );
    assert(points@ =~= seq![
        SweepPoint {
            write_percentage: STANDARD_WRITE_PERCENTAGE,
            transaction_size: 100000,
            transaction_count: 100,
        },
    ]);
    SweepDriver::new(points)
}

/// The standard transaction-size sweep: 100 transactions at 10 percent
/// writes, first of 10000 operations each, then of 100000, and so on up to
/// ten million.
pub fn create_transaction_big_size_test() -> (driver: SweepDriver)
    ensures
        driver@.well_formed(),
        driver@ == SweepModel::fresh(driver@.points),
        driver@.points.len() == 4,
        forall|k: int|
            0 <= k < 4 ==> #[trigger] driver@.points[k] == size_point(
                STANDARD_WRITE_PERCENTAGE,
                4,
                STANDARD_COUNT,
                k as nat,
            ),
{
    proof {
        lemma_standard_powers();
    }
    SweepDriver::new(
        transaction_size_points(STANDARD_WRITE_PERCENTAGE, 4, SIZE_SWEEP_LARGEST, STANDARD_COUNT),
    )
}

/// Every event keeps the invariant of a sweep, and moves a sweep that is
/// under way one position on or abandons it. So the order of the actions is
/// fixed: start the sampler, run the points in order, abort the sampler,
/// write the results.
pub proof fn lemma_sweep_event_moves_one_on(sweep: SweepModel, event: SweepEvent)
    requires
        sweep.well_formed(),
    ensures
        sweep.after(event).well_formed(),
        sweep.after(event).points == sweep.points,
        !(sweep.stage is Finished) && !(sweep.stage is Failed) ==> sweep.after(event).stage
            is Failed || sweep.after(event).position() == sweep.position() + 1,
{
}

/// The sampler is started before the first point is run and aborted after
/// the last, and the results are written after that.
pub proof fn lemma_sampler_spans_the_points(points: nat, index: usize)
    requires
        index < points,
    ensures
        stage_position(SweepStage::Preparing, points) < stage_position(
            SweepStage::Running(index),
            points,
        ),
        stage_position(SweepStage::Running(index), points) < stage_position(
            SweepStage::Aborting,
            points,
        ),
        stage_position(SweepStage::Aborting, points) < stage_position(SweepStage::Writing, points),
        stage_position(SweepStage::Writing, points) < stage_position(SweepStage::Finished, points),
{
}

/// A finished sweep stays finished and a failed sweep stays failed,
/// whatever event follows; and a failure abandons any sweep that has not
/// finished, so that nothing is written for it.
pub proof fn lemma_final_stages_stay(sweep: SweepModel, event: SweepEvent)
    ensures
        sweep.stage is Finished ==> sweep.after(event) == sweep,
        sweep.stage is Failed ==> sweep.after(event) == sweep,
        !(sweep.stage is Finished) ==> sweep.after(SweepEvent::Failed).stage is Failed,
        sweep.stage is Failed ==> sweep.action() == SweepAction::Abandon,
{
}

/// Whatever the events, the results of a sweep are those of its first
/// points, in order; the sampler is aborted only once every point has its
/// result, and the results are written only after that.
pub proof fn lemma_sweep_stays_well_formed(points: Seq<SweepPoint>, events: Seq<SweepEvent>)
    requires
        points.len() <= usize::MAX,
    ensures
        sweep_after(points, events).well_formed(),
        sweep_after(points, events).points == points,
        sweep_after(points, events).action() == SweepAction::Signal(CPUStatsCommand::Abort)
            ==> sweep_after(points, events).results.len() == points.len(),
        sweep_after(points, events).action() == SweepAction::Write ==> sweep_after(
            points,
            events,
        ).results.len() == points.len(),
    decreases events.len(),
{
    if events.len() > 0 {
        lemma_sweep_stays_well_formed(points, events.drop_last());
        lemma_sweep_event_moves_one_on(sweep_after(points, events.drop_last()), events.last());
    }
}

/// The events of a sweep in which the sampler starts and the first
/// benchmarks run and take the given durations.
pub open spec fn measurements(durations: Seq<u128>) -> Seq<SweepEvent> {
    seq![SweepEvent::Done] + Seq::new(
        durations.len(),
        |i: int| SweepEvent::Measured(durations[i]),
    )
}

/// The results of the first points for the given durations.
pub open spec fn results_for(points: Seq<SweepPoint>, durations: Seq<u128>) -> Seq<
    BenchmarkResult,
> {
    Seq::new(durations.len(), |i: int| result_at(points[i], durations[i]))
}

/// While every action is performed, the sweep runs the points one by one
/// in order: after the start of the sampler and the first benchmarks it
/// holds their results and asks for the next point, and after the last
/// point for the sampler to be aborted.
pub proof fn lemma_points_in_order(points: Seq<SweepPoint>, durations: Seq<u128>)
    requires
        durations.len() <= points.len() <= usize::MAX,
    ensures
        sweep_after(points, measurements(durations)) == (SweepModel {
            points,
            results: results_for(points, durations),
            stage: if durations.len() < points.len() {
                SweepStage::Running(durations.len() as usize)
            } else {
                SweepStage::Aborting
            },
        }),
    decreases durations.len(),
{
    let events = measurements(durations);
    if durations.len() == 0 {
        assert(events.drop_last() =~= Seq::<SweepEvent>::empty());
        assert(sweep_after(points, events.drop_last()) == SweepModel::fresh(points));
        assert(events.last() == SweepEvent::Done);
        assert(results_for(points, durations) =~= Seq::<BenchmarkResult>::empty());
    } else {
        let earlier = durations.drop_last();
        lemma_points_in_order(points, earlier);
        assert(events.drop_last() =~= measurements(earlier));
        assert(events.last() == SweepEvent::Measured(durations.last()));
        let before = sweep_after(points, events.drop_last());
        assert(before.stage == SweepStage::Running(earlier.len() as usize));
        assert(before.after(events.last()).results =~= results_for(points, durations));
    }
}

/// A sweep in which every action is performed finishes with one result per
/// point, in the order of the points.
pub proof fn lemma_faultless_sweep_finishes(points: Seq<SweepPoint>, durations: Seq<u128>)
    requires
        durations.len() == points.len(),
        points.len() <= usize::MAX,
    ensures
        sweep_after(
            points,
            measurements(durations).push(SweepEvent::Done).push(SweepEvent::Done),
        ) == (SweepModel {
            points,
            results: results_for(points, durations),
            stage: SweepStage::Finished,
        }),
{
    lemma_points_in_order(points, durations);
    let measured = measurements(durations);
    let aborted = measured.push(SweepEvent::Done);
    let written = aborted.push(SweepEvent::Done);
    assert(aborted.drop_last() =~= measured);
    assert(written.drop_last() =~= aborted);
    assert(sweep_after(points, aborted).stage == SweepStage::Writing);
}

} // verus!
