use heart::command::CPUStatsCommand;
use heart::run::{BenchmarkRun, RunAction, RunEvent, RunPhase};
use heart::points::{BenchmarkResult, SweepPoint};
use heart::workload::Operation;

/// Drives a run, answering every action as performed and the clock with
/// `duration`, and returns the actions in the order they were asked for.
fn drive(run: &mut BenchmarkRun, duration: u128) -> Vec<RunAction> {
    let mut actions = Vec::new();
    loop {
        let action = run.pending();
        actions.push(action);
        match action {
            RunAction::Report(_) | RunAction::Abandon => return actions,
            RunAction::ReadClock => run.advance(RunEvent::Elapsed(duration)),
            _ => run.advance(RunEvent::Done),
        }
    }
}

#[test]
fn a_new_run_waits_to_populate() {
    let run = BenchmarkRun::new(0, 4, 3);
    assert_eq!(run.phase(), RunPhase::Populating);
    assert_eq!(
        run.point(),
        SweepPoint { write_percentage: 0, transaction_size: 4, transaction_count: 3 }
    );
    assert_eq!(run.pending(), RunAction::Populate(12));
    assert_eq!(run.result(), None);
    assert_eq!(run.workload().len(), 3);
}

#[test]
fn a_run_of_writes_needs_no_baseline() {
    let run = BenchmarkRun::new(100, 4, 3);
    assert_eq!(run.pending(), RunAction::Populate(0));
    assert_eq!(run.baseline().len(), 0);
}

#[test]
fn the_baseline_covers_the_reads() {
    let run = BenchmarkRun::new(50, 20, 5);
    let reads = run.workload().reads();
    assert_eq!(run.pending(), RunAction::Populate(reads));
    let baseline = run.baseline();
    assert_eq!(baseline.len(), reads);
    for i in 0..reads {
        match baseline.operation(i) {
            Operation::Put(key, value) => {
                assert_eq!(key, &format!("first {}", i));
                assert_eq!(*value, i);
            }
            Operation::Get(_) => panic!("the baseline holds writes only"),
        }
    }
}

#[test]
fn actions_come_in_the_order_of_the_protocol() {
    let mut run = BenchmarkRun::new(100, 2, 3);
    let actions = drive(&mut run, 77);
    assert_eq!(
        actions,
        [
            RunAction::Populate(0),
            RunAction::Signal(CPUStatsCommand::Start),
            RunAction::StartClock,
            RunAction::Execute(0),
            RunAction::Execute(1),
            RunAction::Execute(2),
            RunAction::ReadClock,
            RunAction::Signal(CPUStatsCommand::Stop),
            RunAction::Release,
            RunAction::Report(BenchmarkResult {
                duration_ms: 77,
                write_percentage: 100,
                transaction_size: 2,
                transaction_count: 3,
            }),
        ]
    );
    assert_eq!(run.phase(), RunPhase::Finished(77));
}

#[test]
fn a_run_without_transactions_still_measures() {
    let mut run = BenchmarkRun::new(10, 5, 0);
    let actions = drive(&mut run, 0);
    assert_eq!(
        actions,
        [
            RunAction::Populate(0),
            RunAction::Signal(CPUStatsCommand::Start),
            RunAction::StartClock,
            RunAction::ReadClock,
            RunAction::Signal(CPUStatsCommand::Stop),
            RunAction::Release,
            RunAction::Report(BenchmarkResult {
                duration_ms: 0,
                write_percentage: 10,
                transaction_size: 5,
                transaction_count: 0,
            }),
        ]
    );
}

#[test]
fn the_result_comes_only_at_the_end() {
    let mut run = BenchmarkRun::new(30, 3, 2);
    let mut steps = 0;
    while !matches!(run.pending(), RunAction::Report(_)) {
        assert_eq!(run.result(), None);
        match run.pending() {
            RunAction::ReadClock => run.advance(RunEvent::Elapsed(1234)),
            _ => run.advance(RunEvent::Done),
        }
        steps += 1;
    }
    assert_eq!(steps, 8);
    assert_eq!(
        run.result(),
        Some(BenchmarkResult {
            duration_ms: 1234,
            write_percentage: 30,
            transaction_size: 3,
            transaction_count: 2,
        })
    );
}

#[test]
fn a_failure_abandons_the_run() {
    for failing_step in 0..8 {
        let mut run = BenchmarkRun::new(30, 3, 2);
        for _ in 0..failing_step {
            match run.pending() {
                RunAction::ReadClock => run.advance(RunEvent::Elapsed(5)),
                _ => run.advance(RunEvent::Done),
            }
        }
        run.advance(RunEvent::Failed);
        assert_eq!(run.phase(), RunPhase::Failed);
        assert_eq!(run.pending(), RunAction::Abandon);
        assert_eq!(run.result(), None);
        run.advance(RunEvent::Done);
        run.advance(RunEvent::Elapsed(9));
        assert_eq!(run.phase(), RunPhase::Failed);
        assert_eq!(run.result(), None);
    }
}

#[test]
fn an_event_that_answers_nothing_abandons_the_run() {
    let mut run = BenchmarkRun::new(30, 3, 2);
    run.advance(RunEvent::Elapsed(5));
    assert_eq!(run.phase(), RunPhase::Failed);

    let mut run = BenchmarkRun::new(30, 3, 0);
    run.advance(RunEvent::Done);
    run.advance(RunEvent::Done);
    run.advance(RunEvent::Done);
    assert_eq!(run.pending(), RunAction::ReadClock);
    run.advance(RunEvent::Done);
    assert_eq!(run.phase(), RunPhase::Failed);
}

#[test]
fn a_finished_run_stays_finished() {
    let mut run = BenchmarkRun::new(100, 1, 1);
    drive(&mut run, 3);
    for event in [RunEvent::Done, RunEvent::Elapsed(8), RunEvent::Failed] {
        run.advance(event);
        assert_eq!(run.phase(), RunPhase::Finished(3));
    }
    assert_eq!(run.result().map(|result| result.duration_ms), Some(3));
}

#[test]
fn executed_transactions_are_those_of_the_workload() {
    let mut run = BenchmarkRun::new(100, 2, 2);
    let mut executed = Vec::new();
    loop {
        match run.pending() {
            RunAction::Execute(index) => {
                for operation in run.transaction(index).operations() {
                    match operation {
                        Operation::Put(key, value) => executed.push((key.clone(), *value)),
                        Operation::Get(key) => executed.push((key.clone(), usize::MAX)),
                    }
                }
                run.advance(RunEvent::Done);
            }
            RunAction::ReadClock => run.advance(RunEvent::Elapsed(1)),
            RunAction::Report(_) => break,
            _ => run.advance(RunEvent::Done),
        }
    }
    let expected: Vec<(String, usize)> = [("00", 0), ("01", 1), ("10", 0), ("11", 1)]
        .iter()
        .map(|(key, value)| (key.to_string(), *value))
        .collect();
    assert_eq!(executed, expected);
}
