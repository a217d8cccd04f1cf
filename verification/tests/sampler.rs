use heart::command::CPUStatsCommand;
use heart::sampler::{CpuSampler, Poll, SamplerState, Tick, TraceError};

fn strings(words: &[&str]) -> Vec<String> {
    words.iter().map(|word| word.to_string()).collect()
}

fn two_cores() -> (CpuSampler, Vec<u8>) {
    CpuSampler::new(&strings(&["cpu0", "cpu1"]))
}

#[test]
fn a_new_sampler_is_idle_and_has_a_header() {
    let (sampler, header) = two_cores();
    assert_eq!(sampler.state(), SamplerState::Idle);
    assert_eq!(sampler.columns(), 2);
    assert_eq!(header, b"cpu0,cpu1\n".to_vec());
}

#[test]
fn header_names_every_core() {
    let names: Vec<String> = (0..16).map(|i| format!("cpu{}", i)).collect();
    let (sampler, header) = CpuSampler::new(&names);
    assert_eq!(sampler.columns(), 16);
    assert_eq!(String::from_utf8(header).unwrap(), format!("{}\n", names.join(",")));
}

#[test]
fn header_quotes_where_needed() {
    let (_, header) = CpuSampler::new(&strings(&["cpu,0", "cpu \"1\"", "cpu2"]));
    assert_eq!(header, b"\"cpu,0\",\"cpu \"\"1\"\"\",cpu2\n".to_vec());
}

#[test]
fn start_begins_capturing() {
    let (mut sampler, _) = two_cores();
    assert_eq!(sampler.step(Poll::Command(CPUStatsCommand::Start)), Tick::Sample);
    assert_eq!(sampler.state(), SamplerState::Capturing);
    assert_eq!(sampler.step(Poll::Empty), Tick::Sample);
    assert_eq!(sampler.step(Poll::Command(CPUStatsCommand::Start)), Tick::Sample);
    assert_eq!(sampler.state(), SamplerState::Capturing);
}

#[test]
fn stop_ends_capturing() {
    let (mut sampler, _) = two_cores();
    sampler.step(Poll::Command(CPUStatsCommand::Start));
    assert_eq!(sampler.step(Poll::Command(CPUStatsCommand::Stop)), Tick::Rest);
    assert_eq!(sampler.state(), SamplerState::Idle);
    assert_eq!(sampler.step(Poll::Empty), Tick::Rest);
    assert_eq!(sampler.step(Poll::Command(CPUStatsCommand::Stop)), Tick::Rest);
    assert_eq!(sampler.state(), SamplerState::Idle);
}

#[test]
fn a_closed_channel_ends_capturing_but_not_the_sampler() {
    let (mut sampler, _) = two_cores();
    sampler.step(Poll::Command(CPUStatsCommand::Start));
    assert_eq!(sampler.step(Poll::Disconnected), Tick::Rest);
    assert_eq!(sampler.state(), SamplerState::Idle);
    assert_eq!(sampler.step(Poll::Disconnected), Tick::Rest);
    assert_eq!(sampler.state(), SamplerState::Idle);
}

#[test]
fn an_idle_sampler_only_rests() {
    let (mut sampler, _) = two_cores();
    for _ in 0..5 {
        assert_eq!(sampler.step(Poll::Empty), Tick::Rest);
        assert_eq!(sampler.state(), SamplerState::Idle);
    }
}

#[test]
fn abort_terminates_from_every_state() {
    let (mut idle, _) = two_cores();
    assert_eq!(idle.step(Poll::Command(CPUStatsCommand::Abort)), Tick::Finish);
    assert_eq!(idle.state(), SamplerState::Terminated);

    let (mut capturing, _) = two_cores();
    capturing.step(Poll::Command(CPUStatsCommand::Start));
    assert_eq!(capturing.step(Poll::Command(CPUStatsCommand::Abort)), Tick::Finish);
    assert_eq!(capturing.state(), SamplerState::Terminated);

    assert_eq!(capturing.step(Poll::Command(CPUStatsCommand::Abort)), Tick::Finish);
    assert_eq!(capturing.state(), SamplerState::Terminated);
}

#[test]
fn a_terminated_sampler_stays_terminated() {
    let (mut sampler, _) = two_cores();
    sampler.step(Poll::Command(CPUStatsCommand::Abort));
    for polled in [
        Poll::Command(CPUStatsCommand::Start),
        Poll::Command(CPUStatsCommand::Stop),
        Poll::Command(CPUStatsCommand::Abort),
        Poll::Empty,
        Poll::Disconnected,
    ] {
        assert_eq!(sampler.step(polled), Tick::Finish);
        assert_eq!(sampler.state(), SamplerState::Terminated);
    }
}

#[test]
fn rows_are_recorded_while_capturing() {
    let (mut sampler, _) = two_cores();
    sampler.step(Poll::Command(CPUStatsCommand::Start));
    assert_eq!(sampler.record_row(&strings(&["1.5", "22.25"])), Ok(b"1.5,22.25\n".to_vec()));
    assert_eq!(sampler.record_row(&strings(&["0", "100"])), Ok(b"0,100\n".to_vec()));
    assert_eq!(sampler.state(), SamplerState::Capturing);
}

#[test]
fn no_row_is_recorded_while_idle() {
    let (mut sampler, _) = two_cores();
    assert_eq!(sampler.record_row(&strings(&["1", "2"])), Err(TraceError::NotCapturing));
    sampler.step(Poll::Command(CPUStatsCommand::Start));
    sampler.step(Poll::Command(CPUStatsCommand::Stop));
    assert_eq!(sampler.record_row(&strings(&["1", "2"])), Err(TraceError::NotCapturing));
    assert_eq!(sampler.state(), SamplerState::Idle);
}

#[test]
fn no_row_is_recorded_after_abort() {
    let (mut sampler, _) = two_cores();
    sampler.step(Poll::Command(CPUStatsCommand::Start));
    sampler.step(Poll::Command(CPUStatsCommand::Abort));
    assert_eq!(sampler.record_row(&strings(&["1", "2"])), Err(TraceError::NotCapturing));
    assert_eq!(sampler.state(), SamplerState::Terminated);
}

#[test]
fn a_row_has_one_reading_per_core() {
    let (mut sampler, _) = two_cores();
    sampler.step(Poll::Command(CPUStatsCommand::Start));
    assert_eq!(sampler.record_row(&strings(&["1"])), Err(TraceError::WrongWidth));
    assert_eq!(sampler.record_row(&strings(&["1", "2", "3"])), Err(TraceError::WrongWidth));
    assert_eq!(sampler.record_row(&strings(&[])), Err(TraceError::WrongWidth));
    assert_eq!(sampler.state(), SamplerState::Capturing);
    assert_eq!(sampler.record_row(&strings(&["1", "2"])), Ok(b"1,2\n".to_vec()));
}

#[test]
fn an_idle_sampler_reports_idleness_before_width() {
    let (mut sampler, _) = two_cores();
    assert_eq!(sampler.record_row(&strings(&["1"])), Err(TraceError::NotCapturing));
}

#[test]
fn abort_after_start_leaves_whole_lines() {
    let (mut sampler, header) = two_cores();
    let mut trace = header;
    let polls = [
        Poll::Empty,
        Poll::Command(CPUStatsCommand::Start),
        Poll::Empty,
        Poll::Empty,
        Poll::Command(CPUStatsCommand::Abort),
        Poll::Empty,
    ];
    let mut finished = false;
    for (tick, polled) in polls.iter().enumerate() {
        match sampler.step(*polled) {
            Tick::Sample => {
                assert!(!finished);
                let row = strings(&[&format!("{}.5", tick), "0"]);
                trace.extend(sampler.record_row(&row).unwrap());
            }
            Tick::Rest => assert!(!finished),
            Tick::Finish => finished = true,
        }
    }
    assert!(finished);
    assert_eq!(sampler.state(), SamplerState::Terminated);
    let text = String::from_utf8(trace).unwrap();
    assert_eq!(text, "cpu0,cpu1\n1.5,0\n2.5,0\n3.5,0\n");
    assert!(text.ends_with('\n'));
    let lines: Vec<&str> = text.lines().collect();
    assert_eq!(lines.len(), 4);
    assert!(lines.iter().all(|line| line.split(',').count() == 2));
}

#[test]
fn a_run_of_start_and_stop_records_between_them() {
    let (mut sampler, _) = two_cores();
    let polls = [
        Poll::Empty,
        Poll::Command(CPUStatsCommand::Start),
        Poll::Empty,
        Poll::Command(CPUStatsCommand::Stop),
        Poll::Empty,
        Poll::Command(CPUStatsCommand::Start),
        Poll::Command(CPUStatsCommand::Stop),
        Poll::Command(CPUStatsCommand::Abort),
    ];
    let ticks: Vec<Tick> = polls.iter().map(|polled| sampler.step(*polled)).collect();
    assert_eq!(
        ticks,
        [
            Tick::Rest,
            Tick::Sample,
            Tick::Sample,
            Tick::Rest,
            Tick::Rest,
            Tick::Sample,
            Tick::Rest,
            Tick::Finish,
        ]
    );
}

#[test]
fn a_sampler_without_cores() {
    let (mut sampler, header) = CpuSampler::new(&Vec::new());
    assert_eq!(sampler.columns(), 0);
    assert_eq!(header, b"\"\"\n".to_vec());
    sampler.step(Poll::Command(CPUStatsCommand::Start));
    assert_eq!(sampler.record_row(&Vec::new()), Ok(b"\"\"\n".to_vec()));
}
