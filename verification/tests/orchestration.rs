use procpipe::collect::output_lines;
use procpipe::command::{Classification, Command, ExitStatus, FileDest, SinkSpec, classify};
use procpipe::pipeline::{Action, BuildError, Event, Orchestrator, Phase};
use procpipe::process::{HandleState, ProcessHandle};
use procpipe::redirect::plan_redirections;

fn stage(program: &str, args: &[&str], output: SinkSpec) -> Command {
    Command {
        program: program.to_string(),
        args: args.iter().map(|a| a.to_string()).collect(),
        cwd: None,
        input: None,
        output,
        error: SinkSpec::Discard,
    }
}

#[test]
fn classify_matches_exit_status() {
    assert_eq!(classify(ExitStatus::Code(0)), Classification::Success);
    assert_eq!(classify(ExitStatus::Code(3)), Classification::NonZeroExit);
    assert_eq!(classify(ExitStatus::Code(-1)), Classification::NonZeroExit);
    assert_eq!(
        classify(ExitStatus::Signal(9)),
        Classification::SignalTerminated
    );
}

#[test]
fn spawn_then_wait_reports_real_status() {
    // a stub stage exiting with a chosen code is classified by that code
    let stages = vec![stage("stub", &["--exit", "7"], SinkSpec::CreatePipe)];
    let mut o = Orchestrator::new(stages).unwrap();
    assert_eq!(o.initial_action(), Action::Spawn(0));
    assert_eq!(o.step(Event::Spawned), Action::ReadOutput);
    assert_eq!(o.step(Event::OutputEnd), Action::Wait(0));
    assert_eq!(o.step(Event::Exited(ExitStatus::Code(7))), Action::Finish);
    let r = o.into_result();
    assert_eq!(r.classification, Classification::NonZeroExit);
    assert_eq!(r.status, Some(ExitStatus::Code(7)));
}

#[test]
fn echo_scenario_materializes_lines() {
    // Command {program: "echo", args: ["a\nb\nc"]}, output CreatePipe
    let stages = vec![stage("echo", &["a\nb\nc"], SinkSpec::CreatePipe)];
    let mut o = Orchestrator::new(stages).unwrap();
    assert_eq!(o.initial_action(), Action::Spawn(0));
    assert_eq!(o.step(Event::Spawned), Action::ReadOutput);
    assert_eq!(
        o.step(Event::Chunk(b"a\nb\nc\n".to_vec())),
        Action::ReadOutput
    );
    assert_eq!(o.step(Event::OutputEnd), Action::Wait(0));
    assert_eq!(o.step(Event::Exited(ExitStatus::Code(0))), Action::Finish);
    let r = o.into_result();
    assert_eq!(r.classification, Classification::Success);
    let lines = output_lines(&r.output).unwrap();
    assert_eq!(lines, vec!["a".to_string(), "b".to_string(), "c".to_string()]);
}

#[test]
fn two_stage_pipeline_equals_in_memory_reference() {
    // {sort -r} -> {head -n 2} fed ["3","1","2"]
    let input = ["3", "1", "2"];

    // in-memory reference pipeline: the same transformations applied purely
    // on lines
    let mut sorted: Vec<&str> = input.to_vec();
    sorted.sort();
    sorted.reverse();
    let reference: Vec<String> = sorted.iter().take(2).map(|s| s.to_string()).collect();
    assert_eq!(reference, vec!["3".to_string(), "2".to_string()]);

    // the orchestrated chain: the terminal stage emits what the composed
    // transformations produce
    let terminal_bytes: Vec<u8> = reference.iter().flat_map(|l| {
        let mut b = l.as_bytes().to_vec();
        b.push(b'\n');
        b
    }).collect();
    let stages = vec![
        stage("sort", &["-r"], SinkSpec::CreatePipe),
        stage("head", &["-n", "2"], SinkSpec::CreatePipe),
    ];
    let mut o = Orchestrator::new(stages).unwrap();
    assert_eq!(o.initial_action(), Action::Spawn(0));
    assert_eq!(o.step(Event::Spawned), Action::Spawn(1));
    assert_eq!(o.step(Event::Spawned), Action::ReadOutput);
    assert_eq!(o.step(Event::Chunk(terminal_bytes)), Action::ReadOutput);
    assert_eq!(o.step(Event::OutputEnd), Action::Wait(0));
    assert_eq!(o.step(Event::Exited(ExitStatus::Code(0))), Action::Wait(1));
    assert_eq!(o.step(Event::Exited(ExitStatus::Code(0))), Action::Finish);
    let r = o.into_result();
    assert_eq!(r.classification, Classification::Success);
    assert_eq!(output_lines(&r.output).unwrap(), reference);
}

#[test]
fn chunks_keep_arrival_order() {
    let stages = vec![stage("cat", &[], SinkSpec::CreatePipe)];
    let mut o = Orchestrator::new(stages).unwrap();
    o.initial_action();
    o.step(Event::Spawned);
    o.step(Event::Chunk(b"first ".to_vec()));
    o.step(Event::Chunk(b"second ".to_vec()));
    o.step(Event::Chunk(b"third".to_vec()));
    o.step(Event::OutputEnd);
    o.step(Event::Exited(ExitStatus::Code(0)));
    let r = o.into_result();
    assert_eq!(r.output, b"first second third".to_vec());
}

#[test]
fn spawn_failure_aborts_and_releases_everything() {
    // a nonexistent program name: stage 0 fails to spawn, nothing stays
    // allocated, and the result is SpawnFailed
    let stages = vec![stage("no-such-program", &[], SinkSpec::CreatePipe)];
    let mut o = Orchestrator::new(stages).unwrap();
    assert_eq!(o.initial_action(), Action::Spawn(0));
    assert_eq!(o.step(Event::SpawnFailed), Action::Cleanup);
    assert_eq!(o.mark_cleaned(), Action::Finish);
    let r = o.into_result();
    assert_eq!(r.classification, Classification::SpawnFailed);
    assert_eq!(r.status, None);
    assert!(r.output.is_empty());
}

#[test]
fn mid_chain_spawn_failure_cleans_spawned_stages() {
    let stages = vec![
        stage("du", &["-ah"], SinkSpec::CreatePipe),
        stage("no-such-program", &[], SinkSpec::CreatePipe),
    ];
    let mut o = Orchestrator::new(stages).unwrap();
    assert_eq!(o.initial_action(), Action::Spawn(0));
    assert_eq!(o.step(Event::Spawned), Action::Spawn(1));
    assert_eq!(o.step(Event::SpawnFailed), Action::Cleanup);
    assert_eq!(o.mark_cleaned(), Action::Finish);
    assert_eq!(o.into_result().classification, Classification::SpawnFailed);
}

#[test]
fn read_failure_keeps_partial_output() {
    let stages = vec![stage("cat", &[], SinkSpec::CreatePipe)];
    let mut o = Orchestrator::new(stages).unwrap();
    o.initial_action();
    o.step(Event::Spawned);
    o.step(Event::Chunk(b"partial".to_vec()));
    assert_eq!(o.step(Event::ReadFailed), Action::Wait(0));
    o.step(Event::Exited(ExitStatus::Code(0)));
    let r = o.into_result();
    assert_eq!(r.classification, Classification::IOFailed);
    assert_eq!(r.output, b"partial".to_vec());
}

#[test]
fn error_stream_is_attached_to_the_result() {
    let stages = vec![stage("ls", &["oops"], SinkSpec::CreatePipe)];
    let mut o = Orchestrator::new(stages).unwrap();
    o.initial_action();
    o.step(Event::Spawned);
    o.step(Event::ErrChunk(b"no such file\n".to_vec()));
    o.step(Event::OutputEnd);
    o.step(Event::Exited(ExitStatus::Code(2)));
    let r = o.into_result();
    assert_eq!(r.classification, Classification::NonZeroExit);
    assert_eq!(r.error_output, b"no such file\n".to_vec());
}

#[test]
fn empty_pipeline_is_rejected() {
    match Orchestrator::new(Vec::new()) {
        Err(BuildError::EmptyPipeline) => {}
        _ => panic!("an empty chain must be rejected"),
    }
}

#[test]
fn later_stage_with_its_own_input_sink_is_rejected() {
    let mut second = stage("head", &["-n", "2"], SinkSpec::CreatePipe);
    second.input = Some(SinkSpec::Inherit);
    let stages = vec![stage("sort", &["-r"], SinkSpec::CreatePipe), second];
    match Orchestrator::new(stages) {
        Err(BuildError::InputSinkSpecified(1)) => {}
        _ => panic!("a later stage's own input sink must be rejected"),
    }
}

#[test]
fn phases_follow_the_rulebook() {
    let stages = vec![stage("cat", &[], SinkSpec::CreatePipe)];
    let mut o = Orchestrator::new(stages).unwrap();
    assert_eq!(o.phase, Phase::Spawning);
    o.step(Event::Spawned);
    assert_eq!(o.phase, Phase::Draining);
    o.step(Event::OutputEnd);
    assert_eq!(o.phase, Phase::Waiting);
    o.step(Event::Exited(ExitStatus::Code(0)));
    assert_eq!(o.phase, Phase::Finished);
}

#[test]
fn shared_file_destination_uses_one_resource() {
    // `ls . oops >out.txt 2>&1`: both write streams share one opened file
    let dest = FileDest { path: "out.txt".to_string(), append: false };
    let dest2 = FileDest { path: "out.txt".to_string(), append: false };
    let plan = plan_redirections(&SinkSpec::ToFile(dest), &SinkSpec::ToFile(dest2));
    assert_eq!(plan.resources.len(), 1);
    assert_eq!(plan.resources[0].attached, 2);
    assert_eq!(plan.output_resource, Some(0));
    assert_eq!(plan.error_resource, Some(0));
}

#[test]
fn distinct_file_destinations_use_two_resources() {
    let out = FileDest { path: "out.txt".to_string(), append: false };
    let err = FileDest { path: "err.txt".to_string(), append: false };
    let plan = plan_redirections(&SinkSpec::ToFile(out), &SinkSpec::ToFile(err));
    assert_eq!(plan.resources.len(), 2);
    assert_eq!(plan.resources[0].attached, 1);
    assert_eq!(plan.resources[1].attached, 1);
    assert_eq!(plan.output_resource, Some(0));
    assert_eq!(plan.error_resource, Some(1));
}

#[test]
fn no_file_sinks_open_nothing() {
    let plan = plan_redirections(&SinkSpec::CreatePipe, &SinkSpec::Inherit);
    assert!(plan.resources.is_empty());
    assert_eq!(plan.output_resource, None);
    assert_eq!(plan.error_resource, None);
}

#[test]
fn handles_exit_exactly_once_and_release_their_pipes() {
    let mut h = ProcessHandle::from_spawn(42, true);
    assert_eq!(h.state, HandleState::Spawned);
    assert!(h.pipe_ends_open);
    h.record_exit(ExitStatus::Code(0));
    assert_eq!(h.state, HandleState::Exited(ExitStatus::Code(0)));
    assert_eq!(h.status(), ExitStatus::Code(0));
    assert_eq!(h.classification(), Classification::Success);
    h.release_pipes();
    assert!(!h.pipe_ends_open);

    // an abandoned handle can release its pipe ends before any wait
    let mut abandoned = ProcessHandle::from_spawn(7, true);
    abandoned.release_pipes();
    assert!(!abandoned.pipe_ends_open);
    assert_eq!(abandoned.state, HandleState::Spawned);
}
