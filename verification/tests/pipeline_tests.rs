use frame_interp::framework::Framework;
use frame_interp::pipeline::{
    Failure, Job, Phase, PipelineAction, PipelineEvent, UsageError,
};
use frame_interp::probe::{get_framerate, get_original_number_of_frames, CountError, RateError};
use frame_interp::rate::FrameRate;

fn rate(text: &str) -> FrameRate {
    FrameRate::parse(text.as_bytes()).unwrap()
}

fn args(list: &[&str]) -> Vec<String> {
    list.iter().map(|s| s.to_string()).collect()
}

fn job(framework: &str, target: Option<&str>) -> Job {
    let mut list = vec!["prog", "in.mp4", "out.mp4", framework];
    if let Some(t) = target {
        list.push(t);
    }
    Job::from_args(&args(&list)).unwrap()
}

fn a_good_run(fps: &str, counted: usize, frames: usize) -> Vec<PipelineEvent> {
    vec![
        PipelineEvent::Begin,
        PipelineEvent::EngineChecked { entries: Some(3) },
        PipelineEvent::Probed { rate: Ok(rate(fps)) },
        PipelineEvent::Counted { total: Ok(counted) },
        PipelineEvent::Extracted { success: true, frames },
        PipelineEvent::Interpolated { success: true },
        PipelineEvent::Assembled { success: true },
        PipelineEvent::Cleaned,
    ]
}

fn cleans_up(actions: &[PipelineAction]) -> bool {
    actions.iter().any(|a| matches!(a, PipelineAction::CleanUp))
}

fn gives_up(actions: &[PipelineAction]) -> bool {
    actions.iter().any(|a| matches!(a, PipelineAction::Abort { .. }))
}

#[test]
fn a_job_from_the_command_line() {
    let j = Job::from_args(&args(&["prog", "in.mp4", "out.mp4", "dain", "50.0"])).unwrap();
    assert_eq!(j.input, "in.mp4");
    assert_eq!(j.output, "out.mp4");
    assert_eq!(j.framework, Framework::Dain);
    assert_eq!(j.target_rate, rate("50.0"));
    assert_eq!(j.source_rate, None);
    assert_eq!(j.mux_rate, None);
    assert_eq!(j.source_frames, None);
    assert_eq!(j.target_frames, None);
    assert_eq!(j.phase, Phase::Ready);
}

#[test]
fn the_target_rate_defaults_to_sixty() {
    let j = Job::from_args(&args(&["prog", "in.mp4", "out.mp4", "rife"])).unwrap();
    assert_eq!(j.framework, Framework::Rife);
    assert_eq!(j.target_rate, rate("60.0"));
    assert_eq!(j.target_rate.to_text(), "60.0");
}

#[test]
fn arguments_behind_the_rate_are_not_looked_at() {
    let j = Job::from_args(&args(&["prog", "a", "b", "dain", "24", "more", "and more"])).unwrap();
    assert_eq!(j, Job::new("a".to_string(), "b".to_string(), Framework::Dain, rate("24")));
}

#[test]
fn too_few_arguments_are_no_job() {
    for list in [&[][..], &["prog"], &["prog", "in.mp4"], &["prog", "in.mp4", "out.mp4"]] {
        assert_eq!(Job::from_args(&args(list)), Err(UsageError::TooFewArguments));
    }
}

#[test]
fn an_unknown_framework_is_no_job() {
    assert_eq!(
        Job::from_args(&args(&["prog", "in.mp4", "out.mp4", "foo"])),
        Err(UsageError::UnknownFramework)
    );
    assert_eq!(
        Job::from_args(&args(&["prog", "in.mp4", "out.mp4", "foo", "60.0"])),
        Err(UsageError::UnknownFramework)
    );
    assert_eq!(
        Job::from_args(&args(&["prog", "in.mp4", "out.mp4", "DAIN"])),
        Err(UsageError::UnknownFramework)
    );
}

#[test]
fn a_bad_target_rate_is_no_job() {
    for bad in ["fast", "", ".", "-60", "+60", "6e1", "60 ", "18446744073709551616"] {
        assert_eq!(
            Job::from_args(&args(&["prog", "in.mp4", "out.mp4", "dain", bad])),
            Err(UsageError::BadTargetRate),
            "{:?}",
            bad
        );
    }
    assert_eq!(
        Job::from_args(&args(&["prog", "in.mp4", "out.mp4", "foo", "fast"])),
        Err(UsageError::BadTargetRate)
    );
}

#[test]
fn dain_from_probe_to_finish() {
    let mut j = job("dain", Some("50.0"));
    let actions = j.replay(&a_good_run("25.0", 100, 100));
    assert_eq!(
        actions,
        vec![
            PipelineAction::CheckEngine,
            PipelineAction::Probe,
            PipelineAction::Count,
            PipelineAction::Extract { expected: 100 },
            PipelineAction::Interpolate { frames: 200 },
            PipelineAction::Assemble { rate: rate("50.0") },
            PipelineAction::CleanUp,
            PipelineAction::Finish,
        ]
    );
    assert_eq!(j.phase, Phase::Finished);
    assert_eq!(j.source_rate, Some(rate("25.0")));
    assert_eq!(j.source_frames, Some(100));
    assert_eq!(j.target_frames, Some(200));
    assert_eq!(j.mux_rate, Some(rate("50.0")));
    assert_eq!(
        j.framework.worker_args(j.target_frames.unwrap()),
        vec!["-i", "original_frames", "-o", "out_frames", "-n", "200"]
    );
    assert_eq!(j.mux_rate.unwrap().to_text(), "50.0");
}

#[test]
fn rife_from_probe_to_finish() {
    let mut j = job("rife", None);
    let actions = j.replay(&a_good_run("24.0", 48, 48));
    assert_eq!(
        actions,
        vec![
            PipelineAction::CheckEngine,
            PipelineAction::Probe,
            PipelineAction::Count,
            PipelineAction::Extract { expected: 48 },
            PipelineAction::Interpolate { frames: 96 },
            PipelineAction::Assemble { rate: rate("48.0") },
            PipelineAction::CleanUp,
            PipelineAction::Finish,
        ]
    );
    assert_eq!(j.phase, Phase::Finished);
    assert_eq!(j.target_frames, Some(96));
    assert_eq!(
        j.framework.worker_args(96),
        vec!["-i", "original_frames", "-o", "out_frames"]
    );
    assert_eq!(j.mux_rate.unwrap().to_text(), "48.0");
}

#[test]
fn a_job_fed_from_the_toolkits_output() {
    let probe = b"  Stream #0:0: Video: h264, yuv420p, 640x360, 25 fps, 25 tbr\n";
    let count = b"frame=   10 fps=0.0\rframe=  100 fps= 90 q=-1.0 Lsize=N/A\nvideo:0kB\n";
    let mut j = job("dain", Some("50.0"));
    let actions = j.replay(&[
        PipelineEvent::Begin,
        PipelineEvent::EngineChecked { entries: Some(3) },
        PipelineEvent::Probed { rate: get_framerate(probe) },
        PipelineEvent::Counted { total: get_original_number_of_frames(count) },
        PipelineEvent::Extracted { success: true, frames: 100 },
    ]);
    assert_eq!(actions[3], PipelineAction::Extract { expected: 100 });
    assert_eq!(actions[4], PipelineAction::Interpolate { frames: 200 });
}

#[test]
fn the_planned_count_goes_by_the_extracted_frames() {
    let mut j = job("dain", Some("50.0"));
    let actions = j.replay(&a_good_run("25.0", 100, 99));
    assert_eq!(actions[3], PipelineAction::Extract { expected: 100 });
    assert_eq!(actions[4], PipelineAction::Interpolate { frames: 198 });
    assert_eq!(j.source_frames, Some(99));
}

#[test]
fn the_target_rate_may_be_written_loosely() {
    for (written, read) in [("60.", "60"), (".5", "0.5"), ("23.9760239760", "23.976023976")] {
        let j = Job::from_args(&args(&["prog", "a", "b", "dain", written])).unwrap();
        assert_eq!(j.target_rate, rate(read), "{:?}", written);
    }
}

#[test]
fn a_count_beyond_the_largest_is_planned_as_the_largest() {
    let mut j = job("dain", Some("1"));
    let actions = j.replay(&[
        PipelineEvent::Begin,
        PipelineEvent::EngineChecked { entries: Some(1) },
        PipelineEvent::Probed { rate: Ok(rate("1")) },
        PipelineEvent::Counted { total: Ok(10) },
        PipelineEvent::Extracted { success: true, frames: 4294967296 },
    ]);
    assert_eq!(actions[4], PipelineAction::Interpolate { frames: u32::MAX });
    assert_eq!(j.target_frames, Some(u32::MAX));
}

#[test]
fn an_empty_engine_directory_is_installed_anew() {
    for entries in [None, Some(0)] {
        let mut j = job("rife", None);
        j.advance(PipelineEvent::Begin);
        assert_eq!(
            j.advance(PipelineEvent::EngineChecked { entries }),
            PipelineAction::Install
        );
    }
    let mut j = job("rife", None);
    j.advance(PipelineEvent::Begin);
    assert_eq!(
        j.advance(PipelineEvent::EngineChecked { entries: Some(1) }),
        PipelineAction::Probe
    );
}

#[test]
fn a_missing_tool_fails_the_steps_that_run_one() {
    let good = a_good_run("25", 10, 10);
    for cut in 0..=good.len() {
        let mut j = job("dain", None);
        j.replay(&good[..cut]);
        let before = j.phase;
        let runs_tool = matches!(
            before,
            Phase::Probing
                | Phase::Counting
                | Phase::Extracting
                | Phase::Interpolating
                | Phase::Assembling
        );
        let action = j.advance(PipelineEvent::ToolMissing);
        if runs_tool {
            assert_eq!(action, PipelineAction::Abort { failure: Failure::ToolMissing });
            assert_eq!(j.phase, Phase::Failed);
        } else {
            assert_eq!(action, PipelineAction::Ignore);
            assert_eq!(j.phase, before);
        }
    }
}

#[test]
fn a_missing_engine_is_installed_first() {
    let mut j = job("dain", None);
    assert_eq!(j.advance(PipelineEvent::Begin), PipelineAction::CheckEngine);
    assert_eq!(j.phase, Phase::CheckingEngine);
    assert_eq!(
        j.advance(PipelineEvent::EngineChecked { entries: None }),
        PipelineAction::Install
    );
    assert_eq!(j.phase, Phase::Installing);
    assert_eq!(j.advance(PipelineEvent::Installed { success: true }), PipelineAction::Probe);
    assert_eq!(j.phase, Phase::Probing);
}

#[test]
fn each_failure_gives_up() {
    let cases: Vec<(Vec<PipelineEvent>, Failure)> = vec![
        (
            vec![
                PipelineEvent::Begin,
                PipelineEvent::EngineChecked { entries: None },
                PipelineEvent::Installed { success: false },
            ],
            Failure::Install,
        ),
        (
            vec![
                PipelineEvent::Begin,
                PipelineEvent::EngineChecked { entries: Some(3) },
                PipelineEvent::Probed { rate: Err(RateError::Pattern) },
            ],
            Failure::Probe(RateError::Pattern),
        ),
        (
            vec![
                PipelineEvent::Begin,
                PipelineEvent::EngineChecked { entries: Some(3) },
                PipelineEvent::Probed { rate: Ok(FrameRate::zero()) },
            ],
            Failure::ZeroFrameRate,
        ),
        (
            vec![
                PipelineEvent::Begin,
                PipelineEvent::EngineChecked { entries: Some(3) },
                PipelineEvent::Probed { rate: Ok(rate("25")) },
                PipelineEvent::Counted { total: Err(CountError::MissingField) },
            ],
            Failure::Count(CountError::MissingField),
        ),
        (
            vec![
                PipelineEvent::Begin,
                PipelineEvent::EngineChecked { entries: Some(3) },
                PipelineEvent::Probed { rate: Ok(rate("25")) },
                PipelineEvent::Counted { total: Ok(10) },
                PipelineEvent::Extracted { success: false, frames: 4 },
            ],
            Failure::Extraction,
        ),
        (
            vec![
                PipelineEvent::Begin,
                PipelineEvent::EngineChecked { entries: Some(3) },
                PipelineEvent::ToolMissing,
            ],
            Failure::ToolMissing,
        ),
        (
            vec![
                PipelineEvent::Begin,
                PipelineEvent::EngineChecked { entries: Some(3) },
                PipelineEvent::Probed { rate: Ok(rate("25")) },
                PipelineEvent::Counted { total: Ok(10) },
                PipelineEvent::Extracted { success: true, frames: 10 },
                PipelineEvent::ToolMissing,
            ],
            Failure::ToolMissing,
        ),
        (
            vec![
                PipelineEvent::Begin,
                PipelineEvent::EngineChecked { entries: Some(3) },
                PipelineEvent::Probed { rate: Ok(rate("25")) },
                PipelineEvent::Counted { total: Ok(10) },
                PipelineEvent::Extracted { success: true, frames: 10 },
                PipelineEvent::Interpolated { success: false },
            ],
            Failure::Interpolation,
        ),
        (
            vec![
                PipelineEvent::Begin,
                PipelineEvent::EngineChecked { entries: Some(3) },
                PipelineEvent::Probed { rate: Ok(rate("25")) },
                PipelineEvent::Counted { total: Ok(10) },
                PipelineEvent::Extracted { success: true, frames: 10 },
                PipelineEvent::Interpolated { success: true },
                PipelineEvent::Assembled { success: false },
            ],
            Failure::Assembly,
        ),
    ];
    for (events, failure) in cases {
        let mut j = job("dain", Some("1"));
        let actions = j.replay(&events);
        assert_eq!(actions.last(), Some(&PipelineAction::Abort { failure }));
        assert_eq!(j.phase, Phase::Failed);
        assert!(gives_up(&actions));
        assert!(!cleans_up(&actions));
    }
}

#[test]
fn rife_gives_up_on_a_rate_it_cannot_double() {
    let mut j = job("rife", None);
    let actions = j.replay(&[
        PipelineEvent::Begin,
        PipelineEvent::EngineChecked { entries: Some(3) },
        PipelineEvent::Probed { rate: Ok(rate("18446744073709551615")) },
    ]);
    assert_eq!(
        actions.last(),
        Some(&PipelineAction::Abort { failure: Failure::RateOutOfRange })
    );
    assert_eq!(j.source_rate, None);
}

#[test]
fn an_inconsistent_job_gives_up() {
    let mut j = job("dain", None);
    j.phase = Phase::Extracting;
    assert_eq!(
        j.advance(PipelineEvent::Extracted { success: true, frames: 10 }),
        PipelineAction::Abort { failure: Failure::ZeroFrameRate }
    );
    let mut k = job("dain", None);
    k.phase = Phase::Interpolating;
    assert_eq!(
        k.advance(PipelineEvent::Interpolated { success: true }),
        PipelineAction::Abort { failure: Failure::RateOutOfRange }
    );
}

#[test]
fn after_a_failure_nothing_more_is_done() {
    let mut j = job("dain", None);
    j.replay(&[
        PipelineEvent::Begin,
        PipelineEvent::EngineChecked { entries: Some(3) },
        PipelineEvent::Probed { rate: Err(RateError::Pattern) },
    ]);
    let failed = j.replay(&a_good_run("25", 10, 10));
    assert_eq!(failed, vec![PipelineAction::Ignore; 8]);
    assert_eq!(j.phase, Phase::Failed);
}

#[test]
fn after_the_finish_nothing_more_is_done() {
    let mut j = job("rife", None);
    j.replay(&a_good_run("24", 48, 48));
    let again = j.replay(&a_good_run("24", 48, 48));
    assert_eq!(again, vec![PipelineAction::Ignore; 8]);
    assert_eq!(j.phase, Phase::Finished);
}

#[test]
fn events_out_of_turn_change_nothing() {
    let mut j = job("dain", None);
    for event in a_good_run("25", 10, 10).into_iter().skip(1) {
        assert_eq!(j.advance(event), PipelineAction::Ignore);
        assert_eq!(j.phase, Phase::Ready);
    }
    j.advance(PipelineEvent::Begin);
    assert_eq!(j.advance(PipelineEvent::Begin), PipelineAction::Ignore);
    assert_eq!(j.advance(PipelineEvent::Cleaned), PipelineAction::Ignore);
    assert_eq!(j.phase, Phase::CheckingEngine);
}

#[test]
fn the_directories_are_removed_after_success_only() {
    let good = a_good_run("25", 10, 10);
    for cut in 0..=good.len() {
        let mut j = job("dain", None);
        let actions = j.replay(&good[..cut]);
        assert_eq!(cleans_up(&actions), cut >= 7);
        assert!(!gives_up(&actions));
        let mut failing = good[..cut].to_vec();
        failing.push(PipelineEvent::Installed { success: false });
        failing.push(PipelineEvent::Extracted { success: false, frames: 0 });
        failing.push(PipelineEvent::Interpolated { success: false });
        failing.push(PipelineEvent::Assembled { success: false });
        let mut k = job("dain", None);
        let all = k.replay(&failing);
        assert!(!(cleans_up(&all) && gives_up(&all)));
        assert_eq!(gives_up(&all), k.phase == Phase::Failed);
        assert_eq!(cleans_up(&all), k.phase == Phase::Cleaning || k.phase == Phase::Finished);
    }
}
