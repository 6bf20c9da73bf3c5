use frame_interp::framework::Framework;
use frame_interp::monitor::{MonitorAction, MonitorEvent, Stage, StageMonitor, StageState};

fn tick(count: usize) -> MonitorEvent {
    MonitorEvent::Tick { sample: Some(count) }
}

fn blind_tick() -> MonitorEvent {
    MonitorEvent::Tick { sample: None }
}

fn handoff(success: bool) -> MonitorEvent {
    MonitorEvent::Handoff { success }
}

fn running(expected_total: usize) -> StageMonitor {
    let mut m = StageMonitor::new(expected_total);
    assert!(m.start());
    m
}

#[test]
fn a_new_monitor_has_not_started() {
    let m = StageMonitor::new(120);
    assert_eq!(m.state, StageState::NotStarted);
    assert_eq!(m.expected_total, 120);
    assert_eq!(m.shown, 0);
    assert!(!m.finished());
}

#[test]
fn a_stage_starts_once() {
    let mut m = StageMonitor::new(120);
    assert!(m.start());
    assert_eq!(m.state, StageState::Running);
    assert!(!m.start());
    assert_eq!(m.state, StageState::Running);
    m.observe(handoff(true));
    assert!(!m.start());
    assert_eq!(m.state, StageState::Completed);
}

#[test]
fn a_tick_redraws_at_the_sampled_count() {
    let mut m = running(120);
    assert_eq!(m.observe(tick(17)), MonitorAction::Redraw { count: 17 });
    assert_eq!(m.shown, 17);
    assert_eq!(m.state, StageState::Running);
    assert_eq!(m.observe(tick(3)), MonitorAction::Redraw { count: 3 });
    assert_eq!(m.shown, 3);
}

#[test]
fn a_tick_without_the_directory_is_skipped() {
    let mut m = running(120);
    m.observe(tick(17));
    assert_eq!(m.observe(blind_tick()), MonitorAction::Skip);
    assert_eq!(m.shown, 17);
    assert_eq!(m.state, StageState::Running);
}

#[test]
fn reaching_the_total_does_not_end_the_stage() {
    let mut m = running(120);
    assert_eq!(m.observe(tick(120)), MonitorAction::Redraw { count: 120 });
    assert_eq!(m.observe(tick(500)), MonitorAction::Redraw { count: 500 });
    assert_eq!(m.state, StageState::Running);
    assert!(!m.finished());
}

#[test]
fn a_handoff_ends_the_stage() {
    let mut good = running(120);
    assert_eq!(good.observe(handoff(true)), MonitorAction::Stop { success: true });
    assert_eq!(good.state, StageState::Completed);
    assert!(good.finished());
    let mut bad = running(120);
    bad.observe(tick(5));
    assert_eq!(bad.observe(handoff(false)), MonitorAction::Stop { success: false });
    assert_eq!(bad.state, StageState::Failed);
    assert_eq!(bad.shown, 5);
    assert!(bad.finished());
}

#[test]
fn nothing_is_taken_after_the_handoff() {
    let mut m = running(120);
    m.observe(tick(60));
    m.observe(handoff(true));
    let ended = m;
    assert_eq!(m.observe(tick(61)), MonitorAction::Idle);
    assert_eq!(m.observe(handoff(false)), MonitorAction::Idle);
    assert_eq!(m.observe(blind_tick()), MonitorAction::Idle);
    assert_eq!(m, ended);
}

#[test]
fn nothing_is_taken_before_the_start() {
    let mut m = StageMonitor::new(120);
    assert_eq!(m.observe(tick(1)), MonitorAction::Idle);
    assert_eq!(m.observe(handoff(true)), MonitorAction::Idle);
    assert_eq!(m, StageMonitor::new(120));
}

#[test]
fn replay_leaves_at_the_first_handoff() {
    let events = vec![tick(1), blind_tick(), tick(40), handoff(true), tick(41), handoff(false)];
    let mut m = running(80);
    assert_eq!(m.replay(&events), 4);
    assert_eq!(m.state, StageState::Completed);
    assert_eq!(m.shown, 40);
}

#[test]
fn replay_waits_however_many_ticks_come() {
    for ticks in [0usize, 1, 2, 10, 1000] {
        let mut events: Vec<MonitorEvent> = (0..ticks).map(tick).collect();
        let mut waiting = running(50);
        assert_eq!(waiting.replay(&events), ticks);
        assert_eq!(waiting.state, StageState::Running);
        events.push(handoff(false));
        let mut m = running(50);
        assert_eq!(m.replay(&events), ticks + 1);
        assert_eq!(m.state, StageState::Failed);
    }
}

#[test]
fn replay_takes_nothing_outside_a_running_stage() {
    let events = vec![tick(1), handoff(true)];
    let mut fresh = StageMonitor::new(10);
    assert_eq!(fresh.replay(&events), 0);
    assert_eq!(fresh, StageMonitor::new(10));
    let mut ended = running(10);
    ended.observe(handoff(false));
    assert_eq!(ended.replay(&events), 0);
    assert_eq!(ended.state, StageState::Failed);
}

#[test]
fn stages_name_what_they_watch() {
    let extract = Stage::extraction(120);
    assert_eq!(extract.watched, "original_frames");
    assert_eq!(extract.label, "FRAME EXTRACT PROGRESS");
    assert_eq!(extract.expected_total, 120);
    let dain = Stage::interpolation(Framework::Dain, 200);
    assert_eq!(dain.watched, "out_frames");
    assert_eq!(dain.label, "DAIN RENDER PROGRESS");
    assert_eq!(dain.expected_total, 200);
    let rife = Stage::interpolation(Framework::Rife, 96);
    assert_eq!(rife.watched, "out_frames");
    assert_eq!(rife.label, "RIFE RENDER PROGRESS");
    assert_eq!(rife.expected_total, 96);
    assert_eq!(rife.monitor(), StageMonitor::new(96));
}
