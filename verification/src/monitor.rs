//! The progress monitor of one stage.
//!
//! A stage runs one external worker. While the worker runs, a timer samples the
//! number of entries in a watched directory; when the worker ends, it hands over
//! one flag. The monitor decides, event by event, what the caller does next. It
//! stops on the handoff and on nothing else: the sampled count is for display.

use crate::framework::{progress_label_of, Framework};
use vstd::prelude::*;

verus! {

/// One watched phase of a job: the directory whose entries are counted, the
/// number of entries expected in the end, and the label of the indicator.
#[derive(Clone, Copy, Debug, PartialEq, Eq)]
pub struct Stage {
    pub watched: &'static str,
    pub label: &'static str,
    pub expected_total: usize,
}

impl Stage {
    /// The extraction of the source's frames, of which `expected_total` are
    /// expected.
    pub fn extraction(expected_total: usize) -> (stage: Stage)
        ensures
            stage.watched@ == "original_frames"@,
            stage.label@ == "FRAME EXTRACT PROGRESS"@,
            stage.expected_total == expected_total,
    {
        Stage { watched: "original_frames", label: "FRAME EXTRACT PROGRESS", expected_total }
    }

    /// The rendering of `frames` new frames by `framework`.
    pub fn interpolation(framework: Framework, frames: u32) -> (stage: Stage)
        ensures
            stage.watched@ == "out_frames"@,
            stage.label@ == progress_label_of(framework),
            stage.expected_total == frames,
    {
        Stage {
            watched: "out_frames",
            label: framework.progress_label(),
            expected_total: frames as usize,
        }
    }

    /// A monitor for the stage, not yet started.
    pub fn monitor(&self) -> (m: StageMonitor)
        ensures
            m == (StageMonitor {
                state: StageState::NotStarted,
                expected_total: self.expected_total,
                shown: 0,
            }),
    {
        StageMonitor::new(self.expected_total)
    }
}

/// Where a stage stands.
#[derive(Clone, Copy, Debug, PartialEq, Eq, Structural)]
pub enum StageState {
    NotStarted,
    Running,
    Completed,
    Failed,
}

/// What the caller saw happen.
#[derive(Clone, Copy, Debug, PartialEq, Eq)]
pub enum MonitorEvent {
    /// The timer fired. `sample` is the watched directory's entry count, or
    /// `None` where the directory does not exist yet.
    Tick { sample: Option<usize> },
    /// The worker ended and handed over its result.
    Handoff { success: bool },
}

/// What the caller does in answer to an event.
#[derive(Clone, Copy, Debug, PartialEq, Eq)]
pub enum MonitorAction {
    /// Draw the progress indicator at `count` of the expected total.
    Redraw { count: usize },
    /// Leave the indicator as it is.
    Skip,
    /// Leave the loop; the worker ended with `success`.
    Stop { success: bool },
    /// The event came outside a running stage and changes nothing.
    Idle,
}

/// The monitor of one stage: its state, the expected total and the count last
/// drawn.
#[derive(Clone, Copy, Debug, PartialEq, Eq)]
pub struct StageMonitor {
    pub state: StageState,
    pub expected_total: usize,
    pub shown: usize,
}

/// A state that no event leaves.
pub open spec fn is_terminal(state: StageState) -> bool {
    state == StageState::Completed || state == StageState::Failed
}

/// The state in which a worker that handed over `success` leaves its stage.
pub open spec fn outcome(success: bool) -> StageState {
    if success {
        StageState::Completed
    } else {
        StageState::Failed
    }
}

/// The monitor after one event, and the action it answers with.
pub open spec fn step(m: StageMonitor, event: MonitorEvent) -> (StageMonitor, MonitorAction) {
    if m.state != StageState::Running {
        (m, MonitorAction::Idle)
    } else {
        match event {
            MonitorEvent::Tick { sample: Some(count) } => (
                StageMonitor { shown: count, ..m },
                MonitorAction::Redraw { count },
            ),
            MonitorEvent::Tick { sample: None } => (m, MonitorAction::Skip),
            MonitorEvent::Handoff { success } => (
                StageMonitor { state: outcome(success), ..m },
                MonitorAction::Stop { success },
            ),
        }
    }
}

/// The monitor after a sequence of events, taken in order.
pub open spec fn after(m: StageMonitor, events: Seq<MonitorEvent>) -> StageMonitor
    decreases events.len(),
{
    if events.len() == 0 {
        m
    } else {
        after(step(m, events[0]).0, events.drop_first())
    }
}

/// The position of the first handoff among `events`, or their number where
/// there is none.
pub open spec fn first_handoff(events: Seq<MonitorEvent>) -> int
    decreases events.len(),
{
    if events.len() == 0 {
        0
    } else if events[0] is Handoff {
        0
    } else {
        1 + first_handoff(events.drop_first())
    }
}

/// How many of `events` a monitor loop takes before it leaves: none unless the
/// stage runs, else all up to and including the first handoff.
pub open spec fn taken(m: StageMonitor, events: Seq<MonitorEvent>) -> int {
    if m.state != StageState::Running {
        0
    } else if first_handoff(events) < events.len() {
        first_handoff(events) + 1
    } else {
        events.len() as int
    }
}

impl StageMonitor {
    /// A monitor for a stage that has not started.
    pub fn new(expected_total: usize) -> (m: StageMonitor)
        ensures
            m == (StageMonitor { state: StageState::NotStarted, expected_total, shown: 0 }),
    {
        StageMonitor { state: StageState::NotStarted, expected_total, shown: 0 }
    }

    /// Records that the worker was spawned. Returns whether the stage started
    /// with this call: a stage starts once.
    pub fn start(&mut self) -> (started: bool)
        ensures
            started == (old(self).state == StageState::NotStarted),
            started ==> *final(self) == (StageMonitor { state: StageState::Running, ..*old(self) }),
            !started ==> *final(self) == *old(self),
    {
        match self.state {
            StageState::NotStarted => {
                self.state = StageState::Running;
                true
            },
            _ => false,
        }
    }

    /// Whether the stage has ended.
    pub fn finished(&self) -> (done: bool)
        ensures
            done == is_terminal(self.state),
    {
        match self.state {
            StageState::Completed | StageState::Failed => true,
            _ => false,
        }
    }

    /// Takes one event and says what to do.
    pub fn observe(&mut self, event: MonitorEvent) -> (action: MonitorAction)
        ensures
            (*final(self), action) == step(*old(self), event),
    {
        match self.state {
            StageState::Running => match event {
                MonitorEvent::Tick { sample: Some(count) } => {
                    self.shown = count;
                    MonitorAction::Redraw { count }
                },
                MonitorEvent::Tick { sample: None } => MonitorAction::Skip,
                MonitorEvent::Handoff { success } => {
                    self.state = if success {
                        StageState::Completed
                    } else {
                        StageState::Failed
                    };
                    MonitorAction::Stop { success }
                },
            },
            _ => MonitorAction::Idle,
        }
    }

    /// Runs the monitor loop over events that are already at hand: takes them
    /// in order while the stage runs and leaves after the first handoff. Returns
    /// how many events it took.
    pub fn replay(&mut self, events: &[MonitorEvent]) -> (count: usize)
        ensures
            count == taken(*old(self), events@),
            *final(self) == after(*old(self), events@.take(count as int)),
    {
        let ghost start = *self;
        let mut i: usize = 0;
        proof {
            assert(events@.take(0) =~= Seq::<MonitorEvent>::empty());
            if start.state == StageState::Running {
                lemma_first_handoff_bounds(events@);
            }
        }
        while i < events.len() && !self.left_running()
            invariant
                i <= events.len(),
                *self == after(start, events@.take(i as int)),
                start.state != StageState::Running ==> i == 0,
                self.state == StageState::Running ==> forall|j: int|
                    0 <= j < i ==> !(#[trigger] events@[j] is Handoff),
                start.state == StageState::Running && self.state != StageState::Running ==> {
                    &&& i > 0
                    &&& events@[i - 1] is Handoff
                    &&& forall|j: int| 0 <= j < i - 1 ==> !(#[trigger] events@[j] is Handoff)
                },
            decreases events.len() - i,
        {
            proof {
                lemma_after_push(start, events@.take(i as int), events@[i as int]);
                assert(events@.take(i as int).push(events@[i as int]) =~= events@.take(i + 1));
            }
            self.observe(events[i]);
            i = i + 1;
        }
        proof {
            if start.state == StageState::Running {
                if self.state == StageState::Running {
                    lemma_first_handoff_is(events@, i as int);
                } else {
                    lemma_first_handoff_is(events@, i - 1);
                }
            }
        }
        i
    }

    /// Whether the loop is over: true in every state but `Running`.
    fn left_running(&self) -> (left: bool)
        ensures
            left == (self.state != StageState::Running),
    {
        match self.state {
            StageState::Running => false,
            _ => true,
        }
    }
}

/// The first handoff lies within `events` or right behind them.
pub proof fn lemma_first_handoff_bounds(events: Seq<MonitorEvent>)
    ensures
        0 <= first_handoff(events) <= events.len(),
        first_handoff(events) < events.len() ==> events[first_handoff(events)] is Handoff,
        forall|j: int| 0 <= j < first_handoff(events) ==> !(#[trigger] events[j] is Handoff),
    decreases events.len(),
{
    if events.len() > 0 && !(events[0] is Handoff) {
        let rest = events.drop_first();
        lemma_first_handoff_bounds(rest);
        assert forall|j: int| 0 <= j < first_handoff(events) implies !(#[trigger] events[j]
            is Handoff) by {
            if j > 0 {
                assert(events[j] == rest[j - 1]);
            }
        }
    }
}

/// A position with no handoff before it, and a handoff or the end at it, is
/// the first handoff.
pub proof fn lemma_first_handoff_is(events: Seq<MonitorEvent>, at: int)
    requires
        0 <= at <= events.len(),
        forall|j: int| 0 <= j < at ==> !(#[trigger] events[j] is Handoff),
        at < events.len() ==> events[at] is Handoff,
    ensures
        first_handoff(events) == at,
{
    lemma_first_handoff_bounds(events);
    let found = first_handoff(events);
    if found < at {
        assert(!(events[found] is Handoff));
    }
}

/// Taking one more event is one more step.
pub proof fn lemma_after_push(m: StageMonitor, events: Seq<MonitorEvent>, event: MonitorEvent)
    ensures
        after(m, events.push(event)) == step(after(m, events), event).0,
    decreases events.len(),
{
    if events.len() == 0 {
        let rest = events.push(event).drop_first();
        assert(rest =~= Seq::<MonitorEvent>::empty());
        assert(after(step(m, event).0, rest) == step(m, event).0);
    } else {
        assert(events.push(event).drop_first() =~= events.drop_first().push(event));
        lemma_after_push(step(m, events[0]).0, events.drop_first(), event);
    }
}

/// Outside a running stage no event changes the monitor: before the worker is
/// spawned there is nothing to watch, and after the handoff no further tick is
/// taken.
pub proof fn law_idle_outside_running(m: StageMonitor, events: Seq<MonitorEvent>)
    requires
        m.state != StageState::Running,
    ensures
        after(m, events) == m,
    decreases events.len(),
{
    if events.len() > 0 {
        law_idle_outside_running(m, events.drop_first());
    }
}

/// A running stage ends on the handoff and on nothing else. Whatever the
/// events, the monitor has left `Running` exactly if a handoff is among them;
/// then its state is the outcome that the first handoff carried, however many
/// ticks came before it and whatever came after it. The expected total never
/// changes, and no sampled count ends the stage.
pub proof fn law_stops_exactly_on_handoff(m: StageMonitor, events: Seq<MonitorEvent>)
    requires
        m.state == StageState::Running,
    ensures
        is_terminal(after(m, events).state) <==> first_handoff(events) < events.len(),
        first_handoff(events) >= events.len() ==> after(m, events).state == StageState::Running,
        first_handoff(events) < events.len() ==> after(m, events).state == outcome(
            events[first_handoff(events)]->success,
        ),
        after(m, events).expected_total == m.expected_total,
    decreases events.len(),
{
    if events.len() > 0 {
        let rest = events.drop_first();
        let next = step(m, events[0]).0;
        if events[0] is Handoff {
            law_idle_outside_running(next, rest);
        } else {
            law_stops_exactly_on_handoff(next, rest);
            lemma_first_handoff_bounds(rest);
            if first_handoff(rest) < rest.len() {
                assert(events[first_handoff(events)] == rest[first_handoff(rest)]);
            }
        }
    }
}

} // verus!
