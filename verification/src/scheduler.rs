//! The collection scheduler: which monitor is collected next.
//!
//! The scheduler owns the order of the monitors and decides; the caller
//! waits for the timer, runs the monitor that it is told to run and hands
//! back what happened. A pass starts with a tick and takes every monitor
//! once, in order, whatever the monitors before it returned. A tick that
//! arrives during a pass is kept: the next pass starts as soon as the
//! running one has ended.

use crate::monitor::{CollectionError, MonitorKind};
use vstd::prelude::*;

verus! {

/// The number of time units between two ticks, unless another is asked for.
pub const DEFAULT_INTERVAL: u64 = 5;

/// What the scheduler is doing.
#[derive(Debug, Clone, Copy, PartialEq, Eq, Structural)]
pub enum Phase {
    /// Waiting for the next tick.
    Idle,
    /// In a pass, waiting for the result of the monitor at this position.
    Collecting(usize),
}

/// What the caller reports.
#[derive(Debug, Clone, Copy, PartialEq, Eq, Structural)]
pub enum Event {
    /// The timer fired.
    Tick,
    /// The monitor that was to be collected has been collected, with this
    /// error if it failed.
    Collected(Option<CollectionError>),
}

/// What the caller does next.
#[derive(Debug, Clone, Copy, PartialEq, Eq, Structural)]
pub enum Action {
    /// Wait for the timer.
    AwaitTick,
    /// Collect the monitor at this position, which is of this kind.
    Collect(usize, MonitorKind),
    /// Nothing new: the monitor named before is still to be reported.
    AwaitResult,
}

/// The state of a scheduler, as contracts see it.
pub ghost struct SchedulerView {
    pub monitors: Seq<MonitorKind>,
    pub interval: nat,
    pub phase: Phase,
    /// The ticks that arrived during a pass and have started no pass yet.
    pub pending: nat,
}

/// The monitors that run where none is selected.
pub open spec fn default_monitors() -> Seq<MonitorKind> {
    seq![
        MonitorKind::Sched,
        MonitorKind::Snmp,
        MonitorKind::NetDev,
        MonitorKind::DiskStat,
        MonitorKind::Interrupts,
        MonitorKind::MemStat,
    ]
}

/// The monitors that run where `selected` are asked for: those, in their
/// order, or the default ones where none is asked for.
pub open spec fn enabled(selected: Seq<MonitorKind>) -> Seq<MonitorKind> {
    if selected.len() == 0 {
        default_monitors()
    } else {
        selected
    }
}

impl SchedulerView {
    /// Whether the state is one that a scheduler can be in.
    pub open spec fn wf(self) -> bool {
        &&& 0 < self.monitors.len() <= usize::MAX
        &&& self.pending <= u64::MAX
        &&& self.phase matches Phase::Collecting(i) ==> i < self.monitors.len()
        &&& self.phase is Idle ==> self.pending == 0
    }

    /// The state at the start of the pass.
    pub open spec fn start_pass(self) -> (SchedulerView, Action) {
        (
            SchedulerView { phase: Phase::Collecting(0), ..self },
            Action::Collect(0, self.monitors[0]),
        )
    }

    /// The state after `event`, and what the caller does next.
    ///
    /// A tick starts a pass with the first monitor. The result of a monitor,
    /// failure or not, leads to the next monitor; after the last one the
    /// pass ends, and the next pass starts at once where a tick arrived
    /// meanwhile. A tick during a pass is counted, up to the largest number
    /// of 64 bits. A result that nothing waits for changes nothing.
    pub open spec fn step(self, event: Event) -> (SchedulerView, Action) {
        match (self.phase, event) {
            (Phase::Idle, Event::Tick) => self.start_pass(),
            (Phase::Idle, Event::Collected(_)) => (self, Action::AwaitTick),
            (Phase::Collecting(_), Event::Tick) => (
                SchedulerView {
                    pending: if self.pending < u64::MAX {
                        self.pending + 1
                    } else {
                        self.pending
                    },
                    ..self
                },
                Action::AwaitResult,
            ),
            (Phase::Collecting(i), Event::Collected(_)) => if i + 1 < self.monitors.len() {
                (
                    SchedulerView { phase: Phase::Collecting((i + 1) as usize), ..self },
                    Action::Collect((i + 1) as usize, self.monitors[i + 1]),
                )
            } else if self.pending > 0 {
                (SchedulerView { pending: (self.pending - 1) as nat, ..self }).start_pass()
            } else {
                (SchedulerView { phase: Phase::Idle, ..self }, Action::AwaitTick)
            },
        }
    }

    /// The state after the monitors from the awaited one on have been
    /// reported with `outcomes`, one after the other.
    pub open spec fn after_results(self, outcomes: Seq<Option<CollectionError>>) -> SchedulerView
        decreases outcomes.len(),
    {
        if outcomes.len() == 0 {
            self
        } else {
            self.after_results(outcomes.drop_last()).step(Event::Collected(outcomes.last())).0
        }
    }
}

/// What a monitor returned has no bearing on what comes next.
pub proof fn failure_changes_nothing(
    s: SchedulerView,
    a: Option<CollectionError>,
    b: Option<CollectionError>,
)
    ensures
        s.step(Event::Collected(a)) == s.step(Event::Collected(b)),
{
}

/// Every step leads from a state that a scheduler can be in to another.
pub proof fn step_keeps_wf(s: SchedulerView, event: Event)
    requires
        s.wf(),
    ensures
        s.step(event).0.wf(),
        s.step(event).0.monitors == s.monitors,
        s.step(event).0.interval == s.interval,
{
}

/// Within a pass and with no tick meanwhile, `k` results lead from the
/// monitor at position `i` to the one at position `i + k`, whatever the
/// results are: no monitor is left out, and none is taken twice.
pub proof fn pass_takes_monitors_in_order(
    s: SchedulerView,
    i: usize,
    outcomes: Seq<Option<CollectionError>>,
)
    requires
        s.wf(),
        s.phase == Phase::Collecting(i),
        s.pending == 0,
        i + outcomes.len() < s.monitors.len(),
    ensures
        s.after_results(outcomes) == (SchedulerView {
            phase: Phase::Collecting((i + outcomes.len()) as usize),
            ..s
        }),
        outcomes.len() > 0 ==> s.after_results(outcomes.drop_last()).step(
            Event::Collected(outcomes.last()),
        ).1 == Action::Collect(
            (i + outcomes.len()) as usize,
            s.monitors[i + outcomes.len()],
        ),
    decreases outcomes.len(),
{
    if outcomes.len() > 0 {
        pass_takes_monitors_in_order(s, i, outcomes.drop_last());
    }
}

/// A tick starts a pass; once every monitor has been reported, whatever
/// the results are, the scheduler waits for the next tick.
pub proof fn pass_ends_after_last_monitor(s: SchedulerView, outcomes: Seq<Option<CollectionError>>)
    requires
        s.wf(),
        s.phase is Idle,
        outcomes.len() == s.monitors.len(),
    ensures
        s.step(Event::Tick).1 == Action::Collect(0, s.monitors[0]),
        s.step(Event::Tick).0.after_results(outcomes) == s,
        s.step(Event::Tick).0.after_results(outcomes.drop_last()).step(
            Event::Collected(outcomes.last()),
        ).1 == Action::AwaitTick,
{
    let started = s.step(Event::Tick).0;
    pass_takes_monitors_in_order(started, 0, outcomes.drop_last());
}

/// The collection scheduler.
#[derive(Debug)]
pub struct Scheduler {
    monitors: Vec<MonitorKind>,
    interval: u64,
    phase: Phase,
    pending: u64,
}

impl View for Scheduler {
    type V = SchedulerView;

    closed spec fn view(&self) -> SchedulerView {
        SchedulerView {
            monitors: self.monitors@,
            interval: self.interval as nat,
            phase: self.phase,
            pending: self.pending as nat,
        }
    }
}

impl Scheduler {
    /// Every scheduler is in a state that a scheduler can be in.
    #[verifier::type_invariant]
    closed spec fn inv(&self) -> bool {
        self@.wf()
    }

    /// A scheduler of the monitors `selected`, or of the default ones where
    /// none is selected, that waits for its first tick. `interval` is the
    /// number of time units between two ticks.
    pub fn new(selected: Vec<MonitorKind>, interval: u64) -> (s: Self)
        ensures
            s@.wf(),
            s@.monitors == enabled(selected@),
            s@.interval == interval,
            s@.phase is Idle,
    {
        let monitors = if selected.len() == 0 {
            vec![
                MonitorKind::Sched,
                MonitorKind::Snmp,
                MonitorKind::NetDev,
                MonitorKind::DiskStat,
                MonitorKind::Interrupts,
                MonitorKind::MemStat,
            ]
        } else {
            selected
        };
        assert(monitors@ =~= enabled(selected@));
        Scheduler { monitors, interval, phase: Phase::Idle, pending: 0 }
    }

    /// The monitors, in the order in which a pass takes them.
    pub fn monitors(&self) -> (r: &Vec<MonitorKind>)
        ensures
            r@ == self@.monitors,
    {
        &self.monitors
    }

    /// The number of time units between two ticks.
    pub fn interval(&self) -> (r: u64)
        ensures
            r == self@.interval,
    {
        self.interval
    }

    /// What the scheduler is doing.
    pub fn phase(&self) -> (r: Phase)
        ensures
            self@.wf(),
            r == self@.phase,
    {
        proof {
            use_type_invariant(self);
        }
        self.phase
    }

    /// Takes `event` in and says what the caller does next.
    pub fn step(&mut self, event: Event) -> (action: Action)
        ensures
            old(self)@.wf(),
            final(self)@.wf(),
            (final(self)@, action) == old(self)@.step(event),
    {
        proof {
            use_type_invariant(&*self);
        }
        match (self.phase, event) {
            (Phase::Idle, Event::Tick) => {
                self.phase = Phase::Collecting(0);
                Action::Collect(0, self.monitors[0])
            },
            (Phase::Idle, Event::Collected(_)) => Action::AwaitTick,
            (Phase::Collecting(_), Event::Tick) => {
                if self.pending < u64::MAX {
                    self.pending += 1;
                }
                Action::AwaitResult
            },
            (Phase::Collecting(i), Event::Collected(_)) => {
                let n = self.monitors.len();
                if i + 1 < n {
                    self.phase = Phase::Collecting(i + 1);
                    Action::Collect(i + 1, self.monitors[i + 1])
                } else if self.pending > 0 {
                    self.pending -= 1;
                    self.phase = Phase::Collecting(0);
                    Action::Collect(0, self.monitors[0])
                } else {
                    self.phase = Phase::Idle;
                    Action::AwaitTick
                }
            },
        }
    }
}

} // verus!
