//! How the host keeps the controller of one session running.

use vstd::prelude::*;

use crate::host::launcher::ProcessIdentity;
use crate::time::Duration;

verus! {

/// How long the host first waits before it launches a controller again, in milliseconds.
pub const FIRST_DELAY_MS: u64 = 250;

/// The longest wait before a controller is launched again, in milliseconds.
pub const LONGEST_DELAY_MS: u64 = 30_000;

/// How long a controller runs before its waits start again from the first one, in seconds.
pub const STEADY_SECONDS: u64 = 300;

/// How long a controller is given to end with its session, in milliseconds.
pub const END_WAIT_MS: u64 = 30_000;

/// How often a controller that runs is looked at, in milliseconds.
pub const POLL_MS: u64 = 250;

/// How long a controller that was terminated is waited for, in milliseconds.
pub const TERMINATE_WAIT_MS: u64 = 5_000;

/// What the host asks of the loop.
#[derive(Clone, Copy, Debug, PartialEq, Eq, Structural)]
pub enum RunnerCommand {
    /// The controller is replaced at once.
    Restart,
    /// The session ends, and the controller with it.
    EndSession,
    /// The host goes away, and the controller stays.
    Detach,
}

/// What the loop waits for.
#[derive(Clone, Copy, Debug, PartialEq, Eq, Structural)]
pub enum LoopPhase {
    /// A controller is being launched.
    Launching,
    /// The wait before the next launch.
    Waiting,
    /// A controller runs.
    Running,
    /// The controller is given time to end.
    Ending,
    /// The loop is over.
    Over,
}

/// What happens to the loop.
#[derive(Clone, Copy, Debug, PartialEq, Eq, Structural)]
pub enum LoopEvent {
    Launched(ProcessIdentity),
    LaunchFailed,
    Command(RunnerCommand),
    /// Nobody can command the loop any more.
    Disconnected,
    /// The wait is over.
    Elapsed,
    /// The controller ended, after it ran for this long.
    Exited(Duration),
}

/// What the loop has done.
#[derive(Clone, Copy, Debug, PartialEq, Eq, Structural)]
pub enum LoopAction {
    /// The selected controller is launched.
    Launch,
    /// Which controller runs is made known.
    Publish(Option<ProcessIdentity>),
    /// A command is waited for, for this many milliseconds at most.
    Wait(u64),
    /// The controller is terminated and waited for.
    Terminate,
    /// The controller is waited for, for this many milliseconds at most.
    AwaitExit(u64),
}

/// The loop that keeps the controller of one session running.
#[derive(Clone, Copy, Debug, PartialEq, Eq, Structural)]
pub struct ControllerLoop {
    pub phase: LoopPhase,
    /// The next wait, in milliseconds.
    pub delay_ms: u64,
    /// The controller that is known to run.
    pub process: Option<ProcessIdentity>,
}

/// The wait after a wait, in milliseconds: twice as long, up to the longest.
pub open spec fn next_delay(delay_ms: u64) -> u64 {
    if delay_ms * 2 < LONGEST_DELAY_MS {
        (delay_ms * 2) as u64
    } else {
        LONGEST_DELAY_MS
    }
}

impl ControllerLoop {
    pub open spec fn well_formed(self) -> bool {
        FIRST_DELAY_MS <= self.delay_ms <= LONGEST_DELAY_MS
    }

    /// The loop on its way to a new controller.
    pub open spec fn launching(self, delay_ms: u64) -> ControllerLoop {
        ControllerLoop { phase: LoopPhase::Launching, delay_ms, ..self }
    }

    /// The loop at its end.
    pub open spec fn over(self) -> ControllerLoop {
        ControllerLoop { phase: LoopPhase::Over, ..self }
    }

    /// The loop without a controller.
    pub open spec fn without_process(self) -> ControllerLoop {
        ControllerLoop { process: None, ..self }
    }

    /// What a command does while the loop waits.
    pub open spec fn waiting_step(self, event: LoopEvent) -> (ControllerLoop, Seq<LoopAction>) {
        match event {
            LoopEvent::Command(RunnerCommand::Restart) => (
                self.launching(FIRST_DELAY_MS),
                seq![LoopAction::Launch],
            ),
            LoopEvent::Elapsed => (
                self.launching(next_delay(self.delay_ms)),
                seq![LoopAction::Launch],
            ),
            LoopEvent::Command(_) | LoopEvent::Disconnected => (self.over(), Seq::empty()),
            _ => (self, Seq::empty()),
        }
    }

    /// What an event does while a controller runs.
    pub open spec fn running_step(self, event: LoopEvent) -> (ControllerLoop, Seq<LoopAction>) {
        match event {
            LoopEvent::Command(RunnerCommand::Restart) => (
                self.without_process().launching(FIRST_DELAY_MS),
                seq![LoopAction::Terminate, LoopAction::Publish(None), LoopAction::Launch],
            ),
            LoopEvent::Command(RunnerCommand::EndSession) => (
                ControllerLoop { phase: LoopPhase::Ending, ..self },
                seq![LoopAction::AwaitExit(END_WAIT_MS)],
            ),
            LoopEvent::Command(RunnerCommand::Detach) | LoopEvent::Disconnected => (
                self.over(),
                Seq::empty(),
            ),
            LoopEvent::Exited(ran) => {
                let delay_ms = if ran@ >= STEADY_SECONDS * 1_000_000_000 {
                    FIRST_DELAY_MS
                } else {
                    self.delay_ms
                };
                (
                    ControllerLoop { phase: LoopPhase::Waiting, delay_ms, process: None },
                    seq![LoopAction::Publish(None), LoopAction::Wait(delay_ms)],
                )
            },
            _ => (self, Seq::empty()),
        }
    }

    /// What an event does to the loop.
    pub open spec fn step(self, event: LoopEvent) -> (ControllerLoop, Seq<LoopAction>) {
        match self.phase {
            LoopPhase::Launching => match event {
                LoopEvent::Launched(process) => (
                    ControllerLoop {
                        phase: LoopPhase::Running,
                        process: Some(process),
                        ..self
                    },
                    seq![LoopAction::Publish(Some(process))],
                ),
                LoopEvent::LaunchFailed => (
                    ControllerLoop { phase: LoopPhase::Waiting, ..self },
                    seq![LoopAction::Wait(self.delay_ms)],
                ),
                _ => (self, Seq::empty()),
            },
            LoopPhase::Waiting => self.waiting_step(event),
            LoopPhase::Running => self.running_step(event),
            LoopPhase::Ending => match event {
                LoopEvent::Exited(_) => (
                    self.without_process().over(),
                    seq![LoopAction::Publish(None)],
                ),
                LoopEvent::Elapsed => (
                    self.without_process().over(),
                    seq![LoopAction::Terminate, LoopAction::Publish(None)],
                ),
                _ => (self, Seq::empty()),
            },
            LoopPhase::Over => (self, Seq::empty()),
        }
    }

    /// A loop that starts with a controller that runs already, or launches one.
    pub fn start(initial: Option<ProcessIdentity>) -> (result: (ControllerLoop, Vec<LoopAction>))
        ensures
            result.0.well_formed(),
            result.0.delay_ms == FIRST_DELAY_MS,
            result.0.process == initial,
            match initial {
                Some(process) => result.0.phase == LoopPhase::Running && result.1@ == seq![
                    LoopAction::Publish(Some(process)),
                ],
                None => result.0.phase == LoopPhase::Launching && result.1@ == seq![
                    LoopAction::Launch,
                ],
            },
    {
        let mut actions: Vec<LoopAction> = Vec::new();
        match initial {
            Some(process) => {
                actions.push(LoopAction::Publish(Some(process)));
                assert(actions@ =~= seq![LoopAction::Publish(Some(process))]);
                (
                    ControllerLoop {
                        phase: LoopPhase::Running,
                        delay_ms: FIRST_DELAY_MS,
                        process: initial,
                    },
                    actions,
                )
            },
            None => {
                actions.push(LoopAction::Launch);
                assert(actions@ =~= seq![LoopAction::Launch]);
                (
                    ControllerLoop {
                        phase: LoopPhase::Launching,
                        delay_ms: FIRST_DELAY_MS,
                        process: initial,
                    },
                    actions,
                )
            },
        }
    }

    /// Takes in an event, and gives what is to be done.
    pub fn handle(self, event: LoopEvent) -> (result: (ControllerLoop, Vec<LoopAction>))
        requires
            self.well_formed(),
        ensures
            result.0 == self.step(event).0,
            result.1@ == self.step(event).1,
            result.0.well_formed(),
    {
        let mut actions: Vec<LoopAction> = Vec::new();
        let mut next: ControllerLoop = self;
        match self.phase {
            LoopPhase::Launching => match event {
                LoopEvent::Launched(process) => {
                    next.phase = LoopPhase::Running;
                    next.process = Some(process);
                    actions.push(LoopAction::Publish(Some(process)));
                },
                LoopEvent::LaunchFailed => {
                    next.phase = LoopPhase::Waiting;
                    actions.push(LoopAction::Wait(self.delay_ms));
                },
                _ => {},
            },
            LoopPhase::Waiting => match event {
                LoopEvent::Command(RunnerCommand::Restart) => {
                    next.phase = LoopPhase::Launching;
                    next.delay_ms = FIRST_DELAY_MS;
                    actions.push(LoopAction::Launch);
                },
                LoopEvent::Elapsed => {
                    let doubled: u64 = self.delay_ms * 2;
                    next.phase = LoopPhase::Launching;
                    next.delay_ms = if doubled < LONGEST_DELAY_MS {
                        doubled
                    } else {
                        LONGEST_DELAY_MS
                    };
                    actions.push(LoopAction::Launch);
                },
                LoopEvent::Command(_) | LoopEvent::Disconnected => {
                    next.phase = LoopPhase::Over;
                },
                _ => {},
            },
            LoopPhase::Running => match event {
                LoopEvent::Command(RunnerCommand::Restart) => {
                    next.phase = LoopPhase::Launching;
                    next.delay_ms = FIRST_DELAY_MS;
                    next.process = None;
                    actions.push(LoopAction::Terminate);
                    actions.push(LoopAction::Publish(None));
                    actions.push(LoopAction::Launch);
                },
                LoopEvent::Command(RunnerCommand::EndSession) => {
                    next.phase = LoopPhase::Ending;
                    actions.push(LoopAction::AwaitExit(END_WAIT_MS));
                },
                LoopEvent::Command(RunnerCommand::Detach) | LoopEvent::Disconnected => {
                    next.phase = LoopPhase::Over;
                },
                LoopEvent::Exited(ran) => {
                    if ran.as_nanos() >= STEADY_SECONDS as u128 * 1_000_000_000 {
                        next.delay_ms = FIRST_DELAY_MS;
                    }
                    next.phase = LoopPhase::Waiting;
                    next.process = None;
                    actions.push(LoopAction::Publish(None));
                    actions.push(LoopAction::Wait(next.delay_ms));
                },
                _ => {},
            },
            LoopPhase::Ending => match event {
                LoopEvent::Exited(_) => {
                    next.phase = LoopPhase::Over;
                    next.process = None;
                    actions.push(LoopAction::Publish(None));
                },
                LoopEvent::Elapsed => {
                    next.phase = LoopPhase::Over;
                    next.process = None;
                    actions.push(LoopAction::Terminate);
                    actions.push(LoopAction::Publish(None));
                },
                _ => {},
            },
            LoopPhase::Over => {},
        }
        assert(actions@ =~= self.step(event).1);
        (next, actions)
    }
}

/// The waits of the loop stay within their bounds, and whatever is waited for is one of them.
pub proof fn law_controller_waits_are_bounded(state: ControllerLoop, event: LoopEvent, i: int)
    requires
        state.well_formed(),
        0 <= i < state.step(event).1.len(),
    ensures
        state.step(event).0.well_formed(),
        state.step(event).1[i] matches LoopAction::Wait(delay) ==> FIRST_DELAY_MS <= delay
            <= LONGEST_DELAY_MS && delay == state.step(event).0.delay_ms,
{
}

/// The end of a session leaves no controller behind: it is waited for, terminated where it does not
/// end in time, and the loop is over.
pub proof fn law_ended_sessions_leave_no_controller(state: ControllerLoop, ran: Duration)
    requires
        state.phase == LoopPhase::Running,
    ensures
        ({
            let ending = state.step(LoopEvent::Command(RunnerCommand::EndSession)).0;
            let ended = ending.step(LoopEvent::Exited(ran));
            let forced = ending.step(LoopEvent::Elapsed);
            &&& ending.phase == LoopPhase::Ending
            &&& ended.0.phase == LoopPhase::Over && ended.0.process is None
            &&& forced.0.phase == LoopPhase::Over && forced.0.process is None
            &&& forced.1.contains(LoopAction::Terminate)
        }),
{
    let ending = state.step(LoopEvent::Command(RunnerCommand::EndSession)).0;
    let forced = ending.step(LoopEvent::Elapsed);
    assert(forced.1[0] == LoopAction::Terminate);
}

/// A host that detaches, or goes away, leaves its controllers running and known.
pub proof fn law_detached_controllers_keep_running(state: ControllerLoop)
    requires
        state.phase == LoopPhase::Running,
    ensures
        state.step(LoopEvent::Command(RunnerCommand::Detach)) == (
            state.over(),
            Seq::<LoopAction>::empty(),
        ),
        state.step(LoopEvent::Disconnected) == (state.over(), Seq::<LoopAction>::empty()),
        state.over().process == state.process,
{
}

/// A controller that ended is launched again, unless the session ends or the host goes away.
pub proof fn law_controllers_are_launched_again(state: ControllerLoop, ran: Duration)
    requires
        state.phase == LoopPhase::Running,
    ensures
        ({
            let waiting = state.step(LoopEvent::Exited(ran)).0;
            let again = waiting.step(LoopEvent::Elapsed);
            &&& again.0.phase == LoopPhase::Launching
            &&& again.1 == seq![LoopAction::Launch]
        }),
{
}

/// Once the loop is over, nothing is done any more.
pub proof fn law_loops_stay_over(state: ControllerLoop, event: LoopEvent)
    requires
        state.phase == LoopPhase::Over,
    ensures
        state.step(event) == (state, Seq::<LoopAction>::empty()),
{
}

} // verus!
