//! The course of a test run: which test runs next, what to send or wait for,
//! and when a crashed qemu is restarted.
//!
//! A run is a state machine. The caller performs the [RunAction] that a step
//! returns (reading a line, sending a command, restarting or waiting for
//! qemu) and hands what happened back as a [RunEvent].

use vstd::prelude::*;

use crate::runner::testproto::{
    is_start_test_line, is_successful_exit, is_successful_exit_spec, isolated_start_command,
    spec_isolated_start_command,
    parse_start_test, parse_test_result, QemuExitError, TestCount, TestRunError,
};
use crate::text::{decimal, spec_parse_unsigned};

verus! {

/// What happened since the last step.
#[derive(Debug)]
pub enum RunEvent {
    /// A line arrived from the kernel
    Line(String),
    /// The last command was sent
    Sent,
    /// Qemu exited, with success or not, and with an exit code if it has one
    Exited { success: bool, code: Option<i32> },
}

/// What the caller does next.
#[derive(Debug, PartialEq, Eq)]
pub enum RunAction {
    /// Read the next line from the kernel
    ReceiveLine,
    /// Send `start test\n`, which lets the kernel run the test it announced
    ConfirmStart,
    /// Start qemu anew, send `resume\n` and the index `next_test` on a line of
    /// its own, then do what [CombinedRun::resume_action] says
    Restart { next_test: usize },
    /// Start a fresh qemu for a single test and send it `command`
    Launch { command: String },
    /// Wait until qemu exits
    WaitForExit,
    /// The run is over with these counts
    Finished(TestCount),
}

/// Where a run of all tests in one qemu stands.
#[derive(Debug, Clone, Copy, PartialEq, Eq, Structural)]
pub enum CombinedPhase {
    /// Waiting for the kernel to announce the next test
    AwaitStart,
    /// Waiting for the confirmation of the start to be sent
    AwaitConfirmed,
    /// Waiting for the result of the running test
    AwaitResult,
    /// All tests ran; waiting for qemu to exit
    AwaitExit,
    /// The run is over
    Done,
}

/// The outcome of an exit of qemu while a test ran, when the run goes on
/// after crashes if `keep_going`.
pub open spec fn crash_outcome(keep_going: bool, success: bool, code: Option<i32>) -> Result<
    (),
    TestRunError,
> {
    if !keep_going {
        Err(TestRunError::QemuExited)
    } else {
        match is_successful_exit_spec(success, code) {
            Err(e) => Err(TestRunError::Exit(e)),
            Ok(true) => Err(TestRunError::UnexpectedSuccess),
            Ok(false) => Ok(()),
        }
    }
}

/// Decides whether the run goes on after qemu exited while a test ran: only
/// if `keep_going` and the kernel reported a failure.
fn check_crash(keep_going: bool, success: bool, code: Option<i32>) -> (r: Result<(), TestRunError>)
    ensures
        r == crash_outcome(keep_going, success, code),
{
    if !keep_going {
        return Err(TestRunError::QemuExited);
    }
    match is_successful_exit(success, code) {
        Err(e) => Err(TestRunError::Exit(e)),
        Ok(true) => Err(TestRunError::UnexpectedSuccess),
        Ok(false) => Ok(()),
    }
}

/// A run of all tests in one qemu, which is restarted after a crash if the
/// run keeps going.
#[derive(Debug, Clone, Copy)]
pub struct CombinedRun {
    /// The index of the test that runs or runs next
    pub current: usize,
    /// The number of tests
    pub count: usize,
    /// The number of tests that succeeded
    pub success: usize,
    /// Whether the run goes on after qemu crashed
    pub keep_going: bool,
    /// Where the run stands
    pub phase: CombinedPhase,
}

impl CombinedRun {
    /// The run is consistent: no more tests succeeded than ran, no more ran
    /// than exist, and a test is underway exactly while tests are left.
    pub open spec fn wf(self) -> bool {
        &&& self.success <= self.current <= self.count
        &&& (self.phase == CombinedPhase::AwaitStart || self.phase == CombinedPhase::AwaitConfirmed
            || self.phase == CombinedPhase::AwaitResult) ==> self.current < self.count
        &&& (self.phase == CombinedPhase::AwaitExit || self.phase == CombinedPhase::Done)
            ==> self.current == self.count
    }

    /// The phase in which the run waits for the next test, or for qemu to
    /// exit once no test is left.
    pub open spec fn next_phase(current: usize, count: usize) -> CombinedPhase {
        if current < count {
            CombinedPhase::AwaitStart
        } else {
            CombinedPhase::AwaitExit
        }
    }

    /// The action of the phase in which the run waits for the next test.
    pub open spec fn waiting_action(phase: CombinedPhase) -> RunAction {
        if phase == CombinedPhase::AwaitStart {
            RunAction::ReceiveLine
        } else {
            RunAction::WaitForExit
        }
    }

    /// A run of `count` tests, after the kernel was told to run them, and the
    /// first action.
    pub fn new(count: usize, keep_going: bool) -> (r: (Self, RunAction))
        ensures
            r.0.wf(),
            r.0.current == 0,
            r.0.success == 0,
            r.0.count == count,
            r.0.keep_going == keep_going,
            r.0.phase == Self::next_phase(0, count),
            r.1 == Self::waiting_action(r.0.phase),
    {
        if count > 0 {
            (
                CombinedRun { current: 0, count, success: 0, keep_going, phase: CombinedPhase::AwaitStart },
                RunAction::ReceiveLine,
            )
        } else {
            (
                CombinedRun { current: 0, count, success: 0, keep_going, phase: CombinedPhase::AwaitExit },
                RunAction::WaitForExit,
            )
        }
    }

    /// What to do once qemu was restarted.
    pub fn resume_action(&self) -> (r: RunAction)
        ensures
            r == Self::waiting_action(self.phase),
    {
        if matches!(self.phase, CombinedPhase::AwaitStart) {
            RunAction::ReceiveLine
        } else {
            RunAction::WaitForExit
        }
    }

    /// Whether `event` can happen in the current phase.
    pub open spec fn expects(self, event: RunEvent) -> bool {
        match self.phase {
            CombinedPhase::AwaitStart => match event {
                RunEvent::Line(line) => is_start_test_line(line@),
                RunEvent::Sent => false,
                RunEvent::Exited { .. } => true,
            },
            CombinedPhase::AwaitConfirmed => !(event is Line),
            CombinedPhase::AwaitResult => match event {
                RunEvent::Line(_) => true,
                RunEvent::Sent => false,
                RunEvent::Exited { .. } => self.current + 1 < self.count,
            },
            CombinedPhase::AwaitExit => event is Exited,
            CombinedPhase::Done => false,
        }
    }

    /// The state after qemu crashed while the test `current` ran.
    pub open spec fn after_crash(self) -> Self {
        CombinedRun {
            current: (self.current + 1) as usize,
            phase: Self::next_phase((self.current + 1) as usize, self.count),
            ..self
        }
    }

    /// Handles a crash of qemu while a test ran.
    fn crash(&mut self, success: bool, code: Option<i32>) -> (r: Result<RunAction, TestRunError>)
        requires
            old(self).wf(),
            old(self).current < old(self).count,
        ensures
            final(self).wf(),
            *final(self) == old(self).after_crash(),
            r == (match crash_outcome(old(self).keep_going, success, code) {
                Ok(()) => Ok(RunAction::Restart { next_test: (old(self).current + 1) as usize }),
                Err(e) => Err(e),
            }),
    {
        self.current = self.current + 1;
        self.phase = if self.current < self.count {
            CombinedPhase::AwaitStart
        } else {
            CombinedPhase::AwaitExit
        };
        match check_crash(self.keep_going, success, code) {
            Ok(()) => Ok(RunAction::Restart { next_test: self.current }),
            Err(e) => Err(e),
        }
    }

    /// Takes the next event and returns the next action, or the reason the
    /// run fails.
    ///
    /// The kernel announces each test with `start test <index>`; the run
    /// checks that it is the expected test, confirms the start and reads the
    /// result. A crash counts the test as failed and restarts qemu if the run
    /// keeps going. Once all tests ran, the run waits for qemu to exit and
    /// checks that its exit reports an outcome.
    pub fn step(&mut self, event: RunEvent) -> (r: Result<RunAction, TestRunError>)
        requires
            old(self).wf(),
            old(self).expects(event),
        ensures
            final(self).wf(),
            final(self).count == old(self).count,
            final(self).keep_going == old(self).keep_going,
            old(self).current <= final(self).current <= old(self).current + 1,
            old(self).success <= final(self).success <= old(self).success + 1,
            r matches Ok(RunAction::Finished(counts)) ==> counts.success <= counts.total
                && counts.total == old(self).count,
            match (old(self).phase, event) {
                (CombinedPhase::AwaitStart, RunEvent::Line(line)) => match spec_parse_unsigned(
                    line@.skip(11),
                    usize::MAX as nat,
                ) {
                    None => r == Err::<RunAction, TestRunError>(TestRunError::InvalidTestIndex),
                    Some(index) => if index != old(self).current {
                        r == Err::<RunAction, TestRunError>(
                            TestRunError::UnexpectedTest {
                                expected: old(self).current,
                                started: index as usize,
                            },
                        )
                    } else {
                        r == Ok::<RunAction, TestRunError>(RunAction::ConfirmStart)
                            && *final(self) == CombinedRun {
                            phase: CombinedPhase::AwaitConfirmed,
                            ..*old(self)
                        }
                    },
                },
                (CombinedPhase::AwaitConfirmed, RunEvent::Sent) => r == Ok::<
                    RunAction,
                    TestRunError,
                >(RunAction::ReceiveLine) && *final(self) == CombinedRun {
                    phase: CombinedPhase::AwaitResult,
                    ..*old(self)
                },
                (CombinedPhase::AwaitResult, RunEvent::Line(line)) => if line@ == "test succeeded"@
                    || line@ == "test failed"@ {
                    let passed = line@ == "test succeeded"@;
                    let current = (old(self).current + 1) as usize;
                    let next = CombinedRun {
                        current,
                        success: (old(self).success + if passed {
                            1int
                        } else {
                            0
                        }) as usize,
                        phase: Self::next_phase(current, old(self).count),
                        ..*old(self)
                    };
                    *final(self) == next && r == Ok::<RunAction, TestRunError>(
                        Self::waiting_action(next.phase),
                    )
                } else {
                    r matches Err(TestRunError::UnknownTestResult(text)) && text@ == line@
                },
                (CombinedPhase::AwaitExit, RunEvent::Exited { success, code }) => match is_successful_exit_spec(
                    success,
                    code,
                ) {
                    Err(e) => r == Err::<RunAction, TestRunError>(TestRunError::Exit(e)),
                    Ok(_) => r == Ok::<RunAction, TestRunError>(
                        RunAction::Finished(
                            TestCount { success: old(self).success, total: old(self).count },
                        ),
                    ) && final(self).phase == CombinedPhase::Done,
                },
                (_, RunEvent::Exited { success, code }) => *final(self) == old(self).after_crash()
                    && r == (match crash_outcome(old(self).keep_going, success, code) {
                    Ok(()) => Ok(RunAction::Restart { next_test: (old(self).current + 1) as usize }),
                    Err(e) => Err(e),
                }),
                _ => true,
            },
    {
        match event {
            RunEvent::Line(line) => {
                if matches!(self.phase, CombinedPhase::AwaitStart) {
                    match parse_start_test(line.as_str()) {
                        None => Err(TestRunError::InvalidTestIndex),
                        Some(index) => {
                            if index != self.current {
                                Err(
                                    TestRunError::UnexpectedTest {
                                        expected: self.current,
                                        started: index,
                                    },
                                )
                            } else {
                                self.phase = CombinedPhase::AwaitConfirmed;
                                Ok(RunAction::ConfirmStart)
                            }
                        },
                    }
                } else {
                    match parse_test_result(line.as_str()) {
                        Err(e) => Err(e),
                        Ok(passed) => {
                            if passed {
                                self.success = self.success + 1;
                            }
                            self.current = self.current + 1;
                            if self.current < self.count {
                                self.phase = CombinedPhase::AwaitStart;
                                Ok(RunAction::ReceiveLine)
                            } else {
                                self.phase = CombinedPhase::AwaitExit;
                                Ok(RunAction::WaitForExit)
                            }
                        },
                    }
                }
            },
            RunEvent::Sent => {
                self.phase = CombinedPhase::AwaitResult;
                Ok(RunAction::ReceiveLine)
            },
            RunEvent::Exited { success, code } => {
                if matches!(self.phase, CombinedPhase::AwaitExit) {
                    match is_successful_exit(success, code) {
                        Err(e) => Err(TestRunError::Exit(e)),
                        Ok(_) => {
                            self.phase = CombinedPhase::Done;
                            Ok(
                                RunAction::Finished(
                                    TestCount { success: self.success, total: self.count },
                                ),
                            )
                        },
                    }
                } else {
                    self.crash(success, code)
                }
            },
        }
    }
}

/// Where a run of tests that each get a fresh qemu stands.
#[derive(Debug, Clone, Copy, PartialEq, Eq, Structural)]
pub enum IsolatedPhase {
    /// Waiting for the command that starts the test to be sent
    AwaitSent,
    /// Waiting for the kernel to announce the test
    AwaitStart,
    /// Waiting for qemu to exit after the test
    AwaitExit,
    /// The run is over
    Done,
}

/// A run of tests that each get a fresh qemu; a crash fails the test.
#[derive(Debug, Clone, Copy)]
pub struct IsolatedRun {
    /// The index of the test that runs or runs next
    pub current: usize,
    /// The number of tests
    pub count: usize,
    /// The number of tests that succeeded
    pub success: usize,
    /// Whether the tests are those expected to panic
    pub panic_tests: bool,
    /// Where the run stands
    pub phase: IsolatedPhase,
}

impl IsolatedRun {
    /// The run is consistent: no more tests succeeded than ran, no more ran
    /// than exist, and a test is underway until the run is over.
    pub open spec fn wf(self) -> bool {
        &&& self.success <= self.current <= self.count
        &&& self.phase != IsolatedPhase::Done ==> self.current < self.count
        &&& self.phase == IsolatedPhase::Done ==> self.current == self.count
    }

    /// Whether the run is at `self` and `action` is next once `current` tests
    /// ran: the launch of test `current` in a fresh qemu, waiting for the
    /// command to be sent, or, once all tests ran, the end with the counts.
    pub open spec fn advanced(self, action: RunAction) -> bool {
        if self.current < self.count {
            &&& self.phase == IsolatedPhase::AwaitSent
            &&& action matches RunAction::Launch { command } && command@
                == spec_isolated_start_command(self.panic_tests, self.current as nat)
        } else {
            &&& self.phase == IsolatedPhase::Done
            &&& action == RunAction::Finished(TestCount { success: self.success, total: self.count })
        }
    }

    /// What the next action is once `current` tests ran: the launch of the
    /// next test, or the end.
    fn advance(&mut self) -> (r: RunAction)
        requires
            old(self).success <= old(self).current <= old(self).count,
        ensures
            final(self).wf(),
            final(self).current == old(self).current,
            final(self).success == old(self).success,
            final(self).count == old(self).count,
            final(self).panic_tests == old(self).panic_tests,
            final(self).advanced(r),
    {
        if self.current < self.count {
            self.phase = IsolatedPhase::AwaitSent;
            RunAction::Launch { command: isolated_start_command(self.panic_tests, self.current) }
        } else {
            self.phase = IsolatedPhase::Done;
            RunAction::Finished(TestCount { success: self.success, total: self.count })
        }
    }

    /// A run of `count` tests, those expected to panic if `panic_tests`, and
    /// the first action.
    pub fn new(count: usize, panic_tests: bool) -> (r: (Self, RunAction))
        ensures
            r.0.wf(),
            r.0.current == 0,
            r.0.success == 0,
            r.0.count == count,
            r.0.panic_tests == panic_tests,
            r.0.advanced(r.1),
    {
        let mut run = IsolatedRun { current: 0, count, success: 0, panic_tests, phase: IsolatedPhase::Done };
        let action = run.advance();
        (run, action)
    }

    /// Whether `event` can happen in the current phase.
    pub open spec fn expects(self, event: RunEvent) -> bool {
        match self.phase {
            IsolatedPhase::AwaitSent => !(event is Line),
            IsolatedPhase::AwaitStart => match event {
                RunEvent::Line(line) => is_start_test_line(line@),
                RunEvent::Sent => false,
                RunEvent::Exited { .. } => true,
            },
            IsolatedPhase::AwaitExit => event is Exited,
            IsolatedPhase::Done => false,
        }
    }

    /// Takes the next event and returns the next action, or the reason the
    /// run fails.
    ///
    /// Each test gets a fresh qemu, which is told which test to run; the
    /// kernel announces it with `start test <index>`, and the exit of qemu
    /// reports whether it succeeded. Qemu exiting before the test started
    /// fails the test, unless the exit reports success.
    pub fn step(&mut self, event: RunEvent) -> (r: Result<RunAction, TestRunError>)
        requires
            old(self).wf(),
            old(self).expects(event),
        ensures
            final(self).wf(),
            final(self).count == old(self).count,
            final(self).panic_tests == old(self).panic_tests,
            old(self).current <= final(self).current <= old(self).current + 1,
            old(self).success <= final(self).success <= old(self).success + 1,
            r matches Ok(RunAction::Finished(counts)) ==> counts.success <= counts.total
                && counts.total == old(self).count,
            match (old(self).phase, event) {
                (IsolatedPhase::AwaitSent, RunEvent::Sent) => r == Ok::<RunAction, TestRunError>(
                    RunAction::ReceiveLine,
                ) && *final(self) == IsolatedRun { phase: IsolatedPhase::AwaitStart, ..*old(self) },
                (IsolatedPhase::AwaitStart, RunEvent::Line(line)) => match spec_parse_unsigned(
                    line@.skip(11),
                    usize::MAX as nat,
                ) {
                    None => r == Err::<RunAction, TestRunError>(TestRunError::InvalidTestIndex),
                    Some(index) => if index != old(self).current {
                        r == Err::<RunAction, TestRunError>(
                            TestRunError::UnexpectedTest {
                                expected: old(self).current,
                                started: index as usize,
                            },
                        )
                    } else {
                        r == Ok::<RunAction, TestRunError>(RunAction::WaitForExit)
                            && *final(self) == IsolatedRun {
                            phase: IsolatedPhase::AwaitExit,
                            ..*old(self)
                        }
                    },
                },
                (IsolatedPhase::AwaitExit, RunEvent::Exited { success, code }) => match is_successful_exit_spec(
                    success,
                    code,
                ) {
                    Err(e) => r == Err::<RunAction, TestRunError>(TestRunError::Exit(e)),
                    Ok(passed) => final(self).current == old(self).current + 1 && final(self).success
                        == old(self).success + if passed {
                        1int
                    } else {
                        0
                    } && (r matches Ok(action) && final(self).advanced(action)),
                },
                (_, RunEvent::Exited { success, code }) => match is_successful_exit_spec(
                    success,
                    code,
                ) {
                    Err(e) => r == Err::<RunAction, TestRunError>(TestRunError::Exit(e)),
                    Ok(true) => r == Err::<RunAction, TestRunError>(TestRunError::UnexpectedSuccess),
                    Ok(false) => final(self).current == old(self).current + 1 && final(self).success
                        == old(self).success && (r matches Ok(action) && final(self).advanced(action)),
                },
                _ => true,
            },
    {
        match event {
            RunEvent::Sent => {
                self.phase = IsolatedPhase::AwaitStart;
                Ok(RunAction::ReceiveLine)
            },
            RunEvent::Line(line) => {
                match parse_start_test(line.as_str()) {
                    None => Err(TestRunError::InvalidTestIndex),
                    Some(index) => {
                        if index != self.current {
                            Err(
                                TestRunError::UnexpectedTest { expected: self.current, started: index },
                            )
                        } else {
                            self.phase = IsolatedPhase::AwaitExit;
                            Ok(RunAction::WaitForExit)
                        }
                    },
                }
            },
            RunEvent::Exited { success, code } => {
                let test_ran = matches!(self.phase, IsolatedPhase::AwaitExit);
                match is_successful_exit(success, code) {
                    Err(e) => Err(TestRunError::Exit(e)),
                    Ok(passed) => {
                        if !test_ran && passed {
                            return Err(TestRunError::UnexpectedSuccess);
                        }
                        if passed {
                            self.success = self.success + 1;
                        }
                        self.current = self.current + 1;
                        Ok(self.advance())
                    },
                }
            },
        }
    }
}

} // verus!
