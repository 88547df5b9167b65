//! The protocol the runner speaks with the test kernel, and the rules that
//! judge how qemu exited.
//!
//! The kernel reports the outcome of a test run through the exit code of
//! qemu's `isa-debug-exit` device, and talks to the runner over a serial port
//! that qemu connects to a tcp socket: after a handshake the runner asks for
//! the number of tests and then starts them one after the other. The steps
//! here decide what to send and what a received line means; the caller does
//! the reading and writing.

use vstd::prelude::*;
use vstd::string::StringExecFns;

use crate::runner::args::TestArgs;
use crate::text::{decimal, parse_unsigned, push_decimal, spec_parse_unsigned};

verus! {

/// The exit code of qemu when the kernel reports success: `0x10 << 1 | 1`.
pub const QEMU_EXIT_SUCCESS_CODE: i32 = 33;

/// The exit code of qemu when the kernel reports failure: `0x11 << 1 | 1`.
pub const QEMU_EXIT_FAILURE_CODE: i32 = 35;

/// The ways in which the exit of qemu can fail to report an outcome.
#[derive(Debug, Clone, Copy, PartialEq, Eq, Structural)]
pub enum QemuExitError {
    /// Qemu exited with code 0, which the kernel never asks for
    ExitedWithZero,
    /// Qemu exited with a code the kernel does not use
    UnexpectedCode(i32),
    /// Qemu did not succeed but has no exit code
    NoCode,
}

/// Whether the kernel reported success, given whether qemu exited
/// successfully and its exit code.
pub fn is_successful_exit(success: bool, code: Option<i32>) -> (r: Result<bool, QemuExitError>)
    ensures
        success ==> r == Err::<bool, QemuExitError>(QemuExitError::ExitedWithZero),
        !success ==> r == (match code {
            Some(c) => if c == QEMU_EXIT_SUCCESS_CODE {
                Ok(true)
            } else if c == QEMU_EXIT_FAILURE_CODE {
                Ok(false)
            } else {
                Err(QemuExitError::UnexpectedCode(c))
            },
            None => Err(QemuExitError::NoCode),
        }),
{
    if success {
        return Err(QemuExitError::ExitedWithZero);
    }
    match code {
        Some(c) => {
            if c == QEMU_EXIT_SUCCESS_CODE {
                Ok(true)
            } else if c == QEMU_EXIT_FAILURE_CODE {
                Ok(false)
            } else {
                Err(QemuExitError::UnexpectedCode(c))
            }
        },
        None => Err(QemuExitError::NoCode),
    }
}

/// The ways a test run can fail.
#[derive(Debug, Clone, PartialEq, Eq)]
pub enum TestRunError {
    /// The exit of qemu reports no outcome
    Exit(QemuExitError),
    /// The kernel reported that tests failed
    TestsFailed,
    /// The kernel sent a test index that is not a number
    InvalidTestIndex,
    /// The kernel started another test than the one expected
    UnexpectedTest { expected: usize, started: usize },
    /// The kernel sent a test result that is neither success nor failure
    UnknownTestResult(String),
    /// Qemu exited while a test ran, and the run does not go on after a crash
    QemuExited,
    /// Qemu exited with success while a test ran
    UnexpectedSuccess,
}

/// Judges a run of the test kernel without the test protocol: it succeeds
/// where the kernel reported success.
pub fn validate_qemu_run(success: bool, code: Option<i32>) -> (r: Result<(), TestRunError>)
    ensures
        r == (match is_successful_exit_spec(success, code) {
            Ok(true) => Ok(()),
            Ok(false) => Err(TestRunError::TestsFailed),
            Err(e) => Err(TestRunError::Exit(e)),
        }),
{
    match is_successful_exit(success, code) {
        Ok(true) => Ok(()),
        Ok(false) => Err(TestRunError::TestsFailed),
        Err(e) => Err(TestRunError::Exit(e)),
    }
}

/// What [is_successful_exit] returns.
pub open spec fn is_successful_exit_spec(success: bool, code: Option<i32>) -> Result<bool, QemuExitError> {
    if success {
        Err(QemuExitError::ExitedWithZero)
    } else {
        match code {
            Some(c) => if c == QEMU_EXIT_SUCCESS_CODE {
                Ok(true)
            } else if c == QEMU_EXIT_FAILURE_CODE {
                Ok(false)
            } else {
                Err(QemuExitError::UnexpectedCode(c))
            },
            None => Err(QemuExitError::NoCode),
        }
    }
}

/// The number of tests that ran and of those that succeeded.
#[derive(Debug, Clone, Copy, PartialEq, Eq, Structural)]
pub struct TestCount {
    /// The number of tests that succeeded
    pub success: usize,
    /// The number of tests that ran
    pub total: usize,
}

impl Default for TestCount {
    fn default() -> (r: Self)
        ensures
            r.success == 0 && r.total == 0,
    {
        TestCount { success: 0, total: 0 }
    }
}

impl TestCount {
    /// The counts of two runs together.
    pub fn add(self, rhs: Self) -> (r: Self)
        requires
            self.success + rhs.success <= usize::MAX,
            self.total + rhs.total <= usize::MAX,
        ensures
            r.success == self.success + rhs.success,
            r.total == self.total + rhs.total,
    {
        TestCount { success: self.success + rhs.success, total: self.total + rhs.total }
    }

    /// Adds the counts of another run.
    pub fn add_assign(&mut self, rhs: Self)
        requires
            old(self).success + rhs.success <= usize::MAX,
            old(self).total + rhs.total <= usize::MAX,
        ensures
            final(self).success == old(self).success + rhs.success,
            final(self).total == old(self).total + rhs.total,
    {
        self.success = self.success + rhs.success;
        self.total = self.total + rhs.total;
    }

    /// Whether every test succeeded.
    pub fn all_succeeded(&self) -> (r: bool)
        ensures
            r == (self.success == self.total),
    {
        self.success == self.total
    }
}

/// The message both sides send when the kernel is ready for tests:
/// `tests ready\n`.
pub open spec fn handshake_message() -> Seq<u8> {
    seq![116u8, 101u8, 115u8, 116u8, 115u8, 32u8, 114u8, 101u8, 97u8, 100u8, 121u8, 10u8]
}

/// The length of the handshake message.
pub const HANDSHAKE_LEN: usize = 12;

/// The handshake message `tests ready\n` as bytes.
pub fn handshake_bytes() -> (r: Vec<u8>)
    ensures
        r@ == handshake_message(),
{
    vec![116u8, 101u8, 115u8, 116u8, 115u8, 32u8, 114u8, 101u8, 97u8, 100u8, 121u8, 10u8]
}

/// Watches the bytes the kernel sends for the handshake message, dropping
/// whatever comes before it.
pub struct HandshakeMatcher {
    position: usize,
    expected: Vec<u8>,
    received: Ghost<Seq<u8>>,
}

impl HandshakeMatcher {
    /// The bytes received so far.
    pub closed spec fn received(&self) -> Seq<u8> {
        self.received@
    }

    /// The number of bytes of the message matched by the last bytes received.
    pub closed spec fn position(&self) -> nat {
        self.position as nat
    }

    /// The matcher is consistent: the last bytes received are the start of
    /// the message that it counts.
    pub closed spec fn wf(&self) -> bool {
        &&& self.expected@ == handshake_message()
        &&& self.position < HANDSHAKE_LEN
        &&& self.position <= self.received@.len()
        &&& self.received@.subrange(
            self.received@.len() - self.position,
            self.received@.len() as int,
        ) == handshake_message().take(self.position as int)
    }

    /// A matcher that has seen nothing yet.
    pub fn new() -> (r: Self)
        ensures
            r.wf(),
            r.received() == Seq::<u8>::empty(),
            r.position() == 0,
    {
        let r = HandshakeMatcher { position: 0, expected: handshake_bytes(), received: Ghost(Seq::empty()) };
        assert(r.received@.subrange(0, 0) =~= handshake_message().take(0));
        r
    }

    /// Takes the next byte; `true` once the message was received, which
    /// then ends the bytes received so far.
    ///
    /// A byte that does not continue the message starts the match anew
    /// with the next byte.
    pub fn step(&mut self, byte: u8) -> (r: bool)
        requires
            old(self).wf(),
        ensures
            final(self).received() == old(self).received().push(byte),
            r ==> final(self).received().len() >= HANDSHAKE_LEN && final(self).received().subrange(
                final(self).received().len() - HANDSHAKE_LEN,
                final(self).received().len() as int,
            ) == handshake_message(),
            r == (byte == handshake_message()[old(self).position() as int] && old(self).position()
                + 1 == HANDSHAKE_LEN),
            !r ==> final(self).wf() && final(self).position() == if byte == handshake_message()[old(
                self,
            ).position() as int] {
                old(self).position() + 1
            } else {
                0
            },
    {
        let ghost before = self.received@;
        let ghost new_received = before.push(byte);
        let matches = byte == self.expected[self.position];
        let position = if matches {
            self.position + 1
        } else {
            0
        };
        proof {
            let n = new_received.len();
            if matches {
                assert(new_received.subrange(n - position, n as int) =~= handshake_message().take(
                    position as int,
                ));
            } else {
                assert(new_received.subrange(n - 0, n as int) =~= handshake_message().take(0));
            }
        }
        self.received = Ghost(new_received);
        if position == HANDSHAKE_LEN {
            self.position = 0;
            assert(handshake_message().take(HANDSHAKE_LEN as int) =~= handshake_message());
            true
        } else {
            self.position = position;
            false
        }
    }
}

/// The characters that stand for the bytes `bytes`, each byte read as the
/// character with its number.
pub open spec fn latin1(bytes: Seq<u8>) -> Seq<char> {
    bytes.map_values(|b: u8| b as char)
}

/// Collects the bytes the kernel sends into lines.
pub struct LineReader {
    buffer: String,
}

impl LineReader {
    /// The characters of the line received so far.
    pub closed spec fn pending(&self) -> Seq<char> {
        self.buffer@
    }

    /// A reader that holds no characters.
    pub fn new() -> (r: Self)
        ensures
            r.pending() == Seq::<char>::empty(),
    {
        LineReader { buffer: String::new() }
    }

    /// Takes the next byte: a line feed completes the line, which is
    /// returned without it; any other byte is kept as the character with its
    /// number.
    pub fn step(&mut self, byte: u8) -> (r: Option<String>)
        ensures
            byte == 10 ==> (r matches Some(line) && line@ == old(self).pending())
                && final(self).pending() == Seq::<char>::empty(),
            byte != 10 ==> r is None && final(self).pending() == old(self).pending().push(
                byte as char,
            ),
    {
        if byte == 10 {
            let mut line = String::new();
            std::mem::swap(&mut line, &mut self.buffer);
            Some(line)
        } else {
            crate::text::string_push(&mut self.buffer, byte as char);
            None
        }
    }
}

/// The command that asks for the number of tests, of those that are
/// expected to panic if `panicking`.
pub fn count_command(panicking: bool) -> (r: &'static str)
    ensures
        r@ == (if panicking {
            "count panic\n"@
        } else {
            "count\n"@
        }),
{
    if panicking {
        "count panic\n"
    } else {
        "count\n"
    }
}

/// The number of tests in the line the kernel answers the count command
/// with, if the line is a number.
pub fn parse_test_count(line: &str) -> (r: Option<usize>)
    ensures
        match spec_parse_unsigned(line@, usize::MAX as nat) {
            Some(v) => r == Some(v as usize),
            None => r is None,
        },
{
    match parse_unsigned(line, usize::MAX as u64) {
        Some(v) => Some(v as usize),
        None => None,
    }
}

/// The text `start test ` that begins the line with which the kernel starts
/// a test.
pub open spec fn start_test_prefix() -> Seq<char> {
    "start test "@
}

/// Whether `line` begins with [start_test_prefix].
pub open spec fn is_start_test_line(line: Seq<char>) -> bool {
    line.len() >= 11 && line.take(11) == start_test_prefix()
}

/// Whether `line` begins with `start test `.
pub fn starts_test(line: &str) -> (r: bool)
    ensures
        r == is_start_test_line(line@),
{
    let prefix = "start test ";
    proof {
        reveal_strlit("start test ");
    }
    let len = line.unicode_len();
    if len < 11 {
        return false;
    }
    let mut i: usize = 0;
    while i < 11
        invariant
            len == line@.len(),
            len >= 11,
            prefix@ == start_test_prefix(),
            prefix@.len() == 11,
            i <= 11,
            forall|k: int| 0 <= k < i ==> line@[k] == prefix@[k],
        decreases 11 - i,
    {
        if line.get_char(i) != prefix.get_char(i) {
            assert(line@.take(11)[i as int] != start_test_prefix()[i as int]);
            return false;
        }
        i += 1;
    }
    assert(line@.take(11) =~= start_test_prefix());
    true
}

/// The index of the test that the line `start test <index>` starts, if the
/// index is a number.
pub fn parse_start_test(line: &str) -> (r: Option<usize>)
    requires
        is_start_test_line(line@),
    ensures
        match spec_parse_unsigned(line@.skip(11), usize::MAX as nat) {
            Some(v) => r == Some(v as usize),
            None => r is None,
        },
{
    let len = line.unicode_len();
    let index = line.substring_char(11, len);
    assert(index@ =~= line@.skip(11));
    match parse_unsigned(index, usize::MAX as u64) {
        Some(v) => Some(v as usize),
        None => None,
    }
}

/// The outcome of a test in the line `test succeeded` or `test failed`.
pub fn parse_test_result(line: &str) -> (r: Result<bool, TestRunError>)
    ensures
        line@ == "test succeeded"@ ==> r == Ok::<bool, TestRunError>(true),
        line@ == "test failed"@ ==> r == Ok::<bool, TestRunError>(false),
        line@ != "test succeeded"@ && line@ != "test failed"@ ==> (r matches Err(
            TestRunError::UnknownTestResult(text),
        ) && text@ == line@),
{
    let owned = line.to_owned();
    proof {
        reveal_strlit("test succeeded");
        reveal_strlit("test failed");
        assert("test failed"@.len() == 11);
        assert("test succeeded"@.len() == 14);
    }
    if owned == "test succeeded".to_owned() {
        Ok(true)
    } else if owned == "test failed".to_owned() {
        Ok(false)
    } else {
        Err(TestRunError::UnknownTestResult(owned))
    }
}

/// The text of the command that starts the test `index` in a fresh qemu:
/// the command for isolated tests, or for tests that are expected to panic,
/// then the index, each on a line of its own.
pub open spec fn spec_isolated_start_command(panic_tests: bool, index: nat) -> Seq<char> {
    (if panic_tests {
        "test panic\n"@
    } else {
        "isolated\n"@
    }) + decimal(index) + "\n"@
}

/// The command that starts the test `index` in a fresh qemu, see
/// [spec_isolated_start_command].
pub fn isolated_start_command(panic_tests: bool, index: usize) -> (r: String)
    ensures
        r@ == spec_isolated_start_command(panic_tests, index as nat),
{
    let mut r = if panic_tests {
        "test panic\n".to_owned()
    } else {
        "isolated\n".to_owned()
    };
    push_decimal(&mut r, index as u64);
    r.append("\n");
    r
}

/// The index line sent after `resume\n` when a restarted qemu continues with
/// the test `next_test`.
pub fn resume_index(next_test: usize) -> (r: String)
    ensures
        r@ == decimal(next_test as nat) + "\n"@,
{
    let mut r = String::new();
    push_decimal(&mut r, next_test as u64);
    r.append("\n");
    r
}

/// The backend of the serial port that serves the test protocol on tcp port
/// `port`.
pub fn tcp_serial(port: &str) -> (r: String)
    ensures
        r@ == "tcp::"@ + port@ + ",server"@,
{
    let mut r = "tcp::".to_owned();
    r.append(port);
    r.append(",server");
    r
}

/// Whether the test arguments ask for a run without the test protocol.
pub fn runs_without_tcp(args: &TestArgs) -> (r: bool)
    ensures
        r == (args.tcp_port@ == "none"@),
{
    args.tcp_port == "none".to_owned()
}

/// The test arguments for a run without the test protocol: no isolation, no
/// restarts after a crash, and no tests that are expected to panic.
pub fn without_tcp(args: TestArgs) -> (r: TestArgs)
    ensures
        !r.keep_going,
        !r.isolated,
        r.fast,
        r.qemu == args.qemu,
        r.timeout == args.timeout,
        r.tcp_port == args.tcp_port,
{
    TestArgs { keep_going: false, isolated: false, fast: true, ..args }
}

/// The tcp port of the test protocol, if `port` is a number of a port.
pub fn parse_tcp_port(port: &str) -> (r: Option<u16>)
    ensures
        match spec_parse_unsigned(port@, u16::MAX as nat) {
            Some(v) => r == Some(v as u16),
            None => r is None,
        },
{
    match parse_unsigned(port, u16::MAX as u64) {
        Some(v) => Some(v as u16),
        None => None,
    }
}

} // verus!
