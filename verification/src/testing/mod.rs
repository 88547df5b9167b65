//! The vocabulary of kernel tests: their errors, their expected exits, where
//! they are declared and the helpers that turn a missing value into a failed
//! test.

use vstd::prelude::*;
use vstd::string::StringExecFns;

use crate::text::{decimal, push_decimal};

pub mod args;

verus! {

/// Error type for kernel tests
#[derive(Clone, Copy, Debug, PartialEq, Eq, Structural)]
pub enum KernelTestError {
    /// The test failed
    Fail,
    /// A test assertion failed
    Assert,
}

impl KernelTestError {
    /// The message that describes the error.
    pub fn message(&self) -> (r: &'static str)
        ensures
            r@ == (match self {
                KernelTestError::Fail => "TEST failed"@,
                KernelTestError::Assert => "TEST assertion failed"@,
            }),
    {
        match self {
            KernelTestError::Fail => "TEST failed",
            KernelTestError::Assert => "TEST assertion failed",
        }
    }
}

/// Extension of `Result` and `Option` that turns a missing value into a
/// failed test.
pub trait TestUnwrapExt<T>: Sized {
    /// The value held, if any.
    spec fn held_value(self) -> Option<T>;

    /// Same as `unwrap` but returns [KernelTestError::Fail] in place of a panic
    fn tunwrap(self) -> (r: Result<T, KernelTestError>)
        ensures
            r == (match self.held_value() {
                Some(v) => Ok::<T, KernelTestError>(v),
                None => Err(KernelTestError::Fail),
            }),
    ;

    /// Same as `expect` but returns [KernelTestError::Fail] in place of a panic
    fn texpect(self, message: &str) -> (r: Result<T, KernelTestError>)
        ensures
            r == (match self.held_value() {
                Some(v) => Ok::<T, KernelTestError>(v),
                None => Err(KernelTestError::Fail),
            }),
    ;
}

impl<T, E> TestUnwrapExt<T> for Result<T, E> {
    open spec fn held_value(self) -> Option<T> {
        match self {
            Ok(v) => Some(v),
            Err(_) => None,
        }
    }

    fn tunwrap(self) -> (r: Result<T, KernelTestError>) {
        match self {
            Ok(v) => Ok(v),
            Err(_) => Err(KernelTestError::Fail),
        }
    }

    fn texpect(self, message: &str) -> (r: Result<T, KernelTestError>) {
        match self {
            Ok(v) => Ok(v),
            Err(_) => Err(KernelTestError::Fail),
        }
    }
}

impl<T> TestUnwrapExt<T> for Option<T> {
    open spec fn held_value(self) -> Option<T> {
        self
    }

    fn tunwrap(self) -> (r: Result<T, KernelTestError>) {
        match self {
            Some(v) => Ok(v),
            None => Err(KernelTestError::Fail),
        }
    }

    fn texpect(self, message: &str) -> (r: Result<T, KernelTestError>) {
        match self {
            Some(v) => Ok(v),
            None => Err(KernelTestError::Fail),
        }
    }
}

/// A wrapper that presents a value's debug form as its display form.
#[derive(Debug)]
pub struct DisplayDebug<T>(pub T);

/// An extension of `Result` which wraps the error in [DisplayDebug].
pub trait DebugErrResultExt<T, E>: Sized {
    /// The result with its error wrapped in [DisplayDebug].
    spec fn spec_wrapped(self) -> Result<T, DisplayDebug<E>>;

    /// Wraps the error in [DisplayDebug].
    fn map_err_debug_display(self) -> (r: Result<T, DisplayDebug<E>>)
        ensures
            r == self.spec_wrapped(),
    ;
}

impl<T, E> DebugErrResultExt<T, E> for Result<T, E> {
    open spec fn spec_wrapped(self) -> Result<T, DisplayDebug<E>> {
        match self {
            Ok(v) => Ok(v),
            Err(e) => Err(DisplayDebug(e)),
        }
    }

    fn map_err_debug_display(self) -> (r: Result<T, DisplayDebug<E>>) {
        match self {
            Ok(v) => Ok(v),
            Err(e) => Err(DisplayDebug(e)),
        }
    }
}

/// The kind of a comparing test assertion
#[derive(Debug, Clone, Copy, PartialEq, Eq, Structural)]
pub enum AssertKind {
    /// The values must be equal
    Eq,
    /// The values must differ
    Ne,
}

/// Describes the possible ways a test can exit
#[derive(Debug, Clone, Copy, PartialEq, Eq, Structural)]
pub enum TestExitState {
    /// The test finishes normaly
    Succeed,
    /// The test finishes with the specified [KernelTestError] or any
    /// [KernelTestError] if `None`
    Error(Option<KernelTestError>),
    /// The test panics
    Panic,
}

/// The source code location of a test function
#[derive(Debug, Clone)]
pub struct SourceLocation {
    /// module of the source location
    pub module: &'static str,
    /// file of the source location
    pub file: &'static str,
    /// line of the source location
    pub line: u32,
    /// column of the source location
    pub column: u32,
}

impl SourceLocation {
    /// The text of the location: `file:line:column`.
    pub open spec fn spec_text(&self) -> Seq<char> {
        self.file@ + seq![':'] + decimal(self.line as nat) + seq![':'] + decimal(
            self.column as nat,
        )
    }

    /// The text of the location: `file:line:column`.
    pub fn to_string(&self) -> (r: String)
        ensures
            r@ == self.spec_text(),
    {
        let mut r = self.file.to_owned();
        r.append(":");
        push_decimal(&mut r, self.line as u64);
        r.append(":");
        push_decimal(&mut r, self.column as u64);
        proof {
            reveal_strlit(":");
        }
        r
    }
}

/// The ways a test function can be declared
#[derive(Debug, Clone, Copy, PartialEq, Eq, Structural)]
pub enum TestFunctionVariance {
    /// A plain test function
    Normal,
    /// A multiprocessor test function that takes a barrier
    MPBarrier,
}

impl TestFunctionVariance {
    /// The name of the variance.
    pub fn name(&self) -> (r: &'static str)
        ensures
            r@ == (match self {
                TestFunctionVariance::Normal => "Normal"@,
                TestFunctionVariance::MPBarrier => "MPBarrier"@,
            }),
    {
        match self {
            TestFunctionVariance::Normal => "Normal",
            TestFunctionVariance::MPBarrier => "MPBarrier",
        }
    }
}

} // verus!
