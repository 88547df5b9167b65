//! The options of the WasabiOs runner.

use vstd::prelude::*;

use crate::text::string_push;

verus! {

/// Options for setting up uefi
#[derive(Debug, Clone)]
pub struct UefiOptions {
    /// The ovmf code file to use
    pub ovmf_code: Option<String>,
    /// The ovmf var file to use
    pub ovmf_vars: Option<String>,
}

/// The options used for starting qemu
#[derive(Debug, Clone)]
pub struct QemuOptions {
    /// The path of the qemu log, which enables the log
    pub qemu_log: Option<String>,
    /// the qemu info to log; only used if `qemu_log` is set
    pub qemu_info: String,
    /// The number of processors simulated by qemu
    pub processor_count: u8,
    /// Options for setting up uefi
    pub uefi: UefiOptions,
    /// Qemu waits for a debugger to connect
    pub gdb: bool,
    /// Overrite the default port(1234) for a debugger to connect to qemu
    pub gdb_port: Option<u16>,
}

/// The arguments to run the kernel
#[derive(Debug, Clone)]
pub struct RunArgs {
    /// the options used for starting qemu
    pub qemu: QemuOptions,
}

/// The required arguments to run the test kernel
#[derive(Debug, Clone)]
pub struct TestArgs {
    /// the options used for starting qemu
    pub qemu: QemuOptions,
    /// fails qemu instance after `timeout` seconds.
    pub timeout: u64,
    /// run each test in it's own instance of qemu
    pub isolated: bool,
    /// continue testing even if a test panics, by restarting qemu.
    pub keep_going: bool,
    /// ignore tests that are expected to panic
    pub fast: bool,
    /// the tcp port used to communicate with the kernel, or "none"
    pub tcp_port: String,
}

/// Arguments for cleaning up build artifacts
#[derive(Debug, Clone, Copy)]
pub struct CleanArgs {
    /// clean the workspace
    pub workspace: bool,
    /// clean the kernel
    pub kernel: bool,
    /// clean the test kernel
    pub test: bool,
    /// clean the latest build
    pub latest: bool,
    /// clean everything
    pub all: bool,
    /// clean the docs
    pub docs: bool,
    /// clean the ovmf files
    pub ovmf: bool,
}

/// Arguments for checking the kernel
#[derive(Debug, Clone)]
pub struct CheckArgs {
    /// the options used to build the kernel
    pub options: BuildOptions,
    /// skip building tests
    pub no_tests: bool,
}

/// Arguments for expanding the kernel's macros
#[derive(Debug, Clone)]
pub struct ExpandArgs {
    /// Expand only this package's library
    pub lib: bool,
    /// Expand only the specified binary
    pub bin: Option<String>,
    /// the options used to build the kernel
    pub options: BuildOptions,
    /// the package to expand
    pub package: WorkspacePackage,
    /// Local path to module or other named item to expand, e.g. cpu::gdt
    pub item: Option<String>,
}

/// The options used to build the kernel
#[derive(Debug, Clone)]
pub struct BuildOptions {
    /// build profile
    pub profile: Option<Profile>,
    /// use release profile, overwritten by `profile`
    pub release: bool,
    /// target architecture
    pub target: Target,
    /// build features
    pub features: Vec<Feature>,
    /// build with all features, overwrites `features`
    pub all_features: bool,
    /// disable default features. Features can be reenabled with `features`
    pub no_default_features: bool,
}

impl BuildOptions {
    /// The profile to build with: the given profile, otherwise release if
    /// `release` is set and dev if not.
    pub fn profile(&self) -> (r: Profile)
        ensures
            r == (match self.profile {
                Some(p) => p,
                None => if self.release {
                    Profile::Release
                } else {
                    Profile::Dev
                },
            }),
    {
        match self.profile {
            Some(p) => p,
            None => if self.release {
                Profile::Release
            } else {
                Profile::Dev
            },
        }
    }
}

/// Build the OS with the specified Profile (default debug)
#[derive(Debug, Copy, Clone, PartialEq, Eq, Structural)]
pub enum Profile {
    /// Dev profile (default)
    Dev,
    /// Release profile
    Release,
}

impl Profile {
    /// The name of the profile as cargo knows it.
    pub fn as_os_str(&self) -> (r: &'static str)
        ensures
            r@ == (match self {
                Profile::Dev => "dev"@,
                Profile::Release => "release"@,
            }),
    {
        match self {
            Profile::Dev => "dev",
            Profile::Release => "release",
        }
    }
}

/// A package in the WasabiOs workspace
#[derive(Debug, Copy, Clone, PartialEq, Eq, Structural)]
pub enum WorkspacePackage {
    /// the kernel
    WasabiKernel,
    /// the test kernel
    WasabiTest,
    /// the derive macros of the shared library
    SharedDerive,
    /// the shared library
    Shared,
    /// the logger
    Logger,
    /// the static vector library
    Staticvec,
    /// the interrupt function builder
    InterruptFnBuilder,
    /// the testing library
    Testing,
    /// the derive macros of the testing library
    Testing_Derive,
}

impl WorkspacePackage {
    /// The name of the package as written in the source, e.g. `WasabiKernel`.
    pub open spec fn spec_name(self) -> Seq<char> {
        match self {
            WorkspacePackage::WasabiKernel => "WasabiKernel"@,
            WorkspacePackage::WasabiTest => "WasabiTest"@,
            WorkspacePackage::SharedDerive => "SharedDerive"@,
            WorkspacePackage::Shared => "Shared"@,
            WorkspacePackage::Logger => "Logger"@,
            WorkspacePackage::Staticvec => "Staticvec"@,
            WorkspacePackage::InterruptFnBuilder => "InterruptFnBuilder"@,
            WorkspacePackage::Testing => "Testing"@,
            WorkspacePackage::Testing_Derive => "Testing_Derive"@,
        }
    }

    /// The path of the package: the first letter of its name in lower case,
    /// then the rest with `_` as `/`, and every upper case letter as `-` and
    /// the letter in lower case.
    pub open spec fn spec_path(self) -> Seq<char> {
        let name = self.spec_name();
        if name.len() > 0 {
            seq![ascii_lower(name[0])] + path_chars(name.drop_first())
        } else {
            Seq::empty()
        }
    }

    /// The name of the package as written in the source.
    pub fn name(&self) -> (r: &'static str)
        ensures
            r@ == self.spec_name(),
    {
        match self {
            WorkspacePackage::WasabiKernel => "WasabiKernel",
            WorkspacePackage::WasabiTest => "WasabiTest",
            WorkspacePackage::SharedDerive => "SharedDerive",
            WorkspacePackage::Shared => "Shared",
            WorkspacePackage::Logger => "Logger",
            WorkspacePackage::Staticvec => "Staticvec",
            WorkspacePackage::InterruptFnBuilder => "InterruptFnBuilder",
            WorkspacePackage::Testing => "Testing",
            WorkspacePackage::Testing_Derive => "Testing_Derive",
        }
    }

    /// The path of the package, made from its name: the first letter in lower
    /// case, `_` as `/`, and every other upper case letter as `-` and the
    /// letter in lower case.
    pub fn as_os_path(&self) -> (r: String)
        ensures
            r@ == self.spec_path(),
    {
        let name = self.name();
        let mut output = String::new();
        proof {
            reveal_strlit("WasabiKernel");
            reveal_strlit("WasabiTest");
            reveal_strlit("SharedDerive");
            reveal_strlit("Shared");
            reveal_strlit("Logger");
            reveal_strlit("Staticvec");
            reveal_strlit("InterruptFnBuilder");
            reveal_strlit("Testing");
            reveal_strlit("Testing_Derive");
        }
        let len = name.unicode_len();
        if len == 0 {
            return output;
        }
        let first = name.get_char(0);
        string_push(&mut output, to_ascii_lower(first));
        let mut i: usize = 1;
        while i < len
            invariant
                1 <= i <= len,
                len == name@.len(),
                name@.len() > 0,
                output@ == seq![ascii_lower(name@[0])] + path_chars(name@.subrange(1, i as int)),
            decreases len - i,
        {
            let c = name.get_char(i);
            proof {
                lemma_path_chars_push(name@.subrange(1, i as int), c);
                assert(name@.subrange(1, i + 1) =~= name@.subrange(1, i as int).push(c));
            }
            if c == '_' {
                string_push(&mut output, '/');
            } else if is_ascii_upper(c) {
                string_push(&mut output, '-');
                string_push(&mut output, to_ascii_lower(c));
            } else {
                string_push(&mut output, c);
            }
            proof {
                assert(output@ =~= seq![ascii_lower(name@[0])] + path_chars(name@.subrange(1, i + 1)));
            }
            i += 1;
        }
        proof {
            assert(name@.subrange(1, len as int) =~= name@.drop_first());
        }
        output
    }
}

/// Whether `c` is an upper case ASCII letter.
pub open spec fn spec_is_ascii_upper(c: char) -> bool {
    'A' <= c <= 'Z'
}

/// `c` in lower case, if it is an upper case ASCII letter.
pub open spec fn ascii_lower(c: char) -> char {
    if spec_is_ascii_upper(c) {
        ((c as u32) + 32) as char
    } else {
        c
    }
}

/// The path characters of a package name without its first letter, see
/// [WorkspacePackage::as_os_path].
pub open spec fn path_chars(name: Seq<char>) -> Seq<char>
    decreases name.len(),
{
    if name.len() == 0 {
        Seq::empty()
    } else {
        let c = name.last();
        let rest = path_chars(name.drop_last());
        if c == '_' {
            rest.push('/')
        } else if spec_is_ascii_upper(c) {
            rest.push('-').push(ascii_lower(c))
        } else {
            rest.push(c)
        }
    }
}

proof fn lemma_path_chars_push(name: Seq<char>, c: char)
    ensures
        path_chars(name.push(c)) == (if c == '_' {
            path_chars(name).push('/')
        } else if spec_is_ascii_upper(c) {
            path_chars(name).push('-').push(ascii_lower(c))
        } else {
            path_chars(name).push(c)
        }),
{
    assert(name.push(c).drop_last() =~= name);
}

/// Whether `c` is an upper case ASCII letter.
pub fn is_ascii_upper(c: char) -> (r: bool)
    ensures
        r == spec_is_ascii_upper(c),
{
    'A' <= c && c <= 'Z'
}

/// `c` in lower case, if it is an upper case ASCII letter.
pub fn to_ascii_lower(c: char) -> (r: char)
    ensures
        r == ascii_lower(c),
{
    if is_ascii_upper(c) {
        let code = (c as u32) + 32;
        code as u8 as char
    } else {
        c
    }
}

/// Target architecture (default X86_64)
#[derive(Debug, Copy, Clone, PartialEq, Eq, Structural)]
pub enum Target {
    /// X86-64
    X86_64,
}

impl Target {
    /// The name of the target as the command line takes it.
    pub fn as_arg_str(&self) -> (r: &'static str)
        ensures
            r@ == "x86-64"@,
    {
        match self {
            Target::X86_64 => "x86-64",
        }
    }

    /// The target triple of the architecture.
    pub fn tripple_str(&self) -> (r: &'static str)
        ensures
            r@ == "x86_64-unknown-none"@,
    {
        match self {
            Target::X86_64 => "x86_64-unknown-none",
        }
    }
}

/// The kernel binaries that can be built
#[derive(Debug, Copy, Clone, PartialEq, Eq, Structural)]
pub enum KernelBinary {
    /// the kernel
    Wasabi,
    /// the test kernel
    Test,
}

impl KernelBinary {
    /// The name of the binary
    pub fn name(&self) -> (r: &'static str)
        ensures
            r@ == (match self {
                KernelBinary::Wasabi => "wasabi-kernel"@,
                KernelBinary::Test => "wasabi-test"@,
            }),
    {
        match self {
            KernelBinary::Wasabi => "wasabi-kernel",
            KernelBinary::Test => "wasabi-test",
        }
    }
}

/// Build feature used for `cfg`
#[derive(Debug, Copy, Clone, PartialEq, Eq, Structural)]
pub enum Feature {
    /// do not use unicode in logs
    NoUnicodeLog,
    /// do not use colors in logs
    NoColor,
    /// build with tests
    Test,
    /// build the tests of the test framework
    TestTests,
    /// back guard pages with memory
    MemBackedGuardPage,
    /// collect memory statistics
    MemStats,
}

/// The name of a feature as cargo knows it.
pub open spec fn feature_name(f: Feature) -> Seq<char> {
    match f {
        Feature::NoUnicodeLog => "no-unicode-log"@,
        Feature::NoColor => "no-color"@,
        Feature::Test => "test"@,
        Feature::TestTests => "test-tests"@,
        Feature::MemBackedGuardPage => "mem-backed-guard-page"@,
        Feature::MemStats => "mem-stats"@,
    }
}

/// Whether a feature applies to `binary`.
pub open spec fn feature_used_in(f: Feature, binary: KernelBinary) -> bool {
    match binary {
        KernelBinary::Wasabi => !(f is TestTests),
        KernelBinary::Test => !(f is NoUnicodeLog) && !(f is Test),
    }
}

impl Feature {
    /// The name of the feature as cargo knows it.
    pub fn as_os_str(&self) -> (r: &'static str)
        ensures
            r@ == feature_name(*self),
    {
        match self {
            Feature::NoUnicodeLog => "no-unicode-log",
            Feature::NoColor => "no-color",
            Feature::Test => "test",
            Feature::TestTests => "test-tests",
            Feature::MemBackedGuardPage => "mem-backed-guard-page",
            Feature::MemStats => "mem-stats",
        }
    }

    /// Whether the feature applies to `binary`: the kernel takes every feature
    /// but `TestTests`, the test kernel every feature but `NoUnicodeLog` and `Test`.
    pub fn used_in(&self, binary: &KernelBinary) -> (r: bool)
        ensures
            r == feature_used_in(*self, *binary),
    {
        match binary {
            KernelBinary::Wasabi => match self {
                Feature::NoUnicodeLog | Feature::NoColor | Feature::Test
                | Feature::MemBackedGuardPage | Feature::MemStats => true,
                Feature::TestTests => false,
            },
            KernelBinary::Test => match self {
                Feature::NoColor | Feature::TestTests | Feature::MemBackedGuardPage
                | Feature::MemStats => true,
                Feature::NoUnicodeLog | Feature::Test => false,
            },
        }
    }
}

} // verus!
