//! The configuration of a qemu instance and the command line that starts it.

use vstd::prelude::*;
use vstd::string::StringExecFns;

use crate::runner::args::{QemuOptions, UefiOptions};
use crate::text::{decimal, push_decimal};

verus! {

/// The architecture that qemu emulates.
#[derive(Debug, Clone, Copy, PartialEq, Eq, Structural)]
pub enum Arch {
    X86_64,
}

/// The suffix of the qemu binary that emulates `arch`.
pub open spec fn spec_qemu_extension(arch: Arch) -> Seq<char> {
    match arch {
        Arch::X86_64 => "-system-x86_64"@,
    }
}

impl Arch {
    /// The suffix of the qemu binary that emulates this architecture.
    pub fn qemu_extension(&self) -> (r: &'static str)
        ensures
            r@ == spec_qemu_extension(*self),
    {
        match self {
            Arch::X86_64 => "-system-x86_64",
        }
    }
}

/// The kernel image that qemu boots.
#[derive(Debug, Clone)]
pub struct Kernel {
    /// The path of the uefi image
    pub path: String,
}

/// The ovmf files used to boot in uefi mode.
#[derive(Debug, Clone)]
pub struct UefiConfig {
    /// The ovmf code file, if not the prebuilt one
    pub ovmf_code: Option<String>,
    /// The ovmf vars file, if not the prebuilt one
    pub ovmf_vars: Option<String>,
}

/// A copy of an optional string.
fn clone_optional(value: &Option<String>) -> (r: Option<String>)
    ensures
        r == *value,
{
    match value {
        Some(s) => Some(s.clone()),
        None => None,
    }
}

impl UefiConfig {
    /// The uefi configuration that `value` asks for.
    pub fn from_options(value: &UefiOptions) -> (r: Self)
        ensures
            r.ovmf_code == value.ovmf_code,
            r.ovmf_vars == value.ovmf_vars,
    {
        UefiConfig {
            ovmf_code: clone_optional(&value.ovmf_code),
            ovmf_vars: clone_optional(&value.ovmf_vars),
        }
    }
}

/// The reason a [QemuConfig] refuses a change.
#[derive(Debug, Clone, Copy, PartialEq, Eq, Structural)]
pub enum QemuConfigError {
    /// Qemu only supports 4 serial ports
    TooManySerialPorts,
}

/// The number of serial ports qemu supports.
pub const MAX_SERIAL_PORTS: usize = 4;

/// The configuration of a qemu instance.
#[derive(Debug, Clone)]
pub struct QemuConfig {
    /// The memory of the machine, e.g. `4G`
    pub memory: String,
    /// An additional device, empty for none
    pub devices: String,
    /// The backends of the serial ports, in order
    pub serial: Vec<String>,
    /// Kill qemu when its handle is dropped
    pub kill_on_drop: bool,
    /// The number of processors of the machine
    pub processor_count: u8,
    /// The file qemu logs to, if logging is enabled
    pub debug_log: Option<String>,
    /// The items qemu logs
    pub debug_info: String,
    /// The uefi files
    pub uefi: UefiConfig,
}

/// The views of a sequence of strings.
pub open spec fn strings_view(v: Seq<String>) -> Seq<Seq<char>> {
    v.map_values(|s: String| s@)
}

impl QemuConfig {
    /// The configuration that the runner's qemu options ask for.
    pub fn from_options(args: &QemuOptions) -> (r: Self)
        ensures
            r.memory@ == "4G"@,
            r.devices@ == Seq::<char>::empty(),
            strings_view(r.serial@) == seq!["stdio"@],
            r.kill_on_drop,
            r.processor_count == args.processor_count,
            r.debug_log == args.qemu_log,
            r.debug_info == args.qemu_info,
            r.uefi.ovmf_code == args.uefi.ovmf_code,
            r.uefi.ovmf_vars == args.uefi.ovmf_vars,
    {
        let mut serial: Vec<String> = Vec::new();
        serial.push("stdio".to_owned());
        let r = QemuConfig {
            memory: "4G".to_owned(),
            devices: String::new(),
            serial,
            kill_on_drop: true,
            processor_count: args.processor_count,
            debug_log: clone_optional(&args.qemu_log),
            debug_info: args.qemu_info.clone(),
            uefi: UefiConfig::from_options(&args.uefi),
        };
        assert(strings_view(r.serial@) =~= seq!["stdio"@]);
        r
    }

    /// The configuration of a test run: that of `args` with the debug exit
    /// device, through which the test kernel reports its outcome as qemu's
    /// exit code.
    pub fn for_tests(args: &QemuOptions) -> (r: Self)
        ensures
            r.devices@ == "isa-debug-exit,iobase=0xf4,iosize=0x04"@,
            r.memory@ == "4G"@,
            strings_view(r.serial@) == seq!["stdio"@],
            r.kill_on_drop,
            r.processor_count == args.processor_count,
            r.debug_log == args.qemu_log,
            r.debug_info == args.qemu_info,
            r.uefi.ovmf_code == args.uefi.ovmf_code,
            r.uefi.ovmf_vars == args.uefi.ovmf_vars,
    {
        let mut r = QemuConfig::from_options(args);
        r.devices = "isa-debug-exit,iobase=0xf4,iosize=0x04".to_owned();
        r
    }

    /// Adds a serial port with the backend `serial`.
    ///
    /// Fails, leaving the configuration as it was, if it already has
    /// [MAX_SERIAL_PORTS] serial ports.
    pub fn add_serial(&mut self, serial: String) -> (r: Result<(), QemuConfigError>)
        ensures
            old(self).serial@.len() >= MAX_SERIAL_PORTS ==> r == Err::<(), QemuConfigError>(
                QemuConfigError::TooManySerialPorts,
            ) && *final(self) == *old(self),
            old(self).serial@.len() < MAX_SERIAL_PORTS ==> r is Ok && final(self).serial@
                == old(self).serial@.push(serial) && final(self).memory == old(self).memory
                && final(self).devices == old(self).devices && final(self).kill_on_drop
                == old(self).kill_on_drop && final(self).processor_count
                == old(self).processor_count && final(self).debug_log == old(self).debug_log
                && final(self).debug_info == old(self).debug_info && final(self).uefi
                == old(self).uefi,
    {
        if self.serial.len() >= MAX_SERIAL_PORTS {
            return Err(QemuConfigError::TooManySerialPorts);
        }
        self.serial.push(serial);
        Ok(())
    }
}

/// The operating system the runner executes on.
#[derive(Debug, Clone, Copy, PartialEq, Eq, Structural)]
pub enum HostArchitecture {
    Linux,
    Windows,
    Wsl,
}

/// Whether qemu runs as a windows program on `host`.
pub open spec fn spec_is_windows(host: HostArchitecture) -> bool {
    host == HostArchitecture::Windows || host == HostArchitecture::Wsl
}

impl HostArchitecture {
    /// The host the runner executes on: `windows_build` tells whether the
    /// runner was built for windows, `wslpath_runs` whether the `wslpath`
    /// command could be executed.
    pub fn get(windows_build: bool, wslpath_runs: bool) -> (r: Self)
        ensures
            windows_build ==> r == HostArchitecture::Windows,
            !windows_build && wslpath_runs ==> r == HostArchitecture::Wsl,
            !windows_build && !wslpath_runs ==> r == HostArchitecture::Linux,
    {
        if windows_build {
            return HostArchitecture::Windows;
        }
        if wslpath_runs {
            return HostArchitecture::Wsl;
        }
        HostArchitecture::Linux
    }

    /// Whether qemu runs as a windows program on this host.
    pub fn is_windows(&self) -> (r: bool)
        ensures
            r == spec_is_windows(*self),
    {
        match self {
            HostArchitecture::Windows | HostArchitecture::Wsl => true,
            _ => false,
        }
    }
}


/// The start of the line of `resolv.conf` that names the host's address:
/// `nameserver `.
pub open spec fn nameserver_prefix() -> Seq<u8> {
    seq![110u8, 97u8, 109u8, 101u8, 115u8, 101u8, 114u8, 118u8, 101u8, 114u8, 32u8]
}

/// The text after [nameserver_prefix] if `line` starts with it.
pub open spec fn nameserver_value(line: Seq<u8>) -> Option<Seq<u8>> {
    if line.len() >= nameserver_prefix().len() && line.take(nameserver_prefix().len() as int)
        == nameserver_prefix() {
        Some(line.skip(nameserver_prefix().len() as int))
    } else {
        None
    }
}

/// `line` without one carriage return at its end.
pub open spec fn without_cr(line: Seq<u8>) -> Seq<u8> {
    if line.len() > 0 && line.last() == 13 {
        line.drop_last()
    } else {
        line
    }
}

/// The value of the first nameserver line of `conf` from the line that
/// starts at `start`, where the bytes from `start` to `i` hold no line feed.
/// A line ends at a line feed, which is dropped together with a carriage
/// return before it, or at the end of the text.
pub open spec fn nameserver_scan(conf: Seq<u8>, start: int, i: int) -> Option<Seq<u8>>
    decreases conf.len() - i,
{
    if i < start || start < 0 || i >= conf.len() {
        if 0 <= start <= conf.len() {
            nameserver_value(conf.subrange(start, conf.len() as int))
        } else {
            None
        }
    } else if conf[i] == 10 {
        match nameserver_value(without_cr(conf.subrange(start, i))) {
            Some(v) => Some(v),
            None => nameserver_scan(conf, i + 1, i + 1),
        }
    } else {
        nameserver_scan(conf, start, i + 1)
    }
}

/// The value of the first line of `conf` that starts with `nameserver `.
pub open spec fn nameserver_in(conf: Seq<u8>) -> Option<Seq<u8>> {
    nameserver_scan(conf, 0, 0)
}

/// The bytes of `s` from `start` to `end`.
fn bytes_between(s: &[u8], start: usize, end: usize) -> (r: Vec<u8>)
    requires
        start <= end <= s@.len(),
    ensures
        r@ == s@.subrange(start as int, end as int),
{
    vstd::slice::slice_to_vec(vstd::slice::slice_subrange(s, start, end))
}

/// The text after `nameserver ` if the bytes of `s` from `start` to `end`
/// start with it.
fn nameserver_value_at(s: &[u8], start: usize, end: usize) -> (r: Option<Vec<u8>>)
    requires
        start <= end <= s@.len(),
    ensures
        match nameserver_value(s@.subrange(start as int, end as int)) {
            Some(v) => r matches Some(found) && found@ == v,
            None => r is None,
        },
{
    let prefix: [u8; 11] = [110u8, 97u8, 109u8, 101u8, 115u8, 101u8, 114u8, 118u8, 101u8, 114u8, 32u8];
    let ghost line = s@.subrange(start as int, end as int);
    assert(prefix@ =~= nameserver_prefix());
    if end - start < 11 {
        return None;
    }
    let mut k: usize = 0;
    while k < 11
        invariant
            start + 11 <= end <= s@.len(),
            line == s@.subrange(start as int, end as int),
            prefix@ == nameserver_prefix(),
            k <= 11,
            forall|j: int| 0 <= j < k ==> line[j] == prefix@[j],
        decreases 11 - k,
    {
        if s[start + k] != prefix[k] {
            assert(line.take(11)[k as int] != nameserver_prefix()[k as int]);
            return None;
        }
        k += 1;
    }
    assert(line.take(11) =~= nameserver_prefix());
    let r = bytes_between(s, start + 11, end);
    assert(r@ =~= line.skip(11));
    Some(r)
}

/// The address text of the nameserver of a `resolv.conf` with the content
/// `conf`: the rest of the first line that starts with `nameserver `, see
/// [nameserver_in]; `None` if no line does.
pub fn find_nameserver(conf: &[u8]) -> (r: Option<Vec<u8>>)
    ensures
        match nameserver_in(conf@) {
            Some(v) => r matches Some(found) && found@ == v,
            None => r is None,
        },
{
    let mut start: usize = 0;
    let mut i: usize = 0;
    while i < conf.len()
        invariant
            start <= i <= conf@.len(),
            nameserver_scan(conf@, start as int, i as int) == nameserver_in(conf@),
        decreases conf@.len() - i,
    {
        if conf[i] == 10u8 {
            let end = if i > start && conf[i - 1] == 13u8 {
                i - 1
            } else {
                i
            };
            proof {
                assert(without_cr(conf@.subrange(start as int, i as int)) =~= conf@.subrange(
                    start as int,
                    end as int,
                ));
            }
            match nameserver_value_at(conf, start, end) {
                Some(v) => {
                    return Some(v);
                },
                None => {},
            }
            start = i + 1;
        }
        i += 1;
    }
    nameserver_value_at(conf, start, conf.len())
}

/// Whether `b` is a space, a tab, a line feed or a carriage return.
pub open spec fn is_blank(b: u8) -> bool {
    b == 32 || b == 10 || b == 9 || b == 13
}

fn is_blank_byte(b: u8) -> (r: bool)
    ensures
        r == is_blank(b),
{
    b == 32 || b == 10 || b == 9 || b == 13
}

/// Whether `r` is `s` without its leading and trailing blanks (see [is_blank]).
pub open spec fn is_trimmed(s: Seq<u8>, r: Seq<u8>) -> bool {
    exists|a: int, b: int|
        #![trigger s.subrange(a, b)]
        0 <= a < b <= s.len() && r == s.subrange(a, b) && !is_blank(s[a]) && !is_blank(s[b - 1])
            && (forall|i: int| 0 <= i < a ==> is_blank(#[trigger] s[i])) && (forall|i: int|
            b <= i < s.len() ==> is_blank(#[trigger] s[i]))
}

/// The bytes of `string` without its leading and trailing blanks.
///
/// `string` must hold a byte that is not blank.
pub fn trim_u8_slice(string: &[u8]) -> (r: &[u8])
    requires
        exists|i: int| 0 <= i < string@.len() && !is_blank(#[trigger] string@[i]),
    ensures
        is_trimmed(string@, r@),
{
    let ghost s = string@;
    let ghost witness = choose|i: int| 0 <= i < s.len() && !is_blank(#[trigger] s[i]);
    let mut start: usize = 0;
    while is_blank_byte(string[start])
        invariant
            s == string@,
            0 <= witness < s.len(),
            !is_blank(s[witness]),
            start <= witness,
            forall|i: int| 0 <= i < start ==> is_blank(#[trigger] s[i]),
        decreases witness - start,
    {
        start += 1;
    }
    let mut end: usize = string.len() - 1;
    while is_blank_byte(string[end])
        invariant
            s == string@,
            start <= witness <= end < s.len(),
            !is_blank(s[start as int]),
            !is_blank(s[witness]),
            forall|i: int| end < i < s.len() ==> is_blank(#[trigger] s[i]),
        decreases end,
    {
        end -= 1;
    }
    let r = vstd::slice::slice_subrange(string, start, end + 1);
    assert(is_trimmed(s, r@)) by {
        assert(r@ == s.subrange(start as int, end + 1));
    }
    r
}

/// Whether `pat` occurs in `s` at position `i`.
pub open spec fn occurs_at(s: Seq<u8>, pat: Seq<u8>, i: int) -> bool {
    0 <= i && i + pat.len() <= s.len() && s.subrange(i, i + pat.len()) == pat
}

/// Whether `i` is the first position at which `pat` occurs in `s`.
pub open spec fn is_first_occurrence(s: Seq<u8>, pat: Seq<u8>, i: int) -> bool {
    occurs_at(s, pat, i) && forall|j: int| 0 <= j < i ==> !occurs_at(s, pat, j)
}

/// A pattern occurs at most once first.
pub proof fn lemma_first_occurrence_unique(s: Seq<u8>, pat: Seq<u8>, i: int, j: int)
    requires
        is_first_occurrence(s, pat, i),
        is_first_occurrence(s, pat, j),
    ensures
        i == j,
{
}

/// Whether `pat` occurs in `s` at `i`, compared byte by byte.
fn matches_at(s: &[u8], pat: &[u8], i: usize) -> (r: bool)
    requires
        i + pat@.len() <= s@.len(),
    ensures
        r == occurs_at(s@, pat@, i as int),
{
    let n = s.len();
    let mut k: usize = 0;
    while k < pat.len()
        invariant
            n == s@.len(),
            i + pat@.len() <= s@.len(),
            k <= pat@.len(),
            forall|m: int| 0 <= m < k ==> s@[i + m] == pat@[m],
        decreases pat@.len() - k,
    {
        if s[i + k] != pat[k] {
            assert(s@.subrange(i as int, i + pat@.len())[k as int] != pat@[k as int]);
            return false;
        }
        k += 1;
    }
    assert(s@.subrange(i as int, i + pat@.len()) =~= pat@);
    true
}

/// The first position at which `pat` occurs in `s`, if any.
pub fn find_subslice(s: &[u8], pat: &[u8]) -> (r: Option<usize>)
    ensures
        match r {
            Some(i) => is_first_occurrence(s@, pat@, i as int),
            None => forall|i: int| !occurs_at(s@, pat@, i),
        },
{
    if pat.len() > s.len() {
        return None;
    }
    let last = s.len() - pat.len();
    let mut i: usize = 0;
    loop
        invariant
            i <= last,
            last + pat@.len() == s@.len(),
            forall|j: int| 0 <= j < i ==> !occurs_at(s@, pat@, j),
        decreases last - i,
    {
        if matches_at(s, pat, i) {
            return Some(i);
        }
        if i == last {
            return None;
        }
        i += 1;
    }
}

/// The name of the value that holds the install directory of qemu in the
/// windows registry: `Install_Dir`.
pub open spec fn install_dir_key() -> Seq<u8> {
    seq![73u8, 110u8, 115u8, 116u8, 97u8, 108u8, 108u8, 95u8, 68u8, 105u8, 114u8]
}

/// A windows line break.
pub open spec fn crlf() -> Seq<u8> {
    seq![13u8, 10u8]
}

/// The number of bytes between the start of the value name and the start
/// of the value in the output of `reg.exe query`: the name and the type
/// column `    REG_SZ    `.
pub const INSTALL_DIR_VALUE_OFFSET: usize = 25;

/// The qemu install directory in the output of a registry query, if the
/// output holds the `Install_Dir` key followed by its value and a line break.
pub open spec fn install_dir_in(output: Seq<u8>) -> Option<Seq<u8>> {
    if exists|pos: int| is_first_occurrence(output, install_dir_key(), pos) {
        let pos = choose|pos: int| is_first_occurrence(output, install_dir_key(), pos);
        if pos + INSTALL_DIR_VALUE_OFFSET <= output.len() {
            let rest = output.subrange(pos + INSTALL_DIR_VALUE_OFFSET, output.len() as int);
            if exists|nl: int| is_first_occurrence(rest, crlf(), nl) {
                let nl = choose|nl: int| is_first_occurrence(rest, crlf(), nl);
                Some(rest.subrange(0, nl))
            } else {
                None
            }
        } else {
            None
        }
    } else {
        None
    }
}

/// The qemu install directory in `output`, the output of
/// `reg.exe query HKLM\Software\QEMU /v Install_Dir /t REG_SZ`.
pub fn find_install_dir(output: &[u8]) -> (r: Option<Vec<u8>>)
    ensures
        match r {
            Some(dir) => install_dir_in(output@) == Some(dir@),
            None => install_dir_in(output@) is None,
        },
{
    let key: Vec<u8> = vec![73u8, 110u8, 115u8, 116u8, 97u8, 108u8, 108u8, 95u8, 68u8, 105u8, 114u8];
    assert(key@ == install_dir_key());
    let pos = match find_subslice(output, key.as_slice()) {
        Some(pos) => pos,
        None => {
            return None;
        },
    };
    proof {
        let chosen = choose|p: int| is_first_occurrence(output@, install_dir_key(), p);
        lemma_first_occurrence_unique(output@, install_dir_key(), pos as int, chosen);
    }
    if output.len() < INSTALL_DIR_VALUE_OFFSET || pos > output.len() - INSTALL_DIR_VALUE_OFFSET {
        return None;
    }
    let rest = vstd::slice::slice_subrange(output, pos + INSTALL_DIR_VALUE_OFFSET, output.len());
    let line_break: Vec<u8> = vec![13u8, 10u8];
    assert(line_break@ == crlf());
    let nl = match find_subslice(rest, line_break.as_slice()) {
        Some(nl) => nl,
        None => {
            return None;
        },
    };
    proof {
        let chosen = choose|p: int| is_first_occurrence(rest@, crlf(), p);
        lemma_first_occurrence_unique(rest@, crlf(), nl as int, chosen);
    }
    let dir = vstd::slice::slice_subrange(rest, 0, nl);
    Some(vstd::slice::slice_to_vec(dir))
}


/// The bytes of the ASCII string `s`.
pub open spec fn ascii_bytes(s: Seq<char>) -> Seq<u8> {
    s.map_values(|c: char| c as u8)
}

/// Appends the low bytes of the characters of `s`, its bytes where `s` is ASCII.
fn push_ascii(v: &mut Vec<u8>, s: &str)
    ensures
        final(v)@ == old(v)@ + ascii_bytes(s@),
{
    let len = s.unicode_len();
    let ghost start = v@;
    let mut i: usize = 0;
    while i < len
        invariant
            len == s@.len(),
            i <= len,
            v@ == start + ascii_bytes(s@.subrange(0, i as int)),
        decreases len - i,
    {
        let c = s.get_char(i);
        v.push(c as u8);
        proof {
            assert(ascii_bytes(s@.subrange(0, i + 1)) =~= ascii_bytes(s@.subrange(0, i as int)).push(
                c as u8,
            ));
        }
        i += 1;
    }
    assert(s@.subrange(0, len as int) =~= s@);
}

/// The file name of the qemu binary for `arch`, with the windows suffix
/// `.exe` if `exe`.
pub open spec fn qemu_file_name(arch: Arch, exe: bool) -> Seq<char> {
    "qemu"@ + spec_qemu_extension(arch) + if exe {
        ".exe"@
    } else {
        Seq::<char>::empty()
    }
}

impl HostArchitecture {
    /// The path of the qemu binary for `arch` as this host names it, before
    /// it is translated to the runner's view of the file system.
    ///
    /// `windows_build` tells whether the runner was built for windows. On
    /// wsl the binary lies in the install directory of the windows qemu,
    /// which is read from `reg_output`, the output of
    /// `reg.exe query HKLM\Software\QEMU /v Install_Dir /t REG_SZ`; this is
    /// `None` if the output holds no install directory. Other hosts ignore
    /// `reg_output`.
    pub fn qemu_binary(&self, arch: Arch, windows_build: bool, reg_output: &[u8]) -> (r: Option<
        Vec<u8>,
    >)
        ensures
            *self != HostArchitecture::Wsl ==> (r matches Some(path) && path@ == ascii_bytes(
                qemu_file_name(arch, windows_build),
            )),
            *self == HostArchitecture::Wsl ==> match install_dir_in(reg_output@) {
                Some(dir) => (r matches Some(path) && path@ == dir + ascii_bytes(
                    "/"@ + qemu_file_name(arch, true),
                )),
                None => r is None,
            },
    {
        let mut qemu: Vec<u8> = Vec::new();
        let mut exe = windows_build;
        match self {
            HostArchitecture::Wsl => {
                match find_install_dir(reg_output) {
                    Some(dir) => {
                        qemu = dir;
                        push_ascii(&mut qemu, "/");
                    },
                    None => {
                        return None;
                    },
                }
                exe = true;
            },
            _ => {},
        }
        let ghost prefix = qemu@;
        push_ascii(&mut qemu, "qemu");
        push_ascii(&mut qemu, arch.qemu_extension());
        if exe {
            push_ascii(&mut qemu, ".exe");
        } else {
            push_ascii(&mut qemu, "");
        }
        proof {
            reveal_strlit("");
            let name = qemu_file_name(arch, exe);
            assert(ascii_bytes(name) =~= ascii_bytes("qemu"@) + ascii_bytes(
                spec_qemu_extension(arch),
            ) + ascii_bytes(
                if exe {
                    ".exe"@
                } else {
                    Seq::<char>::empty()
                },
            ));
            if *self == HostArchitecture::Wsl {
                assert(ascii_bytes("/"@ + name) =~= ascii_bytes("/"@) + ascii_bytes(name));
            }
        }
        Some(qemu)
    }
}

/// Appends `arg` to the arguments `args`.
fn push_arg(args: &mut Vec<String>, arg: &str)
    ensures
        strings_view(final(args)@) == strings_view(old(args)@).push(arg@),
{
    args.push(arg.to_owned());
    assert(strings_view(args@) =~= strings_view(old(args)@).push(arg@));
}

/// Appends the concatenation of `prefix` and `rest` to the arguments `args`.
fn push_joined(args: &mut Vec<String>, prefix: &str, rest: &str)
    ensures
        strings_view(final(args)@) == strings_view(old(args)@).push(prefix@ + rest@),
{
    let mut arg = prefix.to_owned();
    arg.append(rest);
    args.push(arg);
    assert(strings_view(args@) =~= strings_view(old(args)@).push(prefix@ + rest@));
}

/// The firmware and boot drive arguments of qemu.
pub open spec fn firmware_args(ovmf_code: Seq<char>, ovmf_vars: Seq<char>, kernel_path: Seq<char>) -> Seq<
    Seq<char>,
> {
    seq![
        "-drive"@,
        "if=pflash,format=raw,readonly=on,file="@ + ovmf_code,
        "-drive"@,
        "if=pflash,format=raw,readonly=off,file="@ + ovmf_vars,
        "-drive"@,
        "format=raw,id=boot,if=none,file="@ + kernel_path,
        "-device"@,
        "nvme,serial=deadbeef,drive=boot"@,
    ]
}

/// A `-serial` argument for each serial backend in `serials`, in order.
pub open spec fn serial_args(serials: Seq<Seq<char>>) -> Seq<Seq<char>>
    decreases serials.len(),
{
    if serials.len() == 0 {
        Seq::empty()
    } else {
        serial_args(serials.drop_last()) + seq!["-serial"@, serials.last()]
    }
}

/// The serial port arguments of qemu: one per backend, or a single `none`.
pub open spec fn serial_port_args(serials: Seq<Seq<char>>) -> Seq<Seq<char>> {
    if serials.len() == 0 {
        seq!["-serial"@, "none"@]
    } else {
        serial_args(serials)
    }
}

/// The arguments of the nvme device that the kernel tests use.
pub open spec fn test_device_args() -> Seq<Seq<char>> {
    seq![
        "-drive"@,
        "file=test_nvme_data.txt,if=none,id=nvm_test,format=raw"@,
        "-device"@,
        "nvme,serial=deadbeef,drive=nvm_test"@,
    ]
}

/// The hardware acceleration arguments, which are left out while qemu logs.
pub open spec fn acceleration_args(host: HostArchitecture, logging: bool) -> Seq<Seq<char>> {
    if logging {
        Seq::empty()
    } else if spec_is_windows(host) {
        seq!["-accel"@, "whpx,kernel-irqchip=off"@, "-cpu"@, "max,vmx=off"@]
    } else {
        seq!["-enable-kvm"@, "-cpu"@, "host"@]
    }
}

/// The logging arguments of qemu.
pub open spec fn log_args(config: QemuConfig) -> Seq<Seq<char>> {
    match config.debug_log {
        Some(log) => seq!["-d"@, config.debug_info@, "-D"@, log@],
        None => Seq::empty(),
    }
}

/// The machine, device and logging arguments of qemu.
pub open spec fn machine_args(config: QemuConfig) -> Seq<Seq<char>> {
    seq!["-m"@, config.memory@, "-smp"@, decimal(config.processor_count as nat)] + (if config.devices@.len()
        == 0 {
        Seq::empty()
    } else {
        seq!["-device"@, config.devices@]
    }) + log_args(config) + seq!["-no-reboot"@]
}

/// The arguments qemu is started with.
pub open spec fn spec_launch_args(
    host: HostArchitecture,
    ovmf_code: Seq<char>,
    ovmf_vars: Seq<char>,
    kernel_path: Seq<char>,
    config: QemuConfig,
) -> Seq<Seq<char>> {
    firmware_args(ovmf_code, ovmf_vars, kernel_path) + serial_port_args(strings_view(config.serial@))
        + test_device_args() + acceleration_args(host, config.debug_log is Some) + machine_args(
        config,
    )
}

/// Appends the firmware and boot drive arguments.
fn push_firmware_args(args: &mut Vec<String>, ovmf_code: &str, ovmf_vars: &str, kernel_path: &str)
    ensures
        strings_view(final(args)@) == strings_view(old(args)@) + firmware_args(
            ovmf_code@,
            ovmf_vars@,
            kernel_path@,
        ),
{
    push_arg(args, "-drive");
    push_joined(args, "if=pflash,format=raw,readonly=on,file=", ovmf_code);
    push_arg(args, "-drive");
    push_joined(args, "if=pflash,format=raw,readonly=off,file=", ovmf_vars);
    push_arg(args, "-drive");
    push_joined(args, "format=raw,id=boot,if=none,file=", kernel_path);
    push_arg(args, "-device");
    push_arg(args, "nvme,serial=deadbeef,drive=boot");
    assert(strings_view(args@) =~= strings_view(old(args)@) + firmware_args(
        ovmf_code@,
        ovmf_vars@,
        kernel_path@,
    ));
}

/// Appends the serial port arguments for the backends `serial`.
fn push_serial_port_args(args: &mut Vec<String>, serial: &Vec<String>)
    ensures
        strings_view(final(args)@) == strings_view(old(args)@) + serial_port_args(
            strings_view(serial@),
        ),
{
    let ghost start = strings_view(args@);
    let ghost serials = strings_view(serial@);
    if serial.len() == 0 {
        push_arg(args, "-serial");
        push_arg(args, "none");
        assert(strings_view(args@) =~= start + serial_port_args(serials));
        return;
    }
    let mut i: usize = 0;
    while i < serial.len()
        invariant
            serials == strings_view(serial@),
            i <= serial@.len(),
            strings_view(args@) == start + serial_args(serials.subrange(0, i as int)),
        decreases serial@.len() - i,
    {
        push_arg(args, "-serial");
        push_arg(args, serial[i].as_str());
        proof {
            let before = serials.subrange(0, i as int);
            let after = serials.subrange(0, i + 1);
            assert(after.drop_last() =~= before);
            assert(strings_view(args@) =~= start + serial_args(after));
        }
        i += 1;
    }
    assert(serials.subrange(0, i as int) =~= serials);
}

/// Appends the arguments of the test nvme device.
fn push_test_device_args(args: &mut Vec<String>)
    ensures
        strings_view(final(args)@) == strings_view(old(args)@) + test_device_args(),
{
    push_arg(args, "-drive");
    push_arg(args, "file=test_nvme_data.txt,if=none,id=nvm_test,format=raw");
    push_arg(args, "-device");
    push_arg(args, "nvme,serial=deadbeef,drive=nvm_test");
    assert(strings_view(args@) =~= strings_view(old(args)@) + test_device_args());
}

/// Appends the hardware acceleration arguments.
fn push_acceleration_args(args: &mut Vec<String>, host: HostArchitecture, logging: bool)
    ensures
        strings_view(final(args)@) == strings_view(old(args)@) + acceleration_args(host, logging),
{
    if !logging {
        if host.is_windows() {
            push_arg(args, "-accel");
            push_arg(args, "whpx,kernel-irqchip=off");
            push_arg(args, "-cpu");
            push_arg(args, "max,vmx=off");
        } else {
            push_arg(args, "-enable-kvm");
            push_arg(args, "-cpu");
            push_arg(args, "host");
        }
    }
    assert(strings_view(args@) =~= strings_view(old(args)@) + acceleration_args(host, logging));
}

/// Appends the machine, device and logging arguments.
fn push_machine_args(args: &mut Vec<String>, config: &QemuConfig)
    ensures
        strings_view(final(args)@) == strings_view(old(args)@) + machine_args(*config),
{
    let ghost start = strings_view(args@);
    push_arg(args, "-m");
    push_arg(args, config.memory.as_str());
    push_arg(args, "-smp");
    let mut smp = String::new();
    push_decimal(&mut smp, config.processor_count as u64);
    let ghost before = strings_view(args@);
    args.push(smp);
    assert(strings_view(args@) =~= before.push(decimal(config.processor_count as nat)));
    let ghost part = seq!["-m"@, config.memory@, "-smp"@, decimal(config.processor_count as nat)];
    assert(strings_view(args@) =~= start + part);
    if config.devices.unicode_len() != 0 {
        push_arg(args, "-device");
        push_arg(args, config.devices.as_str());
    }
    let ghost part = part + (if config.devices@.len() == 0 {
        Seq::empty()
    } else {
        seq!["-device"@, config.devices@]
    });
    assert(strings_view(args@) =~= start + part);
    match &config.debug_log {
        Some(log) => {
            push_arg(args, "-d");
            push_arg(args, config.debug_info.as_str());
            push_arg(args, "-D");
            push_arg(args, log.as_str());
        },
        None => {},
    }
    let ghost part = part + log_args(*config);
    assert(strings_view(args@) =~= start + part);
    push_arg(args, "-no-reboot");
    assert(strings_view(args@) =~= start + machine_args(*config));
}

/// The arguments qemu is started with on `host`, booting the image at
/// `kernel_path` with the ovmf files `ovmf_code` and `ovmf_vars`.
pub fn launch_args(
    host: HostArchitecture,
    ovmf_code: &str,
    ovmf_vars: &str,
    kernel_path: &str,
    config: &QemuConfig,
) -> (r: Vec<String>)
    ensures
        strings_view(r@) == spec_launch_args(host, ovmf_code@, ovmf_vars@, kernel_path@, *config),
{
    let mut args: Vec<String> = Vec::new();
    assert(strings_view(args@) =~= Seq::<Seq<char>>::empty());
    push_firmware_args(&mut args, ovmf_code, ovmf_vars, kernel_path);
    push_serial_port_args(&mut args, &config.serial);
    push_test_device_args(&mut args);
    push_acceleration_args(&mut args, host, config.debug_log.is_some());
    push_machine_args(&mut args, config);
    assert(strings_view(args@) =~= spec_launch_args(
        host,
        ovmf_code@,
        ovmf_vars@,
        kernel_path@,
        *config,
    ));
    args
}

/// Whether `args` hold, from position `at` on, a `-serial` argument
/// followed by the backend `backend`.
pub open spec fn serial_pair_at(args: Seq<Seq<char>>, at: int, backend: Seq<char>) -> bool {
    &&& args[at] == "-serial"@
    &&& args[at + 1] == backend
}

/// The `-serial` arguments of the backends `serials`: two arguments per
/// backend, `-serial` and the backend, in the order of the backends.
pub proof fn lemma_serial_args_pairs(serials: Seq<Seq<char>>)
    ensures
        serial_args(serials).len() == 2 * serials.len(),
        forall|k: int|
            #![trigger serials[k]]
            0 <= k < serials.len() ==> serial_pair_at(serial_args(serials), 2 * k, serials[k]),
    decreases serials.len(),
{
    reveal_strlit("-serial");
    if serials.len() > 0 {
        let rest = serials.drop_last();
        lemma_serial_args_pairs(rest);
        let front = serial_args(rest);
        let tail = seq!["-serial"@, serials.last()];
        assert(serial_args(serials) == front + tail);
        assert forall|k: int|
            #![trigger serials[k]]
            0 <= k < serials.len() implies serial_pair_at(serial_args(serials), 2 * k, serials[k]) by {
            if k < rest.len() {
                assert(rest[k] == serials[k]);
                assert(serial_pair_at(front, 2 * k, rest[k]));
                assert((front + tail)[2 * k] == front[2 * k]);
                assert((front + tail)[2 * k + 1] == front[2 * k + 1]);
            } else {
                assert((front + tail)[2 * k] == tail[0]);
                assert((front + tail)[2 * k + 1] == tail[1]);
            }
        }
    }
}

/// Qemu gets one serial port per backend of the configuration, in order,
/// right after the firmware and boot drive arguments: the `k`th `-serial`
/// argument is followed by the `k`th backend, and the test device follows
/// the last one. Without backends it gets a single port without backend.
pub proof fn lemma_launch_args_serial_ports(
    host: HostArchitecture,
    ovmf_code: Seq<char>,
    ovmf_vars: Seq<char>,
    kernel_path: Seq<char>,
    config: QemuConfig,
)
    ensures
        ({
            let args = spec_launch_args(host, ovmf_code, ovmf_vars, kernel_path, config);
            let serials = strings_view(config.serial@);
            let ports = if serials.len() == 0 {
                1
            } else {
                serials.len() as int
            };
            &&& args.len() > 8 + 2 * ports
            &&& forall|k: int|
                #![trigger args[8 + 2 * k]]
                0 <= k < ports ==> serial_pair_at(
                    args,
                    8 + 2 * k,
                    if serials.len() == 0 {
                        "none"@
                    } else {
                        serials[k]
                    },
                )
            &&& args[8 + 2 * ports] == "-drive"@
        }),
{
    reveal_strlit("-serial");
    reveal_strlit("none");
    reveal_strlit("-drive");
    let serials = strings_view(config.serial@);
    let fw = firmware_args(ovmf_code, ovmf_vars, kernel_path);
    let sp = serial_port_args(serials);
    let rest = test_device_args() + acceleration_args(host, config.debug_log is Some) + machine_args(
        config,
    );
    lemma_serial_args_pairs(serials);
    let args = spec_launch_args(host, ovmf_code, ovmf_vars, kernel_path, config);
    assert(args =~= fw + sp + rest);
    assert(fw.len() == 8);
    assert(rest[0] == "-drive"@);
    let ports = if serials.len() == 0 {
        1
    } else {
        serials.len() as int
    };
    assert(sp.len() == 2 * ports);
    assert forall|k: int|
        #![trigger args[8 + 2 * k]]
        0 <= k < ports implies serial_pair_at(
        args,
        8 + 2 * k,
        if serials.len() == 0 {
            "none"@
        } else {
            serials[k]
        },
    ) by {
        if serials.len() > 0 {
            assert(serial_pair_at(sp, 2 * k, serials[k]));
        }
        assert(args[8 + 2 * k] == sp[2 * k]);
        assert(args[8 + 2 * k + 1] == sp[2 * k + 1]);
        if serials.len() == 0 {
            assert(sp == seq!["-serial"@, "none"@]);
        }
    }
    assert(args[8 + 2 * ports] == rest[0]);
}

} // verus!
