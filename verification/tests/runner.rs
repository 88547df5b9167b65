use wasabi::runner::qemu::find_nameserver;
use wasabi::runner::args::{
    BuildOptions, CleanArgs, ExpandArgs, Feature, KernelBinary, Profile, QemuOptions, Target,
    TestArgs, UefiOptions, WorkspacePackage,
};
use wasabi::runner::cargo::{
    build_args, check_args, clean_command, expand_args, latest_binary, latest_path, member_package,
    uefi_image_name, ExpandError,
};
use wasabi::runner::qemu::{
    find_install_dir, find_subslice, launch_args, trim_u8_slice, Arch, HostArchitecture,
    QemuConfig, QemuConfigError, UefiConfig,
};
use wasabi::runner::testproto::{
    count_command, handshake_bytes, is_successful_exit, isolated_start_command, parse_start_test,
    parse_tcp_port, parse_test_count, parse_test_result, resume_index, runs_without_tcp,
    starts_test, tcp_serial, validate_qemu_run, without_tcp, HandshakeMatcher, LineReader,
    QemuExitError, TestCount, TestRunError,
};
use wasabi::runner::testrun::{CombinedPhase, CombinedRun, IsolatedRun, RunAction, RunEvent};

fn qemu_options() -> QemuOptions {
    QemuOptions {
        qemu_log: None,
        qemu_info: "int,cpu_reset,unimp,guest_errors".to_string(),
        processor_count: 4,
        uefi: UefiOptions {
            ovmf_code: Some("code.fd".to_string()),
            ovmf_vars: None,
        },
        gdb: false,
        gdb_port: None,
    }
}

fn build_options(features: Vec<Feature>) -> BuildOptions {
    BuildOptions {
        profile: None,
        release: true,
        target: Target::X86_64,
        features,
        all_features: false,
        no_default_features: false,
    }
}

fn strings(v: &[&str]) -> Vec<String> {
    v.iter().map(|s| s.to_string()).collect()
}

#[test]
fn qemu_config_from_options() {
    let options = qemu_options();
    let config = QemuConfig::from_options(&options);
    assert_eq!(config.memory, "4G");
    assert_eq!(config.devices, "");
    assert_eq!(config.serial, strings(&["stdio"]));
    assert!(config.kill_on_drop);
    assert_eq!(config.processor_count, 4);
    assert_eq!(config.debug_log, None);
    assert_eq!(config.uefi.ovmf_code, Some("code.fd".to_string()));
    let uefi = UefiConfig::from_options(&options.uefi);
    assert_eq!(uefi.ovmf_vars, None);
}

#[test]
fn qemu_supports_four_serial_ports() {
    let options = qemu_options();
    let mut config = QemuConfig::from_options(&options);
    assert_eq!(config.add_serial("a".to_string()), Ok(()));
    assert_eq!(config.add_serial("b".to_string()), Ok(()));
    assert_eq!(config.add_serial("c".to_string()), Ok(()));
    assert_eq!(
        config.add_serial("d".to_string()),
        Err(QemuConfigError::TooManySerialPorts)
    );
    assert_eq!(config.serial, strings(&["stdio", "a", "b", "c"]));
}

#[test]
fn host_architecture_decision() {
    assert_eq!(HostArchitecture::get(true, true), HostArchitecture::Windows);
    assert_eq!(HostArchitecture::get(false, true), HostArchitecture::Wsl);
    assert_eq!(HostArchitecture::get(false, false), HostArchitecture::Linux);
    assert!(HostArchitecture::Wsl.is_windows());
    assert!(!HostArchitecture::Linux.is_windows());
    assert_eq!(Arch::X86_64.qemu_extension(), "-system-x86_64");
}

#[test]
fn trims_blanks() {
    assert_eq!(trim_u8_slice(b"  C:\\qemu \r\n"), b"C:\\qemu");
    assert_eq!(trim_u8_slice(b"x"), b"x");
}

#[test]
fn finds_first_occurrence() {
    assert_eq!(find_subslice(b"abcabc", b"bc"), Some(1));
    assert_eq!(find_subslice(b"abc", b"d"), None);
    assert_eq!(find_subslice(b"ab", b"abc"), None);
}

#[test]
fn reads_qemu_install_dir() {
    let output = b"\r\nHKEY_LOCAL_MACHINE\\Software\\QEMU\r\n    Install_Dir    REG_SZ    C:\\Program Files\\qemu\r\n\r\n";
    assert_eq!(
        find_install_dir(output),
        Some(b"C:\\Program Files\\qemu".to_vec())
    );
    assert_eq!(find_install_dir(b"nothing here"), None);
    assert_eq!(find_install_dir(b"Install_Dir    REG_SZ    C:\\q"), None);
}

#[test]
fn qemu_binary_names() {
    assert_eq!(
        HostArchitecture::Linux.qemu_binary(Arch::X86_64, false, b""),
        Some(b"qemu-system-x86_64".to_vec())
    );
    assert_eq!(
        HostArchitecture::Windows.qemu_binary(Arch::X86_64, true, b""),
        Some(b"qemu-system-x86_64.exe".to_vec())
    );
    let output = b"    Install_Dir    REG_SZ    C:\\qemu\r\n";
    assert_eq!(
        HostArchitecture::Wsl.qemu_binary(Arch::X86_64, false, output),
        Some(b"C:\\qemu/qemu-system-x86_64.exe".to_vec())
    );
    assert_eq!(HostArchitecture::Wsl.qemu_binary(Arch::X86_64, false, b""), None);
}

#[test]
fn qemu_launch_arguments() {
    let options = qemu_options();
    let mut config = QemuConfig::from_options(&options);
    config.devices = "isa-debug-exit,iobase=0xf4,iosize=0x04".to_string();
    let args = launch_args(HostArchitecture::Linux, "code.fd", "vars.fd", "kernel.img", &config);
    let expected = strings(&[
        "-drive",
        "if=pflash,format=raw,readonly=on,file=code.fd",
        "-drive",
        "if=pflash,format=raw,readonly=off,file=vars.fd",
        "-drive",
        "format=raw,id=boot,if=none,file=kernel.img",
        "-device",
        "nvme,serial=deadbeef,drive=boot",
        "-serial",
        "stdio",
        "-drive",
        "file=test_nvme_data.txt,if=none,id=nvm_test,format=raw",
        "-device",
        "nvme,serial=deadbeef,drive=nvm_test",
        "-enable-kvm",
        "-cpu",
        "host",
        "-m",
        "4G",
        "-smp",
        "4",
        "-device",
        "isa-debug-exit,iobase=0xf4,iosize=0x04",
        "-no-reboot",
    ]);
    assert_eq!(args, expected);
}

#[test]
fn qemu_launch_arguments_with_log_on_windows() {
    let mut options = qemu_options();
    options.qemu_log = Some("qemu.log".to_string());
    let mut config = QemuConfig::from_options(&options);
    config.serial.clear();
    let args = launch_args(HostArchitecture::Wsl, "c", "v", "k", &config);
    assert_eq!(args[8..10].to_vec(), strings(&["-serial", "none"]));
    assert!(!args.contains(&"-accel".to_string()));
    assert_eq!(
        args[args.len() - 5..].to_vec(),
        strings(&["-d", "int,cpu_reset,unimp,guest_errors", "-D", "qemu.log", "-no-reboot"])
    );
    options.qemu_log = None;
    let config = QemuConfig::from_options(&options);
    let args = launch_args(HostArchitecture::Wsl, "c", "v", "k", &config);
    assert!(args
        .windows(4)
        .any(|w| w == strings(&["-accel", "whpx,kernel-irqchip=off", "-cpu", "max,vmx=off"]).as_slice()));
}

#[test]
fn judges_qemu_exit() {
    assert_eq!(is_successful_exit(false, Some(33)), Ok(true));
    assert_eq!(is_successful_exit(false, Some(35)), Ok(false));
    assert_eq!(is_successful_exit(true, Some(0)), Err(QemuExitError::ExitedWithZero));
    assert_eq!(
        is_successful_exit(false, Some(1)),
        Err(QemuExitError::UnexpectedCode(1))
    );
    assert_eq!(is_successful_exit(false, None), Err(QemuExitError::NoCode));
    assert_eq!(validate_qemu_run(false, Some(33)), Ok(()));
    assert_eq!(validate_qemu_run(false, Some(35)), Err(TestRunError::TestsFailed));
}

#[test]
fn test_counts_add_up() {
    let mut count = TestCount::default();
    count.add_assign(TestCount { success: 2, total: 3 });
    let sum = count.add(TestCount { success: 1, total: 1 });
    assert_eq!(sum, TestCount { success: 3, total: 4 });
    assert!(!sum.all_succeeded());
    assert!(TestCount { success: 4, total: 4 }.all_succeeded());
}

#[test]
fn handshake_is_found_after_noise() {
    let mut matcher = HandshakeMatcher::new();
    let mut done = false;
    for b in b"boot log\ntests ready\n" {
        assert!(!done);
        done = matcher.step(*b);
    }
    assert!(done);
    assert_eq!(handshake_bytes(), b"tests ready\n".to_vec());
}

#[test]
fn handshake_restarts_after_mismatch() {
    let mut matcher = HandshakeMatcher::new();
    let mut done = false;
    for b in b"testests ready\n" {
        done = matcher.step(*b);
    }
    assert!(!done);
}

#[test]
fn reads_lines() {
    let mut reader = LineReader::new();
    let mut lines = Vec::new();
    for b in b"start test 0\ntest succeeded\n" {
        if let Some(line) = reader.step(*b) {
            lines.push(line);
        }
    }
    assert_eq!(lines, strings(&["start test 0", "test succeeded"]));
}

#[test]
fn protocol_commands() {
    assert_eq!(count_command(false), "count\n");
    assert_eq!(count_command(true), "count panic\n");
    assert_eq!(isolated_start_command(false, 12), "isolated\n12\n");
    assert_eq!(isolated_start_command(true, 0), "test panic\n0\n");
    assert_eq!(resume_index(7), "7\n");
    assert_eq!(tcp_serial("4444"), "tcp::4444,server");
}

#[test]
fn protocol_lines() {
    assert_eq!(parse_test_count("42"), Some(42));
    assert_eq!(parse_test_count("+3"), Some(3));
    assert_eq!(parse_test_count("-3"), None);
    assert_eq!(parse_test_count(""), None);
    assert!(starts_test("start test 5"));
    assert!(!starts_test("start tes"));
    assert_eq!(parse_start_test("start test 5"), Some(5));
    assert_eq!(parse_start_test("start test x"), None);
    assert_eq!(parse_test_result("test succeeded"), Ok(true));
    assert_eq!(parse_test_result("test failed"), Ok(false));
    assert_eq!(
        parse_test_result("test ok"),
        Err(TestRunError::UnknownTestResult("test ok".to_string()))
    );
    assert_eq!(parse_tcp_port("4444"), Some(4444));
    assert_eq!(parse_tcp_port("65536"), None);
}

#[test]
fn test_args_without_tcp() {
    let args = TestArgs {
        qemu: qemu_options(),
        timeout: 10,
        isolated: true,
        keep_going: true,
        fast: false,
        tcp_port: "none".to_string(),
    };
    assert!(runs_without_tcp(&args));
    let args = without_tcp(args);
    assert!(!args.isolated && !args.keep_going && args.fast);
    assert_eq!(args.tcp_port, "none");
}

#[test]
fn combined_run_counts_results() {
    let (mut run, action) = CombinedRun::new(2, false);
    assert_eq!(action, RunAction::ReceiveLine);
    assert_eq!(run.step(RunEvent::Line("start test 0".to_string())), Ok(RunAction::ConfirmStart));
    assert_eq!(run.step(RunEvent::Sent), Ok(RunAction::ReceiveLine));
    assert_eq!(run.step(RunEvent::Line("test succeeded".to_string())), Ok(RunAction::ReceiveLine));
    assert_eq!(run.step(RunEvent::Line("start test 1".to_string())), Ok(RunAction::ConfirmStart));
    assert_eq!(run.step(RunEvent::Sent), Ok(RunAction::ReceiveLine));
    assert_eq!(run.step(RunEvent::Line("test failed".to_string())), Ok(RunAction::WaitForExit));
    assert_eq!(
        run.step(RunEvent::Exited { success: false, code: Some(35) }),
        Ok(RunAction::Finished(TestCount { success: 1, total: 2 }))
    );
    assert_eq!(run.phase, CombinedPhase::Done);
}

#[test]
fn combined_run_checks_the_test_index() {
    let (mut run, _) = CombinedRun::new(2, false);
    assert_eq!(
        run.step(RunEvent::Line("start test 1".to_string())),
        Err(TestRunError::UnexpectedTest { expected: 0, started: 1 })
    );
    let (mut run, _) = CombinedRun::new(2, false);
    assert_eq!(
        run.step(RunEvent::Line("start test one".to_string())),
        Err(TestRunError::InvalidTestIndex)
    );
}

#[test]
fn combined_run_restarts_after_crash() {
    let (mut run, _) = CombinedRun::new(3, true);
    assert_eq!(
        run.step(RunEvent::Exited { success: false, code: Some(35) }),
        Ok(RunAction::Restart { next_test: 1 })
    );
    assert_eq!(run.resume_action(), RunAction::ReceiveLine);
    let (mut run, _) = CombinedRun::new(3, false);
    assert_eq!(
        run.step(RunEvent::Exited { success: false, code: Some(35) }),
        Err(TestRunError::QemuExited)
    );
    let (mut run, _) = CombinedRun::new(3, true);
    assert_eq!(
        run.step(RunEvent::Exited { success: false, code: Some(33) }),
        Err(TestRunError::UnexpectedSuccess)
    );
}

#[test]
fn combined_run_without_tests_waits_for_exit() {
    let (mut run, action) = CombinedRun::new(0, false);
    assert_eq!(action, RunAction::WaitForExit);
    assert_eq!(
        run.step(RunEvent::Exited { success: false, code: Some(33) }),
        Ok(RunAction::Finished(TestCount { success: 0, total: 0 }))
    );
}

#[test]
fn isolated_run_launches_each_test() {
    let (mut run, action) = IsolatedRun::new(2, false);
    assert_eq!(action, RunAction::Launch { command: "isolated\n0\n".to_string() });
    assert_eq!(run.step(RunEvent::Sent), Ok(RunAction::ReceiveLine));
    assert_eq!(run.step(RunEvent::Line("start test 0".to_string())), Ok(RunAction::WaitForExit));
    assert_eq!(
        run.step(RunEvent::Exited { success: false, code: Some(33) }),
        Ok(RunAction::Launch { command: "isolated\n1\n".to_string() })
    );
    assert_eq!(
        run.step(RunEvent::Exited { success: false, code: Some(35) }),
        Ok(RunAction::Finished(TestCount { success: 1, total: 2 }))
    );
}

#[test]
fn isolated_panic_run_refuses_early_success() {
    let (mut run, action) = IsolatedRun::new(1, true);
    assert_eq!(action, RunAction::Launch { command: "test panic\n0\n".to_string() });
    assert_eq!(
        run.step(RunEvent::Exited { success: false, code: Some(33) }),
        Err(TestRunError::UnexpectedSuccess)
    );
}

#[test]
fn cargo_build_and_check_arguments() {
    let options = build_options(vec![Feature::NoColor, Feature::TestTests]);
    assert_eq!(
        build_args(KernelBinary::Wasabi, &options, "latest/x"),
        strings(&[
            "build", "-p", "wasabi-kernel", "--bin", "wasabi-kernel", "-Z", "unstable-options",
            "--target", "x86_64-unknown-none", "--features", "no-color", "--profile", "release",
            "--artifact-dir", "latest/x",
        ])
    );
    assert_eq!(
        check_args(KernelBinary::Test, &options),
        strings(&[
            "check", "-p", "wasabi-test", "--bin", "wasabi-test", "--target",
            "x86_64-unknown-none", "--features", "no-color", "test-tests", "--profile", "release",
        ])
    );
    let mut options = build_options(vec![Feature::Test]);
    options.release = false;
    options.no_default_features = true;
    assert_eq!(
        check_args(KernelBinary::Test, &options),
        strings(&[
            "check", "-p", "wasabi-test", "--bin", "wasabi-test", "--target",
            "x86_64-unknown-none", "--no-default-features", "--profile", "dev",
        ])
    );
    options.all_features = true;
    options.profile = Some(Profile::Release);
    assert_eq!(
        check_args(KernelBinary::Wasabi, &options)[7..].to_vec(),
        strings(&["--no-default-features", "--all-features", "--profile", "release"])
    );
}

#[test]
fn cargo_expand_arguments() {
    let args = ExpandArgs {
        lib: false,
        bin: None,
        options: build_options(vec![Feature::Test]),
        package: WorkspacePackage::Testing_Derive,
        item: Some("cpu::gdt".to_string()),
    };
    assert_eq!(
        expand_args(&args),
        Ok(strings(&[
            "expand", "--package", "testing/-derive", "--target", "x86_64-unknown-none",
            "--features", "test", "--profile", "release", "cpu::gdt",
        ]))
    );
    let args = ExpandArgs {
        lib: true,
        bin: Some("kernel".to_string()),
        options: build_options(vec![]),
        package: WorkspacePackage::WasabiKernel,
        item: None,
    };
    assert_eq!(expand_args(&args), Err(ExpandError::LibAndBin));
}

#[test]
fn latest_build_paths() {
    assert_eq!(
        latest_path("wasabi-test", Target::X86_64, Profile::Dev),
        strings(&["latest", "x86_64-unknown-none", "dev", "wasabi-test"])
    );
    assert_eq!(latest_binary(true), "wasabi-test");
    assert_eq!(latest_binary(false), "wasabi-kernel");
    assert_eq!(uefi_image_name("wasabi-kernel"), "wasabi-kernel-uefi.img");
    assert_eq!(member_package("testing/derive"), "testing-derive");
}

#[test]
fn clean_commands() {
    let mut args = CleanArgs {
        workspace: false,
        kernel: true,
        test: true,
        latest: false,
        all: false,
        docs: false,
        ovmf: false,
    };
    assert_eq!(clean_command(&args), Some(strings(&["clean", "-p", "wasabi-kernel"])));
    args.docs = true;
    assert_eq!(clean_command(&args), Some(strings(&["clean", "--docs"])));
    args.docs = false;
    args.kernel = false;
    args.test = false;
    assert_eq!(clean_command(&args), None);
}

#[test]
fn workspace_package_paths() {
    assert_eq!(WorkspacePackage::WasabiKernel.as_os_path(), "wasabi-kernel");
    assert_eq!(WorkspacePackage::Testing_Derive.as_os_path(), "testing/-derive");
    assert_eq!(WorkspacePackage::InterruptFnBuilder.as_os_path(), "interrupt-fn-builder");
}

#[test]
fn nameserver_of_resolv_conf() {
    let conf = b"# generated\nsearch lan\nnameserver 172.20.0.1\r\nnameserver 8.8.8.8\n";
    assert_eq!(find_nameserver(conf), Some(b"172.20.0.1".to_vec()));
    assert_eq!(find_nameserver(b"nameserver 10.0.0.1"), Some(b"10.0.0.1".to_vec()));
    assert_eq!(find_nameserver(b" nameserver 10.0.0.1\nnameservers 1\n"), None);
    assert_eq!(find_nameserver(b""), None);
    assert_eq!(find_nameserver(b"nameserver \n"), Some(vec![]));
}

#[test]
fn test_configuration_has_the_exit_device() {
    let options = qemu_options();
    let config = QemuConfig::for_tests(&options);
    assert_eq!(config.devices, "isa-debug-exit,iobase=0xf4,iosize=0x04");
    assert_eq!(config.serial, vec!["stdio".to_string()]);
    assert_eq!(config.processor_count, 4);
}
