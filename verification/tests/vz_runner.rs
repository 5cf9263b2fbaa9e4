use cratebay_core::hypervisor::{HypervisorError, SharedDirectory, VmInfo, VmState};
use cratebay_core::vz_runner::{
    parse_shared_dir, pid_file_content, read_pid, reconcile_runner, runner_args, runner_config, runner_wait_step,
    share_arg,
    start_check, vz_runner_plan, Args, RunnerWait,
};

fn strings(v: &[&str]) -> Vec<String> {
    v.iter().map(|s| s.to_string()).collect()
}

fn share(tag: &str, host: &str, ro: bool) -> SharedDirectory {
    SharedDirectory {
        tag: tag.into(),
        host_path: host.into(),
        guest_path: format!("/mnt/{}", tag),
        read_only: ro,
    }
}

#[test]
fn parse_reads_every_option() {
    let a = Args::parse(&strings(&[
        "--kernel", "/k", "--disk", "/d.raw", "--cpus", "4", "--memory-mb", "2048", "--initrd", "/i",
        "--cmdline", "console=hvc0 quiet", "--ready-file", "/r", "--rosetta", "--share", "a:/x",
        "--share", "b:/y:ro",
    ]))
    .unwrap();
    assert_eq!(a.kernel, "/k");
    assert_eq!(a.disk, "/d.raw");
    assert_eq!(a.cpus, 4);
    assert_eq!(a.memory_mb, 2048);
    assert_eq!(a.initrd.as_deref(), Some("/i"));
    assert_eq!(a.cmdline, "console=hvc0 quiet");
    assert_eq!(a.ready_file.as_deref(), Some("/r"));
    assert!(a.rosetta);
    assert_eq!(a.shared_dirs, vec!["a:/x".to_string(), "b:/y:ro".to_string()]);
}

#[test]
fn parse_defaults_and_errors() {
    let a = Args::parse(&strings(&["--kernel", "/k", "--disk", "/d", "--cpus", "1", "--memory-mb", "512"])).unwrap();
    assert_eq!(a.cmdline, "console=hvc0");
    assert!(a.initrd.is_none());
    assert!(a.ready_file.is_none());
    assert!(!a.rosetta);
    assert!(a.shared_dirs.is_empty());

    assert_eq!(Args::parse(&strings(&["--disk", "/d"])).unwrap_err(), "Missing --kernel");
    assert_eq!(Args::parse(&strings(&["--kernel", "/k"])).unwrap_err(), "Missing --disk");
    assert_eq!(Args::parse(&strings(&["--kernel", "/k", "--disk", "/d"])).unwrap_err(), "Missing --cpus");
    assert_eq!(
        Args::parse(&strings(&["--kernel", "/k", "--disk", "/d", "--cpus", "2"])).unwrap_err(),
        "Missing --memory-mb"
    );
    assert_eq!(Args::parse(&strings(&["--cpus", "two"])).unwrap_err(), "Invalid --cpus");
    assert_eq!(Args::parse(&strings(&["--kernel"])).unwrap_err(), "--kernel requires a value");
    assert_eq!(Args::parse(&strings(&["--bogus"])).unwrap_err(), "Unknown argument: --bogus");
    assert_eq!(Args::parse(&strings(&["-h"])).unwrap_err(), Args::usage());
    assert!(Args::usage().starts_with("Usage:\n  cargobay-vz --kernel <path>"));
}

#[test]
fn later_values_replace_earlier_ones() {
    let a = Args::parse(&strings(&[
        "--kernel", "/k1", "--kernel", "/k2", "--disk", "/d", "--cpus", "1", "--cpus", "3", "--memory-mb", "64",
    ]))
    .unwrap();
    assert_eq!(a.kernel, "/k2");
    assert_eq!(a.cpus, 3);
}

#[test]
fn runner_args_read_back_through_parse() {
    let dirs = vec![share("src", "/Users/me/src", false), share("data", "/Volumes/data", true)];
    let args = runner_args("/k", "/d.raw", 2, 4096, "console=hvc0", "/ready", Some("/initrd"), true, &dirs);
    let a = Args::parse(&args).unwrap();
    assert_eq!(a.kernel, "/k");
    assert_eq!(a.disk, "/d.raw");
    assert_eq!(a.cpus, 2);
    assert_eq!(a.memory_mb, 4096);
    assert_eq!(a.cmdline, "console=hvc0");
    assert_eq!(a.ready_file.as_deref(), Some("/ready"));
    assert_eq!(a.initrd.as_deref(), Some("/initrd"));
    assert!(a.rosetta);
    assert_eq!(a.shared_dirs, vec!["src:/Users/me/src".to_string(), "data:/Volumes/data:ro".to_string()]);
}

#[test]
fn share_values_round_trip() {
    let s = share("data", "/Volumes/data", true);
    assert_eq!(share_arg(&s), "data:/Volumes/data:ro");
    let p = parse_shared_dir(&share_arg(&s)).unwrap();
    assert_eq!(p.tag, "data");
    assert_eq!(p.host_path, "/Volumes/data");
    assert!(p.read_only);

    let p = parse_shared_dir("src:/x:rw").unwrap();
    assert_eq!(p.host_path, "/x");
    assert!(!p.read_only);
    let p = parse_shared_dir("src:/x").unwrap();
    assert!(!p.read_only);
}

#[test]
fn share_values_errors() {
    assert_eq!(
        parse_shared_dir("nocolon").unwrap_err(),
        "Invalid --share format 'nocolon', expected 'tag:host_path[:ro]'"
    );
    assert_eq!(
        parse_shared_dir("t\0g:/x").unwrap_err(),
        "invalid tag: nul byte found in provided data at position: 1"
    );
    assert_eq!(
        parse_shared_dir("tag:/é\0").unwrap_err(),
        "invalid host_path: nul byte found in provided data at position: 3"
    );
}

#[test]
fn pid_files() {
    assert_eq!(read_pid("1234\n"), Some(1234));
    assert_eq!(read_pid("  42 "), Some(42));
    assert_eq!(read_pid(""), None);
    assert_eq!(read_pid("x1"), None);
    assert_eq!(read_pid("4294967296"), None);
}

#[test]
fn runner_plan_for_a_vm() {
    let vm = VmInfo {
        id: "vz-1".into(),
        name: "dev".into(),
        state: VmState::Stopped,
        cpus: 2,
        memory_mb: 1024,
        disk_gb: 20,
        rosetta_enabled: false,
        shared_dirs: vec![share("s", "/h", false)],
        port_forwards: vec![],
        os_image: None,
    };
    match vz_runner_plan(None, None, None, true, "/data", &vm) {
        Err(HypervisorError::CreateFailed(m)) => {
            assert_eq!(m, "CARGOBAY_VZ_KERNEL is required to start a macOS VZ VM")
        }
        other => panic!("unexpected {:?}", other),
    }
    match vz_runner_plan(Some("/k"), None, None, false, "/data", &vm) {
        Err(HypervisorError::CreateFailed(m)) => {
            assert_eq!(m, "VM disk image not found: /data/vms/vz-1/disk.raw")
        }
        other => panic!("unexpected {:?}", other),
    }
    let args = vz_runner_plan(Some("/k"), Some("/i"), None, true, "/data", &vm).unwrap();
    assert_eq!(
        args,
        strings(&[
            "--kernel", "/k", "--disk", "/data/vms/vz-1/disk.raw", "--cpus", "2", "--memory-mb", "1024",
            "--cmdline", "console=hvc0", "--ready-file", "/data/vms/vz-1/runner.ready", "--initrd", "/i",
            "--share", "s:/h",
        ])
    );
}

#[test]
fn runner_lifecycle_decisions() {

    let c = start_check(Some(true), false, VmState::Stopped);
    assert!(c.already_running && c.persist && !c.forget_pid);
    let c = start_check(Some(false), false, VmState::Running);
    assert!(!c.already_running && !c.persist && c.forget_pid);
    let c = start_check(None, true, VmState::Running);
    assert!(c.already_running && !c.persist);
    let c = start_check(None, false, VmState::Stopped);
    assert!(!c.already_running && !c.forget_pid);

    assert!(matches!(runner_wait_step(true, Some("exit status: 1"), true), RunnerWait::Ready));
    match runner_wait_step(false, Some("exit status: 1"), false) {
        RunnerWait::Failed(HypervisorError::CreateFailed(m)) => assert_eq!(m, "cargobay-vz exited early: exit status: 1"),
        other => panic!("unexpected {:?}", other),
    }
    match runner_wait_step(false, None, true) {
        RunnerWait::GiveUp(HypervisorError::CreateFailed(m)) => assert_eq!(m, "Timed out waiting for VM to start"),
        other => panic!("unexpected {:?}", other),
    }
    assert!(matches!(runner_wait_step(false, None, false), RunnerWait::Poll));

    let r = reconcile_runner(true, Some(true), VmState::Running);
    assert_eq!(r.state, VmState::Stopped);
    assert!(r.forget_child && r.forget_pid && r.changed);
    let r = reconcile_runner(false, Some(false), VmState::Running);
    assert_eq!(r.state, VmState::Stopped);
    assert!(!r.forget_child && r.forget_pid && r.changed);
    let r = reconcile_runner(false, Some(true), VmState::Stopped);
    assert_eq!(r.state, VmState::Running);
    assert!(r.changed);
    let r = reconcile_runner(false, None, VmState::Creating);
    assert_eq!(r.state, VmState::Creating);
    assert!(!r.changed);

    assert_eq!(pid_file_content(4242), "4242\n");
    assert_eq!(read_pid(&pid_file_content(4242)), Some(4242));
}

#[test]
fn runner_config_reads_every_share() {
    let a = Args::parse(&strings(&[
        "--kernel", "/k", "--disk", "/d", "--cpus", "2", "--memory-mb", "512", "--share", "a:/x", "--share",
        "b:/y:ro",
    ]))
    .unwrap();
    let c = runner_config(&a).unwrap();
    assert_eq!(c.kernel, "/k");
    assert_eq!(c.disk, "/d");
    assert_eq!(c.cmdline, "console=hvc0");
    assert_eq!(c.cpus, 2);
    assert_eq!(c.memory_mb, 512);
    assert_eq!(c.shared_dirs.len(), 2);
    assert_eq!(c.shared_dirs[1].tag, "b");
    assert!(c.shared_dirs[1].read_only);

    let bad = Args::parse(&strings(&[
        "--kernel", "/k", "--disk", "/d", "--cpus", "2", "--memory-mb", "512", "--share", "ok:/x", "--share",
        "broken", "--share", "also-broken",
    ]))
    .unwrap();
    assert_eq!(
        runner_config(&bad).unwrap_err(),
        "Invalid --share format 'broken', expected 'tag:host_path[:ro]'"
    );
}
