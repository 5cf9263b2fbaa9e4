use cratebay_core::cli::{resolve_vm_id_wire, vm_table_row, vm_table_row_wire};
use cratebay_core::daemon::{
    core_port_forward, core_shared_dirs, list_vms_reply, proto_port_forward, resolve_vm_id, status_from_error,
    vm_status_index, vm_status_reply, wire_vm_info, StatusCode, WirePortForward, WireSharedDirectory,
};
use cratebay_core::desktop::{vm_info_dto, vm_info_dto_from_wire};
use cratebay_core::guest_agent::Config;
use cratebay_core::hypervisor::{HypervisorError, PortForward, SharedDirectory, VmInfo, VmState};

fn info(id: &str, name: &str) -> VmInfo {
    VmInfo {
        id: id.to_string(),
        name: name.to_string(),
        state: VmState::Running,
        cpus: 1,
        memory_mb: 512,
        disk_gb: 20,
        rosetta_enabled: false,
        shared_dirs: vec![],
        port_forwards: vec![],
        os_image: None,
    }
}

fn strings(v: &[&str]) -> Vec<String> {
    v.iter().map(|s| s.to_string()).collect()
}

#[test]
fn errors_map_to_grpc_statuses() {
    let s = status_from_error(HypervisorError::NotFound("vz-9".into()));
    assert_eq!(s.code, StatusCode::NotFound);
    assert_eq!(s.message, "VM not found: vz-9");
    let s = status_from_error(HypervisorError::Unsupported);
    assert_eq!(s.code, StatusCode::Unimplemented);
    assert_eq!(s.message, "unsupported platform");
    let s = status_from_error(HypervisorError::RosettaUnavailable("no".into()));
    assert_eq!(s.code, StatusCode::FailedPrecondition);
    assert_eq!(s.message, "no");
    let s = status_from_error(HypervisorError::VirtioFsError("tag".into()));
    assert_eq!(s.code, StatusCode::FailedPrecondition);
    let s = status_from_error(HypervisorError::CreateFailed("full".into()));
    assert_eq!(s.code, StatusCode::FailedPrecondition);
    assert_eq!(s.message, "full");
    let s = status_from_error(HypervisorError::Storage("disk".into()));
    assert_eq!(s.code, StatusCode::Internal);
    assert_eq!(s.message, "storage error: disk");
    let s = status_from_error(HypervisorError::Io("eof".into()));
    assert_eq!(s.code, StatusCode::Internal);
    assert_eq!(s.message, "io error: eof");
}

#[test]
fn selectors_name_vms_by_id_or_name() {
    let vms = vec![info("vm-1", "alpha"), info("vm-2", "vm-1"), info("vm-3", "alpha")];
    assert_eq!(resolve_vm_id(&vms, "vm-2").unwrap(), "vm-2");
    assert_eq!(resolve_vm_id(&vms, "alpha").unwrap(), "vm-1");
    // An id wins over a name.
    assert_eq!(resolve_vm_id(&vms, "vm-1").unwrap(), "vm-1");
    let e = resolve_vm_id(&vms, "ghost").unwrap_err();
    assert_eq!(e.code, StatusCode::NotFound);
    assert_eq!(e.message, "VM not found: ghost");

    assert_eq!(vm_status_index(&vms, "alpha").unwrap(), 0);
    assert_eq!(vm_status_index(&vms, "vm-3").unwrap(), 2);
    assert_eq!(vm_status_index(&vms, "ghost").unwrap_err().message, "VM not found: ghost");
}

#[test]
fn guest_agent_defaults() {
    let c = Config::from_env_and_args(None, None, &vec![]).unwrap();
    assert_eq!(c.port, 6237);
    assert_eq!(c.docker_socket, "/var/run/docker.sock");
    let c = Config::from_env_and_args(Some("7001"), Some("/run/d.sock"), &vec![]).unwrap();
    assert_eq!(c.port, 7001);
    assert_eq!(c.docker_socket, "/run/d.sock");
    let c = Config::from_env_and_args(Some("0"), Some("  "), &vec![]).unwrap();
    assert_eq!(c.port, 6237);
    assert_eq!(c.docker_socket, "/var/run/docker.sock");
}

#[test]
fn guest_agent_arguments_take_precedence() {
    let c = Config::from_env_and_args(
        Some("7001"),
        Some("/run/d.sock"),
        &strings(&["--port", "8000", "--docker-sock", "/tmp/d.sock"]),
    )
    .unwrap();
    assert_eq!(c.port, 8000);
    assert_eq!(c.docker_socket, "/tmp/d.sock");
}

#[test]
fn guest_agent_argument_errors() {
    let e = |a: &[&str]| Config::from_env_and_args(None, None, &strings(a)).unwrap_err();
    assert_eq!(e(&["--port"]), "--port requires a value");
    assert_eq!(e(&["--port", "x"]), "Invalid --port");
    assert_eq!(e(&["--port", "0"]), "--port must be > 0");
    assert_eq!(e(&["--docker-sock"]), "--docker-sock requires a value");
    assert_eq!(e(&["--verbose"]), "Unknown argument: --verbose");
    assert_eq!(e(&["--help"]), Config::usage());
    assert!(Config::usage().contains("CRATEBAY_DOCKER_VSOCK_PORT"));
}

fn busy_vm() -> VmInfo {
    let mut vm = info("kvm-3", "web");
    vm.cpus = 4;
    vm.memory_mb = 4096;
    vm.disk_gb = 40;
    vm.rosetta_enabled = true;
    vm.shared_dirs = vec![SharedDirectory {
        tag: "code".into(),
        host_path: "/home/u/code".into(),
        guest_path: "/mnt/code".into(),
        read_only: true,
    }];
    vm.port_forwards = vec![PortForward { host_port: 8080, guest_port: 80, protocol: "tcp".into() }];
    vm
}

#[test]
fn listing_sends_state_names_and_wide_ports() {
    let reply = list_vms_reply(&vec![busy_vm(), info("kvm-4", "db")]);
    assert_eq!(reply.len(), 2);
    let w = &reply[0];
    assert_eq!(w.vm_id, "kvm-3");
    assert_eq!(w.status, "running");
    assert_eq!(w.cpus, 4);
    assert_eq!(w.memory_mb, 4096);
    assert_eq!(w.disk_gb, 40);
    assert!(w.rosetta_enabled);
    assert_eq!(w.shared_dirs[0].tag, "code");
    assert!(w.shared_dirs[0].read_only);
    assert_eq!(w.port_forwards[0].host_port, 8080u32);
    assert_eq!(w.port_forwards[0].guest_port, 80u32);
    assert_eq!(reply[1].name, "db");
}

#[test]
fn status_reply_finds_by_id_or_name() {
    let vms = vec![info("kvm-1", "a"), busy_vm()];
    let s = vm_status_reply(&vms, "web").unwrap();
    assert_eq!(s.vm_id, "kvm-3");
    assert_eq!(s.status, "running");
    assert_eq!(s.disk_gb, 40);
    assert_eq!(s.port_forwards.len(), 1);
    let e = vm_status_reply(&vms, "nope").unwrap_err();
    assert_eq!(e.code, StatusCode::NotFound);
    assert_eq!(e.message, "VM not found: nope");
}

#[test]
fn port_forwards_cross_the_wire_unchanged() {
    let back = core_port_forward(proto_port_forward(PortForward { host_port: 65535, guest_port: 22, protocol: "udp".into() }));
    assert_eq!((back.host_port, back.guest_port, back.protocol.as_str()), (65535, 22, "udp"));
    let cut = core_port_forward(WirePortForward { host_port: 65536 + 80, guest_port: 443, protocol: "tcp".into() });
    assert_eq!(cut.host_port, 80);
    let dirs = core_shared_dirs(vec![WireSharedDirectory {
        tag: "t".into(),
        host_path: "/h".into(),
        guest_path: "/g".into(),
        read_only: false,
    }]);
    assert_eq!(dirs[0].host_path, "/h");
}

#[test]
fn app_shows_daemon_and_local_listings_alike() {
    let local = vm_info_dto(busy_vm());
    let remote = vm_info_dto_from_wire(wire_vm_info(&busy_vm()));
    assert_eq!(local.id, remote.id);
    assert_eq!(local.name, remote.name);
    assert_eq!(local.state, remote.state);
    assert_eq!(remote.state, "running");
    assert_eq!((local.cpus, local.memory_mb, local.disk_gb), (remote.cpus, remote.memory_mb, remote.disk_gb));
    assert_eq!(local.rosetta_enabled, remote.rosetta_enabled);
    assert_eq!(local.mounts.len(), remote.mounts.len());
    assert_eq!(local.mounts[0].guest_path, remote.mounts[0].guest_path);
    assert_eq!(remote.port_forwards[0].host_port, 8080);
    assert_eq!(local.port_forwards[0].host_port, remote.port_forwards[0].host_port);
}

#[test]
fn cli_resolves_selectors_among_listed_vms() {
    let reply = list_vms_reply(&vec![info("kvm-1", "kvm-2"), info("kvm-2", "b"), info("kvm-3", "b")]);
    assert_eq!(resolve_vm_id_wire(&reply, "kvm-2"), Ok("kvm-2".to_string()));
    assert_eq!(resolve_vm_id_wire(&reply, "b"), Ok("kvm-2".to_string()));
    assert_eq!(resolve_vm_id_wire(&reply, "zzz"), Err("VM not found: zzz".to_string()));
}

#[test]
fn cli_rows_name_the_state_as_sent() {
    let vm = busy_vm();
    let remote = vm_table_row_wire(&wire_vm_info(&vm));
    let local = vm_table_row(&vm);
    assert!(remote.contains(" running "));
    assert!(local.contains(" Running "));
    assert!(remote.ends_with("yes      1"));
}
