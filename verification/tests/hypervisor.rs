use cratebay_core::hypervisor::{
    HypervisorError, PortForward, SharedDirectory, VmConfig, VmState, default_disk_gb, read_console_from, read_console_text,
};
// -----------------------------------------------------------------------
// VmState tests
// -----------------------------------------------------------------------

#[test]
fn vm_state_equality() {
    assert_eq!(VmState::Running, VmState::Running);
    assert_eq!(VmState::Stopped, VmState::Stopped);
    assert_eq!(VmState::Creating, VmState::Creating);
    assert_ne!(VmState::Running, VmState::Stopped);
    assert_ne!(VmState::Running, VmState::Creating);
    assert_ne!(VmState::Stopped, VmState::Creating);
}

#[test]
fn vm_state_clone() {
    let state = VmState::Running;
    let cloned = state.clone();
    assert_eq!(state, cloned);
}

#[test]
fn vm_state_debug_format() {
    assert_eq!(format!("{:?}", VmState::Running), "Running");
    assert_eq!(format!("{:?}", VmState::Stopped), "Stopped");
    assert_eq!(format!("{:?}", VmState::Creating), "Creating");
}

// -----------------------------------------------------------------------
// VmConfig tests
// -----------------------------------------------------------------------

#[test]
fn vm_config_default_values() {
    let cfg = VmConfig::default();
    assert_eq!(cfg.name, "default");
    assert_eq!(cfg.cpus, 2);
    assert_eq!(cfg.memory_mb, 2048);
    assert_eq!(cfg.disk_gb, 20);
    assert!(!cfg.rosetta);
    assert!(cfg.shared_dirs.is_empty());
    assert!(cfg.os_image.is_none());
    assert!(cfg.kernel_path.is_none());
    assert!(cfg.initrd_path.is_none());
    assert!(cfg.disk_path.is_none());
    assert!(cfg.port_forwards.is_empty());
}

#[test]
fn vm_config_custom_construction() {
    let cfg = VmConfig {
        name: "my-vm".into(),
        cpus: 8,
        memory_mb: 16384,
        disk_gb: 100,
        rosetta: true,
        shared_dirs: vec![SharedDirectory {
            tag: "code".into(),
            host_path: "/Users/test/code".into(),
            guest_path: "/mnt/code".into(),
            read_only: true,
        }],
        os_image: Some("alpine-3.19".into()),
        kernel_path: Some("/path/to/kernel".into()),
        initrd_path: Some("/path/to/initrd".into()),
        disk_path: Some("/path/to/disk".into()),
        port_forwards: vec![PortForward {
            host_port: 8080,
            guest_port: 80,
            protocol: "tcp".into(),
        }],
    };
    assert_eq!(cfg.name, "my-vm");
    assert_eq!(cfg.cpus, 8);
    assert_eq!(cfg.memory_mb, 16384);
    assert!(cfg.rosetta);
    assert_eq!(cfg.shared_dirs.len(), 1);
    assert_eq!(cfg.shared_dirs[0].tag, "code");
    assert!(cfg.shared_dirs[0].read_only);
    assert_eq!(cfg.os_image.as_deref(), Some("alpine-3.19"));
    assert_eq!(cfg.port_forwards.len(), 1);
    assert_eq!(cfg.port_forwards[0].host_port, 8080);
}

// -----------------------------------------------------------------------
// SharedDirectory tests
// -----------------------------------------------------------------------

#[test]
fn shared_directory_construction() {
    let dir = SharedDirectory {
        tag: "data".into(),
        host_path: "/host/data".into(),
        guest_path: "/mnt/data".into(),
        read_only: false,
    };
    assert_eq!(dir.tag, "data");
    assert_eq!(dir.host_path, "/host/data");
    assert_eq!(dir.guest_path, "/mnt/data");
    assert!(!dir.read_only);
}

// -----------------------------------------------------------------------
// PortForward tests
// -----------------------------------------------------------------------

#[test]
fn port_forward_construction() {
    let pf = PortForward {
        host_port: 3000,
        guest_port: 3000,
        protocol: "tcp".into(),
    };
    assert_eq!(pf.host_port, 3000);
    assert_eq!(pf.guest_port, 3000);
    assert_eq!(pf.protocol, "tcp");
}

// -----------------------------------------------------------------------
// HypervisorError tests
// -----------------------------------------------------------------------

#[test]
fn hypervisor_error_display() {
    assert_eq!(
        HypervisorError::CreateFailed("boom".into()).describe(),
        "VM creation failed: boom"
    );
    assert_eq!(
        HypervisorError::NotFound("vm-1".into()).describe(),
        "VM not found: vm-1"
    );
    assert_eq!(
        HypervisorError::Unsupported.describe(),
        "unsupported platform"
    );
    assert_eq!(
        HypervisorError::RosettaUnavailable("msg".into()).describe(),
        "Rosetta not available: msg"
    );
    assert_eq!(
        HypervisorError::VirtioFsError("err".into()).describe(),
        "VirtioFS error: err"
    );
    assert_eq!(
        HypervisorError::Storage("db".into()).describe(),
        "storage error: db"
    );
}

// -----------------------------------------------------------------------
// default_disk_gb test
// -----------------------------------------------------------------------

#[test]
fn default_disk_gb_is_twenty() {
    assert_eq!(default_disk_gb(), 20);
}

#[test]
fn console_reads_pick_up_where_they_stopped() {
    assert_eq!(read_console_from(None, 5), (vec![], 0));
    let log = b"boot ok\n".to_vec();
    let (data, next) = read_console_from(Some(&log), 0);
    assert_eq!((data.as_slice(), next), (&b"boot ok\n"[..], 8));
    assert_eq!(read_console_from(Some(&log), next), (vec![], 8));
    let grown = b"boot ok\nlogin: ".to_vec();
    let (more, next2) = read_console_from(Some(&grown), next);
    assert_eq!((more.as_slice(), next2), (&b"login: "[..], 15));
    assert_eq!(read_console_from(Some(&log), 100), (vec![], 8));
}

#[test]
fn console_reads_give_text() {
    let log = b"ok \xff!".to_vec();
    assert_eq!(read_console_text(Some(&log), 0), ("ok \u{FFFD}!".to_string(), 5));
    assert_eq!(read_console_text(Some(&log), 3), ("\u{FFFD}!".to_string(), 5));
    assert_eq!(read_console_text(None, 3), (String::new(), 0));
}
