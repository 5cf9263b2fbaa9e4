use cratebay_core::backends::{admit_vm, disk_bytes, virtiofsd_args, virtiofsd_spawn_error};
use cratebay_core::hypervisor::{HypervisorError, SharedDirectory, VmConfig, VmInfo, VmState};
use cratebay_core::store::Platform;
use cratebay_core::{create_hypervisor, HypervisorBackend};

fn info(id: &str, name: &str) -> VmInfo {
    VmInfo {
        id: id.to_string(),
        name: name.to_string(),
        state: VmState::Stopped,
        cpus: 2,
        memory_mb: 2048,
        disk_gb: 20,
        rosetta_enabled: false,
        shared_dirs: vec![],
        port_forwards: vec![],
        os_image: None,
    }
}

#[test]
fn linux_create_vm_rejects_rosetta() {
    let config = VmConfig {
        name: "rosetta-vm".into(),
        rosetta: true,
        ..VmConfig::default()
    };
    let backend = create_hypervisor(Platform::Linux);
    let result = admit_vm(backend, true, false, &config, &vec![], &vec![]);
    assert!(result.is_err());
    let err = result.unwrap_err();
    assert!(err.describe().contains("Rosetta"), "Error should mention Rosetta: {:?}", err);
}

#[test]
fn windows_create_vm_rejects_rosetta() {
    let config = VmConfig {
        name: "test-rosetta".into(),
        rosetta: true,
        ..Default::default()
    };
    let backend = create_hypervisor(Platform::Windows);
    let result = admit_vm(backend, true, false, &config, &vec![], &vec![]);
    assert!(result.is_err());
    match result {
        Err(HypervisorError::RosettaUnavailable(_)) => {}
        other => panic!("Expected RosettaUnavailable, got {:?}", other),
    }
}

#[test]
fn create_vm_fails_without_hyperv() {
    let config = VmConfig {
        name: "test-no-hyperv".into(),
        cpus: 1,
        memory_mb: 512,
        disk_gb: 1,
        ..Default::default()
    };
    let result = admit_vm(HypervisorBackend::HyperV, false, false, &config, &vec![], &vec![]);
    match result {
        Err(HypervisorError::CreateFailed(m)) => assert_eq!(
            m,
            "Hyper-V not available. Enable Hyper-V in Windows Features (requires Windows 10 Pro+ or Windows 11)."
        ),
        other => panic!("unexpected {:?}", other),
    }
}

#[test]
fn kvm_missing_is_reported_before_rosetta() {
    let config = VmConfig { rosetta: true, ..VmConfig::default() };
    match admit_vm(HypervisorBackend::Kvm, false, false, &config, &vec![], &vec![]) {
        Err(HypervisorError::CreateFailed(m)) => {
            assert_eq!(m, "KVM not available. Ensure /dev/kvm exists and you have permissions.")
        }
        other => panic!("unexpected {:?}", other),
    }
}

#[test]
fn macos_admits_rosetta_only_where_it_is_available() {
    let config = VmConfig { rosetta: true, ..VmConfig::default() };
    let backend = create_hypervisor(Platform::MacOs);
    assert!(admit_vm(backend, false, true, &config, &vec![], &vec![]).is_ok());
    match admit_vm(backend, true, false, &config, &vec![], &vec![]) {
        Err(HypervisorError::RosettaUnavailable(m)) => {
            assert_eq!(m, "Rosetta is only available on Apple Silicon Macs with macOS 13+")
        }
        other => panic!("unexpected {:?}", other),
    }
}

#[test]
fn virtiofs_mount_nonexistent_path_fails() {
    let config = VmConfig {
        name: "vfs-test".into(),
        shared_dirs: vec![
            SharedDirectory {
                tag: "ok".into(),
                host_path: "/srv/share".into(),
                guest_path: "/mnt/ok".into(),
                read_only: false,
            },
            SharedDirectory {
                tag: "data".into(),
                host_path: "/nonexistent/path/that/does/not/exist".into(),
                guest_path: "/mnt/data".into(),
                read_only: false,
            },
        ],
        ..VmConfig::default()
    };
    let existing = vec!["/srv/share".to_string()];
    let result = admit_vm(HypervisorBackend::Kvm, true, false, &config, &existing, &vec![]);
    match result {
        Err(e @ HypervisorError::VirtioFsError(_)) => {
            assert!(e.describe().contains("does not exist"));
            assert_eq!(
                e.describe(),
                "VirtioFS error: Host path does not exist: /nonexistent/path/that/does/not/exist"
            );
        }
        other => panic!("unexpected {:?}", other),
    }
}

#[test]
fn create_vm_rejects_duplicate_name() {
    let config = VmConfig { name: "duplicate".into(), ..VmConfig::default() };
    let vms = vec![info("kvm-1", "other"), info("kvm-2", "duplicate")];
    let result = admit_vm(HypervisorBackend::Kvm, true, false, &config, &vec![], &vms);
    assert!(result.is_err());
    assert!(result.unwrap_err().describe().contains("already exists"));
    let fresh = VmConfig { name: "fresh".into(), ..VmConfig::default() };
    assert!(admit_vm(HypervisorBackend::Kvm, true, false, &fresh, &vec![], &vms).is_ok());
}

#[test]
fn disk_size_in_bytes() {
    assert_eq!(disk_bytes(20).unwrap(), 20 * 1024 * 1024 * 1024);
    assert_eq!(disk_bytes(0).unwrap(), 0);
    match disk_bytes(u64::MAX / 1024) {
        Err(HypervisorError::CreateFailed(m)) => assert_eq!(m, "disk size overflow"),
        other => panic!("unexpected {:?}", other),
    }
}

#[test]
fn virtiofsd_arguments() {
    assert_eq!(
        virtiofsd_args("data", "/srv/data", false),
        vec!["--socket-path", "/tmp/cargobay-virtiofs-data.sock", "--shared-dir", "/srv/data", "--cache=auto"]
    );
    assert_eq!(virtiofsd_args("data", "/srv/data", true).last().unwrap(), "--sandbox=none");
    match virtiofsd_spawn_error("data", "No such file or directory (os error 2)") {
        HypervisorError::VirtioFsError(m) => assert_eq!(
            m,
            "Failed to spawn virtiofsd for tag 'data': No such file or directory (os error 2). Ensure virtiofsd is installed (apt install virtiofsd)."
        ),
        other => panic!("unexpected {:?}", other),
    }
}
