use cratebay_core::hypervisor::{PortForward, SharedDirectory, VmConfig, VmState};
use cratebay_core::vm::StubHypervisor;

fn kvm(loaded: Vec<cratebay_core::hypervisor::VmInfo>) -> StubHypervisor {
    StubHypervisor::with_prefix(loaded, "kvm-")
}

#[test]
fn create_vm_stores_metadata() {
    let mut hyp = kvm(vec![]);
    let config = VmConfig {
        name: "test-vm".into(),
        cpus: 2,
        memory_mb: 1024,
        disk_gb: 10,
        rosetta: false,
        shared_dirs: vec![],
        os_image: None,
        kernel_path: None,
        initrd_path: None,
        disk_path: None,
        port_forwards: vec![],
    };
    let id = hyp.create_vm(config).unwrap();
    assert!(id.starts_with("kvm-"));

    let vms = hyp.list_vms();
    assert_eq!(vms.len(), 1);
    assert_eq!(vms[0].name, "test-vm");
    assert_eq!(vms[0].state, VmState::Stopped);
    assert_eq!(vms[0].cpus, 2);
    assert_eq!(vms[0].memory_mb, 1024);

    hyp.delete_vm(&id).unwrap();
}

#[test]
fn delete_nonexistent_vm_returns_not_found() {
    let mut hyp = kvm(vec![]);
    let result = hyp.delete_vm("kvm-nonexistent");
    assert!(result.is_err());
    assert!(result.unwrap_err().describe().contains("kvm-nonexistent"));
}

#[test]
fn stop_nonexistent_vm_returns_not_found() {
    let mut hyp = kvm(vec![]);
    assert!(hyp.stop_vm("kvm-nonexistent").is_err());
}

#[test]
fn start_nonexistent_vm_returns_not_found() {
    let mut hyp = kvm(vec![]);
    assert!(hyp.start_vm("kvm-nonexistent").is_err());
}

#[test]
fn list_vms_empty_initially() {
    let hyp = kvm(vec![]);
    assert!(hyp.list_vms().is_empty());
}

#[test]
fn rosetta_not_available_on_linux() {
    let hyp = kvm(vec![]);
    assert!(!hyp.rosetta_available());
}

#[test]
fn port_forward_operations() {
    let mut hyp = kvm(vec![]);
    let id = hyp.create_vm(VmConfig { name: "pf-test".into(), ..VmConfig::default() }).unwrap();

    let pf = PortForward { host_port: 8080, guest_port: 80, protocol: "tcp".into() };
    hyp.add_port_forward(&id, &pf).unwrap();

    let forwards = hyp.list_port_forwards(&id).unwrap();
    assert_eq!(forwards.len(), 1);
    assert_eq!(forwards[0].host_port, 8080);
    assert_eq!(forwards[0].guest_port, 80);

    let pf2 = PortForward { host_port: 8080, guest_port: 8080, protocol: "tcp".into() };
    assert!(hyp.add_port_forward(&id, &pf2).is_err());

    hyp.remove_port_forward(&id, 8080).unwrap();
    assert!(hyp.list_port_forwards(&id).unwrap().is_empty());

    hyp.delete_vm(&id).unwrap();
}

#[test]
fn virtiofs_duplicate_tag_fails() {
    let mut hyp = kvm(vec![]);
    let id = hyp.create_vm(VmConfig { name: "vfs-dup-test".into(), ..VmConfig::default() }).unwrap();
    let share = SharedDirectory {
        tag: "data".into(),
        host_path: "/tmp/share".into(),
        guest_path: "/mnt/data".into(),
        read_only: false,
    };
    hyp.mount_virtiofs(&id, &share).unwrap();
    let share2 = SharedDirectory {
        tag: "data".into(),
        host_path: "/tmp/share".into(),
        guest_path: "/mnt/data2".into(),
        read_only: true,
    };
    let result = hyp.mount_virtiofs(&id, &share2);
    assert!(result.is_err());
    assert!(result.unwrap_err().describe().contains("already exists"));
    hyp.delete_vm(&id).unwrap();
}

#[test]
fn vms_persist_across_hypervisor_instances() {
    let mut hyp1 = kvm(vec![]);
    let config = VmConfig { name: "persist-test".into(), cpus: 4, memory_mb: 4096, ..VmConfig::default() };
    let id = hyp1.create_vm(config).unwrap();
    hyp1.start_vm(&id).unwrap();

    // A second instance loads what the first one stored.
    let mut hyp2 = kvm(hyp1.list_vms());
    let vms = hyp2.list_vms();
    assert_eq!(vms.len(), 1);
    assert_eq!(vms[0].id, id);
    assert_eq!(vms[0].name, "persist-test");
    assert_eq!(vms[0].cpus, 4);
    assert_eq!(vms[0].memory_mb, 4096);
    // After restart, state should be Stopped.
    assert_eq!(vms[0].state, VmState::Stopped);
    // Ids continue after the stored ones.
    let next = hyp2.create_vm(VmConfig { name: "second".into(), ..VmConfig::default() }).unwrap();
    assert_eq!(next, "kvm-2");

    hyp2.delete_vm(&id).unwrap();
}
