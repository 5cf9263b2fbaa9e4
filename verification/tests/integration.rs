use cratebay_core::hypervisor::{PortForward, SharedDirectory, VmConfig, VmState};
use cratebay_core::images::{builtin_catalog, find_image, image_paths};
use cratebay_core::k3s::K3sManager;
use cratebay_core::store::{config_dir, data_dir, log_dir, vm_console_log_path, DirEnv, Platform};
use cratebay_core::vm::StubHypervisor;
use cratebay_core::{create_hypervisor, platform_info, HypervisorBackend};

fn env_with_dirs(root: &str) -> DirEnv {
    DirEnv {
        platform: Platform::Linux,
        config_dir: Some(format!("{}/config", root)),
        data_dir: Some(format!("{}/data", root)),
        log_dir: Some(format!("{}/logs", root)),
        home: Some("/home/me".to_string()),
        xdg_config_home: None,
        xdg_data_home: None,
        appdata: None,
        temp_dir: "/tmp".to_string(),
    }
}

#[test]
fn core_config_and_data_dirs_are_consistent() {
    let env = env_with_dirs("/tmp/cratebay-int-test");
    let config = config_dir(&env);
    let data = data_dir(&env);
    let log = log_dir(&env);

    assert_eq!(config, "/tmp/cratebay-int-test/config");
    assert_eq!(data, "/tmp/cratebay-int-test/data");
    assert_eq!(log, "/tmp/cratebay-int-test/logs");

    assert_ne!(config, data);
    assert_ne!(data, log);
}

#[test]
fn core_platform_info_is_not_empty() {
    for platform in [Platform::MacOs, Platform::Linux, Platform::Windows, Platform::Other] {
        let info = platform_info(platform);
        assert!(
            !info.is_empty(),
            "platform_info should return a non-empty string"
        );
    }
    assert_eq!(platform_info(Platform::Linux), "Linux (KVM)");
    assert_eq!(create_hypervisor(Platform::MacOs), HypervisorBackend::VirtualizationFramework);
    assert_eq!(create_hypervisor(Platform::Other), HypervisorBackend::Stub);
}

fn config_named(name: &str) -> VmConfig {
    VmConfig {
        name: name.into(),
        ..VmConfig::default()
    }
}

#[test]
fn stub_hypervisor_create_and_list() {
    let mut hv = StubHypervisor::new(Vec::new());
    let config = VmConfig {
        name: "integration-test-vm".into(),
        cpus: 1,
        memory_mb: 512,
        disk_gb: 10,
        ..VmConfig::default()
    };

    let id = hv.create_vm(config).expect("create vm");
    assert!(
        id.starts_with("stub-"),
        "id should have stub- prefix: {}",
        id
    );

    let vms = hv.list_vms();
    assert_eq!(vms.len(), 1);
    assert_eq!(vms[0].name, "integration-test-vm");
    assert_eq!(vms[0].state, VmState::Stopped);
}

#[test]
fn stub_hypervisor_lifecycle() {
    let mut hv = StubHypervisor::new(Vec::new());
    let id = hv.create_vm(config_named("lifecycle-vm")).expect("create");

    hv.start_vm(&id).expect("start");
    let vms = hv.list_vms();
    assert_eq!(vms[0].state, VmState::Running);

    hv.stop_vm(&id).expect("stop");
    let vms = hv.list_vms();
    assert_eq!(vms[0].state, VmState::Stopped);

    hv.delete_vm(&id).expect("delete");
    let vms = hv.list_vms();
    assert!(vms.is_empty());
}

#[test]
fn stub_hypervisor_duplicate_name_fails() {
    let mut hv = StubHypervisor::new(Vec::new());
    hv.create_vm(config_named("dupvm")).expect("first create");

    let result = hv.create_vm(config_named("dupvm"));
    assert!(result.is_err(), "duplicate name should fail");
}

#[test]
fn stub_hypervisor_virtiofs_mount_lifecycle() {
    let mut hv = StubHypervisor::new(Vec::new());
    let id = hv.create_vm(config_named("mount-vm")).expect("create");

    let share = SharedDirectory {
        tag: "code".into(),
        host_path: "/tmp/code".into(),
        guest_path: "/mnt/code".into(),
        read_only: false,
    };
    hv.mount_virtiofs(&id, &share).expect("mount");

    let mounts = hv.list_virtiofs_mounts(&id).expect("list mounts");
    assert_eq!(mounts.len(), 1);
    assert_eq!(mounts[0].tag, "code");

    let dup_result = hv.mount_virtiofs(&id, &share);
    assert!(dup_result.is_err(), "duplicate mount tag should fail");

    hv.unmount_virtiofs(&id, "code").expect("unmount");
    let mounts = hv.list_virtiofs_mounts(&id).expect("list after unmount");
    assert!(mounts.is_empty());
}

#[test]
fn stub_hypervisor_port_forward_lifecycle() {
    let mut hv = StubHypervisor::new(Vec::new());
    let id = hv.create_vm(config_named("pf-vm")).expect("create");

    let pf = PortForward {
        host_port: 8080,
        guest_port: 80,
        protocol: "tcp".into(),
    };
    hv.add_port_forward(&id, &pf).expect("add port forward");

    let forwards = hv.list_port_forwards(&id).expect("list");
    assert_eq!(forwards.len(), 1);
    assert_eq!(forwards[0].host_port, 8080);

    let dup_result = hv.add_port_forward(&id, &pf);
    assert!(dup_result.is_err(), "duplicate host port should fail");

    hv.remove_port_forward(&id, 8080).expect("remove");
    let forwards = hv.list_port_forwards(&id).expect("list after remove");
    assert!(forwards.is_empty());
}

#[test]
fn image_catalog_and_find_work_together() {
    let recorded = Vec::new();
    let catalog = builtin_catalog();
    for entry in &catalog {
        let found = find_image(&entry.id, &recorded);
        assert!(
            found.is_some(),
            "find_image should find catalog entry: {}",
            entry.id
        );
    }
}

#[test]
fn image_paths_are_under_data_dir() {
    let env = env_with_dirs("/tmp/cratebay-img-paths");
    let data = data_dir(&env);
    let paths = image_paths(&data, "alpine-3.19");

    assert!(
        paths.kernel_path.starts_with(&data),
        "kernel path should be under data dir"
    );
    assert!(
        paths.initrd_path.starts_with(&data),
        "initrd path should be under data dir"
    );
    assert!(
        paths.rootfs_path.starts_with(&data),
        "rootfs path should be under data dir"
    );
}

#[test]
fn k3s_kubeconfig_path_under_data_dir() {
    let env = env_with_dirs("/tmp/cratebay-k3s-int");
    let data = data_dir(&env);
    let kc = K3sManager::kubeconfig_path(&data);
    assert!(
        kc.starts_with(&data),
        "kubeconfig {:?} should be under data dir {:?}",
        kc,
        data
    );
}

#[test]
fn vm_console_log_path_is_under_data_dir() {
    let env = env_with_dirs("/tmp/cratebay-console");
    let data = data_dir(&env);
    let path = vm_console_log_path(&data, "test-vm-42");
    assert!(
        path.starts_with(&data),
        "console log path {:?} should be under data dir {:?}",
        path,
        data
    );
    assert!(path.contains("test-vm-42"), "path should contain the VM id");
}

#[test]
fn stub_hypervisor_persists_vms_across_instances() {
    // What the first instance leaves in the store is what the second loads.
    let (vm_id, stored) = {
        let mut hv = StubHypervisor::new(Vec::new());
        let id = hv
            .create_vm(VmConfig {
                name: "persistent-vm".into(),
                cpus: 4,
                memory_mb: 4096,
                ..VmConfig::default()
            })
            .expect("create");
        (id, hv.list_vms())
    };

    {
        let hv = StubHypervisor::new(stored);
        let vms = hv.list_vms();
        assert_eq!(vms.len(), 1, "VM should persist across instances");
        let found = vms.iter().find(|v| v.id == vm_id);
        assert!(
            found.is_some(),
            "VM {} should persist across instances",
            vm_id
        );
        let found = found.unwrap();
        assert_eq!(found.name, "persistent-vm");
        assert_eq!(found.cpus, 4);
    }
}
