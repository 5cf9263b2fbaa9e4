use cratebay_core::hypervisor::{HypervisorError, VmState};
use cratebay_core::images::ImageStatus;
use cratebay_core::runtime::{
    docker_vsock_port, ensure_runtime_vm_exists, ensure_runtime_vm_running, ensure_runtime_wsl_running,
    host_docker_socket_path, HostSocketPath, runtime_vm_needs_start, runtime_vm_step, RuntimeVmStep, runtime_assets_root_candidates, runtime_assets_root_dir_from_exe_dir,
    runtime_images_dir_from_root, runtime_os_image_id, runtime_vm_config, runtime_vm_name,
    runtime_wsl_assets_dir_from_root, runtime_wsl_image_id, wsl_docker_host, wsl_docker_port,
    wsl_dockerd_command, wsl_guest_ip, wsl_distro_exists, wsl_distro_names, Arch, check_runtime_asset, check_wsl_rootfs,
    is_placeholder, runtime_asset_names, runtime_image_ready, runtime_assets_missing, wsl_import_args, wsl_install_dir,
    wsl_rootfs_tar_path,
};
use cratebay_core::store::Platform;
use cratebay_core::vm::StubHypervisor;

fn dirs(v: &[&str]) -> Vec<String> {
    v.iter().map(|s| s.to_string()).collect()
}

#[test]
fn runtime_assets_root_prefers_resources_next_to_exe_dir() {
    let existing = dirs(&["/tmp/x/bin", "/tmp/x/bin/resources", "/tmp/x/resources"]);
    let root = runtime_assets_root_dir_from_exe_dir("/tmp/x/bin", Platform::Linux, &existing).unwrap();
    assert_eq!(root, "/tmp/x/bin/resources");
}

#[test]
fn runtime_assets_root_falls_back_to_parent_resources_dir() {
    let existing = dirs(&["/tmp/x/bin", "/tmp/x/resources"]);
    let root = runtime_assets_root_dir_from_exe_dir("/tmp/x/bin", Platform::Linux, &existing).unwrap();
    assert_eq!(root, "/tmp/x/resources");
}

#[test]
fn runtime_assets_root_falls_back_to_exe_dir_when_no_resources() {
    let existing = dirs(&["/tmp/x/bin"]);
    let root = runtime_assets_root_dir_from_exe_dir("/tmp/x/bin", Platform::Linux, &existing).unwrap();
    assert_eq!(root, "/tmp/x/bin");
}

#[test]
fn runtime_assets_root_detects_macos_app_bundle_resources() {
    let existing = dirs(&[
        "/tmp/x/CrateBay.app/Contents/MacOS",
        "/tmp/x/CrateBay.app/Contents/Resources",
        "/tmp/x/CrateBay.app/Contents/MacOS/resources",
    ]);
    let root = runtime_assets_root_dir_from_exe_dir("/tmp/x/CrateBay.app/Contents/MacOS", Platform::MacOs, &existing)
        .unwrap();
    assert_eq!(root, "/tmp/x/CrateBay.app/Contents/Resources");
    // Off macOS the bundle is not looked at.
    let root = runtime_assets_root_dir_from_exe_dir("/tmp/x/CrateBay.app/Contents/MacOS", Platform::Linux, &existing)
        .unwrap();
    assert_eq!(root, "/tmp/x/CrateBay.app/Contents/MacOS/resources");
}

#[test]
fn assets_root_candidates_cover_every_choice() {
    let c = runtime_assets_root_candidates("/a/App.app/Contents/MacOS", Platform::MacOs);
    assert!(c.contains(&"/a/App.app/Contents/Resources".to_string()));
    assert!(c.contains(&"/a/App.app/Contents/MacOS/resources".to_string()));
    assert!(c.contains(&"/a/App.app/Contents/resources".to_string()));
}

#[test]
fn images_dirs_under_assets_root() {
    let existing = dirs(&["/r/runtime-images", "/w/runtime-wsl"]);
    assert_eq!(runtime_images_dir_from_root("/r", &existing), Some("/r/runtime-images".to_string()));
    assert_eq!(
        runtime_images_dir_from_root("/r/runtime-images", &existing),
        Some("/r/runtime-images".to_string())
    );
    assert_eq!(runtime_images_dir_from_root("/w", &existing), None);
    assert_eq!(runtime_wsl_assets_dir_from_root("/w", &existing), Some("/w/runtime-wsl".to_string()));
}

#[test]
fn settings_from_environment() {
    assert_eq!(runtime_vm_name(None), "cratebay-runtime");
    assert_eq!(runtime_vm_name(Some("   ")), "cratebay-runtime");
    assert_eq!(runtime_vm_name(Some("my-rt")), "my-rt");

    assert_eq!(docker_vsock_port(None), 6237);
    assert_eq!(docker_vsock_port(Some("7000")), 7000);
    assert_eq!(docker_vsock_port(Some("0")), 6237);
    assert_eq!(docker_vsock_port(Some("abc")), 6237);
    assert_eq!(docker_vsock_port(Some("4294967296")), 6237);

    assert_eq!(wsl_docker_port(None), 2375);
    assert_eq!(wsl_docker_port(Some("2376")), 2376);
    assert_eq!(wsl_docker_port(Some("70000")), 2375);

    assert_eq!(runtime_os_image_id(None, Arch::X86_64), "cratebay-runtime-x86_64");
    assert_eq!(runtime_os_image_id(None, Arch::Aarch64), "cratebay-runtime-aarch64");
    assert_eq!(runtime_os_image_id(Some("alpine-3.19"), Arch::X86_64), "alpine-3.19");
    assert_eq!(runtime_wsl_image_id(Arch::Aarch64), "cratebay-runtime-wsl-aarch64");
    assert_eq!(runtime_wsl_image_id(Arch::X86_64), "cratebay-runtime-wsl-x86_64");
}

#[test]
fn host_socket_path_defaults_under_home() {
    assert_eq!(host_docker_socket_path(Some("/run/d.sock"), Some("/home/me"), "/data"), "/run/d.sock");
    assert_eq!(
        host_docker_socket_path(None, Some("/home/me"), "/data"),
        "/home/me/.cratebay/run/docker.sock"
    );
    assert_eq!(host_docker_socket_path(Some(""), None, "/data"), "/data/run/docker.sock");
}

#[test]
fn runtime_vm_config_boots_the_image() {
    let c = runtime_vm_config("cratebay-runtime", "alpine-3.19", "/data", false);
    assert_eq!(c.name, "cratebay-runtime");
    assert_eq!(c.cpus, 2);
    assert_eq!(c.memory_mb, 2048);
    assert_eq!(c.disk_gb, 20);
    assert_eq!(c.os_image.as_deref(), Some("alpine-3.19"));
    assert_eq!(c.kernel_path.as_deref(), Some("/data/images/alpine-3.19/vmlinuz"));
    assert_eq!(c.initrd_path.as_deref(), Some("/data/images/alpine-3.19/initramfs"));
    assert!(c.disk_path.is_none());
}

#[test]
fn ensure_runtime_vm_creates_once() {
    let mut hv = StubHypervisor::new(vec![]);
    let ready = vec![("alpine-3.19".to_string(), ImageStatus::Ready)];
    let id = ensure_runtime_vm_exists(&mut hv, "rt", "alpine-3.19", "/data", &ready).unwrap();
    let again = ensure_runtime_vm_exists(&mut hv, "rt", "alpine-3.19", "/data", &ready).unwrap();
    assert_eq!(id, again);
    let vms = hv.list_vms();
    assert_eq!(vms.len(), 1);
    assert_eq!(vms[0].name, "rt");
    assert_eq!(vms[0].state, VmState::Stopped);
    assert_eq!(vms[0].os_image.as_deref(), Some("alpine-3.19"));
}

#[test]
fn ensure_runtime_vm_refuses_unknown_or_unready_images() {
    let mut hv = StubHypervisor::new(vec![]);
    match ensure_runtime_vm_exists(&mut hv, "rt", "no-such-image", "/data", &vec![]) {
        Err(HypervisorError::CreateFailed(m)) => {
            assert_eq!(m, "Runtime OS image 'no-such-image' not found in catalog")
        }
        other => panic!("unexpected {:?}", other),
    }
    match ensure_runtime_vm_exists(&mut hv, "rt", "debian-12", "/data", &vec![]) {
        Err(HypervisorError::CreateFailed(m)) => {
            assert_eq!(m, "Runtime OS image 'debian-12' was installed but is still not marked ready")
        }
        other => panic!("unexpected {:?}", other),
    }
    assert!(hv.list_vms().is_empty());
}

#[test]
fn ensure_runtime_vm_running_starts_it() {
    let mut hv = StubHypervisor::new(vec![]);
    let ready = vec![("ubuntu-24.04".to_string(), ImageStatus::Ready)];
    let id = ensure_runtime_vm_running(&mut hv, "rt", "ubuntu-24.04", "/data", &ready).unwrap();
    let vms = hv.list_vms();
    assert_eq!(vms.len(), 1);
    assert_eq!(vms[0].id, id);
    assert_eq!(vms[0].state, VmState::Running);
    let again = ensure_runtime_vm_running(&mut hv, "rt", "ubuntu-24.04", "/data", &ready).unwrap();
    assert_eq!(again, id);
    assert_eq!(hv.list_vms().len(), 1);
}

#[test]
fn wsl_helpers() {
    assert!(wsl_distro_exists(&dirs(&["Ubuntu", "cratebay-runtime"]), "cratebay-runtime"));
    assert!(!wsl_distro_exists(&dirs(&["Ubuntu"]), "cratebay-runtime"));
    assert_eq!(
        wsl_dockerd_command(2375),
        "mkdir -p /var/lib/docker /var/run; (nohup dockerd -H unix:///var/run/docker.sock -H tcp://0.0.0.0:2375 > /var/log/dockerd.log 2>&1 &) || true"
    );
    assert_eq!(wsl_guest_ip("  172.20.1.2\n", "10.0.0.1").unwrap(), "172.20.1.2");
    assert_eq!(wsl_guest_ip("", " 10.0.0.1 ").unwrap(), "10.0.0.1");
    assert!(matches!(wsl_guest_ip(" ", "\n"), Err(HypervisorError::CreateFailed(_))));
    assert_eq!(wsl_docker_host(2375, true, "10.0.0.1"), "tcp://127.0.0.1:2375");
    assert_eq!(wsl_docker_host(2375, false, "10.0.0.1"), "tcp://10.0.0.1:2375");
    assert_eq!(ensure_runtime_wsl_running(2375, true, "", "").unwrap(), "tcp://127.0.0.1:2375");
    assert_eq!(ensure_runtime_wsl_running(2376, false, "", "172.1.2.3").unwrap(), "tcp://172.1.2.3:2376");
    assert!(ensure_runtime_wsl_running(2376, false, "", "").is_err());
}

#[test]
fn runtime_assets_to_install() {
    assert_eq!(runtime_asset_names("alpine-3.19"), vec!["vmlinuz", "initramfs", "rootfs.img"]);
    assert_eq!(runtime_asset_names("cratebay-runtime-aarch64"), vec!["vmlinuz", "initramfs", "rootfs.img"]);
    assert!(!is_placeholder(10, None));
    assert!(is_placeholder(20, Some("PLACEHOLDER asset")));
    assert!(!is_placeholder(2048, Some("PLACEHOLDER")));
    assert!(!is_placeholder(20, Some("real")));
    assert!(check_runtime_asset("vmlinuz", "/a/vmlinuz", true, 4096, None).is_ok());
    match check_runtime_asset("vmlinuz", "/a/vmlinuz", false, 0, None) {
        Err(HypervisorError::CreateFailed(m)) => assert_eq!(m, "Missing runtime asset 'vmlinuz': /a/vmlinuz"),
        other => panic!("unexpected {:?}", other),
    }
    match check_runtime_asset("vmlinuz", "/a/vmlinuz", true, 12, Some("x PLACEHOLDER x")) {
        Err(HypervisorError::CreateFailed(m)) => assert_eq!(
            m,
            "Runtime asset '/a/vmlinuz' is a placeholder. Fetch real assets before using CrateBay Runtime."
        ),
        other => panic!("unexpected {:?}", other),
    }
    match runtime_assets_missing("rt") {
        HypervisorError::CreateFailed(m) => assert!(m.starts_with("CrateBay Runtime assets not found for image 'rt'.")),
        other => panic!("unexpected {:?}", other),
    }
}

#[test]
fn wsl_rootfs_and_import() {
    assert_eq!(wsl_rootfs_tar_path(Some("C:/r.tar"), None, Arch::X86_64).unwrap(), ("C:/r.tar".to_string(), false));
    assert_eq!(
        wsl_rootfs_tar_path(Some("  "), Some("/assets"), Arch::Aarch64).unwrap(),
        ("/assets/cratebay-runtime-wsl-aarch64/rootfs.tar".to_string(), true)
    );
    assert!(wsl_rootfs_tar_path(None, None, Arch::X86_64).is_err());
    assert!(check_wsl_rootfs("/r.tar", true, 1 << 20, None).is_ok());
    match check_wsl_rootfs("/r.tar", false, 0, None) {
        Err(HypervisorError::CreateFailed(m)) => assert_eq!(m, "Missing WSL runtime asset rootfs.tar: /r.tar"),
        other => panic!("unexpected {:?}", other),
    }
    assert!(check_wsl_rootfs("/r.tar", true, 11, Some("PLACEHOLDER")).is_err());
    assert_eq!(wsl_install_dir("/data", "cratebay-runtime"), "/data/wsl/cratebay-runtime");
    assert_eq!(
        wsl_import_args("rt", "/data/wsl/rt", "/r.tar"),
        vec!["--import", "rt", "/data/wsl/rt", "/r.tar", "--version", "2"]
    );
}

#[test]
fn runtime_image_readiness_follows_records() {
    let recorded = vec![("cratebay-runtime-aarch64".to_string(), ImageStatus::Ready)];
    assert!(runtime_image_ready("cratebay-runtime-aarch64", &recorded));
    assert!(!runtime_image_ready("cratebay-runtime-x86_64", &recorded));
}

#[test]
fn wsl_listing_gives_trimmed_nonblank_names() {
    assert_eq!(
        wsl_distro_names("Ubuntu\r\n\r\n  cratebay-runtime \r\nDebian"),
        vec!["Ubuntu".to_string(), "cratebay-runtime".to_string(), "Debian".to_string()]
    );
    assert!(wsl_distro_names("").is_empty());
    assert!(wsl_distro_names("\n \n").is_empty());
}

#[test]
fn socket_path_is_chosen_once_per_process() {
    let mut cache = HostSocketPath::new();
    assert_eq!(cache.get(None, Some("/home/me"), "/data"), "/home/me/.cratebay/run/docker.sock");
    assert_eq!(cache.get(Some("/run/other.sock"), None, "/elsewhere"), "/home/me/.cratebay/run/docker.sock");
}

#[test]
fn runtime_vm_steps_work_on_any_listing() {
    let ready = vec![("alpine-3.19".to_string(), ImageStatus::Ready)];
    match runtime_vm_step(&vec![], "rt", "alpine-3.19", "/data", &ready, true) {
        RuntimeVmStep::Create(c) => {
            assert_eq!(c.name, "rt");
            assert!(c.rosetta);
            assert_eq!(c.os_image.as_deref(), Some("alpine-3.19"));
        }
        other => panic!("unexpected {:?}", other),
    }
    let mut hv = StubHypervisor::new(vec![]);
    let id = ensure_runtime_vm_exists(&mut hv, "rt", "alpine-3.19", "/data", &ready).unwrap();
    let vms = hv.list_vms();
    match runtime_vm_step(&vms, "rt", "no-such-image", "/data", &vec![], false) {
        RuntimeVmStep::Use(found) => assert_eq!(found, id),
        other => panic!("unexpected {:?}", other),
    }
    match runtime_vm_step(&vec![], "rt", "no-such-image", "/data", &vec![], false) {
        RuntimeVmStep::Refuse(HypervisorError::CreateFailed(m)) => {
            assert_eq!(m, "Runtime OS image 'no-such-image' not found in catalog")
        }
        other => panic!("unexpected {:?}", other),
    }
    assert!(runtime_vm_needs_start(&vms, &id));
    assert!(runtime_vm_needs_start(&vms, "missing"));
    hv.start_vm(&id).unwrap();
    assert!(!runtime_vm_needs_start(&hv.list_vms(), &id));
}
