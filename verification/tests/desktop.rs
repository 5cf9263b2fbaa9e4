use cratebay_core::desktop::{
    container_exec_command, tray_menu_entries, TrayEntry, container_exec_interactive_cmd, container_info, daemon_launch, daemon_spawn_error, DaemonLaunch, container_login_cmd, container_ports,
    docker_host_for_cli, dockerhub_search_result, forward_protocol, image_catalog, image_download_status,
    memory_limit_bytes, nano_cpus, quay_search_result, run_container_result, short_id, vm_create_config,
    vm_info_dto,
};
use cratebay_core::hypervisor::{PortForward, SharedDirectory, VmInfo, VmState};
use cratebay_core::images::{DownloadProgress, ImageStatus};
use cratebay_core::store::Platform;

#[test]
fn short_ids_keep_twelve_characters() {
    assert_eq!(short_id("0123456789abcdef"), "0123456789ab");
    assert_eq!(short_id("abc"), "abc");
    assert_eq!(short_id(""), "");
}

#[test]
fn published_ports_are_listed() {
    assert_eq!(container_ports(&vec![(Some(8080), 80), (None, 443), (Some(2222), 22)]), "8080:80, 2222:22");
    assert_eq!(container_ports(&vec![(None, 80)]), "");
    assert_eq!(container_ports(&vec![]), "");
}

#[test]
fn container_entries_fill_absent_fields_with_empty_text() {
    let c = container_info(
        Some("fedcba9876543210".into()),
        Some(vec!["//web".into(), "/other".into()]),
        Some("nginx:latest".into()),
        Some("running".into()),
        None,
        Some(vec![(Some(8080), 80)]),
    );
    assert_eq!(c.id, "fedcba987654");
    assert_eq!(c.name, "web");
    assert_eq!(c.image, "nginx:latest");
    assert_eq!(c.state, "running");
    assert_eq!(c.status, "");
    assert_eq!(c.ports, "8080:80");

    let c = container_info(None, Some(vec![]), None, None, None, None);
    assert_eq!(c.id, "");
    assert_eq!(c.name, "");
    assert_eq!(c.ports, "");
}

#[test]
fn login_commands_for_containers() {
    assert_eq!(container_login_cmd("web", "/bin/bash"), "docker exec -it web /bin/bash");
    let r = run_container_result("0123456789abcdef", None, "alpine".into());
    assert_eq!(r.id, "0123456789ab");
    assert_eq!(r.name, "0123456789ab");
    assert_eq!(r.image, "alpine");
    assert_eq!(r.login_cmd, "docker exec -it 0123456789ab /bin/sh");
    let r = run_container_result("0123456789abcdef", Some("db".into()), "postgres".into());
    assert_eq!(r.name, "db");
    assert_eq!(r.login_cmd, "docker exec -it db /bin/sh");
    assert_eq!(
        container_exec_interactive_cmd("abc", Some("unix:///run/d.sock")),
        "DOCKER_HOST=unix:///run/d.sock docker exec -it abc /bin/sh"
    );
    assert_eq!(container_exec_interactive_cmd("abc", None), "docker exec -it abc /bin/sh");
}

#[test]
fn resource_limits_for_the_engine() {
    assert_eq!(nano_cpus(2), 2_000_000_000);
    assert_eq!(nano_cpus(0), 0);
    assert_eq!(memory_limit_bytes(512), 512 * 1024 * 1024);
    assert_eq!(memory_limit_bytes(u64::MAX / 2), i64::MAX);
    assert_eq!(memory_limit_bytes(u64::MAX), -1024 * 1024);
}

#[test]
fn docker_host_for_the_command_line() {
    assert_eq!(docker_host_for_cli(Some("tcp://h:2375"), true, Some("/s")).as_deref(), Some("tcp://h:2375"));
    assert_eq!(docker_host_for_cli(None, true, Some("/run/d.sock")).as_deref(), Some("unix:///run/d.sock"));
    assert_eq!(docker_host_for_cli(None, false, Some("/run/d.sock")), None);
    assert_eq!(docker_host_for_cli(None, true, None), None);
}

#[test]
fn registry_search_results() {
    let r = dockerhub_search_result(Some("library"), "nginx", None, Some(10), Some(1000), None);
    assert_eq!(r.source, "dockerhub");
    assert_eq!(r.reference, "nginx");
    assert_eq!(r.description, "");
    assert_eq!(r.stars, Some(10));
    assert_eq!(r.pulls, Some(1000));
    assert!(!r.official);
    let r = dockerhub_search_result(Some("bitnami"), "redis", Some("cache".into()), None, None, Some(true));
    assert_eq!(r.reference, "bitnami/redis");
    assert!(r.official);
    let r = quay_search_result(None, Some("coreos"), Some("etcd"), "kv", Some(3));
    assert_eq!(r.source, "quay");
    assert_eq!(r.reference, "quay.io/coreos/etcd");
    assert_eq!(r.pulls, None);
    let r = quay_search_result(None, None, Some("etcd"), "", None);
    assert_eq!(r.reference, "quay.io/<unknown>");
}

#[test]
fn image_catalog_shows_recorded_status() {
    let recorded = vec![("debian-12".to_string(), ImageStatus::Ready)];
    let cat = image_catalog(&recorded);
    assert_eq!(cat.len(), 3);
    let debian = cat.iter().find(|d| d.id == "debian-12").unwrap();
    assert_eq!(debian.status, "ready");
    let alpine = cat.iter().find(|d| d.id == "alpine-3.19").unwrap();
    assert_eq!(alpine.status, "not_downloaded");
    assert_eq!(alpine.name, "Alpine Linux 3.19");
}

#[test]
fn download_progress_is_passed_through() {
    let d = image_download_status(DownloadProgress {
        image_id: "alpine-3.19".into(),
        current_file: "kernel".into(),
        bytes_downloaded: 10,
        bytes_total: 100,
        done: false,
        error: Some("oops".into()),
    });
    assert_eq!(d.image_id, "alpine-3.19");
    assert_eq!(d.current_file, "kernel");
    assert_eq!(d.bytes_downloaded, 10);
    assert_eq!(d.bytes_total, 100);
    assert!(!d.done);
    assert_eq!(d.error.as_deref(), Some("oops"));
}

#[test]
fn vm_records_for_the_view() {
    let vm = VmInfo {
        id: "vz-1".into(),
        name: "dev".into(),
        state: VmState::Running,
        cpus: 2,
        memory_mb: 1024,
        disk_gb: 20,
        rosetta_enabled: true,
        shared_dirs: vec![SharedDirectory {
            tag: "src".into(),
            host_path: "/src".into(),
            guest_path: "/mnt/src".into(),
            read_only: true,
        }],
        port_forwards: vec![PortForward { host_port: 8080, guest_port: 80, protocol: "tcp".into() }],
        os_image: None,
    };
    let d = vm_info_dto(vm);
    assert_eq!(d.id, "vz-1");
    assert_eq!(d.state, "running");
    assert!(d.rosetta_enabled);
    assert_eq!(d.mounts.len(), 1);
    assert_eq!(d.mounts[0].guest_path, "/mnt/src");
    assert!(d.mounts[0].read_only);
    assert_eq!(d.port_forwards.len(), 1);
    assert_eq!(d.port_forwards[0].host_port, 8080);
    assert_eq!(d.port_forwards[0].protocol, "tcp");
}

#[test]
fn vm_create_config_needs_a_ready_image() {
    let recorded = vec![("alpine-3.19".to_string(), ImageStatus::Ready)];
    let c = vm_create_config("dev".into(), 2, 1024, 10, false, Some("alpine-3.19".into()), "/data", &recorded).unwrap();
    assert_eq!(c.name, "dev");
    assert_eq!(c.kernel_path.as_deref(), Some("/data/images/alpine-3.19/vmlinuz"));
    assert_eq!(c.initrd_path.as_deref(), Some("/data/images/alpine-3.19/initramfs"));
    assert_eq!(c.disk_path.as_deref(), Some("/data/images/alpine-3.19/rootfs.img"));
    let e = vm_create_config("dev".into(), 2, 1024, 10, false, Some("debian-12".into()), "/data", &recorded)
        .unwrap_err();
    assert_eq!(e, "OS image 'debian-12' is not downloaded yet");
    let c = vm_create_config("bare".into(), 1, 512, 5, true, None, "/data", &vec![]).unwrap();
    assert!(c.rosetta);
    assert!(c.kernel_path.is_none() && c.initrd_path.is_none() && c.disk_path.is_none());
}

#[test]
fn forward_protocol_defaults_to_tcp() {
    assert_eq!(forward_protocol(""), "tcp");
    assert_eq!(forward_protocol("udp"), "udp");
}

#[test]
fn daemon_executable_choice() {
    let l = daemon_launch(Some("/opt/d"), Some("/app"), &vec![], Platform::Linux);
    assert!(matches!(&l, DaemonLaunch::FromEnv(p) if p == "/opt/d"));
    assert_eq!(daemon_spawn_error(&l, "denied"), "Failed to spawn daemon from CARGOBAY_DAEMON_PATH (/opt/d): denied");

    let l = daemon_launch(None, Some("/app"), &vec!["/app/cargobay-daemon".to_string()], Platform::Linux);
    assert!(matches!(&l, DaemonLaunch::NextToApp(p) if p == "/app/cargobay-daemon"));
    assert_eq!(
        daemon_spawn_error(&l, "denied"),
        "Failed to spawn daemon next to GUI binary (/app/cargobay-daemon): denied"
    );

    let l = daemon_launch(None, Some("/app"), &vec![], Platform::Windows);
    assert!(matches!(&l, DaemonLaunch::FromPath { tried: Some(t) } if t == "/app/cargobay-daemon.exe"));
    assert_eq!(
        daemon_spawn_error(&l, "not found"),
        "Failed to spawn daemon (tried: /app/cargobay-daemon.exe, cargobay-daemon (PATH)): not found"
    );
    let l = daemon_launch(None, None, &vec![], Platform::Linux);
    assert_eq!(daemon_spawn_error(&l, "x"), "Failed to spawn daemon (tried: cargobay-daemon (PATH)): x");
}

#[test]
fn console_commands_split_on_whitespace() {
    assert_eq!(
        container_exec_command("  ls   -la\t/tmp \n").unwrap(),
        vec!["ls".to_string(), "-la".to_string(), "/tmp".to_string()]
    );
    assert_eq!(container_exec_command("sh").unwrap(), vec!["sh".to_string()]);
}

#[test]
fn blank_console_commands_are_refused() {
    assert_eq!(container_exec_command("").unwrap_err(), "Empty command");
    assert_eq!(container_exec_command(" \t\n ").unwrap_err(), "Empty command");
}

fn item(e: &TrayEntry) -> (String, String, bool) {
    match e {
        TrayEntry::Item { id, label, enabled } => (id.clone(), label.clone(), *enabled),
        TrayEntry::Separator => panic!("expected an item"),
    }
}

#[test]
fn tray_menu_shows_running_counts() {
    let m = tray_menu_entries(3, 0);
    assert_eq!(m.len(), 7);
    assert_eq!(item(&m[0]), ("title".to_string(), "CargoBay".to_string(), false));
    assert!(matches!(m[1], TrayEntry::Separator));
    assert_eq!(item(&m[2]), ("dashboard".to_string(), "Dashboard".to_string(), true));
    assert_eq!(item(&m[3]), ("containers".to_string(), "Containers (3 running)".to_string(), false));
    assert_eq!(item(&m[4]), ("vms".to_string(), "VMs (0 running)".to_string(), false));
    assert!(matches!(m[5], TrayEntry::Separator));
    assert_eq!(item(&m[6]), ("quit".to_string(), "Quit CargoBay".to_string(), true));
}
