use cratebay_core::hypervisor::{VmInfo, VmState};
use cratebay_core::store::{
    atomic_temp_path, dedupe_by_id, file_name, id_number_of, join_path, locate_executable, next_id_for_prefix, parent_path,
    vm_console_log_path, vm_dir, vm_disk_path, vm_runner_pid_path, vm_runner_ready_path, DirEnv, Platform,
    VmStore,
};

fn info(id: &str, name: &str) -> VmInfo {
    VmInfo {
        id: id.to_string(),
        name: name.to_string(),
        state: VmState::Stopped,
        cpus: 1,
        memory_mb: 256,
        disk_gb: 20,
        rosetta_enabled: false,
        shared_dirs: vec![],
        port_forwards: vec![],
        os_image: None,
    }
}

#[test]
fn vm_dir_path_contains_id() {
    let path = vm_dir("/tmp/cb-linux-test", "kvm-42");
    assert!(path.contains("kvm-42"));
    assert!(path.contains("vms"));
    assert_eq!(path, "/tmp/cb-linux-test/vms/kvm-42");
}

#[test]
fn vm_disk_path_ends_with_disk_raw() {
    assert!(vm_disk_path("/tmp/cb-linux-test", "kvm-1", Platform::Linux).ends_with("disk.raw"));
    assert!(vm_disk_path("/tmp/cb", "hv-1", Platform::Windows).ends_with("disk.vhdx"));
}

#[test]
fn vm_console_log_path_ends_with_console_log() {
    assert!(vm_console_log_path("/tmp/cb-linux-test", "kvm-1").ends_with("console.log"));
    assert_eq!(vm_runner_pid_path("/d", "vz-1"), "/d/vms/vz-1/runner.pid");
    assert_eq!(vm_runner_ready_path("/d", "vz-1"), "/d/vms/vz-1/runner.ready");
}

#[test]
fn paths_join_like_std() {
    assert_eq!(join_path("/a", "b"), "/a/b");
    assert_eq!(join_path("/a/", "b"), "/a/b");
    assert_eq!(join_path("/a", "/b"), "/b");
    assert_eq!(join_path("", "b"), "b");
    assert_eq!(file_name("/a/b").as_deref(), Some("b"));
    assert_eq!(file_name("/").as_deref(), None);
    assert_eq!(parent_path("/a/b").as_deref(), Some("/a"));
    assert_eq!(parent_path("/").as_deref(), None);
}

#[test]
fn vm_store_lives_in_config_dir() {
    let env = DirEnv {
        platform: Platform::Linux,
        config_dir: Some("/etc/cb".to_string()),
        data_dir: None,
        log_dir: None,
        home: None,
        xdg_config_home: None,
        xdg_data_home: None,
        appdata: None,
        temp_dir: "/tmp".to_string(),
    };
    assert_eq!(VmStore::new(&env).path(), "/etc/cb/vms.json");
}

#[test]
fn ids_and_duplicates() {
    assert_eq!(id_number_of("stub-12", "stub-"), Some(12));
    assert_eq!(id_number_of("kvm-12", "stub-"), None);
    assert_eq!(id_number_of("stub-x", "stub-"), None);
    let vms = vec![info("stub-3", "a"), info("kvm-9", "b"), info("stub-7", "c")];
    assert_eq!(next_id_for_prefix(&vms, "stub-"), 8);
    assert_eq!(next_id_for_prefix(&vms, "vz-"), 1);

    let d = dedupe_by_id(vec![info("a", "first"), info("b", "x"), info("a", "second")]);
    assert_eq!(d.len(), 2);
    assert_eq!(d[0].id, "b");
    assert_eq!(d[1].id, "a");
    assert_eq!(d[1].name, "second");
}

#[test]
fn helper_executables_are_located() {
    assert_eq!(locate_executable(Some("/opt/vz"), Some("/app"), &vec![], "cargobay-vz"), "/opt/vz");
    assert_eq!(
        locate_executable(None, Some("/app"), &vec!["/app/cargobay-vz".to_string()], "cargobay-vz"),
        "/app/cargobay-vz"
    );
    assert_eq!(locate_executable(None, Some("/app"), &vec![], "cargobay-vz"), "cargobay-vz");
    assert_eq!(locate_executable(None, None, &vec![], "cargobay-vz"), "cargobay-vz");
}

#[test]
fn temp_files_sit_next_to_their_target() {
    assert_eq!(atomic_temp_path("/data/vms.json", 42, 1700000000123), "/data/.42.1700000000123.vms.json.tmp");
    assert_eq!(atomic_temp_path("vms.json", 7, 9), ".7.9.vms.json.tmp");
    assert_eq!(atomic_temp_path("/", 1, 2), "./.1.2.vms.json.tmp");
    assert_eq!(atomic_temp_path("/var/lib/x/state.json", 0, 0), "/var/lib/x/.0.0.state.json.tmp");
}
