use cratebay_core::engine::{count_running_containers, count_running_vms, detect_docker_socket, docker_socket_candidates};
use cratebay_core::hypervisor::{VmInfo, VmState};

fn vm(id: &str, state: VmState) -> VmInfo {
    VmInfo {
        id: id.into(),
        name: id.into(),
        state,
        cpus: 1,
        memory_mb: 512,
        disk_gb: 20,
        rosetta_enabled: false,
        shared_dirs: vec![],
        port_forwards: vec![],
        os_image: None,
    }
}

#[test]
fn socket_candidates_in_order() {
    let c = docker_socket_candidates(true, false, Some("/Users/me"), None);
    assert_eq!(
        c,
        vec![
            "/Users/me/.colima/default/docker.sock".to_string(),
            "/Users/me/.orbstack/run/docker.sock".to_string(),
            "/var/run/docker.sock".to_string(),
            "/Users/me/.docker/run/docker.sock".to_string(),
        ]
    );
    let w = docker_socket_candidates(false, true, None, Some(r"C:\Users\me"));
    assert_eq!(
        w,
        vec![
            "//./pipe/docker_engine".to_string(),
            "//./pipe/dockerDesktopLinuxEngine".to_string(),
            r"C:\Users\me\\.docker\run\docker.sock".to_string(),
        ]
    );
    assert_eq!(docker_socket_candidates(true, false, None, None)[0], "/.colima/default/docker.sock");
}

#[test]
fn first_existing_socket_wins() {
    let c = docker_socket_candidates(true, false, Some("/home/me"), None);
    let existing = vec!["/home/me/.docker/run/docker.sock".to_string(), "/var/run/docker.sock".to_string()];
    assert_eq!(detect_docker_socket(&c, &existing).as_deref(), Some("/var/run/docker.sock"));
    assert_eq!(detect_docker_socket(&c, &vec![]), None);
}

#[test]
fn running_counts() {
    let states = vec![Some("running".to_string()), Some("exited".to_string()), None, Some("running".to_string())];
    assert_eq!(count_running_containers(&states), 2);
    let vms = vec![vm("a", VmState::Running), vm("b", VmState::Stopped), vm("c", VmState::Creating)];
    assert_eq!(count_running_vms(&vms), 1);
    assert_eq!(count_running_vms(&vec![]), 0);
}
