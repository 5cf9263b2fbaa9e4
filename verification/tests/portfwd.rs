use cratebay_core::portfwd::{bind_error, forward_target, ForwardTable};

fn add(t: &mut ForwardTable, vm: &str, port: u16) -> Result<(), String> {
    t.check_new(vm, port)?;
    t.record(vm, port);
    Ok(())
}

#[test]
fn new_table_is_empty() {
    let t = ForwardTable::new();
    assert!(t.list("vm-1").is_empty());
}

#[test]
fn forwards_are_listed_per_vm() {
    let mut t = ForwardTable::new();
    assert_eq!(t.check_new("vm-1", 8080).unwrap(), "0.0.0.0:8080");
    add(&mut t, "vm-1", 8080).unwrap();
    add(&mut t, "vm-1", 8081).unwrap();
    add(&mut t, "vm-2", 9090).unwrap();
    let mut ports = t.list("vm-1");
    ports.sort();
    assert_eq!(ports, vec![8080, 8081]);
    assert_eq!(t.list("vm-2"), vec![9090]);
    assert!(t.list("unknown").is_empty());
    assert!(t.contains("vm-2", 9090));
}

#[test]
fn duplicate_forward_is_refused() {
    let mut t = ForwardTable::new();
    add(&mut t, "vm-1", 8080).unwrap();
    assert_eq!(add(&mut t, "vm-1", 8080).unwrap_err(), "Port forward already active: host 8080 for VM vm-1");
    // The same port for another VM is a separate key; binding decides.
    assert!(t.check_new("vm-2", 8080).is_ok());
}

#[test]
fn removal_and_its_errors() {
    let mut t = ForwardTable::new();
    add(&mut t, "vm-1", 8080).unwrap();
    assert_eq!(t.remove("vm-2", 8080).unwrap_err(), "No active port forward on host port 8080 for VM vm-2");
    t.remove("vm-1", 8080).unwrap();
    assert_eq!(t.remove("vm-1", 8080).unwrap_err(), "No active port forward on host port 8080 for VM vm-1");
    assert!(t.list("vm-1").is_empty());
    // The port can be forwarded again.
    add(&mut t, "vm-1", 8080).unwrap();
}

#[test]
fn remove_all_clears_one_vm() {
    let mut t = ForwardTable::new();
    add(&mut t, "vm-1", 1).unwrap();
    add(&mut t, "vm-2", 2).unwrap();
    add(&mut t, "vm-1", 3).unwrap();
    let mut gone = t.remove_all("vm-1");
    gone.sort();
    assert_eq!(gone, vec![1, 3]);
    assert!(t.list("vm-1").is_empty());
    assert_eq!(t.list("vm-2"), vec![2]);
    assert!(t.remove_all("vm-9").is_empty());
}

#[test]
fn forward_addresses_and_errors() {
    assert_eq!(forward_target("192.168.64.2", 80), "192.168.64.2:80");
    assert_eq!(bind_error(80, "permission denied"), "failed to bind port 80: permission denied");
}

#[test]
fn manager_new_creates_empty_instance() {
    let table = ForwardTable::new();
    assert!(table.list("vm-1").is_empty());
}

#[test]
fn manager_default_creates_empty_instance() {
    let table = ForwardTable::default();
    assert!(table.list("vm-1").is_empty());
    assert!(!table.contains("vm-1", 8080));
}
