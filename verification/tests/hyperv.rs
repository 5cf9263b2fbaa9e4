use cratebay_core::hyperv::{
    hyperv_vm_name, ps_escape, vm_ip_from_output, vm_ip_script, vm_serial_pipe_name,
};
use cratebay_core::store::{vm_console_log_path, vm_dir, vm_disk_path, Platform};
use cratebay_core::vm::StubHypervisor;

const DATA_DIR: &str = "C:/Users/me/AppData/Roaming/com.cratebay.app";

#[test]
fn hyperv_vm_name_format() {
    assert_eq!(hyperv_vm_name("hv-1", "my-vm"), "CargoBay-hv-1-my-vm");
    assert_eq!(hyperv_vm_name("hv-42", "test"), "CargoBay-hv-42-test");
}

#[test]
fn vm_serial_pipe_name_format() {
    let pipe = vm_serial_pipe_name("hv-1");
    assert_eq!(pipe, r"\\.\pipe\cargobay-hv-1-serial");
}

#[test]
fn vm_dir_uses_data_dir() {
    let dir = vm_dir(DATA_DIR, "hv-1");
    assert!(dir.ends_with("vms/hv-1") || dir.ends_with(r"vms\hv-1"));
    assert!(dir.starts_with(DATA_DIR));
}

#[test]
fn vm_disk_path_uses_vhdx() {
    let path = vm_disk_path(DATA_DIR, "hv-1", Platform::Windows);
    assert!(
        path.ends_with("disk.vhdx"),
        "Windows VMs should use VHDX format"
    );
    let path = vm_disk_path(DATA_DIR, "hv-1", Platform::Linux);
    assert!(path.ends_with("disk.raw"));
}

#[test]
fn vm_console_log_path_format() {
    let path = vm_console_log_path(DATA_DIR, "hv-1");
    assert!(path.contains("console.log"));
}

#[test]
fn ps_escape_no_quotes() {
    assert_eq!(ps_escape("hello"), "hello");
}

#[test]
fn ps_escape_single_quote() {
    assert_eq!(ps_escape("it's"), "it''s");
}

#[test]
fn ps_escape_multiple_quotes() {
    assert_eq!(ps_escape("a'b'c"), "a''b''c");
}

#[test]
fn ps_escape_empty_string() {
    assert_eq!(ps_escape(""), "");
}

#[test]
fn vm_ip_script_escapes_the_name() {
    assert_eq!(
        vm_ip_script("CargoBay-hv-1-bob's"),
        "(Get-VM -Name 'CargoBay-hv-1-bob''s' | Select-Object -ExpandProperty NetworkAdapters | Select-Object -First 1).IPAddresses | Select-Object -First 1"
    );
}

#[test]
fn vm_ip_needs_output() {
    assert_eq!(vm_ip_from_output(Some("172.20.1.5")).as_deref(), Some("172.20.1.5"));
    assert_eq!(vm_ip_from_output(Some("")), None);
    assert_eq!(vm_ip_from_output(None), None);
}

#[test]
fn hypervisor_new_loads_without_panic() {
    let _hv = StubHypervisor::with_prefix(vec![], "hv-");
}

#[test]
fn rosetta_always_unavailable() {
    let hv = StubHypervisor::with_prefix(vec![], "hv-");
    assert!(!hv.rosetta_available());
}
