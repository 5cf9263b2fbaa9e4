use cratebay_core::hypervisor::{HypervisorError, PortForward, SharedDirectory, VmState};
use cratebay_core::hyperv::{
    check_share, create_vm_scripts, hyperv_state, portproxy_plan, portproxy_removals, remove_smb_share_script,
    smb_share_script, vm_command, VmCommand,
};

fn pf(host: u16, guest: u16, protocol: &str) -> PortForward {
    PortForward { host_port: host, guest_port: guest, protocol: protocol.into() }
}

#[test]
fn vm_commands_quote_the_name() {
    assert_eq!(vm_command(VmCommand::Start, "CargoBay-hv-1-dev"), "Start-VM -Name 'CargoBay-hv-1-dev'");
    assert_eq!(
        vm_command(VmCommand::Stop, "it's"),
        "Stop-VM -Name 'it''s' -Force:$false -ErrorAction SilentlyContinue"
    );
    assert_eq!(
        vm_command(VmCommand::TurnOff, "a"),
        "Stop-VM -Name 'a' -TurnOff -Force -ErrorAction SilentlyContinue"
    );
    assert_eq!(vm_command(VmCommand::Remove, "a"), "Remove-VM -Name 'a' -Force -ErrorAction SilentlyContinue");
    assert_eq!(
        vm_command(VmCommand::QueryState, "a"),
        "(Get-VM -Name 'a' -ErrorAction SilentlyContinue).State"
    );
}

#[test]
fn hyperv_states() {
    assert_eq!(hyperv_state(Some("Running")), VmState::Running);
    assert_eq!(hyperv_state(Some("Off")), VmState::Stopped);
    assert_eq!(hyperv_state(Some("")), VmState::Stopped);
    assert_eq!(hyperv_state(Some("Saving")), VmState::Creating);
    assert_eq!(hyperv_state(Some("Paused")), VmState::Stopped);
    assert_eq!(hyperv_state(None), VmState::Stopped);
}

#[test]
fn creation_scripts() {
    let v = create_vm_scripts("CargoBay-hv-3-dev", 4, 2048, 20, r"C:\vms\hv-3\disk.vhdx").unwrap();
    assert_eq!(v.len(), 7);
    assert_eq!(v[0], r"New-VHD -Path 'C:\vms\hv-3\disk.vhdx' -SizeBytes 21474836480 -Dynamic");
    assert_eq!(
        v[1],
        r"New-VM -Name 'CargoBay-hv-3-dev' -MemoryStartupBytes 2048MB -VHDPath 'C:\vms\hv-3\disk.vhdx' -Generation 2 -SwitchName 'Default Switch'"
    );
    assert_eq!(v[2], "Set-VMProcessor -VMName 'CargoBay-hv-3-dev' -Count 4");
    assert_eq!(
        v[3],
        "Set-VMMemory -VMName 'CargoBay-hv-3-dev' -DynamicMemoryEnabled $true -MinimumBytes 2048MB -StartupBytes 2048MB -MaximumBytes 4096MB"
    );
    assert_eq!(v[4], r"Set-VMComPort -VMName 'CargoBay-hv-3-dev' -Number 1 -Path '\\.\pipe\cargobay-hv-serial'");
    assert_eq!(v[5], "Set-VMFirmware -VMName 'CargoBay-hv-3-dev' -EnableSecureBoot Off");
    assert_eq!(v[6], "Enable-VMIntegrationService -VMName 'CargoBay-hv-3-dev' -Name 'Guest Service Interface'");

    let v = create_vm_scripts("plain", 1, u64::MAX, 1, "d").unwrap();
    assert!(v[3].ends_with(&format!("-MaximumBytes {}MB", u64::MAX)));
    assert!(v[4].contains(r"\\.\pipe\cargobay-plain-serial"));

    match create_vm_scripts("x", 1, 1, u64::MAX, "d") {
        Err(HypervisorError::CreateFailed(m)) => assert_eq!(m, "disk size overflow"),
        other => panic!("unexpected {:?}", other),
    }
}

#[test]
fn port_forward_rules() {
    assert!(portproxy_plan(&vec![], None).unwrap().is_empty());
    match portproxy_plan(&vec![pf(8080, 80, "tcp")], None) {
        Err(HypervisorError::CreateFailed(m)) => assert_eq!(
            m,
            "Cannot configure port forwarding: VM IP address not available yet. The VM may still be booting."
        ),
        other => panic!("unexpected {:?}", other),
    }
    let rules = portproxy_plan(&vec![pf(8080, 80, "tcp"), pf(53, 53, "udp"), pf(2222, 22, "tcp")], Some("172.20.0.5"))
        .unwrap();
    assert_eq!(
        rules,
        vec![
            "netsh interface portproxy add v4tov4 listenport=8080 listenaddress=0.0.0.0 connectport=80 connectaddress=172.20.0.5".to_string(),
            "netsh interface portproxy add v4tov4 listenport=2222 listenaddress=0.0.0.0 connectport=22 connectaddress=172.20.0.5".to_string(),
        ]
    );
    assert_eq!(
        portproxy_removals(&vec![pf(8080, 80, "tcp"), pf(53, 53, "udp")]),
        vec!["netsh interface portproxy delete v4tov4 listenport=8080 listenaddress=0.0.0.0".to_string()]
    );
}

#[test]
fn smb_shares() {
    let d = SharedDirectory { tag: "src".into(), host_path: r"C:\Users\me\src".into(), guest_path: "/mnt/src".into(), read_only: true };
    assert_eq!(
        smb_share_script(&d),
        r"if (!(Get-SmbShare -Name 'CargoBay-src' -ErrorAction SilentlyContinue)) { New-SmbShare -Name 'CargoBay-src' -Path 'C:\Users\me\src' -ReadAccess Everyone }"
    );
    let w = SharedDirectory { read_only: false, ..d.clone() };
    assert!(smb_share_script(&w).contains("-FullAccess Everyone"));
    assert_eq!(
        remove_smb_share_script("src"),
        "Remove-SmbShare -Name 'CargoBay-src' -Force -ErrorAction SilentlyContinue"
    );
}

#[test]
fn share_checks() {
    let d = SharedDirectory { tag: "t".into(), host_path: "/h".into(), guest_path: "/g".into(), read_only: false };
    assert!(check_share(&d, true, true).is_ok());
    let m = |r: Result<(), HypervisorError>| match r {
        Err(HypervisorError::VirtioFsError(m)) => m,
        other => panic!("unexpected {:?}", other),
    };
    assert_eq!(m(check_share(&d, false, false)), "Host path does not exist: /h");
    assert_eq!(m(check_share(&d, true, false)), "Host path is not a directory: /h");
    let empty = SharedDirectory { tag: String::new(), ..d.clone() };
    assert_eq!(m(check_share(&empty, true, true)), "Mount tag must not be empty");
    let long = SharedDirectory { tag: "é".repeat(128), ..d.clone() };
    assert_eq!(m(check_share(&long, true, true)), "Mount tag must not exceed 255 characters");
    let fits = SharedDirectory { tag: "a".repeat(255), ..d.clone() };
    assert!(check_share(&fits, true, true).is_ok());
}
