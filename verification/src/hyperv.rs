//! Names and PowerShell text for the Hyper-V backend.
//!
//! Running PowerShell is the caller's part.
use vstd::prelude::*;
use crate::hypervisor::{
    HypervisorError, PortForward, PortForwardView, SharedDirectory, SharedDirectoryView, VmState,
    forwards_view,
};
use crate::text::{
    before_first, chars_of, concat, decimal, decimal_string, has_prefix, owned, prefix_before, slice_vec,
    str_eq, str_starts_with, string_of, utf8_len,
};

verus! {

/// `s` with every `'` doubled, as a PowerShell single-quoted string needs.
pub open spec fn ps_escaped(s: Seq<char>) -> Seq<char>
    decreases s.len(),
{
    if s.len() == 0 {
        Seq::empty()
    } else if s.last() == '\'' {
        ps_escaped(s.drop_last()) + seq!['\'', '\'']
    } else {
        ps_escaped(s.drop_last()).push(s.last())
    }
}

/// Escapes a value for a PowerShell single-quoted string.
pub fn ps_escape(s: &str) -> (r: String)
    ensures
        r@ == ps_escaped(s@),
{
    let v = chars_of(s);
    let mut out: Vec<char> = Vec::new();
    let mut i: usize = 0;
    while i < v.len()
        invariant
            i <= v.len(),
            out@ == ps_escaped(v@.take(i as int)),
        decreases v.len() - i,
    {
        proof {
            assert(v@.take(i as int + 1).drop_last() =~= v@.take(i as int));
        }
        let c = v[i];
        if c == '\'' {
            out.push('\'');
            out.push('\'');
            proof {
                assert(out@ =~= ps_escaped(v@.take(i as int)) + seq!['\'', '\'']);
            }
        } else {
            out.push(c);
        }
        i = i + 1;
    }
    proof {
        assert(v@.take(i as int) =~= v@);
    }
    string_of(&out)
}

/// The name of a VM inside Hyper-V: distinct from the user-visible name,
/// it carries the VM id for uniqueness.
pub fn hyperv_vm_name(id: &str, user_name: &str) -> (r: String)
    ensures
        r@ == "CargoBay-"@ + id@ + "-"@ + user_name@,
{
    let a = concat("CargoBay-", id);
    let b = concat(a.as_str(), "-");
    concat(b.as_str(), user_name)
}

/// The named pipe that a VM's serial console is redirected to.
pub fn vm_serial_pipe_name(id: &str) -> (r: String)
    ensures
        r@ == "\\\\.\\pipe\\cargobay-"@ + id@ + "-serial"@,
{
    let a = concat("\\\\.\\pipe\\cargobay-", id);
    concat(a.as_str(), "-serial")
}

/// The PowerShell that prints the first IP address of a Hyper-V VM.
pub fn vm_ip_script(hyperv_name: &str) -> (r: String)
    ensures
        r@ == "(Get-VM -Name '"@ + ps_escaped(hyperv_name@)
            + "' | Select-Object -ExpandProperty NetworkAdapters | Select-Object -First 1).IPAddresses | Select-Object -First 1"@,
{
    let e = ps_escape(hyperv_name);
    let a = concat("(Get-VM -Name '", e.as_str());
    concat(
        a.as_str(),
        "' | Select-Object -ExpandProperty NetworkAdapters | Select-Object -First 1).IPAddresses | Select-Object -First 1",
    )
}

/// The guest IP from the script's trimmed output: none when the script
/// failed or printed nothing.
pub fn vm_ip_from_output(output: Option<&str>) -> (r: Option<String>)
    ensures
        match output {
            Some(o) => if o@.len() > 0 {
                r matches Some(ip) && ip@ == o@
            } else {
                r is None
            },
            None => r is None,
        },
{
    match output {
        Some(o) => {
            if chars_of(o).len() > 0 {
                Some(owned(o))
            } else {
                None
            }
        },
        None => None,
    }
}

// ---------------------------------------------------------------------------
// Commands on one VM
// ---------------------------------------------------------------------------

/// The PowerShell commands that act on a single VM by its Hyper-V name.
#[derive(Debug, Clone, Copy, PartialEq, Eq, Structural)]
pub enum VmCommand {
    /// Print the VM's state.
    QueryState,
    Start,
    /// Ask the guest to shut down.
    Stop,
    /// Power the VM off.
    TurnOff,
    Remove,
}

/// The text around the escaped VM name in each command.
pub open spec fn command_parts(c: VmCommand) -> (Seq<char>, Seq<char>) {
    match c {
        VmCommand::QueryState => ("(Get-VM -Name '"@, "' -ErrorAction SilentlyContinue).State"@),
        VmCommand::Start => ("Start-VM -Name '"@, "'"@),
        VmCommand::Stop => ("Stop-VM -Name '"@, "' -Force:$false -ErrorAction SilentlyContinue"@),
        VmCommand::TurnOff => ("Stop-VM -Name '"@, "' -TurnOff -Force -ErrorAction SilentlyContinue"@),
        VmCommand::Remove => ("Remove-VM -Name '"@, "' -Force -ErrorAction SilentlyContinue"@),
    }
}

/// `prefix`, the escaped `value`, then `suffix`.
pub open spec fn quoted(prefix: Seq<char>, value: Seq<char>, suffix: Seq<char>) -> Seq<char> {
    prefix + ps_escaped(value) + suffix
}

fn quoted_text(prefix: &str, value: &str, suffix: &str) -> (r: String)
    ensures
        r@ == quoted(prefix@, value@, suffix@),
{
    let e = ps_escape(value);
    let a = concat(prefix, e.as_str());
    concat(a.as_str(), suffix)
}

/// The PowerShell for `command` on the VM called `hyperv_name`.
pub fn vm_command(command: VmCommand, hyperv_name: &str) -> (r: String)
    ensures
        r@ == quoted(command_parts(command).0, hyperv_name@, command_parts(command).1),
{
    match command {
        VmCommand::QueryState => quoted_text("(Get-VM -Name '", hyperv_name, "' -ErrorAction SilentlyContinue).State"),
        VmCommand::Start => quoted_text("Start-VM -Name '", hyperv_name, "'"),
        VmCommand::Stop => quoted_text("Stop-VM -Name '", hyperv_name, "' -Force:$false -ErrorAction SilentlyContinue"),
        VmCommand::TurnOff => quoted_text(
            "Stop-VM -Name '",
            hyperv_name,
            "' -TurnOff -Force -ErrorAction SilentlyContinue",
        ),
        VmCommand::Remove => quoted_text("Remove-VM -Name '", hyperv_name, "' -Force -ErrorAction SilentlyContinue"),
    }
}

/// The VM state that the state query's trimmed output names; a failed
/// query (`None`) reads as stopped.
pub open spec fn hyperv_state_spec(output: Option<Seq<char>>) -> VmState {
    match output {
        None => VmState::Stopped,
        Some(o) => if o == "Running"@ {
            VmState::Running
        } else if o == "Starting"@ || o == "Saving"@ || o == "Pausing"@ || o == "Resuming"@ {
            VmState::Creating
        } else {
            VmState::Stopped
        },
    }
}

/// The query printed one of Hyper-V's transitional states.
pub open spec fn hyperv_transitional(output: Option<Seq<char>>) -> bool {
    output == Some("Starting"@) || output == Some("Saving"@) || output == Some("Pausing"@) || output == Some(
        "Resuming"@,
    )
}

/// How Hyper-V's states read: `Running` as running; the transitional
/// states `Starting`, `Saving`, `Pausing` and `Resuming` as being set up;
/// everything else (`Off`, `Stopped`, an empty or unknown answer, or a
/// failed query) as stopped.
pub proof fn law_hyperv_state_names(output: Option<Seq<char>>)
    ensures
        hyperv_state_spec(output) == VmState::Running <==> output == Some("Running"@),
        hyperv_state_spec(output) == VmState::Creating <==> hyperv_transitional(output),
        hyperv_state_spec(output) == VmState::Stopped <==> !(output == Some("Running"@)) && !hyperv_transitional(output),
        hyperv_state_spec(Some("Starting"@)) == VmState::Creating,
        hyperv_state_spec(Some("Saving"@)) == VmState::Creating,
        hyperv_state_spec(Some("Pausing"@)) == VmState::Creating,
        hyperv_state_spec(Some("Resuming"@)) == VmState::Creating,
        hyperv_state_spec(Some("Off"@)) == VmState::Stopped,
        hyperv_state_spec(Some(Seq::empty())) == VmState::Stopped,
        hyperv_state_spec(None) == VmState::Stopped,
{
    reveal_strlit("Running");
    reveal_strlit("Starting");
    reveal_strlit("Saving");
    reveal_strlit("Pausing");
    reveal_strlit("Resuming");
    reveal_strlit("Off");
    assert("Running"@ != "Starting"@ && "Running"@ != "Saving"@ && "Running"@ != "Pausing"@ && "Running"@ != "Resuming"@) by {
        assert("Running"@[0] != "Starting"@[0]);
        assert("Running"@[0] != "Saving"@[0]);
        assert("Running"@[0] != "Pausing"@[0]);
        assert("Running"@.len() != "Resuming"@.len());
    }
    assert("Off"@ != "Running"@ && "Off"@ != "Starting"@ && "Off"@ != "Saving"@ && "Off"@ != "Pausing"@ && "Off"@ != "Resuming"@) by {
        assert("Off"@.len() == 3);
    }
    assert(Seq::<char>::empty() != "Running"@ && Seq::<char>::empty() != "Starting"@ && Seq::<char>::empty() != "Saving"@
        && Seq::<char>::empty() != "Pausing"@ && Seq::<char>::empty() != "Resuming"@) by {
        assert(Seq::<char>::empty().len() == 0);
        assert("Running"@.len() == 7 && "Starting"@.len() == 8 && "Saving"@.len() == 6);
        assert("Pausing"@.len() == 7 && "Resuming"@.len() == 8);
    }
}

pub open spec fn opt_view(o: Option<&str>) -> Option<Seq<char>> {
    match o {
        Some(s) => Some(s@),
        None => None,
    }
}

/// The VM state from the output of the state query.
pub fn hyperv_state(output: Option<&str>) -> (s: VmState)
    ensures
        s == hyperv_state_spec(opt_view(output)),
        s == VmState::Running <==> opt_view(output) == Some("Running"@),
        s == VmState::Creating <==> hyperv_transitional(opt_view(output)),
{
    proof {
        law_hyperv_state_names(opt_view(output));
    }
    match output {
        None => VmState::Stopped,
        Some(o) => {
            if str_eq(o, "Running") {
                VmState::Running
            } else if str_eq(o, "Starting") || str_eq(o, "Saving") || str_eq(o, "Pausing") || str_eq(
                o,
                "Resuming",
            ) {
                VmState::Creating
            } else {
                VmState::Stopped
            }
        },
    }
}

// ---------------------------------------------------------------------------
// Creating a VM
// ---------------------------------------------------------------------------

/// The VM id inside a Hyper-V name `CargoBay-<id>-<name>`: what follows the
/// prefix up to the next `-`; the whole name when it lacks the prefix.
pub open spec fn serial_id_of(hyperv_name: Seq<char>) -> Seq<char> {
    if has_prefix(hyperv_name, "CargoBay-"@) {
        before_first(hyperv_name.skip(9), '-')
    } else {
        hyperv_name
    }
}

fn serial_id(hyperv_name: &str) -> (r: String)
    ensures
        r@ == serial_id_of(hyperv_name@),
{
    proof {
        reveal_strlit("CargoBay-");
    }
    if str_starts_with(hyperv_name, "CargoBay-") {
        let v = chars_of(hyperv_name);
        let rest = slice_vec(&v, 9, v.len());
        proof {
            assert(rest@ =~= hyperv_name@.skip(9));
        }
        string_of(&prefix_before(&rest, '-'))
    } else {
        owned(hyperv_name)
    }
}

/// The largest amount of dynamic memory: twice the startup memory,
/// saturating.
pub open spec fn max_memory_mb(memory_mb: u64) -> nat {
    if 2 * memory_mb <= u64::MAX {
        (2 * memory_mb) as nat
    } else {
        u64::MAX as nat
    }
}

/// The serial console pipe of a VM, by its id.
pub open spec fn serial_pipe_spec(id: Seq<char>) -> Seq<char> {
    "\\\\.\\pipe\\cargobay-"@ + id + "-serial"@
}

/// The PowerShell that creates a Hyper-V VM, in order: a dynamic VHDX of
/// `disk_gb` GiB, a generation 2 VM on the default switch, its processor
/// count, dynamic memory from the startup amount up to twice it, COM1 on
/// the serial pipe, secure boot off (for unsigned Linux kernels), and the
/// guest service interface.
pub open spec fn create_vm_scripts_spec(
    hyperv_name: Seq<char>,
    cpus: u32,
    memory_mb: u64,
    disk_bytes: nat,
    disk_path: Seq<char>,
) -> Seq<Seq<char>> {
    let n = ps_escaped(hyperv_name);
    let d = ps_escaped(disk_path);
    let m = decimal(memory_mb as nat);
    seq![
        "New-VHD -Path '"@ + d + "' -SizeBytes "@ + decimal(disk_bytes) + " -Dynamic"@,
        "New-VM -Name '"@ + n + "' -MemoryStartupBytes "@ + m + "MB -VHDPath '"@ + d
            + "' -Generation 2 -SwitchName 'Default Switch'"@,
        "Set-VMProcessor -VMName '"@ + n + "' -Count "@ + decimal(cpus as nat),
        "Set-VMMemory -VMName '"@ + n + "' -DynamicMemoryEnabled $true -MinimumBytes "@ + m
            + "MB -StartupBytes "@ + m + "MB -MaximumBytes "@ + decimal(max_memory_mb(memory_mb)) + "MB"@,
        "Set-VMComPort -VMName '"@ + n + "' -Number 1 -Path '"@ + ps_escaped(
            serial_pipe_spec(serial_id_of(hyperv_name)),
        ) + "'"@,
        "Set-VMFirmware -VMName '"@ + n + "' -EnableSecureBoot Off"@,
        "Enable-VMIntegrationService -VMName '"@ + n + "' -Name 'Guest Service Interface'"@,
    ]
}

pub open spec fn strings_view(v: Seq<String>) -> Seq<Seq<char>> {
    v.map_values(|s: String| s@)
}

fn push_script(v: &mut Vec<String>, s: String)
    ensures
        strings_view(final(v)@) == strings_view(old(v)@).push(s@),
{
    v.push(s);
    proof {
        assert(strings_view(v@) =~= strings_view(old(v)@).push(s@));
    }
}

fn cat3(a: &str, b: &str, c: &str) -> (r: String)
    ensures
        r@ == a@ + b@ + c@,
{
    let x = concat(a, b);
    concat(x.as_str(), c)
}

/// The PowerShell that creates the Hyper-V VM `hyperv_name`; see
/// [`create_vm_scripts_spec`]. Fails with `CreateFailed` when the disk size
/// in bytes overflows a `u64`.
pub fn create_vm_scripts(hyperv_name: &str, cpus: u32, memory_mb: u64, disk_gb: u64, disk_path: &str) -> (r: Result<
    Vec<String>,
    HypervisorError,
>)
    ensures
        disk_gb * 0x4000_0000 > u64::MAX ==> (r matches Err(HypervisorError::CreateFailed(m)) && m@
            == "disk size overflow"@),
        disk_gb * 0x4000_0000 <= u64::MAX ==> (r matches Ok(v) && strings_view(v@) == create_vm_scripts_spec(
            hyperv_name@,
            cpus,
            memory_mb,
            (disk_gb * 0x4000_0000) as nat,
            disk_path@,
        )),
{
    let bytes = match disk_gb.checked_mul(0x4000_0000) {
        Some(b) => b,
        None => return Err(HypervisorError::CreateFailed(owned("disk size overflow"))),
    };
    let n = ps_escape(hyperv_name);
    let d = ps_escape(disk_path);
    let m = decimal_string(memory_mb);
    let max_mb: u64 = match memory_mb.checked_mul(2) {
        Some(x) => x,
        None => u64::MAX,
    };
    let mut v: Vec<String> = Vec::new();
    let s1 = cat3("New-VHD -Path '", d.as_str(), "' -SizeBytes ");
    push_script(&mut v, cat3(s1.as_str(), decimal_string(bytes).as_str(), " -Dynamic"));
    let s2 = cat3("New-VM -Name '", n.as_str(), "' -MemoryStartupBytes ");
    let s2 = cat3(s2.as_str(), m.as_str(), "MB -VHDPath '");
    push_script(&mut v, cat3(s2.as_str(), d.as_str(), "' -Generation 2 -SwitchName 'Default Switch'"));
    let s3 = cat3("Set-VMProcessor -VMName '", n.as_str(), "' -Count ");
    push_script(&mut v, concat(s3.as_str(), decimal_string(cpus as u64).as_str()));
    let s4 = cat3("Set-VMMemory -VMName '", n.as_str(), "' -DynamicMemoryEnabled $true -MinimumBytes ");
    let s4 = cat3(s4.as_str(), m.as_str(), "MB -StartupBytes ");
    let s4 = cat3(s4.as_str(), m.as_str(), "MB -MaximumBytes ");
    push_script(&mut v, cat3(s4.as_str(), decimal_string(max_mb).as_str(), "MB"));
    let pipe = vm_serial_pipe_name(serial_id(hyperv_name).as_str());
    let s5 = cat3("Set-VMComPort -VMName '", n.as_str(), "' -Number 1 -Path '");
    push_script(&mut v, cat3(s5.as_str(), ps_escape(pipe.as_str()).as_str(), "'"));
    push_script(&mut v, cat3("Set-VMFirmware -VMName '", n.as_str(), "' -EnableSecureBoot Off"));
    push_script(
        &mut v,
        cat3("Enable-VMIntegrationService -VMName '", n.as_str(), "' -Name 'Guest Service Interface'"),
    );
    proof {
        let spec = create_vm_scripts_spec(hyperv_name@, cpus, memory_mb, bytes as nat, disk_path@);
        assert(strings_view(v@) =~= spec);
    }
    Ok(v)
}

// ---------------------------------------------------------------------------
// Port forwarding through netsh portproxy
// ---------------------------------------------------------------------------

/// The rule that forwards host port `host` to the VM at `ip`.
pub open spec fn portproxy_add_spec(host: u16, guest: u16, ip: Seq<char>) -> Seq<char> {
    "netsh interface portproxy add v4tov4 listenport="@ + decimal(host as nat)
        + " listenaddress=0.0.0.0 connectport="@ + decimal(guest as nat) + " connectaddress="@ + ip
}

/// The command that removes the rule for host port `host`.
pub open spec fn portproxy_delete_spec(host: u16) -> Seq<char> {
    "netsh interface portproxy delete v4tov4 listenport="@ + decimal(host as nat) + " listenaddress=0.0.0.0"@
}

/// The rules for the TCP forwards among `fs` (portproxy cannot forward
/// UDP, so UDP forwards are skipped).
pub open spec fn portproxy_rules(fs: Seq<PortForwardView>, ip: Seq<char>) -> Seq<Seq<char>>
    decreases fs.len(),
{
    if fs.len() == 0 {
        Seq::empty()
    } else {
        let before = portproxy_rules(fs.drop_last(), ip);
        let f = fs.last();
        if f.protocol == "udp"@ {
            before
        } else {
            before.push(portproxy_add_spec(f.host_port, f.guest_port, ip))
        }
    }
}

/// The removals for the TCP forwards among `fs`.
pub open spec fn portproxy_removals_spec(fs: Seq<PortForwardView>) -> Seq<Seq<char>>
    decreases fs.len(),
{
    if fs.len() == 0 {
        Seq::empty()
    } else {
        let before = portproxy_removals_spec(fs.drop_last());
        let f = fs.last();
        if f.protocol == "udp"@ {
            before
        } else {
            before.push(portproxy_delete_spec(f.host_port))
        }
    }
}

/// The message when forwards are to be applied before the VM has an
/// address.
pub open spec fn no_ip_message() -> Seq<char> {
    "Cannot configure port forwarding: VM IP address not available yet. The VM may still be booting."@
}

/// The rules that apply `forwards` to the VM whose address is `vm_ip`:
/// nothing for no forwards, `CreateFailed` when there are forwards but no
/// address yet, else one rule per TCP forward, in order.
pub fn portproxy_plan(forwards: &Vec<PortForward>, vm_ip: Option<&str>) -> (r: Result<Vec<String>, HypervisorError>)
    ensures
        forwards@.len() == 0 ==> (r matches Ok(v) && v@.len() == 0),
        forwards@.len() > 0 && vm_ip is None ==> (r matches Err(HypervisorError::CreateFailed(m)) && m@
            == no_ip_message()),
        forwards@.len() > 0 && vm_ip is Some ==> (r matches Ok(v) && strings_view(v@) == portproxy_rules(
            forwards_view(forwards@),
            vm_ip->0@,
        )),
{
    let mut v: Vec<String> = Vec::new();
    if forwards.len() == 0 {
        return Ok(v);
    }
    let ip = match vm_ip {
        Some(ip) => ip,
        None => return Err(
            HypervisorError::CreateFailed(
                owned(
                    "Cannot configure port forwarding: VM IP address not available yet. The VM may still be booting.",
                ),
            ),
        ),
    };
    let ghost fv = forwards_view(forwards@);
    let mut i: usize = 0;
    while i < forwards.len()
        invariant
            fv == forwards_view(forwards@),
            i <= forwards.len(),
            strings_view(v@) == portproxy_rules(fv.take(i as int), ip@),
        decreases forwards.len() - i,
    {
        proof {
            assert(fv.take(i as int + 1).drop_last() =~= fv.take(i as int));
        }
        let f = &forwards[i];
        if !str_eq(f.protocol.as_str(), "udp") {
            let a = concat("netsh interface portproxy add v4tov4 listenport=", decimal_string(f.host_port as u64).as_str());
            let a = cat3(a.as_str(), " listenaddress=0.0.0.0 connectport=", decimal_string(f.guest_port as u64).as_str());
            push_script(&mut v, cat3(a.as_str(), " connectaddress=", ip));
        }
        i = i + 1;
    }
    proof {
        assert(fv.take(i as int) =~= fv);
    }
    Ok(v)
}

/// The commands that remove the rules of the TCP forwards among `forwards`.
pub fn portproxy_removals(forwards: &Vec<PortForward>) -> (r: Vec<String>)
    ensures
        strings_view(r@) == portproxy_removals_spec(forwards_view(forwards@)),
{
    let ghost fv = forwards_view(forwards@);
    let mut v: Vec<String> = Vec::new();
    let mut i: usize = 0;
    while i < forwards.len()
        invariant
            fv == forwards_view(forwards@),
            i <= forwards.len(),
            strings_view(v@) == portproxy_removals_spec(fv.take(i as int)),
        decreases forwards.len() - i,
    {
        proof {
            assert(fv.take(i as int + 1).drop_last() =~= fv.take(i as int));
        }
        let f = &forwards[i];
        if !str_eq(f.protocol.as_str(), "udp") {
            let a = concat("netsh interface portproxy delete v4tov4 listenport=", decimal_string(f.host_port as u64).as_str());
            push_script(&mut v, concat(a.as_str(), " listenaddress=0.0.0.0"));
        }
        i = i + 1;
    }
    proof {
        assert(fv.take(i as int) =~= fv);
    }
    v
}

// ---------------------------------------------------------------------------
// Directory sharing through SMB
// ---------------------------------------------------------------------------

/// The SMB share that serves a shared directory's tag.
pub open spec fn smb_share_name(tag: Seq<char>) -> Seq<char> {
    "CargoBay-"@ + tag
}

/// The PowerShell that creates the SMB share for `d` unless it exists:
/// read access for a read-only share, full access otherwise.
pub open spec fn smb_share_script_spec(d: SharedDirectoryView) -> Seq<char> {
    let n = ps_escaped(smb_share_name(d.tag));
    "if (!(Get-SmbShare -Name '"@ + n + "' -ErrorAction SilentlyContinue)) { New-SmbShare -Name '"@ + n
        + "' -Path '"@ + ps_escaped(d.host_path) + "' -"@ + (if d.read_only {
        "ReadAccess"@
    } else {
        "FullAccess"@
    }) + " Everyone }"@
}

pub fn smb_share_script(d: &SharedDirectory) -> (r: String)
    ensures
        r@ == smb_share_script_spec(d@),
{
    let name = concat("CargoBay-", d.tag.as_str());
    let n = ps_escape(name.as_str());
    let a = cat3("if (!(Get-SmbShare -Name '", n.as_str(), "' -ErrorAction SilentlyContinue)) { New-SmbShare -Name '");
    let a = cat3(a.as_str(), n.as_str(), "' -Path '");
    let a = cat3(a.as_str(), ps_escape(d.host_path.as_str()).as_str(), "' -");
    let access = if d.read_only {
        "ReadAccess"
    } else {
        "FullAccess"
    };
    cat3(a.as_str(), access, " Everyone }")
}

/// The PowerShell that removes the SMB share of a tag.
pub fn remove_smb_share_script(tag: &str) -> (r: String)
    ensures
        r@ == quoted("Remove-SmbShare -Name '"@, smb_share_name(tag@), "' -Force -ErrorAction SilentlyContinue"@),
{
    let name = concat("CargoBay-", tag);
    quoted_text("Remove-SmbShare -Name '", name.as_str(), "' -Force -ErrorAction SilentlyContinue")
}

/// Why the Hyper-V backend refuses to share a directory, in the order it
/// checks: the host path is missing or not a directory, the tag is empty
/// or longer than 255 bytes.
pub open spec fn share_refusal(d: SharedDirectoryView, host_exists: bool, host_is_dir: bool) -> Option<Seq<char>> {
    if !host_exists {
        Some("Host path does not exist: "@ + d.host_path)
    } else if !host_is_dir {
        Some("Host path is not a directory: "@ + d.host_path)
    } else if d.tag.len() == 0 {
        Some("Mount tag must not be empty"@)
    } else if utf8_len(d.tag) > 255 {
        Some("Mount tag must not exceed 255 characters"@)
    } else {
        None
    }
}

/// Checks a directory to be shared, given whether its host path exists
/// and is a directory; the error is a `VirtioFsError`.
pub fn check_share(d: &SharedDirectory, host_exists: bool, host_is_dir: bool) -> (r: Result<(), HypervisorError>)
    ensures
        match share_refusal(d@, host_exists, host_is_dir) {
            Some(m) => r matches Err(HypervisorError::VirtioFsError(e)) && e@ == m,
            None => r is Ok,
        },
{
    if !host_exists {
        return Err(HypervisorError::VirtioFsError(concat("Host path does not exist: ", d.host_path.as_str())));
    }
    if !host_is_dir {
        return Err(HypervisorError::VirtioFsError(concat("Host path is not a directory: ", d.host_path.as_str())));
    }
    let t = chars_of(d.tag.as_str());
    if t.len() == 0 {
        return Err(HypervisorError::VirtioFsError(owned("Mount tag must not be empty")));
    }
    proof {
        crate::text::lemma_utf8_len_ge(t@);
        crate::text::lemma_utf8_len_le(t@);
    }
    if t.len() > 255 || crate::text::utf8_len_of(&t) > 255 {
        return Err(HypervisorError::VirtioFsError(owned("Mount tag must not exceed 255 characters")));
    }
    Ok(())
}

} // verus!
