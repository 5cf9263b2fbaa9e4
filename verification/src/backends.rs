//! What the native backends (Virtualization.framework, KVM, Hyper-V)
//! check before they create a VM, the disk size they allocate, and how the
//! KVM backend serves a shared directory through `virtiofsd`.
//!
//! Probing the platform and the file system, and creating files, are the
//! caller's part.
use vstd::prelude::*;
use crate::hypervisor::{HypervisorError, VmConfig, VmInfo, infos_view, dirs_view};
use crate::store::{is_known_path, known_path};
use crate::text::{concat, owned};
use crate::vm::{name_taken};
use crate::HypervisorBackend;

verus! {

/// The message when the backend itself is missing.
pub open spec fn unavailable_message(b: HypervisorBackend) -> Seq<char> {
    match b {
        HypervisorBackend::Kvm => "KVM not available. Ensure /dev/kvm exists and you have permissions."@,
        HypervisorBackend::HyperV => "Hyper-V not available. Enable Hyper-V in Windows Features (requires Windows 10 Pro+ or Windows 11)."@,
        _ => "unsupported platform"@,
    }
}

/// The message when Rosetta is asked for where it cannot be had.
pub open spec fn rosetta_message(b: HypervisorBackend) -> Seq<char> {
    match b {
        HypervisorBackend::VirtualizationFramework => "Rosetta is only available on Apple Silicon Macs with macOS 13+"@,
        HypervisorBackend::Kvm => "Rosetta is only available on macOS Apple Silicon. Use QEMU user-mode for x86_64 emulation on Linux."@,
        _ => "Rosetta is only available on macOS Apple Silicon. Windows ARM uses its own x86 emulation."@,
    }
}

/// Index of the first share whose host path does not exist.
pub open spec fn first_missing_share(config: VmConfig, existing: Seq<String>) -> Option<int> {
    let d = dirs_view(config.shared_dirs@);
    if exists|i: int| 0 <= i < d.len() && !known_path(existing, (#[trigger] d[i]).host_path) {
        Some(
            choose|i: int|
                0 <= i < d.len() && !known_path(existing, (#[trigger] d[i]).host_path) && forall|j: int|
                    0 <= j < i ==> known_path(existing, (#[trigger] d[j]).host_path),
        )
    } else {
        None
    }
}

/// Why a backend refuses to create a VM.
pub enum Refusal {
    BackendMissing,
    NoRosetta,
    /// The share at this index has a host path that does not exist.
    MissingShare(int),
    NameTaken,
}

/// Why a backend refuses to create a VM, in the order it checks: the
/// backend is missing (KVM and Hyper-V), Rosetta is asked for where it is
/// missing (always, off macOS), a share's host path does not exist, or the
/// name is taken.
pub open spec fn refusal(
    b: HypervisorBackend,
    backend_available: bool,
    rosetta_available: bool,
    config: VmConfig,
    existing: Seq<String>,
    vms: Seq<VmInfo>,
) -> Option<Refusal> {
    if b != HypervisorBackend::VirtualizationFramework && !backend_available {
        Some(Refusal::BackendMissing)
    } else if config.rosetta && (b != HypervisorBackend::VirtualizationFramework || !rosetta_available) {
        Some(Refusal::NoRosetta)
    } else {
        match first_missing_share(config, existing) {
            Some(i) => Some(Refusal::MissingShare(i)),
            None => if name_taken(infos_view(vms), config.name@) {
                Some(Refusal::NameTaken)
            } else {
                None
            },
        }
    }
}

/// The error that answers a refusal.
pub open spec fn refusal_error(r: Result<(), HypervisorError>, why: Refusal, b: HypervisorBackend, config: VmConfig) -> bool {
    match why {
        Refusal::BackendMissing => r matches Err(HypervisorError::CreateFailed(m)) && m@ == unavailable_message(b),
        Refusal::NoRosetta => r matches Err(HypervisorError::RosettaUnavailable(m)) && m@ == rosetta_message(b),
        Refusal::MissingShare(i) => r matches Err(HypervisorError::VirtioFsError(m)) && m@
            == "Host path does not exist: "@ + config.shared_dirs@[i].host_path@,
        Refusal::NameTaken => r matches Err(HypervisorError::CreateFailed(m)) && m@ == "VM name already exists: "@
            + config.name@,
    }
}

fn unavailable_str(b: HypervisorBackend) -> (s: &'static str)
    ensures
        s@ == unavailable_message(b),
{
    match b {
        HypervisorBackend::Kvm => "KVM not available. Ensure /dev/kvm exists and you have permissions.",
        HypervisorBackend::HyperV => "Hyper-V not available. Enable Hyper-V in Windows Features (requires Windows 10 Pro+ or Windows 11).",
        _ => "unsupported platform",
    }
}

fn rosetta_str(b: HypervisorBackend) -> (s: &'static str)
    ensures
        s@ == rosetta_message(b),
{
    match b {
        HypervisorBackend::VirtualizationFramework => "Rosetta is only available on Apple Silicon Macs with macOS 13+",
        HypervisorBackend::Kvm => "Rosetta is only available on macOS Apple Silicon. Use QEMU user-mode for x86_64 emulation on Linux.",
        _ => "Rosetta is only available on macOS Apple Silicon. Windows ARM uses its own x86 emulation.",
    }
}

fn missing_share(config: &VmConfig, existing: &Vec<String>) -> (r: Option<usize>)
    ensures
        match first_missing_share(*config, existing@) {
            Some(i) => r matches Some(k) && k as int == i && 0 <= i < config.shared_dirs@.len(),
            None => r is None,
        },
{
    let ghost d = dirs_view(config.shared_dirs@);
    let mut i: usize = 0;
    while i < config.shared_dirs.len()
        invariant
            d == dirs_view(config.shared_dirs@),
            i <= config.shared_dirs.len(),
            forall|j: int| 0 <= j < i ==> known_path(existing@, (#[trigger] d[j]).host_path),
        decreases config.shared_dirs.len() - i,
    {
        if !is_known_path(existing, config.shared_dirs[i].host_path.as_str()) {
            proof {
                let k = choose|k: int|
                    0 <= k < d.len() && !known_path(existing@, (#[trigger] d[k]).host_path) && forall|j: int|
                        0 <= j < k ==> known_path(existing@, (#[trigger] d[j]).host_path);
                assert(!known_path(existing@, d[i as int].host_path));
                if k < i {
                    assert(known_path(existing@, d[k].host_path));
                }
                if k > i {
                    assert(known_path(existing@, d[i as int].host_path));
                }
            }
            return Some(i);
        }
        i = i + 1;
    }
    None
}

fn has_name(vms: &Vec<VmInfo>, name: &str) -> (b: bool)
    ensures
        b == name_taken(infos_view(vms@), name@),
{
    let ghost s = infos_view(vms@);
    let mut i: usize = 0;
    while i < vms.len()
        invariant
            s == infos_view(vms@),
            i <= vms.len(),
            forall|j: int| 0 <= j < i ==> (#[trigger] s[j]).name != name@,
        decreases vms.len() - i,
    {
        if crate::text::str_eq(vms[i].name.as_str(), name) {
            proof {
                assert(s[i as int].name == name@);
            }
            return true;
        }
        i = i + 1;
    }
    false
}

/// Checks whether backend `b` may create a VM from `config`; see
/// [`refusal`].
pub fn admit_vm(
    b: HypervisorBackend,
    backend_available: bool,
    rosetta_available: bool,
    config: &VmConfig,
    existing: &Vec<String>,
    vms: &Vec<VmInfo>,
) -> (r: Result<(), HypervisorError>)
    ensures
        match refusal(b, backend_available, rosetta_available, *config, existing@, vms@) {
            Some(why) => refusal_error(r, why, b, *config),
            None => r is Ok,
        },
{
    if b != HypervisorBackend::VirtualizationFramework && !backend_available {
        return Err(HypervisorError::CreateFailed(owned(unavailable_str(b))));
    }
    if config.rosetta && (b != HypervisorBackend::VirtualizationFramework || !rosetta_available) {
        return Err(HypervisorError::RosettaUnavailable(owned(rosetta_str(b))));
    }
    if let Some(i) = missing_share(config, existing) {
        return Err(
            HypervisorError::VirtioFsError(
                concat("Host path does not exist: ", config.shared_dirs[i].host_path.as_str()),
            ),
        );
    }
    if has_name(vms, config.name.as_str()) {
        return Err(HypervisorError::CreateFailed(concat("VM name already exists: ", config.name.as_str())));
    }
    Ok(())
}

/// Rosetta is refused by every backend but Virtualization.framework: once
/// such a backend is present, a configuration asking for Rosetta is
/// refused for that reason.
pub proof fn law_rosetta_only_on_macos(
    b: HypervisorBackend,
    backend_available: bool,
    rosetta_available: bool,
    config: VmConfig,
    existing: Seq<String>,
    vms: Seq<VmInfo>,
)
    requires
        b != HypervisorBackend::VirtualizationFramework,
        backend_available,
        config.rosetta,
    ensures
        refusal(b, backend_available, rosetta_available, config, existing, vms) == Some(Refusal::NoRosetta),
{
}

/// A configuration that passes every check is admitted; in particular the
/// checks never refuse a VM without Rosetta, shares and name clashes on an
/// available backend.
pub proof fn law_plain_config_admitted(
    b: HypervisorBackend,
    rosetta_available: bool,
    config: VmConfig,
    existing: Seq<String>,
    vms: Seq<VmInfo>,
)
    requires
        !config.rosetta,
        config.shared_dirs@.len() == 0,
        !name_taken(infos_view(vms), config.name@),
    ensures
        refusal(b, true, rosetta_available, config, existing, vms) is None,
{
    assert(dirs_view(config.shared_dirs@).len() == 0);
}

/// The size in bytes of a new VM's disk; `CreateFailed` when it overflows
/// a `u64`.
pub fn disk_bytes(disk_gb: u64) -> (r: Result<u64, HypervisorError>)
    ensures
        disk_gb * 0x4000_0000 <= u64::MAX ==> r == Ok::<u64, HypervisorError>((disk_gb * 0x4000_0000) as u64),
        disk_gb * 0x4000_0000 > u64::MAX ==> (r matches Err(HypervisorError::CreateFailed(m)) && m@ == "disk size overflow"@),
{
    match disk_gb.checked_mul(0x4000_0000) {
        Some(n) => Ok(n),
        None => Err(HypervisorError::CreateFailed(owned("disk size overflow"))),
    }
}

// ---------------------------------------------------------------------------
// virtiofsd
// ---------------------------------------------------------------------------

/// The socket that the `virtiofsd` serving `tag` listens on.
pub open spec fn virtiofsd_socket_spec(tag: Seq<char>) -> Seq<char> {
    "/tmp/cargobay-virtiofs-"@ + tag + ".sock"@
}

/// The arguments of the `virtiofsd` that serves `host_path` under `tag`:
/// its socket, the shared directory and automatic caching, with the
/// sandbox turned off for a read-only share.
pub open spec fn virtiofsd_args_spec(tag: Seq<char>, host_path: Seq<char>, read_only: bool) -> Seq<Seq<char>> {
    seq!["--socket-path"@, virtiofsd_socket_spec(tag), "--shared-dir"@, host_path, "--cache=auto"@] + if read_only {
        seq!["--sandbox=none"@]
    } else {
        Seq::empty()
    }
}

pub open spec fn strings_view(v: Seq<String>) -> Seq<Seq<char>> {
    v.map_values(|s: String| s@)
}

fn push_arg(v: &mut Vec<String>, s: String)
    ensures
        strings_view(final(v)@) == strings_view(old(v)@).push(s@),
{
    v.push(s);
    proof {
        assert(strings_view(v@) =~= strings_view(old(v)@).push(s@));
    }
}

/// The arguments of the `virtiofsd` for a share; see
/// [`virtiofsd_args_spec`].
pub fn virtiofsd_args(tag: &str, host_path: &str, read_only: bool) -> (r: Vec<String>)
    ensures
        strings_view(r@) == virtiofsd_args_spec(tag@, host_path@, read_only),
{
    let mut v: Vec<String> = Vec::new();
    push_arg(&mut v, owned("--socket-path"));
    let a = concat("/tmp/cargobay-virtiofs-", tag);
    push_arg(&mut v, concat(a.as_str(), ".sock"));
    push_arg(&mut v, owned("--shared-dir"));
    push_arg(&mut v, owned(host_path));
    push_arg(&mut v, owned("--cache=auto"));
    if read_only {
        push_arg(&mut v, owned("--sandbox=none"));
    }
    proof {
        assert(strings_view(v@) =~= virtiofsd_args_spec(tag@, host_path@, read_only));
    }
    v
}

/// The error when `virtiofsd` for `tag` cannot be started, with the
/// operating system's reason.
pub fn virtiofsd_spawn_error(tag: &str, reason: &str) -> (e: HypervisorError)
    ensures
        e matches HypervisorError::VirtioFsError(m) && m@ == "Failed to spawn virtiofsd for tag '"@ + tag@ + "': "@
            + reason@ + ". Ensure virtiofsd is installed (apt install virtiofsd)."@,
{
    let a = concat("Failed to spawn virtiofsd for tag '", tag);
    let a = concat(a.as_str(), "': ");
    let a = concat(a.as_str(), reason);
    HypervisorError::VirtioFsError(concat(a.as_str(), ". Ensure virtiofsd is installed (apt install virtiofsd)."))
}

} // verus!
