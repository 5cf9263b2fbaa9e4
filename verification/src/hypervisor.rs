//! VM descriptions shared by every hypervisor backend, and their errors.
use vstd::prelude::*;
use vstd::utf8::{decode_utf8, valid_utf8};
use crate::text::{clone_string, concat, decimal, decimal_string, owned};

verus! {

// ---------------------------------------------------------------------------
// Errors
// ---------------------------------------------------------------------------

/// Errors that hypervisor operations report.
#[derive(Debug)]
pub enum HypervisorError {
    CreateFailed(String),
    NotFound(String),
    Unsupported,
    RosettaUnavailable(String),
    VirtioFsError(String),
    Storage(String),
    /// An I/O failure, carrying the operating system's message.
    Io(String),
}

/// The text that an error displays.
pub open spec fn hypervisor_error_text(e: HypervisorError) -> Seq<char> {
    match e {
        HypervisorError::CreateFailed(m) => "VM creation failed: "@ + m@,
        HypervisorError::NotFound(m) => "VM not found: "@ + m@,
        HypervisorError::Unsupported => "unsupported platform"@,
        HypervisorError::RosettaUnavailable(m) => "Rosetta not available: "@ + m@,
        HypervisorError::VirtioFsError(m) => "VirtioFS error: "@ + m@,
        HypervisorError::Storage(m) => "storage error: "@ + m@,
        HypervisorError::Io(m) => "IO error: "@ + m@,
    }
}

impl HypervisorError {
    /// The human-readable message of this error.
    pub fn describe(&self) -> (s: String)
        ensures
            s@ == hypervisor_error_text(*self),
    {
        match self {
            HypervisorError::CreateFailed(m) => concat("VM creation failed: ", m.as_str()),
            HypervisorError::NotFound(m) => concat("VM not found: ", m.as_str()),
            HypervisorError::Unsupported => owned("unsupported platform"),
            HypervisorError::RosettaUnavailable(m) => concat("Rosetta not available: ", m.as_str()),
            HypervisorError::VirtioFsError(m) => concat("VirtioFS error: ", m.as_str()),
            HypervisorError::Storage(m) => concat("storage error: ", m.as_str()),
            HypervisorError::Io(m) => concat("IO error: ", m.as_str()),
        }
    }
}

// ---------------------------------------------------------------------------
// VM state
// ---------------------------------------------------------------------------

#[derive(Debug, Clone, Copy, PartialEq, Eq, Structural)]
pub enum VmState {
    Running,
    Stopped,
    Creating,
}

// ---------------------------------------------------------------------------
// Port forwards and shared directories
// ---------------------------------------------------------------------------

/// A single host-port to guest-port forwarding rule.
#[derive(Debug, Clone)]
pub struct PortForward {
    pub host_port: u16,
    pub guest_port: u16,
    /// "tcp" or "udp"
    pub protocol: String,
}

pub struct PortForwardView {
    pub host_port: u16,
    pub guest_port: u16,
    pub protocol: Seq<char>,
}

impl View for PortForward {
    type V = PortForwardView;

    open spec fn view(&self) -> PortForwardView {
        PortForwardView { host_port: self.host_port, guest_port: self.guest_port, protocol: self.protocol@ }
    }
}

impl PortForward {
    /// A copy with the same contents.
    pub fn duplicate(&self) -> (r: PortForward)
        ensures
            r@ == self@,
    {
        PortForward {
            host_port: self.host_port,
            guest_port: self.guest_port,
            protocol: clone_string(&self.protocol),
        }
    }
}

#[derive(Debug, Clone)]
pub struct SharedDirectory {
    /// Tag used to identify the mount inside the VM.
    pub tag: String,
    /// Host path to share.
    pub host_path: String,
    /// Guest mount point (e.g., /mnt/host).
    pub guest_path: String,
    /// Read-only mount.
    pub read_only: bool,
}

pub struct SharedDirectoryView {
    pub tag: Seq<char>,
    pub host_path: Seq<char>,
    pub guest_path: Seq<char>,
    pub read_only: bool,
}

impl View for SharedDirectory {
    type V = SharedDirectoryView;

    open spec fn view(&self) -> SharedDirectoryView {
        SharedDirectoryView {
            tag: self.tag@,
            host_path: self.host_path@,
            guest_path: self.guest_path@,
            read_only: self.read_only,
        }
    }
}

impl SharedDirectory {
    /// A copy with the same contents.
    pub fn duplicate(&self) -> (r: SharedDirectory)
        ensures
            r@ == self@,
    {
        SharedDirectory {
            tag: clone_string(&self.tag),
            host_path: clone_string(&self.host_path),
            guest_path: clone_string(&self.guest_path),
            read_only: self.read_only,
        }
    }
}

pub open spec fn forwards_view(v: Seq<PortForward>) -> Seq<PortForwardView> {
    v.map_values(|p: PortForward| p@)
}

pub open spec fn dirs_view(v: Seq<SharedDirectory>) -> Seq<SharedDirectoryView> {
    v.map_values(|d: SharedDirectory| d@)
}

pub open spec fn opt_view(o: Option<String>) -> Option<Seq<char>> {
    match o {
        Some(s) => Some(s@),
        None => None,
    }
}

pub fn clone_opt_string(o: &Option<String>) -> (r: Option<String>)
    ensures
        opt_view(r) == opt_view(*o),
{
    match o {
        Some(s) => Some(clone_string(s)),
        None => None,
    }
}

pub fn clone_forwards(v: &Vec<PortForward>) -> (r: Vec<PortForward>)
    ensures
        forwards_view(r@) == forwards_view(v@),
{
    let mut r: Vec<PortForward> = Vec::new();
    let mut i: usize = 0;
    while i < v.len()
        invariant
            i <= v.len(),
            forwards_view(r@) == forwards_view(v@.take(i as int)),
        decreases v.len() - i,
    {
        r.push(v[i].duplicate());
        proof {
            assert(forwards_view(v@.take(i as int + 1)) =~= forwards_view(v@.take(i as int)).push(
                v@[i as int]@,
            ));
            assert(forwards_view(r@) =~= forwards_view(r@.drop_last()).push(r@.last()@));
        }
        i = i + 1;
    }
    proof {
        assert(v@.take(i as int) =~= v@);
    }
    r
}

pub fn clone_dirs(v: &Vec<SharedDirectory>) -> (r: Vec<SharedDirectory>)
    ensures
        dirs_view(r@) == dirs_view(v@),
{
    let mut r: Vec<SharedDirectory> = Vec::new();
    let mut i: usize = 0;
    while i < v.len()
        invariant
            i <= v.len(),
            dirs_view(r@) == dirs_view(v@.take(i as int)),
        decreases v.len() - i,
    {
        r.push(v[i].duplicate());
        proof {
            assert(dirs_view(v@.take(i as int + 1)) =~= dirs_view(v@.take(i as int)).push(
                v@[i as int]@,
            ));
            assert(dirs_view(r@) =~= dirs_view(r@.drop_last()).push(r@.last()@));
        }
        i = i + 1;
    }
    proof {
        assert(v@.take(i as int) =~= v@);
    }
    r
}

// ---------------------------------------------------------------------------
// VM configuration
// ---------------------------------------------------------------------------

#[derive(Debug, Clone)]
pub struct VmConfig {
    pub name: String,
    pub cpus: u32,
    pub memory_mb: u64,
    pub disk_gb: u64,
    /// Enable Rosetta x86_64 translation (macOS Apple Silicon only).
    pub rosetta: bool,
    /// Directories to share via VirtioFS.
    pub shared_dirs: Vec<SharedDirectory>,
    /// OS image id from the image catalog (e.g. "alpine-3.19").
    pub os_image: Option<String>,
    /// Explicit path to the kernel file (set automatically from os_image).
    pub kernel_path: Option<String>,
    /// Explicit path to the initrd file (set automatically from os_image).
    pub initrd_path: Option<String>,
    /// Explicit path to the disk/rootfs file (set automatically from os_image).
    pub disk_path: Option<String>,
    /// Port forwards from host to guest.
    pub port_forwards: Vec<PortForward>,
}

impl Default for VmConfig {
    fn default() -> (c: Self)
        ensures
            c.name@ == "default"@,
            c.cpus == 2,
            c.memory_mb == 2048,
            c.disk_gb == 20,
            !c.rosetta,
            c.shared_dirs@.len() == 0,
            c.os_image is None,
            c.kernel_path is None,
            c.initrd_path is None,
            c.disk_path is None,
            c.port_forwards@.len() == 0,
    {
        VmConfig {
            name: owned("default"),
            cpus: 2,
            memory_mb: 2048,
            disk_gb: 20,
            rosetta: false,
            shared_dirs: Vec::new(),
            os_image: None,
            kernel_path: None,
            initrd_path: None,
            disk_path: None,
            port_forwards: Vec::new(),
        }
    }
}

// ---------------------------------------------------------------------------
// VM information
// ---------------------------------------------------------------------------

#[derive(Debug, Clone)]
pub struct VmInfo {
    pub id: String,
    pub name: String,
    pub state: VmState,
    pub cpus: u32,
    pub memory_mb: u64,
    pub disk_gb: u64,
    /// Whether Rosetta x86_64 translation is enabled.
    pub rosetta_enabled: bool,
    /// Active VirtioFS mounts.
    pub shared_dirs: Vec<SharedDirectory>,
    /// Active port forwards.
    pub port_forwards: Vec<PortForward>,
    /// OS image id from the catalog (e.g. "alpine-3.19"), persisted for restart.
    pub os_image: Option<String>,
}

pub struct VmInfoView {
    pub id: Seq<char>,
    pub name: Seq<char>,
    pub state: VmState,
    pub cpus: u32,
    pub memory_mb: u64,
    pub disk_gb: u64,
    pub rosetta_enabled: bool,
    pub shared_dirs: Seq<SharedDirectoryView>,
    pub port_forwards: Seq<PortForwardView>,
    pub os_image: Option<Seq<char>>,
}

impl View for VmInfo {
    type V = VmInfoView;

    open spec fn view(&self) -> VmInfoView {
        VmInfoView {
            id: self.id@,
            name: self.name@,
            state: self.state,
            cpus: self.cpus,
            memory_mb: self.memory_mb,
            disk_gb: self.disk_gb,
            rosetta_enabled: self.rosetta_enabled,
            shared_dirs: dirs_view(self.shared_dirs@),
            port_forwards: forwards_view(self.port_forwards@),
            os_image: opt_view(self.os_image),
        }
    }
}

impl VmInfo {
    /// A copy with the same contents.
    pub fn duplicate(&self) -> (r: VmInfo)
        ensures
            r@ == self@,
    {
        VmInfo {
            id: clone_string(&self.id),
            name: clone_string(&self.name),
            state: self.state,
            cpus: self.cpus,
            memory_mb: self.memory_mb,
            disk_gb: self.disk_gb,
            rosetta_enabled: self.rosetta_enabled,
            shared_dirs: clone_dirs(&self.shared_dirs),
            port_forwards: clone_forwards(&self.port_forwards),
            os_image: clone_opt_string(&self.os_image),
        }
    }
}

pub open spec fn infos_view(v: Seq<VmInfo>) -> Seq<VmInfoView> {
    v.map_values(|i: VmInfo| i@)
}

/// The disk size that a stored VM record without one is given.
pub fn default_disk_gb() -> (n: u64)
    ensures
        n == 20,
{
    20
}

/// Lowercase name of a VM state, as the daemon and the GUI report it.
pub open spec fn vm_state_name(state: VmState) -> Seq<char> {
    match state {
        VmState::Running => "running"@,
        VmState::Stopped => "stopped"@,
        VmState::Creating => "creating"@,
    }
}

/// Lowercase name of a VM state.
pub fn vm_state_to_string(state: VmState) -> (s: String)
    ensures
        s@ == vm_state_name(state),
{
    match state {
        VmState::Running => owned("running"),
        VmState::Stopped => owned("stopped"),
        VmState::Creating => owned("creating"),
    }
}

/// Message text with a decimal number appended.
pub fn with_number(prefix: &str, n: u64) -> (s: String)
    ensures
        s@ == prefix@ + decimal(n as nat),
{
    let d = decimal_string(n);
    concat(prefix, d.as_str())
}

// ---------------------------------------------------------------------------
// The serial console log
// ---------------------------------------------------------------------------

/// What a console read from `offset` gives, with the log's bytes (`None`
/// when there is no log yet): the bytes from `offset` on, and the offset to
/// read from next, which is the log's length.
pub open spec fn console_chunk(log: Option<Seq<u8>>, offset: nat) -> (Seq<u8>, nat) {
    match log {
        None => (Seq::empty(), 0),
        Some(c) => if offset >= c.len() {
            (Seq::empty(), c.len())
        } else {
            (c.skip(offset as int), c.len())
        },
    }
}

/// The part of the console log past `offset`, and the next offset.
pub fn read_console_from(log: Option<&Vec<u8>>, offset: u64) -> (r: (Vec<u8>, u64))
    ensures
        (r.0@, r.1 as nat) == console_chunk(
            match log {
                Some(c) => Some(c@),
                None => None,
            },
            offset as nat,
        ),
{
    match log {
        None => (Vec::new(), 0),
        Some(c) => {
            let len = c.len() as u64;
            if offset >= len {
                return (Vec::new(), len);
            }
            let start = offset as usize;
            let mut out: Vec<u8> = Vec::new();
            let mut i: usize = start;
            while i < c.len()
                invariant
                    start <= i <= c.len(),
                    out@ == c@.subrange(start as int, i as int),
                decreases c.len() - i,
            {
                out.push(c[i]);
                proof {
                    assert(c@.subrange(start as int, i as int + 1) =~= c@.subrange(start as int, i as int).push(
                        c@[i as int],
                    ));
                }
                i = i + 1;
            }
            proof {
                assert(c@.subrange(start as int, i as int) =~= c@.skip(offset as int));
            }
            (out, len)
        },
    }
}

/// Reading the console in steps gives what one read gives: a read from
/// where the last one stopped, after the log grew by `extra`, returns
/// exactly the new bytes, and both end at the same offset.
pub proof fn law_console_reads_compose(log: Seq<u8>, extra: Seq<u8>, offset: nat)
    requires
        offset <= log.len(),
    ensures
        ({
            let first = console_chunk(Some(log), offset);
            let second = console_chunk(Some(log + extra), first.1);
            let whole = console_chunk(Some(log + extra), offset);
            &&& first.0 + second.0 == whole.0
            &&& second.1 == whole.1
        }),
{
    let first = console_chunk(Some(log), offset);
    let second = console_chunk(Some(log + extra), first.1);
    let whole = console_chunk(Some(log + extra), offset);
    if offset < log.len() {
        assert(first.0 + second.0 =~= whole.0);
    } else if extra.len() > 0 {
        assert(second.0 =~= whole.0);
        assert(first.0 + second.0 =~= whole.0);
    } else {
        assert(first.0 + second.0 =~= whole.0);
    }
}

/// The text that `String::from_utf8_lossy` makes of `bytes`: the bytes
/// decoded as UTF-8, each invalid sequence replaced by U+FFFD.
pub uninterp spec fn utf8_lossy(bytes: Seq<u8>) -> Seq<char>;

/// `String::from_utf8_lossy`, made owned. Its result is named by
/// `utf8_lossy`; for valid UTF-8 it is the decoded text, as std documents.
#[verifier::external_body]
fn lossy_string(bytes: &[u8]) -> (s: String)
    ensures
        s@ == utf8_lossy(bytes@),
        valid_utf8(bytes@) ==> s@ == decode_utf8(bytes@),
{
    String::from_utf8_lossy(bytes).into_owned()
}

/// What a console read from `offset` returns, with the log's bytes (`None`
/// when there is no log yet): the text of the bytes past `offset`, decoded
/// leniently, and the offset to read from next.
pub fn read_console_text(log: Option<&Vec<u8>>, offset: u64) -> (r: (String, u64))
    ensures
        ({
            let chunk = console_chunk(
                match log {
                    Some(c) => Some(c@),
                    None => None,
                },
                offset as nat,
            );
            &&& r.0@ == utf8_lossy(chunk.0)
            &&& valid_utf8(chunk.0) ==> r.0@ == decode_utf8(chunk.0)
            &&& r.1 as nat == chunk.1
        }),
{
    let (bytes, next) = read_console_from(log, offset);
    (lossy_string(bytes.as_slice()), next)
}

} // verus!
