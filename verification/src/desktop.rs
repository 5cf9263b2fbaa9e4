//! What the desktop app shows and sends: the records it hands to its web
//! view, and the values it derives for the Docker engine and the VM
//! backend.
//!
//! The Docker engine, the daemon and the window are the caller's part.
use vstd::prelude::*;
use crate::daemon::{
    WirePortForwardView, WireVmInfo, WireVmInfoView, core_forward_of, law_port_forward_wire_round_trip,
    wire_dirs_view, wire_forward_of, wire_forwards_view, wire_vm_of,
};
use crate::hypervisor::{
    PortForward, PortForwardView, SharedDirectory, SharedDirectoryView, VmConfig, VmInfo, VmInfoView,
    clone_opt_string, forwards_view, dirs_view, vm_state_name, vm_state_to_string,
};
use crate::images::{
    DownloadProgress, ImageStatus, OsImageEntry, OsImageEntryView, available_spec, entries_view,
    image_dir_spec, image_paths, is_image_ready, list_available_images, status_of,
};
use crate::store::{Platform, is_known_path, join, join_path, known_path};
use crate::text::{
    chars_of, clone_string, concat, decimal, decimal_string, owned, slice_vec, split_whitespace,
    string_of, strip_char, strip_char_vec, words,
};

verus! {

// ---------------------------------------------------------------------------
// Containers
// ---------------------------------------------------------------------------

/// A container as the container list shows it.
#[derive(Debug)]
pub struct ContainerInfo {
    pub id: String,
    pub name: String,
    pub image: String,
    pub state: String,
    pub status: String,
    pub ports: String,
}

/// What starting a container reports back.
#[derive(Debug)]
pub struct RunContainerResult {
    pub id: String,
    pub name: String,
    pub image: String,
    pub login_cmd: String,
}

/// The first twelve characters of a container or image id.
pub open spec fn short_id_spec(full: Seq<char>) -> Seq<char> {
    if full.len() <= 12 {
        full
    } else {
        full.take(12)
    }
}

pub fn short_id(full: &str) -> (r: String)
    ensures
        r@ == short_id_spec(full@),
{
    let v = chars_of(full);
    let end: usize = if v.len() <= 12 {
        v.len()
    } else {
        12
    };
    let s = slice_vec(&v, 0, end);
    proof {
        if v.len() <= 12 {
            assert(s@ =~= v@);
        } else {
            assert(s@ =~= v@.take(12));
        }
    }
    string_of(&s)
}

/// A published port as `public:private`.
pub open spec fn port_text(public: u16, private: u16) -> Seq<char> {
    decimal(public as nat) + ":"@ + decimal(private as nat)
}

/// The published ports of a container, `public:private` joined by `, `;
/// ports without a public side are left out.
pub open spec fn ports_text(ports: Seq<(Option<u16>, u16)>) -> Seq<char>
    decreases ports.len(),
{
    if ports.len() == 0 {
        Seq::empty()
    } else {
        let before = ports_text(ports.drop_last());
        match ports.last().0 {
            Some(p) => if before.len() == 0 {
                port_text(p, ports.last().1)
            } else {
                before + ", "@ + port_text(p, ports.last().1)
            },
            None => before,
        }
    }
}

pub fn container_ports(ports: &Vec<(Option<u16>, u16)>) -> (r: String)
    ensures
        r@ == ports_text(ports@),
{
    let mut out = String::new();
    let mut any = false;
    let mut i: usize = 0;
    while i < ports.len()
        invariant
            i <= ports.len(),
            out@ == ports_text(ports@.take(i as int)),
            any == (out@.len() > 0),
        decreases ports.len() - i,
    {
        proof {
            assert(ports@.take(i as int + 1).drop_last() =~= ports@.take(i as int));
        }
        let (public, private) = ports[i];
        if let Some(p) = public {
            let a = decimal_string(p as u64);
            let b = decimal_string(private as u64);
            let item = concat(concat(a.as_str(), ":").as_str(), b.as_str());
            if !any {
                out = item;
            } else {
                out = concat(concat(out.as_str(), ", ").as_str(), item.as_str());
            }
            proof {
                crate::text::lemma_decimal_len(p as nat);
            }
            any = true;
        }
        i = i + 1;
    }
    proof {
        assert(ports@.take(i as int) =~= ports@);
    }
    out
}

pub open spec fn or_empty(o: Option<String>) -> Seq<char> {
    match o {
        Some(s) => s@,
        None => Seq::empty(),
    }
}

/// The name a container is listed under: its first name without the
/// leading `/`s, empty when it has none.
pub open spec fn container_name_spec(names: Option<Seq<String>>) -> Seq<char> {
    match names {
        Some(n) => if n.len() > 0 {
            let s = n[0]@;
            s.skip(crate::text::leading_run(s, '/') as int)
        } else {
            Seq::empty()
        },
        None => Seq::empty(),
    }
}

fn without_leading_slashes(s: &str) -> (r: String)
    ensures
        r@ == s@.skip(crate::text::leading_run(s@, '/') as int),
{
    let v = chars_of(s);
    let mut start: usize = 0;
    while start < v.len() && v[start] == '/'
        invariant
            start <= v.len(),
            forall|j: int| 0 <= j < start ==> v@[j] == '/',
        decreases v.len() - start,
    {
        start = start + 1;
    }
    proof {
        crate::text::lemma_leading_run_is(v@, '/', start as int);
    }
    let t = slice_vec(&v, start, v.len());
    proof {
        assert(t@ =~= v@.skip(start as int));
    }
    string_of(&t)
}

fn take_or_empty(o: Option<String>) -> (r: String)
    ensures
        r@ == or_empty(o),
{
    match o {
        Some(s) => s,
        None => String::new(),
    }
}

/// The list entry for a container, from what the engine reports of it;
/// every absent field reads as empty.
pub fn container_info(
    id: Option<String>,
    names: Option<Vec<String>>,
    image: Option<String>,
    state: Option<String>,
    status: Option<String>,
    ports: Option<Vec<(Option<u16>, u16)>>,
) -> (c: ContainerInfo)
    ensures
        c.id@ == short_id_spec(or_empty(id)),
        c.name@ == container_name_spec(
            match names {
                Some(n) => Some(n@),
                None => None,
            },
        ),
        c.image@ == or_empty(image),
        c.state@ == or_empty(state),
        c.status@ == or_empty(status),
        c.ports@ == match ports {
            Some(p) => ports_text(p@),
            None => Seq::empty(),
        },
{
    let full = take_or_empty(id);
    let name = match &names {
        Some(n) => {
            if n.len() > 0 {
                without_leading_slashes(n[0].as_str())
            } else {
                String::new()
            }
        },
        None => String::new(),
    };
    let ports_s = match &ports {
        Some(p) => container_ports(p),
        None => String::new(),
    };
    ContainerInfo {
        id: short_id(full.as_str()),
        name,
        image: take_or_empty(image),
        state: take_or_empty(state),
        status: take_or_empty(status),
        ports: ports_s,
    }
}

/// The command that opens a shell in a container.
pub fn container_login_cmd(container: &str, shell: &str) -> (r: String)
    ensures
        r@ == "docker exec -it "@ + container@ + " "@ + shell@,
{
    let a = concat("docker exec -it ", container);
    let b = concat(a.as_str(), " ");
    concat(b.as_str(), shell)
}

/// What starting a container reports: its short id, the name it was given
/// (else the short id), its image and the command to log into it.
pub fn run_container_result(full_id: &str, name: Option<String>, image: String) -> (r:
    RunContainerResult)
    ensures
        r.id@ == short_id_spec(full_id@),
        r.name@ == match name {
            Some(n) => n@,
            None => short_id_spec(full_id@),
        },
        r.image@ == image@,
        r.login_cmd@ == "docker exec -it "@ + r.name@ + " /bin/sh"@,
{
    let id = short_id(full_id);
    let display = match name {
        Some(n) => n,
        None => clone_string(&id),
    };
    let login_cmd = container_login_cmd(display.as_str(), "/bin/sh");
    proof {
        reveal_strlit(" ");
        reveal_strlit("/bin/sh");
        reveal_strlit(" /bin/sh");
        assert(login_cmd@ =~= "docker exec -it "@ + display@ + " /bin/sh"@);
    }
    RunContainerResult { id, name: display, image, login_cmd }
}

/// The engine's CPU quota for `cpus` CPUs, in billionths of a CPU.
pub fn nano_cpus(cpus: u32) -> (r: i64)
    ensures
        r == cpus * 1_000_000_000,
{
    cpus as i64 * 1_000_000_000
}

/// `x` clamped to the range of `i64`.
pub open spec fn clamp_i64(x: int) -> int {
    if x > i64::MAX {
        i64::MAX as int
    } else if x < i64::MIN {
        i64::MIN as int
    } else {
        x
    }
}

/// The `i64` with the same 64 bits as `n`.
pub open spec fn as_signed(n: u64) -> int {
    if n <= i64::MAX {
        n as int
    } else {
        n - 0x1_0000_0000_0000_0000
    }
}

fn reinterpret(n: u64) -> (r: i64)
    ensures
        r == as_signed(n),
{
    if n <= i64::MAX as u64 {
        n as i64
    } else {
        let back: u64 = u64::MAX - n;
        -(back as i64) - 1
    }
}

fn saturating_times_1024(x: i64) -> (r: i64)
    ensures
        r == clamp_i64(x * 1024),
{
    if x > i64::MAX / 1024 {
        i64::MAX
    } else if x < i64::MIN / 1024 {
        i64::MIN
    } else {
        x * 1024
    }
}

/// The engine's memory limit in bytes for `memory_mb` MiB: the MiB count
/// read as an `i64`, multiplied by 1024 twice with saturation.
pub fn memory_limit_bytes(memory_mb: u64) -> (r: i64)
    ensures
        r == clamp_i64(clamp_i64(as_signed(memory_mb) * 1024) * 1024),
{
    let m = reinterpret(memory_mb);
    saturating_times_1024(saturating_times_1024(m))
}

/// The `DOCKER_HOST` value for the `docker` command line: the variable
/// when it is set, else the detected socket under `unix://` where sockets
/// are used.
pub fn docker_host_for_cli(docker_host: Option<&str>, unix: bool, socket: Option<&str>) -> (r: Option<
    String,
>)
    ensures
        match docker_host {
            Some(h) => r matches Some(s) && s@ == h@,
            None => if unix && socket is Some {
                r matches Some(s) && s@ == "unix://"@ + socket->0@
            } else {
                r is None
            },
        },
{
    match docker_host {
        Some(h) => Some(owned(h)),
        None => {
            if unix {
                match socket {
                    Some(s) => Some(concat("unix://", s)),
                    None => None,
                }
            } else {
                None
            }
        },
    }
}

/// The command that opens a shell in a container from a terminal, with
/// `DOCKER_HOST` set when the app knows one.
pub fn container_exec_interactive_cmd(container_id: &str, docker_host: Option<&str>) -> (r: String)
    ensures
        r@ == match docker_host {
            Some(h) => "DOCKER_HOST="@ + h@ + " docker exec -it "@ + container_id@ + " /bin/sh"@,
            None => "docker exec -it "@ + container_id@ + " /bin/sh"@,
        },
{
    let cmd = container_login_cmd(container_id, "/bin/sh");
    proof {
        reveal_strlit(" ");
        reveal_strlit("/bin/sh");
        reveal_strlit(" /bin/sh");
        reveal_strlit("docker exec -it ");
        reveal_strlit(" docker exec -it ");
        assert(cmd@ =~= "docker exec -it "@ + container_id@ + " /bin/sh"@);
    }
    match docker_host {
        Some(h) => {
            let a = concat("DOCKER_HOST=", h);
            let b = concat(a.as_str(), " ");
            let r = concat(b.as_str(), cmd.as_str());
            proof {
                assert(r@ =~= "DOCKER_HOST="@ + h@ + " docker exec -it "@ + container_id@ + " /bin/sh"@);
            }
            r
        },
        None => cmd,
    }
}

/// The argument vector that a command typed into the container console runs
/// as: its whitespace-separated words. A command with no word in it is
/// refused with "Empty command".
pub fn container_exec_command(command: &str) -> (r: Result<Vec<String>, String>)
    ensures
        match r {
            Ok(parts) => words(command@).len() > 0 && parts@.map_values(|w: String| w@) == words(command@),
            Err(e) => words(command@).len() == 0 && e@ == "Empty command"@,
        },
{
    let parts = split_whitespace(command);
    if parts.len() == 0 {
        Err(owned("Empty command"))
    } else {
        Ok(parts)
    }
}

// ---------------------------------------------------------------------------
// The tray menu
// ---------------------------------------------------------------------------

/// An entry of the tray menu.
#[derive(Debug)]
pub enum TrayEntry {
    Item { id: String, label: String, enabled: bool },
    Separator,
}

pub open spec fn is_item(e: TrayEntry, id: Seq<char>, label: Seq<char>, enabled: bool) -> bool {
    e matches TrayEntry::Item { id: i, label: l, enabled: en } && i@ == id && l@ == label && en == enabled
}

fn tray_item(id: &str, label: String, enabled: bool) -> (e: TrayEntry)
    ensures
        is_item(e, id@, label@, enabled),
{
    TrayEntry::Item { id: owned(id), label, enabled }
}

/// The tray menu for the given numbers of running containers and VMs: a
/// disabled title, the dashboard entry, the two counts (disabled) and the
/// quit entry, with separators after the title and before quit.
pub fn tray_menu_entries(running_containers: u64, running_vms: u64) -> (r: Vec<TrayEntry>)
    ensures
        r@.len() == 7,
        is_item(r@[0], "title"@, "CargoBay"@, false),
        r@[1] is Separator,
        is_item(r@[2], "dashboard"@, "Dashboard"@, true),
        is_item(r@[3], "containers"@, "Containers ("@ + decimal(running_containers as nat) + " running)"@, false),
        is_item(r@[4], "vms"@, "VMs ("@ + decimal(running_vms as nat) + " running)"@, false),
        r@[5] is Separator,
        is_item(r@[6], "quit"@, "Quit CargoBay"@, true),
{
    let mut r: Vec<TrayEntry> = Vec::new();
    r.push(tray_item("title", owned("CargoBay"), false));
    r.push(TrayEntry::Separator);
    r.push(tray_item("dashboard", owned("Dashboard"), true));
    let c = concat(concat("Containers (", decimal_string(running_containers).as_str()).as_str(), " running)");
    r.push(tray_item("containers", c, false));
    let v = concat(concat("VMs (", decimal_string(running_vms).as_str()).as_str(), " running)");
    r.push(tray_item("vms", v, false));
    r.push(TrayEntry::Separator);
    r.push(tray_item("quit", owned("Quit CargoBay"), true));
    r
}

// ---------------------------------------------------------------------------
// Registry search results
// ---------------------------------------------------------------------------

/// A search result as the image search shows it.
#[derive(Debug)]
pub struct ImageSearchResult {
    pub source: String,
    pub reference: String,
    pub description: String,
    pub stars: Option<u64>,
    pub pulls: Option<u64>,
    pub official: bool,
}

/// A Docker Hub search result: its reference from namespace and name, an
/// absent description as empty, an absent official flag as `false`.
pub fn dockerhub_search_result(
    namespace: Option<&str>,
    name: &str,
    description: Option<String>,
    stars: Option<u64>,
    pulls: Option<u64>,
    official: Option<bool>,
) -> (r: ImageSearchResult)
    ensures
        r.source@ == "dockerhub"@,
        r.reference@ == crate::cli::dockerhub_reference_spec(crate::cli::opt_view(namespace), name@),
        r.description@ == or_empty(description),
        r.stars == stars,
        r.pulls == pulls,
        r.official == (official == Some(true)),
{
    ImageSearchResult {
        source: owned("dockerhub"),
        reference: crate::cli::dockerhub_reference(namespace, name),
        description: take_or_empty(description),
        stars,
        pulls,
        official: match official {
            Some(b) => b,
            None => false,
        },
    }
}

/// A Quay search result; Quay reports no pulls and no official flag.
pub fn quay_search_result(
    name: Option<&str>,
    namespace: Option<&str>,
    repo_name: Option<&str>,
    description: &str,
    stars: Option<u64>,
) -> (r: ImageSearchResult)
    ensures
        r.source@ == "quay"@,
        r.reference@ == crate::cli::quay_reference_spec(
            crate::cli::opt_view(name),
            crate::cli::opt_view(namespace),
            crate::cli::opt_view(repo_name),
        ),
        r.description@ == description@,
        r.stars == stars,
        r.pulls is None,
        !r.official,
{
    ImageSearchResult {
        source: owned("quay"),
        reference: crate::cli::quay_reference(name, namespace, repo_name),
        description: owned(description),
        stars,
        pulls: None,
        official: false,
    }
}

// ---------------------------------------------------------------------------
// OS images
// ---------------------------------------------------------------------------

/// An OS image as the image catalog shows it.
#[derive(Debug)]
pub struct OsImageDto {
    pub id: String,
    pub name: String,
    pub version: String,
    pub arch: String,
    pub size_bytes: u64,
    pub status: String,
    pub default_cmdline: String,
}

/// The progress of an OS image download as the app shows it.
#[derive(Debug)]
pub struct OsImageDownloadProgressDto {
    pub image_id: String,
    pub current_file: String,
    pub bytes_downloaded: u64,
    pub bytes_total: u64,
    pub done: bool,
    pub error: Option<String>,
}

/// The status text of an image: `not_downloaded`, `downloading`, `ready`.
pub open spec fn status_text(s: ImageStatus) -> Seq<char> {
    match s {
        ImageStatus::NotDownloaded => "not_downloaded"@,
        ImageStatus::Downloading => "downloading"@,
        ImageStatus::Ready => "ready"@,
    }
}

pub open spec fn os_image_dto_matches(d: OsImageDto, e: OsImageEntryView) -> bool {
    &&& d.id@ == e.id
    &&& d.name@ == e.name
    &&& d.version@ == e.version
    &&& d.arch@ == e.arch
    &&& d.size_bytes == e.size_bytes
    &&& d.status@ == status_text(e.status)
    &&& d.default_cmdline@ == e.default_cmdline
}

pub fn os_image_dto(e: OsImageEntry) -> (d: OsImageDto)
    ensures
        os_image_dto_matches(d, e@),
{
    let status = crate::images::image_status_name(e.status);
    OsImageDto {
        id: e.id,
        name: e.name,
        version: e.version,
        arch: e.arch,
        size_bytes: e.size_bytes,
        status,
        default_cmdline: e.default_cmdline,
    }
}

/// The image catalog with each entry's recorded status.
pub fn image_catalog(recorded: &Vec<(String, ImageStatus)>) -> (r: Vec<OsImageDto>)
    ensures
        r@.len() == available_spec(recorded@).len(),
        forall|i: int|
            0 <= i < r@.len() ==> os_image_dto_matches(#[trigger] r@[i], available_spec(recorded@)[i]),
{
    let entries = list_available_images(recorded);
    let ghost ev = entries_view(entries@);
    let mut out: Vec<OsImageDto> = Vec::new();
    let mut i: usize = 0;
    while i < entries.len()
        invariant
            ev == entries_view(entries@),
            i <= entries.len(),
            out@.len() == i,
            forall|j: int| 0 <= j < i ==> os_image_dto_matches(#[trigger] out@[j], ev[j]),
        decreases entries.len() - i,
    {
        let e = entries[i].duplicate();
        out.push(os_image_dto(e));
        i = i + 1;
    }
    out
}

/// The download progress of an image as the app shows it.
pub fn image_download_status(p: DownloadProgress) -> (d: OsImageDownloadProgressDto)
    ensures
        d.image_id@ == p.image_id@,
        d.current_file@ == p.current_file@,
        d.bytes_downloaded == p.bytes_downloaded,
        d.bytes_total == p.bytes_total,
        d.done == p.done,
        d.error == p.error,
{
    OsImageDownloadProgressDto {
        image_id: p.image_id,
        current_file: p.current_file,
        bytes_downloaded: p.bytes_downloaded,
        bytes_total: p.bytes_total,
        done: p.done,
        error: p.error,
    }
}

// ---------------------------------------------------------------------------
// VMs
// ---------------------------------------------------------------------------

/// A port forward as the app shows it.
#[derive(Debug)]
pub struct PortForwardDto {
    pub host_port: u16,
    pub guest_port: u16,
    pub protocol: String,
}

/// A shared directory as the app shows it.
#[derive(Debug)]
pub struct SharedDirectoryDto {
    pub tag: String,
    pub host_path: String,
    pub guest_path: String,
    pub read_only: bool,
}

/// A VM as the app shows it.
#[derive(Debug)]
pub struct VmInfoDto {
    pub id: String,
    pub name: String,
    pub state: String,
    pub cpus: u32,
    pub memory_mb: u64,
    pub disk_gb: u64,
    pub rosetta_enabled: bool,
    pub mounts: Vec<SharedDirectoryDto>,
    pub port_forwards: Vec<PortForwardDto>,
}

pub struct VmInfoDtoView {
    pub id: Seq<char>,
    pub name: Seq<char>,
    pub state: Seq<char>,
    pub cpus: u32,
    pub memory_mb: u64,
    pub disk_gb: u64,
    pub rosetta_enabled: bool,
    pub mounts: Seq<SharedDirectoryView>,
    pub port_forwards: Seq<PortForwardView>,
}

pub open spec fn dto_view(d: VmInfoDto) -> VmInfoDtoView {
    VmInfoDtoView {
        id: d.id@,
        name: d.name@,
        state: d.state@,
        cpus: d.cpus,
        memory_mb: d.memory_mb,
        disk_gb: d.disk_gb,
        rosetta_enabled: d.rosetta_enabled,
        mounts: d.mounts@.map_values(|m: SharedDirectoryDto| dir_dto_view(m)),
        port_forwards: d.port_forwards@.map_values(|p: PortForwardDto| forward_dto_view(p)),
    }
}

/// What the app shows of a VM it read from the local hypervisor.
pub open spec fn dto_of_info(v: VmInfoView) -> VmInfoDtoView {
    VmInfoDtoView {
        id: v.id,
        name: v.name,
        state: vm_state_name(v.state),
        cpus: v.cpus,
        memory_mb: v.memory_mb,
        disk_gb: v.disk_gb,
        rosetta_enabled: v.rosetta_enabled,
        mounts: v.shared_dirs,
        port_forwards: v.port_forwards,
    }
}

/// What the app shows of a VM the daemon listed.
pub open spec fn dto_of_wire(w: WireVmInfoView) -> VmInfoDtoView {
    VmInfoDtoView {
        id: w.vm_id,
        name: w.name,
        state: w.status,
        cpus: w.cpus,
        memory_mb: w.memory_mb,
        disk_gb: w.disk_gb,
        rosetta_enabled: w.rosetta_enabled,
        mounts: w.shared_dirs,
        port_forwards: w.port_forwards.map_values(|p: WirePortForwardView| core_forward_of(p)),
    }
}

pub open spec fn dir_dto_view(d: SharedDirectoryDto) -> SharedDirectoryView {
    SharedDirectoryView {
        tag: d.tag@,
        host_path: d.host_path@,
        guest_path: d.guest_path@,
        read_only: d.read_only,
    }
}

pub open spec fn forward_dto_view(p: PortForwardDto) -> PortForwardView {
    PortForwardView { host_port: p.host_port, guest_port: p.guest_port, protocol: p.protocol@ }
}

pub fn shared_directory_dto(d: SharedDirectory) -> (r: SharedDirectoryDto)
    ensures
        dir_dto_view(r) == d@,
{
    SharedDirectoryDto {
        tag: d.tag,
        host_path: d.host_path,
        guest_path: d.guest_path,
        read_only: d.read_only,
    }
}

pub fn port_forward_dto(p: PortForward) -> (r: PortForwardDto)
    ensures
        forward_dto_view(r) == p@,
{
    PortForwardDto { host_port: p.host_port, guest_port: p.guest_port, protocol: p.protocol }
}

/// The VM record as the app shows it: its state in lowercase.
pub fn vm_info_dto(vm: VmInfo) -> (d: VmInfoDto)
    ensures
        d.id@ == vm.id@,
        d.name@ == vm.name@,
        d.state@ == vm_state_name(vm.state),
        d.cpus == vm.cpus,
        d.memory_mb == vm.memory_mb,
        d.disk_gb == vm.disk_gb,
        d.rosetta_enabled == vm.rosetta_enabled,
        d.mounts@.map_values(|m: SharedDirectoryDto| dir_dto_view(m)) == dirs_view(vm.shared_dirs@),
        d.port_forwards@.map_values(|p: PortForwardDto| forward_dto_view(p)) == forwards_view(
            vm.port_forwards@,
        ),
        dto_view(d) == dto_of_info(vm@),
{
    let ghost dirs = dirs_view(vm.shared_dirs@);
    let ghost fwds = forwards_view(vm.port_forwards@);
    let mut mounts: Vec<SharedDirectoryDto> = Vec::new();
    let mut i: usize = 0;
    while i < vm.shared_dirs.len()
        invariant
            dirs == dirs_view(vm.shared_dirs@),
            i <= vm.shared_dirs.len(),
            mounts@.map_values(|m: SharedDirectoryDto| dir_dto_view(m)) == dirs.take(i as int),
        decreases vm.shared_dirs.len() - i,
    {
        let m = shared_directory_dto(vm.shared_dirs[i].duplicate());
        let ghost before = mounts@;
        proof {
            assert(dir_dto_view(m) == dirs[i as int]);
        }
        mounts.push(m);
        proof {
            assert(mounts@.map_values(|m: SharedDirectoryDto| dir_dto_view(m)) =~= before.map_values(
                |m: SharedDirectoryDto| dir_dto_view(m),
            ).push(dir_dto_view(m)));
            assert(dirs.take(i as int + 1) =~= dirs.take(i as int).push(dirs[i as int]));
        }
        i = i + 1;
    }
    let mut forwards: Vec<PortForwardDto> = Vec::new();
    let mut j: usize = 0;
    while j < vm.port_forwards.len()
        invariant
            fwds == forwards_view(vm.port_forwards@),
            j <= vm.port_forwards.len(),
            forwards@.map_values(|p: PortForwardDto| forward_dto_view(p)) == fwds.take(j as int),
        decreases vm.port_forwards.len() - j,
    {
        let p = port_forward_dto(vm.port_forwards[j].duplicate());
        let ghost before = forwards@;
        proof {
            assert(forward_dto_view(p) == fwds[j as int]);
        }
        forwards.push(p);
        proof {
            assert(forwards@.map_values(|p: PortForwardDto| forward_dto_view(p)) =~= before.map_values(
                |p: PortForwardDto| forward_dto_view(p),
            ).push(forward_dto_view(p)));
            assert(fwds.take(j as int + 1) =~= fwds.take(j as int).push(fwds[j as int]));
        }
        j = j + 1;
    }
    proof {
        assert(dirs.take(i as int) =~= dirs);
        assert(fwds.take(j as int) =~= fwds);
    }
    VmInfoDto {
        id: vm.id,
        name: vm.name,
        state: vm_state_to_string(vm.state),
        cpus: vm.cpus,
        memory_mb: vm.memory_mb,
        disk_gb: vm.disk_gb,
        rosetta_enabled: vm.rosetta_enabled,
        mounts,
        port_forwards: forwards,
    }
}

/// A VM the daemon listed, as the app shows it.
pub fn vm_info_dto_from_wire(vm: WireVmInfo) -> (d: VmInfoDto)
    ensures
        dto_view(d) == dto_of_wire(vm@),
{
    let ghost dirs = wire_dirs_view(vm.shared_dirs@);
    let ghost fwds = vm@.port_forwards.map_values(|p: WirePortForwardView| core_forward_of(p));
    let mut mounts: Vec<SharedDirectoryDto> = Vec::new();
    let mut i: usize = 0;
    while i < vm.shared_dirs.len()
        invariant
            dirs == wire_dirs_view(vm.shared_dirs@),
            i <= vm.shared_dirs.len(),
            mounts@.map_values(|m: SharedDirectoryDto| dir_dto_view(m)) == dirs.take(i as int),
        decreases vm.shared_dirs.len() - i,
    {
        let w = &vm.shared_dirs[i];
        let m = SharedDirectoryDto {
            tag: clone_string(&w.tag),
            host_path: clone_string(&w.host_path),
            guest_path: clone_string(&w.guest_path),
            read_only: w.read_only,
        };
        let ghost before = mounts@;
        mounts.push(m);
        proof {
            assert(dir_dto_view(m) == dirs[i as int]);
            assert(mounts@.map_values(|m: SharedDirectoryDto| dir_dto_view(m)) =~= before.map_values(
                |m: SharedDirectoryDto| dir_dto_view(m),
            ).push(dir_dto_view(m)));
            assert(dirs.take(i as int + 1) =~= dirs.take(i as int).push(dirs[i as int]));
        }
        i = i + 1;
    }
    let mut forwards: Vec<PortForwardDto> = Vec::new();
    let mut j: usize = 0;
    while j < vm.port_forwards.len()
        invariant
            fwds == vm@.port_forwards.map_values(|p: WirePortForwardView| core_forward_of(p)),
            vm@.port_forwards == wire_forwards_view(vm.port_forwards@),
            j <= vm.port_forwards.len(),
            forwards@.map_values(|p: PortForwardDto| forward_dto_view(p)) == fwds.take(j as int),
        decreases vm.port_forwards.len() - j,
    {
        let w = &vm.port_forwards[j];
        let p = PortForwardDto {
            host_port: #[verifier::truncate] (w.host_port as u16),
            guest_port: #[verifier::truncate] (w.guest_port as u16),
            protocol: clone_string(&w.protocol),
        };
        let ghost before = forwards@;
        forwards.push(p);
        proof {
            assert(forward_dto_view(p) == fwds[j as int]);
            assert(forwards@.map_values(|p: PortForwardDto| forward_dto_view(p)) =~= before.map_values(
                |p: PortForwardDto| forward_dto_view(p),
            ).push(forward_dto_view(p)));
            assert(fwds.take(j as int + 1) =~= fwds.take(j as int).push(fwds[j as int]));
        }
        j = j + 1;
    }
    proof {
        assert(dirs.take(i as int) =~= dirs);
        assert(fwds.take(j as int) =~= fwds);
    }
    VmInfoDto {
        id: vm.vm_id,
        name: vm.name,
        state: vm.status,
        cpus: vm.cpus,
        memory_mb: vm.memory_mb,
        disk_gb: vm.disk_gb,
        rosetta_enabled: vm.rosetta_enabled,
        mounts,
        port_forwards: forwards,
    }
}

/// The app shows a VM the same whether the daemon listed it or the local
/// hypervisor did.
pub proof fn law_daemon_listing_matches_local(v: VmInfoView)
    ensures
        dto_of_wire(wire_vm_of(v)) == dto_of_info(v),
{
    let fs = v.port_forwards.map_values(|p: PortForwardView| wire_forward_of(p));
    let back = fs.map_values(|p: WirePortForwardView| core_forward_of(p));
    assert forall|i: int| 0 <= i < v.port_forwards.len() implies back[i] == v.port_forwards[i] by {
        law_port_forward_wire_round_trip(v.port_forwards[i]);
    }
    assert(back =~= v.port_forwards);
}

/// The configuration of a VM created from the app or the command line:
/// no shares and no port forwards; an OS image must be ready, and then
/// gives the kernel, initrd and disk paths.
pub open spec fn vm_create_config_spec(
    c: VmConfig,
    name: Seq<char>,
    cpus: u32,
    memory_mb: u64,
    disk_gb: u64,
    rosetta: bool,
    os_image: Option<Seq<char>>,
    data_dir: Seq<char>,
) -> bool {
    &&& c.name@ == name
    &&& c.cpus == cpus
    &&& c.memory_mb == memory_mb
    &&& c.disk_gb == disk_gb
    &&& c.rosetta == rosetta
    &&& c.shared_dirs@.len() == 0
    &&& c.port_forwards@.len() == 0
    &&& crate::hypervisor::opt_view(c.os_image) == os_image
    &&& match os_image {
        Some(id) => {
            &&& c.kernel_path matches Some(k) && k@ == join(image_dir_spec(data_dir, id), "vmlinuz"@)
            &&& c.initrd_path matches Some(k) && k@ == join(image_dir_spec(data_dir, id), "initramfs"@)
            &&& c.disk_path matches Some(k) && k@ == join(image_dir_spec(data_dir, id), "rootfs.img"@)
        },
        None => c.kernel_path is None && c.initrd_path is None && c.disk_path is None,
    }
}

pub fn vm_create_config(
    name: String,
    cpus: u32,
    memory_mb: u64,
    disk_gb: u64,
    rosetta: bool,
    os_image: Option<String>,
    data_dir: &str,
    recorded: &Vec<(String, ImageStatus)>,
) -> (r: Result<VmConfig, String>)
    ensures
        match os_image {
            Some(id) if status_of(recorded@, id@) != ImageStatus::Ready => r matches Err(m) && m@
                == "OS image '"@ + id@ + "' is not downloaded yet"@,
            _ => r matches Ok(c) && vm_create_config_spec(
                c,
                name@,
                cpus,
                memory_mb,
                disk_gb,
                rosetta,
                crate::hypervisor::opt_view(os_image),
                data_dir@,
            ),
        },
{
    let (kernel_path, initrd_path, disk_path) = match &os_image {
        Some(id) => {
            if !is_image_ready(id.as_str(), recorded) {
                let a = concat("OS image '", id.as_str());
                return Err(concat(a.as_str(), "' is not downloaded yet"));
            }
            let paths = image_paths(data_dir, id.as_str());
            (Some(paths.kernel_path), Some(paths.initrd_path), Some(paths.rootfs_path))
        },
        None => (None, None, None),
    };
    Ok(
        VmConfig {
            name,
            cpus,
            memory_mb,
            disk_gb,
            rosetta,
            shared_dirs: Vec::new(),
            os_image,
            kernel_path,
            initrd_path,
            disk_path,
            port_forwards: Vec::new(),
        },
    )
}

/// The protocol of a port forward added from the app: `tcp` when none is
/// given.
pub fn forward_protocol(protocol: &str) -> (r: String)
    ensures
        r@ == if protocol@.len() == 0 {
            "tcp"@
        } else {
            protocol@
        },
{
    if chars_of(protocol).len() == 0 {
        owned("tcp")
    } else {
        owned(protocol)
    }
}

// ---------------------------------------------------------------------------
// Starting the daemon
// ---------------------------------------------------------------------------

/// Which daemon executable the app starts.
#[derive(Debug)]
pub enum DaemonLaunch {
    /// The one `CARGOBAY_DAEMON_PATH` names.
    FromEnv(String),
    /// The one next to the app's executable.
    NextToApp(String),
    /// `cargobay-daemon` found through `PATH`; `tried` is the place next to
    /// the app that was looked at first, when the app's directory is known.
    FromPath { tried: Option<String> },
}

/// Chooses the daemon executable: `CARGOBAY_DAEMON_PATH` when set, else
/// the daemon next to the app when that file exists, else the one on
/// `PATH`.
pub fn daemon_launch(env_path: Option<&str>, exe_dir: Option<&str>, existing: &Vec<String>, platform: Platform) -> (r:
    DaemonLaunch)
    ensures
        match env_path {
            Some(p) => r matches DaemonLaunch::FromEnv(x) && x@ == p@,
            None => match exe_dir {
                Some(d) => {
                    let c = join(
                        d@,
                        if platform == Platform::Windows {
                            "cargobay-daemon.exe"@
                        } else {
                            "cargobay-daemon"@
                        },
                    );
                    if known_path(existing@, c) {
                        r matches DaemonLaunch::NextToApp(x) && x@ == c
                    } else {
                        r matches DaemonLaunch::FromPath { tried: Some(t) } && t@ == c
                    }
                },
                None => r matches DaemonLaunch::FromPath { tried: None },
            },
        },
{
    if let Some(p) = env_path {
        return DaemonLaunch::FromEnv(owned(p));
    }
    match exe_dir {
        Some(d) => {
            let c = join_path(d, crate::cli::daemon_file_name(platform));
            if is_known_path(existing, c.as_str()) {
                DaemonLaunch::NextToApp(c)
            } else {
                DaemonLaunch::FromPath { tried: Some(c) }
            }
        },
        None => DaemonLaunch::FromPath { tried: None },
    }
}

/// What the app reports when the daemon it chose does not start.
pub open spec fn daemon_spawn_message(l: DaemonLaunch, reason: Seq<char>) -> Seq<char> {
    match l {
        DaemonLaunch::FromEnv(p) => "Failed to spawn daemon from CARGOBAY_DAEMON_PATH ("@ + p@ + "): "@ + reason,
        DaemonLaunch::NextToApp(c) => "Failed to spawn daemon next to GUI binary ("@ + c@ + "): "@ + reason,
        DaemonLaunch::FromPath { tried } => "Failed to spawn daemon (tried: "@ + match tried {
            Some(t) => t@ + ", "@,
            None => Seq::empty(),
        } + "cargobay-daemon (PATH)): "@ + reason,
    }
}

pub fn daemon_spawn_error(l: &DaemonLaunch, reason: &str) -> (m: String)
    ensures
        m@ == daemon_spawn_message(*l, reason@),
{
    match l {
        DaemonLaunch::FromEnv(p) => {
            let a = concat("Failed to spawn daemon from CARGOBAY_DAEMON_PATH (", p.as_str());
            let a = concat(a.as_str(), "): ");
            concat(a.as_str(), reason)
        },
        DaemonLaunch::NextToApp(c) => {
            let a = concat("Failed to spawn daemon next to GUI binary (", c.as_str());
            let a = concat(a.as_str(), "): ");
            concat(a.as_str(), reason)
        },
        DaemonLaunch::FromPath { tried } => {
            let a = match tried {
                Some(t) => {
                    let x = concat("Failed to spawn daemon (tried: ", t.as_str());
                    concat(x.as_str(), ", ")
                },
                None => owned("Failed to spawn daemon (tried: "),
            };
            let a = concat(a.as_str(), "cargobay-daemon (PATH)): ");
            let r = concat(a.as_str(), reason);
            proof {
                reveal_strlit("Failed to spawn daemon (tried: ");
                assert(r@ =~= daemon_spawn_message(*l, reason@));
            }
            r
        },
    }
}

} // verus!
