//! How the daemon's VM service answers: the status it reports for a
//! hypervisor error, and the VM a request names.
//!
//! The gRPC transport is the caller's part.
use vstd::prelude::*;
use crate::cli::{select_vm, selected_vm_id};
use crate::hypervisor::{
    HypervisorError, PortForward, PortForwardView, SharedDirectory, SharedDirectoryView, VmInfo,
    VmInfoView, dirs_view, forwards_view, infos_view, vm_state_name, vm_state_to_string,
};
use crate::text::{clone_string, concat, owned, str_eq};

verus! {

/// The gRPC status codes the service answers with.
#[derive(Debug, Clone, Copy, PartialEq, Eq, Structural)]
pub enum StatusCode {
    NotFound,
    Unimplemented,
    FailedPrecondition,
    Internal,
    InvalidArgument,
}

/// A gRPC status: its code and message.
#[derive(Debug)]
pub struct RpcStatus {
    pub code: StatusCode,
    pub message: String,
}

/// The status that answers a hypervisor error.
pub open spec fn status_of_error(err: HypervisorError) -> (StatusCode, Seq<char>) {
    match err {
        HypervisorError::NotFound(id) => (StatusCode::NotFound, "VM not found: "@ + id@),
        HypervisorError::Unsupported => (StatusCode::Unimplemented, "unsupported platform"@),
        HypervisorError::RosettaUnavailable(m) => (StatusCode::FailedPrecondition, m@),
        HypervisorError::VirtioFsError(m) => (StatusCode::FailedPrecondition, m@),
        HypervisorError::CreateFailed(m) => (StatusCode::FailedPrecondition, m@),
        HypervisorError::Storage(m) => (StatusCode::Internal, "storage error: "@ + m@),
        HypervisorError::Io(m) => (StatusCode::Internal, "io error: "@ + m@),
    }
}

pub fn status_from_error(err: HypervisorError) -> (s: RpcStatus)
    ensures
        (s.code, s.message@) == status_of_error(err),
{
    match err {
        HypervisorError::NotFound(id) => RpcStatus {
            code: StatusCode::NotFound,
            message: concat("VM not found: ", id.as_str()),
        },
        HypervisorError::Unsupported => RpcStatus {
            code: StatusCode::Unimplemented,
            message: owned("unsupported platform"),
        },
        HypervisorError::RosettaUnavailable(m) => RpcStatus {
            code: StatusCode::FailedPrecondition,
            message: m,
        },
        HypervisorError::VirtioFsError(m) => RpcStatus {
            code: StatusCode::FailedPrecondition,
            message: m,
        },
        HypervisorError::CreateFailed(m) => RpcStatus {
            code: StatusCode::FailedPrecondition,
            message: m,
        },
        HypervisorError::Storage(m) => RpcStatus {
            code: StatusCode::Internal,
            message: concat("storage error: ", m.as_str()),
        },
        HypervisorError::Io(m) => RpcStatus {
            code: StatusCode::Internal,
            message: concat("io error: ", m.as_str()),
        },
    }
}

/// The id of the VM that a request's selector names; `NotFound` otherwise.
pub fn resolve_vm_id(vms: &Vec<VmInfo>, selector: &str) -> (r: Result<String, RpcStatus>)
    ensures
        match selected_vm_id(infos_view(vms@), selector@) {
            Some(id) => r matches Ok(x) && x@ == id,
            None => r matches Err(s) && s.code == StatusCode::NotFound && s.message@
                == "VM not found: "@ + selector@,
        },
{
    match select_vm(vms, selector) {
        Some(id) => Ok(id),
        None => Err(
            RpcStatus { code: StatusCode::NotFound, message: concat("VM not found: ", selector) },
        ),
    }
}

/// Index of the first VM whose id or name is `selector`.
pub open spec fn first_id_or_name(s: Seq<VmInfoView>, selector: Seq<char>) -> Option<int> {
    if exists|i: int| 0 <= i < s.len() && ((#[trigger] s[i]).id == selector || s[i].name == selector) {
        Some(
            choose|i: int|
                0 <= i < s.len() && ((#[trigger] s[i]).id == selector || s[i].name == selector)
                    && forall|j: int|
                    0 <= j < i ==> (#[trigger] s[j]).id != selector && s[j].name != selector,
        )
    } else {
        None
    }
}

/// The VM a status request asks about: the first whose id or name is the
/// selector; `NotFound` when there is none.
pub fn vm_status_index(vms: &Vec<VmInfo>, selector: &str) -> (r: Result<usize, RpcStatus>)
    ensures
        match first_id_or_name(infos_view(vms@), selector@) {
            Some(i) => r == Ok::<usize, RpcStatus>(i as usize),
            None => r matches Err(s) && s.code == StatusCode::NotFound && s.message@
                == "VM not found: "@ + selector@,
        },
{
    let ghost s = infos_view(vms@);
    let mut i: usize = 0;
    while i < vms.len()
        invariant
            s == infos_view(vms@),
            i <= vms.len(),
            forall|j: int| 0 <= j < i ==> (#[trigger] s[j]).id != selector@ && s[j].name != selector@,
        decreases vms.len() - i,
    {
        if str_eq(vms[i].id.as_str(), selector) || str_eq(vms[i].name.as_str(), selector) {
            proof {
                let k = choose|k: int|
                    0 <= k < s.len() && ((#[trigger] s[k]).id == selector@ || s[k].name == selector@)
                        && forall|j: int|
                        0 <= j < k ==> (#[trigger] s[j]).id != selector@ && s[j].name != selector@;
                assert(s[i as int].id == selector@ || s[i as int].name == selector@);
                if k < i {
                    assert(s[k].id != selector@ && s[k].name != selector@);
                }
                if k > i {
                    assert(s[i as int].id != selector@ && s[i as int].name != selector@);
                }
            }
            return Ok(i);
        }
        i = i + 1;
    }
    Err(RpcStatus { code: StatusCode::NotFound, message: concat("VM not found: ", selector) })
}

// ---------------------------------------------------------------------------
// Records on the wire
// ---------------------------------------------------------------------------

/// A port forward as the VM service sends it: ports travel as `u32`.
#[derive(Debug)]
pub struct WirePortForward {
    pub host_port: u32,
    pub guest_port: u32,
    pub protocol: String,
}

pub struct WirePortForwardView {
    pub host_port: u32,
    pub guest_port: u32,
    pub protocol: Seq<char>,
}

impl View for WirePortForward {
    type V = WirePortForwardView;

    open spec fn view(&self) -> WirePortForwardView {
        WirePortForwardView { host_port: self.host_port, guest_port: self.guest_port, protocol: self.protocol@ }
    }
}

/// A shared directory as the VM service sends it.
#[derive(Debug)]
pub struct WireSharedDirectory {
    pub tag: String,
    pub host_path: String,
    pub guest_path: String,
    pub read_only: bool,
}

impl View for WireSharedDirectory {
    type V = SharedDirectoryView;

    open spec fn view(&self) -> SharedDirectoryView {
        SharedDirectoryView {
            tag: self.tag@,
            host_path: self.host_path@,
            guest_path: self.guest_path@,
            read_only: self.read_only,
        }
    }
}

/// A VM as the VM service lists it: its state by name.
#[derive(Debug)]
pub struct WireVmInfo {
    pub vm_id: String,
    pub name: String,
    pub status: String,
    pub cpus: u32,
    pub memory_mb: u64,
    pub rosetta_enabled: bool,
    pub shared_dirs: Vec<WireSharedDirectory>,
    pub disk_gb: u64,
    pub port_forwards: Vec<WirePortForward>,
}

pub struct WireVmInfoView {
    pub vm_id: Seq<char>,
    pub name: Seq<char>,
    pub status: Seq<char>,
    pub cpus: u32,
    pub memory_mb: u64,
    pub rosetta_enabled: bool,
    pub shared_dirs: Seq<SharedDirectoryView>,
    pub disk_gb: u64,
    pub port_forwards: Seq<WirePortForwardView>,
}

pub open spec fn wire_dirs_view(v: Seq<WireSharedDirectory>) -> Seq<SharedDirectoryView> {
    v.map_values(|d: WireSharedDirectory| d@)
}

pub open spec fn wire_forwards_view(v: Seq<WirePortForward>) -> Seq<WirePortForwardView> {
    v.map_values(|p: WirePortForward| p@)
}

impl View for WireVmInfo {
    type V = WireVmInfoView;

    open spec fn view(&self) -> WireVmInfoView {
        WireVmInfoView {
            vm_id: self.vm_id@,
            name: self.name@,
            status: self.status@,
            cpus: self.cpus,
            memory_mb: self.memory_mb,
            rosetta_enabled: self.rosetta_enabled,
            shared_dirs: wire_dirs_view(self.shared_dirs@),
            disk_gb: self.disk_gb,
            port_forwards: wire_forwards_view(self.port_forwards@),
        }
    }
}

/// The status of one VM as the VM service reports it.
#[derive(Debug)]
pub struct WireVmStatus {
    pub vm_id: String,
    pub status: String,
    pub rosetta_enabled: bool,
    pub shared_dirs: Vec<WireSharedDirectory>,
    pub disk_gb: u64,
    pub port_forwards: Vec<WirePortForward>,
}

/// A port forward on the wire.
pub open spec fn wire_forward_of(p: PortForwardView) -> WirePortForwardView {
    WirePortForwardView { host_port: p.host_port as u32, guest_port: p.guest_port as u32, protocol: p.protocol }
}

/// A port forward read back from the wire: ports cut to `u16`.
pub open spec fn core_forward_of(w: WirePortForwardView) -> PortForwardView {
    PortForwardView { host_port: w.host_port as u16, guest_port: w.guest_port as u16, protocol: w.protocol }
}

/// A VM record on the wire.
pub open spec fn wire_vm_of(v: VmInfoView) -> WireVmInfoView {
    WireVmInfoView {
        vm_id: v.id,
        name: v.name,
        status: vm_state_name(v.state),
        cpus: v.cpus,
        memory_mb: v.memory_mb,
        rosetta_enabled: v.rosetta_enabled,
        shared_dirs: v.shared_dirs,
        disk_gb: v.disk_gb,
        port_forwards: v.port_forwards.map_values(|p: PortForwardView| wire_forward_of(p)),
    }
}

pub fn proto_port_forward(pf: PortForward) -> (r: WirePortForward)
    ensures
        r@ == wire_forward_of(pf@),
{
    WirePortForward { host_port: pf.host_port as u32, guest_port: pf.guest_port as u32, protocol: pf.protocol }
}

pub fn core_port_forward(pf: WirePortForward) -> (r: PortForward)
    ensures
        r@ == core_forward_of(pf@),
{
    PortForward {
        host_port: #[verifier::truncate] (pf.host_port as u16),
        guest_port: #[verifier::truncate] (pf.guest_port as u16),
        protocol: pf.protocol,
    }
}

pub fn proto_shared_dir(dir: SharedDirectory) -> (r: WireSharedDirectory)
    ensures
        r@ == dir@,
{
    WireSharedDirectory { tag: dir.tag, host_path: dir.host_path, guest_path: dir.guest_path, read_only: dir.read_only }
}

pub fn core_shared_dir(dir: WireSharedDirectory) -> (r: SharedDirectory)
    ensures
        r@ == dir@,
{
    SharedDirectory { tag: dir.tag, host_path: dir.host_path, guest_path: dir.guest_path, read_only: dir.read_only }
}

/// The VM's shares on the wire.
pub fn proto_shared_dirs(dirs: &Vec<SharedDirectory>) -> (r: Vec<WireSharedDirectory>)
    ensures
        wire_dirs_view(r@) == dirs_view(dirs@),
{
    let mut r: Vec<WireSharedDirectory> = Vec::new();
    let mut i: usize = 0;
    while i < dirs.len()
        invariant
            i <= dirs.len(),
            wire_dirs_view(r@) == dirs_view(dirs@).take(i as int),
        decreases dirs.len() - i,
    {
        let ghost before = r@;
        let d = proto_shared_dir(dirs[i].duplicate());
        r.push(d);
        proof {
            assert(wire_dirs_view(r@) =~= wire_dirs_view(before).push(d@));
            assert(dirs_view(dirs@).take(i as int + 1) =~= dirs_view(dirs@).take(i as int).push(dirs@[i as int]@));
        }
        i = i + 1;
    }
    proof {
        assert(dirs_view(dirs@).take(i as int) =~= dirs_view(dirs@));
    }
    r
}

/// The shares of a request, read back from the wire.
pub fn core_shared_dirs(dirs: Vec<WireSharedDirectory>) -> (r: Vec<SharedDirectory>)
    ensures
        dirs_view(r@) == wire_dirs_view(dirs@),
{
    let mut r: Vec<SharedDirectory> = Vec::new();
    let mut i: usize = 0;
    while i < dirs.len()
        invariant
            i <= dirs.len(),
            dirs_view(r@) == wire_dirs_view(dirs@).take(i as int),
        decreases dirs.len() - i,
    {
        let ghost before = r@;
        let w = &dirs[i];
        let d = SharedDirectory {
            tag: clone_string(&w.tag),
            host_path: clone_string(&w.host_path),
            guest_path: clone_string(&w.guest_path),
            read_only: w.read_only,
        };
        r.push(d);
        proof {
            assert(dirs_view(r@) =~= dirs_view(before).push(d@));
            assert(wire_dirs_view(dirs@).take(i as int + 1) =~= wire_dirs_view(dirs@).take(i as int).push(
                dirs@[i as int]@,
            ));
        }
        i = i + 1;
    }
    proof {
        assert(wire_dirs_view(dirs@).take(i as int) =~= wire_dirs_view(dirs@));
    }
    r
}

/// The VM's port forwards on the wire.
pub fn proto_port_forwards(fwds: &Vec<PortForward>) -> (r: Vec<WirePortForward>)
    ensures
        wire_forwards_view(r@) == forwards_view(fwds@).map_values(|p: PortForwardView| wire_forward_of(p)),
{
    let ghost want = forwards_view(fwds@).map_values(|p: PortForwardView| wire_forward_of(p));
    let mut r: Vec<WirePortForward> = Vec::new();
    let mut i: usize = 0;
    while i < fwds.len()
        invariant
            i <= fwds.len(),
            want == forwards_view(fwds@).map_values(|p: PortForwardView| wire_forward_of(p)),
            wire_forwards_view(r@) == want.take(i as int),
        decreases fwds.len() - i,
    {
        let ghost before = r@;
        let w = proto_port_forward(fwds[i].duplicate());
        r.push(w);
        proof {
            assert(want[i as int] == wire_forward_of(fwds@[i as int]@));
            assert(wire_forwards_view(r@) =~= wire_forwards_view(before).push(w@));
            assert(want.take(i as int + 1) =~= want.take(i as int).push(want[i as int]));
        }
        i = i + 1;
    }
    proof {
        assert(want.take(i as int) =~= want);
    }
    r
}

/// A VM record as the service lists it.
pub fn wire_vm_info(vm: &VmInfo) -> (r: WireVmInfo)
    ensures
        r@ == wire_vm_of(vm@),
{
    WireVmInfo {
        vm_id: clone_string(&vm.id),
        name: clone_string(&vm.name),
        status: vm_state_to_string(vm.state),
        cpus: vm.cpus,
        memory_mb: vm.memory_mb,
        rosetta_enabled: vm.rosetta_enabled,
        shared_dirs: proto_shared_dirs(&vm.shared_dirs),
        disk_gb: vm.disk_gb,
        port_forwards: proto_port_forwards(&vm.port_forwards),
    }
}

/// The reply to a listing: every VM, in order, as the service sends it.
pub fn list_vms_reply(vms: &Vec<VmInfo>) -> (r: Vec<WireVmInfo>)
    ensures
        r@.len() == vms@.len(),
        forall|i: int| 0 <= i < vms@.len() ==> (#[trigger] r@[i])@ == wire_vm_of(vms@[i]@),
{
    let mut r: Vec<WireVmInfo> = Vec::new();
    let mut i: usize = 0;
    while i < vms.len()
        invariant
            i <= vms.len(),
            r@.len() == i,
            forall|k: int| 0 <= k < i ==> (#[trigger] r@[k])@ == wire_vm_of(vms@[k]@),
        decreases vms.len() - i,
    {
        r.push(wire_vm_info(&vms[i]));
        i = i + 1;
    }
    r
}

proof fn lemma_first_match_exists(s: Seq<VmInfoView>, selector: Seq<char>, i: int)
    requires
        0 <= i < s.len(),
        s[i].id == selector || s[i].name == selector,
    ensures
        exists|k: int|
            0 <= k < s.len() && ((#[trigger] s[k]).id == selector || s[k].name == selector)
                && forall|j: int| 0 <= j < k ==> (#[trigger] s[j]).id != selector && s[j].name != selector,
    decreases i,
{
    if exists|j: int| 0 <= j < i && ((#[trigger] s[j]).id == selector || s[j].name == selector) {
        let j = choose|j: int| 0 <= j < i && ((#[trigger] s[j]).id == selector || s[j].name == selector);
        lemma_first_match_exists(s, selector, j);
    } else {
        assert(forall|j: int| 0 <= j < i ==> (#[trigger] s[j]).id != selector && s[j].name != selector);
    }
}

/// The index that `first_id_or_name` gives is within the list.
pub proof fn lemma_first_id_or_name_in(s: Seq<VmInfoView>, selector: Seq<char>)
    ensures
        first_id_or_name(s, selector) matches Some(i) ==> 0 <= i < s.len(),
{
    if exists|i: int| 0 <= i < s.len() && ((#[trigger] s[i]).id == selector || s[i].name == selector) {
        let i = choose|i: int| 0 <= i < s.len() && ((#[trigger] s[i]).id == selector || s[i].name == selector);
        lemma_first_match_exists(s, selector, i);
    }
}

/// The reply to a status request: the first VM whose id or name is the
/// selector, as the service sends it; `NotFound` when there is none.
pub fn vm_status_reply(vms: &Vec<VmInfo>, selector: &str) -> (r: Result<WireVmStatus, RpcStatus>)
    ensures
        match first_id_or_name(infos_view(vms@), selector@) {
            Some(i) => r matches Ok(s) && {
                let w = wire_vm_of(vms@[i]@);
                &&& s.vm_id@ == w.vm_id
                &&& s.status@ == w.status
                &&& s.rosetta_enabled == w.rosetta_enabled
                &&& wire_dirs_view(s.shared_dirs@) == w.shared_dirs
                &&& s.disk_gb == w.disk_gb
                &&& wire_forwards_view(s.port_forwards@) == w.port_forwards
            },
            None => r matches Err(s) && s.code == StatusCode::NotFound && s.message@
                == "VM not found: "@ + selector@,
        },
{
    proof {
        lemma_first_id_or_name_in(infos_view(vms@), selector@);
    }
    let found = vm_status_index(vms, selector);
    proof {
        if found is Ok {
            assert(first_id_or_name(infos_view(vms@), selector@) is Some);
            let k = first_id_or_name(infos_view(vms@), selector@)->0;
            assert(0 <= k < vms.len());
        }
    }
    match found {
        Ok(i) => {
            let w = wire_vm_info(&vms[i]);
            Ok(
                WireVmStatus {
                    vm_id: w.vm_id,
                    status: w.status,
                    rosetta_enabled: w.rosetta_enabled,
                    shared_dirs: w.shared_dirs,
                    disk_gb: w.disk_gb,
                    port_forwards: w.port_forwards,
                },
            )
        },
        Err(e) => Err(e),
    }
}

/// A port forward that crosses the wire comes back unchanged.
pub proof fn law_port_forward_wire_round_trip(p: PortForwardView)
    ensures
        core_forward_of(wire_forward_of(p)) == p,
{
}

} // verus!
