//! The built-in container runtime: its settings, where its assets are
//! found, and the runtime VM that serves Docker.
//!
//! Environment variables, directory checks and processes are the caller's
//! part; the functions here take what was observed.
use vstd::prelude::*;
use crate::hypervisor::{
    HypervisorError, VmConfig, VmInfo, VmInfoView, VmState, dirs_view, forwards_view, infos_view,
};
use crate::images::{
    ImageStatus, OsImageEntryView, available_spec, builtin_catalog, catalog_spec, entries_view, find_image,
    find_spec, image_dir_spec, image_paths, is_image_ready, status_of,
};
use crate::store::{
    Platform, distinct_ids, file_name, file_name_spec, is_known_path, join, join_path, known_path,
    parent_path, parent_spec,
};
use crate::text::{
    chars_of, clone_string, concat, contains_text, decimal, decimal_string, owned, parse_unsigned,
    parse_unsigned_vec, split_chars, split_on, str_contains, str_eq, string_of, trim, trim_vec,
    views_of,
};
use crate::vm::{
    StubHypervisor, find_vm, first_named, id_of_named, info_from_config, lemma_first_named, name_taken, prefixed_id,
};

verus! {

pub const DEFAULT_RUNTIME_VM_NAME: &'static str = "cratebay-runtime";

pub const DEFAULT_DOCKER_VSOCK_PORT: u32 = 6237;

pub const DEFAULT_RUNTIME_ASSETS_SUBDIR: &'static str = "runtime-images";

pub const DEFAULT_WSL_ASSETS_SUBDIR: &'static str = "runtime-wsl";

pub const DEFAULT_WSL_DOCKER_PORT: u16 = 2375;

/// The CPU architecture the program was built for.
#[derive(Debug, Clone, Copy, PartialEq, Eq, Structural)]
pub enum Arch {
    Aarch64,
    X86_64,
    Other,
}

// ---------------------------------------------------------------------------
// Settings from the environment
// ---------------------------------------------------------------------------

/// `value` when it is set and not blank.
pub open spec fn non_blank(value: Option<Seq<char>>) -> Option<Seq<char>> {
    match value {
        Some(v) => if trim(v).len() > 0 {
            Some(v)
        } else {
            None
        },
        None => None,
    }
}

pub open spec fn opt_str_view(o: Option<&str>) -> Option<Seq<char>> {
    match o {
        Some(s) => Some(s@),
        None => None,
    }
}

fn is_non_blank(s: &str) -> (b: bool)
    ensures
        b == (trim(s@).len() > 0),
{
    let v = chars_of(s);
    let t = trim_vec(&v);
    t.len() > 0
}

/// The VM name used for the built-in container runtime, given
/// `CRATEBAY_RUNTIME_VM_NAME`.
pub fn runtime_vm_name(env_value: Option<&str>) -> (r: String)
    ensures
        r@ == match non_blank(opt_str_view(env_value)) {
            Some(v) => v,
            None => DEFAULT_RUNTIME_VM_NAME@,
        },
{
    match env_value {
        Some(v) => {
            if is_non_blank(v) {
                return owned(v);
            }
        },
        None => {},
    }
    owned(DEFAULT_RUNTIME_VM_NAME)
}

/// The guest vsock port for the Docker API proxy, given
/// `CRATEBAY_DOCKER_VSOCK_PORT`: the value when it reads as a positive
/// `u32`, else the default.
pub fn docker_vsock_port(env_value: Option<&str>) -> (r: u32)
    ensures
        r == match env_value {
            Some(v) => match parse_unsigned(v@, u32::MAX as nat) {
                Some(n) => if n > 0 {
                    n as u32
                } else {
                    DEFAULT_DOCKER_VSOCK_PORT
                },
                None => DEFAULT_DOCKER_VSOCK_PORT,
            },
            None => DEFAULT_DOCKER_VSOCK_PORT,
        },
{
    match env_value {
        Some(v) => {
            let cv = chars_of(v);
            match parse_unsigned_vec(&cv, u32::MAX as u64) {
                Some(n) => {
                    if n > 0 {
                        return n as u32;
                    }
                },
                None => {},
            }
        },
        None => {},
    }
    DEFAULT_DOCKER_VSOCK_PORT
}

/// The host-side Docker socket path chosen from `CRATEBAY_DOCKER_SOCKET_PATH`
/// (when set and not blank), else under `HOME`, else under the data
/// directory.
pub open spec fn host_socket_spec(socket_env: Option<Seq<char>>, home: Option<Seq<char>>, data_dir: Seq<char>) -> Seq<
    char,
> {
    match non_blank(socket_env) {
        Some(p) => p,
        None => match home {
            Some(h) => join(join(join(h, ".cratebay"@), "run"@), "docker.sock"@),
            None => join(join(data_dir, "run"@), "docker.sock"@),
        },
    }
}

/// The host-side Docker-compatible Unix socket path, given
/// `CRATEBAY_DOCKER_SOCKET_PATH`, `HOME` and the data directory.
///
/// Defaults to `$HOME/.cratebay/run/docker.sock` to avoid spaces in paths
/// like `~/Library/Application Support/...`.
pub fn host_docker_socket_path(socket_env: Option<&str>, home: Option<&str>, data_dir: &str) -> (r:
    String)
    ensures
        r@ == host_socket_spec(opt_str_view(socket_env), opt_str_view(home), data_dir@),
{
    if let Some(p) = socket_env {
        if is_non_blank(p) {
            return owned(p);
        }
    }
    match home {
        Some(h) => {
            let a = join_path(h, ".cratebay");
            let b = join_path(a.as_str(), "run");
            join_path(b.as_str(), "docker.sock")
        },
        None => {
            let a = join_path(data_dir, "run");
            join_path(a.as_str(), "docker.sock")
        },
    }
}

/// The socket path of a process: chosen at the first request and kept
/// from then on, whatever the environment says later.
pub struct HostSocketPath {
    chosen: Option<String>,
}

impl HostSocketPath {
    /// The path chosen so far, if any.
    pub closed spec fn chosen(&self) -> Option<Seq<char>> {
        match self.chosen {
            Some(p) => Some(p@),
            None => None,
        }
    }

    /// Nothing chosen yet.
    pub fn new() -> (c: HostSocketPath)
        ensures
            c.chosen() is None,
    {
        HostSocketPath { chosen: None }
    }

    /// The socket path: the one chosen before, if any; else the path that
    /// the given environment gives, which is kept for every later request.
    pub fn get(&mut self, socket_env: Option<&str>, home: Option<&str>, data_dir: &str) -> (r: String)
        ensures
            match old(self).chosen() {
                Some(p) => r@ == p && final(self).chosen() == old(self).chosen(),
                None => r@ == host_socket_spec(opt_str_view(socket_env), opt_str_view(home), data_dir@)
                    && final(self).chosen() == Some(r@),
            },
    {
        match &self.chosen {
            Some(p) => clone_string(p),
            None => {
                let p = host_docker_socket_path(socket_env, home, data_dir);
                self.chosen = Some(clone_string(&p));
                p
            },
        }
    }
}

/// The default runtime image for an architecture.
pub open spec fn default_runtime_image(arch: Arch) -> Seq<char> {
    match arch {
        Arch::X86_64 => "cratebay-runtime-x86_64"@,
        _ => "cratebay-runtime-aarch64"@,
    }
}

/// OS image id used for the built-in runtime VM, given
/// `CRATEBAY_RUNTIME_OS_IMAGE_ID`.
pub fn runtime_os_image_id(env_value: Option<&str>, arch: Arch) -> (r: String)
    ensures
        r@ == match non_blank(opt_str_view(env_value)) {
            Some(v) => v,
            None => default_runtime_image(arch),
        },
{
    if let Some(v) = env_value {
        if is_non_blank(v) {
            return owned(v);
        }
    }
    match arch {
        Arch::X86_64 => owned("cratebay-runtime-x86_64"),
        _ => owned("cratebay-runtime-aarch64"),
    }
}

/// Whether the runtime OS image is ready, given the recorded statuses.
pub fn runtime_image_ready(os_image_id: &str, recorded: &Vec<(String, ImageStatus)>) -> (b: bool)
    ensures
        b == (status_of(recorded@, os_image_id@) == ImageStatus::Ready),
{
    is_image_ready(os_image_id, recorded)
}

// ---------------------------------------------------------------------------
// Runtime assets
// ---------------------------------------------------------------------------

/// The runtime image directory under an assets root: the root itself when
/// it is an existing `runtime-images` directory, else its existing
/// `runtime-images` child.
pub open spec fn images_dir_from_root_spec(root: Seq<char>, existing: Seq<String>, subdir: Seq<
    char,
>) -> Option<Seq<char>> {
    if file_name_spec(root) == Some(subdir) && known_path(existing, root) {
        Some(root)
    } else if known_path(existing, join(root, subdir)) {
        Some(join(root, subdir))
    } else {
        None
    }
}

fn dir_from_root(root: &str, existing: &Vec<String>, subdir: &str) -> (r: Option<String>)
    ensures
        opt_string_view(r) == images_dir_from_root_spec(root@, existing@, subdir@),
{
    let name = file_name(root);
    let named = match &name {
        Some(n) => str_eq(n.as_str(), subdir),
        None => false,
    };
    if named && is_known_path(existing, root) {
        return Some(owned(root));
    }
    let dir = join_path(root, subdir);
    if is_known_path(existing, dir.as_str()) {
        Some(dir)
    } else {
        None
    }
}

pub open spec fn opt_string_view(o: Option<String>) -> Option<Seq<char>> {
    match o {
        Some(s) => Some(s@),
        None => None,
    }
}

/// The runtime image assets directory under `root`, given the directories
/// known to exist.
pub fn runtime_images_dir_from_root(root: &str, existing: &Vec<String>) -> (r: Option<String>)
    ensures
        opt_string_view(r) == images_dir_from_root_spec(
            root@,
            existing@,
            DEFAULT_RUNTIME_ASSETS_SUBDIR@,
        ),
{
    dir_from_root(root, existing, DEFAULT_RUNTIME_ASSETS_SUBDIR)
}

/// The WSL runtime assets directory under `root`, given the directories
/// known to exist.
pub fn runtime_wsl_assets_dir_from_root(root: &str, existing: &Vec<String>) -> (r: Option<String>)
    ensures
        opt_string_view(r) == images_dir_from_root_spec(root@, existing@, DEFAULT_WSL_ASSETS_SUBDIR@),
{
    dir_from_root(root, existing, DEFAULT_WSL_ASSETS_SUBDIR)
}

/// The `Resources` directory of a macOS app bundle when `exe_dir` is its
/// `Contents/MacOS` directory.
pub open spec fn bundle_resources(exe_dir: Seq<char>) -> Option<Seq<char>> {
    if file_name_spec(exe_dir) == Some("MacOS"@) && parent_spec(exe_dir) is Some && file_name_spec(
        parent_spec(exe_dir)->0,
    ) == Some("Contents"@) {
        Some(join(parent_spec(exe_dir)->0, "Resources"@))
    } else {
        None
    }
}

/// The directory holding the runtime assets for an executable in
/// `exe_dir`, given the directories known to exist: the app bundle's
/// `Resources` on macOS, else `resources` next to the executable, else
/// `resources` in its parent, else `exe_dir` itself.
pub open spec fn assets_root_spec(exe_dir: Seq<char>, platform: Platform, existing: Seq<String>) -> Seq<
    char,
> {
    if platform == Platform::MacOs && bundle_resources(exe_dir) is Some && known_path(
        existing,
        bundle_resources(exe_dir)->0,
    ) {
        bundle_resources(exe_dir)->0
    } else if known_path(existing, join(exe_dir, "resources"@)) {
        join(exe_dir, "resources"@)
    } else if parent_spec(exe_dir) is Some && known_path(
        existing,
        join(parent_spec(exe_dir)->0, "resources"@),
    ) {
        join(parent_spec(exe_dir)->0, "resources"@)
    } else {
        exe_dir
    }
}

fn bundle_resources_of(exe_dir: &str) -> (r: Option<String>)
    ensures
        opt_string_view(r) == bundle_resources(exe_dir@),
{
    let name = file_name(exe_dir);
    let is_macos = match &name {
        Some(n) => str_eq(n.as_str(), "MacOS"),
        None => false,
    };
    if !is_macos {
        return None;
    }
    match parent_path(exe_dir) {
        None => None,
        Some(contents) => {
            let cname = file_name(contents.as_str());
            let is_contents = match &cname {
                Some(n) => str_eq(n.as_str(), "Contents"),
                None => false,
            };
            if is_contents {
                Some(join_path(contents.as_str(), "Resources"))
            } else {
                None
            }
        },
    }
}

/// The root directory of the runtime assets for an executable in
/// `exe_dir`; `existing` lists the directories known to exist.
pub fn runtime_assets_root_dir_from_exe_dir(
    exe_dir: &str,
    platform: Platform,
    existing: &Vec<String>,
) -> (r: Option<String>)
    ensures
        r matches Some(d) && d@ == assets_root_spec(exe_dir@, platform, existing@),
{
    if platform == Platform::MacOs {
        if let Some(res) = bundle_resources_of(exe_dir) {
            if is_known_path(existing, res.as_str()) {
                return Some(res);
            }
        }
    }
    let direct = join_path(exe_dir, "resources");
    if is_known_path(existing, direct.as_str()) {
        return Some(direct);
    }
    if let Some(parent) = parent_path(exe_dir) {
        let pr = join_path(parent.as_str(), "resources");
        if is_known_path(existing, pr.as_str()) {
            return Some(pr);
        }
    }
    Some(owned(exe_dir))
}

/// The directories whose existence decides the assets root for an
/// executable in `exe_dir`, in the order in which they are considered.
pub fn runtime_assets_root_candidates(exe_dir: &str, platform: Platform) -> (r: Vec<String>)
    ensures
        forall|d: Seq<char>|
            (d == join(exe_dir@, "resources"@) || (parent_spec(exe_dir@) is Some && d == join(
                parent_spec(exe_dir@)->0,
                "resources"@,
            )) || (platform == Platform::MacOs && bundle_resources(exe_dir@) == Some(d)))
                ==> known_path(r@, d),
{
    let mut r: Vec<String> = Vec::new();
    if platform == Platform::MacOs {
        if let Some(res) = bundle_resources_of(exe_dir) {
            r.push(res);
        }
    }
    let ghost n0 = r@.len();
    r.push(join_path(exe_dir, "resources"));
    proof {
        assert(r@[n0 as int]@ == join(exe_dir@, "resources"@));
    }
    if let Some(parent) = parent_path(exe_dir) {
        let ghost n1 = r@.len();
        r.push(join_path(parent.as_str(), "resources"));
        proof {
            assert(r@[n1 as int]@ == join(parent_spec(exe_dir@)->0, "resources"@));
            assert(r@[n0 as int]@ == join(exe_dir@, "resources"@));
        }
    }
    proof {
        assert forall|d: Seq<char>|
            (d == join(exe_dir@, "resources"@) || (parent_spec(exe_dir@) is Some && d == join(
                parent_spec(exe_dir@)->0,
                "resources"@,
            )) || (platform == Platform::MacOs && bundle_resources(exe_dir@) == Some(d)))
                implies known_path(r@, d) by {
            if d == join(exe_dir@, "resources"@) {
                assert(r@[n0 as int]@ == d);
            } else if parent_spec(exe_dir@) is Some && d == join(parent_spec(exe_dir@)->0, "resources"@) {
                assert(r@[n0 + 1int]@ == d);
            } else {
                assert(r@[0]@ == d);
            }
        }
    }
    r
}

// ---------------------------------------------------------------------------
// The runtime VM
// ---------------------------------------------------------------------------

/// The configuration of the runtime VM: 2 CPUs, 2048 MB of memory, 20 GB
/// of disk, booting the runtime image's kernel and initramfs.
pub open spec fn runtime_vm_config_spec(
    c: VmConfig,
    name: Seq<char>,
    image_id: Seq<char>,
    data_dir: Seq<char>,
    rosetta: bool,
) -> bool {
    &&& c.name@ == name
    &&& c.cpus == 2
    &&& c.memory_mb == 2048
    &&& c.disk_gb == 20
    &&& c.rosetta == rosetta
    &&& c.shared_dirs@.len() == 0
    &&& c.os_image matches Some(o) && o@ == image_id
    &&& c.kernel_path matches Some(k) && k@ == join(image_dir_spec(data_dir, image_id), "vmlinuz"@)
    &&& c.initrd_path matches Some(k) && k@ == join(image_dir_spec(data_dir, image_id), "initramfs"@)
    &&& c.disk_path is None
    &&& c.port_forwards@.len() == 0
}

pub fn runtime_vm_config(name: &str, image_id: &str, data_dir: &str, rosetta: bool) -> (c: VmConfig)
    ensures
        runtime_vm_config_spec(c, name@, image_id@, data_dir@, rosetta),
{
    let paths = image_paths(data_dir, image_id);
    VmConfig {
        name: owned(name),
        cpus: 2,
        memory_mb: 2048,
        disk_gb: 20,
        rosetta,
        shared_dirs: Vec::new(),
        os_image: Some(owned(image_id)),
        kernel_path: Some(paths.kernel_path),
        initrd_path: Some(paths.initrd_path),
        disk_path: None,
        port_forwards: Vec::new(),
    }
}

/// The record of a freshly created runtime VM with id `id`.
pub open spec fn runtime_vm_record(id: Seq<char>, name: Seq<char>, image_id: Seq<char>) -> VmInfoView {
    VmInfoView {
        id: id,
        name: name,
        state: VmState::Stopped,
        cpus: 2,
        memory_mb: 2048,
        disk_gb: 20,
        rosetta_enabled: false,
        shared_dirs: Seq::empty(),
        port_forwards: Seq::empty(),
        os_image: Some(image_id),
    }
}

/// The error `ensure_runtime_vm_exists` answers when it cannot create the
/// runtime VM from `image_id`.
pub open spec fn runtime_vm_refusal(image_id: Seq<char>, r: Result<String, HypervisorError>) -> bool {
    &&& r matches Err(HypervisorError::CreateFailed(m))
    &&& m@ == if find_spec(catalog_spec(), image_id) is None {
        "Runtime OS image '"@ + image_id + "' not found in catalog"@
    } else {
        "Runtime OS image '"@ + image_id + "' was installed but is still not marked ready"@
    }
}

/// The id of the runtime VM after `ensure_runtime_vm_exists`: the first VM
/// called `name`, else the one created under the next id.
pub open spec fn ensured_id(records: Seq<VmInfoView>, prefix: Seq<char>, counter: nat, name: Seq<char>) -> Seq<char> {
    match first_named(records, name) {
        Some(i) => records[i].id,
        None => prefixed_id(prefix, counter),
    }
}

/// The records after a successful `ensure_runtime_vm_exists`.
pub open spec fn ensured_records(
    records: Seq<VmInfoView>,
    prefix: Seq<char>,
    counter: nat,
    name: Seq<char>,
    image_id: Seq<char>,
) -> Seq<VmInfoView> {
    match first_named(records, name) {
        Some(_) => records,
        None => records.push(runtime_vm_record(prefixed_id(prefix, counter), name, image_id)),
    }
}

/// `ensure_runtime_vm_exists` succeeds: the VM exists, or its image is in
/// the catalog and ready.
pub open spec fn runtime_vm_available(
    records: Seq<VmInfoView>,
    name: Seq<char>,
    image_id: Seq<char>,
    ready: bool,
) -> bool {
    first_named(records, name) is Some || (find_spec(catalog_spec(), image_id) is Some && ready)
}

/// What a backend does to have the runtime VM called `name`, given the VMs
/// it lists.
#[derive(Debug)]
pub enum RuntimeVmStep {
    /// It exists: use this id.
    Use(String),
    /// Create it with this configuration.
    Create(VmConfig),
    /// It cannot be created.
    Refuse(HypervisorError),
}

/// The step for any backend: the first VM called `name` when there is one;
/// else, when `image_id` is in the catalog and recorded ready, the runtime
/// VM's configuration; else the refusal of `ensure_runtime_vm_exists`.
pub fn runtime_vm_step(
    vms: &Vec<VmInfo>,
    name: &str,
    image_id: &str,
    data_dir: &str,
    recorded: &Vec<(String, ImageStatus)>,
    rosetta: bool,
) -> (s: RuntimeVmStep)
    ensures
        match first_named(infos_view(vms@), name@) {
            Some(i) => s matches RuntimeVmStep::Use(id) && id@ == vms@[i].id@,
            None => if runtime_vm_available(
                infos_view(vms@),
                name@,
                image_id@,
                status_of(recorded@, image_id@) == ImageStatus::Ready,
            ) {
                s matches RuntimeVmStep::Create(c) && runtime_vm_config_spec(c, name@, image_id@, data_dir@, rosetta)
            } else {
                s matches RuntimeVmStep::Refuse(e) && runtime_vm_refusal(image_id@, Err::<String, HypervisorError>(e))
            },
        },
{
    if let Some(id) = id_of_named(vms, name) {
        proof {
            lemma_first_named(infos_view(vms@), name@);
            let i = first_named(infos_view(vms@), name@)->0;
            assert(infos_view(vms@)[i] == vms@[i]@);
        }
        return RuntimeVmStep::Use(id);
    }
    let empty: Vec<(String, ImageStatus)> = Vec::new();
    proof {
        lemma_available_find_none(empty@, image_id@, catalog_spec());
    }
    if find_image(image_id, &empty).is_none() {
        let a = concat("Runtime OS image '", image_id);
        return RuntimeVmStep::Refuse(HypervisorError::CreateFailed(concat(a.as_str(), "' not found in catalog")));
    }
    if !is_image_ready(image_id, recorded) {
        let a = concat("Runtime OS image '", image_id);
        return RuntimeVmStep::Refuse(
            HypervisorError::CreateFailed(concat(a.as_str(), "' was installed but is still not marked ready")),
        );
    }
    RuntimeVmStep::Create(runtime_vm_config(name, image_id, data_dir, rosetta))
}

/// The state of the first VM with id `id` among `s`.
pub open spec fn first_state(s: Seq<VmInfoView>, id: Seq<char>) -> Option<VmState>
    decreases s.len(),
{
    if s.len() == 0 {
        None
    } else if s[0].id == id {
        Some(s[0].state)
    } else {
        first_state(s.drop_first(), id)
    }
}

/// Whether the runtime VM `id` is to be started: unless the first listed
/// VM with that id is running (a VM not listed counts as stopped).
pub fn runtime_vm_needs_start(vms: &Vec<VmInfo>, id: &str) -> (b: bool)
    ensures
        b == (first_state(infos_view(vms@), id@) != Some(VmState::Running)),
{
    let ghost s = infos_view(vms@);
    let mut i: usize = 0;
    proof {
        assert(s.skip(0) =~= s);
    }
    while i < vms.len()
        invariant
            s == infos_view(vms@),
            i <= vms.len(),
            first_state(s.skip(i as int), id@) == first_state(s, id@),
        decreases vms.len() - i,
    {
        proof {
            assert(s.skip(i as int)[0] == s[i as int]);
            assert(s.skip(i as int).drop_first() =~= s.skip(i as int + 1));
        }
        if str_eq(vms[i].id.as_str(), id) {
            return vms[i].state != VmState::Running;
        }
        i = i + 1;
    }
    proof {
        assert(s.skip(i as int).len() == 0);
    }
    true
}

/// Returns the id of the runtime VM called `name`, creating it when there
/// is none.
///
/// Creation needs `image_id` in the catalog (else `CreateFailed`) and
/// recorded as ready in `recorded` (else `CreateFailed`); installing the
/// image from the bundled assets is done before this call.
pub fn ensure_runtime_vm_exists(
    hv: &mut StubHypervisor,
    name: &str,
    image_id: &str,
    data_dir: &str,
    recorded: &Vec<(String, ImageStatus)>,
) -> (r: Result<String, HypervisorError>)
    requires
        old(hv).wf(),
        first_named(old(hv).records(), name@) is None ==> old(hv).counter() < u64::MAX,
    ensures
        final(hv).wf(),
        runtime_vm_available(
            old(hv).records(),
            name@,
            image_id@,
            status_of(recorded@, image_id@) == ImageStatus::Ready,
        ) ==> {
            &&& r matches Ok(id)
            &&& id@ == ensured_id(old(hv).records(), old(hv).id_prefix(), old(hv).counter(), name@)
            &&& final(hv).records() == ensured_records(
                old(hv).records(),
                old(hv).id_prefix(),
                old(hv).counter(),
                name@,
                image_id@,
            )
        },
        !runtime_vm_available(
            old(hv).records(),
            name@,
            image_id@,
            status_of(recorded@, image_id@) == ImageStatus::Ready,
        ) ==> runtime_vm_refusal(image_id@, r) && final(hv).records() == old(hv).records(),
{
    let vms = hv.list_vms();
    let rosetta = hv.rosetta_available();
    let config = match runtime_vm_step(&vms, name, image_id, data_dir, recorded, rosetta) {
        RuntimeVmStep::Use(id) => {
            proof {
                lemma_first_named(infos_view(vms@), name@);
                let i = first_named(infos_view(vms@), name@)->0;
                assert(infos_view(vms@)[i] == vms@[i]@);
            }
            return Ok(id);
        },
        RuntimeVmStep::Refuse(e) => return Err(e),
        RuntimeVmStep::Create(c) => c,
    };
    proof {
        lemma_first_named(old(hv).records(), name@);
        assert(!name_taken(old(hv).records(), name@));
    }
    let ghost cfg = config;
    let r = hv.create_vm(config);
    proof {
        if r is Ok {
            let id = r->Ok_0;
            assert(info_from_config(id@, cfg) =~= runtime_vm_record(id@, name@, image_id@)) by {
                assert(dirs_view(cfg.shared_dirs@) =~= Seq::<crate::hypervisor::SharedDirectoryView>::empty());
                assert(forwards_view(cfg.port_forwards@) =~= Seq::<crate::hypervisor::PortForwardView>::empty());
            }
        }
    }
    r
}

proof fn lemma_available_find_none(
    recorded: Seq<(String, ImageStatus)>,
    id: Seq<char>,
    c: Seq<crate::images::OsImageEntryView>,
)
    ensures
        find_spec(
            c.map_values(
                |e: crate::images::OsImageEntryView| crate::images::OsImageEntryView {
                    status: status_of(recorded, e.id),
                    ..e
                },
            ),
            id,
        ) is None <==> find_spec(c, id) is None,
    decreases c.len(),
{
    let f = |e: crate::images::OsImageEntryView| crate::images::OsImageEntryView {
        status: status_of(recorded, e.id),
        ..e
    };
    if c.len() > 0 {
        assert(c.map_values(f).drop_first() =~= c.drop_first().map_values(f));
        lemma_available_find_none(recorded, id, c.drop_first());
    }
}

/// `records` with the VM `id` marked `Running`.
pub open spec fn set_running(records: Seq<VmInfoView>, id: Seq<char>) -> Seq<VmInfoView> {
    match find_vm(records, id) {
        Some(i) => records.update(i, crate::vm::with_state(records[i], VmState::Running)),
        None => records,
    }
}

/// Makes sure the runtime VM called `name` exists and is running, and
/// returns its id. Fails as `ensure_runtime_vm_exists` does.
pub fn ensure_runtime_vm_running(
    hv: &mut StubHypervisor,
    name: &str,
    image_id: &str,
    data_dir: &str,
    recorded: &Vec<(String, ImageStatus)>,
) -> (r: Result<String, HypervisorError>)
    requires
        old(hv).wf(),
        first_named(old(hv).records(), name@) is None ==> old(hv).counter() < u64::MAX,
    ensures
        final(hv).wf(),
        runtime_vm_available(
            old(hv).records(),
            name@,
            image_id@,
            status_of(recorded@, image_id@) == ImageStatus::Ready,
        ) ==> {
            &&& r matches Ok(id)
            &&& id@ == ensured_id(old(hv).records(), old(hv).id_prefix(), old(hv).counter(), name@)
            &&& final(hv).records() == set_running(
                ensured_records(old(hv).records(), old(hv).id_prefix(), old(hv).counter(), name@, image_id@),
                id@,
            )
        },
        !runtime_vm_available(
            old(hv).records(),
            name@,
            image_id@,
            status_of(recorded@, image_id@) == ImageStatus::Ready,
        ) ==> runtime_vm_refusal(image_id@, r) && final(hv).records() == old(hv).records(),
{
    let vm_id = match ensure_runtime_vm_exists(hv, name, image_id, data_dir, recorded) {
        Ok(id) => id,
        Err(e) => return Err(e),
    };
    let ghost mid = hv.records();
    proof {
        lemma_ensured_found(old(hv).records(), old(hv).id_prefix(), old(hv).counter(), name@, image_id@);
    }
    let vms = hv.list_vms();
    let state = match hv_state(&vms, vm_id.as_str(), hv) {
        Some(s) => s,
        None => VmState::Stopped,
    };
    if state != VmState::Running {
        match hv.start_vm(vm_id.as_str()) {
            Ok(()) => {},
            Err(e) => return Err(e),
        }
    } else {
        proof {
            let k = find_vm(mid, vm_id@)->0;
            assert(mid.update(k, crate::vm::with_state(mid[k], VmState::Running)) =~= mid);
        }
    }
    Ok(vm_id)
}

/// Ensuring the runtime VM twice creates it at most once: after a
/// successful `ensure_runtime_vm_exists`, a VM called `name` exists, and
/// the first one is the VM that the call returned.
pub proof fn law_ensure_runtime_vm_idempotent(
    records: Seq<VmInfoView>,
    prefix: Seq<char>,
    counter: nat,
    name: Seq<char>,
    image_id: Seq<char>,
)
    ensures
        first_named(ensured_records(records, prefix, counter, name, image_id), name) matches Some(k) && ensured_records(
            records,
            prefix,
            counter,
            name,
            image_id,
        )[k].id == ensured_id(records, prefix, counter, name),
{
    let s = ensured_records(records, prefix, counter, name, image_id);
    lemma_first_named(records, name);
    lemma_first_named(s, name);
    match first_named(records, name) {
        Some(i) => {},
        None => {
            let k = records.len() as int;
            assert(s[k].name == name);
            match first_named(s, name) {
                Some(j) => {
                    if j < k {
                        assert(s[j] == records[j]);
                    }
                },
                None => {
                    assert(s[k].name != name);
                },
            }
        },
    }
}

/// The runtime VM is found by its id among the records after
/// `ensure_runtime_vm_exists`.
proof fn lemma_ensured_found(
    records: Seq<VmInfoView>,
    prefix: Seq<char>,
    counter: nat,
    name: Seq<char>,
    image_id: Seq<char>,
)
    requires
        distinct_ids(ensured_records(records, prefix, counter, name, image_id)),
    ensures
        find_vm(
            ensured_records(records, prefix, counter, name, image_id),
            ensured_id(records, prefix, counter, name),
        ) is Some,
{
    let s = ensured_records(records, prefix, counter, name, image_id);
    lemma_first_named(records, name);
    let k: int = match first_named(records, name) {
        Some(i) => i,
        None => records.len() as int,
    };
    assert(0 <= k < s.len() && s[k].id == ensured_id(records, prefix, counter, name));
    crate::vm::lemma_find_vm_at(s, k);
}

fn hv_state(vms: &Vec<VmInfo>, vm_id: &str, hv: &StubHypervisor) -> (r: Option<VmState>)
    requires
        hv.wf(),
        infos_view(vms@) == hv.records(),
    ensures
        match find_vm(hv.records(), vm_id@) {
            Some(i) => r == Some(hv.records()[i].state),
            None => r is None,
        },
{
    let mut i: usize = 0;
    while i < vms.len()
        invariant
            hv.wf(),
            infos_view(vms@) == hv.records(),
            i <= vms.len(),
            forall|j: int| 0 <= j < i ==> (#[trigger] hv.records()[j]).id != vm_id@,
        decreases vms.len() - i,
    {
        if str_eq(vms[i].id.as_str(), vm_id) {
            proof {
                assert(hv.records()[i as int].id == vm_id@);
                crate::vm::lemma_find_vm_at(hv.records(), i as int);
            }
            return Some(vms[i].state);
        }
        proof {
            assert(hv.records()[i as int] == vms@[i as int]@);
        }
        i = i + 1;
    }
    None
}

// ---------------------------------------------------------------------------
// Windows runtime: WSL2 distro + dockerd on TCP
// ---------------------------------------------------------------------------

/// The TCP port dockerd listens on inside WSL, given
/// `CRATEBAY_WSL_DOCKER_PORT`: the value when it reads as a positive
/// `u16`, else the default.
pub fn wsl_docker_port(env_value: Option<&str>) -> (r: u16)
    ensures
        r == match env_value {
            Some(v) => match parse_unsigned(v@, u16::MAX as nat) {
                Some(n) => if n > 0 {
                    n as u16
                } else {
                    DEFAULT_WSL_DOCKER_PORT
                },
                None => DEFAULT_WSL_DOCKER_PORT,
            },
            None => DEFAULT_WSL_DOCKER_PORT,
        },
{
    match env_value {
        Some(v) => {
            let cv = chars_of(v);
            match parse_unsigned_vec(&cv, u16::MAX as u64) {
                Some(n) => {
                    if n > 0 {
                        return n as u16;
                    }
                },
                None => {},
            }
        },
        None => {},
    }
    DEFAULT_WSL_DOCKER_PORT
}

/// The WSL runtime image for an architecture.
pub fn runtime_wsl_image_id(arch: Arch) -> (r: String)
    ensures
        r@ == match arch {
            Arch::Aarch64 => "cratebay-runtime-wsl-aarch64"@,
            _ => "cratebay-runtime-wsl-x86_64"@,
        },
{
    match arch {
        Arch::Aarch64 => owned("cratebay-runtime-wsl-aarch64"),
        _ => owned("cratebay-runtime-wsl-x86_64"),
    }
}

/// The non-blank lines of `lines`, trimmed.
pub open spec fn nonblank_trimmed(lines: Seq<Seq<char>>) -> Seq<Seq<char>>
    decreases lines.len(),
{
    if lines.len() == 0 {
        Seq::empty()
    } else {
        let rest = nonblank_trimmed(lines.drop_last());
        let t = trim(lines.last());
        if t.len() > 0 {
            rest.push(t)
        } else {
            rest
        }
    }
}

/// The distro names that `wsl.exe -l -q` printed: its non-blank lines,
/// trimmed.
pub fn wsl_distro_names(stdout: &str) -> (r: Vec<String>)
    ensures
        r@.map_values(|d: String| d@) == nonblank_trimmed(split_on(stdout@, '\n')),
{
    let v = chars_of(stdout);
    let lines = split_chars(&v, '\n');
    let ghost ls = views_of(lines@);
    let mut r: Vec<String> = Vec::new();
    let mut i: usize = 0;
    while i < lines.len()
        invariant
            i <= lines.len(),
            ls == views_of(lines@),
            r@.map_values(|d: String| d@) == nonblank_trimmed(ls.take(i as int)),
        decreases lines.len() - i,
    {
        let ghost before = r@;
        proof {
            assert(ls.take(i as int + 1).drop_last() =~= ls.take(i as int));
            assert(ls.take(i as int + 1).last() == lines@[i as int]@);
        }
        let t = trim_vec(&lines[i]);
        if t.len() > 0 {
            let name = string_of(&t);
            r.push(name);
            proof {
                assert(r@.map_values(|d: String| d@) =~= before.map_values(|d: String| d@).push(name@));
            }
        }
        i = i + 1;
    }
    proof {
        assert(ls.take(i as int) =~= ls);
    }
    r
}

/// Whether `name` is among the listed distros.
pub fn wsl_distro_exists(distros: &Vec<String>, name: &str) -> (b: bool)
    ensures
        b == known_path(distros@, name@),
{
    is_known_path(distros, name)
}

/// The shell command that starts dockerd inside the WSL distro, listening
/// on the Unix socket and on TCP `port`.
pub fn wsl_dockerd_command(port: u16) -> (r: String)
    ensures
        r@ == "mkdir -p /var/lib/docker /var/run; (nohup dockerd -H unix:///var/run/docker.sock -H tcp://0.0.0.0:"@
            + decimal(port as nat) + " > /var/log/dockerd.log 2>&1 &) || true"@,
{
    let p = decimal_string(port as u64);
    let a = concat(
        "mkdir -p /var/lib/docker /var/run; (nohup dockerd -H unix:///var/run/docker.sock -H tcp://0.0.0.0:",
        p.as_str(),
    );
    concat(a.as_str(), " > /var/log/dockerd.log 2>&1 &) || true")
}

/// The guest IP from the outputs of the two address queries: the first
/// one that is not blank, trimmed.
pub fn wsl_guest_ip(first: &str, second: &str) -> (r: Result<String, HypervisorError>)
    ensures
        match r {
            Ok(ip) => if trim(first@).len() > 0 {
                ip@ == trim(first@)
            } else {
                trim(second@).len() > 0 && ip@ == trim(second@)
            },
            Err(e) => {
                &&& trim(first@).len() == 0
                &&& trim(second@).len() == 0
                &&& e matches HypervisorError::CreateFailed(m)
                &&& m@
                    == "Failed to determine WSL guest IP (ensure iproute2 is installed in the runtime rootfs)"@
            },
        },
{
    let a = trim_vec(&chars_of(first));
    if a.len() > 0 {
        return Ok(string_of(&a));
    }
    let b = trim_vec(&chars_of(second));
    if b.len() > 0 {
        return Ok(string_of(&b));
    }
    Err(
        HypervisorError::CreateFailed(
            owned(
                "Failed to determine WSL guest IP (ensure iproute2 is installed in the runtime rootfs)",
            ),
        ),
    )
}

/// How the Windows runtime is brought up, once the distro exists and
/// dockerd was asked to start: the `DOCKER_HOST` on localhost when the port
/// answers there, else on the guest address read from the two address
/// queries (failing when both are blank).
pub fn ensure_runtime_wsl_running(
    port: u16,
    local_port_open: bool,
    first_ip_query: &str,
    second_ip_query: &str,
) -> (r: Result<String, HypervisorError>)
    ensures
        local_port_open ==> (r matches Ok(h) && h@ == "tcp://127.0.0.1:"@ + decimal(port as nat)),
        !local_port_open ==> match r {
            Ok(h) => {
                let ip = if trim(first_ip_query@).len() > 0 {
                    trim(first_ip_query@)
                } else {
                    trim(second_ip_query@)
                };
                &&& trim(first_ip_query@).len() > 0 || trim(second_ip_query@).len() > 0
                &&& h@ == "tcp://"@ + ip + ":"@ + decimal(port as nat)
            },
            Err(e) => {
                &&& trim(first_ip_query@).len() == 0
                &&& trim(second_ip_query@).len() == 0
                &&& e matches HypervisorError::CreateFailed(_)
            },
        },
{
    if local_port_open {
        let h = wsl_docker_host(port, true, "");
        proof {
            reveal_strlit("127.0.0.1");
            reveal_strlit("tcp://");
            reveal_strlit("tcp://127.0.0.1:");
            reveal_strlit(":");
            assert(h@ =~= "tcp://127.0.0.1:"@ + decimal(port as nat));
        }
        return Ok(h);
    }
    match wsl_guest_ip(first_ip_query, second_ip_query) {
        Ok(ip) => Ok(wsl_docker_host(port, false, ip.as_str())),
        Err(e) => Err(e),
    }
}

/// The `DOCKER_HOST` value for the WSL runtime: localhost when the port
/// answers there, else the guest address.
pub fn wsl_docker_host(port: u16, local_port_open: bool, guest_ip: &str) -> (r: String)
    ensures
        r@ == "tcp://"@ + (if local_port_open {
            "127.0.0.1"@
        } else {
            guest_ip@
        }) + ":"@ + decimal(port as nat),
{
    let p = decimal_string(port as u64);
    let host = if local_port_open {
        "127.0.0.1"
    } else {
        guest_ip
    };
    let a = concat("tcp://", host);
    let b = concat(a.as_str(), ":");
    concat(b.as_str(), p.as_str())
}

// ---------------------------------------------------------------------------
// Installing runtime assets
// ---------------------------------------------------------------------------

/// An asset file that only stands in for the real one: smaller than 1 KiB
/// and saying `PLACEHOLDER` (`text` is its content when it could be read).
pub open spec fn placeholder_spec(size: u64, text: Option<Seq<char>>) -> bool {
    size < 1024 && match text {
        Some(t) => contains_text(t, "PLACEHOLDER"@),
        None => false,
    }
}

pub fn is_placeholder(size: u64, text: Option<&str>) -> (b: bool)
    ensures
        b == placeholder_spec(size, opt_str_view(text)),
{
    if size >= 1024 {
        return false;
    }
    match text {
        Some(t) => str_contains(t, "PLACEHOLDER"),
        None => false,
    }
}

/// Whether installing `image_id` from assets needs a root file system: the
/// catalog entry names one, or the image is not in the catalog.
pub open spec fn rootfs_required(image_id: Seq<char>) -> bool {
    match find_spec(catalog_spec(), image_id) {
        Some(e) => trim(e.rootfs_url).len() > 0,
        None => true,
    }
}

/// The asset files a runtime image is installed from, in the order they
/// are copied.
pub open spec fn runtime_assets_spec(image_id: Seq<char>) -> Seq<Seq<char>> {
    seq!["vmlinuz"@, "initramfs"@] + if rootfs_required(image_id) {
        seq!["rootfs.img"@]
    } else {
        Seq::empty()
    }
}

fn catalog_rootfs_required(image_id: &str) -> (b: bool)
    ensures
        b == rootfs_required(image_id@),
{
    let c = builtin_catalog();
    let ghost cv = entries_view(c@);
    let mut i: usize = 0;
    proof {
        assert(cv.skip(0) =~= cv);
    }
    while i < c.len()
        invariant
            cv == entries_view(c@),
            cv == catalog_spec(),
            i <= c.len(),
            find_spec(cv, image_id@) == find_spec(cv.skip(i as int), image_id@),
        decreases c.len() - i,
    {
        proof {
            assert(cv.skip(i as int).drop_first() =~= cv.skip(i as int + 1));
            assert(cv.skip(i as int)[0] == cv[i as int]);
            assert(cv[i as int] == c@[i as int]@);
        }
        if str_eq(c[i].id.as_str(), image_id) {
            return trim_vec(&chars_of(c[i].rootfs_url.as_str())).len() > 0;
        }
        i = i + 1;
    }
    true
}

pub open spec fn strings_view(v: Seq<String>) -> Seq<Seq<char>> {
    v.map_values(|s: String| s@)
}

/// The asset files a runtime image is installed from; see
/// [`runtime_assets_spec`].
pub fn runtime_asset_names(image_id: &str) -> (r: Vec<String>)
    ensures
        strings_view(r@) == runtime_assets_spec(image_id@),
{
    let mut r: Vec<String> = Vec::new();
    r.push(owned("vmlinuz"));
    r.push(owned("initramfs"));
    if catalog_rootfs_required(image_id) {
        r.push(owned("rootfs.img"));
    }
    proof {
        assert(strings_view(r@) =~= runtime_assets_spec(image_id@));
    }
    r
}

/// Checks one asset file before it is copied: it must be a file, and not a
/// placeholder.
pub fn check_runtime_asset(name: &str, path: &str, is_file: bool, size: u64, text: Option<&str>) -> (r: Result<
    (),
    HypervisorError,
>)
    ensures
        !is_file ==> (r matches Err(HypervisorError::CreateFailed(m)) && m@ == "Missing runtime asset '"@ + name@
            + "': "@ + path@),
        is_file && placeholder_spec(size, opt_str_view(text)) ==> (r matches Err(
            HypervisorError::CreateFailed(m),
        ) && m@ == "Runtime asset '"@ + path@
            + "' is a placeholder. Fetch real assets before using CrateBay Runtime."@),
        is_file && !placeholder_spec(size, opt_str_view(text)) ==> r is Ok,
{
    if !is_file {
        let a = concat("Missing runtime asset '", name);
        let a = concat(a.as_str(), "': ");
        return Err(HypervisorError::CreateFailed(concat(a.as_str(), path)));
    }
    if is_placeholder(size, text) {
        let a = concat("Runtime asset '", path);
        return Err(
            HypervisorError::CreateFailed(
                concat(a.as_str(), "' is a placeholder. Fetch real assets before using CrateBay Runtime."),
            ),
        );
    }
    Ok(())
}

/// The error when no assets are bundled for a runtime image.
pub fn runtime_assets_missing(image_id: &str) -> (e: HypervisorError)
    ensures
        e matches HypervisorError::CreateFailed(m) && m@ == "CrateBay Runtime assets not found for image '"@
            + image_id@
            + "'. Ensure the desktop app is installed correctly or set CRATEBAY_RUNTIME_ASSETS_DIR."@,
{
    let a = concat("CrateBay Runtime assets not found for image '", image_id);
    HypervisorError::CreateFailed(
        concat(
            a.as_str(),
            "'. Ensure the desktop app is installed correctly or set CRATEBAY_RUNTIME_ASSETS_DIR.",
        ),
    )
}

/// Where the WSL root file system comes from: `CRATEBAY_WSL_ROOTFS_TAR`
/// when it is not blank (taken as it is, `false`), else `rootfs.tar` of
/// the architecture's WSL image under the WSL assets directory (to be
/// checked, `true`); `CreateFailed` when there is neither.
pub fn wsl_rootfs_tar_path(env_tar: Option<&str>, assets_dir: Option<&str>, arch: Arch) -> (r: Result<
    (String, bool),
    HypervisorError,
>)
    ensures
        match non_blank(opt_str_view(env_tar)) {
            Some(p) => r matches Ok((x, check)) && x@ == p && !check,
            None => match assets_dir {
                Some(d) => r matches Ok((x, check)) && check && x@ == join(
                    join(
                        d@,
                        match arch {
                            Arch::Aarch64 => "cratebay-runtime-wsl-aarch64"@,
                            _ => "cratebay-runtime-wsl-x86_64"@,
                        },
                    ),
                    "rootfs.tar"@,
                ),
                None => r matches Err(HypervisorError::CreateFailed(m)) && m@
                    == "CrateBay WSL runtime assets not found. Ensure the desktop app is installed correctly or set CRATEBAY_RUNTIME_ASSETS_DIR / CRATEBAY_WSL_ROOTFS_TAR."@,
            },
        },
{
    if let Some(p) = env_tar {
        if is_non_blank(p) {
            return Ok((owned(p), false));
        }
    }
    match assets_dir {
        Some(d) => {
            let image = runtime_wsl_image_id(arch);
            let dir = join_path(d, image.as_str());
            Ok((join_path(dir.as_str(), "rootfs.tar"), true))
        },
        None => Err(
            HypervisorError::CreateFailed(
                owned(
                    "CrateBay WSL runtime assets not found. Ensure the desktop app is installed correctly or set CRATEBAY_RUNTIME_ASSETS_DIR / CRATEBAY_WSL_ROOTFS_TAR.",
                ),
            ),
        ),
    }
}

/// Checks the WSL root file system found among the assets.
pub fn check_wsl_rootfs(path: &str, is_file: bool, size: u64, text: Option<&str>) -> (r: Result<(), HypervisorError>)
    ensures
        !is_file ==> (r matches Err(HypervisorError::CreateFailed(m)) && m@
            == "Missing WSL runtime asset rootfs.tar: "@ + path@),
        is_file && placeholder_spec(size, opt_str_view(text)) ==> (r matches Err(
            HypervisorError::CreateFailed(m),
        ) && m@ == "WSL runtime asset '"@ + path@
            + "' is a placeholder. Fetch real assets before using CrateBay Runtime."@),
        is_file && !placeholder_spec(size, opt_str_view(text)) ==> r is Ok,
{
    if !is_file {
        return Err(HypervisorError::CreateFailed(concat("Missing WSL runtime asset rootfs.tar: ", path)));
    }
    if is_placeholder(size, text) {
        let a = concat("WSL runtime asset '", path);
        return Err(
            HypervisorError::CreateFailed(
                concat(a.as_str(), "' is a placeholder. Fetch real assets before using CrateBay Runtime."),
            ),
        );
    }
    Ok(())
}

/// The directory a WSL distro is imported into: `<data_dir>/wsl/<distro>`.
pub fn wsl_install_dir(data_dir: &str, distro: &str) -> (r: String)
    ensures
        r@ == join(join(data_dir@, "wsl"@), distro@),
{
    let a = join_path(data_dir, "wsl");
    join_path(a.as_str(), distro)
}

/// The arguments of `wsl.exe` that import the runtime distro as WSL 2.
pub fn wsl_import_args(distro: &str, install_dir: &str, rootfs: &str) -> (r: Vec<String>)
    ensures
        strings_view(r@) == seq!["--import"@, distro@, install_dir@, rootfs@, "--version"@, "2"@],
{
    let r = vec![owned("--import"), owned(distro), owned(install_dir), owned(rootfs), owned("--version"), owned("2")];
    proof {
        assert(strings_view(r@) =~= seq!["--import"@, distro@, install_dir@, rootfs@, "--version"@, "2"@]);
    }
    r
}

} // verus!
