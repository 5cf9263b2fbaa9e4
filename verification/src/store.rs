//! Where the VM store and per-VM files live, and how stored records are
//! read back: duplicate ids collapse to their last record and the next
//! free numeric id is derived from the stored ones.
//!
//! The environment and the file system are read by the caller; the
//! functions here take what was read as plain values.
use vstd::prelude::*;
use crate::hypervisor::{VmInfo, VmInfoView, infos_view};
use crate::text::{
    has_prefix, chars_of, clone_string, concat, decimal, decimal_string, find_last, is_ascii_digit,
    last_index_of, lemma_digits_value_decimal, lemma_last_index_unique, parse_unsigned,
    parse_unsigned_vec, push_char, slice_vec, starts_with, str_eq, string_of,
};

verus! {

// ---------------------------------------------------------------------------
// Platforms and environment
// ---------------------------------------------------------------------------

/// The operating system the program runs on.
#[derive(Debug, Clone, Copy, PartialEq, Eq, Structural)]
pub enum Platform {
    MacOs,
    Linux,
    Windows,
    Other,
}

/// The environment values from which the configuration, data and log
/// directories are derived. A variable that is unset (or not valid
/// Unicode) is `None`.
#[derive(Debug, Clone)]
pub struct DirEnv {
    pub platform: Platform,
    /// `CRATEBAY_CONFIG_DIR`, else `CARGOBAY_CONFIG_DIR`
    pub config_dir: Option<String>,
    /// `CRATEBAY_DATA_DIR`, else `CARGOBAY_DATA_DIR`
    pub data_dir: Option<String>,
    /// `CRATEBAY_LOG_DIR`, else `CARGOBAY_LOG_DIR`
    pub log_dir: Option<String>,
    /// `HOME`
    pub home: Option<String>,
    /// `XDG_CONFIG_HOME`
    pub xdg_config_home: Option<String>,
    /// `XDG_DATA_HOME`
    pub xdg_data_home: Option<String>,
    /// `APPDATA`
    pub appdata: Option<String>,
    /// The system's temporary directory.
    pub temp_dir: String,
}

/// `path` is among the paths known to exist.
pub open spec fn known_path(existing: Seq<String>, path: Seq<char>) -> bool {
    exists|i: int| 0 <= i < existing.len() && (#[trigger] existing[i])@ == path
}

/// Whether `path` is among the paths known to exist.
pub fn is_known_path(existing: &Vec<String>, path: &str) -> (b: bool)
    ensures
        b == known_path(existing@, path@),
{
    let mut i: usize = 0;
    while i < existing.len()
        invariant
            i <= existing.len(),
            forall|j: int| 0 <= j < i ==> (#[trigger] existing@[j])@ != path@,
        decreases existing.len() - i,
    {
        if str_eq(existing[i].as_str(), path) {
            proof {
                assert(existing@[i as int]@ == path@);
            }
            return true;
        }
        i = i + 1;
    }
    false
}

// ---------------------------------------------------------------------------
// Path joining
// ---------------------------------------------------------------------------

/// `base` joined with `part` as `Path::join` does it with `/` separators:
/// an absolute `part` replaces `base`, an empty `base` gives `part`, and a
/// separator is inserted unless `base` already ends with one.
pub open spec fn join(base: Seq<char>, part: Seq<char>) -> Seq<char> {
    if part.len() > 0 && part[0] == '/' {
        part
    } else if base.len() == 0 {
        part
    } else if base.last() == '/' {
        base + part
    } else {
        base + seq!['/'] + part
    }
}

/// A path that does not start with `/` (so `join` appends it).
pub open spec fn relative(part: Seq<char>) -> bool {
    part.len() == 0 || part[0] != '/'
}

/// Joining a relative part keeps the base as a prefix: everything built
/// under a directory stays under it.
pub proof fn law_join_keeps_base(base: Seq<char>, part: Seq<char>)
    requires
        relative(part),
    ensures
        has_prefix(join(base, part), base),
{
    let j = join(base, part);
    if base.len() == 0 {
        assert(j.take(0) =~= base);
    } else if base.last() == '/' {
        assert(j.take(base.len() as int) =~= base);
    } else {
        assert(j.take(base.len() as int) =~= base);
    }
}

/// A prefix of a prefix is a prefix.
pub proof fn lemma_prefix_trans(a: Seq<char>, b: Seq<char>, c: Seq<char>)
    requires
        has_prefix(b, a),
        has_prefix(c, b),
    ensures
        has_prefix(c, a),
{
    assert(c.take(a.len() as int) =~= b.take(a.len() as int));
}

/// Joining relative parts one after another keeps the base as a prefix.
pub proof fn law_join2_keeps_base(base: Seq<char>, p: Seq<char>, q: Seq<char>)
    requires
        relative(p),
        relative(q),
    ensures
        has_prefix(join(join(base, p), q), base),
{
    law_join_keeps_base(base, p);
    law_join_keeps_base(join(base, p), q);
    lemma_prefix_trans(base, join(base, p), join(join(base, p), q));
}

pub fn join_path(base: &str, part: &str) -> (r: String)
    ensures
        r@ == join(base@, part@),
{
    let b = chars_of(base);
    let p = chars_of(part);
    if p.len() > 0 && p[0] == '/' {
        return string_of(&p);
    }
    if b.len() == 0 {
        return string_of(&p);
    }
    let mut r = string_of(&b);
    if b[b.len() - 1] != '/' {
        push_char(&mut r, '/');
    }
    r.append(part);
    r
}

/// `p` without trailing `/` separators and trailing `.` components.
pub open spec fn strip_tail(p: Seq<char>) -> Seq<char>
    decreases p.len(),
{
    if p.len() > 1 && p.last() == '/' {
        strip_tail(p.drop_last())
    } else if p.len() >= 2 && p.last() == '.' && p[p.len() - 2] == '/' {
        strip_tail(p.drop_last())
    } else {
        p
    }
}

/// The last component of `p`, as `Path::file_name` gives it for
/// `/`-separated paths: `None` for a path that ends in `..`, is a root,
/// or is empty.
pub open spec fn file_name_spec(p: Seq<char>) -> Option<Seq<char>> {
    let t = strip_tail(p);
    let name = match last_index_of(t, '/') {
        Some(i) => t.skip(i + 1),
        None => t,
    };
    if name.len() == 0 || name == ".."@ || name == "."@ {
        None
    } else {
        Some(name)
    }
}

/// The parent of `p`, as `Path::parent` gives it for `/`-separated paths
/// without repeated separators: `None` for a root or an empty path, the
/// empty path for a single relative component.
pub open spec fn parent_spec(p: Seq<char>) -> Option<Seq<char>> {
    let t = strip_tail(p);
    if t.len() == 0 || t == seq!['/'] {
        None
    } else {
        match last_index_of(t, '/') {
            None => Some(Seq::empty()),
            Some(i) => if i == 0 {
                Some(seq!['/'])
            } else {
                Some(t.take(i))
            },
        }
    }
}

fn strip_tail_vec(v: &Vec<char>) -> (r: Vec<char>)
    ensures
        r@ == strip_tail(v@),
{
    let mut n: usize = v.len();
    proof {
        assert(v@.take(v.len() as int) =~= v@);
    }
    while (n > 1 && v[n - 1] == '/') || (n >= 2 && v[n - 1] == '.' && v[n - 2] == '/')
        invariant
            n <= v.len(),
            strip_tail(v@) == strip_tail(v@.take(n as int)),
        decreases n,
    {
        proof {
            assert(v@.take(n as int).drop_last() =~= v@.take(n - 1));
        }
        n = n - 1;
    }
    proof {
        assert(v@.take(v.len() as int) =~= v@);
    }
    slice_vec(v, 0, n)
}

/// The last component of a path.
pub fn file_name(p: &str) -> (r: Option<String>)
    ensures
        match r {
            Some(n) => file_name_spec(p@) == Some(n@),
            None => file_name_spec(p@) is None,
        },
{
    let v = chars_of(p);
    let t = strip_tail_vec(&v);
    let name = match find_last(&t, '/') {
        Some(i) => {
            let r = slice_vec(&t, i + 1, t.len());
            proof {
                assert(r@ =~= t@.skip(i + 1));
            }
            r
        },
        None => t,
    };
    let s = string_of(&name);
    if name.len() == 0 || str_eq(s.as_str(), "..") || str_eq(s.as_str(), ".") {
        None
    } else {
        Some(s)
    }
}

/// The parent of a path.
pub fn parent_path(p: &str) -> (r: Option<String>)
    ensures
        match r {
            Some(q) => parent_spec(p@) == Some(q@),
            None => parent_spec(p@) is None,
        },
{
    let v = chars_of(p);
    let t = strip_tail_vec(&v);
    if t.len() == 0 || (t.len() == 1 && t[0] == '/') {
        proof {
            if t.len() == 1 {
                assert(t@ =~= seq!['/']);
            }
        }
        return None;
    }
    proof {
        assert(t@ != seq!['/']);
    }
    match find_last(&t, '/') {
        None => Some(String::new()),
        Some(i) => {
            if i == 0 {
                let mut r = String::new();
                push_char(&mut r, '/');
                proof {
                    assert(r@ =~= seq!['/']);
                }
                Some(r)
            } else {
                let q = slice_vec(&t, 0, i);
                proof {
                    assert(q@ =~= t@.take(i as int));
                }
                Some(string_of(&q))
            }
        },
    }
}

// ---------------------------------------------------------------------------
// Directories
// ---------------------------------------------------------------------------

/// The configuration directory.
pub open spec fn config_dir_spec(env: DirEnv) -> Seq<char> {
    if env.config_dir is Some {
        env.config_dir->0@
    } else if env.platform == Platform::MacOs && env.home is Some {
        join(join(join(env.home->0@, "Library"@), "Application Support"@), "com.cargobay.app"@)
    } else if env.platform == Platform::Linux && env.xdg_config_home is Some {
        join(env.xdg_config_home->0@, "cargobay"@)
    } else if env.platform == Platform::Linux && env.home is Some {
        join(join(env.home->0@, ".config"@), "cargobay"@)
    } else if env.platform == Platform::Windows && env.appdata is Some {
        join(env.appdata->0@, "cargobay"@)
    } else {
        join(env.temp_dir@, "cargobay"@)
    }
}

/// The data directory.
pub open spec fn data_dir_spec(env: DirEnv) -> Seq<char> {
    if env.data_dir is Some {
        env.data_dir->0@
    } else if env.platform == Platform::Linux && env.xdg_data_home is Some {
        join(env.xdg_data_home->0@, "cargobay"@)
    } else if env.platform == Platform::Linux && env.home is Some {
        join(join(join(env.home->0@, ".local"@), "share"@), "cargobay"@)
    } else {
        config_dir_spec(env)
    }
}

/// The log directory.
pub open spec fn log_dir_spec(env: DirEnv) -> Seq<char> {
    if env.log_dir is Some {
        env.log_dir->0@
    } else if env.platform == Platform::Linux {
        data_dir_spec(env)
    } else {
        config_dir_spec(env)
    }
}

/// Directory for configuration files such as the VM store.
pub fn config_dir(env: &DirEnv) -> (r: String)
    ensures
        r@ == config_dir_spec(*env),
{
    if let Some(d) = &env.config_dir {
        return clone_string(d);
    }
    match env.platform {
        Platform::MacOs => {
            if let Some(home) = &env.home {
                let a = join_path(home.as_str(), "Library");
                let b = join_path(a.as_str(), "Application Support");
                return join_path(b.as_str(), "com.cargobay.app");
            }
        },
        Platform::Linux => {
            if let Some(xdg) = &env.xdg_config_home {
                return join_path(xdg.as_str(), "cargobay");
            }
            if let Some(home) = &env.home {
                let a = join_path(home.as_str(), ".config");
                return join_path(a.as_str(), "cargobay");
            }
        },
        Platform::Windows => {
            if let Some(appdata) = &env.appdata {
                return join_path(appdata.as_str(), "cargobay");
            }
        },
        Platform::Other => {},
    }
    join_path(env.temp_dir.as_str(), "cargobay")
}

/// Directory for VM disks, images and other data.
pub fn data_dir(env: &DirEnv) -> (r: String)
    ensures
        r@ == data_dir_spec(*env),
{
    if let Some(d) = &env.data_dir {
        return clone_string(d);
    }
    if env.platform == Platform::Linux {
        if let Some(xdg) = &env.xdg_data_home {
            return join_path(xdg.as_str(), "cargobay");
        }
        if let Some(home) = &env.home {
            let a = join_path(home.as_str(), ".local");
            let b = join_path(a.as_str(), "share");
            return join_path(b.as_str(), "cargobay");
        }
    }
    config_dir(env)
}

/// Directory for log files.
pub fn log_dir(env: &DirEnv) -> (r: String)
    ensures
        r@ == log_dir_spec(*env),
{
    if let Some(d) = &env.log_dir {
        return clone_string(d);
    }
    if env.platform == Platform::Linux {
        data_dir(env)
    } else {
        config_dir(env)
    }
}

// ---------------------------------------------------------------------------
// Per-VM paths
// ---------------------------------------------------------------------------

pub open spec fn vm_dir_spec(data_dir: Seq<char>, id: Seq<char>) -> Seq<char> {
    join(join(data_dir, "vms"@), id)
}

/// `<data_dir>/vms/<id>`
pub fn vm_dir(data_dir: &str, id: &str) -> (r: String)
    ensures
        r@ == vm_dir_spec(data_dir@, id@),
{
    let a = join_path(data_dir, "vms");
    join_path(a.as_str(), id)
}

/// The disk image of a VM: `disk.vhdx` under Hyper-V, `disk.raw` elsewhere.
pub fn vm_disk_path(data_dir: &str, id: &str, platform: Platform) -> (r: String)
    ensures
        r@ == join(
            vm_dir_spec(data_dir@, id@),
            if platform == Platform::Windows {
                "disk.vhdx"@
            } else {
                "disk.raw"@
            },
        ),
{
    let d = vm_dir(data_dir, id);
    if platform == Platform::Windows {
        join_path(d.as_str(), "disk.vhdx")
    } else {
        join_path(d.as_str(), "disk.raw")
    }
}

/// The serial console log of a VM: `<data_dir>/vms/<id>/console.log`.
pub fn vm_console_log_path(data_dir: &str, vm_id: &str) -> (r: String)
    ensures
        r@ == join(vm_dir_spec(data_dir@, vm_id@), "console.log"@),
{
    let d = vm_dir(data_dir, vm_id);
    join_path(d.as_str(), "console.log")
}

/// Where the VM runner of a VM records its process id.
pub fn vm_runner_pid_path(data_dir: &str, id: &str) -> (r: String)
    ensures
        r@ == join(vm_dir_spec(data_dir@, id@), "runner.pid"@),
{
    let d = vm_dir(data_dir, id);
    join_path(d.as_str(), "runner.pid")
}

/// The file whose presence says that the VM runner of a VM is ready.
pub fn vm_runner_ready_path(data_dir: &str, id: &str) -> (r: String)
    ensures
        r@ == join(vm_dir_spec(data_dir@, id@), "runner.ready"@),
{
    let d = vm_dir(data_dir, id);
    join_path(d.as_str(), "runner.ready")
}

// ---------------------------------------------------------------------------
// The VM store
// ---------------------------------------------------------------------------

/// The file that holds the VM records: `<config_dir>/vms.json`.
#[derive(Debug, Clone)]
pub struct VmStore {
    path: String,
}

impl VmStore {
    pub closed spec fn spec_path(&self) -> Seq<char> {
        self.path@
    }

    pub fn new(env: &DirEnv) -> (s: VmStore)
        ensures
            s.spec_path() == join(config_dir_spec(*env), "vms.json"@),
    {
        let dir = config_dir(env);
        VmStore { path: join_path(dir.as_str(), "vms.json") }
    }

    pub fn path(&self) -> (p: &str)
        ensures
            p@ == self.spec_path(),
    {
        self.path.as_str()
    }
}

/// Whether the record at index `i` is the last one with its id.
pub open spec fn last_with_id(s: Seq<VmInfoView>, i: int) -> bool {
    forall|j: int| i < j < s.len() ==> (#[trigger] s[j]).id != s[i].id
}

/// The records among the first `n` that are the last with their id, in
/// order.
pub open spec fn dedupe_prefix(s: Seq<VmInfoView>, n: int) -> Seq<VmInfoView>
    decreases n,
{
    if n <= 0 {
        Seq::empty()
    } else if last_with_id(s, n - 1) {
        dedupe_prefix(s, n - 1).push(s[n - 1])
    } else {
        dedupe_prefix(s, n - 1)
    }
}

/// The stored records with duplicate ids collapsed: for each id the last
/// record wins.
pub open spec fn dedupe_by_id_spec(s: Seq<VmInfoView>) -> Seq<VmInfoView> {
    dedupe_prefix(s, s.len() as int)
}

/// No two records share an id.
pub open spec fn distinct_ids(s: Seq<VmInfoView>) -> bool {
    forall|a: int, b: int| 0 <= a < b < s.len() ==> (#[trigger] s[a]).id != (#[trigger] s[b]).id
}

fn is_last_with_id(v: &Vec<VmInfo>, i: usize) -> (r: bool)
    requires
        i < v.len(),
    ensures
        r == last_with_id(infos_view(v@), i as int),
{
    let mut j: usize = i + 1;
    while j < v.len()
        invariant
            i < j <= v.len(),
            forall|k: int| i < k < j ==> (#[trigger] infos_view(v@)[k]).id != infos_view(v@)[i as int].id,
        decreases v.len() - j,
    {
        if str_eq(v[j].id.as_str(), v[i].id.as_str()) {
            proof {
                assert(infos_view(v@)[j as int].id == infos_view(v@)[i as int].id);
            }
            return false;
        }
        j = j + 1;
    }
    true
}

/// Collapses records with the same id, keeping the last one of each, in
/// the order of those last records.
pub fn dedupe_by_id(v: Vec<VmInfo>) -> (r: Vec<VmInfo>)
    ensures
        infos_view(r@) == dedupe_by_id_spec(infos_view(v@)),
        distinct_ids(infos_view(r@)),
        forall|k: int|
            0 <= k < r@.len() ==> infos_view(v@).contains(#[trigger] infos_view(r@)[k]),
{
    let ghost s = infos_view(v@);
    let ghost mut src: Seq<int> = Seq::empty();
    let mut r: Vec<VmInfo> = Vec::new();
    let mut i: usize = 0;
    while i < v.len()
        invariant
            s == infos_view(v@),
            i <= v.len(),
            infos_view(r@) == dedupe_prefix(s, i as int),
            distinct_ids(infos_view(r@)),
            src.len() == r@.len(),
            forall|k: int|
                0 <= k < src.len() ==> 0 <= #[trigger] src[k] < i && last_with_id(s, src[k])
                    && infos_view(r@)[k] == s[src[k]],
        decreases v.len() - i,
    {
        if is_last_with_id(&v, i) {
            let ghost old_r = infos_view(r@);
            proof {
                assert forall|k: int| 0 <= k < old_r.len() implies (#[trigger] old_r[k]).id != s[i as int].id by {
                    let j = src[k];
                    assert(i as int > j);
                    assert(last_with_id(s, j));
                    assert(s[i as int].id != s[j].id);
                }
            }
            r.push(v[i].duplicate());
            proof {
                assert(infos_view(r@) =~= old_r.push(s[i as int]));
                src = src.push(i as int);
            }
        }
        i = i + 1;
    }
    proof {
        assert forall|k: int| 0 <= k < r@.len() implies s.contains(#[trigger] infos_view(r@)[k]) by {
            assert(s[src[k]] == infos_view(r@)[k]);
        }
    }
    r
}

// ---------------------------------------------------------------------------
// Numeric ids
// ---------------------------------------------------------------------------

/// The number in an id of the form `<prefix><n>`, read as `str::parse`
/// reads a `u64`.
pub open spec fn id_number(id: Seq<char>, prefix: Seq<char>) -> Option<nat> {
    if prefix.len() <= id.len() && id.take(prefix.len() as int) == prefix {
        parse_unsigned(id.skip(prefix.len() as int), u64::MAX as nat)
    } else {
        None
    }
}

/// The largest id number among the first `n` records (0 when none has one).
pub open spec fn max_id_number(s: Seq<VmInfoView>, prefix: Seq<char>, n: int) -> nat
    decreases n,
{
    if n <= 0 {
        0
    } else {
        let rest = max_id_number(s, prefix, n - 1);
        match id_number(s[n - 1].id, prefix) {
            Some(k) => if k > rest {
                k
            } else {
                rest
            },
            None => rest,
        }
    }
}

/// One past the largest id number in use, saturating at `u64::MAX`.
pub open spec fn next_id_spec(s: Seq<VmInfoView>, prefix: Seq<char>) -> nat {
    let m = max_id_number(s, prefix, s.len() as int);
    if m >= u64::MAX {
        u64::MAX as nat
    } else {
        m + 1
    }
}

pub proof fn lemma_max_id_number_bound(s: Seq<VmInfoView>, prefix: Seq<char>, n: int)
    requires
        0 <= n <= s.len(),
    ensures
        max_id_number(s, prefix, n) <= u64::MAX,
        forall|j: int|
            0 <= j < n ==> (id_number(#[trigger] s[j].id, prefix) matches Some(k) ==> k
                <= max_id_number(s, prefix, n)),
    decreases n,
{
    if n > 0 {
        lemma_max_id_number_bound(s, prefix, n - 1);
    }
}

/// Number in `id` after `prefix`, if `id` has that form.
pub fn id_number_of(id: &str, prefix: &str) -> (r: Option<u64>)
    ensures
        match r {
            Some(k) => id_number(id@, prefix@) == Some(k as nat),
            None => id_number(id@, prefix@) is None,
        },
{
    let v = chars_of(id);
    let p = chars_of(prefix);
    if !starts_with(&v, &p) {
        return None;
    }
    let rest = slice_vec(&v, p.len(), v.len());
    proof {
        assert(rest@ =~= v@.skip(p@.len() as int));
    }
    parse_unsigned_vec(&rest, u64::MAX)
}

/// The id number to hand out next: one past the largest `<prefix><n>` id
/// in `vms`, at least 1, saturating at `u64::MAX`.
pub fn next_id_for_prefix(vms: &[VmInfo], prefix: &str) -> (r: u64)
    ensures
        r as nat == next_id_spec(infos_view(vms@), prefix@),
        r >= 1,
{
    let ghost s = infos_view(vms@);
    let mut m: u64 = 0;
    let mut i: usize = 0;
    while i < vms.len()
        invariant
            s == infos_view(vms@),
            i <= vms.len(),
            m as nat == max_id_number(s, prefix@, i as int),
        decreases vms.len() - i,
    {
        match id_number_of(vms[i].id.as_str(), prefix) {
            Some(k) => {
                if k > m {
                    m = k;
                }
            },
            None => {},
        }
        i = i + 1;
    }
    if m == u64::MAX {
        u64::MAX
    } else {
        m + 1
    }
}

/// A VM's console log lies under the data directory (for an id that is
/// not an absolute path).
pub proof fn law_console_log_under_data_dir(data_dir: Seq<char>, id: Seq<char>)
    requires
        relative(id),
    ensures
        has_prefix(join(vm_dir_spec(data_dir, id), "console.log"@), data_dir),
{
    reveal_strlit("vms");
    reveal_strlit("console.log");
    law_join2_keeps_base(data_dir, "vms"@, id);
    law_join_keeps_base(vm_dir_spec(data_dir, id), "console.log"@);
    lemma_prefix_trans(
        data_dir,
        vm_dir_spec(data_dir, id),
        join(vm_dir_spec(data_dir, id), "console.log"@),
    );
}

/// Where a helper executable is run from: the path an environment
/// variable names, else `name` next to the running executable when that
/// file exists, else `name` alone (found through `PATH`).
pub fn locate_executable(
    env_path: Option<&str>,
    exe_dir: Option<&str>,
    existing: &Vec<String>,
    name: &str,
) -> (r: String)
    ensures
        r@ == match env_path {
            Some(p) => p@,
            None => match exe_dir {
                Some(d) => if known_path(existing@, join(d@, name@)) {
                    join(d@, name@)
                } else {
                    name@
                },
                None => name@,
            },
        },
{
    if let Some(p) = env_path {
        return crate::text::owned(p);
    }
    if let Some(d) = exe_dir {
        let candidate = join_path(d, name);
        if is_known_path(existing, candidate.as_str()) {
            return candidate;
        }
    }
    crate::text::owned(name)
}

// ---------------------------------------------------------------------------
// Replacing a file through a temporary one
// ---------------------------------------------------------------------------

/// The directory a file is written next to: its parent, `.` when it has
/// none.
pub open spec fn dir_of(path: Seq<char>) -> Seq<char> {
    match parent_spec(path) {
        Some(d) => d,
        None => "."@,
    }
}

/// The name of the temporary file that replaces `path`: hidden, unique to
/// the process and the moment, and ending in `.tmp`.
pub open spec fn temp_name(path: Seq<char>, pid: nat, nanos: nat) -> Seq<char> {
    let name = match file_name_spec(path) {
        Some(n) => n,
        None => "vms.json"@,
    };
    "."@ + decimal(pid) + "."@ + decimal(nanos) + "."@ + name + ".tmp"@
}

/// The temporary file through which `path` is replaced: `temp_name` in the
/// directory of `path`.
pub open spec fn temp_path_spec(path: Seq<char>, pid: nat, nanos: nat) -> Seq<char> {
    join(dir_of(path), temp_name(path, pid, nanos))
}

pub fn atomic_temp_path(path: &str, pid: u32, nanos: u64) -> (r: String)
    ensures
        r@ == temp_path_spec(path@, pid as nat, nanos as nat),
{
    let dir = match parent_path(path) {
        Some(d) => d,
        None => crate::text::owned("."),
    };
    let name = match file_name(path) {
        Some(n) => n,
        None => crate::text::owned("vms.json"),
    };
    let a = concat(".", decimal_string(pid as u64).as_str());
    let a = concat(a.as_str(), ".");
    let a = concat(a.as_str(), decimal_string(nanos).as_str());
    let a = concat(a.as_str(), ".");
    let a = concat(a.as_str(), name.as_str());
    let a = concat(a.as_str(), ".tmp");
    join_path(dir.as_str(), a.as_str())
}

/// The last component of a path joined from a directory and a plain name
/// is that name.
proof fn lemma_file_name_of_join(dir: Seq<char>, name: Seq<char>)
    requires
        name.len() > 0,
        !name.contains('/'),
        name.last() != '/',
        name.last() != '.',
    ensures
        file_name_spec(join(dir, name)) == Some(name),
{
    let t = join(dir, name);
    assert(t.last() == name.last());
    assert(strip_tail(t) == t);
    let pre = if dir.len() == 0 {
        Seq::<char>::empty()
    } else if dir.last() == '/' {
        dir
    } else {
        dir + seq!['/']
    };
    assert(t =~= pre + name);
    if pre.len() == 0 {
        assert(!t.contains('/')) by {
            if t.contains('/') {
                let k = choose|k: int| 0 <= k < t.len() && t[k] == '/';
                assert(name[k] == '/');
                assert(name.contains('/'));
            }
        }
        assert(last_index_of(t, '/') is None);
    } else {
        let i = pre.len() - 1;
        assert(t[i] == '/');
        assert forall|j: int| i < j < t.len() implies t[j] != '/' by {
            assert(t[j] == name[j - pre.len()]);
            if name[j - pre.len()] == '/' {
                assert(name.contains('/'));
            }
        }
        lemma_last_index_unique(t, '/', i);
        assert(t.skip(i + 1) =~= name);
    }
    assert(name != ".."@ && name != "."@) by {
        reveal_strlit("..");
        reveal_strlit(".");
    }
}

/// A file is replaced through a temporary file in its own directory that
/// is never the file itself: the temporary file lies under the target's
/// directory, and its last component is the temporary name.
#[verifier::spinoff_prover]
#[verifier::rlimit(60)]
pub proof fn law_temp_file_is_a_sibling(path: Seq<char>, pid: nat, nanos: nat)
    ensures
        has_prefix(temp_path_spec(path, pid, nanos), dir_of(path)),
        file_name_spec(temp_path_spec(path, pid, nanos)) == Some(temp_name(path, pid, nanos)),
        temp_path_spec(path, pid, nanos) != path,
{
    reveal_strlit(".");
    reveal_strlit(".tmp");
    reveal_strlit("vms.json");
    let name = temp_name(path, pid, nanos);
    let fname = match file_name_spec(path) {
        Some(n) => n,
        None => "vms.json"@,
    };
    assert(name[0] == '.');
    law_join_keeps_base(dir_of(path), name);
    lemma_decimal_no_slash(pid);
    lemma_decimal_no_slash(nanos);
    lemma_file_name_no_slash(path);
    assert(!"vms.json"@.contains('/')) by {
        if "vms.json"@.contains('/') {
            let k = choose|k: int| 0 <= k < "vms.json"@.len() && "vms.json"@[k] == '/';
        }
    }
    assert(!fname.contains('/'));
    let parts = seq!['.'] + decimal(pid) + seq!['.'] + decimal(nanos) + seq!['.'] + fname + ".tmp"@;
    assert(name =~= parts);
    assert(!name.contains('/')) by {
        if name.contains('/') {
            let k = choose|k: int| 0 <= k < name.len() && name[k] == '/';
            let a = decimal(pid).len() as int;
            let b = decimal(nanos).len() as int;
            let f = fname.len() as int;
            if k == 0 {
            } else if k < 1 + a {
                assert(decimal(pid)[k - 1] == '/');
                assert(decimal(pid).contains('/'));
            } else if k == 1 + a {
            } else if k < 2 + a + b {
                assert(decimal(nanos)[k - 2 - a] == '/');
                assert(decimal(nanos).contains('/'));
            } else if k == 2 + a + b {
            } else if k < 3 + a + b + f {
                assert(fname[k - 3 - a - b] == '/');
                assert(fname.contains('/'));
            } else {
                assert(".tmp"@[k - 3 - a - b - f] == '/');
            }
        }
    }
    assert(name.last() == 'p');
    lemma_file_name_of_join(dir_of(path), name);
    if temp_path_spec(path, pid, nanos) == path {
        assert(file_name_spec(path) == Some(name));
        assert(fname == name);
        assert(name.len() > fname.len());
    }
}

proof fn lemma_decimal_no_slash(n: nat)
    ensures
        !decimal(n).contains('/'),
{
    lemma_digits_value_decimal(n);
    if decimal(n).contains('/') {
        let k = choose|k: int| 0 <= k < decimal(n).len() && decimal(n)[k] == '/';
        assert(is_ascii_digit(decimal(n)[k]));
    }
}

proof fn lemma_file_name_no_slash(path: Seq<char>)
    ensures
        file_name_spec(path) matches Some(n) ==> !n.contains('/'),
{
    let t = strip_tail(path);
    match last_index_of(t, '/') {
        Some(i) => {
            crate::text::lemma_last_index_in(t, '/');
            let n = t.skip(i + 1);
            if n.contains('/') {
                let k = choose|k: int| 0 <= k < n.len() && n[k] == '/';
                assert(t[i + 1 + k] == '/');
            }
        },
        None => {
            if t.contains('/') {
            }
        },
    }
}

} // verus!
