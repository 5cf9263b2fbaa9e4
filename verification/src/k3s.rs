//! K3s (lightweight Kubernetes) management decisions.
//!
//! K3s is downloaded on-demand from GitHub releases. Running processes and
//! touching files are the caller's part: the functions here say which
//! release to fetch, where K3s lives, how to start it, and what its
//! command output means.
use vstd::prelude::*;
use crate::store::{Platform, is_known_path, join, join_path, known_path};
use crate::text::has_prefix;
use crate::text::{
    chars_of, clone_string, concat, is_unicode_whitespace, owned, slice_vec, str_eq, string_of,
    unicode_whitespace,
};

verus! {

/// Default K3s version to download when none is specified.
pub const DEFAULT_K3S_VERSION: &'static str = "v1.31.4+k3s1";

/// The release asset for an architecture.
pub open spec fn k3s_binary_name(arch: Seq<char>) -> Seq<char> {
    if arch == "aarch64"@ || arch == "arm64"@ {
        "k3s-arm64"@
    } else {
        "k3s"@
    }
}

/// GitHub release download URL.
/// Linux amd64: https://github.com/k3s-io/k3s/releases/download/{version}/k3s
/// Linux arm64: https://github.com/k3s-io/k3s/releases/download/{version}/k3s-arm64
pub fn download_url(version: &str, arch: &str) -> (r: String)
    ensures
        r@ == "https://github.com/k3s-io/k3s/releases/download/"@ + version@ + "/"@
            + k3s_binary_name(arch@),
{
    let binary = if str_eq(arch, "aarch64") || str_eq(arch, "arm64") {
        "k3s-arm64"
    } else {
        "k3s"
    };
    let a = concat("https://github.com/k3s-io/k3s/releases/download/", version);
    let b = concat(a.as_str(), "/");
    concat(b.as_str(), binary)
}

// ---------------------------------------------------------------------------
// Errors and types
// ---------------------------------------------------------------------------

#[derive(Debug)]
pub enum K3sError {
    NotInstalled,
    AlreadyRunning,
    NotRunning,
    DownloadFailed(String),
    StartFailed(String),
    StopFailed(String),
    UnsupportedPlatform(String),
    /// An I/O failure, carrying the operating system's message.
    Io(String),
}

pub open spec fn k3s_error_text(e: K3sError) -> Seq<char> {
    match e {
        K3sError::NotInstalled => "K3s is not installed"@,
        K3sError::AlreadyRunning => "K3s is already running"@,
        K3sError::NotRunning => "K3s is not running"@,
        K3sError::DownloadFailed(m) => "K3s download failed: "@ + m@,
        K3sError::StartFailed(m) => "K3s start failed: "@ + m@,
        K3sError::StopFailed(m) => "K3s stop failed: "@ + m@,
        K3sError::UnsupportedPlatform(m) => "unsupported platform: "@ + m@,
        K3sError::Io(m) => "IO error: "@ + m@,
    }
}

impl K3sError {
    /// The human-readable message of this error.
    pub fn describe(&self) -> (s: String)
        ensures
            s@ == k3s_error_text(*self),
    {
        match self {
            K3sError::NotInstalled => owned("K3s is not installed"),
            K3sError::AlreadyRunning => owned("K3s is already running"),
            K3sError::NotRunning => owned("K3s is not running"),
            K3sError::DownloadFailed(m) => concat("K3s download failed: ", m.as_str()),
            K3sError::StartFailed(m) => concat("K3s start failed: ", m.as_str()),
            K3sError::StopFailed(m) => concat("K3s stop failed: ", m.as_str()),
            K3sError::UnsupportedPlatform(m) => concat("unsupported platform: ", m.as_str()),
            K3sError::Io(m) => concat("IO error: ", m.as_str()),
        }
    }
}

/// Configuration for starting a K3s cluster.
#[derive(Debug, Clone)]
pub struct K3sConfig {
    /// Directory for K3s data storage.
    pub data_dir: String,
    /// Disable the built-in Traefik ingress controller.
    pub disable_traefik: bool,
    /// Flannel CNI backend (e.g. "vxlan", "host-gw", "wireguard-native").
    pub flannel_backend: String,
}

impl K3sConfig {
    /// The default configuration under the given application data
    /// directory: K3s data in `<data_dir>/k3s/data`, Traefik enabled,
    /// `vxlan` networking.
    pub fn default_for(data_dir: &str) -> (c: K3sConfig)
        ensures
            c.data_dir@ == k3s_data_dir_spec(data_dir@),
            !c.disable_traefik,
            c.flannel_backend@ == "vxlan"@,
    {
        K3sConfig {
            data_dir: k3s_data_dir(data_dir),
            disable_traefik: false,
            flannel_backend: owned("vxlan"),
        }
    }
}

/// Status information for a K3s cluster.
#[derive(Debug, Clone, Default)]
pub struct K3sStatus {
    /// Whether the k3s binary is present on disk.
    pub installed: bool,
    /// Whether the k3s server process is currently running.
    pub running: bool,
    /// K3s version string (empty if not installed).
    pub version: String,
    /// Number of nodes in the cluster (0 if not running).
    pub node_count: u32,
}

// ---------------------------------------------------------------------------
// Paths
// ---------------------------------------------------------------------------

pub open spec fn k3s_base_dir_spec(data_dir: Seq<char>) -> Seq<char> {
    join(data_dir, "k3s"@)
}

pub open spec fn k3s_data_dir_spec(data_dir: Seq<char>) -> Seq<char> {
    join(k3s_base_dir_spec(data_dir), "data"@)
}

/// Root directory for K3s binaries and data.
pub fn k3s_base_dir(data_dir: &str) -> (r: String)
    ensures
        r@ == k3s_base_dir_spec(data_dir@),
{
    join_path(data_dir, "k3s")
}

/// Directory containing the k3s binary.
pub fn k3s_bin_dir(data_dir: &str) -> (r: String)
    ensures
        r@ == join(k3s_base_dir_spec(data_dir@), "bin"@),
{
    let b = k3s_base_dir(data_dir);
    join_path(b.as_str(), "bin")
}

/// K3s data directory (server state, etcd, etc.).
pub fn k3s_data_dir(data_dir: &str) -> (r: String)
    ensures
        r@ == k3s_data_dir_spec(data_dir@),
{
    let b = k3s_base_dir(data_dir);
    join_path(b.as_str(), "data")
}

/// Path to the k3s binary.
pub fn k3s_binary_path(data_dir: &str) -> (r: String)
    ensures
        r@ == join(join(k3s_base_dir_spec(data_dir@), "bin"@), "k3s"@),
{
    let b = k3s_bin_dir(data_dir);
    join_path(b.as_str(), "k3s")
}

// ---------------------------------------------------------------------------
// Reading command output
// ---------------------------------------------------------------------------

/// A whitespace-separated token of `s` starts at `i` with `v` and a
/// digit, as a version number does.
pub open spec fn starts_v_token(s: Seq<char>, i: int) -> bool {
    &&& 0 <= i
    &&& i + 1 < s.len()
    &&& s[i] == 'v'
    &&& '0' <= s[i + 1] <= '9'
    &&& (i == 0 || is_unicode_whitespace(s[i - 1]))
}

/// End (exclusive) of the token that starts at `i`.
pub open spec fn token_end(s: Seq<char>, i: int) -> int
    decreases s.len() - i,
{
    if i >= s.len() || is_unicode_whitespace(s[i]) {
        i
    } else {
        token_end(s, i + 1)
    }
}

/// The version that `k3s --version` prints: its first token made of `v`
/// and a digit and what follows, e.g. `v1.31.4+k3s1` in
/// `k3s version v1.31.4+k3s1 (abc1234)` (the word `version` is no version).
pub open spec fn version_token(s: Seq<char>) -> Option<Seq<char>> {
    if exists|i: int| starts_v_token(s, i) {
        let i = choose|i: int| starts_v_token(s, i) && forall|j: int| 0 <= j < i ==> !starts_v_token(s, j);
        Some(s.subrange(i, token_end(s, i)))
    } else {
        None
    }
}

proof fn lemma_token_end_bound(s: Seq<char>, i: int)
    requires
        0 <= i <= s.len(),
    ensures
        i <= token_end(s, i) <= s.len(),
    decreases s.len() - i,
{
    if i < s.len() && !is_unicode_whitespace(s[i]) {
        lemma_token_end_bound(s, i + 1);
    }
}

fn find_token_end(v: &Vec<char>, i: usize) -> (e: usize)
    requires
        i <= v.len(),
    ensures
        e as int == token_end(v@, i as int),
        i <= e <= v.len(),
    decreases v.len() - i,
{
    if i >= v.len() || unicode_whitespace(v[i]) {
        i
    } else {
        find_token_end(v, i + 1)
    }
}

/// The version token of the output of `k3s --version`.
pub fn parse_k3s_version(output: &str) -> (r: Option<String>)
    ensures
        match r {
            Some(t) => version_token(output@) == Some(t@),
            None => version_token(output@) is None,
        },
{
    let v = chars_of(output);
    let mut i: usize = 0;
    while i < v.len()
        invariant
            v@ == output@,
            i <= v.len(),
            forall|j: int| 0 <= j < i ==> !starts_v_token(v@, j),
        decreases v.len() - i,
    {
        if i + 1 < v.len() && v[i] == 'v' && '0' <= v[i + 1] && v[i + 1] <= '9' && (i == 0
            || unicode_whitespace(v[i - 1])) {
            let e = find_token_end(&v, i);
            proof {
                assert(starts_v_token(v@, i as int));
                let k = choose|k: int| starts_v_token(v@, k) && forall|j: int| 0 <= j < k ==> !starts_v_token(v@, j);
                if k < i {
                    assert(!starts_v_token(v@, k));
                }
                if k > i {
                    assert(!starts_v_token(v@, i as int));
                }
            }
            return Some(crate::text::string_of_range(&v, i, e));
        }
        i = i + 1;
    }
    None
}

/// Line-scanning state: lines counted so far, and whether the current
/// line has shown a non-blank character.
pub open spec fn node_scan(s: Seq<char>) -> (nat, bool)
    decreases s.len(),
{
    if s.len() == 0 {
        (0, false)
    } else {
        let (n, seen) = node_scan(s.drop_last());
        let c = s.last();
        if c == '\n' {
            (n, false)
        } else if !is_unicode_whitespace(c) && !seen {
            (n + 1, true)
        } else {
            (n, seen)
        }
    }
}

/// Number of non-blank lines of `s`, as `kubectl get nodes --no-headers`
/// prints one line per node.
pub open spec fn non_blank_lines(s: Seq<char>) -> nat {
    node_scan(s).0
}

proof fn lemma_node_scan_bound(s: Seq<char>)
    ensures
        node_scan(s).0 <= s.len(),
    decreases s.len(),
{
    if s.len() > 0 {
        lemma_node_scan_bound(s.drop_last());
    }
}

/// Number of nodes that `k3s kubectl get nodes --no-headers` lists, as a
/// `u32` (truncated as `as u32` truncates).
pub fn count_nodes(output: &str) -> (n: u32)
    ensures
        n == non_blank_lines(output@) as u32,
{
    let v = chars_of(output);
    let mut count: usize = 0;
    let mut seen = false;
    let mut i: usize = 0;
    while i < v.len()
        invariant
            v@ == output@,
            i <= v.len(),
            (count as nat, seen) == node_scan(v@.take(i as int)),
            count <= i,
        decreases v.len() - i,
    {
        proof {
            assert(v@.take(i as int + 1).drop_last() =~= v@.take(i as int));
            assert(v@.take(i as int + 1).last() == v@[i as int]);
        }
        let c = v[i];
        if c == '\n' {
            seen = false;
        } else if !unicode_whitespace(c) && !seen {
            count = count + 1;
            seen = true;
        }
        i = i + 1;
    }
    proof {
        assert(v@.take(i as int) =~= v@);
    }
    count as u32
}

// ---------------------------------------------------------------------------
// Cluster lifecycle decisions
// ---------------------------------------------------------------------------

/// Manager for K3s lifecycle decisions.
pub struct K3sManager;

/// The arguments with which the K3s server is started.
pub open spec fn server_args(config: K3sConfig) -> Seq<Seq<char>> {
    let base = seq![
        "server"@,
        "--write-kubeconfig-mode"@,
        "644"@,
        "--data-dir"@,
        config.data_dir@,
        "--flannel-backend"@,
        config.flannel_backend@,
    ];
    if config.disable_traefik {
        base + seq!["--disable"@, "traefik"@]
    } else {
        base
    }
}

pub open spec fn strings_view(v: Seq<String>) -> Seq<Seq<char>> {
    v.map_values(|s: String| s@)
}

fn push_string(v: &mut Vec<String>, s: String)
    ensures
        strings_view(final(v)@) == strings_view(old(v)@).push(s@),
{
    v.push(s);
    proof {
        assert(strings_view(v@) =~= strings_view(old(v)@).push(s@));
    }
}

impl K3sManager {
    /// Whether the k3s binary is installed, given the files known to exist.
    pub fn is_installed(data_dir: &str, existing: &Vec<String>) -> (b: bool)
        ensures
            b == known_path(existing@, join(join(k3s_base_dir_spec(data_dir@), "bin"@), "k3s"@)),
    {
        let path = k3s_binary_path(data_dir);
        is_known_path(existing, path.as_str())
    }

    /// Decides how to start the cluster: fails with `NotInstalled` when the
    /// binary is missing and with `AlreadyRunning` when a server runs;
    /// otherwise gives the arguments for `k3s`.
    pub fn start_cluster(config: &K3sConfig, installed: bool, running: bool) -> (r: Result<
        Vec<String>,
        K3sError,
    >)
        ensures
            !installed ==> r matches Err(K3sError::NotInstalled),
            installed && running ==> r matches Err(K3sError::AlreadyRunning),
            installed && !running ==> (r matches Ok(args) && strings_view(args@) == server_args(
                *config,
            )),
    {
        if !installed {
            return Err(K3sError::NotInstalled);
        }
        if running {
            return Err(K3sError::AlreadyRunning);
        }
        let mut args: Vec<String> = Vec::new();
        push_string(&mut args, owned("server"));
        push_string(&mut args, owned("--write-kubeconfig-mode"));
        push_string(&mut args, owned("644"));
        push_string(&mut args, owned("--data-dir"));
        push_string(&mut args, clone_string(&config.data_dir));
        push_string(&mut args, owned("--flannel-backend"));
        push_string(&mut args, clone_string(&config.flannel_backend));
        if config.disable_traefik {
            push_string(&mut args, owned("--disable"));
            push_string(&mut args, owned("traefik"));
        }
        proof {
            assert(strings_view(args@) =~= server_args(*config));
        }
        Ok(args)
    }

    /// Decides whether the cluster can be stopped: `NotRunning` when no
    /// server runs, `UnsupportedPlatform` where processes cannot be
    /// signalled by name (non-Unix hosts).
    pub fn stop_cluster(running: bool, unix: bool) -> (r: Result<(), K3sError>)
        ensures
            !running ==> r matches Err(K3sError::NotRunning),
            running && !unix ==> (r matches Err(K3sError::UnsupportedPlatform(m)) && m@
                == "Stopping K3s on this platform is not yet supported."@),
            running && unix ==> r is Ok,
    {
        if !running {
            return Err(K3sError::NotRunning);
        }
        if !unix {
            return Err(
                K3sError::UnsupportedPlatform(
                    owned("Stopping K3s on this platform is not yet supported."),
                ),
            );
        }
        Ok(())
    }

    /// The cluster status from what was observed: the version only when
    /// installed (empty when it could not be read), the node count only
    /// when running (0 when it could not be read).
    pub fn cluster_status(
        installed: bool,
        running: bool,
        version_output: Option<&str>,
        nodes_output: Option<&str>,
    ) -> (s: K3sStatus)
        ensures
            s.installed == installed,
            s.running == running,
            s.version@ == (if installed {
                match version_output {
                    Some(o) => match version_token(o@) {
                        Some(t) => t,
                        None => ""@,
                    },
                    None => ""@,
                }
            } else {
                ""@
            }),
            s.node_count == (if running {
                match nodes_output {
                    Some(o) => non_blank_lines(o@) as u32,
                    None => 0,
                }
            } else {
                0
            }),
    {
        let version = if installed {
            match version_output {
                Some(o) => match parse_k3s_version(o) {
                    Some(t) => t,
                    None => owned(""),
                },
                None => owned(""),
            }
        } else {
            owned("")
        };
        let node_count = if running {
            match nodes_output {
                Some(o) => count_nodes(o),
                None => 0,
            }
        } else {
            0
        };
        K3sStatus { installed, running, version, node_count }
    }

    /// Path to the kubeconfig file generated by K3s.
    pub fn kubeconfig_path(data_dir: &str) -> (r: String)
        ensures
            r@ == join(join(join(k3s_data_dir_spec(data_dir@), "server"@), "cred"@), "admin.kubeconfig"@),
    {
        let d = k3s_data_dir(data_dir);
        let a = join_path(d.as_str(), "server");
        let b = join_path(a.as_str(), "cred");
        join_path(b.as_str(), "admin.kubeconfig")
    }
}

/// The kubeconfig lies under the data directory.
pub proof fn law_kubeconfig_under_data_dir(data_dir: Seq<char>)
    ensures
        has_prefix(
            join(join(join(k3s_data_dir_spec(data_dir), "server"@), "cred"@), "admin.kubeconfig"@),
            data_dir,
        ),
{
    reveal_strlit("k3s");
    reveal_strlit("data");
    reveal_strlit("server");
    reveal_strlit("cred");
    reveal_strlit("admin.kubeconfig");
    let d = k3s_data_dir_spec(data_dir);
    crate::store::law_join2_keeps_base(data_dir, "k3s"@, "data"@);
    crate::store::law_join2_keeps_base(d, "server"@, "cred"@);
    crate::store::law_join_keeps_base(join(join(d, "server"@), "cred"@), "admin.kubeconfig"@);
    crate::store::lemma_prefix_trans(data_dir, d, join(join(d, "server"@), "cred"@));
    crate::store::lemma_prefix_trans(
        data_dir,
        join(join(d, "server"@), "cred"@),
        join(join(join(d, "server"@), "cred"@), "admin.kubeconfig"@),
    );
}

// ---------------------------------------------------------------------------
// Installing
// ---------------------------------------------------------------------------

/// Decides how K3s is installed: only on Linux (elsewhere it is to run
/// inside a VM, which is not there yet), only in builds that can
/// download; then the release URL of `version` (the default when none is
/// given) for `arch`.
pub fn install_plan(version: Option<&str>, platform: Platform, can_download: bool, arch: &str) -> (r: Result<
    String,
    K3sError,
>)
    ensures
        platform != Platform::Linux ==> (r matches Err(K3sError::UnsupportedPlatform(m)) && m@
            == "K3s requires Linux. On macOS/Windows it will run inside a CargoBay VM (coming soon)."@),
        platform == Platform::Linux && !can_download ==> (r matches Err(K3sError::DownloadFailed(m)) && m@
            == "Build without 'download' feature; cannot fetch K3s binary."@),
        platform == Platform::Linux && can_download ==> (r matches Ok(u) && u@
            == "https://github.com/k3s-io/k3s/releases/download/"@ + match version {
            Some(v) => v@,
            None => DEFAULT_K3S_VERSION@,
        } + "/"@ + k3s_binary_name(arch@)),
{
    if platform != Platform::Linux {
        return Err(
            K3sError::UnsupportedPlatform(
                owned("K3s requires Linux. On macOS/Windows it will run inside a CargoBay VM (coming soon)."),
            ),
        );
    }
    if !can_download {
        return Err(K3sError::DownloadFailed(owned("Build without 'download' feature; cannot fetch K3s binary.")));
    }
    let v = match version {
        Some(v) => v,
        None => DEFAULT_K3S_VERSION,
    };
    Ok(download_url(v, arch))
}

/// The error when the release server answers with a failure status.
pub fn download_status_error(status: &str, url: &str) -> (e: K3sError)
    ensures
        e matches K3sError::DownloadFailed(m) && m@ == "HTTP "@ + status@ + ": "@ + url@,
{
    let a = concat("HTTP ", status);
    let a = concat(a.as_str(), ": ");
    K3sError::DownloadFailed(concat(a.as_str(), url))
}

} // verus!
