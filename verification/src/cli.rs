//! Decisions of the command-line client: where the daemon listens, which
//! VM a selector names, how registry references and `WWW-Authenticate`
//! challenges read, and the rows of the tables it prints.
//!
//! Talking to the daemon, to registries and to the terminal is the
//! caller's part.
use vstd::prelude::*;
use crate::daemon::{WireVmInfo, WireVmInfoView};
use crate::hypervisor::{HypervisorError, VmInfo, VmInfoView, VmState, infos_view};
use crate::k3s::K3sStatus;
use crate::store::Platform;
use crate::text::{
    after_first, before_first, chars_of, clone_string, concat, decimal, decimal_string,
    find_first, find_last, first_index_of, has_prefix, last_index_of, lower_seq, lower_vec, owned,
    pad_left, pad_right, padded_left, padded_right, prefix_before, push_char, slice_vec,
    split_chars, split_on, str_eq, str_starts_with, string_of, strip_char, strip_char_vec, trim,
    trim_vec, vec_contains_char, views_of,
};
use crate::vm::{StubHypervisor, find_vm, first_named, id_of_named};

verus! {

// ---------------------------------------------------------------------------
// The daemon
// ---------------------------------------------------------------------------

/// The gRPC endpoint for an address: the address itself when it carries
/// an `http://` or `https://` scheme, else the address under `http://`.
pub open spec fn endpoint_of(addr: Seq<char>) -> Seq<char> {
    if has_prefix(addr, "http://"@) || has_prefix(addr, "https://"@) {
        addr
    } else {
        "http://"@ + addr
    }
}

pub fn grpc_endpoint(addr: &str) -> (r: String)
    ensures
        r@ == endpoint_of(addr@),
{
    if str_starts_with(addr, "http://") || str_starts_with(addr, "https://") {
        owned(addr)
    } else {
        concat("http://", addr)
    }
}

/// What the client does after one attempt to reach the daemon while it
/// waits for it to come up.
#[derive(Debug, Clone, Copy, PartialEq, Eq, Structural)]
pub enum WaitStep {
    /// The daemon answered: use the connection.
    Ready,
    /// The deadline has passed: give up.
    TimedOut,
    /// Try again after this many milliseconds.
    RetryAfterMillis(u64),
}

/// The pause between two attempts to reach the daemon, in milliseconds.
pub const DAEMON_RETRY_MILLIS: u64 = 200;

/// The next step of the wait for the daemon: ready as soon as an attempt
/// connects, timed out once the clock reaches the deadline, else another
/// attempt after a short pause.
pub fn daemon_wait_step(connected: bool, now_millis: u64, deadline_millis: u64) -> (s: WaitStep)
    ensures
        s == (if connected {
            WaitStep::Ready
        } else if now_millis >= deadline_millis {
            WaitStep::TimedOut
        } else {
            WaitStep::RetryAfterMillis(DAEMON_RETRY_MILLIS)
        }),
{
    if connected {
        WaitStep::Ready
    } else if now_millis >= deadline_millis {
        WaitStep::TimedOut
    } else {
        WaitStep::RetryAfterMillis(DAEMON_RETRY_MILLIS)
    }
}

/// The error of a wait for the daemon that timed out.
pub fn daemon_wait_timeout_error(addr: &str) -> (m: String)
    ensures
        m@ == "Timed out waiting for daemon to become ready at "@ + endpoint_of(addr@),
{
    let e = grpc_endpoint(addr);
    concat("Timed out waiting for daemon to become ready at ", e.as_str())
}

/// The error of one attempt to connect to the daemon: it timed out, or
/// the transport refused it with `reason`.
pub fn daemon_connect_error(addr: &str, timed_out: bool, reason: &str) -> (m: String)
    ensures
        m@ == (if timed_out {
            "Timed out connecting to daemon at "@ + endpoint_of(addr@)
        } else {
            "Failed to connect to daemon at "@ + endpoint_of(addr@) + ": "@ + reason@
        }),
{
    let e = grpc_endpoint(addr);
    if timed_out {
        concat("Timed out connecting to daemon at ", e.as_str())
    } else {
        let a = concat("Failed to connect to daemon at ", e.as_str());
        let a = concat(a.as_str(), ": ");
        concat(a.as_str(), reason)
    }
}

/// The file name of the daemon executable on `platform`.
pub fn daemon_file_name(platform: Platform) -> (r: &'static str)
    ensures
        r@ == if platform == Platform::Windows {
            "cargobay-daemon.exe"@
        } else {
            "cargobay-daemon"@
        },
{
    if platform == Platform::Windows {
        "cargobay-daemon.exe"
    } else {
        "cargobay-daemon"
    }
}

// ---------------------------------------------------------------------------
// VM selectors
// ---------------------------------------------------------------------------

/// The id of the VM that `selector` names: the selector itself when a VM
/// has that id, else the id of the first VM with that name.
pub open spec fn selected_vm_id(s: Seq<VmInfoView>, selector: Seq<char>) -> Option<Seq<char>> {
    if find_vm(s, selector) is Some {
        Some(selector)
    } else {
        match first_named(s, selector) {
            Some(i) => Some(s[i].id),
            None => None,
        }
    }
}

fn has_vm_id(vms: &Vec<VmInfo>, id: &str) -> (b: bool)
    ensures
        b == (find_vm(infos_view(vms@), id@) is Some),
{
    let ghost s = infos_view(vms@);
    let mut i: usize = 0;
    while i < vms.len()
        invariant
            s == infos_view(vms@),
            i <= vms.len(),
            forall|j: int| 0 <= j < i ==> (#[trigger] s[j]).id != id@,
        decreases vms.len() - i,
    {
        if str_eq(vms[i].id.as_str(), id) {
            proof {
                assert(s[i as int].id == id@);
            }
            return true;
        }
        i = i + 1;
    }
    false
}

/// The id of the VM in `vms` that `selector` names.
pub fn select_vm(vms: &Vec<VmInfo>, selector: &str) -> (r: Option<String>)
    ensures
        match selected_vm_id(infos_view(vms@), selector@) {
            Some(id) => r matches Some(x) && x@ == id,
            None => r is None,
        },
{
    if has_vm_id(vms, selector) {
        return Some(owned(selector));
    }
    id_of_named(vms, selector)
}

/// The id of the VM that `selector` names on the local hypervisor;
/// `NotFound` carrying the selector when none matches.
pub fn resolve_vm_id_local(hv: &StubHypervisor, selector: &str) -> (r: Result<String, HypervisorError>)
    requires
        hv.wf(),
    ensures
        match selected_vm_id(hv.records(), selector@) {
            Some(id) => r matches Ok(x) && x@ == id,
            None => r matches Err(HypervisorError::NotFound(m)) && m@ == selector@,
        },
{
    let vms = hv.list_vms();
    match select_vm(&vms, selector) {
        Some(id) => Ok(id),
        None => Err(HypervisorError::NotFound(owned(selector))),
    }
}

// ---------------------------------------------------------------------------
// Text columns
// ---------------------------------------------------------------------------

/// `s` cut to at most `max` characters, the last one being `…` when
/// something was cut.
pub open spec fn truncated(s: Seq<char>, max: nat) -> Seq<char> {
    if s.len() <= max {
        s
    } else if max == 0 {
        seq!['\u{2026}']
    } else {
        s.take(max - 1).push('\u{2026}')
    }
}

pub fn truncate_str(s: &str, max: usize) -> (r: String)
    ensures
        r@ == truncated(s@, max as nat),
{
    let v = chars_of(s);
    if v.len() <= max {
        return string_of(&v);
    }
    let keep: usize = if max == 0 {
        0
    } else {
        max - 1
    };
    let mut out = slice_vec(&v, 0, keep);
    out.push('\u{2026}');
    proof {
        assert(v@.subrange(0, keep as int) =~= v@.take(keep as int));
        if max == 0 {
            assert(out@ =~= seq!['\u{2026}']);
        }
    }
    string_of(&out)
}

// ---------------------------------------------------------------------------
// Image references
// ---------------------------------------------------------------------------

/// `s` without a tag: cut at its last `:` when that comes after its last
/// `/` (or after position 0 when there is no `/`).
pub open spec fn strip_tag(s: Seq<char>) -> Seq<char> {
    let last_slash = match last_index_of(s, '/') {
        Some(i) => i,
        None => 0,
    };
    match last_index_of(s, ':') {
        Some(c) => if c > last_slash {
            s.take(c)
        } else {
            s
        },
        None => s,
    }
}

/// Registry and repository of a reference that names its registry: the
/// first path component, when it holds a `.` or a `:` or is `localhost`,
/// and a non-empty rest; digest and tag are dropped.
pub open spec fn registry_reference(reference: Seq<char>) -> Option<(Seq<char>, Seq<char>)> {
    let t = strip_tag(before_first(reference, '@'));
    if !t.contains('/') {
        None
    } else {
        let first = before_first(t, '/');
        let rest = after_first(t, '/');
        if !(first.contains('.') || first.contains(':') || first == "localhost"@) {
            None
        } else if rest.len() == 0 {
            None
        } else {
            Some((first, rest))
        }
    }
}

fn last_or_zero(v: &Vec<char>, c: char) -> (r: usize)
    ensures
        r as int == match last_index_of(v@, c) {
            Some(i) => i,
            None => 0,
        },
{
    match find_last(v, c) {
        Some(i) => i,
        None => 0,
    }
}

fn strip_tag_vec(v: &Vec<char>) -> (r: Vec<char>)
    ensures
        r@ == strip_tag(v@),
{
    let last_slash = last_or_zero(v, '/');
    match find_last(v, ':') {
        Some(c) => {
            if c > last_slash {
                let r = slice_vec(v, 0, c);
                proof {
                    assert(r@ =~= v@.take(c as int));
                }
                r
            } else {
                slice_vec_all(v)
            }
        },
        None => slice_vec_all(v),
    }
}

fn slice_vec_all(v: &Vec<char>) -> (r: Vec<char>)
    ensures
        r@ == v@,
{
    let r = slice_vec(v, 0, v.len());
    proof {
        assert(r@ =~= v@);
    }
    r
}

/// The parts before and after the first `c` of `v`, when it holds one.
fn split_once(v: &Vec<char>, c: char) -> (r: Option<(Vec<char>, Vec<char>)>)
    ensures
        match r {
            Some((a, b)) => v@.contains(c) && a@ == before_first(v@, c) && b@ == after_first(v@, c),
            None => !v@.contains(c),
        },
{
    match find_first(v, c) {
        Some(i) => {
            let a = slice_vec(v, 0, i);
            let b = slice_vec(v, i + 1, v.len());
            proof {
                assert(a@ =~= v@.take(i as int));
                assert(b@ =~= v@.skip(i + 1));
                assert(v@.contains(c)) by {
                    assert(v@[i as int] == c);
                }
            }
            Some((a, b))
        },
        None => {
            proof {
                if v@.contains(c) {
                    let k = choose|k: int| 0 <= k < v@.len() && v@[k] == c;
                    assert(first_index_of(v@, c) is Some);
                }
            }
            None
        },
    }
}

pub open spec fn opt_pair_view(r: Option<(String, String)>) -> Option<(Seq<char>, Seq<char>)> {
    match r {
        Some((a, b)) => Some((a@, b@)),
        None => None,
    }
}

/// The registry and repository of a reference such as
/// `ghcr.io/org/image:tag`; `None` when it does not name a registry.
pub fn parse_registry_reference(reference: &str) -> (r: Option<(String, String)>)
    ensures
        opt_pair_view(r) == registry_reference(reference@),
{
    proof {
        reveal_strlit("localhost");
    }
    let v = chars_of(reference);
    let no_digest = prefix_before(&v, '@');
    let no_tag = strip_tag_vec(&no_digest);
    match split_once(&no_tag, '/') {
        None => None,
        Some((first, rest)) => {
            let f = string_of(&first);
            let named = vec_contains_char(&first, '.') || vec_contains_char(&first, ':') || str_eq(
                f.as_str(),
                "localhost",
            );
            if !named || rest.len() == 0 {
                None
            } else {
                Some((f, string_of(&rest)))
            }
        },
    }
}

/// Image and tag of a reference: the digest is dropped, and the tag is the
/// text after the last `:` that follows the last `/`, when both sides are
/// non-empty; otherwise the whole reference with tag `latest`.
pub open spec fn image_and_tag(reference: Seq<char>) -> (Seq<char>, Seq<char>) {
    let s = before_first(reference, '@');
    let last_slash = match last_index_of(s, '/') {
        Some(i) => i,
        None => 0,
    };
    match last_index_of(s, ':') {
        Some(c) => if c > last_slash && c > 0 && c + 1 < s.len() {
            (s.take(c), s.skip(c + 1))
        } else {
            (s, "latest"@)
        },
        None => (s, "latest"@),
    }
}

pub fn split_image_reference(reference: &str) -> (r: (String, String))
    ensures
        (r.0@, r.1@) == image_and_tag(reference@),
{
    let v = chars_of(reference);
    let s = prefix_before(&v, '@');
    let last_slash = last_or_zero(&s, '/');
    if let Some(c) = find_last(&s, ':') {
        if c > last_slash && c > 0 && c + 1 < s.len() {
            let image = slice_vec(&s, 0, c);
            let tag = slice_vec(&s, c + 1, s.len());
            proof {
                assert(image@ =~= s@.take(c as int));
                assert(tag@ =~= s@.skip(c + 1));
            }
            return (string_of(&image), string_of(&tag));
        }
    }
    (string_of(&s), owned("latest"))
}

// ---------------------------------------------------------------------------
// Bearer challenges
// ---------------------------------------------------------------------------

/// A `key=value` parameter of a challenge: both sides trimmed, and the
/// value without surrounding quotes; `None` without `=`.
pub open spec fn challenge_param(part: Seq<char>) -> Option<(Seq<char>, Seq<char>)> {
    let p = trim(part);
    if p.contains('=') {
        Some((trim(before_first(p, '=')), strip_char(trim(after_first(p, '=')), '"')))
    } else {
        None
    }
}

/// The map that a run of parameters builds, a later key replacing an
/// earlier one; `None` when one of them has no `=`.
pub open spec fn challenge_params(parts: Seq<Seq<char>>) -> Option<Map<Seq<char>, Seq<char>>>
    decreases parts.len(),
{
    if parts.len() == 0 {
        Some(Map::empty())
    } else {
        match challenge_params(parts.drop_last()) {
            None => None,
            Some(m) => match challenge_param(parts.last()) {
                None => None,
                Some((k, v)) => Some(m.insert(k, v)),
            },
        }
    }
}

/// The scheme of a challenge and what follows it, split at the first
/// space of the trimmed header.
pub open spec fn challenge_scheme(header: Seq<char>) -> Seq<char> {
    trim(before_first(trim(header), ' '))
}

/// The parameters of a `Bearer` challenge, e.g.
/// `Bearer realm="https://auth",service="registry",scope="repo:pull"`.
/// `None` when the scheme is not `bearer` (in any case), when nothing
/// follows it, or when a parameter has no `=`.
pub open spec fn bearer_params(header: Seq<char>) -> Option<Map<Seq<char>, Seq<char>>> {
    let h = trim(header);
    if lower_seq(challenge_scheme(header)) != "bearer"@ {
        None
    } else if !h.contains(' ') {
        None
    } else {
        challenge_params(split_on(trim(after_first(h, ' ')), ','))
    }
}

/// The map that a list of pairs with distinct keys stands for.
pub open spec fn pairs_map(s: Seq<(String, String)>) -> Map<Seq<char>, Seq<char>>
    decreases s.len(),
{
    if s.len() == 0 {
        Map::empty()
    } else {
        pairs_map(s.drop_last()).insert(s.last().0@, s.last().1@)
    }
}

pub open spec fn distinct_keys(s: Seq<(String, String)>) -> bool {
    forall|i: int, j: int| 0 <= i < j < s.len() ==> (#[trigger] s[i]).0@ != (#[trigger] s[j]).0@
}

proof fn lemma_pairs_map_dom(s: Seq<(String, String)>, k: Seq<char>)
    ensures
        pairs_map(s).dom().contains(k) <==> exists|i: int| 0 <= i < s.len() && (#[trigger] s[i]).0@ == k,
    decreases s.len(),
{
    if s.len() > 0 {
        lemma_pairs_map_dom(s.drop_last(), k);
        if pairs_map(s.drop_last()).dom().contains(k) {
            let i = choose|i: int| 0 <= i < s.drop_last().len() && (#[trigger] s.drop_last()[i]).0@ == k;
            assert(s[i] == s.drop_last()[i]);
        }
        if exists|i: int| 0 <= i < s.len() && (#[trigger] s[i]).0@ == k {
            let i = choose|i: int| 0 <= i < s.len() && (#[trigger] s[i]).0@ == k;
            if i < s.len() - 1 {
                assert(s.drop_last()[i] == s[i]);
            }
        }
    }
}

/// Replacing the value of the pair at `i` updates the map at its key.
proof fn lemma_pairs_map_update(s: Seq<(String, String)>, i: int, p: (String, String))
    requires
        distinct_keys(s),
        0 <= i < s.len(),
        p.0@ == s[i].0@,
    ensures
        pairs_map(s.update(i, p)) == pairs_map(s).insert(p.0@, p.1@),
    decreases s.len(),
{
    let t = s.update(i, p);
    if i == s.len() - 1 {
        assert(t.drop_last() =~= s.drop_last());
        assert(!pairs_map(s.drop_last()).dom().contains(p.0@)) by {
            lemma_pairs_map_dom(s.drop_last(), p.0@);
            if exists|j: int| 0 <= j < s.drop_last().len() && (#[trigger] s.drop_last()[j]).0@ == p.0@ {
                let j = choose|j: int| 0 <= j < s.drop_last().len() && (#[trigger] s.drop_last()[j]).0@ == p.0@;
                assert(s[j].0@ != s[i].0@);
            }
        }
        assert(pairs_map(t) =~= pairs_map(s).insert(p.0@, p.1@));
    } else {
        let d = s.drop_last();
        assert(t.drop_last() =~= d.update(i, p));
        assert(distinct_keys(d)) by {
            assert forall|a: int, b: int| 0 <= a < b < d.len() implies (#[trigger] d[a]).0@ != (#[trigger] d[b]).0@ by {
                assert(d[a] == s[a] && d[b] == s[b]);
            }
        }
        lemma_pairs_map_update(d, i, p);
        assert(s.last().0@ != p.0@) by {
            assert(s[s.len() - 1].0@ != s[i].0@);
        }
        assert(pairs_map(t) =~= pairs_map(s).insert(p.0@, p.1@));
    }
}

/// Position of the pair with key `k`, when there is one.
fn key_index(pairs: &Vec<(String, String)>, k: &str) -> (r: Option<usize>)
    ensures
        match r {
            Some(i) => i < pairs@.len() && pairs@[i as int].0@ == k@,
            None => forall|j: int| 0 <= j < pairs@.len() ==> (#[trigger] pairs@[j]).0@ != k@,
        },
{
    let mut i: usize = 0;
    while i < pairs.len()
        invariant
            i <= pairs.len(),
            forall|j: int| 0 <= j < i ==> (#[trigger] pairs@[j]).0@ != k@,
        decreases pairs.len() - i,
    {
        if str_eq(pairs[i].0.as_str(), k) {
            return Some(i);
        }
        i = i + 1;
    }
    None
}

/// Sets `k` to `v` in a list of pairs with distinct keys.
fn insert_pair(pairs: &mut Vec<(String, String)>, k: String, v: String)
    requires
        distinct_keys(old(pairs)@),
    ensures
        distinct_keys(final(pairs)@),
        pairs_map(final(pairs)@) == pairs_map(old(pairs)@).insert(k@, v@),
{
    match key_index(pairs, k.as_str()) {
        Some(i) => {
            let ghost p = (k, v);
            proof {
                lemma_pairs_map_update(pairs@, i as int, p);
            }
            pairs.set(i, (k, v));
            proof {
                assert forall|a: int, b: int| 0 <= a < b < pairs@.len() implies (#[trigger] pairs@[a]).0@ != (#[trigger] pairs@[b]).0@ by {
                    assert(pairs@[a].0@ == old(pairs)@[a].0@);
                    assert(pairs@[b].0@ == old(pairs)@[b].0@);
                }
            }
        },
        None => {
            pairs.push((k, v));
            proof {
                assert(pairs@.drop_last() =~= old(pairs)@);
            }
        },
    }
}

fn challenge_param_exec(part: &Vec<char>) -> (r: Option<(String, String)>)
    ensures
        opt_pair_view(r) == challenge_param(part@),
{
    let p = trim_vec(part);
    match split_once(&p, '=') {
        None => None,
        Some((a, b)) => {
            let key = trim_vec(&a);
            let val = strip_char_vec(&trim_vec(&b), '"');
            Some((string_of(&key), string_of(&val)))
        },
    }
}

/// The parameters of a `Bearer` `WWW-Authenticate` challenge, each key
/// once; see [`bearer_params`].
pub fn parse_bearer_auth_params(header_value: &str) -> (r: Option<Vec<(String, String)>>)
    ensures
        match bearer_params(header_value@) {
            Some(m) => r matches Some(v) && distinct_keys(v@) && pairs_map(v@) == m,
            None => r is None,
        },
{
    proof {
        reveal_strlit("bearer");
    }
    let h = trim_vec(&chars_of(header_value));
    let scheme = trim_vec(&prefix_before(&h, ' '));
    let lowered = string_of(&lower_vec(&scheme));
    if !str_eq(lowered.as_str(), "bearer") {
        return None;
    }
    let rest = match split_once(&h, ' ') {
        None => return None,
        Some((_, b)) => trim_vec(&b),
    };
    let parts = split_chars(&rest, ',');
    let ghost pv = views_of(parts@);
    proof {
        assert(bearer_params(header_value@) == challenge_params(pv));
    }
    let mut out: Vec<(String, String)> = Vec::new();
    let mut i: usize = 0;
    while i < parts.len()
        invariant
            pv == views_of(parts@),
            bearer_params(header_value@) == challenge_params(pv),
            i <= parts.len(),
            distinct_keys(out@),
            challenge_params(pv.take(i as int)) == Some(pairs_map(out@)),
        decreases parts.len() - i,
    {
        proof {
            assert(pv.take(i as int + 1).drop_last() =~= pv.take(i as int));
            assert(pv.take(i as int + 1).last() == parts@[i as int]@);
        }
        match challenge_param_exec(&parts[i]) {
            None => {
                proof {
                    lemma_params_none_extends(pv, i as int + 1);
                }
                return None;
            },
            Some((k, v)) => {
                insert_pair(&mut out, k, v);
            },
        }
        i = i + 1;
    }
    proof {
        assert(pv.take(i as int) =~= pv);
    }
    Some(out)
}

/// Once a prefix of the parameters fails, the whole run fails.
proof fn lemma_params_none_extends(parts: Seq<Seq<char>>, k: int)
    requires
        0 <= k <= parts.len(),
        challenge_params(parts.take(k)) is None,
    ensures
        challenge_params(parts) is None,
    decreases parts.len() - k,
{
    if k < parts.len() {
        assert(parts.take(k + 1).drop_last() =~= parts.take(k));
        lemma_params_none_extends(parts, k + 1);
    } else {
        assert(parts.take(k) =~= parts);
    }
}

// ---------------------------------------------------------------------------
// The VM table
// ---------------------------------------------------------------------------

/// How `{:?}` prints a VM state.
pub open spec fn state_debug_name(state: VmState) -> Seq<char> {
    match state {
        VmState::Running => "Running"@,
        VmState::Stopped => "Stopped"@,
        VmState::Creating => "Creating"@,
    }
}

fn state_debug_str(state: VmState) -> (r: &'static str)
    ensures
        r@ == state_debug_name(state),
{
    match state {
        VmState::Running => "Running",
        VmState::Stopped => "Stopped",
        VmState::Creating => "Creating",
    }
}

/// The header of the VM table.
pub open spec fn vm_table_header_spec() -> Seq<char> {
    pad_right("ID"@, 12) + " "@ + pad_right("NAME"@, 20) + " "@ + pad_right("STATE"@, 10) + " "@
        + pad_right("CPUS"@, 6) + " "@ + pad_right("MEMORY"@, 8) + " "@ + pad_right("ROSETTA"@, 8)
        + " MOUNTS"@
}

pub fn vm_table_header() -> (r: String)
    ensures
        r@ == vm_table_header_spec(),
{
    let a = padded_right("ID", 12);
    let b = padded_right("NAME", 20);
    let c = padded_right("STATE", 10);
    let d = padded_right("CPUS", 6);
    let e = padded_right("MEMORY", 8);
    let f = padded_right("ROSETTA", 8);
    let r = join_columns(&a, &b, &c, &d, &e, &f);
    concat(r.as_str(), " MOUNTS")
}

fn join_columns(a: &String, b: &String, c: &String, d: &String, e: &String, f: &String) -> (r:
    String)
    ensures
        r@ == a@ + " "@ + b@ + " "@ + c@ + " "@ + d@ + " "@ + e@ + " "@ + f@,
{
    let mut r = concat(a.as_str(), " ");
    r = concat(r.as_str(), b.as_str());
    r = concat(r.as_str(), " ");
    r = concat(r.as_str(), c.as_str());
    r = concat(r.as_str(), " ");
    r = concat(r.as_str(), d.as_str());
    r = concat(r.as_str(), " ");
    r = concat(r.as_str(), e.as_str());
    r = concat(r.as_str(), " ");
    concat(r.as_str(), f.as_str())
}

/// One row of the VM table: id, name, state, CPUs, memory, Rosetta and the
/// number of mounts, in columns of 12, 20, 10, 6, 8 and 8 characters.
pub open spec fn vm_table_row_spec(
    id: Seq<char>,
    name: Seq<char>,
    state: Seq<char>,
    cpus: nat,
    memory_mb: nat,
    rosetta: bool,
    mounts: nat,
) -> Seq<char> {
    pad_right(id, 12) + " "@ + pad_right(name, 20) + " "@ + pad_right(state, 10) + " "@ + pad_right(
        decimal(cpus),
        6,
    ) + " "@ + pad_right(decimal(memory_mb) + "MB"@, 8) + " "@ + pad_right(
        if rosetta {
            "yes"@
        } else {
            "no"@
        },
        8,
    ) + " "@ + decimal(mounts)
}

/// The row of the VM table for a VM, its state as `{:?}` prints it.
pub fn vm_table_row(vm: &VmInfo) -> (r: String)
    ensures
        r@ == vm_table_row_spec(
            vm.id@,
            vm.name@,
            state_debug_name(vm.state),
            vm.cpus as nat,
            vm.memory_mb as nat,
            vm.rosetta_enabled,
            vm.shared_dirs@.len(),
        ),
{
    let a = padded_right(vm.id.as_str(), 12);
    let b = padded_right(vm.name.as_str(), 20);
    let c = padded_right(state_debug_str(vm.state), 10);
    let d = padded_right(decimal_string(vm.cpus as u64).as_str(), 6);
    let mem = concat(decimal_string(vm.memory_mb).as_str(), "MB");
    let e = padded_right(mem.as_str(), 8);
    let f = padded_right(
        if vm.rosetta_enabled {
            "yes"
        } else {
            "no"
        },
        8,
    );
    let r = join_columns(&a, &b, &c, &d, &e, &f);
    let r = concat(r.as_str(), " ");
    concat(r.as_str(), decimal_string(vm.shared_dirs.len() as u64).as_str())
}

// ---------------------------------------------------------------------------
// VMs as the daemon lists them
// ---------------------------------------------------------------------------

pub open spec fn wire_infos_view(v: Seq<WireVmInfo>) -> Seq<WireVmInfoView> {
    v.map_values(|w: WireVmInfo| w@)
}

/// The id of the first listed VM called `name`.
pub open spec fn first_wire_named_id(s: Seq<WireVmInfoView>, name: Seq<char>) -> Option<Seq<char>>
    decreases s.len(),
{
    if s.len() == 0 {
        None
    } else if s[0].name == name {
        Some(s[0].vm_id)
    } else {
        first_wire_named_id(s.drop_first(), name)
    }
}

/// The id that `selector` names among the VMs the daemon listed: the
/// selector itself when a VM has that id, else the id of the first VM with
/// that name.
pub open spec fn wire_selected_id(s: Seq<WireVmInfoView>, selector: Seq<char>) -> Option<Seq<char>> {
    if exists|i: int| 0 <= i < s.len() && (#[trigger] s[i]).vm_id == selector {
        Some(selector)
    } else {
        first_wire_named_id(s, selector)
    }
}

/// The id of the VM that `selector` names among the VMs the daemon
/// listed; "VM not found: selector" when none matches.
pub fn resolve_vm_id_wire(vms: &Vec<WireVmInfo>, selector: &str) -> (r: Result<String, String>)
    ensures
        match wire_selected_id(wire_infos_view(vms@), selector@) {
            Some(id) => r matches Ok(x) && x@ == id,
            None => r matches Err(m) && m@ == "VM not found: "@ + selector@,
        },
{
    let ghost s = wire_infos_view(vms@);
    let mut i: usize = 0;
    while i < vms.len()
        invariant
            s == wire_infos_view(vms@),
            i <= vms.len(),
            forall|j: int| 0 <= j < i ==> (#[trigger] s[j]).vm_id != selector@,
        decreases vms.len() - i,
    {
        if str_eq(vms[i].vm_id.as_str(), selector) {
            proof {
                assert(s[i as int].vm_id == selector@);
            }
            return Ok(owned(selector));
        }
        i = i + 1;
    }
    proof {
        assert(s.skip(0) =~= s);
    }
    let mut k: usize = 0;
    while k < vms.len()
        invariant
            s == wire_infos_view(vms@),
            k <= vms.len(),
            forall|j: int| 0 <= j < s.len() ==> (#[trigger] s[j]).vm_id != selector@,
            first_wire_named_id(s.skip(k as int), selector@) == first_wire_named_id(s, selector@),
        decreases vms.len() - k,
    {
        proof {
            assert(s.skip(k as int)[0] == s[k as int]);
            assert(s.skip(k as int).drop_first() =~= s.skip(k as int + 1));
        }
        if str_eq(vms[k].name.as_str(), selector) {
            return Ok(clone_string(&vms[k].vm_id));
        }
        k = k + 1;
    }
    proof {
        assert(s.skip(k as int).len() == 0);
    }
    Err(concat("VM not found: ", selector))
}

/// The row of the VM table for a VM the daemon listed, its state as the
/// daemon names it.
pub fn vm_table_row_wire(vm: &WireVmInfo) -> (r: String)
    ensures
        r@ == vm_table_row_spec(
            vm.vm_id@,
            vm.name@,
            vm.status@,
            vm.cpus as nat,
            vm.memory_mb as nat,
            vm.rosetta_enabled,
            vm.shared_dirs@.len(),
        ),
{
    let a = padded_right(vm.vm_id.as_str(), 12);
    let b = padded_right(vm.name.as_str(), 20);
    let c = padded_right(vm.status.as_str(), 10);
    let d = padded_right(decimal_string(vm.cpus as u64).as_str(), 6);
    let mem = concat(decimal_string(vm.memory_mb).as_str(), "MB");
    let e = padded_right(mem.as_str(), 8);
    let f = padded_right(
        if vm.rosetta_enabled {
            "yes"
        } else {
            "no"
        },
        8,
    );
    let r = join_columns(&a, &b, &c, &d, &e, &f);
    let r = concat(r.as_str(), " ");
    concat(r.as_str(), decimal_string(vm.shared_dirs.len() as u64).as_str())
}

// ---------------------------------------------------------------------------
// Registry search
// ---------------------------------------------------------------------------

/// The image reference of a Docker Hub repository: the bare name for the
/// `library` namespace (also when none is given), else `namespace/name`.
pub open spec fn dockerhub_reference_spec(namespace: Option<Seq<char>>, name: Seq<char>) -> Seq<char> {
    match namespace {
        Some(ns) => if ns == "library"@ {
            name
        } else {
            ns + "/"@ + name
        },
        None => name,
    }
}

pub fn dockerhub_reference(namespace: Option<&str>, name: &str) -> (r: String)
    ensures
        r@ == dockerhub_reference_spec(
            match namespace {
                Some(n) => Some(n@),
                None => None,
            },
            name@,
        ),
{
    match namespace {
        Some(ns) => {
            if str_eq(ns, "library") {
                owned(name)
            } else {
                let a = concat(ns, "/");
                concat(a.as_str(), name)
            }
        },
        None => owned(name),
    }
}

/// The image reference of a Quay repository, from its `name` when the
/// result gives one, else from its namespace and repository name, else
/// `<unknown>`.
pub open spec fn quay_reference_spec(
    name: Option<Seq<char>>,
    namespace: Option<Seq<char>>,
    repo_name: Option<Seq<char>>,
) -> Seq<char> {
    "quay.io/"@ + match name {
        Some(n) => n,
        None => match (namespace, repo_name) {
            (Some(ns), Some(r)) => ns + "/"@ + r,
            _ => "<unknown>"@,
        },
    }
}

pub open spec fn opt_view(o: Option<&str>) -> Option<Seq<char>> {
    match o {
        Some(s) => Some(s@),
        None => None,
    }
}

pub fn quay_reference(name: Option<&str>, namespace: Option<&str>, repo_name: Option<&str>) -> (r:
    String)
    ensures
        r@ == quay_reference_spec(opt_view(name), opt_view(namespace), opt_view(repo_name)),
{
    let full = match name {
        Some(n) => owned(n),
        None => match (namespace, repo_name) {
            (Some(ns), Some(rn)) => {
                let a = concat(ns, "/");
                concat(a.as_str(), rn)
            },
            _ => owned("<unknown>"),
        },
    };
    concat("quay.io/", full.as_str())
}

/// Which registries a search asks, by its `source` (in any case):
/// Docker Hub for `all`, `dockerhub`, `hub` and `docker`; Quay for `all`
/// and `quay`; an error naming the source for anything else.
pub open spec fn search_sources_spec(source: Seq<char>) -> Option<(bool, bool)> {
    let s = lower_seq(source);
    let hub = s == "all"@ || s == "dockerhub"@ || s == "hub"@ || s == "docker"@;
    let quay = s == "all"@ || s == "quay"@;
    if hub || quay {
        Some((hub, quay))
    } else {
        None
    }
}

/// Whether to search Docker Hub and Quay for `source`.
pub fn search_sources(source: &str) -> (r: Result<(bool, bool), String>)
    ensures
        match search_sources_spec(source@) {
            Some(p) => r == Ok::<(bool, bool), String>(p),
            None => r matches Err(m) && m@ == "Unknown source: "@ + source@,
        },
{
    let s = string_of(&lower_vec(&chars_of(source)));
    let st = s.as_str();
    let hub = str_eq(st, "all") || str_eq(st, "dockerhub") || str_eq(st, "hub") || str_eq(
        st,
        "docker",
    );
    let quay = str_eq(st, "all") || str_eq(st, "quay");
    if hub || quay {
        Ok((hub, quay))
    } else {
        Err(concat("Unknown source: ", source))
    }
}

/// The header of the search results table.
pub open spec fn search_table_header_spec() -> Seq<char> {
    pad_right("SOURCE"@, 10) + " "@ + pad_right("IMAGE"@, 48) + " "@ + pad_left("STARS"@, 7) + " "@
        + pad_left("PULLS"@, 12) + "  DESCRIPTION"@
}

pub fn search_table_header() -> (r: String)
    ensures
        r@ == search_table_header_spec(),
{
    let a = padded_right("SOURCE", 10);
    let b = padded_right("IMAGE", 48);
    let c = padded_left("STARS", 7);
    let d = padded_left("PULLS", 12);
    let r = concat(a.as_str(), " ");
    let r = concat(r.as_str(), b.as_str());
    let r = concat(r.as_str(), " ");
    let r = concat(r.as_str(), c.as_str());
    let r = concat(r.as_str(), " ");
    let r = concat(r.as_str(), d.as_str());
    concat(r.as_str(), "  DESCRIPTION")
}

pub open spec fn count_text(n: Option<u64>) -> Seq<char> {
    match n {
        Some(v) => decimal(v as nat),
        None => "-"@,
    }
}

/// One row of the search results table: the image marked `(official)`
/// when it is, cut to 48 characters, the description cut to 80.
pub open spec fn search_table_row_spec(
    source: Seq<char>,
    reference: Seq<char>,
    description: Seq<char>,
    stars: Option<u64>,
    pulls: Option<u64>,
    official: bool,
) -> Seq<char> {
    let image = if official {
        reference + " (official)"@
    } else {
        reference
    };
    pad_right(source, 10) + " "@ + pad_right(truncated(image, 48), 48) + " "@ + pad_left(
        count_text(stars),
        7,
    ) + " "@ + pad_left(count_text(pulls), 12) + "  "@ + truncated(description, 80)
}

fn count_string(n: Option<u64>) -> (r: String)
    ensures
        r@ == count_text(n),
{
    match n {
        Some(v) => decimal_string(v),
        None => owned("-"),
    }
}

pub fn search_table_row(
    source: &str,
    reference: &str,
    description: &str,
    stars: Option<u64>,
    pulls: Option<u64>,
    official: bool,
) -> (r: String)
    ensures
        r@ == search_table_row_spec(source@, reference@, description@, stars, pulls, official),
{
    let image = if official {
        concat(reference, " (official)")
    } else {
        owned(reference)
    };
    let a = padded_right(source, 10);
    let b = padded_right(truncate_str(image.as_str(), 48).as_str(), 48);
    let c = padded_left(count_string(stars).as_str(), 7);
    let d = padded_left(count_string(pulls).as_str(), 12);
    let r = concat(a.as_str(), " ");
    let r = concat(r.as_str(), b.as_str());
    let r = concat(r.as_str(), " ");
    let r = concat(r.as_str(), c.as_str());
    let r = concat(r.as_str(), " ");
    let r = concat(r.as_str(), d.as_str());
    let r = concat(r.as_str(), "  ");
    concat(r.as_str(), truncate_str(description, 80).as_str())
}

/// The text that asks for an SSH login into a VM, or the error when no
/// port is known.
pub open spec fn login_text(name: Seq<char>, user: Seq<char>, host: Seq<char>, port: Option<u16>) -> Result<
    Seq<char>,
    Seq<char>,
> {
    match port {
        Some(p) => Ok(
            "ssh "@ + user + "@"@ + host + " -p "@ + decimal(p as nat) + "\n# VM: "@ + name,
        ),
        None => Err("VM login is not available yet. Specify an SSH port."@),
    }
}

pub fn vm_login_cmd(name: &str, user: &str, host: &str, port: Option<u16>) -> (r: Result<
    String,
    String,
>)
    ensures
        match login_text(name@, user@, host@, port) {
            Ok(t) => r matches Ok(s) && s@ == t,
            Err(t) => r matches Err(s) && s@ == t,
        },
{
    match port {
        Some(p) => {
            let r = concat("ssh ", user);
            let r = concat(r.as_str(), "@");
            let r = concat(r.as_str(), host);
            let r = concat(r.as_str(), " -p ");
            let r = concat(r.as_str(), decimal_string(p as u64).as_str());
            let r = concat(r.as_str(), "\n# VM: ");
            Ok(concat(r.as_str(), name))
        },
        None => Err(owned("VM login is not available yet. Specify an SSH port.")),
    }
}

// ---------------------------------------------------------------------------
// Local images
// ---------------------------------------------------------------------------

/// The short form of a local image id: without a `sha256:` prefix, then
/// its first twelve characters.
pub open spec fn image_short_id_spec(full: Seq<char>) -> Seq<char> {
    let s = if has_prefix(full, "sha256:"@) {
        full.skip(7)
    } else {
        full
    };
    if s.len() <= 12 {
        s
    } else {
        s.take(12)
    }
}

pub fn image_short_id(full: &str) -> (r: String)
    ensures
        r@ == image_short_id_spec(full@),
{
    proof {
        reveal_strlit("sha256:");
    }
    let v = chars_of(full);
    let start: usize = if str_starts_with(full, "sha256:") {
        7
    } else {
        0
    };
    let end: usize = if v.len() - start <= 12 {
        v.len()
    } else {
        start + 12
    };
    let s = slice_vec(&v, start, end);
    proof {
        let t = if has_prefix(full@, "sha256:"@) {
            full@.skip(7)
        } else {
            full@
        };
        assert(t =~= v@.skip(start as int));
        if t.len() <= 12 {
            assert(s@ =~= t);
        } else {
            assert(s@ =~= t.take(12));
        }
    }
    string_of(&s)
}

/// The repository and tag that `image tag` gives an image: split at the
/// last `:`, else the whole target with tag `latest`.
pub open spec fn tag_target_spec(target: Seq<char>) -> (Seq<char>, Seq<char>) {
    match last_index_of(target, ':') {
        Some(i) => (target.take(i), target.skip(i + 1)),
        None => (target, "latest"@),
    }
}

pub fn split_tag_target(target: &str) -> (r: (String, String))
    ensures
        (r.0@, r.1@) == tag_target_spec(target@),
{
    let v = chars_of(target);
    match find_last(&v, ':') {
        Some(i) => {
            let a = slice_vec(&v, 0, i);
            let b = slice_vec(&v, i + 1, v.len());
            proof {
                assert(a@ =~= v@.take(i as int));
                assert(b@ =~= v@.skip(i + 1));
            }
            (string_of(&a), string_of(&b))
        },
        None => (owned(target), owned("latest")),
    }
}

/// How the OS image list shows a status.
pub fn os_status_label(status: crate::images::ImageStatus) -> (r: &'static str)
    ensures
        r@ == match status {
            crate::images::ImageStatus::NotDownloaded => "not downloaded"@,
            crate::images::ImageStatus::Downloading => "downloading..."@,
            crate::images::ImageStatus::Ready => "ready"@,
        },
{
    match status {
        crate::images::ImageStatus::NotDownloaded => "not downloaded",
        crate::images::ImageStatus::Downloading => "downloading...",
        crate::images::ImageStatus::Ready => "ready",
    }
}

/// Gregorian leap years.
pub open spec fn is_leap(y: int) -> bool {
    (y % 4 == 0 && y % 100 != 0) || y % 400 == 0
}

pub open spec fn year_len(y: int) -> int {
    if is_leap(y) {
        366
    } else {
        365
    }
}

/// The year that day `days` (counted from the start of year `y`) falls
/// in, and the day within it.
pub open spec fn year_and_day(days: int, y: int) -> (int, int)
    decreases days,
{
    if days < 0 || days < year_len(y) {
        (y, days)
    } else {
        year_and_day(days - year_len(y), y + 1)
    }
}

pub open spec fn month_len(leap: bool, m: int) -> int {
    if m == 1 {
        if leap {
            29
        } else {
            28
        }
    } else if m == 3 || m == 5 || m == 8 || m == 10 {
        30
    } else {
        31
    }
}

/// The month (from 0) that day `day` of a year falls in, counting from
/// month `m`, and the day within it.
pub open spec fn month_and_day(day: int, leap: bool, m: int) -> (int, int)
    decreases 12 - m,
{
    if m >= 12 || day < month_len(leap, m) {
        (m, day)
    } else {
        month_and_day(day - month_len(leap, m), leap, m + 1)
    }
}

/// `n` in decimal, padded with zeros to `width` digits.
pub open spec fn zero_padded(n: nat, width: nat) -> Seq<char> {
    let d = decimal(n);
    if d.len() >= width {
        d
    } else {
        Seq::new((width - d.len()) as nat, |i: int| '0') + d
    }
}

/// The creation time of an image in UTC as `YYYY-MM-DD hh:mm`, or `-` for
/// a time not after the epoch.
pub open spec fn created_text_spec(ts: int) -> Seq<char> {
    if ts <= 0 {
        "-"@
    } else {
        let days = ts / 86400;
        let tod = ts % 86400;
        let (y, yday) = year_and_day(days, 1970);
        let (m, mday) = month_and_day(yday, is_leap(y), 0);
        zero_padded(y as nat, 4) + "-"@ + zero_padded((m + 1) as nat, 2) + "-"@ + zero_padded(
            (mday + 1) as nat,
            2,
        ) + " "@ + zero_padded((tod / 3600) as nat, 2) + ":"@ + zero_padded(((tod % 3600) / 60) as nat, 2)
    }
}

fn zero_padded_string(n: u64, width: usize) -> (r: String)
    ensures
        r@ == zero_padded(n as nat, width as nat),
{
    let d = crate::text::decimal_digits(n);
    if d.len() >= width {
        return string_of(&d);
    }
    let mut out: Vec<char> = Vec::new();
    let k = width - d.len();
    let mut i: usize = 0;
    while i < k
        invariant
            i <= k,
            out@ == Seq::new(i as nat, |j: int| '0'),
        decreases k - i,
    {
        out.push('0');
        i = i + 1;
        proof {
            assert(out@ =~= Seq::new(i as nat, |j: int| '0'));
        }
    }
    let mut dd = d;
    out.append(&mut dd);
    string_of(&out)
}

fn leap(y: i64) -> (b: bool)
    requires
        y >= 0,
    ensures
        b == is_leap(y as int),
{
    (y % 4 == 0 && y % 100 != 0) || y % 400 == 0
}

fn month_length(is_leap_year: bool, m: i64) -> (r: i64)
    ensures
        r == month_len(is_leap_year, m as int),
{
    if m == 1 {
        if is_leap_year {
            29
        } else {
            28
        }
    } else if m == 3 || m == 5 || m == 8 || m == 10 {
        30
    } else {
        31
    }
}

/// Formats an image's creation time; see [`created_text_spec`].
pub fn created_text(ts: i64) -> (r: String)
    ensures
        r@ == created_text_spec(ts as int),
{
    if ts <= 0 {
        return owned("-");
    }
    let days = ts / 86400;
    let tod = ts % 86400;
    let hours = tod / 3600;
    let minutes = (tod % 3600) / 60;
    let mut y: i64 = 1970;
    let mut remaining: i64 = days;
    loop
        invariant
            0 <= remaining <= days,
            1970 <= y <= 1970 + (days - remaining),
            days <= i64::MAX / 86400,
            year_and_day(days as int, 1970) == year_and_day(remaining as int, y as int),
        ensures
            0 <= remaining < year_len(y as int),
            1970 <= y <= 1970 + days,
            days <= i64::MAX / 86400,
            year_and_day(days as int, 1970) == year_and_day(remaining as int, y as int),
        decreases remaining,
    {
        let diy: i64 = if leap(y) {
            366
        } else {
            365
        };
        if remaining < diy {
            break;
        }
        remaining = remaining - diy;
        y = y + 1;
    }
    let is_leap_year = leap(y);
    let yday = remaining;
    proof {
        assert(year_and_day(days as int, 1970) == (y as int, yday as int));
    }
    let mut m: i64 = 0;
    loop
        invariant
            0 <= m <= 12,
            0 <= remaining,
            month_and_day(yday as int, is_leap(y as int), 0) == month_and_day(
                remaining as int,
                is_leap(y as int),
                m as int,
            ),
            is_leap_year == is_leap(y as int),
            remaining < 366,
        ensures
            0 <= m <= 12,
            0 <= remaining < 366,
            month_and_day(yday as int, is_leap(y as int), 0) == (m as int, remaining as int),
        decreases 12 - m,
    {
        if m >= 12 {
            break;
        }
        let md = month_length(is_leap_year, m);
        if remaining < md {
            break;
        }
        remaining = remaining - md;
        m = m + 1;
    }
    let ys = zero_padded_string(y as u64, 4);
    let ms = zero_padded_string((m + 1) as u64, 2);
    let ds = zero_padded_string((remaining + 1) as u64, 2);
    let hs = zero_padded_string(hours as u64, 2);
    let mins = zero_padded_string(minutes as u64, 2);
    let r = concat(ys.as_str(), "-");
    let r = concat(r.as_str(), ms.as_str());
    let r = concat(r.as_str(), "-");
    let r = concat(r.as_str(), ds.as_str());
    let r = concat(r.as_str(), " ");
    let r = concat(r.as_str(), hs.as_str());
    let r = concat(r.as_str(), ":");
    concat(r.as_str(), mins.as_str())
}

// ---------------------------------------------------------------------------
// Other tables
// ---------------------------------------------------------------------------

/// Cells left-aligned in columns of the given widths, each followed by a
/// space.
pub open spec fn columns(cells: Seq<(Seq<char>, nat)>) -> Seq<char>
    decreases cells.len(),
{
    if cells.len() == 0 {
        Seq::empty()
    } else {
        columns(cells.drop_last()) + pad_right(cells.last().0, cells.last().1) + " "@
    }
}

pub open spec fn cells_view(cells: Seq<(String, usize)>) -> Seq<(Seq<char>, nat)> {
    cells.map_values(|c: (String, usize)| (c.0@, c.1 as nat))
}

/// A table row: the cells in their columns, then `tail`.
pub fn table_row(cells: &Vec<(String, usize)>, tail: &str) -> (r: String)
    ensures
        r@ == columns(cells_view(cells@)) + tail@,
{
    let mut out = String::new();
    let mut i: usize = 0;
    while i < cells.len()
        invariant
            i <= cells.len(),
            out@ == columns(cells_view(cells@).take(i as int)),
        decreases cells.len() - i,
    {
        let cell = padded_right(cells[i].0.as_str(), cells[i].1);
        proof {
            assert(cells_view(cells@).take(i as int + 1).drop_last() =~= cells_view(cells@).take(
                i as int,
            ));
        }
        out = concat(concat(out.as_str(), cell.as_str()).as_str(), " ");
        i = i + 1;
    }
    proof {
        assert(cells_view(cells@).take(i as int) =~= cells_view(cells@));
    }
    concat(out.as_str(), tail)
}

/// The ports column of `docker ps`: published ports as
/// `ip:public->private/type` (address `0.0.0.0` when none is given), the
/// others as `private/type`, joined by `, `.
pub open spec fn published_port_text(ip: Option<Seq<char>>, public: Option<u16>, private: u16, typ: Seq<char>) -> Seq<char> {
    let addr = match ip {
        Some(a) => a,
        None => "0.0.0.0"@,
    };
    match public {
        Some(p) => addr + ":"@ + decimal(p as nat) + "->"@ + decimal(private as nat) + "/"@ + typ,
        None => decimal(private as nat) + "/"@ + typ,
    }
}

pub open spec fn ps_ports_text(ports: Seq<(Option<String>, Option<u16>, u16, String)>) -> Seq<char>
    decreases ports.len(),
{
    if ports.len() == 0 {
        Seq::empty()
    } else {
        let p = ports.last();
        let item = published_port_text(
            match p.0 {
                Some(a) => Some(a@),
                None => None,
            },
            p.1,
            p.2,
            p.3@,
        );
        if ports.len() == 1 {
            item
        } else {
            ps_ports_text(ports.drop_last()) + ", "@ + item
        }
    }
}

pub fn docker_ps_ports(ports: &Vec<(Option<String>, Option<u16>, u16, String)>) -> (r: String)
    ensures
        r@ == ps_ports_text(ports@),
{
    let mut out = String::new();
    let mut i: usize = 0;
    while i < ports.len()
        invariant
            i <= ports.len(),
            out@ == ps_ports_text(ports@.take(i as int)),
        decreases ports.len() - i,
    {
        proof {
            assert(ports@.take(i as int + 1).drop_last() =~= ports@.take(i as int));
        }
        let p = &ports[i];
        let private = decimal_string(p.2 as u64);
        let item = match p.1 {
            Some(public) => {
                let ip = match &p.0 {
                    Some(a) => clone_string(a),
                    None => owned("0.0.0.0"),
                };
                let s = concat(ip.as_str(), ":");
                let s = concat(s.as_str(), decimal_string(public as u64).as_str());
                let s = concat(s.as_str(), "->");
                let s = concat(s.as_str(), private.as_str());
                let s = concat(s.as_str(), "/");
                concat(s.as_str(), p.3.as_str())
            },
            None => {
                let s = concat(private.as_str(), "/");
                concat(s.as_str(), p.3.as_str())
            },
        };
        if i == 0 {
            out = item;
        } else {
            out = concat(concat(out.as_str(), ", ").as_str(), item.as_str());
        }
        i = i + 1;
    }
    proof {
        assert(ports@.take(i as int) =~= ports@);
    }
    out
}

/// A row of `docker env`: `KEY` and `VALUE` split at the first `=`, the
/// key in a column of 32; an entry without `=` fills the key column alone.
pub open spec fn env_row_spec(entry: Seq<char>) -> Seq<char> {
    if entry.contains('=') {
        pad_right(before_first(entry, '='), 32) + " "@ + after_first(entry, '=')
    } else {
        pad_right(entry, 32)
    }
}

pub fn env_row(entry: &str) -> (r: String)
    ensures
        r@ == env_row_spec(entry@),
{
    let v = chars_of(entry);
    match split_once(&v, '=') {
        Some((k, val)) => {
            let key = padded_right(string_of(&k).as_str(), 32);
            let a = concat(key.as_str(), " ");
            concat(a.as_str(), string_of(&val).as_str())
        },
        None => padded_right(entry, 32),
    }
}

/// What `mount add` reports.
pub fn mount_message(host_path: &str, guest_path: &str, tag: &str, read_only: bool) -> (r: String)
    ensures
        r@ == "Mounted '"@ + host_path@ + "' \u{2192} "@ + guest_path@ + " (tag: "@ + tag@ + (if read_only {
            ", read-only"@
        } else {
            ""@
        }) + ")"@,
{
    let a = concat("Mounted '", host_path);
    let a = concat(a.as_str(), "' \u{2192} ");
    let a = concat(a.as_str(), guest_path);
    let a = concat(a.as_str(), " (tag: ");
    let a = concat(a.as_str(), tag);
    let a = concat(
        a.as_str(),
        if read_only {
            ", read-only"
        } else {
            ""
        },
    );
    concat(a.as_str(), ")")
}

/// What `port add` reports.
pub fn port_added_message(host: u16, guest: u16, protocol: &str) -> (r: String)
    ensures
        r@ == "Added port forward: host "@ + decimal(host as nat) + " -> guest "@ + decimal(
            guest as nat,
        ) + " ("@ + protocol@ + ")"@,
{
    let a = concat("Added port forward: host ", decimal_string(host as u64).as_str());
    let a = concat(a.as_str(), " -> guest ");
    let a = concat(a.as_str(), decimal_string(guest as u64).as_str());
    let a = concat(a.as_str(), " (");
    let a = concat(a.as_str(), protocol);
    concat(a.as_str(), ")")
}

// ---------------------------------------------------------------------------
// Registry tags
// ---------------------------------------------------------------------------

/// `a` comes strictly before `b` in the order of `String`s: character by
/// character by code point (the order of their UTF-8 bytes), a proper
/// prefix first.
pub open spec fn text_lt(a: Seq<char>, b: Seq<char>) -> bool
    decreases a.len(),
{
    if a.len() == 0 {
        b.len() > 0
    } else if b.len() == 0 {
        false
    } else if a[0] != b[0] {
        a[0] < b[0]
    } else {
        text_lt(a.drop_first(), b.drop_first())
    }
}

pub open spec fn text_le(a: Seq<char>, b: Seq<char>) -> bool {
    a == b || text_lt(a, b)
}

/// Every text comes no later than the ones after it.
pub open spec fn sorted_texts(s: Seq<Seq<char>>) -> bool {
    forall|i: int, j: int| 0 <= i < j < s.len() ==> text_le(#[trigger] s[i], #[trigger] s[j])
}

proof fn lemma_text_lt_irreflexive(a: Seq<char>)
    ensures
        !text_lt(a, a),
    decreases a.len(),
{
    if a.len() > 0 {
        lemma_text_lt_irreflexive(a.drop_first());
    }
}

proof fn lemma_text_lt_total(a: Seq<char>, b: Seq<char>)
    ensures
        a == b || text_lt(a, b) || text_lt(b, a),
    decreases a.len(),
{
    if a.len() > 0 && b.len() > 0 && a[0] == b[0] {
        lemma_text_lt_total(a.drop_first(), b.drop_first());
        if a.drop_first() == b.drop_first() {
            assert(a =~= seq![a[0]] + a.drop_first());
            assert(b =~= seq![b[0]] + b.drop_first());
        }
    } else if a.len() == 0 && b.len() == 0 {
        assert(a =~= b);
    }
}

proof fn lemma_text_lt_trans(a: Seq<char>, b: Seq<char>, c: Seq<char>)
    requires
        text_lt(a, b),
        text_lt(b, c),
    ensures
        text_lt(a, c),
    decreases a.len(),
{
    if a.len() > 0 && b.len() > 0 && c.len() > 0 && a[0] == b[0] && b[0] == c[0] {
        lemma_text_lt_trans(a.drop_first(), b.drop_first(), c.drop_first());
    }
}

proof fn lemma_text_le_trans(a: Seq<char>, b: Seq<char>, c: Seq<char>)
    requires
        text_le(a, b),
        text_le(b, c),
    ensures
        text_le(a, c),
{
    if a != b && b != c {
        lemma_text_lt_trans(a, b, c);
    }
}

/// Whether `a` comes strictly before `b`.
fn text_less(a: &str, b: &str) -> (r: bool)
    ensures
        r == text_lt(a@, b@),
{
    let va = chars_of(a);
    let vb = chars_of(b);
    let mut i: usize = 0;
    proof {
        assert(a@.skip(0) =~= a@);
        assert(b@.skip(0) =~= b@);
    }
    while i < va.len() && i < vb.len() && va[i] == vb[i]
        invariant
            i <= va.len(),
            i <= vb.len(),
            va@ == a@,
            vb@ == b@,
            text_lt(a@, b@) == text_lt(a@.skip(i as int), b@.skip(i as int)),
        decreases va.len() - i,
    {
        proof {
            assert(a@.skip(i as int).drop_first() =~= a@.skip(i as int + 1));
            assert(b@.skip(i as int).drop_first() =~= b@.skip(i as int + 1));
        }
        i = i + 1;
    }
    if i == va.len() {
        i < vb.len()
    } else if i == vb.len() {
        false
    } else {
        va[i] < vb[i]
    }
}

pub open spec fn texts_of(v: Seq<String>) -> Seq<Seq<char>> {
    v.map_values(|s: String| s@)
}

/// The tags of a repository as the tag listing shows them: in order, at
/// most `limit` of them. The result is the first `limit` of a sorted
/// arrangement of all the tags.
pub fn sorted_tags(tags: Vec<String>, limit: usize) -> (r: Vec<String>)
    ensures
        exists|all: Seq<Seq<char>>|
            #![trigger all.to_multiset()]
            sorted_texts(all) && all.to_multiset() == texts_of(tags@).to_multiset() && texts_of(r@)
                == all.take(if limit < all.len() {
                limit as int
            } else {
                all.len() as int
            }),
{
    let ghost tv = texts_of(tags@);
    let mut out: Vec<String> = Vec::new();
    let mut i: usize = 0;
    proof {
        assert(texts_of(out@) =~= tv.take(0));
    }
    while i < tags.len()
        invariant
            tv == texts_of(tags@),
            i <= tags.len(),
            sorted_texts(texts_of(out@)),
            texts_of(out@).to_multiset() == tv.take(i as int).to_multiset(),
        decreases tags.len() - i,
    {
        let t = clone_string(&tags[i]);
        let mut k: usize = 0;
        while k < out.len() && !text_less(t.as_str(), out[k].as_str())
            invariant
                k <= out.len(),
                forall|j: int| 0 <= j < k ==> !text_lt(t@, (#[trigger] out@[j])@),
            decreases out.len() - k,
        {
            k = k + 1;
        }
        let ghost before = texts_of(out@);
        proof {
            assert forall|j: int| 0 <= j < k implies text_le(#[trigger] before[j], t@) by {
                lemma_text_lt_total(before[j], t@);
                assert(!text_lt(t@, out@[j]@));
            }
            if k < out.len() {
                assert(text_lt(t@, before[k as int]));
            }
        }
        out.insert(k, t);
        proof {
            let after = texts_of(out@);
            assert(after =~= before.insert(k as int, tags@[i as int]@));
            assert forall|a: int, b: int| 0 <= a < b < after.len() implies text_le(
                #[trigger] after[a],
                #[trigger] after[b],
            ) by {
                if b == k {
                    assert(after[a] == before[a]);
                } else if a == k {
                    assert(after[b] == before[b - 1]);
                    if b - 1 > k {
                        assert(text_le(before[k as int], before[b - 1]));
                        lemma_text_le_trans(t@, before[k as int], before[b - 1]);
                    }
                } else {
                    let a0 = if a < k { a } else { a - 1 };
                    let b0 = if b < k { b } else { b - 1 };
                    assert(after[a] == before[a0]);
                    assert(after[b] == before[b0]);
                }
            }
            vstd::seq_lib::to_multiset_insert(before, k as int, tags@[i as int]@);
            assert(tv.take(i as int + 1) =~= tv.take(i as int).push(tv[i as int]));
            vstd::seq_lib::to_multiset_build(tv.take(i as int), tv[i as int]);
        }
        i = i + 1;
    }
    let ghost all = texts_of(out@);
    proof {
        assert(tv.take(i as int) =~= tv);
    }
    out.truncate(limit);
    proof {
        let n = if limit < all.len() {
            limit as int
        } else {
            all.len() as int
        };
        assert(texts_of(out@) =~= all.take(n));
    }
    out
}

/// Where a registry lists the tags of a repository.
pub fn registry_tags_url(registry: &str, repository: &str) -> (r: String)
    ensures
        r@ == "https://"@ + registry@ + "/v2/"@ + repository@ + "/tags/list"@,
{
    let a = concat("https://", registry);
    let a = concat(a.as_str(), "/v2/");
    let a = concat(a.as_str(), repository);
    concat(a.as_str(), "/tags/list")
}

/// The token scope that pulling a repository needs.
pub fn pull_scope(repository: &str) -> (r: String)
    ensures
        r@ == "repository:"@ + repository@ + ":pull"@,
{
    let a = concat("repository:", repository);
    concat(a.as_str(), ":pull")
}

/// What a token request asks the realm of a challenge for.
#[derive(Debug)]
pub struct TokenQuery {
    pub realm: String,
    pub service: Option<String>,
    pub scope: Option<String>,
}

pub open spec fn opt_string_view(o: Option<String>) -> Option<Seq<char>> {
    match o {
        Some(s) => Some(s@),
        None => None,
    }
}

/// The value of `key` among pairs with distinct keys.
fn pair_value(pairs: &Vec<(String, String)>, key: &str) -> (r: Option<String>)
    requires
        distinct_keys(pairs@),
    ensures
        match r {
            Some(v) => pairs_map(pairs@).dom().contains(key@) && pairs_map(pairs@)[key@] == v@,
            None => !pairs_map(pairs@).dom().contains(key@),
        },
{
    proof {
        lemma_pairs_map_dom(pairs@, key@);
    }
    match key_index(pairs, key) {
        Some(i) => {
            proof {
                lemma_pairs_map_at(pairs@, i as int);
            }
            Some(clone_string(&pairs[i].1))
        },
        None => None,
    }
}

/// With distinct keys, the map holds each pair.
proof fn lemma_pairs_map_at(s: Seq<(String, String)>, i: int)
    requires
        distinct_keys(s),
        0 <= i < s.len(),
    ensures
        pairs_map(s).dom().contains(s[i].0@),
        pairs_map(s)[s[i].0@] == s[i].1@,
    decreases s.len(),
{
    if i < s.len() - 1 {
        let d = s.drop_last();
        assert(d[i] == s[i]);
        assert(distinct_keys(d)) by {
            assert forall|a: int, b: int| 0 <= a < b < d.len() implies (#[trigger] d[a]).0@ != (#[trigger] d[b]).0@ by {
                assert(d[a] == s[a] && d[b] == s[b]);
            }
        }
        lemma_pairs_map_at(d, i);
        assert(s[i].0@ != s.last().0@);
    }
}

/// The token request for a challenge: its realm (required), its service,
/// and its scope or else `fallback_scope`.
pub open spec fn token_query_spec(header: Seq<char>, fallback_scope: Option<Seq<char>>) -> Result<
    (Seq<char>, Option<Seq<char>>, Option<Seq<char>>),
    Seq<char>,
> {
    match bearer_params(header) {
        None => Err("Unsupported WWW-Authenticate header: "@ + header),
        Some(m) => if !m.dom().contains("realm"@) {
            Err("WWW-Authenticate missing realm"@)
        } else {
            Ok(
                (
                    m["realm"@],
                    if m.dom().contains("service"@) {
                        Some(m["service"@])
                    } else {
                        None
                    },
                    if m.dom().contains("scope"@) {
                        Some(m["scope"@])
                    } else {
                        fallback_scope
                    },
                ),
            )
        },
    }
}

pub fn bearer_token_query(header: &str, fallback_scope: Option<&str>) -> (r: Result<TokenQuery, String>)
    ensures
        match token_query_spec(header@, opt_view(fallback_scope)) {
            Ok((realm, service, scope)) => r matches Ok(q) && q.realm@ == realm && opt_string_view(
                q.service,
            ) == service && opt_string_view(q.scope) == scope,
            Err(e) => r matches Err(m) && m@ == e,
        },
{
    let params = match parse_bearer_auth_params(header) {
        Some(p) => p,
        None => return Err(concat("Unsupported WWW-Authenticate header: ", header)),
    };
    let realm = match pair_value(&params, "realm") {
        Some(r) => r,
        None => return Err(owned("WWW-Authenticate missing realm")),
    };
    let service = pair_value(&params, "service");
    let scope = match pair_value(&params, "scope") {
        Some(s) => Some(s),
        None => match fallback_scope {
            Some(f) => Some(owned(f)),
            None => None,
        },
    };
    Ok(TokenQuery { realm, service, scope })
}

/// The token of a token response: `token`, else `access_token`.
pub fn token_from_response(token: Option<String>, access_token: Option<String>) -> (r: Result<
    String,
    String,
>)
    ensures
        match token {
            Some(t) => r matches Ok(x) && x@ == t@,
            None => match access_token {
                Some(t) => r matches Ok(x) && x@ == t@,
                None => r matches Err(m) && m@ == "Token response missing token"@,
            },
        },
{
    match token {
        Some(t) => Ok(t),
        None => match access_token {
            Some(t) => Ok(t),
            None => Err(owned("Token response missing token")),
        },
    }
}

// ---------------------------------------------------------------------------
// Laws
// ---------------------------------------------------------------------------

/// An endpoint is its own endpoint: normalising twice changes nothing.
pub proof fn law_endpoint_idempotent(addr: Seq<char>)
    ensures
        endpoint_of(endpoint_of(addr)) == endpoint_of(addr),
{
    reveal_strlit("http://");
    let e = "http://"@ + addr;
    if !(has_prefix(addr, "http://"@) || has_prefix(addr, "https://"@)) {
        assert(e.take(7) =~= "http://"@);
    }
}

/// A truncated column is never wider than its width (for a width of at
/// least one), and it is the text itself when that fits.
pub proof fn law_truncated_fits(s: Seq<char>, max: nat)
    requires
        max >= 1,
    ensures
        truncated(s, max).len() <= max,
        s.len() <= max ==> truncated(s, max) == s,
        s.len() > max ==> truncated(s, max).take(max - 1) == s.take(max - 1),
{
    if s.len() > max {
        assert(truncated(s, max).take(max - 1) =~= s.take(max - 1));
    }
}

/// A VM named by its own id resolves to that id.
pub proof fn law_select_by_id(s: Seq<VmInfoView>, i: int)
    requires
        0 <= i < s.len(),
    ensures
        selected_vm_id(s, s[i].id) == Some(s[i].id),
{
    assert(s[i].id == s[i].id);
}

/// When a tag is split off an image reference, image, `:` and tag spell
/// the reference without its digest again.
pub proof fn law_image_tag_reassembles(reference: Seq<char>)
    ensures
        image_and_tag(reference).1 != "latest"@ ==> image_and_tag(reference).0 + seq![':']
            + image_and_tag(reference).1 == before_first(reference, '@'),
{
    let s = before_first(reference, '@');
    match last_index_of(s, ':') {
        Some(c) => {
            if c > (match last_index_of(s, '/') {
                Some(i) => i,
                None => 0,
            }) && c > 0 && c + 1 < s.len() {
                crate::text::lemma_last_index_in(s, ':');
                assert(s.take(c) + seq![':'] + s.skip(c + 1) =~= s);
            }
        },
        None => {},
    }
}

/// The date that `created_text` prints is a calendar date: its month is
/// one of twelve and its day lies within that month.
pub proof fn law_created_date_is_valid(day: int, leap: bool)
    requires
        0 <= day < (if leap {
            366int
        } else {
            365int
        }),
    ensures
        0 <= month_and_day(day, leap, 0).0 < 12,
        0 <= month_and_day(day, leap, 0).1 < month_len(leap, month_and_day(day, leap, 0).0),
{
    reveal_with_fuel(days_from_month, 13);
    assert(days_from_month(leap, 0) == if leap {
        366int
    } else {
        365int
    });
    lemma_month_and_day(day, leap, 0);
}

/// Days left in the year from the start of month `m` on.
pub open spec fn days_from_month(leap: bool, m: int) -> int
    decreases 12 - m,
{
    if m >= 12 {
        0
    } else {
        month_len(leap, m) + days_from_month(leap, m + 1)
    }
}

proof fn lemma_month_and_day(day: int, leap: bool, m: int)
    requires
        0 <= m <= 12,
        0 <= day < days_from_month(leap, m),
    ensures
        m <= month_and_day(day, leap, m).0 < 12,
        0 <= month_and_day(day, leap, m).1 < month_len(leap, month_and_day(day, leap, m).0),
    decreases 12 - m,
{
    if m < 12 && day >= month_len(leap, m) {
        lemma_month_and_day(day - month_len(leap, m), leap, m + 1);
    }
}

// ---------------------------------------------------------------------------
// K3s
// ---------------------------------------------------------------------------

pub open spec fn yes_no(b: bool) -> Seq<char> {
    if b {
        "yes"@
    } else {
        "no"@
    }
}

/// The lines of `k3s status`: whether it is installed and running, the
/// version when one is known, the node count while running, and where the
/// kubeconfig is.
pub open spec fn k3s_status_text(
    installed: bool,
    running: bool,
    version: Seq<char>,
    node_count: nat,
    kubeconfig: Seq<char>,
) -> Seq<Seq<char>> {
    let head = seq!["K3s Status"@, "  Installed: "@ + yes_no(installed), "  Running:   "@ + yes_no(running)];
    let with_version = if version.len() > 0 {
        head.push("  Version:   "@ + version)
    } else {
        head
    };
    let with_nodes = if running {
        with_version.push("  Nodes:     "@ + decimal(node_count))
    } else {
        with_version
    };
    with_nodes.push("  Kubeconfig: "@ + kubeconfig)
}

pub fn k3s_status_lines(status: &K3sStatus, kubeconfig: &str) -> (r: Vec<String>)
    ensures
        r@.map_values(|l: String| l@) == k3s_status_text(
            status.installed,
            status.running,
            status.version@,
            status.node_count as nat,
            kubeconfig@,
        ),
{
    let mut r: Vec<String> = Vec::new();
    r.push(owned("K3s Status"));
    r.push(concat("  Installed: ", if status.installed { "yes" } else { "no" }));
    r.push(concat("  Running:   ", if status.running { "yes" } else { "no" }));
    if chars_of(status.version.as_str()).len() > 0 {
        r.push(concat("  Version:   ", status.version.as_str()));
    }
    if status.running {
        r.push(concat("  Nodes:     ", decimal_string(status.node_count as u64).as_str()));
    }
    r.push(concat("  Kubeconfig: ", kubeconfig));
    proof {
        reveal_strlit("yes");
        reveal_strlit("no");
        assert(r@.map_values(|l: String| l@) =~= k3s_status_text(
            status.installed,
            status.running,
            status.version@,
            status.node_count as nat,
            kubeconfig@,
        ));
    }
    r
}

// ---------------------------------------------------------------------------
// The docker command-line tool
// ---------------------------------------------------------------------------

/// Words joined by single spaces, as `[&str]::join(" ")` gives them.
pub open spec fn space_joined(words: Seq<Seq<char>>) -> Seq<char>
    decreases words.len(),
{
    if words.len() == 0 {
        Seq::empty()
    } else if words.len() == 1 {
        words[0]
    } else {
        space_joined(words.drop_last()) + " "@ + words.last()
    }
}

/// An `i32` in decimal, with a leading `-` when it is negative.
pub open spec fn signed_decimal(n: int) -> Seq<char> {
    if n < 0 {
        "-"@ + decimal((-n) as nat)
    } else {
        decimal(n as nat)
    }
}

/// What a run of `docker` with `args` comes to: its trimmed standard output
/// when it exited successfully, else a message with the arguments, the
/// exit code (-1 when it was killed by a signal) and its trimmed standard
/// error.
pub open spec fn docker_cli_outcome(
    args: Seq<Seq<char>>,
    success: bool,
    exit_code: Option<i32>,
    stdout: Seq<char>,
    stderr: Seq<char>,
) -> Result<Seq<char>, Seq<char>> {
    if success {
        Ok(trim(stdout))
    } else {
        let code: int = match exit_code {
            Some(c) => c as int,
            None => -1,
        };
        Err("docker "@ + space_joined(args) + " failed (exit "@ + signed_decimal(code) + "): "@ + trim(stderr))
    }
}

fn space_join(args: &Vec<String>) -> (r: String)
    ensures
        r@ == space_joined(args@.map_values(|a: String| a@)),
{
    let ghost ws = args@.map_values(|a: String| a@);
    let mut r = String::new();
    let mut i: usize = 0;
    while i < args.len()
        invariant
            i <= args.len(),
            ws == args@.map_values(|a: String| a@),
            r@ == space_joined(ws.take(i as int)),
        decreases args.len() - i,
    {
        proof {
            reveal_strlit(" ");
            assert(ws.take(i as int + 1).drop_last() =~= ws.take(i as int));
            assert(ws[i as int] == args@[i as int]@);
            if i == 0 {
                assert(ws.take(1) =~= seq![ws[0]]);
            }
        }
        if i == 0 {
            r = clone_string(&args[i]);
            proof {
                assert(ws.take(1)[0] == ws[0]);
            }
        } else {
            let a = concat(r.as_str(), " ");
            r = concat(a.as_str(), args[i].as_str());
        }
        i = i + 1;
    }
    proof {
        assert(ws.take(i as int) =~= ws);
    }
    r
}

pub(crate) fn signed_decimal_string(n: i32) -> (s: String)
    ensures
        s@ == signed_decimal(n as int),
{
    if n < 0 {
        let m: i64 = n as i64;
        let d = decimal_string((-m) as u64);
        concat("-", d.as_str())
    } else {
        decimal_string(n as u64)
    }
}

fn trimmed(s: &str) -> (r: String)
    ensures
        r@ == trim(s@),
{
    let v = chars_of(s);
    let t = trim_vec(&v);
    string_of(&t)
}

/// The result of a run of `docker` with `args`, from its exit status and
/// what it printed.
pub fn docker_cli_result(
    args: &Vec<String>,
    success: bool,
    exit_code: Option<i32>,
    stdout: &str,
    stderr: &str,
) -> (r: Result<String, String>)
    ensures
        match (r, docker_cli_outcome(args@.map_values(|a: String| a@), success, exit_code, stdout@, stderr@)) {
            (Ok(out), Ok(want)) => out@ == want,
            (Err(msg), Err(want)) => msg@ == want,
            _ => false,
        },
{
    if success {
        return Ok(trimmed(stdout));
    }
    let code: i32 = match exit_code {
        Some(c) => c,
        None => -1,
    };
    let joined = space_join(args);
    let a = concat("docker ", joined.as_str());
    let b = concat(a.as_str(), " failed (exit ");
    let c = concat(b.as_str(), signed_decimal_string(code).as_str());
    let d = concat(c.as_str(), "): ");
    let e = concat(d.as_str(), trimmed(stderr).as_str());
    Err(e)
}

} // verus!
