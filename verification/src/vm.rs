//! The stub hypervisor: an in-memory registry of VMs with their mounts and
//! port forwards, used for development and on platforms without a native
//! backend.
//!
//! Every operation either succeeds and changes the registry as its
//! contract states, or fails and leaves it unchanged. Writing the registry
//! to the VM store after a change is the caller's part.
use vstd::prelude::*;
use crate::hypervisor::{
    HypervisorError, PortForward, PortForwardView, SharedDirectory, SharedDirectoryView, VmConfig,
    VmInfo, VmInfoView, VmState, clone_dirs, clone_forwards, dirs_view, forwards_view, infos_view,
    opt_view, with_number,
};
use crate::store::{
    dedupe_by_id, dedupe_by_id_spec, dedupe_prefix, distinct_ids, id_number, last_with_id,
    lemma_max_id_number_bound, max_id_number, next_id_for_prefix, next_id_spec,
};
use crate::text::{
    all_digits, clone_string, concat, decimal, decimal_string, digit_char, digit_value,
    digits_value, is_ascii_digit, lemma_decimal_len, owned, parse_unsigned, str_eq,
};

verus! {

// ---------------------------------------------------------------------------
// Spec model
// ---------------------------------------------------------------------------

/// The prefix of the ids that the stub hypervisor hands out.
pub open spec fn stub_prefix() -> Seq<char> {
    "stub-"@
}

/// The id `<prefix><n>`.
pub open spec fn prefixed_id(prefix: Seq<char>, n: nat) -> Seq<char> {
    prefix + decimal(n)
}

/// Index of the VM with id `id`, if there is one.
pub open spec fn find_vm(s: Seq<VmInfoView>, id: Seq<char>) -> Option<int> {
    if exists|i: int| 0 <= i < s.len() && (#[trigger] s[i]).id == id {
        Some(choose|i: int| 0 <= i < s.len() && (#[trigger] s[i]).id == id)
    } else {
        None
    }
}

/// Index of the first VM called `name`.
#[verifier::opaque]
pub open spec fn first_named(s: Seq<VmInfoView>, name: Seq<char>) -> Option<int> {
    if exists|i: int| 0 <= i < s.len() && (#[trigger] s[i]).name == name {
        Some(
            choose|i: int|
                0 <= i < s.len() && (#[trigger] s[i]).name == name && forall|j: int|
                    0 <= j < i ==> (#[trigger] s[j]).name != name,
        )
    } else {
        None
    }
}

/// Some VM is called `name`.
pub open spec fn name_taken(s: Seq<VmInfoView>, name: Seq<char>) -> bool {
    exists|i: int| 0 <= i < s.len() && (#[trigger] s[i]).name == name
}

/// The record that a new VM gets from its configuration.
pub open spec fn info_from_config(id: Seq<char>, c: VmConfig) -> VmInfoView {
    VmInfoView {
        id: id,
        name: c.name@,
        state: VmState::Stopped,
        cpus: c.cpus,
        memory_mb: c.memory_mb,
        disk_gb: c.disk_gb,
        rosetta_enabled: c.rosetta,
        shared_dirs: dirs_view(c.shared_dirs@),
        port_forwards: forwards_view(c.port_forwards@),
        os_image: opt_view(c.os_image),
    }
}

pub open spec fn with_state(v: VmInfoView, state: VmState) -> VmInfoView {
    VmInfoView { state: state, ..v }
}

pub open spec fn with_dirs(v: VmInfoView, dirs: Seq<SharedDirectoryView>) -> VmInfoView {
    VmInfoView { shared_dirs: dirs, ..v }
}

pub open spec fn with_forwards(v: VmInfoView, pfs: Seq<PortForwardView>) -> VmInfoView {
    VmInfoView { port_forwards: pfs, ..v }
}

/// Every record with its state set to `Stopped`.
pub open spec fn all_stopped(s: Seq<VmInfoView>) -> Seq<VmInfoView> {
    s.map_values(|v: VmInfoView| with_state(v, VmState::Stopped))
}

/// Some share in `d` has tag `tag`.
pub open spec fn has_tag(d: Seq<SharedDirectoryView>, tag: Seq<char>) -> bool {
    exists|i: int| 0 <= i < d.len() && (#[trigger] d[i]).tag == tag
}

/// `d` without the shares tagged `tag`, in order.
pub open spec fn without_tag(d: Seq<SharedDirectoryView>, tag: Seq<char>) -> Seq<
    SharedDirectoryView,
>
    decreases d.len(),
{
    if d.len() == 0 {
        d
    } else if d.last().tag == tag {
        without_tag(d.drop_last(), tag)
    } else {
        without_tag(d.drop_last(), tag).push(d.last())
    }
}

/// Some forward in `p` listens on `port`.
pub open spec fn has_host_port(p: Seq<PortForwardView>, port: u16) -> bool {
    exists|i: int| 0 <= i < p.len() && (#[trigger] p[i]).host_port == port
}

/// `p` without the forwards on host port `port`, in order.
pub open spec fn without_port(p: Seq<PortForwardView>, port: u16) -> Seq<PortForwardView>
    decreases p.len(),
{
    if p.len() == 0 {
        p
    } else if p.last().host_port == port {
        without_port(p.drop_last(), port)
    } else {
        without_port(p.drop_last(), port).push(p.last())
    }
}

// ---------------------------------------------------------------------------
// Lemmas
// ---------------------------------------------------------------------------

proof fn lemma_infos_push(s: Seq<VmInfo>, x: VmInfo)
    ensures
        infos_view(s.push(x)) == infos_view(s).push(x@),
{
    assert(infos_view(s.push(x)) =~= infos_view(s).push(x@));
}

/// The id `<prefix><n>` reads back as `n`.
pub proof fn lemma_prefixed_id_number(prefix: Seq<char>, n: nat)
    requires
        n <= u64::MAX,
    ensures
        id_number(prefixed_id(prefix, n), prefix) == Some(n),
{
    crate::text::lemma_digits_value_decimal(n);
    let id = prefixed_id(prefix, n);
    assert(id.take(prefix.len() as int) =~= prefix);
    assert(id.skip(prefix.len() as int) =~= decimal(n));
}

/// With distinct ids, the VM at index `i` is the one `find_vm` finds.
pub proof fn lemma_find_vm_at(s: Seq<VmInfoView>, i: int)
    requires
        distinct_ids(s),
        0 <= i < s.len(),
    ensures
        find_vm(s, s[i].id) == Some(i),
{
    assert(s[i].id == s[i].id);
    let k = choose|k: int| 0 <= k < s.len() && (#[trigger] s[k]).id == s[i].id;
    if k != i {
        if k < i {
            assert(s[k].id != s[i].id);
        } else {
            assert(s[i].id != s[k].id);
        }
    }
}

/// The id of the first VM in `vms` called `name`.
pub fn id_of_named(vms: &Vec<VmInfo>, name: &str) -> (r: Option<String>)
    ensures
        match first_named(infos_view(vms@), name@) {
            Some(i) => r matches Some(id) && id@ == infos_view(vms@)[i].id,
            None => r is None,
        },
{
    let ghost s = infos_view(vms@);
    let mut i: usize = 0;
    while i < vms.len()
        invariant
            s == infos_view(vms@),
            i <= vms.len(),
            forall|j: int| 0 <= j < i ==> (#[trigger] s[j]).name != name@,
        decreases vms.len() - i,
    {
        if str_eq(vms[i].name.as_str(), name) {
            proof {
                lemma_first_named(s, name@);
                let k = first_named(s, name@)->0;
                if k < i {
                    assert(s[k].name != name@);
                }
                if k > i {
                    assert(s[i as int].name != name@);
                }
            }
            return Some(clone_string(&vms[i].id));
        }
        i = i + 1;
    }
    proof {
        lemma_first_named(s, name@);
    }
    None
}

/// `first_named` gives the least index of a VM called `name`.
pub proof fn lemma_first_named(s: Seq<VmInfoView>, name: Seq<char>)
    ensures
        match first_named(s, name) {
            Some(i) => {
                &&& 0 <= i < s.len()
                &&& s[i].name == name
                &&& forall|j: int| 0 <= j < i ==> (#[trigger] s[j]).name != name
            },
            None => forall|j: int| 0 <= j < s.len() ==> (#[trigger] s[j]).name != name,
        },
{
    reveal(first_named);
    if exists|i: int| 0 <= i < s.len() && (#[trigger] s[i]).name == name {
        let k = choose|i: int| 0 <= i < s.len() && (#[trigger] s[i]).name == name;
        lemma_least_named(s, name, k);
    }
}

proof fn lemma_least_named(s: Seq<VmInfoView>, name: Seq<char>, k: int)
    requires
        0 <= k < s.len(),
        s[k].name == name,
    ensures
        exists|i: int|
            0 <= i < s.len() && (#[trigger] s[i]).name == name && forall|j: int|
                0 <= j < i ==> (#[trigger] s[j]).name != name,
    decreases k,
{
    if exists|j: int| 0 <= j < k && (#[trigger] s[j]).name == name {
        let j = choose|j: int| 0 <= j < k && (#[trigger] s[j]).name == name;
        lemma_least_named(s, name, j);
    } else {
        assert(forall|j: int| 0 <= j < k ==> (#[trigger] s[j]).name != name);
    }
}

proof fn lemma_distinct_update(s: Seq<VmInfoView>, i: int, v: VmInfoView)
    requires
        distinct_ids(s),
        0 <= i < s.len(),
        v.id == s[i].id,
    ensures
        distinct_ids(s.update(i, v)),
{
    let t = s.update(i, v);
    assert forall|a: int, b: int| 0 <= a < b < t.len() implies (#[trigger] t[a]).id != (#[trigger] t[b]).id by {
        assert(t[a].id == s[a].id);
        assert(t[b].id == s[b].id);
    }
}

/// `without_tag` keeps exactly the shares with other tags.
pub proof fn lemma_without_tag_absent(d: Seq<SharedDirectoryView>, tag: Seq<char>)
    requires
        !has_tag(d, tag),
    ensures
        without_tag(d, tag) == d,
    decreases d.len(),
{
    if d.len() > 0 {
        assert(d.last() == d[d.len() - 1]);
        assert(!has_tag(d.drop_last(), tag)) by {
            if has_tag(d.drop_last(), tag) {
                let i = choose|i: int| 0 <= i < d.drop_last().len() && (#[trigger] d.drop_last()[i]).tag == tag;
                assert(d[i].tag == tag);
            }
        }
        lemma_without_tag_absent(d.drop_last(), tag);
        assert(d.drop_last().push(d.last()) =~= d);
    }
}

pub proof fn lemma_without_port_absent(p: Seq<PortForwardView>, port: u16)
    requires
        !has_host_port(p, port),
    ensures
        without_port(p, port) == p,
    decreases p.len(),
{
    if p.len() > 0 {
        assert(p.last() == p[p.len() - 1]);
        assert(!has_host_port(p.drop_last(), port)) by {
            if has_host_port(p.drop_last(), port) {
                let i = choose|i: int| 0 <= i < p.drop_last().len() && (#[trigger] p.drop_last()[i]).host_port == port;
                assert(p[i].host_port == port);
            }
        }
        lemma_without_port_absent(p.drop_last(), port);
        assert(p.drop_last().push(p.last()) =~= p);
    }
}

// ---------------------------------------------------------------------------
// Laws
// ---------------------------------------------------------------------------

/// Mounting a share under a tag that is not in use and then unmounting that
/// tag gives back the shares there were before.
pub proof fn law_mount_then_unmount(dirs: Seq<SharedDirectoryView>, share: SharedDirectoryView)
    requires
        !has_tag(dirs, share.tag),
    ensures
        without_tag(dirs.push(share), share.tag) == dirs,
{
    let d = dirs.push(share);
    assert(d.drop_last() =~= dirs);
    lemma_without_tag_absent(dirs, share.tag);
}

/// Adding a forward on a host port that is not in use and then removing
/// that host port gives back the forwards there were before.
pub proof fn law_forward_then_remove(pfs: Seq<PortForwardView>, pf: PortForwardView)
    requires
        !has_host_port(pfs, pf.host_port),
    ensures
        without_port(pfs.push(pf), pf.host_port) == pfs,
{
    let d = pfs.push(pf);
    assert(d.drop_last() =~= pfs);
    lemma_without_port_absent(pfs, pf.host_port);
}

/// After unmounting a tag, no share carries that tag.
pub proof fn law_unmount_removes_tag(dirs: Seq<SharedDirectoryView>, tag: Seq<char>)
    ensures
        !has_tag(without_tag(dirs, tag), tag),
    decreases dirs.len(),
{
    if dirs.len() > 0 {
        law_unmount_removes_tag(dirs.drop_last(), tag);
        let r = without_tag(dirs, tag);
        let r0 = without_tag(dirs.drop_last(), tag);
        if dirs.last().tag != tag {
            assert(!has_tag(r, tag)) by {
                if has_tag(r, tag) {
                    let i = choose|i: int| 0 <= i < r.len() && (#[trigger] r[i]).tag == tag;
                    if i < r0.len() {
                        assert(r[i] == r0[i]);
                    }
                }
            }
        }
    }
}

/// After removing a host port, no forward listens on it.
pub proof fn law_remove_forward_removes_port(pfs: Seq<PortForwardView>, port: u16)
    ensures
        !has_host_port(without_port(pfs, port), port),
    decreases pfs.len(),
{
    if pfs.len() > 0 {
        law_remove_forward_removes_port(pfs.drop_last(), port);
        let r = without_port(pfs, port);
        let r0 = without_port(pfs.drop_last(), port);
        if pfs.last().host_port != port {
            assert(!has_host_port(r, port)) by {
                if has_host_port(r, port) {
                    let i = choose|i: int| 0 <= i < r.len() && (#[trigger] r[i]).host_port == port;
                    if i < r0.len() {
                        assert(r[i] == r0[i]);
                    }
                }
            }
        }
    }
}

/// A VM that was just created (appended with an id no other VM has) is
/// what deleting its id removes: the registry is back to what it was.
pub proof fn law_create_then_delete(s: Seq<VmInfoView>, x: VmInfoView)
    requires
        distinct_ids(s.push(x)),
    ensures
        find_vm(s.push(x), x.id) == Some(s.len() as int),
        s.push(x).remove(s.len() as int) == s,
{
    let t = s.push(x);
    assert(t[s.len() as int] == x);
    lemma_find_vm_at(t, s.len() as int);
    assert(t.remove(s.len() as int) =~= s);
}

/// Starting and then stopping a stopped VM leaves the registry as it was;
/// in between the VM is running.
pub proof fn law_start_then_stop(s: Seq<VmInfoView>, i: int)
    requires
        0 <= i < s.len(),
        s[i].state == VmState::Stopped,
    ensures
        s.update(i, with_state(s[i], VmState::Running))[i].state == VmState::Running,
        ({
            let started = s.update(i, with_state(s[i], VmState::Running));
            started.update(i, with_state(started[i], VmState::Stopped)) == s
        }),
{
    let started = s.update(i, with_state(s[i], VmState::Running));
    assert(with_state(started[i], VmState::Stopped) == s[i]);
    assert(started.update(i, with_state(started[i], VmState::Stopped)) =~= s);
}

/// A VM keeps its id when its state changes, so it is found again under
/// that id.
pub proof fn law_state_change_keeps_lookup(s: Seq<VmInfoView>, i: int, state: VmState)
    requires
        distinct_ids(s),
        0 <= i < s.len(),
    ensures
        find_vm(s.update(i, with_state(s[i], state)), s[i].id) == Some(i),
{
    let t = s.update(i, with_state(s[i], state));
    assert(distinct_ids(t)) by {
        assert forall|a: int, b: int| 0 <= a < b < t.len() implies (#[trigger] t[a]).id != (#[trigger] t[b]).id by {
            assert(t[a].id == s[a].id);
            assert(t[b].id == s[b].id);
        }
    }
    assert(t[i].id == s[i].id);
    lemma_find_vm_at(t, i);
}

/// Collapsing duplicate ids changes nothing when the ids are already
/// distinct: records read back from a store that this registry wrote are
/// the records it held.
pub proof fn law_reload_keeps_records(s: Seq<VmInfoView>)
    requires
        distinct_ids(s),
    ensures
        dedupe_by_id_spec(s) == s,
{
    assert forall|n: int| 0 <= n <= s.len() implies dedupe_prefix(s, n) == s.take(n) by {
        lemma_dedupe_prefix_distinct(s, n);
    }
    assert(s.take(s.len() as int) =~= s);
}

/// A registry reloaded from the records another one held lists the same
/// VMs, every one stopped, and the id it hands out next is none of theirs
/// (while ids remain).
pub proof fn law_reload_lists_same_vms(s: Seq<VmInfoView>, prefix: Seq<char>)
    requires
        distinct_ids(s),
    ensures
        all_stopped(dedupe_by_id_spec(s)) == all_stopped(s),
        next_id_spec(s, prefix) < u64::MAX ==> forall|i: int|
            0 <= i < s.len() ==> (#[trigger] s[i]).id != prefixed_id(prefix, next_id_spec(s, prefix)),
{
    law_reload_keeps_records(s);
    lemma_max_id_number_bound(s, prefix, s.len() as int);
    if next_id_spec(s, prefix) < u64::MAX {
        let n = next_id_spec(s, prefix);
        lemma_prefixed_id_number(prefix, n);
        assert forall|i: int| 0 <= i < s.len() implies (#[trigger] s[i]).id != prefixed_id(prefix, n) by {
            if s[i].id == prefixed_id(prefix, n) {
                assert(id_number(s[i].id, prefix) == Some(n));
            }
        }
    }
}

/// A registry built (by `with_prefix`) from the VMs another well-formed
/// registry with the same prefix listed holds those VMs, every one stopped,
/// and the id it creates next (while ids remain) is none of theirs.
pub proof fn law_registry_survives_reload(before: StubHypervisor, after: StubHypervisor)
    requires
        before.wf(),
        after.id_prefix() == before.id_prefix(),
        after.records() == all_stopped(dedupe_by_id_spec(before.records())),
        after.counter() == next_id_spec(before.records(), before.id_prefix()),
    ensures
        after.records() == all_stopped(before.records()),
        after.counter() < u64::MAX ==> forall|i: int|
            0 <= i < after.records().len() ==> (#[trigger] after.records()[i]).id != prefixed_id(
                after.id_prefix(),
                after.counter() as nat,
            ),
{
    law_reload_lists_same_vms(before.records(), before.id_prefix());
    if after.counter() < u64::MAX {
        assert forall|i: int| 0 <= i < after.records().len() implies (#[trigger] after.records()[i]).id != prefixed_id(
            after.id_prefix(),
            after.counter() as nat,
        ) by {
            assert(after.records()[i].id == before.records()[i].id);
        }
    }
}

proof fn lemma_dedupe_prefix_distinct(s: Seq<VmInfoView>, n: int)
    requires
        distinct_ids(s),
        0 <= n <= s.len(),
    ensures
        dedupe_prefix(s, n) == s.take(n),
    decreases n,
{
    if n > 0 {
        lemma_dedupe_prefix_distinct(s, n - 1);
        assert(last_with_id(s, n - 1)) by {
            assert forall|j: int| n - 1 < j < s.len() implies (#[trigger] s[j]).id != s[n - 1].id by {
                assert(s[n - 1].id != s[j].id);
            }
        }
        assert(s.take(n - 1).push(s[n - 1]) =~= s.take(n));
    }
}

// ---------------------------------------------------------------------------
// The registry
// ---------------------------------------------------------------------------

/// Stub hypervisor for development/testing on unsupported platforms.
pub struct StubHypervisor {
    vms: Vec<VmInfo>,
    next_id: u64,
    prefix: String,
}

impl StubHypervisor {
    /// The VM records, in registry order.
    pub closed spec fn records(&self) -> Seq<VmInfoView> {
        infos_view(self.vms@)
    }

    /// The number that the next created VM's id carries.
    pub closed spec fn counter(&self) -> nat {
        self.next_id as nat
    }

    /// What the ids of created VMs start with.
    pub closed spec fn id_prefix(&self) -> Seq<char> {
        self.prefix@
    }

    /// The registry's invariant: ids are distinct, and every `<prefix><n>`
    /// id in use has `n` below the counter (unless the counter is
    /// exhausted).
    pub open spec fn wf(&self) -> bool {
        &&& distinct_ids(self.records())
        &&& self.counter() >= 1
        &&& self.counter() <= u64::MAX
        &&& forall|i: int|
            0 <= i < self.records().len() ==> (id_number(#[trigger] self.records()[i].id, self.id_prefix()) matches Some(
                k,
            ) ==> k < self.counter() || self.counter() == u64::MAX)
    }

    /// Builds a registry whose ids start with `prefix` from stored records:
    /// duplicate ids collapse to the last record, every VM is `Stopped`, and
    /// the counter continues after the largest `<prefix><n>` id.
    pub fn with_prefix(loaded: Vec<VmInfo>, prefix: &str) -> (h: StubHypervisor)
        ensures
            h.wf(),
            h.id_prefix() == prefix@,
            h.records() == all_stopped(dedupe_by_id_spec(infos_view(loaded@))),
            h.counter() == next_id_spec(infos_view(loaded@), prefix@),
    {
        let ghost s = infos_view(loaded@);
        let next_id = next_id_for_prefix(loaded.as_slice(), prefix);
        let deduped = dedupe_by_id(loaded);
        let ghost d = infos_view(deduped@);
        let mut vms: Vec<VmInfo> = Vec::new();
        let mut i: usize = 0;
        while i < deduped.len()
            invariant
                i <= deduped.len(),
                d == infos_view(deduped@),
                infos_view(vms@) == all_stopped(d.take(i as int)),
            decreases deduped.len() - i,
        {
            let mut v = deduped[i].duplicate();
            v.state = VmState::Stopped;
            let ghost prev = vms@;
            proof {
                assert(v@ == with_state(d[i as int], VmState::Stopped));
                lemma_infos_push(prev, v);
                assert(all_stopped(d.take(i as int + 1)) =~= all_stopped(d.take(i as int)).push(
                    with_state(d[i as int], VmState::Stopped),
                ));
            }
            vms.push(v);
            i = i + 1;
        }
        proof {
            assert(d.take(i as int) =~= d);
            let m = max_id_number(s, prefix@, s.len() as int);
            lemma_max_id_number_bound(s, prefix@, s.len() as int);
            let h = infos_view(vms@);
            assert forall|a: int, b: int| 0 <= a < b < h.len() implies (#[trigger] h[a]).id != (#[trigger] h[b]).id by {
                assert(h[a].id == d[a].id);
                assert(h[b].id == d[b].id);
            }
            assert forall|k: int| 0 <= k < h.len() implies (id_number(#[trigger] h[k].id, prefix@) matches Some(
                n,
            ) ==> n < next_id || next_id == u64::MAX) by {
                assert(s.contains(d[k]));
                let j = choose|j: int| 0 <= j < s.len() && s[j] == d[k];
                assert(h[k].id == s[j].id);
            }
        }
        StubHypervisor { vms, next_id, prefix: owned(prefix) }
    }

    /// Builds the registry from stored records: duplicate ids collapse to
    /// the last record, every VM is `Stopped`, and the counter continues
    /// after the largest `stub-<n>` id.
    pub fn new(loaded: Vec<VmInfo>) -> (h: StubHypervisor)
        ensures
            h.wf(),
            h.id_prefix() == stub_prefix(),
            h.records() == all_stopped(dedupe_by_id_spec(infos_view(loaded@))),
            h.counter() == next_id_spec(infos_view(loaded@), stub_prefix()),
    {
        Self::with_prefix(loaded, "stub-")
    }

    /// The number that the next created VM's id will carry.
    pub fn next_id(&self) -> (n: u64)
        ensures
            n == self.counter(),
    {
        self.next_id
    }

    /// Index of the VM with id `id`.
    fn index_of(&self, id: &str) -> (r: Option<usize>)
        requires
            self.wf(),
        ensures
            match r {
                Some(i) => i < self.vms@.len() && find_vm(self.records(), id@) == Some(i as int),
                None => find_vm(self.records(), id@) is None,
            },
    {
        let mut i: usize = 0;
        while i < self.vms.len()
            invariant
                self.wf(),
                i <= self.vms.len(),
                forall|j: int| 0 <= j < i ==> (#[trigger] self.records()[j]).id != id@,
            decreases self.vms.len() - i,
        {
            if str_eq(self.vms[i].id.as_str(), id) {
                proof {
                    assert(self.records()[i as int].id == id@);
                    lemma_find_vm_at(self.records(), i as int);
                }
                return Some(i);
            }
            i = i + 1;
        }
        None
    }

    fn name_exists(&self, name: &str) -> (r: bool)
        ensures
            r == name_taken(self.records(), name@),
    {
        let mut i: usize = 0;
        while i < self.vms.len()
            invariant
                i <= self.vms.len(),
                forall|j: int| 0 <= j < i ==> (#[trigger] self.records()[j]).name != name@,
            decreases self.vms.len() - i,
        {
            if str_eq(self.vms[i].name.as_str(), name) {
                proof {
                    assert(self.records()[i as int].name == name@);
                }
                return true;
            }
            i = i + 1;
        }
        false
    }

    /// Creates a stopped VM from `config` under the id `stub-<counter>`.
    /// Fails with `CreateFailed` when a VM of that name exists.
    pub fn create_vm(&mut self, config: VmConfig) -> (r: Result<String, HypervisorError>)
        requires
            old(self).wf(),
            !name_taken(old(self).records(), config.name@) ==> old(self).counter() < u64::MAX,
        ensures
            final(self).id_prefix() == old(self).id_prefix(),
            final(self).wf(),
            match r {
                Ok(id) => {
                    &&& !name_taken(old(self).records(), config.name@)
                    &&& id@ == prefixed_id(old(self).id_prefix(), old(self).counter())
                    &&& final(self).records() == old(self).records().push(info_from_config(id@, config))
                    &&& final(self).counter() == old(self).counter() + 1
                },
                Err(e) => {
                    &&& name_taken(old(self).records(), config.name@)
                    &&& e matches HypervisorError::CreateFailed(m)
                    &&& m@ == "VM name already exists: "@ + config.name@
                    &&& final(self).records() == old(self).records()
                    &&& final(self).counter() == old(self).counter()
                },
            },
    {
        if self.name_exists(config.name.as_str()) {
            return Err(HypervisorError::CreateFailed(concat("VM name already exists: ", config.name.as_str())));
        }
        let n = self.next_id;
        let digits = decimal_string(n);
        let id = concat(self.prefix.as_str(), digits.as_str());
        let ghost cfg = config;
        proof {
            lemma_prefixed_id_number(self.id_prefix(), n as nat);
            assert forall|i: int| 0 <= i < self.records().len() implies (#[trigger] self.records()[i]).id != id@ by {
                if self.records()[i].id == id@ {
                    assert(id_number(self.records()[i].id, self.id_prefix()) == Some(n as nat));
                }
            }
        }
        self.next_id = n + 1;
        let info = VmInfo {
            id: clone_string(&id),
            name: config.name,
            state: VmState::Stopped,
            cpus: config.cpus,
            memory_mb: config.memory_mb,
            disk_gb: config.disk_gb,
            rosetta_enabled: config.rosetta,
            shared_dirs: config.shared_dirs,
            port_forwards: config.port_forwards,
            os_image: config.os_image,
        };
        let ghost old_recs = self.records();
        self.vms.push(info);
        proof {
            assert(self.records() =~= old_recs.push(info_from_config(id@, cfg)));
            let t = self.records();
            assert forall|a: int, b: int| 0 <= a < b < t.len() implies (#[trigger] t[a]).id != (#[trigger] t[b]).id by {
                if b == t.len() - 1 {
                    assert(t[a] == old_recs[a]);
                } else {
                    assert(t[a] == old_recs[a]);
                    assert(t[b] == old_recs[b]);
                }
            }
            assert forall|i: int| 0 <= i < t.len() implies (id_number(#[trigger] t[i].id, self.id_prefix()) matches Some(
                k,
            ) ==> k < self.counter() || self.counter() == u64::MAX) by {
                if i < t.len() - 1 {
                    assert(t[i] == old_recs[i]);
                }
            }
        }
        Ok(id)
    }

    fn set_state(&mut self, id: &str, state: VmState) -> (r: Result<(), HypervisorError>)
        requires
            old(self).wf(),
        ensures
            final(self).id_prefix() == old(self).id_prefix(),
            final(self).wf(),
            final(self).counter() == old(self).counter(),
            match find_vm(old(self).records(), id@) {
                Some(i) => r is Ok && final(self).records() == old(self).records().update(
                    i,
                    with_state(old(self).records()[i], state),
                ),
                None => {
                    &&& r matches Err(HypervisorError::NotFound(m))
                    &&& m@ == id@
                    &&& final(self).records() == old(self).records()
                },
            },
    {
        match self.index_of(id) {
            None => Err(HypervisorError::NotFound(owned(id))),
            Some(i) => {
                let ghost old_recs = self.records();
                let mut v = self.vms[i].duplicate();
                v.state = state;
                self.vms.set(i, v);
                proof {
                    assert(self.records() =~= old_recs.update(i as int, with_state(old_recs[i as int], state)));
                    lemma_distinct_update(old_recs, i as int, with_state(old_recs[i as int], state));
                    let t = self.records();
                    assert forall|k: int| 0 <= k < t.len() implies (id_number(#[trigger] t[k].id, self.id_prefix()) matches Some(
                        n,
                    ) ==> n < self.counter() || self.counter() == u64::MAX) by {
                        assert(t[k].id == old_recs[k].id);
                    }
                }
                Ok(())
            },
        }
    }

    /// Marks the VM `id` as `Running`; `NotFound` when there is none.
    pub fn start_vm(&mut self, id: &str) -> (r: Result<(), HypervisorError>)
        requires
            old(self).wf(),
        ensures
            final(self).id_prefix() == old(self).id_prefix(),
            final(self).wf(),
            final(self).counter() == old(self).counter(),
            match find_vm(old(self).records(), id@) {
                Some(i) => r is Ok && final(self).records() == old(self).records().update(
                    i,
                    with_state(old(self).records()[i], VmState::Running),
                ),
                None => {
                    &&& r matches Err(HypervisorError::NotFound(m))
                    &&& m@ == id@
                    &&& final(self).records() == old(self).records()
                },
            },
    {
        self.set_state(id, VmState::Running)
    }

    /// Marks the VM `id` as `Stopped`; `NotFound` when there is none.
    pub fn stop_vm(&mut self, id: &str) -> (r: Result<(), HypervisorError>)
        requires
            old(self).wf(),
        ensures
            final(self).id_prefix() == old(self).id_prefix(),
            final(self).wf(),
            final(self).counter() == old(self).counter(),
            match find_vm(old(self).records(), id@) {
                Some(i) => r is Ok && final(self).records() == old(self).records().update(
                    i,
                    with_state(old(self).records()[i], VmState::Stopped),
                ),
                None => {
                    &&& r matches Err(HypervisorError::NotFound(m))
                    &&& m@ == id@
                    &&& final(self).records() == old(self).records()
                },
            },
    {
        self.set_state(id, VmState::Stopped)
    }

    /// Removes the VM `id`; `NotFound` when there is none.
    pub fn delete_vm(&mut self, id: &str) -> (r: Result<(), HypervisorError>)
        requires
            old(self).wf(),
        ensures
            final(self).id_prefix() == old(self).id_prefix(),
            final(self).wf(),
            final(self).counter() == old(self).counter(),
            match find_vm(old(self).records(), id@) {
                Some(i) => r is Ok && final(self).records() == old(self).records().remove(i),
                None => {
                    &&& r matches Err(HypervisorError::NotFound(m))
                    &&& m@ == id@
                    &&& final(self).records() == old(self).records()
                },
            },
    {
        match self.index_of(id) {
            None => Err(HypervisorError::NotFound(owned(id))),
            Some(i) => {
                let ghost old_recs = self.records();
                let _removed = self.vms.remove(i);
                proof {
                    assert(self.records() =~= old_recs.remove(i as int));
                    let t = self.records();
                    assert forall|a: int, b: int| 0 <= a < b < t.len() implies (#[trigger] t[a]).id != (#[trigger] t[b]).id by {
                        let a0 = if a < i { a } else { a + 1 };
                        let b0 = if b < i { b } else { b + 1 };
                        assert(t[a] == old_recs[a0]);
                        assert(t[b] == old_recs[b0]);
                    }
                    assert forall|k: int| 0 <= k < t.len() implies (id_number(#[trigger] t[k].id, self.id_prefix()) matches Some(
                        n,
                    ) ==> n < self.counter() || self.counter() == u64::MAX) by {
                        let k0 = if k < i { k } else { k + 1 };
                        assert(t[k] == old_recs[k0]);
                    }
                }
                Ok(())
            },
        }
    }

    /// Copies of all VM records.
    pub fn list_vms(&self) -> (r: Vec<VmInfo>)
        ensures
            infos_view(r@) == self.records(),
    {
        let mut r: Vec<VmInfo> = Vec::new();
        let mut i: usize = 0;
        while i < self.vms.len()
            invariant
                i <= self.vms.len(),
                infos_view(r@) == self.records().take(i as int),
            decreases self.vms.len() - i,
        {
            let x = self.vms[i].duplicate();
            let ghost prev = r@;
            proof {
                lemma_infos_push(prev, x);
                assert(self.records().take(i as int + 1) =~= self.records().take(i as int).push(x@));
            }
            r.push(x);
            i = i + 1;
        }
        proof {
            assert(self.records().take(i as int) =~= self.records());
        }
        r
    }

    /// Adds the share `share` to the VM `vm_id`. Fails with `NotFound`
    /// when there is no such VM and with `VirtioFsError` when the VM
    /// already has a share with that tag.
    pub fn mount_virtiofs(&mut self, vm_id: &str, share: &SharedDirectory) -> (r: Result<
        (),
        HypervisorError,
    >)
        requires
            old(self).wf(),
        ensures
            final(self).id_prefix() == old(self).id_prefix(),
            final(self).wf(),
            final(self).counter() == old(self).counter(),
            match find_vm(old(self).records(), vm_id@) {
                Some(i) => if has_tag(old(self).records()[i].shared_dirs, share.tag@) {
                    &&& r matches Err(HypervisorError::VirtioFsError(m))
                    &&& m@ == "Mount tag already exists: "@ + share.tag@
                    &&& final(self).records() == old(self).records()
                } else {
                    &&& r is Ok
                    &&& final(self).records() == old(self).records().update(
                        i,
                        with_dirs(
                            old(self).records()[i],
                            old(self).records()[i].shared_dirs.push(share@),
                        ),
                    )
                },
                None => {
                    &&& r matches Err(HypervisorError::NotFound(m))
                    &&& m@ == vm_id@
                    &&& final(self).records() == old(self).records()
                },
            },
    {
        match self.index_of(vm_id) {
            None => Err(HypervisorError::NotFound(owned(vm_id))),
            Some(i) => {
                let ghost old_recs = self.records();
                if dirs_have_tag(&self.vms[i].shared_dirs, share.tag.as_str()) {
                    return Err(
                        HypervisorError::VirtioFsError(
                            concat("Mount tag already exists: ", share.tag.as_str()),
                        ),
                    );
                }
                let mut v = self.vms[i].duplicate();
                v.shared_dirs.push(share.duplicate());
                proof {
                    assert(dirs_view(v.shared_dirs@) =~= old_recs[i as int].shared_dirs.push(share@));
                }
                self.vms.set(i, v);
                proof {
                    let nv = with_dirs(old_recs[i as int], old_recs[i as int].shared_dirs.push(share@));
                    assert(self.records() =~= old_recs.update(i as int, nv));
                    lemma_distinct_update(old_recs, i as int, nv);
                    let t = self.records();
                    assert forall|k: int| 0 <= k < t.len() implies (id_number(#[trigger] t[k].id, self.id_prefix()) matches Some(
                        n,
                    ) ==> n < self.counter() || self.counter() == u64::MAX) by {
                        assert(t[k].id == old_recs[k].id);
                    }
                }
                Ok(())
            },
        }
    }

    /// Removes every share tagged `tag` from the VM `vm_id`; `NotFound`
    /// when there is no such VM.
    pub fn unmount_virtiofs(&mut self, vm_id: &str, tag: &str) -> (r: Result<(), HypervisorError>)
        requires
            old(self).wf(),
        ensures
            final(self).id_prefix() == old(self).id_prefix(),
            final(self).wf(),
            final(self).counter() == old(self).counter(),
            match find_vm(old(self).records(), vm_id@) {
                Some(i) => r is Ok && final(self).records() == old(self).records().update(
                    i,
                    with_dirs(
                        old(self).records()[i],
                        without_tag(old(self).records()[i].shared_dirs, tag@),
                    ),
                ),
                None => {
                    &&& r matches Err(HypervisorError::NotFound(m))
                    &&& m@ == vm_id@
                    &&& final(self).records() == old(self).records()
                },
            },
    {
        match self.index_of(vm_id) {
            None => Err(HypervisorError::NotFound(owned(vm_id))),
            Some(i) => {
                let ghost old_recs = self.records();
                let mut v = self.vms[i].duplicate();
                let kept = keep_other_tags(&v.shared_dirs, tag);
                v.shared_dirs = kept;
                self.vms.set(i, v);
                proof {
                    let nv = with_dirs(old_recs[i as int], without_tag(old_recs[i as int].shared_dirs, tag@));
                    assert(self.records() =~= old_recs.update(i as int, nv));
                    lemma_distinct_update(old_recs, i as int, nv);
                    let t = self.records();
                    assert forall|k: int| 0 <= k < t.len() implies (id_number(#[trigger] t[k].id, self.id_prefix()) matches Some(
                        n,
                    ) ==> n < self.counter() || self.counter() == u64::MAX) by {
                        assert(t[k].id == old_recs[k].id);
                    }
                }
                Ok(())
            },
        }
    }

    /// The shares of the VM `vm_id`; `NotFound` when there is none.
    pub fn list_virtiofs_mounts(&self, vm_id: &str) -> (r: Result<
        Vec<SharedDirectory>,
        HypervisorError,
    >)
        requires
            self.wf(),
        ensures
            match find_vm(self.records(), vm_id@) {
                Some(i) => r matches Ok(d) && dirs_view(d@) == self.records()[i].shared_dirs,
                None => r matches Err(HypervisorError::NotFound(m)) && m@ == vm_id@,
            },
    {
        match self.index_of(vm_id) {
            None => Err(HypervisorError::NotFound(owned(vm_id))),
            Some(i) => Ok(clone_dirs(&self.vms[i].shared_dirs)),
        }
    }

    /// Adds the forward `pf` to the VM `vm_id`. Fails with `NotFound` when
    /// there is no such VM and with `CreateFailed` when its host port is
    /// already forwarded.
    pub fn add_port_forward(&mut self, vm_id: &str, pf: &PortForward) -> (r: Result<
        (),
        HypervisorError,
    >)
        requires
            old(self).wf(),
        ensures
            final(self).id_prefix() == old(self).id_prefix(),
            final(self).wf(),
            final(self).counter() == old(self).counter(),
            match find_vm(old(self).records(), vm_id@) {
                Some(i) => if has_host_port(old(self).records()[i].port_forwards, pf.host_port) {
                    &&& r matches Err(HypervisorError::CreateFailed(m))
                    &&& m@ == "Host port already forwarded: "@ + decimal(pf.host_port as nat)
                    &&& final(self).records() == old(self).records()
                } else {
                    &&& r is Ok
                    &&& final(self).records() == old(self).records().update(
                        i,
                        with_forwards(
                            old(self).records()[i],
                            old(self).records()[i].port_forwards.push(pf@),
                        ),
                    )
                },
                None => {
                    &&& r matches Err(HypervisorError::NotFound(m))
                    &&& m@ == vm_id@
                    &&& final(self).records() == old(self).records()
                },
            },
    {
        match self.index_of(vm_id) {
            None => Err(HypervisorError::NotFound(owned(vm_id))),
            Some(i) => {
                let ghost old_recs = self.records();
                if forwards_have_port(&self.vms[i].port_forwards, pf.host_port) {
                    return Err(
                        HypervisorError::CreateFailed(
                            with_number("Host port already forwarded: ", pf.host_port as u64),
                        ),
                    );
                }
                let mut v = self.vms[i].duplicate();
                v.port_forwards.push(pf.duplicate());
                proof {
                    assert(forwards_view(v.port_forwards@) =~= old_recs[i as int].port_forwards.push(pf@));
                }
                self.vms.set(i, v);
                proof {
                    let nv = with_forwards(old_recs[i as int], old_recs[i as int].port_forwards.push(pf@));
                    assert(self.records() =~= old_recs.update(i as int, nv));
                    lemma_distinct_update(old_recs, i as int, nv);
                    let t = self.records();
                    assert forall|k: int| 0 <= k < t.len() implies (id_number(#[trigger] t[k].id, self.id_prefix()) matches Some(
                        n,
                    ) ==> n < self.counter() || self.counter() == u64::MAX) by {
                        assert(t[k].id == old_recs[k].id);
                    }
                }
                Ok(())
            },
        }
    }

    /// Removes every forward on host port `host_port` from the VM `vm_id`;
    /// `NotFound` when there is no such VM.
    pub fn remove_port_forward(&mut self, vm_id: &str, host_port: u16) -> (r: Result<
        (),
        HypervisorError,
    >)
        requires
            old(self).wf(),
        ensures
            final(self).id_prefix() == old(self).id_prefix(),
            final(self).wf(),
            final(self).counter() == old(self).counter(),
            match find_vm(old(self).records(), vm_id@) {
                Some(i) => r is Ok && final(self).records() == old(self).records().update(
                    i,
                    with_forwards(
                        old(self).records()[i],
                        without_port(old(self).records()[i].port_forwards, host_port),
                    ),
                ),
                None => {
                    &&& r matches Err(HypervisorError::NotFound(m))
                    &&& m@ == vm_id@
                    &&& final(self).records() == old(self).records()
                },
            },
    {
        match self.index_of(vm_id) {
            None => Err(HypervisorError::NotFound(owned(vm_id))),
            Some(i) => {
                let ghost old_recs = self.records();
                let mut v = self.vms[i].duplicate();
                let kept = keep_other_ports(&v.port_forwards, host_port);
                v.port_forwards = kept;
                self.vms.set(i, v);
                proof {
                    let nv = with_forwards(old_recs[i as int], without_port(old_recs[i as int].port_forwards, host_port));
                    assert(self.records() =~= old_recs.update(i as int, nv));
                    lemma_distinct_update(old_recs, i as int, nv);
                    let t = self.records();
                    assert forall|k: int| 0 <= k < t.len() implies (id_number(#[trigger] t[k].id, self.id_prefix()) matches Some(
                        n,
                    ) ==> n < self.counter() || self.counter() == u64::MAX) by {
                        assert(t[k].id == old_recs[k].id);
                    }
                }
                Ok(())
            },
        }
    }

    /// The forwards of the VM `vm_id`; `NotFound` when there is none.
    pub fn list_port_forwards(&self, vm_id: &str) -> (r: Result<Vec<PortForward>, HypervisorError>)
        requires
            self.wf(),
        ensures
            match find_vm(self.records(), vm_id@) {
                Some(i) => r matches Ok(p) && forwards_view(p@) == self.records()[i].port_forwards,
                None => r matches Err(HypervisorError::NotFound(m)) && m@ == vm_id@,
            },
    {
        match self.index_of(vm_id) {
            None => Err(HypervisorError::NotFound(owned(vm_id))),
            Some(i) => Ok(clone_forwards(&self.vms[i].port_forwards)),
        }
    }

    /// Rosetta translation is never available on the stub hypervisor.
    pub fn rosetta_available(&self) -> (b: bool)
        ensures
            !b,
    {
        false
    }
}

fn dirs_have_tag(d: &Vec<SharedDirectory>, tag: &str) -> (r: bool)
    ensures
        r == has_tag(dirs_view(d@), tag@),
{
    let mut j: usize = 0;
    while j < d.len()
        invariant
            j <= d.len(),
            forall|k: int| 0 <= k < j ==> (#[trigger] dirs_view(d@)[k]).tag != tag@,
        decreases d.len() - j,
    {
        if str_eq(d[j].tag.as_str(), tag) {
            proof {
                assert(dirs_view(d@)[j as int].tag == tag@);
            }
            return true;
        }
        j = j + 1;
    }
    false
}

fn forwards_have_port(p: &Vec<PortForward>, port: u16) -> (r: bool)
    ensures
        r == has_host_port(forwards_view(p@), port),
{
    let mut j: usize = 0;
    while j < p.len()
        invariant
            j <= p.len(),
            forall|k: int| 0 <= k < j ==> (#[trigger] forwards_view(p@)[k]).host_port != port,
        decreases p.len() - j,
    {
        if p[j].host_port == port {
            proof {
                assert(forwards_view(p@)[j as int].host_port == port);
            }
            return true;
        }
        j = j + 1;
    }
    false
}

/// The shares of `d` whose tag is not `tag`, in order.
fn keep_other_tags(d: &Vec<SharedDirectory>, tag: &str) -> (r: Vec<SharedDirectory>)
    ensures
        dirs_view(r@) == without_tag(dirs_view(d@), tag@),
{
    let mut r: Vec<SharedDirectory> = Vec::new();
    let mut i: usize = 0;
    while i < d.len()
        invariant
            i <= d.len(),
            dirs_view(r@) == without_tag(dirs_view(d@.take(i as int)), tag@),
        decreases d.len() - i,
    {
        let ghost prev = dirs_view(r@);
        proof {
            assert(dirs_view(d@.take(i as int + 1)).drop_last() =~= dirs_view(d@.take(i as int)));
            assert(dirs_view(d@.take(i as int + 1)).last() == d@[i as int]@);
        }
        if !str_eq(d[i].tag.as_str(), tag) {
            r.push(d[i].duplicate());
            proof {
                assert(dirs_view(r@) =~= prev.push(d@[i as int]@));
            }
        }
        i = i + 1;
    }
    proof {
        assert(d@.take(i as int) =~= d@);
    }
    r
}

/// The forwards of `p` whose host port is not `port`, in order.
fn keep_other_ports(p: &Vec<PortForward>, port: u16) -> (r: Vec<PortForward>)
    ensures
        forwards_view(r@) == without_port(forwards_view(p@), port),
{
    let mut r: Vec<PortForward> = Vec::new();
    let mut i: usize = 0;
    while i < p.len()
        invariant
            i <= p.len(),
            forwards_view(r@) == without_port(forwards_view(p@.take(i as int)), port),
        decreases p.len() - i,
    {
        let ghost prev = forwards_view(r@);
        proof {
            assert(forwards_view(p@.take(i as int + 1)).drop_last() =~= forwards_view(p@.take(i as int)));
            assert(forwards_view(p@.take(i as int + 1)).last() == p@[i as int]@);
        }
        if p[i].host_port != port {
            r.push(p[i].duplicate());
            proof {
                assert(forwards_view(r@) =~= prev.push(p@[i as int]@));
            }
        }
        i = i + 1;
    }
    proof {
        assert(p@.take(i as int) =~= p@);
    }
    r
}

} // verus!
