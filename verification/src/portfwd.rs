//! The table of active TCP port forwards: which host ports are forwarded
//! for which VM.
//!
//! Binding listeners and proxying connections are the caller's part: it
//! asks the table whether a forward may start, binds, and then records it.
use vstd::prelude::*;
use crate::text::{clone_string, concat, decimal, decimal_string, owned, str_eq};

verus! {

/// The active forwards, keyed by VM id and host port.
pub struct ForwardTable {
    keys: Vec<(String, u16)>,
}

impl Default for ForwardTable {
    /// An empty table.
    fn default() -> (t: ForwardTable)
        ensures
            t.wf(),
            t.active() == Set::<(Seq<char>, u16)>::empty(),
    {
        ForwardTable::new()
    }
}

pub open spec fn key_view(k: (String, u16)) -> (Seq<char>, u16) {
    (k.0@, k.1)
}

pub open spec fn keys_view(v: Seq<(String, u16)>) -> Seq<(Seq<char>, u16)> {
    v.map_values(|k: (String, u16)| key_view(k))
}

impl ForwardTable {
    /// The keys, in the order they were recorded.
    pub closed spec fn entries(&self) -> Seq<(Seq<char>, u16)> {
        keys_view(self.keys@)
    }

    /// The table holds each key once.
    pub closed spec fn wf(&self) -> bool {
        self.entries().no_duplicates()
    }

    /// The set of active `(vm id, host port)` keys.
    pub closed spec fn active(&self) -> Set<(Seq<char>, u16)> {
        self.entries().to_set()
    }

    /// An empty table.
    pub fn new() -> (t: ForwardTable)
        ensures
            t.wf(),
            t.active() == Set::<(Seq<char>, u16)>::empty(),
    {
        let t = ForwardTable { keys: Vec::new() };
        proof {
            assert(t.entries() =~= Seq::<(Seq<char>, u16)>::empty());
            assert(t.active() =~= Set::<(Seq<char>, u16)>::empty());
        }
        t
    }

    fn index_of(&self, vm_id: &str, host_port: u16) -> (r: Option<usize>)
        ensures
            match r {
                Some(i) => i < self.keys@.len() && self.entries()[i as int] == (vm_id@, host_port),
                None => !self.entries().contains((vm_id@, host_port)),
            },
    {
        let ghost e = self.entries();
        let mut i: usize = 0;
        while i < self.keys.len()
            invariant
                e == self.entries(),
                i <= self.keys.len(),
                forall|j: int| 0 <= j < i ==> e[j] != (vm_id@, host_port),
            decreases self.keys.len() - i,
        {
            if self.keys[i].1 == host_port && str_eq(self.keys[i].0.as_str(), vm_id) {
                proof {
                    assert(e[i as int] == (vm_id@, host_port));
                }
                return Some(i);
            }
            proof {
                assert(e[i as int] == key_view(self.keys@[i as int]));
            }
            i = i + 1;
        }
        None
    }

    /// Whether a forward of `host_port` for `vm_id` is active.
    pub fn contains(&self, vm_id: &str, host_port: u16) -> (b: bool)
        ensures
            b == self.active().contains((vm_id@, host_port)),
    {
        self.index_of(vm_id, host_port).is_some()
    }

    /// Whether a forward may start: it must not be active already. Gives
    /// the address to bind the listener to.
    pub fn check_new(&self, vm_id: &str, host_port: u16) -> (r: Result<String, String>)
        ensures
            self.active().contains((vm_id@, host_port)) ==> (r matches Err(m) && m@
                == "Port forward already active: host "@ + decimal(host_port as nat) + " for VM "@ + vm_id@),
            !self.active().contains((vm_id@, host_port)) ==> (r matches Ok(a) && a@ == "0.0.0.0:"@ + decimal(
                host_port as nat,
            )),
    {
        if self.contains(vm_id, host_port) {
            let a = concat("Port forward already active: host ", decimal_string(host_port as u64).as_str());
            let a = concat(a.as_str(), " for VM ");
            return Err(concat(a.as_str(), vm_id));
        }
        Ok(concat("0.0.0.0:", decimal_string(host_port as u64).as_str()))
    }

    /// Records a forward whose listener is bound.
    pub fn record(&mut self, vm_id: &str, host_port: u16)
        requires
            old(self).wf(),
            !old(self).active().contains((vm_id@, host_port)),
        ensures
            final(self).wf(),
            final(self).active() == old(self).active().insert((vm_id@, host_port)),
    {
        let ghost before = self.entries();
        self.keys.push((owned(vm_id), host_port));
        proof {
            assert(self.entries() =~= before.push((vm_id@, host_port)));
            lemma_push_contains(before, (vm_id@, host_port));
            assert(self.active() =~= old(self).active().insert((vm_id@, host_port)));
            assert forall|i: int, j: int| 0 <= i < j < self.entries().len() implies self.entries()[i]
                != self.entries()[j] by {
                if j == before.len() {
                    assert(before.contains(before[i]));
                }
            }
        }
    }

    /// Stops tracking the forward of `host_port` for `vm_id`; fails when it
    /// is not active.
    pub fn remove(&mut self, vm_id: &str, host_port: u16) -> (r: Result<(), String>)
        requires
            old(self).wf(),
        ensures
            final(self).wf(),
            old(self).active().contains((vm_id@, host_port)) ==> r is Ok && final(self).active() == old(
                self,
            ).active().remove((vm_id@, host_port)),
            !old(self).active().contains((vm_id@, host_port)) ==> (r matches Err(m) && m@
                == "No active port forward on host port "@ + decimal(host_port as nat) + " for VM "@ + vm_id@)
                && final(self).active() == old(self).active(),
    {
        match self.index_of(vm_id, host_port) {
            Some(i) => {
                let ghost before = self.entries();
                let _ = self.keys.remove(i);
                proof {
                    assert(self.entries() =~= before.remove(i as int));
                    assert forall|k: (Seq<char>, u16)| #[trigger] self.active().contains(k) <==> old(
                        self,
                    ).active().remove((vm_id@, host_port)).contains(k) by {
                        if self.entries().contains(k) {
                            let j = choose|j: int| 0 <= j < self.entries().len() && self.entries()[j] == k;
                            if j < i {
                                assert(before[j] == k);
                            } else {
                                assert(before[j + 1] == k);
                            }
                        }
                        if old(self).active().remove((vm_id@, host_port)).contains(k) {
                            let j = choose|j: int| 0 <= j < before.len() && before[j] == k;
                            assert(j != i);
                            if j < i {
                                assert(self.entries()[j] == k);
                            } else {
                                assert(self.entries()[j - 1] == k);
                            }
                        }
                    }
                    assert(self.active() =~= old(self).active().remove((vm_id@, host_port)));
                }
                Ok(())
            },
            None => {
                let a = concat("No active port forward on host port ", decimal_string(host_port as u64).as_str());
                let a = concat(a.as_str(), " for VM ");
                Err(concat(a.as_str(), vm_id))
            },
        }
    }

    /// The host ports forwarded for `vm_id`, each once.
    pub fn list(&self, vm_id: &str) -> (r: Vec<u16>)
        requires
            self.wf(),
        ensures
            r@.no_duplicates(),
            forall|p: u16| r@.contains(p) <==> self.active().contains((vm_id@, p)),
    {
        let ghost e = self.entries();
        let mut r: Vec<u16> = Vec::new();
        let mut i: usize = 0;
        while i < self.keys.len()
            invariant
                e == self.entries(),
                e.no_duplicates(),
                i <= self.keys.len(),
                r@.no_duplicates(),
                forall|p: u16| r@.contains(p) <==> e.take(i as int).contains((vm_id@, p)),
            decreases self.keys.len() - i,
        {
            let ghost t0 = e.take(i as int);
            proof {
                assert(e[i as int] == key_view(self.keys@[i as int]));
                assert(e.take(i as int + 1) =~= t0.push(e[i as int]));
                lemma_push_contains(t0, e[i as int]);
            }
            if str_eq(self.keys[i].0.as_str(), vm_id) {
                let p = self.keys[i].1;
                proof {
                    if r@.contains(p) {
                        let j = choose|j: int| 0 <= j < i && t0[j] == (vm_id@, p);
                        assert(e[j] == e[i as int]);
                    }
                    lemma_push_contains(r@, p);
                }
                r.push(p);
            }
            i = i + 1;
        }
        proof {
            assert(e.take(i as int) =~= e);
        }
        r
    }

    /// Stops tracking every forward of `vm_id`, giving their host ports.
    pub fn remove_all(&mut self, vm_id: &str) -> (r: Vec<u16>)
        requires
            old(self).wf(),
        ensures
            final(self).wf(),
            final(self).active() == old(self).active().filter(|k: (Seq<char>, u16)| k.0 != vm_id@),
            r@.no_duplicates(),
            forall|p: u16| r@.contains(p) <==> old(self).active().contains((vm_id@, p)),
    {
        let removed = self.list(vm_id);
        let ghost e = self.entries();
        let mut kept: Vec<(String, u16)> = Vec::new();
        let mut i: usize = 0;
        while i < self.keys.len()
            invariant
                e == self.entries(),
                e.no_duplicates(),
                i <= self.keys.len(),
                keys_view(kept@).no_duplicates(),
                forall|k: (Seq<char>, u16)|
                    #[trigger] keys_view(kept@).contains(k) <==> (e.take(
                        i as int,
                    ).contains(k) && k.0 != vm_id@),
            decreases self.keys.len() - i,
        {
            let ghost kv = keys_view(kept@);
            let ghost t0 = e.take(i as int);
            let ghost t1 = e.take(i as int + 1);
            proof {
                assert(e[i as int] == key_view(self.keys@[i as int]));
                assert(e.take(i as int + 1) =~= e.take(i as int).push(e[i as int]));
            }
            if !str_eq(self.keys[i].0.as_str(), vm_id) {
                kept.push((clone_string(&self.keys[i].0), self.keys[i].1));
                proof {
                    let nv = keys_view(kept@);
                    assert(nv =~= kv.push(e[i as int]));
                    lemma_push_contains(kv, e[i as int]);
                    lemma_push_contains(t0, e[i as int]);
                    assert(t1 =~= t0.push(e[i as int]));
                    if kv.contains(e[i as int]) {
                        let j = choose|j: int| 0 <= j < i && t0[j] == e[i as int];
                        assert(e[j] == e[i as int]);
                    }
                    assert forall|a: int, b: int| 0 <= a < nv.len() && 0 <= b < nv.len() && a != b implies nv[a]
                        != nv[b] by {
                        if a == kv.len() {
                            assert(kv.contains(nv[b]));
                        } else if b == kv.len() {
                            assert(kv.contains(nv[a]));
                        } else {
                            assert(nv[a] == kv[a] && nv[b] == kv[b]);
                        }
                    }
                    assert forall|k: (Seq<char>, u16)| #[trigger] nv.contains(k) <==> (e.take(
                        i as int + 1,
                    ).contains(k) && k.0 != vm_id@) by {
                        if nv.contains(k) && k != e[i as int] {
                            let j = choose|j: int| 0 <= j < nv.len() && nv[j] == k;
                            assert(kv[j] == k);
                        }
                        if e.take(i as int + 1).contains(k) && k != e[i as int] {
                            let j = choose|j: int| 0 <= j < i + 1 && t1[j] == k;
                            assert(e.take(i as int)[j] == k);
                        }
                        if e.take(i as int).contains(k) {
                            let j = choose|j: int| 0 <= j < i && t0[j] == k;
                            assert(e.take(i as int + 1)[j] == k);
                        }
                    }
                }
            } else {
                proof {
                    assert forall|k: (Seq<char>, u16)| #[trigger] kv.contains(k) <==> (e.take(i as int + 1).contains(
                        k,
                    ) && k.0 != vm_id@) by {
                        if e.take(i as int + 1).contains(k) && k.0 != vm_id@ {
                            let j = choose|j: int| 0 <= j < i + 1 && t1[j] == k;
                            assert(j != i);
                            assert(e.take(i as int)[j] == k);
                        }
                        if e.take(i as int).contains(k) {
                            let j = choose|j: int| 0 <= j < i && t0[j] == k;
                            assert(e.take(i as int + 1)[j] == k);
                        }
                    }
                }
            }
            i = i + 1;
        }
        proof {
            assert(e.take(i as int) =~= e);
        }
        self.keys = kept;
        proof {
            assert(self.active() =~= old(self).active().filter(|k: (Seq<char>, u16)| k.0 != vm_id@));
        }
        removed
    }
}

proof fn lemma_push_contains<A>(s: Seq<A>, x: A)
    ensures
        forall|k: A| #[trigger] s.push(x).contains(k) <==> (s.contains(k) || k == x),
{
    assert forall|k: A| #[trigger] s.push(x).contains(k) <==> (s.contains(k) || k == x) by {
        if s.contains(k) {
            let j = choose|j: int| 0 <= j < s.len() && s[j] == k;
            assert(s.push(x)[j] == k);
        }
        if k == x {
            assert(s.push(x)[s.len() as int] == k);
        }
        if s.push(x).contains(k) && k != x {
            let j = choose|j: int| 0 <= j < s.len() + 1 && s.push(x)[j] == k;
            assert(j < s.len());
            assert(s[j] == k);
        }
    }
}

/// Recording a forward and then removing it leaves the table as it was.
pub proof fn law_record_then_remove(active: Set<(Seq<char>, u16)>, vm_id: Seq<char>, host_port: u16)
    requires
        !active.contains((vm_id, host_port)),
    ensures
        active.insert((vm_id, host_port)).remove((vm_id, host_port)) == active,
{
    assert(active.insert((vm_id, host_port)).remove((vm_id, host_port)) =~= active);
}

/// After every forward of a VM is removed, none of its ports is forwarded
/// and the forwards of other VMs stay.
pub proof fn law_remove_all_clears_only_that_vm(active: Set<(Seq<char>, u16)>, vm_id: Seq<char>, other: Seq<char>, port: u16)
    ensures
        !active.filter(|k: (Seq<char>, u16)| k.0 != vm_id).contains((vm_id, port)),
        other != vm_id ==> (active.filter(|k: (Seq<char>, u16)| k.0 != vm_id).contains((other, port))
            == active.contains((other, port))),
{
}

/// What a failed bind of `host_port` reports.
pub fn bind_error(host_port: u16, reason: &str) -> (m: String)
    ensures
        m@ == "failed to bind port "@ + decimal(host_port as nat) + ": "@ + reason@,
{
    let a = concat("failed to bind port ", decimal_string(host_port as u64).as_str());
    let a = concat(a.as_str(), ": ");
    concat(a.as_str(), reason)
}

/// The address the proxy connects to.
pub fn forward_target(guest_addr: &str, guest_port: u16) -> (r: String)
    ensures
        r@ == guest_addr@ + ":"@ + decimal(guest_port as nat),
{
    let a = concat(guest_addr, ":");
    concat(a.as_str(), decimal_string(guest_port as u64).as_str())
}

} // verus!
