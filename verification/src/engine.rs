//! Finding the Docker engine, and the counts the tray menu shows.
//!
//! Probing the file system and talking to the engine are the caller's
//! part.
use vstd::prelude::*;
use crate::hypervisor::{VmInfo, VmInfoView, VmState, infos_view};
use crate::store::{is_known_path, known_path};
use crate::text::{concat, owned, str_eq};

verus! {

/// The places a Docker socket is looked for, in order: on Unix the
/// sockets of Colima, OrbStack, the system daemon and Docker Desktop
/// (under `home`, empty when unset); on Windows Docker Desktop's named
/// pipes, then the WSL2 socket under `userprofile`.
pub open spec fn socket_candidates_spec(unix: bool, windows: bool, home: Seq<char>, userprofile: Seq<char>) -> Seq<
    Seq<char>,
> {
    (if unix {
        seq![
            home + "/.colima/default/docker.sock"@,
            home + "/.orbstack/run/docker.sock"@,
            "/var/run/docker.sock"@,
            home + "/.docker/run/docker.sock"@,
        ]
    } else {
        Seq::empty()
    }) + (if windows {
        seq![
            "//./pipe/docker_engine"@,
            "//./pipe/dockerDesktopLinuxEngine"@,
            userprofile + "\\\\.docker\\run\\docker.sock"@,
        ]
    } else {
        Seq::empty()
    })
}

pub open spec fn strings_view(v: Seq<String>) -> Seq<Seq<char>> {
    v.map_values(|s: String| s@)
}

pub open spec fn or_empty(o: Option<&str>) -> Seq<char> {
    match o {
        Some(s) => s@,
        None => Seq::empty(),
    }
}

fn push_candidate(v: &mut Vec<String>, s: String)
    ensures
        strings_view(final(v)@) == strings_view(old(v)@).push(s@),
{
    v.push(s);
    proof {
        assert(strings_view(v@) =~= strings_view(old(v)@).push(s@));
    }
}

/// The places a Docker socket is looked for; see
/// [`socket_candidates_spec`].
pub fn docker_socket_candidates(unix: bool, windows: bool, home: Option<&str>, userprofile: Option<&str>) -> (r: Vec<
    String,
>)
    ensures
        strings_view(r@) == socket_candidates_spec(unix, windows, or_empty(home), or_empty(userprofile)),
{
    let h = match home {
        Some(h) => h,
        None => "",
    };
    let u = match userprofile {
        Some(u) => u,
        None => "",
    };
    proof {
        reveal_strlit("");
    }
    let mut v: Vec<String> = Vec::new();
    if unix {
        push_candidate(&mut v, concat(h, "/.colima/default/docker.sock"));
        push_candidate(&mut v, concat(h, "/.orbstack/run/docker.sock"));
        push_candidate(&mut v, owned("/var/run/docker.sock"));
        push_candidate(&mut v, concat(h, "/.docker/run/docker.sock"));
    }
    let ghost mid = strings_view(v@);
    if windows {
        push_candidate(&mut v, owned("//./pipe/docker_engine"));
        push_candidate(&mut v, owned("//./pipe/dockerDesktopLinuxEngine"));
        push_candidate(&mut v, concat(u, "\\\\.docker\\run\\docker.sock"));
    }
    proof {
        let spec = socket_candidates_spec(unix, windows, or_empty(home), or_empty(userprofile));
        assert(strings_view(v@) =~= spec);
    }
    v
}

/// Index of the first candidate that exists.
pub open spec fn first_existing(candidates: Seq<Seq<char>>, existing: Seq<String>) -> Option<int> {
    if exists|i: int| 0 <= i < candidates.len() && known_path(existing, #[trigger] candidates[i]) {
        Some(
            choose|i: int|
                0 <= i < candidates.len() && known_path(existing, #[trigger] candidates[i]) && forall|j: int|
                    0 <= j < i ==> !known_path(existing, #[trigger] candidates[j]),
        )
    } else {
        None
    }
}

/// The Docker socket to connect to: the first candidate that exists.
pub fn detect_docker_socket(candidates: &Vec<String>, existing: &Vec<String>) -> (r: Option<String>)
    ensures
        match first_existing(strings_view(candidates@), existing@) {
            Some(i) => r matches Some(s) && s@ == strings_view(candidates@)[i],
            None => r is None,
        },
{
    let ghost c = strings_view(candidates@);
    let mut i: usize = 0;
    while i < candidates.len()
        invariant
            c == strings_view(candidates@),
            i <= candidates.len(),
            forall|j: int| 0 <= j < i ==> !known_path(existing@, #[trigger] c[j]),
        decreases candidates.len() - i,
    {
        if is_known_path(existing, candidates[i].as_str()) {
            proof {
                assert(known_path(existing@, c[i as int]));
                let k = choose|k: int|
                    0 <= k < c.len() && known_path(existing@, #[trigger] c[k]) && forall|j: int|
                        0 <= j < k ==> !known_path(existing@, #[trigger] c[j]);
                if k < i {
                    assert(!known_path(existing@, c[k]));
                }
                if k > i {
                    assert(!known_path(existing@, c[i as int]));
                }
            }
            return Some(owned(candidates[i].as_str()));
        }
        i = i + 1;
    }
    None
}

// ---------------------------------------------------------------------------
// Counts
// ---------------------------------------------------------------------------

/// How many of `states` are `running`.
pub open spec fn running_count(states: Seq<Option<Seq<char>>>) -> nat
    decreases states.len(),
{
    if states.len() == 0 {
        0
    } else {
        running_count(states.drop_last()) + if states.last() == Some("running"@) {
            1nat
        } else {
            0nat
        }
    }
}

pub open spec fn opt_strings_view(v: Seq<Option<String>>) -> Seq<Option<Seq<char>>> {
    v.map_values(
        |o: Option<String>|
            match o {
                Some(s) => Some(s@),
                None => None,
            },
    )
}

/// The number of containers whose reported state is `running`.
pub fn count_running_containers(states: &Vec<Option<String>>) -> (n: usize)
    ensures
        n == running_count(opt_strings_view(states@)),
{
    let ghost s = opt_strings_view(states@);
    let mut n: usize = 0;
    let mut i: usize = 0;
    while i < states.len()
        invariant
            s == opt_strings_view(states@),
            i <= states.len(),
            n == running_count(s.take(i as int)),
            n <= i,
        decreases states.len() - i,
    {
        proof {
            assert(s.take(i as int + 1).drop_last() =~= s.take(i as int));
        }
        let running = match &states[i] {
            Some(st) => str_eq(st.as_str(), "running"),
            None => false,
        };
        if running {
            n = n + 1;
        }
        i = i + 1;
    }
    proof {
        assert(s.take(i as int) =~= s);
    }
    n
}

/// How many of `vms` are running.
pub open spec fn running_vms(vms: Seq<VmInfoView>) -> nat
    decreases vms.len(),
{
    if vms.len() == 0 {
        0
    } else {
        running_vms(vms.drop_last()) + if vms.last().state == VmState::Running {
            1nat
        } else {
            0nat
        }
    }
}

/// The number of running VMs.
pub fn count_running_vms(vms: &Vec<VmInfo>) -> (n: usize)
    ensures
        n == running_vms(infos_view(vms@)),
{
    let ghost s = infos_view(vms@);
    let mut n: usize = 0;
    let mut i: usize = 0;
    while i < vms.len()
        invariant
            s == infos_view(vms@),
            i <= vms.len(),
            n == running_vms(s.take(i as int)),
            n <= i,
        decreases vms.len() - i,
    {
        proof {
            assert(s.take(i as int + 1).drop_last() =~= s.take(i as int));
        }
        if vms[i].state == VmState::Running {
            n = n + 1;
        }
        i = i + 1;
    }
    proof {
        assert(s.take(i as int) =~= s);
    }
    n
}

} // verus!
