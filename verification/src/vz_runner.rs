//! The command line of the VM runner process that the macOS backend
//! spawns for each VM, its `--share` values, and how the backend follows
//! the runner's life.
//!
//! Reading the process arguments and handing the result to
//! Virtualization.framework are the caller's part.
use vstd::prelude::*;
use crate::hypervisor::{HypervisorError, SharedDirectory, SharedDirectoryView, VmInfo, VmState, dirs_view};
use crate::store::{Platform, join, vm_dir_spec, vm_disk_path, vm_runner_ready_path};
use crate::text::{
    after_first, before_first, chars_of, clone_string, concat, decimal, first_index_of, owned,
    parse_unsigned, parse_unsigned_vec, str_eq, string_of, utf8_len, utf8_len_of, find_first,
    slice_vec,
};

verus! {

/// The settings of one runner process.
#[derive(Debug)]
pub struct Args {
    pub kernel: String,
    pub initrd: Option<String>,
    pub disk: String,
    pub cpus: u32,
    pub memory_mb: u64,
    pub cmdline: String,
    pub ready_file: Option<String>,
    pub rosetta: bool,
    /// Shared directories in `tag:host_path[:ro]` form.
    pub shared_dirs: Vec<String>,
}

/// The options read so far.
pub struct ArgsDraft {
    pub kernel: Option<Seq<char>>,
    pub initrd: Option<Seq<char>>,
    pub disk: Option<Seq<char>>,
    pub cpus: Option<u32>,
    pub memory_mb: Option<u64>,
    pub cmdline: Option<Seq<char>>,
    pub ready_file: Option<Seq<char>>,
    pub rosetta: bool,
    pub shares: Seq<Seq<char>>,
}

pub open spec fn empty_draft() -> ArgsDraft {
    ArgsDraft {
        kernel: None,
        initrd: None,
        disk: None,
        cpus: None,
        memory_mb: None,
        cmdline: None,
        ready_file: None,
        rosetta: false,
        shares: Seq::empty(),
    }
}

/// The usage text.
pub open spec fn usage_text() -> Seq<char> {
    "Usage:\n  cargobay-vz --kernel <path> --disk <path> --cpus <n> --memory-mb <n> [--initrd <path>] [--cmdline <str>] [--ready-file <path>] [--rosetta] [--share tag:host_path[:ro]]\n"@
}

/// The message for an option given without its value.
pub open spec fn needs_value(opt: Seq<char>) -> Seq<char> {
    opt + " requires a value"@
}

/// Reads the arguments from position `i` on into `d`: each option takes
/// the next argument as its value, `--rosetta` takes none, `--share` may
/// repeat, a later value replaces an earlier one; `--help`/`-h` answer the
/// usage text and anything else is an unknown argument.
pub open spec fn scan(args: Seq<Seq<char>>, i: nat, d: ArgsDraft) -> Result<ArgsDraft, Seq<char>>
    decreases args.len() - i,
{
    if i >= args.len() {
        Ok(d)
    } else {
        let a = args[i as int];
        let has_value = i + 1 < args.len();
        let v = args[i + 1int];
        if a == "--help"@ || a == "-h"@ {
            Err(usage_text())
        } else if a == "--rosetta"@ {
            scan(args, i + 1, ArgsDraft { rosetta: true, ..d })
        } else if a == "--kernel"@ || a == "--initrd"@ || a == "--disk"@ || a == "--cpus"@ || a
            == "--memory-mb"@ || a == "--cmdline"@ || a == "--ready-file"@ || a == "--share"@ {
            if !has_value {
                Err(needs_value(a))
            } else if a == "--kernel"@ {
                scan(args, i + 2, ArgsDraft { kernel: Some(v), ..d })
            } else if a == "--initrd"@ {
                scan(args, i + 2, ArgsDraft { initrd: Some(v), ..d })
            } else if a == "--disk"@ {
                scan(args, i + 2, ArgsDraft { disk: Some(v), ..d })
            } else if a == "--cpus"@ {
                match parse_unsigned(v, u32::MAX as nat) {
                    Some(n) => scan(args, i + 2, ArgsDraft { cpus: Some(n as u32), ..d }),
                    None => Err("Invalid --cpus"@),
                }
            } else if a == "--memory-mb"@ {
                match parse_unsigned(v, u64::MAX as nat) {
                    Some(n) => scan(args, i + 2, ArgsDraft { memory_mb: Some(n as u64), ..d }),
                    None => Err("Invalid --memory-mb"@),
                }
            } else if a == "--cmdline"@ {
                scan(args, i + 2, ArgsDraft { cmdline: Some(v), ..d })
            } else if a == "--ready-file"@ {
                scan(args, i + 2, ArgsDraft { ready_file: Some(v), ..d })
            } else {
                scan(args, i + 2, ArgsDraft { shares: d.shares.push(v), ..d })
            }
        } else {
            Err("Unknown argument: "@ + a)
        }
    }
}

/// What the arguments amount to: the options read, then the required ones
/// checked in the order kernel, disk, CPUs, memory.
pub open spec fn args_outcome(args: Seq<Seq<char>>) -> Result<ArgsDraft, Seq<char>> {
    match scan(args, 0, empty_draft()) {
        Err(e) => Err(e),
        Ok(d) => if d.kernel is None {
            Err("Missing --kernel"@)
        } else if d.disk is None {
            Err("Missing --disk"@)
        } else if d.cpus is None {
            Err("Missing --cpus"@)
        } else if d.memory_mb is None {
            Err("Missing --memory-mb"@)
        } else {
            Ok(d)
        },
    }
}

pub open spec fn opt_string_view(o: Option<String>) -> Option<Seq<char>> {
    match o {
        Some(s) => Some(s@),
        None => None,
    }
}

pub open spec fn strings_view(v: Seq<String>) -> Seq<Seq<char>> {
    v.map_values(|s: String| s@)
}

/// `a` holds the options of `d`, the command line defaulting to
/// `console=hvc0`.
pub open spec fn args_match(a: Args, d: ArgsDraft) -> bool {
    &&& Some(a.kernel@) == d.kernel
    &&& opt_string_view(a.initrd) == d.initrd
    &&& Some(a.disk@) == d.disk
    &&& Some(a.cpus) == d.cpus
    &&& Some(a.memory_mb) == d.memory_mb
    &&& a.cmdline@ == match d.cmdline {
        Some(c) => c,
        None => "console=hvc0"@,
    }
    &&& opt_string_view(a.ready_file) == d.ready_file
    &&& a.rosetta == d.rosetta
    &&& strings_view(a.shared_dirs@) == d.shares
}

fn opt_clone(o: &Option<String>) -> (r: Option<String>)
    ensures
        opt_string_view(r) == opt_string_view(*o),
{
    match o {
        Some(s) => Some(clone_string(s)),
        None => None,
    }
}

impl Args {
    /// The usage text.
    pub fn usage() -> (s: &'static str)
        ensures
            s@ == usage_text(),
    {
        "Usage:\n  cargobay-vz --kernel <path> --disk <path> --cpus <n> --memory-mb <n> [--initrd <path>] [--cmdline <str>] [--ready-file <path>] [--rosetta] [--share tag:host_path[:ro]]\n"
    }

    /// Reads the runner's arguments (without the program name).
    pub fn parse(args: &Vec<String>) -> (r: Result<Args, String>)
        ensures
            match args_outcome(strings_view(args@)) {
                Ok(d) => r matches Ok(a) && args_match(a, d),
                Err(e) => r matches Err(m) && m@ == e,
            },
    {
        let ghost av = strings_view(args@);
        let mut kernel: Option<String> = None;
        let mut initrd: Option<String> = None;
        let mut disk: Option<String> = None;
        let mut cpus: Option<u32> = None;
        let mut memory_mb: Option<u64> = None;
        let mut cmdline: Option<String> = None;
        let mut ready_file: Option<String> = None;
        let mut rosetta = false;
        let mut shared_dirs: Vec<String> = Vec::new();
        let mut i: usize = 0;
        proof {
            assert(strings_view(shared_dirs@) =~= Seq::<Seq<char>>::empty());
        }
        while i < args.len()
            invariant
                av == strings_view(args@),
                i <= args.len(),
                scan(av, 0, empty_draft()) == scan(
                    av,
                    i as nat,
                    ArgsDraft {
                        kernel: opt_string_view(kernel),
                        initrd: opt_string_view(initrd),
                        disk: opt_string_view(disk),
                        cpus: cpus,
                        memory_mb: memory_mb,
                        cmdline: opt_string_view(cmdline),
                        ready_file: opt_string_view(ready_file),
                        rosetta: rosetta,
                        shares: strings_view(shared_dirs@),
                    },
                ),
            decreases args.len() - i,
        {
            let a = args[i].as_str();
            let has_value = i + 1 < args.len();
            proof {
                assert(av[i as int] == a@);
                if has_value {
                    assert(av[i + 1] == args@[i + 1]@);
                }
            }
            if str_eq(a, "--help") || str_eq(a, "-h") {
                return Err(owned(Args::usage()));
            } else if str_eq(a, "--rosetta") {
                rosetta = true;
                i = i + 1;
            } else if str_eq(a, "--kernel") || str_eq(a, "--initrd") || str_eq(a, "--disk")
                || str_eq(a, "--cpus") || str_eq(a, "--memory-mb") || str_eq(a, "--cmdline")
                || str_eq(a, "--ready-file") || str_eq(a, "--share") {
                if !has_value {
                    return Err(concat(a, " requires a value"));
                }
                let v = args[i + 1].as_str();
                if str_eq(a, "--kernel") {
                    kernel = Some(owned(v));
                } else if str_eq(a, "--initrd") {
                    initrd = Some(owned(v));
                } else if str_eq(a, "--disk") {
                    disk = Some(owned(v));
                } else if str_eq(a, "--cpus") {
                    match parse_unsigned_vec(&chars_of(v), u32::MAX as u64) {
                        Some(n) => {
                            cpus = Some(n as u32);
                        },
                        None => {
                            return Err(owned("Invalid --cpus"));
                        },
                    }
                } else if str_eq(a, "--memory-mb") {
                    match parse_unsigned_vec(&chars_of(v), u64::MAX) {
                        Some(n) => {
                            memory_mb = Some(n);
                        },
                        None => {
                            return Err(owned("Invalid --memory-mb"));
                        },
                    }
                } else if str_eq(a, "--cmdline") {
                    cmdline = Some(owned(v));
                } else if str_eq(a, "--ready-file") {
                    ready_file = Some(owned(v));
                } else {
                    let ghost before = shared_dirs@;
                    shared_dirs.push(owned(v));
                    proof {
                        assert(strings_view(shared_dirs@) =~= strings_view(before).push(v@));
                    }
                }
                i = i + 2;
            } else {
                return Err(concat("Unknown argument: ", a));
            }
        }
        let kernel = match kernel {
            Some(k) => k,
            None => return Err(owned("Missing --kernel")),
        };
        let disk = match disk {
            Some(k) => k,
            None => return Err(owned("Missing --disk")),
        };
        let cpus = match cpus {
            Some(k) => k,
            None => return Err(owned("Missing --cpus")),
        };
        let memory_mb = match memory_mb {
            Some(k) => k,
            None => return Err(owned("Missing --memory-mb")),
        };
        let cmdline = match cmdline {
            Some(c) => c,
            None => owned("console=hvc0"),
        };
        Ok(Args { kernel, initrd, disk, cpus, memory_mb, cmdline, ready_file, rosetta, shared_dirs })
    }
}

// ---------------------------------------------------------------------------
// Starting a runner
// ---------------------------------------------------------------------------

/// The `--share` value of a shared directory: `tag:host_path`, with `:ro`
/// appended for a read-only share.
pub open spec fn share_arg_spec(d: SharedDirectoryView) -> Seq<char> {
    d.tag + ":"@ + d.host_path + if d.read_only {
        ":ro"@
    } else {
        ""@
    }
}

/// `--share` and its value for each shared directory, in order.
pub open spec fn share_args(dirs: Seq<SharedDirectoryView>) -> Seq<Seq<char>>
    decreases dirs.len(),
{
    if dirs.len() == 0 {
        Seq::empty()
    } else {
        seq!["--share"@, share_arg_spec(dirs[0])] + share_args(dirs.drop_first())
    }
}

proof fn lemma_share_args_push(dirs: Seq<SharedDirectoryView>, x: SharedDirectoryView)
    ensures
        share_args(dirs.push(x)) == share_args(dirs) + seq!["--share"@, share_arg_spec(x)],
    decreases dirs.len(),
{
    if dirs.len() == 0 {
        assert(dirs.push(x).drop_first() =~= Seq::<SharedDirectoryView>::empty());
        assert(share_args(Seq::<SharedDirectoryView>::empty()) =~= Seq::<Seq<char>>::empty());
        assert(share_args(dirs) =~= Seq::<Seq<char>>::empty());
        assert(share_args(dirs.push(x)) =~= share_args(dirs) + seq!["--share"@, share_arg_spec(x)]);
    } else {
        assert(dirs.push(x).drop_first() =~= dirs.drop_first().push(x));
        lemma_share_args_push(dirs.drop_first(), x);
        assert(share_args(dirs.push(x)) =~= share_args(dirs) + seq!["--share"@, share_arg_spec(x)]);
    }
}

/// The arguments the macOS backend starts a runner with.
pub open spec fn runner_args_spec(
    kernel: Seq<char>,
    disk: Seq<char>,
    cpus: u32,
    memory_mb: u64,
    cmdline: Seq<char>,
    ready_file: Seq<char>,
    initrd: Option<Seq<char>>,
    rosetta: bool,
    dirs: Seq<SharedDirectoryView>,
) -> Seq<Seq<char>> {
    seq![
        "--kernel"@,
        kernel,
        "--disk"@,
        disk,
        "--cpus"@,
        decimal(cpus as nat),
        "--memory-mb"@,
        decimal(memory_mb as nat),
        "--cmdline"@,
        cmdline,
        "--ready-file"@,
        ready_file,
    ] + match initrd {
        Some(i) => seq!["--initrd"@, i],
        None => Seq::empty(),
    } + if rosetta {
        seq!["--rosetta"@]
    } else {
        Seq::empty()
    } + share_args(dirs)
}

pub fn share_arg(d: &SharedDirectory) -> (r: String)
    ensures
        r@ == share_arg_spec(d@),
{
    let a = concat(d.tag.as_str(), ":");
    let a = concat(a.as_str(), d.host_path.as_str());
    concat(
        a.as_str(),
        if d.read_only {
            ":ro"
        } else {
            ""
        },
    )
}

fn push_arg(args: &mut Vec<String>, s: String)
    ensures
        strings_view(final(args)@) == strings_view(old(args)@).push(s@),
{
    let ghost before = args@;
    args.push(s);
    proof {
        assert(strings_view(args@) =~= strings_view(before).push(s@));
    }
}

pub open spec fn opt_str_view(o: Option<&str>) -> Option<Seq<char>> {
    match o {
        Some(s) => Some(s@),
        None => None,
    }
}

/// The runner's command line (without the program) for a VM.
pub fn runner_args(
    kernel: &str,
    disk: &str,
    cpus: u32,
    memory_mb: u64,
    cmdline: &str,
    ready_file: &str,
    initrd: Option<&str>,
    rosetta: bool,
    dirs: &Vec<SharedDirectory>,
) -> (r: Vec<String>)
    ensures
        strings_view(r@) == runner_args_spec(
            kernel@,
            disk@,
            cpus,
            memory_mb,
            cmdline@,
            ready_file@,
            opt_str_view(initrd),
            rosetta,
            dirs_view(dirs@),
        ),
{
    let mut r: Vec<String> = Vec::new();
    push_arg(&mut r, owned("--kernel"));
    push_arg(&mut r, owned(kernel));
    push_arg(&mut r, owned("--disk"));
    push_arg(&mut r, owned(disk));
    push_arg(&mut r, owned("--cpus"));
    push_arg(&mut r, crate::text::decimal_string(cpus as u64));
    push_arg(&mut r, owned("--memory-mb"));
    push_arg(&mut r, crate::text::decimal_string(memory_mb));
    push_arg(&mut r, owned("--cmdline"));
    push_arg(&mut r, owned(cmdline));
    push_arg(&mut r, owned("--ready-file"));
    push_arg(&mut r, owned(ready_file));
    let ghost base = strings_view(r@);
    if let Some(i) = initrd {
        push_arg(&mut r, owned("--initrd"));
        push_arg(&mut r, owned(i));
    }
    let ghost with_initrd = strings_view(r@);
    if rosetta {
        push_arg(&mut r, owned("--rosetta"));
    }
    let ghost head = strings_view(r@);
    let ghost dv = dirs_view(dirs@);
    let mut k: usize = 0;
    while k < dirs.len()
        invariant
            k <= dirs.len(),
            dv == dirs_view(dirs@),
            strings_view(r@) == head + share_args(dv.take(k as int)),
        decreases dirs.len() - k,
    {
        proof {
            assert(dv.take(k as int + 1) =~= dv.take(k as int).push(dv[k as int]));
            lemma_share_args_push(dv.take(k as int), dv[k as int]);
        }
        push_arg(&mut r, owned("--share"));
        push_arg(&mut r, share_arg(&dirs[k]));
        proof {
            assert(strings_view(r@) =~= head + share_args(dv.take(k as int + 1)));
        }
        k = k + 1;
    }
    proof {
        assert(dv.take(k as int) =~= dv);
        let spec = runner_args_spec(
            kernel@,
            disk@,
            cpus,
            memory_mb,
            cmdline@,
            ready_file@,
            opt_str_view(initrd),
            rosetta,
            dv,
        );
        assert(strings_view(r@) =~= spec);
    }
    r
}

/// What the macOS backend starts a VM's runner with: the kernel from
/// `CARGOBAY_VZ_KERNEL` (required), the initrd from `CARGOBAY_VZ_INITRD`,
/// the command line from `CARGOBAY_VZ_CMDLINE` (default `console=hvc0`),
/// and the VM's disk, which must exist.
pub fn vz_runner_plan(
    env_kernel: Option<&str>,
    env_initrd: Option<&str>,
    env_cmdline: Option<&str>,
    disk_exists: bool,
    data_dir: &str,
    vm: &VmInfo,
) -> (r: Result<Vec<String>, HypervisorError>)
    ensures
        env_kernel is None ==> (r matches Err(HypervisorError::CreateFailed(m)) && m@
            == "CARGOBAY_VZ_KERNEL is required to start a macOS VZ VM"@),
        env_kernel is Some && !disk_exists ==> (r matches Err(HypervisorError::CreateFailed(m)) && m@
            == "VM disk image not found: "@ + join(vm_dir_spec(data_dir@, vm.id@), "disk.raw"@)),
        env_kernel is Some && disk_exists ==> (r matches Ok(args) && strings_view(args@)
            == runner_args_spec(
            env_kernel->0@,
            join(vm_dir_spec(data_dir@, vm.id@), "disk.raw"@),
            vm.cpus,
            vm.memory_mb,
            match env_cmdline {
                Some(c) => c@,
                None => "console=hvc0"@,
            },
            join(vm_dir_spec(data_dir@, vm.id@), "runner.ready"@),
            opt_str_view(env_initrd),
            vm.rosetta_enabled,
            dirs_view(vm.shared_dirs@),
        )),
{
    let kernel = match env_kernel {
        Some(k) => k,
        None => {
            return Err(
                HypervisorError::CreateFailed(
                    owned("CARGOBAY_VZ_KERNEL is required to start a macOS VZ VM"),
                ),
            );
        },
    };
    let disk = vm_disk_path(data_dir, vm.id.as_str(), Platform::MacOs);
    if !disk_exists {
        return Err(HypervisorError::CreateFailed(concat("VM disk image not found: ", disk.as_str())));
    }
    let ready = vm_runner_ready_path(data_dir, vm.id.as_str());
    let cmdline = match env_cmdline {
        Some(c) => c,
        None => "console=hvc0",
    };
    Ok(
        runner_args(
            kernel,
            disk.as_str(),
            vm.cpus,
            vm.memory_mb,
            cmdline,
            ready.as_str(),
            env_initrd,
            vm.rosetta_enabled,
            &vm.shared_dirs,
        ),
    )
}

/// The settings a runner started with `runner_args_spec` reads back.
pub open spec fn runner_draft(
    kernel: Seq<char>,
    disk: Seq<char>,
    cpus: u32,
    memory_mb: u64,
    cmdline: Seq<char>,
    ready_file: Seq<char>,
    initrd: Option<Seq<char>>,
    rosetta: bool,
    dirs: Seq<SharedDirectoryView>,
) -> ArgsDraft {
    ArgsDraft {
        kernel: Some(kernel),
        initrd: initrd,
        disk: Some(disk),
        cpus: Some(cpus),
        memory_mb: Some(memory_mb),
        cmdline: Some(cmdline),
        ready_file: Some(ready_file),
        rosetta: rosetta,
        shares: dirs.map_values(|d: SharedDirectoryView| share_arg_spec(d)),
    }
}


/// The option names differ in length or in their third character.
proof fn lemma_flags()
    ensures
        "--help"@.len() == 6 && "--help"@[2] == 'h',
        "-h"@.len() == 2,
        "--rosetta"@.len() == 9 && "--rosetta"@[2] == 'r',
        "--kernel"@.len() == 8 && "--kernel"@[2] == 'k',
        "--initrd"@.len() == 8 && "--initrd"@[2] == 'i',
        "--disk"@.len() == 6 && "--disk"@[2] == 'd',
        "--cpus"@.len() == 6 && "--cpus"@[2] == 'c',
        "--memory-mb"@.len() == 11,
        "--cmdline"@.len() == 9 && "--cmdline"@[2] == 'c',
        "--ready-file"@.len() == 12,
        "--share"@.len() == 7,
{
    reveal_strlit("--help");
    reveal_strlit("-h");
    reveal_strlit("--rosetta");
    reveal_strlit("--kernel");
    reveal_strlit("--initrd");
    reveal_strlit("--disk");
    reveal_strlit("--cpus");
    reveal_strlit("--memory-mb");
    reveal_strlit("--cmdline");
    reveal_strlit("--ready-file");
    reveal_strlit("--share");
}

/// Reading the `--share` pairs at the end of the arguments collects their
/// values in order.
proof fn lemma_scan_shares(args: Seq<Seq<char>>, i: nat, d: ArgsDraft, dirs: Seq<SharedDirectoryView>)
    requires
        i <= args.len(),
        args.skip(i as int) == share_args(dirs),
    ensures
        scan(args, i, d) == Ok::<ArgsDraft, Seq<char>>(
            ArgsDraft {
                shares: d.shares + dirs.map_values(|x: SharedDirectoryView| share_arg_spec(x)),
                ..d
            },
        ),
    decreases dirs.len(),
{
    lemma_flags();
    let f = |x: SharedDirectoryView| share_arg_spec(x);
    if dirs.len() == 0 {
        assert(args.skip(i as int).len() == 0);
        assert(dirs.map_values(f) =~= Seq::<Seq<char>>::empty());
        assert(d.shares + dirs.map_values(f) =~= d.shares);
    } else {
        assert(share_args(dirs).len() >= 2);
        assert(args[i as int] == args.skip(i as int)[0]);
        assert(args[i + 1int] == args.skip(i as int)[1]);
        assert(args[i as int] == "--share"@);
        let d2 = ArgsDraft { shares: d.shares.push(share_arg_spec(dirs[0])), ..d };
        assert(scan(args, i, d) == scan(args, i + 2, d2));
        assert(args.skip(i + 2int) =~= args.skip(i as int).skip(2));
        assert(share_args(dirs).skip(2) =~= share_args(dirs.drop_first()));
        lemma_scan_shares(args, i + 2, d2, dirs.drop_first());
        assert(d2.shares + dirs.drop_first().map_values(f) =~= d.shares + dirs.map_values(f));
    }
}

/// The runner reads back exactly the settings that the macOS backend
/// starts it with.
pub proof fn law_runner_args_read_back(
    kernel: Seq<char>,
    disk: Seq<char>,
    cpus: u32,
    memory_mb: u64,
    cmdline: Seq<char>,
    ready_file: Seq<char>,
    initrd: Option<Seq<char>>,
    rosetta: bool,
    dirs: Seq<SharedDirectoryView>,
)
    ensures
        args_outcome(
            runner_args_spec(kernel, disk, cpus, memory_mb, cmdline, ready_file, initrd, rosetta, dirs),
        ) == Ok::<ArgsDraft, Seq<char>>(
            runner_draft(kernel, disk, cpus, memory_mb, cmdline, ready_file, initrd, rosetta, dirs),
        ),
{
    lemma_flags();
    let a = runner_args_spec(kernel, disk, cpus, memory_mb, cmdline, ready_file, initrd, rosetta, dirs);
    crate::text::law_parse_decimal(cpus as nat, u32::MAX as nat);
    crate::text::law_parse_decimal(memory_mb as nat, u64::MAX as nat);
    let d0 = empty_draft();
    let d1 = ArgsDraft { kernel: Some(kernel), ..d0 };
    let d2 = ArgsDraft { disk: Some(disk), ..d1 };
    let d3 = ArgsDraft { cpus: Some(cpus), ..d2 };
    let d4 = ArgsDraft { memory_mb: Some(memory_mb), ..d3 };
    let d5 = ArgsDraft { cmdline: Some(cmdline), ..d4 };
    let d6 = ArgsDraft { ready_file: Some(ready_file), ..d5 };
    assert(a[0] == "--kernel"@ && a[1] == kernel);
    assert(scan(a, 0, d0) == scan(a, 2, d1));
    assert(a[2] == "--disk"@ && a[3] == disk);
    assert(scan(a, 2, d1) == scan(a, 4, d2));
    assert(a[4] == "--cpus"@ && a[5] == decimal(cpus as nat));
    assert(scan(a, 4, d2) == scan(a, 6, d3));
    assert(a[6] == "--memory-mb"@ && a[7] == decimal(memory_mb as nat));
    assert(scan(a, 6, d3) == scan(a, 8, d4));
    assert(a[8] == "--cmdline"@ && a[9] == cmdline);
    assert(scan(a, 8, d4) == scan(a, 10, d5));
    assert(a[10] == "--ready-file"@ && a[11] == ready_file);
    assert(scan(a, 10, d5) == scan(a, 12, d6));
    let d7 = ArgsDraft { initrd: initrd, ..d6 };
    let j: nat = if initrd is Some {
        14
    } else {
        12
    };
    if initrd is Some {
        assert(a[12] == "--initrd"@ && a[13] == initrd->0);
        assert(scan(a, 12, d6) == scan(a, 14, d7));
    } else {
        assert(d7 == d6);
    }
    let d8 = ArgsDraft { rosetta: rosetta, ..d7 };
    let k: nat = if rosetta {
        j + 1
    } else {
        j
    };
    if rosetta {
        assert(a[j as int] == "--rosetta"@);
        assert(scan(a, j, d7) == scan(a, k, d8));
    } else {
        assert(d8 == d7);
    }
    assert(a.skip(k as int) =~= share_args(dirs));
    lemma_scan_shares(a, k, d8, dirs);
    assert(d8.shares + dirs.map_values(|x: SharedDirectoryView| share_arg_spec(x)) =~= dirs.map_values(
        |x: SharedDirectoryView| share_arg_spec(x),
    ));
}

/// The runner's process id from the content of its pid file: the trimmed
/// text read as a `u32`.
pub fn read_pid(content: &str) -> (r: Option<u32>)
    ensures
        match crate::text::parse_unsigned(crate::text::trim(content@), u32::MAX as nat) {
            Some(n) => r == Some(n as u32),
            None => r is None,
        },
{
    let t = crate::text::trim_vec(&chars_of(content));
    match parse_unsigned_vec(&t, u32::MAX as u64) {
        Some(n) => Some(n as u32),
        None => None,
    }
}

// ---------------------------------------------------------------------------
// --share values
// ---------------------------------------------------------------------------

/// A directory shared into the VM.
#[derive(Debug)]
pub struct SharedDirArg {
    pub tag: String,
    pub host_path: String,
    pub read_only: bool,
}

/// The message `CString::new` gives for a NUL byte at byte `pos`.
pub open spec fn nul_message(pos: nat) -> Seq<char> {
    "nul byte found in provided data at position: "@ + decimal(pos)
}

/// The byte position of the first NUL in `s`, when it holds one.
pub open spec fn nul_position(s: Seq<char>) -> Option<nat> {
    match first_index_of(s, '\0') {
        Some(i) => Some(utf8_len(s.take(i))),
        None => None,
    }
}

/// What a `--share` value reads as: `tag:host_path`, optionally followed
/// by `:ro` (any other suffix gives a writable share); neither part may
/// hold a NUL.
pub open spec fn share_outcome(spec: Seq<char>) -> Result<(Seq<char>, Seq<char>, bool), Seq<char>> {
    if !spec.contains(':') {
        Err("Invalid --share format '"@ + spec + "', expected 'tag:host_path[:ro]'"@)
    } else {
        let tag = before_first(spec, ':');
        let rest = after_first(spec, ':');
        let host = before_first(rest, ':');
        let read_only = rest.contains(':') && after_first(rest, ':') == "ro"@;
        match nul_position(tag) {
            Some(p) => Err("invalid tag: "@ + nul_message(p)),
            None => match nul_position(host) {
                Some(p) => Err("invalid host_path: "@ + nul_message(p)),
                None => Ok((tag, host, read_only)),
            },
        }
    }
}

/// The parts before and after the first `c` of `v`, when it holds one.
fn split_at_first(v: &Vec<char>, c: char) -> (r: Option<(Vec<char>, Vec<char>)>)
    ensures
        match r {
            Some((a, b)) => v@.contains(c) && a@ == before_first(v@, c) && b@ == after_first(v@, c),
            None => !v@.contains(c),
        },
{
    match find_first(v, c) {
        Some(i) => {
            let a = slice_vec(v, 0, i);
            let b = slice_vec(v, i + 1, v.len());
            proof {
                assert(a@ =~= v@.take(i as int));
                assert(b@ =~= v@.skip(i + 1));
                assert(v@[i as int] == c);
            }
            Some((a, b))
        },
        None => {
            proof {
                if v@.contains(c) {
                    let k = choose|k: int| 0 <= k < v@.len() && v@[k] == c;
                    assert(first_index_of(v@, c) is Some);
                }
            }
            None
        },
    }
}

fn nul_check(v: &Vec<char>) -> (r: Option<u64>)
    requires
        utf8_len(v@) <= u64::MAX,
    ensures
        match nul_position(v@) {
            Some(p) => r matches Some(x) && x as nat == p,
            None => r is None,
        },
{
    match find_first(v, '\0') {
        Some(i) => {
            let prefix = slice_vec(v, 0, i);
            proof {
                assert(prefix@ =~= v@.take(i as int));
                crate::text::lemma_utf8_len_prefix(v@, i as int);
            }
            Some(utf8_len_of(&prefix))
        },
        None => None,
    }
}

/// The tag, the host path and the read-only flag of a `--share` value
/// that holds a `:`.
fn share_parts(v: &Vec<char>) -> (r: Option<(Vec<char>, Vec<char>, bool)>)
    ensures
        match r {
            Some((tag, host, ro)) => {
                &&& v@.contains(':')
                &&& tag@ == before_first(v@, ':')
                &&& host@ == before_first(after_first(v@, ':'), ':')
                &&& ro == (after_first(v@, ':').contains(':') && after_first(
                    after_first(v@, ':'),
                    ':',
                ) == "ro"@)
                &&& utf8_len(tag@) <= utf8_len(v@)
                &&& utf8_len(host@) <= utf8_len(v@)
            },
            None => !v@.contains(':'),
        },
{
    proof {
        reveal_strlit("ro");
    }
    let (tag, rest) = match split_at_first(v, ':') {
        Some(p) => p,
        None => return None,
    };
    let (host, read_only) = match split_at_first(&rest, ':') {
        Some((h, suffix)) => {
            let s = string_of(&suffix);
            (h, str_eq(s.as_str(), "ro"))
        },
        None => {
            let h = slice_vec(&rest, 0, rest.len());
            proof {
                assert(h@ =~= rest@);
            }
            (h, false)
        },
    };
    proof {
        crate::text::lemma_first_index_in(v@, ':');
        crate::text::lemma_first_index_in(rest@, ':');
        crate::text::lemma_utf8_len_prefix(v@, tag@.len() as int);
        crate::text::lemma_utf8_len_sub(v@, tag@.len() as int + 1);
        crate::text::lemma_utf8_len_prefix(rest@, host@.len() as int);
    }
    Some((tag, host, read_only))
}

/// Reads a `--share` value; see [`share_outcome`].
pub fn parse_shared_dir(spec: &str) -> (r: Result<SharedDirArg, String>)
    requires
        utf8_len(spec@) <= u64::MAX,
    ensures
        match share_outcome(spec@) {
            Ok((tag, host, ro)) => r matches Ok(s) && s.tag@ == tag && s.host_path@ == host
                && s.read_only == ro,
            Err(e) => r matches Err(m) && m@ == e,
        },
{
    let v = chars_of(spec);
    let (tag, host, read_only) = match share_parts(&v) {
        Some(p) => p,
        None => {
            let a = concat("Invalid --share format '", spec);
            return Err(concat(a.as_str(), "', expected 'tag:host_path[:ro]'"));
        },
    };
    if let Some(p) = nul_check(&tag) {
        let m = concat("nul byte found in provided data at position: ", crate::text::decimal_string(p).as_str());
        return Err(concat("invalid tag: ", m.as_str()));
    }
    if let Some(p) = nul_check(&host) {
        let m = concat("nul byte found in provided data at position: ", crate::text::decimal_string(p).as_str());
        return Err(concat("invalid host_path: ", m.as_str()));
    }
    Ok(SharedDirArg { tag: string_of(&tag), host_path: string_of(&host), read_only })
}

/// What the shares of a runner read as: each share's parts in order, or
/// the error of the first share that does not read.
pub open spec fn shares_outcome(specs: Seq<Seq<char>>) -> Result<Seq<(Seq<char>, Seq<char>, bool)>, Seq<char>>
    decreases specs.len(),
{
    if specs.len() == 0 {
        Ok(Seq::empty())
    } else {
        match shares_outcome(specs.drop_last()) {
            Err(e) => Err(e),
            Ok(v) => match share_outcome(specs.last()) {
                Err(e) => Err(e),
                Ok(x) => Ok(v.push(x)),
            },
        }
    }
}

pub open spec fn share_arg_view(d: SharedDirArg) -> (Seq<char>, Seq<char>, bool) {
    (d.tag@, d.host_path@, d.read_only)
}

/// What the runner hands to Virtualization.framework.
#[derive(Debug)]
pub struct RunnerConfig {
    pub kernel: String,
    pub initrd: Option<String>,
    pub cmdline: String,
    pub disk: String,
    pub cpus: u32,
    pub memory_mb: u64,
    pub rosetta: bool,
    pub shared_dirs: Vec<SharedDirArg>,
}

/// The VM configuration from the runner's settings: the same kernel,
/// initrd, command line, disk, CPUs, memory and Rosetta flag, with every
/// share read; fails with the error of the first share that does not
/// read.
pub fn runner_config(args: &Args) -> (r: Result<RunnerConfig, String>)
    requires
        forall|i: int| 0 <= i < args.shared_dirs@.len() ==> utf8_len(#[trigger] args.shared_dirs@[i]@) <= u64::MAX,
    ensures
        match shares_outcome(strings_view(args.shared_dirs@)) {
            Err(e) => r matches Err(m) && m@ == e,
            Ok(v) => r matches Ok(c) && c.shared_dirs@.map_values(|d: SharedDirArg| share_arg_view(d)) == v
                && c.kernel@ == args.kernel@ && opt_string_view(c.initrd) == opt_string_view(args.initrd)
                && c.cmdline@ == args.cmdline@ && c.disk@ == args.disk@ && c.cpus == args.cpus && c.memory_mb
                == args.memory_mb && c.rosetta == args.rosetta,
        },
{
    let ghost sv = strings_view(args.shared_dirs@);
    let mut shares: Vec<SharedDirArg> = Vec::new();
    let mut i: usize = 0;
    proof {
        assert(sv.take(0) =~= Seq::<Seq<char>>::empty());
        assert(shares@.map_values(|d: SharedDirArg| share_arg_view(d)) =~= Seq::<(Seq<char>, Seq<char>, bool)>::empty());
    }
    while i < args.shared_dirs.len()
        invariant
            sv == strings_view(args.shared_dirs@),
            i <= args.shared_dirs.len(),
            forall|j: int| 0 <= j < args.shared_dirs@.len() ==> utf8_len(#[trigger] args.shared_dirs@[j]@) <= u64::MAX,
            shares_outcome(sv.take(i as int)) == Ok::<Seq<(Seq<char>, Seq<char>, bool)>, Seq<char>>(
                shares@.map_values(|d: SharedDirArg| share_arg_view(d)),
            ),
        decreases args.shared_dirs.len() - i,
    {
        proof {
            assert(sv.take(i as int + 1).drop_last() =~= sv.take(i as int));
            assert(sv.take(i as int + 1).last() == args.shared_dirs@[i as int]@);
        }
        match parse_shared_dir(args.shared_dirs[i].as_str()) {
            Err(e) => {
                proof {
                    lemma_shares_outcome_err(sv, i as int + 1);
                }
                return Err(e);
            },
            Ok(d) => {
                let ghost before = shares@;
                shares.push(d);
                proof {
                    assert(shares@.map_values(|d: SharedDirArg| share_arg_view(d)) =~= before.map_values(
                        |d: SharedDirArg| share_arg_view(d),
                    ).push(share_arg_view(d)));
                }
            },
        }
        i = i + 1;
    }
    proof {
        assert(sv.take(i as int) =~= sv);
    }
    Ok(
        RunnerConfig {
            kernel: clone_string(&args.kernel),
            initrd: opt_clone(&args.initrd),
            cmdline: clone_string(&args.cmdline),
            disk: clone_string(&args.disk),
            cpus: args.cpus,
            memory_mb: args.memory_mb,
            rosetta: args.rosetta,
            shared_dirs: shares,
        },
    )
}

/// Once a prefix of the shares fails, all of them fail with its error.
proof fn lemma_shares_outcome_err(s: Seq<Seq<char>>, k: int)
    requires
        0 <= k <= s.len(),
        shares_outcome(s.take(k)) is Err,
    ensures
        shares_outcome(s) == shares_outcome(s.take(k)),
    decreases s.len() - k,
{
    if k < s.len() {
        assert(s.take(k + 1).drop_last() =~= s.take(k));
        lemma_shares_outcome_err(s, k + 1);
    } else {
        assert(s.take(k) =~= s);
    }
}

/// A share that the macOS backend passes reads back as the same share,
/// when neither its tag nor its host path holds a `:` or a NUL.
pub proof fn law_share_arg_read_back(d: SharedDirectoryView)
    requires
        !d.tag.contains(':'),
        !d.host_path.contains(':'),
        !d.tag.contains('\0'),
        !d.host_path.contains('\0'),
    ensures
        share_outcome(share_arg_spec(d)) == Ok::<(Seq<char>, Seq<char>, bool), Seq<char>>(
            (d.tag, d.host_path, d.read_only),
        ),
{
    reveal_strlit(":");
    reveal_strlit(":ro");
    reveal_strlit("ro");
    reveal_strlit("");
    let suffix: Seq<char> = if d.read_only {
        ":ro"@
    } else {
        ""@
    };
    let s = share_arg_spec(d);
    assert(s =~= d.tag + seq![':'] + d.host_path + suffix);
    let t = d.tag.len() as int;
    assert(s[t] == ':');
    assert forall|j: int| 0 <= j < t implies s[j] != ':' by {
        assert(s[j] == d.tag[j]);
    }
    crate::text::lemma_first_index_unique(s, ':', t);
    assert(before_first(s, ':') =~= d.tag);
    let rest = after_first(s, ':');
    assert(rest =~= d.host_path + suffix);
    let h = d.host_path.len() as int;
    if d.read_only {
        assert(rest[h] == ':');
        assert forall|j: int| 0 <= j < h implies rest[j] != ':' by {
            assert(rest[j] == d.host_path[j]);
        }
        crate::text::lemma_first_index_unique(rest, ':', h);
        assert(before_first(rest, ':') =~= d.host_path);
        assert(after_first(rest, ':') =~= "ro"@);
        assert(rest.contains(':'));
    } else {
        assert(rest =~= d.host_path);
        assert(before_first(rest, ':') =~= d.host_path);
    }
    assert(first_index_of(d.tag, '\0') is None);
    assert(first_index_of(d.host_path, '\0') is None);
}

// ---------------------------------------------------------------------------
// Following the runner
// ---------------------------------------------------------------------------

/// What starting a VM finds of an earlier runner.
#[derive(Debug, Clone, Copy, PartialEq, Eq, Structural)]
pub struct StartCheck {
    /// A runner serves the VM already; nothing is spawned.
    pub already_running: bool,
    /// The VM's record changed to `Running` and is to be saved.
    pub persist: bool,
    /// The recorded runner process is gone: forget its pid and remove its
    /// pid and ready files.
    pub forget_pid: bool,
}

/// Decides whether starting a VM spawns a runner, given whether its
/// recorded runner process is alive (`None` when none is recorded),
/// whether a runner child is held, and the VM's recorded state.
pub fn start_check(recorded_pid_alive: Option<bool>, has_child: bool, state: VmState) -> (c: StartCheck)
    ensures
        c.forget_pid == (recorded_pid_alive == Some(false)),
        c.already_running == (recorded_pid_alive == Some(true) || has_child),
        c.persist == (c.already_running && state != VmState::Running),
{
    let pid_running = match recorded_pid_alive {
        Some(alive) => alive,
        None => false,
    };
    let forget_pid = match recorded_pid_alive {
        Some(alive) => !alive,
        None => false,
    };
    let already_running = pid_running || has_child;
    StartCheck { already_running, persist: already_running && state != VmState::Running, forget_pid }
}

/// One look at a runner that was just spawned.
#[derive(Debug)]
pub enum RunnerWait {
    /// The runner reports the VM ready.
    Ready,
    /// Look again shortly.
    Poll,
    /// The runner is gone; fail with this error.
    Failed(HypervisorError),
    /// Kill the runner, then fail with this error.
    GiveUp(HypervisorError),
}

/// Decides what waiting for a runner does next: done when its ready file
/// exists, fail when it exited (`exit_status` holds how), give up (killing
/// it) once the deadline passed, else look again.
pub fn runner_wait_step(ready: bool, exit_status: Option<&str>, deadline_passed: bool) -> (w: RunnerWait)
    ensures
        ready ==> w is Ready,
        !ready && exit_status is Some ==> (w matches RunnerWait::Failed(HypervisorError::CreateFailed(m)) && m@
            == "cargobay-vz exited early: "@ + exit_status->0@),
        !ready && exit_status is None && deadline_passed ==> (w matches RunnerWait::GiveUp(
            HypervisorError::CreateFailed(m),
        ) && m@ == "Timed out waiting for VM to start"@),
        !ready && exit_status is None && !deadline_passed ==> w is Poll,
{
    if ready {
        return RunnerWait::Ready;
    }
    match exit_status {
        Some(status) => RunnerWait::Failed(HypervisorError::CreateFailed(concat("cargobay-vz exited early: ", status))),
        None => {
            if deadline_passed {
                RunnerWait::GiveUp(HypervisorError::CreateFailed(owned("Timed out waiting for VM to start")))
            } else {
                RunnerWait::Poll
            }
        },
    }
}

/// What listing the VMs learns of one VM's runner.
#[derive(Debug, Clone, Copy, PartialEq, Eq, Structural)]
pub struct RunnerCheck {
    /// The VM's state from now on.
    pub state: VmState,
    /// Drop the runner child.
    pub forget_child: bool,
    /// Forget the runner's pid and remove its pid and ready files.
    pub forget_pid: bool,
    /// The record changed and is to be saved.
    pub changed: bool,
}

/// Reconciles a VM's state with its runner: a runner child that exited,
/// or a recorded runner process that is gone, leaves the VM stopped; a
/// live recorded runner makes it running; without a runner the state
/// stands.
pub fn reconcile_runner(child_exited: bool, recorded_pid_alive: Option<bool>, state: VmState) -> (c: RunnerCheck)
    ensures
        child_exited ==> c == (RunnerCheck { state: VmState::Stopped, forget_child: true, forget_pid: true, changed: true }),
        !child_exited && recorded_pid_alive == Some(false) ==> c == (RunnerCheck {
            state: VmState::Stopped,
            forget_child: false,
            forget_pid: true,
            changed: true,
        }),
        !child_exited && recorded_pid_alive == Some(true) ==> c == (RunnerCheck {
            state: VmState::Running,
            forget_child: false,
            forget_pid: false,
            changed: state != VmState::Running,
        }),
        !child_exited && recorded_pid_alive is None ==> c == (RunnerCheck {
            state: state,
            forget_child: false,
            forget_pid: false,
            changed: false,
        }),
{
    if child_exited {
        return RunnerCheck { state: VmState::Stopped, forget_child: true, forget_pid: true, changed: true };
    }
    match recorded_pid_alive {
        Some(false) => RunnerCheck { state: VmState::Stopped, forget_child: false, forget_pid: true, changed: true },
        Some(true) => RunnerCheck {
            state: VmState::Running,
            forget_child: false,
            forget_pid: false,
            changed: state != VmState::Running,
        },
        None => RunnerCheck { state, forget_child: false, forget_pid: false, changed: false },
    }
}

/// The content of a runner's pid file.
pub fn pid_file_content(pid: u32) -> (r: String)
    ensures
        r@ == decimal(pid as nat) + "\n"@,
{
    concat(crate::text::decimal_string(pid as u64).as_str(), "\n")
}

/// A runner's pid file reads back as the runner's pid.
pub proof fn law_pid_file_read_back(pid: u32)
    ensures
        crate::text::parse_unsigned(crate::text::trim(decimal(pid as nat) + "\n"@), u32::MAX as nat) == Some(
            pid as nat,
        ),
{
    reveal_strlit("\n");
    let d = decimal(pid as nat);
    crate::text::lemma_digits_value_decimal(pid as nat);
    let s = d + "\n"@;
    assert(s.len() == d.len() + 1);
    assert(s[0] == d[0]);
    assert(crate::text::is_ascii_digit(d[0]));
    crate::text::lemma_leading_ws_is(s, 0);
    assert(s.skip(0) =~= s);
    assert(s[s.len() - 1] == '\n');
    assert(s[s.len() - 2] == d[d.len() - 1]);
    assert(crate::text::is_ascii_digit(d[d.len() - 1]));
    crate::text::lemma_trailing_ws_is(s, 1);
    assert(crate::text::trim(s) =~= d);
    crate::text::law_parse_decimal(pid as nat, u32::MAX as nat);
}

} // verus!
