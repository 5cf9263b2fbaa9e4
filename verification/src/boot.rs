//! The memory layout that the KVM backend prepares for a direct Linux
//! boot: where the kernel, the initrd and the command line go, the zero
//! page (boot parameters) and the identity-mapped page tables.
//!
//! Guest memory is given as a byte vector; allocating it, reading the
//! image files and driving KVM are the caller's part.
use vstd::prelude::*;
use crate::hypervisor::HypervisorError;
use crate::cli::{signed_decimal, signed_decimal_string};
use crate::text::{concat, owned};
use vstd::string::StringSliceAdditionalSpecFns;

verus! {

/// Where the kernel's protected-mode code is loaded (1 MiB).
pub const KERNEL_LOAD_ADDR: u64 = 0x0010_0000;

/// Where the zero page (`boot_params`) lives.
pub const ZERO_PAGE_ADDR: u64 = 0x0000_7000;

/// Where the kernel command line is placed.
pub const CMDLINE_ADDR: u64 = 0x0002_0000;

/// The command line used when a VM does not set one.
pub const DEFAULT_CMDLINE: &'static str = "console=ttyS0 noapic noacpi reboot=k panic=1 pci=off nomodules";

// ---------------------------------------------------------------------------
// Writing bytes
// ---------------------------------------------------------------------------

/// The `n` low bytes of `v`, least significant first.
pub open spec fn le_bytes(v: nat, n: nat) -> Seq<u8>
    decreases n,
{
    if n == 0 {
        Seq::empty()
    } else {
        seq![(v % 256) as u8] + le_bytes(v / 256, (n - 1) as nat)
    }
}

proof fn lemma_le_bytes_len(v: nat, n: nat)
    ensures
        le_bytes(v, n).len() == n,
    decreases n,
{
    if n > 0 {
        lemma_le_bytes_len(v / 256, (n - 1) as nat);
    }
}

/// `mem` with `data` written from `offset` on.
pub open spec fn written(mem: Seq<u8>, offset: int, data: Seq<u8>) -> Seq<u8> {
    mem.take(offset) + data + mem.skip(offset + data.len())
}

/// `n` zero bytes.
pub open spec fn zeros(n: nat) -> Seq<u8> {
    Seq::new(n, |i: int| 0u8)
}

fn write_bytes(mem: &mut Vec<u8>, offset: usize, data: &[u8])
    requires
        offset + data@.len() <= old(mem)@.len(),
    ensures
        final(mem)@ == written(old(mem)@, offset as int, data@),
        final(mem)@.len() == old(mem)@.len(),
{
    let n = mem.len();
    let mut i: usize = 0;
    while i < data.len()
        invariant
            i <= data@.len(),
            offset + data@.len() <= mem@.len(),
            mem@.len() == old(mem)@.len(),
            mem@.len() == n,
            mem@ == old(mem)@.take(offset as int) + data@.take(i as int) + old(mem)@.skip(
                offset + i,
            ),
        decreases data.len() - i,
    {
        mem.set(offset + i, data[i]);
        proof {
            assert(mem@ =~= old(mem)@.take(offset as int) + data@.take(i + 1) + old(mem)@.skip(
                offset + i + 1,
            ));
        }
        i = i + 1;
    }
    proof {
        assert(data@.take(i as int) =~= data@);
    }
}

fn le_byte_vec(v: u64, n: usize) -> (r: Vec<u8>)
    requires
        n <= 8,
    ensures
        r@ == le_bytes(v as nat, n as nat),
        r@.len() == n,
{
    let mut r: Vec<u8> = Vec::new();
    let mut rest: u64 = v;
    let mut i: usize = 0;
    while i < n
        invariant
            i <= n,
            le_bytes(v as nat, n as nat) == r@ + le_bytes(rest as nat, (n - i) as nat),
            r@.len() == i,
        decreases n - i,
    {
        let b: u8 = (rest % 256) as u8;
        proof {
            assert(le_bytes(rest as nat, (n - i) as nat) == seq![b] + le_bytes(
                (rest / 256) as nat,
                (n - i - 1) as nat,
            ));
            assert(r@ + le_bytes(rest as nat, (n - i) as nat) =~= r@.push(b) + le_bytes(
                (rest / 256) as nat,
                (n - i - 1) as nat,
            ));
        }
        r.push(b);
        rest = rest / 256;
        i = i + 1;
    }
    proof {
        assert(le_bytes(rest as nat, 0) =~= Seq::<u8>::empty());
        assert(r@ + Seq::<u8>::empty() =~= r@);
    }
    r
}

fn write_le(mem: &mut Vec<u8>, offset: usize, v: u64, n: usize)
    requires
        n <= 8,
        offset + n <= old(mem)@.len(),
    ensures
        final(mem)@ == written(old(mem)@, offset as int, le_bytes(v as nat, n as nat)),
        final(mem)@.len() == old(mem)@.len(),
{
    let bytes = le_byte_vec(v, n);
    write_bytes(mem, offset, bytes.as_slice());
}

fn zero_vec(n: usize) -> (r: Vec<u8>)
    ensures
        r@ == zeros(n as nat),
{
    let mut r: Vec<u8> = Vec::new();
    let mut i: usize = 0;
    while i < n
        invariant
            i <= n,
            r@ == zeros(i as nat),
        decreases n - i,
    {
        r.push(0u8);
        i = i + 1;
        proof {
            assert(r@ =~= zeros(i as nat));
        }
    }
    r
}

// ---------------------------------------------------------------------------
// Command line
// ---------------------------------------------------------------------------

/// Guest memory after the command line is placed: its bytes and a NUL at
/// `CMDLINE_ADDR`, then, when the zero page has room, the pointer to it at
/// `0x228` and its length at `0x238` of the zero page.
pub open spec fn cmdline_written(mem: Seq<u8>, cmdline: Seq<u8>) -> Seq<u8> {
    let m1 = written(mem, CMDLINE_ADDR as int, cmdline.push(0u8));
    if ZERO_PAGE_ADDR + 0x238 + 4 <= mem.len() {
        written(
            written(m1, ZERO_PAGE_ADDR + 0x228, le_bytes(CMDLINE_ADDR as nat, 4)),
            ZERO_PAGE_ADDR + 0x238,
            le_bytes(cmdline.len(), 4),
        )
    } else {
        m1
    }
}

/// Writes the kernel command line into guest memory; fails, leaving the
/// memory as it was, when it does not fit.
pub fn setup_cmdline(mem: &mut Vec<u8>, cmdline: &str) -> (r: Result<(), HypervisorError>)
    ensures
        final(mem)@.len() == old(mem)@.len(),
        CMDLINE_ADDR + cmdline.spec_bytes().len() + 1 > old(mem)@.len() ==> {
            &&& r matches Err(HypervisorError::CreateFailed(m))
            &&& m@ == "Command line too long for guest memory"@
            &&& final(mem)@ == old(mem)@
        },
        CMDLINE_ADDR + cmdline.spec_bytes().len() + 1 <= old(mem)@.len() ==> {
            &&& r is Ok
            &&& final(mem)@ == cmdline_written(old(mem)@, cmdline.spec_bytes())
        },
{
    let bytes = cmdline.as_bytes();
    let offset: usize = 0x0002_0000;
    if mem.len() < 1 || bytes.len() > mem.len() - 1 || offset > mem.len() - 1 - bytes.len() {
        return Err(HypervisorError::CreateFailed(owned("Command line too long for guest memory")));
    }
    let mut with_nul: Vec<u8> = slice_to_vec(bytes);
    with_nul.push(0u8);
    write_bytes(mem, offset, with_nul.as_slice());
    let zero_page: usize = 0x7000;
    if zero_page + 0x238 + 4 <= mem.len() {
        write_le(mem, zero_page + 0x228, 0x0002_0000, 4);
        write_le(mem, zero_page + 0x238, bytes.len() as u64, 4);
    }
    Ok(())
}

/// A vector holding the bytes of `s`.
fn slice_to_vec(s: &[u8]) -> (r: Vec<u8>)
    ensures
        r@ == s@,
{
    let mut r: Vec<u8> = Vec::new();
    let mut i: usize = 0;
    while i < s.len()
        invariant
            i <= s@.len(),
            r@ == s@.take(i as int),
        decreases s.len() - i,
    {
        r.push(s[i]);
        i = i + 1;
        proof {
            assert(r@ =~= s@.take(i as int));
        }
    }
    proof {
        assert(s@.take(i as int) =~= s@);
    }
    r
}

// ---------------------------------------------------------------------------
// Initrd
// ---------------------------------------------------------------------------

/// Where the initrd goes: as high as it fits, at a page boundary.
pub open spec fn initrd_addr_spec(mem_size: nat, size: nat) -> nat {
    (((mem_size - size) as nat / 4096) * 4096) as nat
}

/// Places an initrd at the top of guest memory (page aligned) and gives
/// its address and size; fails when it would reach into the 1 MiB above
/// the kernel's load address.
pub fn load_initrd(mem: &mut Vec<u8>, data: &[u8]) -> (r: Result<(u64, u64), HypervisorError>)
    requires
        data@.len() <= old(mem)@.len(),
    ensures
        final(mem)@.len() == old(mem)@.len(),
        initrd_addr_spec(old(mem)@.len(), data@.len()) < KERNEL_LOAD_ADDR + 0x10_0000 ==> {
            &&& r matches Err(HypervisorError::CreateFailed(m))
            &&& m@ == "Not enough memory for initrd (overlaps with kernel)"@
            &&& final(mem)@ == old(mem)@
        },
        initrd_addr_spec(old(mem)@.len(), data@.len()) >= KERNEL_LOAD_ADDR + 0x10_0000 ==> {
            &&& r == Ok::<(u64, u64), HypervisorError>(
                (initrd_addr_spec(old(mem)@.len(), data@.len()) as u64, data@.len() as u64),
            )
            &&& final(mem)@ == written(
                old(mem)@,
                initrd_addr_spec(old(mem)@.len(), data@.len()) as int,
                data@,
            )
        },
{
    let size = data.len();
    let addr: usize = ((mem.len() - size) / 4096) * 4096;
    if addr < 0x0010_0000 + 0x10_0000 {
        return Err(
            HypervisorError::CreateFailed(owned("Not enough memory for initrd (overlaps with kernel)")),
        );
    }
    proof {
        assert(addr <= mem.len() - size) by (nonlinear_arith)
            requires
                addr == ((mem.len() - size) / 4096) * 4096,
                mem.len() >= size,
        ;
    }
    write_bytes(mem, addr, data);
    Ok((addr as u64, size as u64))
}

// ---------------------------------------------------------------------------
// Kernel
// ---------------------------------------------------------------------------

/// The image carries the `HdrS` magic of a bzImage at `0x202`.
pub open spec fn is_bzimage(k: Seq<u8>) -> bool {
    k.len() > 0x206 && k[0x202] == 0x48 && k[0x203] == 0x64 && k[0x204] == 0x72 && k[0x205] == 0x53
}

/// The size of a bzImage's real-mode setup: its setup sectors (4 when the
/// header says 0) and the boot sector, 512 bytes each.
pub open spec fn setup_size(k: Seq<u8>) -> nat {
    ((if k[0x1F1] == 0 {
        4
    } else {
        k[0x1F1] as nat
    }) + 1) * 512
}

/// What a kernel load leaves in guest memory: for a bzImage, its
/// protected-mode code at the load address and, when the zero page fits,
/// a cleared zero page holding the first (at most 4096) bytes of the
/// image; for any other image, the whole image at the load address.
pub open spec fn kernel_written(mem: Seq<u8>, k: Seq<u8>) -> Seq<u8> {
    if is_bzimage(k) {
        let m1 = written(mem, KERNEL_LOAD_ADDR as int, k.skip(setup_size(k) as int));
        if ZERO_PAGE_ADDR + 4096 <= mem.len() {
            let header = if setup_size(k) < 4096 {
                setup_size(k)
            } else {
                4096
            };
            written(written(m1, ZERO_PAGE_ADDR as int, zeros(4096)), ZERO_PAGE_ADDR as int, k.take(header as int))
        } else {
            m1
        }
    } else {
        written(mem, KERNEL_LOAD_ADDR as int, k)
    }
}

/// Loads a kernel image into guest memory and gives its entry address.
/// Fails when the image does not fit above the load address, or when a
/// bzImage's setup header reaches past its end.
pub fn load_kernel(mem: &mut Vec<u8>, kernel: &[u8]) -> (r: Result<u64, HypervisorError>)
    requires
        old(mem)@.len() >= KERNEL_LOAD_ADDR,
    ensures
        final(mem)@.len() == old(mem)@.len(),
        KERNEL_LOAD_ADDR + kernel@.len() > old(mem)@.len() ==> {
            &&& r matches Err(HypervisorError::CreateFailed(m))
            &&& m@ == "Kernel too large: "@ + crate::text::decimal(kernel@.len()) + " bytes, available: "@
                + crate::text::decimal((old(mem)@.len() - KERNEL_LOAD_ADDR) as nat) + " bytes"@
            &&& final(mem)@ == old(mem)@
        },
        KERNEL_LOAD_ADDR + kernel@.len() <= old(mem)@.len() && is_bzimage(kernel@) && setup_size(
            kernel@,
        ) >= kernel@.len() ==> {
            &&& r matches Err(HypervisorError::CreateFailed(m))
            &&& m@ == "bzImage setup header extends past end of file"@
            &&& final(mem)@ == old(mem)@
        },
        KERNEL_LOAD_ADDR + kernel@.len() <= old(mem)@.len() && !(is_bzimage(kernel@) && setup_size(
            kernel@,
        ) >= kernel@.len()) ==> {
            &&& r == Ok::<u64, HypervisorError>(KERNEL_LOAD_ADDR)
            &&& final(mem)@ == kernel_written(old(mem)@, kernel@)
        },
{
    let load: usize = 0x0010_0000;
    if kernel.len() > mem.len() - load {
        let a = crate::text::concat("Kernel too large: ", crate::text::decimal_string(kernel.len() as u64).as_str());
        let a = crate::text::concat(a.as_str(), " bytes, available: ");
        let a = crate::text::concat(a.as_str(), crate::text::decimal_string((mem.len() - load) as u64).as_str());
        return Err(HypervisorError::CreateFailed(crate::text::concat(a.as_str(), " bytes")));
    }
    let bz = kernel.len() > 0x206 && kernel[0x202] == 0x48 && kernel[0x203] == 0x64 && kernel[0x204]
        == 0x72 && kernel[0x205] == 0x53;
    if bz {
        let sects: usize = if kernel[0x1F1] == 0 {
            4
        } else {
            kernel[0x1F1] as usize
        };
        let setup: usize = (sects + 1) * 512;
        if setup >= kernel.len() {
            return Err(
                HypervisorError::CreateFailed(owned("bzImage setup header extends past end of file")),
            );
        }
        let code = slice_range(kernel, setup, kernel.len());
        proof {
            assert(code@ =~= kernel@.skip(setup as int));
        }
        write_bytes(mem, load, code.as_slice());
        let zero_page: usize = 0x7000;
        if zero_page + 4096 <= mem.len() {
            let header: usize = if setup < 4096 {
                setup
            } else {
                4096
            };
            let z = zero_vec(4096);
            write_bytes(mem, zero_page, z.as_slice());
            let head = slice_range(kernel, 0, header);
            proof {
                assert(head@ =~= kernel@.take(header as int));
            }
            write_bytes(mem, zero_page, head.as_slice());
        }
    } else {
        write_bytes(mem, load, kernel);
    }
    Ok(0x0010_0000)
}

/// The bytes of `s` from `from` to `to`.
fn slice_range(s: &[u8], from: usize, to: usize) -> (r: Vec<u8>)
    requires
        from <= to <= s@.len(),
    ensures
        r@ == s@.subrange(from as int, to as int),
{
    let mut r: Vec<u8> = Vec::new();
    let mut i: usize = from;
    while i < to
        invariant
            from <= i <= to <= s@.len(),
            r@ == s@.subrange(from as int, i as int),
        decreases to - i,
    {
        r.push(s[i]);
        i = i + 1;
        proof {
            assert(r@ =~= s@.subrange(from as int, i as int));
        }
    }
    r
}

// ---------------------------------------------------------------------------
// Boot parameters
// ---------------------------------------------------------------------------

/// The zero page after the boot parameters are set: boot protocol 2.06,
/// an undefined loader, the `LOADED_HIGH` flag, the initrd's address and
/// size (when both are given), and one E820 entry of usable RAM covering
/// all of guest memory.
pub open spec fn boot_params_written(mem: Seq<u8>, initrd_addr: Option<u64>, initrd_size: Option<u64>) -> Seq<u8> {
    let z = ZERO_PAGE_ADDR as int;
    let m1 = written(mem, z + 0x206, le_bytes(0x0206, 2));
    let m2 = m1.update(z + 0x210, 0xFFu8);
    let m3 = m2.update(z + 0x211, m2[z + 0x211] | 1u8);
    let m4 = match (initrd_addr, initrd_size) {
        (Some(a), Some(s)) => written(
            written(m3, z + 0x218, le_bytes(a as nat, 4)),
            z + 0x21C,
            le_bytes(s as nat, 4),
        ),
        _ => m3,
    };
    let m5 = m4.update(z + 0x1E8, 1u8);
    let e = z + 0x2D0;
    written(
        written(written(m5, e, le_bytes(0, 8)), e + 8, le_bytes(mem.len(), 8)),
        e + 16,
        le_bytes(1, 4),
    )
}

/// Fills in the zero page; fails, leaving memory as it was, when guest
/// memory cannot hold it.
pub fn setup_boot_params(mem: &mut Vec<u8>, initrd_addr: Option<u64>, initrd_size: Option<u64>) -> (r:
    Result<(), HypervisorError>)
    ensures
        final(mem)@.len() == old(mem)@.len(),
        ZERO_PAGE_ADDR + 4096 > old(mem)@.len() ==> {
            &&& r matches Err(HypervisorError::CreateFailed(m))
            &&& m@ == "Not enough memory for zero page"@
            &&& final(mem)@ == old(mem)@
        },
        ZERO_PAGE_ADDR + 4096 <= old(mem)@.len() ==> {
            &&& r is Ok
            &&& final(mem)@ == boot_params_written(old(mem)@, initrd_addr, initrd_size)
        },
{
    let z: usize = 0x7000;
    let size = mem.len();
    if z + 4096 > size {
        return Err(HypervisorError::CreateFailed(owned("Not enough memory for zero page")));
    }
    write_le(mem, z + 0x206, 0x0206, 2);
    mem.set(z + 0x210, 0xFF);
    let flags = mem[z + 0x211] | 1u8;
    mem.set(z + 0x211, flags);
    match (initrd_addr, initrd_size) {
        (Some(a), Some(s)) => {
            write_le(mem, z + 0x218, a, 4);
            write_le(mem, z + 0x21C, s, 4);
        },
        _ => {},
    }
    mem.set(z + 0x1E8, 1u8);
    let e = z + 0x2D0;
    write_le(mem, e, 0, 8);
    write_le(mem, e + 8, size as u64, 8);
    write_le(mem, e + 16, 1, 4);
    Ok(())
}

// ---------------------------------------------------------------------------
// Page tables
// ---------------------------------------------------------------------------

/// How many GiB guest memory spans, rounded up.
pub open spec fn gib_count(mem_size: nat) -> nat {
    ((mem_size + 0x4000_0000 - 1) / 0x4000_0000) as nat
}

/// The PDPT entry that maps GiB `i` with a present, writable huge page.
pub open spec fn pdpt_entry(i: nat) -> nat {
    i * 0x4000_0000 + 0x83
}

/// The PDPT entries `i` up to `end` (excluded) written into `m`.
pub open spec fn pdpt_written(m: Seq<u8>, i: nat, end: nat) -> Seq<u8>
    decreases end - i,
{
    if i >= end {
        m
    } else {
        pdpt_written(written(m, (0xA000 + 8 * i) as int, le_bytes(pdpt_entry(i), 8)), i + 1, end)
    }
}

/// Guest memory with identity-mapped page tables for long mode: the PML4
/// at `0x9000` points to the PDPT at `0xA000`, whose entries map each GiB
/// of guest memory (at most 512) with a huge page; the rest of both
/// tables is zero.
pub open spec fn page_tables_written(mem: Seq<u8>) -> Seq<u8> {
    let m1 = written(written(mem, 0x9000, zeros(0x1000)), 0xA000, zeros(0x1000));
    let m2 = written(written(m1, 0x9000, le_bytes(0xA003, 8)), 0xA000, le_bytes(0x83, 8));
    let g = gib_count(mem.len());
    pdpt_written(m2, 1, if g < 512 {
        g
    } else {
        512
    })
}

/// Writes the page tables; fails, leaving memory as it was, when guest
/// memory ends before `0xB000`.
pub fn setup_page_tables(mem: &mut Vec<u8>) -> (r: Result<(), HypervisorError>)
    requires
        old(mem)@.len() + 0x4000_0000 <= usize::MAX,
    ensures
        final(mem)@.len() == old(mem)@.len(),
        0xB000 > old(mem)@.len() ==> {
            &&& r matches Err(HypervisorError::CreateFailed(m))
            &&& m@ == "Not enough memory for page tables"@
            &&& final(mem)@ == old(mem)@
        },
        0xB000 <= old(mem)@.len() ==> {
            &&& r is Ok
            &&& final(mem)@ == page_tables_written(old(mem)@)
        },
{
    let size = mem.len();
    if 0xB000 > size {
        return Err(HypervisorError::CreateFailed(owned("Not enough memory for page tables")));
    }
    let z = zero_vec(0x1000);
    write_bytes(mem, 0x9000, z.as_slice());
    write_bytes(mem, 0xA000, z.as_slice());
    write_le(mem, 0x9000, 0xA003, 8);
    write_le(mem, 0xA000, 0x83, 8);
    let gib: usize = (size + 0x4000_0000 - 1) / 0x4000_0000;
    let end: usize = if gib < 512 {
        gib
    } else {
        512
    };
    let ghost start = mem@;
    let mut i: usize = 1;
    while i < end
        invariant
            1 <= i,
            end <= 512,
            mem@.len() == size,
            size >= 0xB000,
            pdpt_written(start, 1, end as nat) == pdpt_written(mem@, i as nat, end as nat),
        decreases end - i,
    {
        let entry: u64 = (i as u64) * 0x4000_0000 + 0x83;
        write_le(mem, 0xA000 + i * 8, entry, 8);
        i = i + 1;
    }
    Ok(())
}

// ---------------------------------------------------------------------------
// Preparing guest memory for a direct boot
// ---------------------------------------------------------------------------

/// The message when a kernel does not fit above the load address.
pub open spec fn kernel_too_large(k_len: nat, mem_len: nat) -> Seq<char> {
    "Kernel too large: "@ + crate::text::decimal(k_len) + " bytes, available: "@ + crate::text::decimal(
        (mem_len - KERNEL_LOAD_ADDR) as nat,
    ) + " bytes"@
}

/// Whether a kernel image is refused for a guest memory of `mem_len`
/// bytes: it does not fit, or its bzImage setup header runs past its end.
pub open spec fn kernel_refused(mem_len: nat, k: Seq<u8>) -> bool {
    KERNEL_LOAD_ADDR + k.len() > mem_len || (is_bzimage(k) && setup_size(k) >= k.len())
}

/// Guest memory once the boot parameters are written after the command
/// line, the initrd (when given, recorded in the zero page) being placed
/// in `m` first.
pub open spec fn boot_tail(m: Seq<u8>, initrd: Option<Seq<u8>>, cmdline: Seq<u8>) -> Result<
    Seq<u8>,
    Seq<char>,
> {
    let len = m.len();
    let placed: Result<(Seq<u8>, Option<u64>, Option<u64>), Seq<char>> = match initrd {
        None => Ok((m, None, None)),
        Some(i) => if initrd_addr_spec(len, i.len()) < KERNEL_LOAD_ADDR + 0x10_0000 {
            Err("Not enough memory for initrd (overlaps with kernel)"@)
        } else {
            Ok(
                (
                    written(m, initrd_addr_spec(len, i.len()) as int, i),
                    Some(initrd_addr_spec(len, i.len()) as u64),
                    Some(i.len() as u64),
                ),
            )
        },
    };
    match placed {
        Err(e) => Err(e),
        Ok((m1, a, n)) => if CMDLINE_ADDR + cmdline.len() + 1 > len {
            Err("Command line too long for guest memory"@)
        } else if ZERO_PAGE_ADDR + 4096 > len {
            Err("Not enough memory for zero page"@)
        } else {
            Ok(boot_params_written(cmdline_written(m1, cmdline), a, n))
        },
    }
}

/// Guest memory prepared for a direct kernel boot, or the message of the
/// first step that fails: the page tables; then, when a kernel is given,
/// the kernel, the initrd (when given), the command line and the boot
/// parameters, in that order.
pub open spec fn guest_memory_plan(mem: Seq<u8>, kernel: Option<Seq<u8>>, initrd: Option<Seq<u8>>, cmdline: Seq<
    u8,
>) -> Result<Seq<u8>, Seq<char>> {
    if 0xB000 > mem.len() {
        Err("Not enough memory for page tables"@)
    } else {
        let m1 = page_tables_written(mem);
        match kernel {
            None => Ok(m1),
            Some(k) => if KERNEL_LOAD_ADDR + k.len() > mem.len() {
                Err(kernel_too_large(k.len(), mem.len()))
            } else if is_bzimage(k) && setup_size(k) >= k.len() {
                Err("bzImage setup header extends past end of file"@)
            } else {
                boot_tail(kernel_written(m1, k), initrd, cmdline)
            },
        }
    }
}

pub open spec fn opt_bytes(o: Option<&[u8]>) -> Option<Seq<u8>> {
    match o {
        Some(b) => Some(b@),
        None => None,
    }
}

/// Prepares guest memory for a direct kernel boot; see
/// [`guest_memory_plan`]. On failure the memory holds what the steps before
/// the failing one wrote.
pub fn prepare_guest_memory(mem: &mut Vec<u8>, kernel: Option<&[u8]>, initrd: Option<&[u8]>, cmdline: &str) -> (r:
    Result<(), HypervisorError>)
    requires
        old(mem)@.len() + 0x4000_0000 <= usize::MAX,
        kernel is Some && old(mem)@.len() >= 0xB000 ==> old(mem)@.len() >= KERNEL_LOAD_ADDR,
        ({
            match (kernel, initrd) {
                (Some(k), Some(i)) => old(mem)@.len() >= 0xB000 && !kernel_refused(old(mem)@.len(), k@)
                    ==> i@.len() <= old(mem)@.len(),
                _ => true,
            }
        }),
    ensures
        final(mem)@.len() == old(mem)@.len(),
        match guest_memory_plan(old(mem)@, opt_bytes(kernel), opt_bytes(initrd), cmdline.spec_bytes()) {
            Ok(m) => r is Ok && final(mem)@ == m,
            Err(msg) => r matches Err(HypervisorError::CreateFailed(e)) && e@ == msg,
        },
{
    match setup_page_tables(mem) {
        Ok(()) => {},
        Err(e) => return Err(e),
    }
    let k = match kernel {
        None => return Ok(()),
        Some(k) => k,
    };
    match load_kernel(mem, k) {
        Ok(_) => {},
        Err(e) => return Err(e),
    }
    let (initrd_addr, initrd_size) = match initrd {
        None => (None, None),
        Some(i) => match load_initrd(mem, i) {
            Ok((a, n)) => (Some(a), Some(n)),
            Err(e) => return Err(e),
        },
    };
    match setup_cmdline(mem, cmdline) {
        Ok(()) => {},
        Err(e) => return Err(e),
    }
    setup_boot_params(mem, initrd_addr, initrd_size)
}

/// The size in bytes of a guest memory of `memory_mb` MiB.
pub fn guest_memory_bytes(memory_mb: u64) -> (r: usize)
    requires
        memory_mb * 0x10_0000 <= usize::MAX,
    ensures
        r == memory_mb * 0x10_0000,
{
    (memory_mb as usize) * 0x10_0000
}

// ---------------------------------------------------------------------------
// Before the memory is laid out
// ---------------------------------------------------------------------------

/// The KVM API version this backend speaks.
pub const KVM_API_VERSION: i32 = 12;

/// Refuses a KVM whose API version is not the one this backend speaks.
pub fn check_kvm_api_version(version: i32) -> (r: Result<(), HypervisorError>)
    ensures
        version == KVM_API_VERSION ==> r is Ok,
        version != KVM_API_VERSION ==> (r matches Err(HypervisorError::CreateFailed(m)) && m@
            == "Unsupported KVM API version: "@ + signed_decimal(version as int) + " (expected 12)"@),
{
    if version == KVM_API_VERSION {
        Ok(())
    } else {
        let a = concat("Unsupported KVM API version: ", signed_decimal_string(version).as_str());
        Err(HypervisorError::CreateFailed(concat(a.as_str(), " (expected 12)")))
    }
}

/// What a KVM VM boots: the kernel (the configured one, else
/// `CARGOBAY_KVM_KERNEL`), the initrd (likewise, with
/// `CARGOBAY_KVM_INITRD`) and the command line (`CARGOBAY_KVM_CMDLINE`,
/// else the default). Nothing is loaded when there is no kernel.
#[derive(Debug)]
pub struct KvmBootFiles {
    pub kernel: String,
    pub initrd: Option<String>,
    pub cmdline: String,
}

pub open spec fn or_else_view(a: Option<String>, b: Option<String>) -> Option<Seq<char>> {
    match a {
        Some(x) => Some(x@),
        None => match b {
            Some(y) => Some(y@),
            None => None,
        },
    }
}

pub fn kvm_boot_files(
    config_kernel: Option<String>,
    config_initrd: Option<String>,
    env_kernel: Option<String>,
    env_initrd: Option<String>,
    env_cmdline: Option<String>,
) -> (r: Option<KvmBootFiles>)
    ensures
        match or_else_view(config_kernel, env_kernel) {
            None => r is None,
            Some(k) => r matches Some(b) && {
                &&& b.kernel@ == k
                &&& match b.initrd {
                    Some(i) => or_else_view(config_initrd, env_initrd) == Some(i@),
                    None => or_else_view(config_initrd, env_initrd) is None,
                }
                &&& b.cmdline@ == match env_cmdline {
                    Some(c) => c@,
                    None => DEFAULT_CMDLINE@,
                }
            },
        },
{
    let kernel = match config_kernel {
        Some(k) => k,
        None => match env_kernel {
            Some(k) => k,
            None => return None,
        },
    };
    let initrd = match config_initrd {
        Some(i) => Some(i),
        None => env_initrd,
    };
    let cmdline = match env_cmdline {
        Some(c) => c,
        None => owned(DEFAULT_CMDLINE),
    };
    Some(KvmBootFiles { kernel, initrd, cmdline })
}

} // verus!
