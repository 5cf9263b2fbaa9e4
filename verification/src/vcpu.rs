//! How a KVM vCPU is started and what its run loop does with each exit:
//! the register state for a 64-bit direct kernel boot, and the answer to
//! every exit that `KVM_RUN` reports.
//!
//! Running the vCPU, writing the console log and sleeping are the
//! caller's part; the caller checks the stop flag before each run.
use vstd::prelude::*;

verus! {

/// The first I/O port of COM1.
pub const SERIAL_PORT_BASE: u16 = 0x3F8;

/// The number of COM1's I/O ports.
pub const SERIAL_PORT_SIZE: u16 = 8;

/// What `KVM_RUN` reported.
#[derive(Debug)]
pub enum VcpuExit {
    /// The guest wrote `data` to an I/O port.
    IoOut { port: u16, data: Vec<u8> },
    /// The guest reads from an I/O port.
    IoIn { port: u16 },
    /// The guest reads unmapped memory.
    MmioRead,
    /// The guest writes unmapped memory.
    MmioWrite,
    /// The guest executed `HLT`.
    Hlt,
    /// The guest shut down.
    Shutdown,
    /// KVM hit an internal error.
    InternalError,
    /// Any other exit.
    Other,
    /// `KVM_RUN` itself failed; `again` when the error was `EAGAIN`.
    Failed { again: bool },
}

/// What the run loop does next.
#[derive(Debug)]
pub enum VcpuAction {
    /// Run the vCPU again.
    Resume,
    /// Append these bytes to the console log, then run again.
    Console(Vec<u8>),
    /// Answer the read with this value in its first byte, then run again.
    ReplyFirst(u8),
    /// Answer the read with every byte set to this value, then run again.
    ReplyAll(u8),
    /// Sleep briefly, then run again.
    Idle,
    /// Leave the loop.
    Exit,
    /// Raise the stop flag for every vCPU of the VM and leave the loop.
    StopAll,
}

/// A port of COM1.
pub open spec fn is_serial_port(port: u16) -> bool {
    SERIAL_PORT_BASE <= port < SERIAL_PORT_BASE + SERIAL_PORT_SIZE
}

/// What COM1 answers when the register at `offset` is read: the line
/// status says the transmitter is empty (`0x60`), the modem status says
/// carrier detect and clear to send (`0xB0`), everything else reads 0.
pub open spec fn serial_register(offset: int) -> u8 {
    if offset == 5 {
        0x60
    } else if offset == 6 {
        0xB0
    } else {
        0
    }
}

/// The answer to `exit` when the stop flag reads `stop`: bytes written to
/// COM1's data port go to the console and other port writes are dropped;
/// reads from COM1 answer its registers, reads from other ports float
/// (`0xFF`) and unmapped memory reads as zeros; a halt idles unless the VM
/// is stopping; a shutdown or an internal error stops the whole VM; a
/// failed run is retried on `EAGAIN`, ends the loop while stopping, and
/// stops the VM otherwise.
pub open spec fn vcpu_action_spec(stop: bool, exit: VcpuExit) -> VcpuAction {
    match exit {
        VcpuExit::IoOut { port, data } => if port == SERIAL_PORT_BASE {
            VcpuAction::Console(data)
        } else {
            VcpuAction::Resume
        },
        VcpuExit::IoIn { port } => if is_serial_port(port) {
            VcpuAction::ReplyFirst(serial_register(port - SERIAL_PORT_BASE))
        } else {
            VcpuAction::ReplyAll(0xFF)
        },
        VcpuExit::MmioRead => VcpuAction::ReplyAll(0),
        VcpuExit::MmioWrite => VcpuAction::Resume,
        VcpuExit::Other => VcpuAction::Resume,
        VcpuExit::Hlt => if stop {
            VcpuAction::Exit
        } else {
            VcpuAction::Idle
        },
        VcpuExit::Shutdown => VcpuAction::StopAll,
        VcpuExit::InternalError => VcpuAction::StopAll,
        VcpuExit::Failed { again } => if stop {
            VcpuAction::Exit
        } else if again {
            VcpuAction::Resume
        } else {
            VcpuAction::StopAll
        },
    }
}

/// Decides what the run loop does with `exit`; see [`vcpu_action_spec`].
pub fn vcpu_action(stop: bool, exit: VcpuExit) -> (a: VcpuAction)
    ensures
        a == vcpu_action_spec(stop, exit),
{
    match exit {
        VcpuExit::IoOut { port, data } => {
            if port == SERIAL_PORT_BASE {
                VcpuAction::Console(data)
            } else {
                VcpuAction::Resume
            }
        },
        VcpuExit::IoIn { port } => {
            if SERIAL_PORT_BASE <= port && port < SERIAL_PORT_BASE + SERIAL_PORT_SIZE {
                let offset = port - SERIAL_PORT_BASE;
                let v: u8 = if offset == 5 {
                    0x60
                } else if offset == 6 {
                    0xB0
                } else {
                    0
                };
                VcpuAction::ReplyFirst(v)
            } else {
                VcpuAction::ReplyAll(0xFF)
            }
        },
        VcpuExit::MmioRead => VcpuAction::ReplyAll(0),
        VcpuExit::MmioWrite => VcpuAction::Resume,
        VcpuExit::Other => VcpuAction::Resume,
        VcpuExit::Hlt => {
            if stop {
                VcpuAction::Exit
            } else {
                VcpuAction::Idle
            }
        },
        VcpuExit::Shutdown => VcpuAction::StopAll,
        VcpuExit::InternalError => VcpuAction::StopAll,
        VcpuExit::Failed { again } => {
            if stop {
                VcpuAction::Exit
            } else if again {
                VcpuAction::Resume
            } else {
                VcpuAction::StopAll
            }
        },
    }
}

/// A stop request is honoured: once the stop flag is up, the exits that
/// would otherwise wait or retry (a halt, a failed run) end the loop.
pub proof fn law_stop_ends_waiting(exit: VcpuExit)
    requires
        exit is Hlt || exit is Failed,
    ensures
        vcpu_action_spec(true, exit) is Exit,
{
}

/// Only a shutdown, an internal error or a failed run that is not retried
/// stops the whole VM; console output never does.
pub proof fn law_only_failures_stop_the_vm(stop: bool, exit: VcpuExit)
    ensures
        vcpu_action_spec(stop, exit) is StopAll <==> (exit is Shutdown || exit is InternalError || (
        exit matches VcpuExit::Failed { again } && !stop && !again)),
{
}

/// How many vCPUs a VM with `cpus` CPUs gets: at least one.
pub fn vcpu_count(cpus: u32) -> (n: u32)
    ensures
        n == if cpus == 0 {
            1
        } else {
            cpus
        },
{
    if cpus == 0 {
        1
    } else {
        cpus
    }
}

// ---------------------------------------------------------------------------
// Boot register state (x86_64)
// ---------------------------------------------------------------------------

/// A segment register as KVM describes it.
#[derive(Debug, Clone, Copy, PartialEq, Eq, Structural)]
pub struct Segment {
    pub base: u64,
    pub limit: u32,
    pub selector: u16,
    pub type_: u8,
    pub present: u8,
    pub dpl: u8,
    pub db: u8,
    pub s: u8,
    pub l: u8,
    pub g: u8,
}

/// The registers a vCPU is given for a 64-bit direct kernel boot; the
/// registers not named here keep the values KVM reports.
#[derive(Debug, Clone, Copy, PartialEq, Eq, Structural)]
pub struct BootCpuState {
    pub cs: Segment,
    pub ds: Segment,
    pub es: Segment,
    pub fs: Segment,
    pub gs: Segment,
    pub ss: Segment,
    pub cr0: u64,
    pub cr3: u64,
    pub cr4: u64,
    pub efer: u64,
    pub rflags: u64,
    pub rip: u64,
    pub rsi: u64,
    pub rsp: u64,
}

/// The flat 64-bit code segment (selector `0x10`, execute/read).
pub open spec fn code_segment() -> Segment {
    Segment { base: 0, limit: 0xFFFF_FFFF, selector: 0x10, type_: 0xB, present: 1, dpl: 0, db: 0, s: 1, l: 1, g: 1 }
}

/// The flat data segment (selector `0x18`, read/write).
pub open spec fn data_segment() -> Segment {
    Segment { base: 0, limit: 0xFFFF_FFFF, selector: 0x18, type_: 0x3, present: 1, dpl: 0, db: 1, s: 1, l: 0, g: 1 }
}

/// Long mode with paging (`CR0` = PG|PE|ET|WP, `CR4` = PAE, `EFER` =
/// LME|LMA), the page tables at `0x9000`, and the entry at the kernel's
/// load address with `RSI` pointing at the zero page.
pub open spec fn boot_cpu_state_spec() -> BootCpuState {
    BootCpuState {
        cs: code_segment(),
        ds: data_segment(),
        es: data_segment(),
        fs: data_segment(),
        gs: data_segment(),
        ss: data_segment(),
        cr0: 0x8000_0031,
        cr3: 0x9000,
        cr4: 0x20,
        efer: 0x500,
        rflags: 0x2,
        rip: crate::boot::KERNEL_LOAD_ADDR,
        rsi: crate::boot::ZERO_PAGE_ADDR,
        rsp: 0,
    }
}

/// The register state for a 64-bit direct kernel boot.
pub fn boot_cpu_state() -> (s: BootCpuState)
    ensures
        s == boot_cpu_state_spec(),
{
    let ds = Segment {
        base: 0,
        limit: 0xFFFF_FFFF,
        selector: 0x18,
        type_: 0x3,
        present: 1,
        dpl: 0,
        db: 1,
        s: 1,
        l: 0,
        g: 1,
    };
    BootCpuState {
        cs: Segment {
            base: 0,
            limit: 0xFFFF_FFFF,
            selector: 0x10,
            type_: 0xB,
            present: 1,
            dpl: 0,
            db: 0,
            s: 1,
            l: 1,
            g: 1,
        },
        ds,
        es: ds,
        fs: ds,
        gs: ds,
        ss: ds,
        cr0: 0x8000_0031,
        cr3: 0x9000,
        cr4: 0x20,
        efer: 0x500,
        rflags: 0x2,
        rip: crate::boot::KERNEL_LOAD_ADDR,
        rsi: crate::boot::ZERO_PAGE_ADDR,
        rsp: 0,
    }
}

} // verus!
