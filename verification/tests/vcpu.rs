use cratebay_core::boot::{KERNEL_LOAD_ADDR, ZERO_PAGE_ADDR};
use cratebay_core::vcpu::{boot_cpu_state, vcpu_action, vcpu_count, VcpuAction, VcpuExit};

#[test]
fn serial_output_goes_to_the_console() {
    match vcpu_action(false, VcpuExit::IoOut { port: 0x3F8, data: b"hi".to_vec() }) {
        VcpuAction::Console(d) => assert_eq!(d, b"hi".to_vec()),
        other => panic!("unexpected {:?}", other),
    }
    assert!(matches!(vcpu_action(false, VcpuExit::IoOut { port: 0x3FB, data: vec![3] }), VcpuAction::Resume));
    assert!(matches!(vcpu_action(false, VcpuExit::IoOut { port: 0x80, data: vec![1] }), VcpuAction::Resume));
}

#[test]
fn serial_registers_answer_reads() {
    assert!(matches!(vcpu_action(false, VcpuExit::IoIn { port: 0x3FD }), VcpuAction::ReplyFirst(0x60)));
    assert!(matches!(vcpu_action(false, VcpuExit::IoIn { port: 0x3FE }), VcpuAction::ReplyFirst(0xB0)));
    assert!(matches!(vcpu_action(false, VcpuExit::IoIn { port: 0x3F8 }), VcpuAction::ReplyFirst(0)));
    assert!(matches!(vcpu_action(false, VcpuExit::IoIn { port: 0x3FF }), VcpuAction::ReplyFirst(0)));
    assert!(matches!(vcpu_action(false, VcpuExit::IoIn { port: 0x400 }), VcpuAction::ReplyAll(0xFF)));
    assert!(matches!(vcpu_action(false, VcpuExit::MmioRead), VcpuAction::ReplyAll(0)));
    assert!(matches!(vcpu_action(false, VcpuExit::MmioWrite), VcpuAction::Resume));
    assert!(matches!(vcpu_action(false, VcpuExit::Other), VcpuAction::Resume));
}

#[test]
fn halts_failures_and_shutdowns() {
    assert!(matches!(vcpu_action(false, VcpuExit::Hlt), VcpuAction::Idle));
    assert!(matches!(vcpu_action(true, VcpuExit::Hlt), VcpuAction::Exit));
    assert!(matches!(vcpu_action(false, VcpuExit::Shutdown), VcpuAction::StopAll));
    assert!(matches!(vcpu_action(true, VcpuExit::InternalError), VcpuAction::StopAll));
    assert!(matches!(vcpu_action(false, VcpuExit::Failed { again: true }), VcpuAction::Resume));
    assert!(matches!(vcpu_action(false, VcpuExit::Failed { again: false }), VcpuAction::StopAll));
    assert!(matches!(vcpu_action(true, VcpuExit::Failed { again: true }), VcpuAction::Exit));
}

#[test]
fn boot_registers_for_long_mode() {
    let s = boot_cpu_state();
    assert_eq!(s.rip, KERNEL_LOAD_ADDR);
    assert_eq!(s.rsi, ZERO_PAGE_ADDR);
    assert_eq!(s.rflags, 0x2);
    assert_eq!(s.cr0, 0x8000_0031);
    assert_eq!(s.cr3, 0x9000);
    assert_eq!(s.cr4, 0x20);
    assert_eq!(s.efer, 0x500);
    assert_eq!(s.cs.selector, 0x10);
    assert_eq!(s.cs.l, 1);
    assert_eq!(s.cs.type_, 0xB);
    assert_eq!(s.ds.selector, 0x18);
    assert_eq!(s.ds.db, 1);
    assert_eq!(s.ss, s.ds);
    assert_eq!(s.gs, s.ds);
}

#[test]
fn at_least_one_vcpu() {
    assert_eq!(vcpu_count(0), 1);
    assert_eq!(vcpu_count(4), 4);
}
