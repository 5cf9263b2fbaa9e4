use cratebay_core::boot::{
    check_kvm_api_version, guest_memory_bytes, kvm_boot_files, load_initrd, load_kernel, prepare_guest_memory, setup_boot_params, setup_cmdline,
    setup_page_tables, CMDLINE_ADDR, DEFAULT_CMDLINE, KERNEL_LOAD_ADDR, ZERO_PAGE_ADDR,
};
use cratebay_core::hypervisor::HypervisorError;

const MEM_SIZE: usize = 4 * 1024 * 1024;

fn read_u64(mem: &[u8], at: usize) -> u64 {
    let mut b = [0u8; 8];
    b.copy_from_slice(&mem[at..at + 8]);
    u64::from_le_bytes(b)
}

fn read_u32(mem: &[u8], at: usize) -> u32 {
    let mut b = [0u8; 4];
    b.copy_from_slice(&mem[at..at + 4]);
    u32::from_le_bytes(b)
}

#[test]
fn setup_cmdline_writes_to_guest_memory() {
    let mut guest_mem = vec![0u8; MEM_SIZE];
    let cmdline = "console=ttyS0 root=/dev/vda";
    setup_cmdline(&mut guest_mem, cmdline).unwrap();

    let offset = CMDLINE_ADDR as usize;
    assert_eq!(&guest_mem[offset..offset + cmdline.len()], cmdline.as_bytes());
    assert_eq!(guest_mem[offset + cmdline.len()], 0);
}

#[test]
fn setup_cmdline_records_pointer_and_size_in_zero_page() {
    let mut guest_mem = vec![0u8; MEM_SIZE];
    let cmdline = "console=ttyS0";
    setup_cmdline(&mut guest_mem, cmdline).unwrap();
    let z = ZERO_PAGE_ADDR as usize;
    assert_eq!(read_u32(&guest_mem, z + 0x228), CMDLINE_ADDR as u32);
    assert_eq!(read_u32(&guest_mem, z + 0x238), cmdline.len() as u32);
}

#[test]
fn setup_cmdline_refuses_memory_too_small() {
    let mut guest_mem = vec![7u8; CMDLINE_ADDR as usize + 4];
    let before = guest_mem.clone();
    let r = setup_cmdline(&mut guest_mem, "console=ttyS0");
    match r {
        Err(HypervisorError::CreateFailed(m)) => assert_eq!(m, "Command line too long for guest memory"),
        other => panic!("unexpected {:?}", other),
    }
    assert_eq!(guest_mem, before);
}

#[test]
fn setup_page_tables_creates_identity_map() {
    let mut guest_mem = vec![0u8; MEM_SIZE];
    setup_page_tables(&mut guest_mem).unwrap();

    let pml4_entry = read_u64(&guest_mem, 0x9000);
    assert_eq!(pml4_entry & !0xFFF, 0xA000);
    assert_eq!(pml4_entry & 0x3, 0x3);

    let pdpt_entry = read_u64(&guest_mem, 0xA000);
    assert_eq!(pdpt_entry & !0xFFF, 0x0);
    assert_eq!(pdpt_entry & 0x83, 0x83);
}

#[test]
fn setup_page_tables_maps_each_gib() {
    // A memory of one GiB and a byte needs a second huge page.
    let mut guest_mem = vec![0u8; 0x4000_0001];
    setup_page_tables(&mut guest_mem).unwrap();
    assert_eq!(read_u64(&guest_mem, 0xA008), 0x4000_0000 + 0x83);
    assert_eq!(read_u64(&guest_mem, 0xA010), 0);
}

#[test]
fn setup_page_tables_clears_the_rest_of_both_tables() {
    let mut guest_mem = vec![0xEEu8; MEM_SIZE];
    setup_page_tables(&mut guest_mem).unwrap();
    assert_eq!(read_u64(&guest_mem, 0x9008), 0);
    assert_eq!(read_u64(&guest_mem, 0xA008), 0);
    assert_eq!(read_u64(&guest_mem, 0xAFF8), 0);
    assert_eq!(guest_mem[0xB000], 0xEE);
    assert_eq!(guest_mem[0x8FFF], 0xEE);
}

#[test]
fn setup_page_tables_refuses_small_memory() {
    let mut guest_mem = vec![1u8; 0xA800];
    let r = setup_page_tables(&mut guest_mem);
    match r {
        Err(HypervisorError::CreateFailed(m)) => assert_eq!(m, "Not enough memory for page tables"),
        other => panic!("unexpected {:?}", other),
    }
    assert!(guest_mem.iter().all(|b| *b == 1));
}

#[test]
fn setup_boot_params_writes_e820_entry() {
    let mut guest_mem = vec![0u8; MEM_SIZE];
    setup_boot_params(&mut guest_mem, None, None).unwrap();

    let zero_page = ZERO_PAGE_ADDR as usize;
    assert_eq!(guest_mem[zero_page + 0x1E8], 1);

    let e820_offset = zero_page + 0x2D0;
    assert_eq!(read_u32(&guest_mem, e820_offset + 16), 1);
    assert_eq!(read_u64(&guest_mem, e820_offset + 8), MEM_SIZE as u64);
    assert_eq!(read_u64(&guest_mem, e820_offset), 0);
}

#[test]
fn setup_boot_params_records_header_and_initrd() {
    let mut guest_mem = vec![0u8; MEM_SIZE];
    setup_boot_params(&mut guest_mem, Some(0x30_0000), Some(0x1234)).unwrap();
    let z = ZERO_PAGE_ADDR as usize;
    assert_eq!(guest_mem[z + 0x206], 0x06);
    assert_eq!(guest_mem[z + 0x207], 0x02);
    assert_eq!(guest_mem[z + 0x210], 0xFF);
    assert_eq!(guest_mem[z + 0x211] & 1, 1);
    assert_eq!(read_u32(&guest_mem, z + 0x218), 0x30_0000);
    assert_eq!(read_u32(&guest_mem, z + 0x21C), 0x1234);
}

#[test]
fn setup_boot_params_skips_initrd_when_only_one_half_is_given() {
    let mut guest_mem = vec![0u8; MEM_SIZE];
    setup_boot_params(&mut guest_mem, Some(0x30_0000), None).unwrap();
    let z = ZERO_PAGE_ADDR as usize;
    assert_eq!(read_u32(&guest_mem, z + 0x218), 0);
    assert_eq!(read_u32(&guest_mem, z + 0x21C), 0);
}

#[test]
fn setup_boot_params_refuses_small_memory() {
    let mut guest_mem = vec![0u8; ZERO_PAGE_ADDR as usize + 100];
    match setup_boot_params(&mut guest_mem, None, None) {
        Err(HypervisorError::CreateFailed(m)) => assert_eq!(m, "Not enough memory for zero page"),
        other => panic!("unexpected {:?}", other),
    }
}

#[test]
fn load_initrd_goes_to_the_top_page() {
    let mut guest_mem = vec![0u8; MEM_SIZE];
    let data = vec![0xABu8; 5000];
    let (addr, size) = load_initrd(&mut guest_mem, &data).unwrap();
    assert_eq!(addr, ((MEM_SIZE - 5000) / 4096 * 4096) as u64);
    assert_eq!(size, 5000);
    assert_eq!(&guest_mem[addr as usize..addr as usize + 5000], &data[..]);
    assert_eq!(guest_mem[addr as usize + 5000], 0);
}

#[test]
fn load_initrd_refuses_overlap_with_kernel() {
    let mut guest_mem = vec![0u8; MEM_SIZE];
    let data = vec![1u8; MEM_SIZE - 0x10_0000];
    match load_initrd(&mut guest_mem, &data) {
        Err(HypervisorError::CreateFailed(m)) => {
            assert_eq!(m, "Not enough memory for initrd (overlaps with kernel)")
        }
        other => panic!("unexpected {:?}", other),
    }
    assert!(guest_mem.iter().all(|b| *b == 0));
}

#[test]
fn load_kernel_copies_a_raw_image() {
    let mut guest_mem = vec![0u8; MEM_SIZE];
    let kernel = vec![0x90u8; 1000];
    assert_eq!(load_kernel(&mut guest_mem, &kernel).unwrap(), KERNEL_LOAD_ADDR);
    let at = KERNEL_LOAD_ADDR as usize;
    assert_eq!(&guest_mem[at..at + 1000], &kernel[..]);
}

#[test]
fn load_kernel_splits_a_bzimage() {
    let mut guest_mem = vec![0u8; MEM_SIZE];
    let mut kernel = vec![0u8; 4096];
    kernel[0x1F1] = 2; // two setup sectors: setup is 3 * 512 bytes
    kernel[0x202..0x206].copy_from_slice(b"HdrS");
    for (i, b) in kernel.iter_mut().enumerate().skip(1536) {
        *b = (i % 251) as u8;
    }
    assert_eq!(load_kernel(&mut guest_mem, &kernel).unwrap(), KERNEL_LOAD_ADDR);
    let at = KERNEL_LOAD_ADDR as usize;
    assert_eq!(&guest_mem[at..at + 4096 - 1536], &kernel[1536..]);
    let z = ZERO_PAGE_ADDR as usize;
    assert_eq!(&guest_mem[z..z + 1536], &kernel[..1536]);
    assert_eq!(guest_mem[z + 1536], 0);
}

#[test]
fn load_kernel_refuses_truncated_bzimage() {
    let mut guest_mem = vec![0u8; MEM_SIZE];
    let mut kernel = vec![0u8; 0x300];
    kernel[0x202..0x206].copy_from_slice(b"HdrS");
    match load_kernel(&mut guest_mem, &kernel) {
        Err(HypervisorError::CreateFailed(m)) => assert_eq!(m, "bzImage setup header extends past end of file"),
        other => panic!("unexpected {:?}", other),
    }
}

#[test]
fn load_kernel_refuses_oversized_image() {
    let mut guest_mem = vec![0u8; KERNEL_LOAD_ADDR as usize + 10];
    let kernel = vec![0u8; 11];
    match load_kernel(&mut guest_mem, &kernel) {
        Err(HypervisorError::CreateFailed(m)) => {
            assert_eq!(m, "Kernel too large: 11 bytes, available: 10 bytes")
        }
        other => panic!("unexpected {:?}", other),
    }
}

#[test]
fn guest_memory_for_a_direct_boot() {
    let mut mem = vec![0u8; guest_memory_bytes(4)];
    assert_eq!(mem.len(), 4 * 1024 * 1024);
    let kernel = vec![0x90u8; 2048];
    let initrd = vec![0x11u8; 4096];
    prepare_guest_memory(&mut mem, Some(&kernel), Some(&initrd), DEFAULT_CMDLINE).unwrap();
    // Page tables, kernel, initrd, command line and boot parameters.
    assert_eq!(read_u64(&mem, 0x9000), 0xA003);
    let at = KERNEL_LOAD_ADDR as usize;
    assert_eq!(&mem[at..at + 2048], &kernel[..]);
    let initrd_at = MEM_SIZE - 4096;
    assert_eq!(&mem[initrd_at..], &initrd[..]);
    let c = CMDLINE_ADDR as usize;
    assert_eq!(&mem[c..c + DEFAULT_CMDLINE.len()], DEFAULT_CMDLINE.as_bytes());
    let z = ZERO_PAGE_ADDR as usize;
    assert_eq!(read_u32(&mem, z + 0x218), initrd_at as u32);
    assert_eq!(read_u32(&mem, z + 0x21C), 4096);
    assert_eq!(mem[z + 0x1E8], 1);
}

#[test]
fn guest_memory_without_kernel_gets_page_tables_only() {
    let mut mem = vec![0u8; MEM_SIZE];
    prepare_guest_memory(&mut mem, None, None, "console=ttyS0").unwrap();
    assert_eq!(read_u64(&mem, 0x9000), 0xA003);
    assert_eq!(mem[ZERO_PAGE_ADDR as usize + 0x1E8], 0);
    assert_eq!(mem[CMDLINE_ADDR as usize], 0);
}

#[test]
fn guest_memory_reports_the_first_failing_step() {
    let mut small = vec![0u8; 0x8000];
    match prepare_guest_memory(&mut small, Some(&[1u8; 4]), None, "x") {
        Err(HypervisorError::CreateFailed(m)) => assert_eq!(m, "Not enough memory for page tables"),
        other => panic!("unexpected {:?}", other),
    }
    let mut mem = vec![0u8; 2 * 1024 * 1024];
    let initrd = vec![1u8; 1024];
    match prepare_guest_memory(&mut mem, Some(&[0x90u8; 16]), Some(&initrd), "x") {
        Err(HypervisorError::CreateFailed(m)) => {
            assert_eq!(m, "Not enough memory for initrd (overlaps with kernel)")
        }
        other => panic!("unexpected {:?}", other),
    }
}

#[test]
fn kvm_api_version_must_be_twelve() {
    assert!(check_kvm_api_version(12).is_ok());
    match check_kvm_api_version(11) {
        Err(HypervisorError::CreateFailed(m)) => assert_eq!(m, "Unsupported KVM API version: 11 (expected 12)"),
        other => panic!("unexpected {:?}", other),
    }
    match check_kvm_api_version(-1) {
        Err(HypervisorError::CreateFailed(m)) => assert_eq!(m, "Unsupported KVM API version: -1 (expected 12)"),
        other => panic!("unexpected {:?}", other),
    }
}

#[test]
fn kvm_boot_files_prefer_the_configuration() {
    assert!(kvm_boot_files(None, Some("/i".into()), None, None, None).is_none());
    let b = kvm_boot_files(Some("/k".into()), None, Some("/ek".into()), Some("/ei".into()), None).unwrap();
    assert_eq!(b.kernel, "/k");
    assert_eq!(b.initrd.as_deref(), Some("/ei"));
    assert_eq!(b.cmdline, "console=ttyS0 noapic noacpi reboot=k panic=1 pci=off nomodules");
    let b = kvm_boot_files(None, Some("/i".into()), Some("/ek".into()), None, Some("quiet".into())).unwrap();
    assert_eq!((b.kernel.as_str(), b.initrd.as_deref(), b.cmdline.as_str()), ("/ek", Some("/i"), "quiet"));
}
