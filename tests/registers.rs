use gdbserver::regs::{BLOCK_LEN, SLOT_COUNT};
use gdbserver::kernel::{UserFpRegs, UserRegs};
use gdbserver::Registers;

fn sample_block() -> Vec<u8> {
    (0..BLOCK_LEN).map(|i| (i * 31 + 7) as u8).collect()
}

#[test]
fn block_layout_constants() {
    assert_eq!(BLOCK_LEN, 560);
    assert_eq!(SLOT_COUNT, 60);
}

#[test]
fn encode_of_empty_is_all_zero() {
    let mut out = Vec::new();
    Registers::empty().encode(&mut out);
    assert_eq!(out.len(), 560);
    assert!(out.iter().all(|&b| b == 0));
}

#[test]
fn encode_appends_to_output() {
    let mut out = vec![0xEE, 0xFF];
    Registers::default().encode(&mut out);
    assert_eq!(out.len(), 562);
    assert_eq!(&out[..2], &[0xEE, 0xFF]);
}

#[test]
fn encode_places_fields_little_endian() {
    let mut regs = Registers::empty();
    regs.rax = Some(0x0102_0304_0506_0708);
    regs.rip = Some(0x1122_3344_5566_7788);
    regs.eflags = Some(0xAABB_CCDD);
    regs.gs = Some(0x2B);
    regs.st0 = Some(0x0A09_0807_0605_0403_0201);
    regs.fctrl = Some(0x037F);
    regs.xmm0 = Some(0x0F0E_0D0C_0B0A_0908_0706_0504_0302_0100);
    regs.mxcsr = Some(0x1F80);
    regs.orig_rax = Some(u64::MAX);
    regs.fs_base = Some(0x7F00_0000_1000);
    regs.gs_base = Some(1);
    let mut out = Vec::new();
    regs.encode(&mut out);
    assert_eq!(out.len(), 560);
    assert_eq!(&out[0..8], &[8, 7, 6, 5, 4, 3, 2, 1]);
    assert_eq!(&out[128..136], &[0x88, 0x77, 0x66, 0x55, 0x44, 0x33, 0x22, 0x11]);
    assert_eq!(&out[136..140], &[0xDD, 0xCC, 0xBB, 0xAA]);
    assert_eq!(&out[160..164], &[0x2B, 0, 0, 0]);
    assert_eq!(&out[164..174], &[1, 2, 3, 4, 5, 6, 7, 8, 9, 10]);
    assert_eq!(&out[174..184], &[0; 10]);
    assert_eq!(&out[244..248], &[0x7F, 0x03, 0, 0]);
    assert_eq!(out[276..292].to_vec(), (0u8..16).collect::<Vec<u8>>());
    assert_eq!(&out[532..536], &[0x80, 0x1F, 0, 0]);
    assert_eq!(&out[536..544], &[0xFF; 8]);
    assert_eq!(&out[544..552], &[0, 0x10, 0, 0, 0, 0x7F, 0, 0]);
    assert_eq!(&out[552..560], &[1, 0, 0, 0, 0, 0, 0, 0]);
}

#[test]
fn decode_reads_every_field() {
    let block = sample_block();
    let regs = Registers::decode(&block);
    let word = |at: usize, n: usize| -> u128 {
        let mut v: u128 = 0;
        for k in (0..n).rev() {
            v = (v << 8) | block[at + k] as u128;
        }
        v
    };
    assert_eq!(regs.rax, Some(word(0, 8) as u64));
    assert_eq!(regs.r15, Some(word(120, 8) as u64));
    assert_eq!(regs.rip, Some(word(128, 8) as u64));
    assert_eq!(regs.eflags, Some(word(136, 4) as u32));
    assert_eq!(regs.st0, Some(word(164, 10)));
    assert_eq!(regs.st7, Some(word(234, 10)));
    assert_eq!(regs.fop, Some(word(272, 4) as u32));
    assert_eq!(regs.xmm15, Some(word(516, 16)));
    assert_eq!(regs.mxcsr, Some(word(532, 4) as u32));
    assert_eq!(regs.orig_rax, Some(word(536, 8) as u64));
    assert_eq!(regs.gs_base, Some(word(552, 8) as u64));
}

#[test]
fn encode_of_decode_gives_block_back() {
    let block = sample_block();
    let mut out = Vec::new();
    Registers::decode(&block).encode(&mut out);
    assert_eq!(out, block);
}

#[test]
fn decode_of_encode_fills_absent_with_zero() {
    let mut regs = Registers::empty();
    regs.rbx = Some(42);
    regs.ss = Some(0x2B);
    regs.st3 = Some((1u128 << 79) | 5);
    regs.xmm7 = Some(u128::MAX);
    let mut out = Vec::new();
    regs.encode(&mut out);
    let back = Registers::decode(&out);
    assert_eq!(back.rbx, Some(42));
    assert_eq!(back.ss, Some(0x2B));
    assert_eq!(back.st3, Some((1u128 << 79) | 5));
    assert_eq!(back.xmm7, Some(u128::MAX));
    assert_eq!(back.rax, Some(0));
    assert_eq!(back.st0, Some(0));
    assert_eq!(back.gs_base, Some(0));
}

#[test]
fn merged_over_keeps_absent_registers() {
    let current = Registers::decode(&sample_block());
    let mut update = Registers::empty();
    update.rax = Some(42);
    update.xmm3 = Some(7);
    let merged = update.merged_over(&current);
    assert_eq!(merged.rax, Some(42));
    assert_eq!(merged.xmm3, Some(7));
    assert_eq!(merged.rbx, current.rbx);
    assert_eq!(merged.st2, current.st2);
    assert_eq!(merged.gs_base, current.gs_base);
}

#[test]
fn merged_over_absent_in_both_stays_absent() {
    let mut current = Registers::empty();
    current.rcx = Some(9);
    let merged = Registers::empty().merged_over(&current);
    assert_eq!(merged.rcx, Some(9));
    assert_eq!(merged.rdx, None);
}

fn sample_user() -> (UserRegs, UserFpRegs) {
    let gp = UserRegs {
        r15: 15, r14: 14, r13: 13, r12: 12, rbp: 0x7ffd_0000, rbx: 3, r11: 11, r10: 10, r9: 9, r8: 8,
        rax: 42, rcx: 2, rdx: 4, rsi: 5, rdi: 6, orig_rax: u64::MAX, rip: 0x40_1000, cs: 0x33,
        eflags: 0x1_0000_0246, rsp: 0x7ffd_1000, ss: 0x2b, fs_base: 0x7f00_0000, gs_base: 0, ds: 0,
        es: 0, fs: 0, gs: 0,
    };
    let mut st_space = vec![0u32; 32];
    st_space[0] = 0x0403_0201;
    st_space[1] = 0x0807_0605;
    st_space[2] = 0xFFFF_0A09;
    st_space[3] = 0xFFFF_FFFF;
    let mut xmm_space = vec![0u32; 64];
    xmm_space[4] = 1;
    xmm_space[7] = 0x8000_0000;
    let fp = UserFpRegs {
        cwd: 0x037f, swd: 0x1234, ftw: 0xff, fop: 0x55, rip: 0, rdp: 0, mxcsr: 0x1f80,
        mxcr_mask: 0xffff, st_space, xmm_space,
    };
    (gp, fp)
}

#[test]
fn registers_from_kernel_sets() {
    let (gp, fp) = sample_user();
    let regs = Registers::from_user(&gp, &fp);
    assert_eq!(regs.rax, Some(42));
    assert_eq!(regs.rip, Some(0x40_1000));
    assert_eq!(regs.eflags, Some(0x246));
    assert_eq!(regs.cs, Some(0x33));
    assert_eq!(regs.st0, Some(0x0A09_0807_0605_0403_0201));
    assert_eq!(regs.xmm1, Some(1 | (0x8000_0000u128 << 96)));
    assert_eq!(regs.fctrl, Some(0x037f));
    assert_eq!(regs.fop, Some(0x55));
    assert_eq!(regs.fstat, None);
    assert_eq!(regs.mxcsr, Some(0x1f80));
    assert_eq!(regs.orig_rax, Some(u64::MAX));
    assert_eq!(regs.fs_base, Some(0x7f00_0000));
    let mut out = Vec::new();
    regs.encode(&mut out);
    assert_eq!(out.len(), 560);
}

#[test]
fn registers_into_kernel_sets() {
    let (mut gp, mut fp) = sample_user();
    let mut update = Registers::empty();
    update.rax = Some(7);
    update.cs = Some(0x23);
    update.st1 = Some(0xAABB);
    update.xmm15 = Some(u128::MAX);
    update.fctrl = Some(0x1_0277);
    update.store_user(&mut gp, &mut fp);
    assert_eq!(gp.rax, 7);
    assert_eq!(gp.cs, 0x23);
    assert_eq!(gp.rbx, 3);
    assert_eq!(gp.eflags, 0x1_0000_0246);
    assert_eq!(&fp.st_space[4..8], &[0xAABB, 0, 0, 0]);
    assert_eq!(fp.st_space[0], 0x0403_0201);
    assert_eq!(&fp.xmm_space[60..64], &[u32::MAX; 4]);
    assert_eq!(fp.cwd, 0x0277);
    assert_eq!(fp.swd, 0x1234);
    assert_eq!(fp.mxcsr, 0x1f80);
}
