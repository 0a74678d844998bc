//! The register sets as Linux's ptrace hands them out on x86_64, and their
//! mapping to and from the register file that GDB sees.

use crate::regs::{lemma_wf_of_x87, Registers};
use vstd::prelude::*;

verus! {

/// Mask of the 80 bits that an x87 register uses in its 128-bit cell.
pub const X87_MASK: u128 = 0xFFFF_FFFF_FFFF_FFFF_FFFF;

/// The general registers, field for field as `PTRACE_GETREGS` fills
/// `struct user_regs_struct`.
pub struct UserRegs {
    pub r15: u64,
    pub r14: u64,
    pub r13: u64,
    pub r12: u64,
    pub rbp: u64,
    pub rbx: u64,
    pub r11: u64,
    pub r10: u64,
    pub r9: u64,
    pub r8: u64,
    pub rax: u64,
    pub rcx: u64,
    pub rdx: u64,
    pub rsi: u64,
    pub rdi: u64,
    pub orig_rax: u64,
    pub rip: u64,
    pub cs: u64,
    pub eflags: u64,
    pub rsp: u64,
    pub ss: u64,
    pub fs_base: u64,
    pub gs_base: u64,
    pub ds: u64,
    pub es: u64,
    pub fs: u64,
    pub gs: u64,
}

/// The x87 and SSE registers, field for field as `PTRACE_GETFPREGS` fills
/// `struct user_fpregs_struct`: each x87 and SSE register takes four 32-bit
/// words, least significant first.
pub struct UserFpRegs {
    pub cwd: u16,
    pub swd: u16,
    pub ftw: u16,
    pub fop: u16,
    pub rip: u64,
    pub rdp: u64,
    pub mxcsr: u32,
    pub mxcr_mask: u32,
    pub st_space: Vec<u32>,
    pub xmm_space: Vec<u32>,
}

impl UserFpRegs {
    /// Eight x87 cells and sixteen SSE cells of four words each.
    pub open spec fn wf(&self) -> bool {
        self.st_space@.len() == 32 && self.xmm_space@.len() == 64
    }
}

/// The 128-bit cell `i` of `words`.
pub open spec fn cell_of(words: Seq<u32>, i: int) -> u128 {
    (words[4 * i] as u128) | ((words[4 * i + 1] as u128) << 32u128) | ((words[4 * i + 2] as u128)
        << 64u128) | ((words[4 * i + 3] as u128) << 96u128)
}

/// `words` with cell `i` replaced by `v` where `v` is present.
pub open spec fn put_cell(words: Seq<u32>, i: int, v: Option<u128>) -> Seq<u32> {
    match v {
        None => words,
        Some(x) => words.update(4 * i, x as u32).update(4 * i + 1, (x >> 32u128) as u32).update(
            4 * i + 2,
            (x >> 64u128) as u32,
        ).update(4 * i + 3, (x >> 96u128) as u32),
    }
}

/// `new` where it is present, else `current`.
pub open spec fn keep<T>(new: Option<T>, current: T) -> T {
    match new {
        Some(v) => v,
        None => current,
    }
}

/// A 32-bit register as the 64-bit field that holds it.
pub open spec fn widen(o: Option<u32>) -> Option<u64> {
    match o {
        Some(v) => Some(v as u64),
        None => None,
    }
}

/// A 32-bit register as the 16-bit field that holds it.
pub open spec fn narrow(o: Option<u32>) -> Option<u16> {
    match o {
        Some(v) => Some(v as u16),
        None => None,
    }
}

fn cell(words: &Vec<u32>, i: usize) -> (r: u128)
    requires
        i < 16,
        4 * i + 4 <= words@.len(),
    ensures
        r == cell_of(words@, i as int),
{
    (words[4 * i] as u128) | ((words[4 * i + 1] as u128) << 32u128) | ((words[4 * i + 2] as u128)
        << 64u128) | ((words[4 * i + 3] as u128) << 96u128)
}

fn put_cell_exec(words: &mut Vec<u32>, i: usize, v: Option<u128>)
    requires
        i < 16,
        4 * i + 4 <= old(words)@.len(),
    ensures
        final(words)@ == put_cell(old(words)@, i as int, v),
{
    if let Some(x) = v {
        words.set(4 * i, x as u32);
        words.set(4 * i + 1, (x >> 32u128) as u32);
        words.set(4 * i + 2, (x >> 64u128) as u32);
        words.set(4 * i + 3, (x >> 96u128) as u32);
    }
}

proof fn lemma_masked_fits(x: u128)
    ensures
        x & X87_MASK < 0x1_0000_0000_0000_0000_0000,
{
    assert(x & 0xFFFF_FFFF_FFFF_FFFF_FFFF < 0x1_0000_0000_0000_0000_0000) by (bit_vector);
}

fn keep_value<T: Copy>(new: Option<T>, current: T) -> (r: T)
    ensures
        r == keep(new, current),
{
    match new {
        Some(v) => v,
        None => current,
    }
}

fn widen_exec(o: Option<u32>) -> (r: Option<u64>)
    ensures
        r == widen(o),
{
    match o {
        Some(v) => Some(v as u64),
        None => None,
    }
}

fn narrow_exec(o: Option<u32>) -> (r: Option<u16>)
    ensures
        r == narrow(o),
{
    match o {
        Some(v) => Some(v as u16),
        None => None,
    }
}

impl Registers {
    /// The register file that the kernel's register sets describe: every
    /// general, segment, x87 and SSE register, `fctrl`, `fop`, `mxcsr`,
    /// `orig_rax`, `fs_base` and `gs_base`; the segment registers and
    /// `eflags` cut to 32 bits and the x87 registers to 80.
    pub open spec fn of_user(gp: UserRegs, fp: UserFpRegs) -> Registers {
        Registers {
            rax: Some(gp.rax),
            rbx: Some(gp.rbx),
            rcx: Some(gp.rcx),
            rdx: Some(gp.rdx),
            rsi: Some(gp.rsi),
            rdi: Some(gp.rdi),
            rbp: Some(gp.rbp),
            rsp: Some(gp.rsp),
            r8: Some(gp.r8),
            r9: Some(gp.r9),
            r10: Some(gp.r10),
            r11: Some(gp.r11),
            r12: Some(gp.r12),
            r13: Some(gp.r13),
            r14: Some(gp.r14),
            r15: Some(gp.r15),
            rip: Some(gp.rip),
            eflags: Some(gp.eflags as u32),
            cs: Some(gp.cs as u32),
            ss: Some(gp.ss as u32),
            ds: Some(gp.ds as u32),
            es: Some(gp.es as u32),
            fs: Some(gp.fs as u32),
            gs: Some(gp.gs as u32),
            st0: Some(cell_of(fp.st_space@, 0) & X87_MASK),
            st1: Some(cell_of(fp.st_space@, 1) & X87_MASK),
            st2: Some(cell_of(fp.st_space@, 2) & X87_MASK),
            st3: Some(cell_of(fp.st_space@, 3) & X87_MASK),
            st4: Some(cell_of(fp.st_space@, 4) & X87_MASK),
            st5: Some(cell_of(fp.st_space@, 5) & X87_MASK),
            st6: Some(cell_of(fp.st_space@, 6) & X87_MASK),
            st7: Some(cell_of(fp.st_space@, 7) & X87_MASK),
            fctrl: Some(fp.cwd as u32),
            fstat: None,
            ftag: None,
            fiseg: None,
            fioff: None,
            foseg: None,
            fooff: None,
            fop: Some(fp.fop as u32),
            xmm0: Some(cell_of(fp.xmm_space@, 0)),
            xmm1: Some(cell_of(fp.xmm_space@, 1)),
            xmm2: Some(cell_of(fp.xmm_space@, 2)),
            xmm3: Some(cell_of(fp.xmm_space@, 3)),
            xmm4: Some(cell_of(fp.xmm_space@, 4)),
            xmm5: Some(cell_of(fp.xmm_space@, 5)),
            xmm6: Some(cell_of(fp.xmm_space@, 6)),
            xmm7: Some(cell_of(fp.xmm_space@, 7)),
            xmm8: Some(cell_of(fp.xmm_space@, 8)),
            xmm9: Some(cell_of(fp.xmm_space@, 9)),
            xmm10: Some(cell_of(fp.xmm_space@, 10)),
            xmm11: Some(cell_of(fp.xmm_space@, 11)),
            xmm12: Some(cell_of(fp.xmm_space@, 12)),
            xmm13: Some(cell_of(fp.xmm_space@, 13)),
            xmm14: Some(cell_of(fp.xmm_space@, 14)),
            xmm15: Some(cell_of(fp.xmm_space@, 15)),
            mxcsr: Some(fp.mxcsr),
            orig_rax: Some(gp.orig_rax),
            fs_base: Some(gp.fs_base),
            gs_base: Some(gp.gs_base),
        }
    }

    /// Reads the register file from the kernel's register sets.
    pub fn from_user(gp: &UserRegs, fp: &UserFpRegs) -> (r: Registers)
        requires
            fp.wf(),
        ensures
            r == Registers::of_user(*gp, *fp),
            r.wf(),
    {
        let r = Registers {
            rax: Some(gp.rax),
            rbx: Some(gp.rbx),
            rcx: Some(gp.rcx),
            rdx: Some(gp.rdx),
            rsi: Some(gp.rsi),
            rdi: Some(gp.rdi),
            rbp: Some(gp.rbp),
            rsp: Some(gp.rsp),
            r8: Some(gp.r8),
            r9: Some(gp.r9),
            r10: Some(gp.r10),
            r11: Some(gp.r11),
            r12: Some(gp.r12),
            r13: Some(gp.r13),
            r14: Some(gp.r14),
            r15: Some(gp.r15),
            rip: Some(gp.rip),
            eflags: Some(gp.eflags as u32),
            cs: Some(gp.cs as u32),
            ss: Some(gp.ss as u32),
            ds: Some(gp.ds as u32),
            es: Some(gp.es as u32),
            fs: Some(gp.fs as u32),
            gs: Some(gp.gs as u32),
            st0: Some(cell(&fp.st_space, 0) & X87_MASK),
            st1: Some(cell(&fp.st_space, 1) & X87_MASK),
            st2: Some(cell(&fp.st_space, 2) & X87_MASK),
            st3: Some(cell(&fp.st_space, 3) & X87_MASK),
            st4: Some(cell(&fp.st_space, 4) & X87_MASK),
            st5: Some(cell(&fp.st_space, 5) & X87_MASK),
            st6: Some(cell(&fp.st_space, 6) & X87_MASK),
            st7: Some(cell(&fp.st_space, 7) & X87_MASK),
            fctrl: Some(fp.cwd as u32),
            fstat: None,
            ftag: None,
            fiseg: None,
            fioff: None,
            foseg: None,
            fooff: None,
            fop: Some(fp.fop as u32),
            xmm0: Some(cell(&fp.xmm_space, 0)),
            xmm1: Some(cell(&fp.xmm_space, 1)),
            xmm2: Some(cell(&fp.xmm_space, 2)),
            xmm3: Some(cell(&fp.xmm_space, 3)),
            xmm4: Some(cell(&fp.xmm_space, 4)),
            xmm5: Some(cell(&fp.xmm_space, 5)),
            xmm6: Some(cell(&fp.xmm_space, 6)),
            xmm7: Some(cell(&fp.xmm_space, 7)),
            xmm8: Some(cell(&fp.xmm_space, 8)),
            xmm9: Some(cell(&fp.xmm_space, 9)),
            xmm10: Some(cell(&fp.xmm_space, 10)),
            xmm11: Some(cell(&fp.xmm_space, 11)),
            xmm12: Some(cell(&fp.xmm_space, 12)),
            xmm13: Some(cell(&fp.xmm_space, 13)),
            xmm14: Some(cell(&fp.xmm_space, 14)),
            xmm15: Some(cell(&fp.xmm_space, 15)),
            mxcsr: Some(fp.mxcsr),
            orig_rax: Some(gp.orig_rax),
            fs_base: Some(gp.fs_base),
            gs_base: Some(gp.gs_base),
        };
        proof {
            lemma_masked_fits(cell_of(fp.st_space@, 0));
            lemma_masked_fits(cell_of(fp.st_space@, 1));
            lemma_masked_fits(cell_of(fp.st_space@, 2));
            lemma_masked_fits(cell_of(fp.st_space@, 3));
            lemma_masked_fits(cell_of(fp.st_space@, 4));
            lemma_masked_fits(cell_of(fp.st_space@, 5));
            lemma_masked_fits(cell_of(fp.st_space@, 6));
            lemma_masked_fits(cell_of(fp.st_space@, 7));
            lemma_wf_of_x87(r);
        }
        r
    }

    /// The general register set after the registers present here are
    /// written over `old`.
    pub open spec fn stored_int(&self, prev: UserRegs) -> UserRegs {
        UserRegs {
            r15: keep(self.r15, prev.r15),
            r14: keep(self.r14, prev.r14),
            r13: keep(self.r13, prev.r13),
            r12: keep(self.r12, prev.r12),
            rbp: keep(self.rbp, prev.rbp),
            rbx: keep(self.rbx, prev.rbx),
            r11: keep(self.r11, prev.r11),
            r10: keep(self.r10, prev.r10),
            r9: keep(self.r9, prev.r9),
            r8: keep(self.r8, prev.r8),
            rax: keep(self.rax, prev.rax),
            rcx: keep(self.rcx, prev.rcx),
            rdx: keep(self.rdx, prev.rdx),
            rsi: keep(self.rsi, prev.rsi),
            rdi: keep(self.rdi, prev.rdi),
            orig_rax: keep(self.orig_rax, prev.orig_rax),
            rip: keep(self.rip, prev.rip),
            cs: keep(widen(self.cs), prev.cs),
            eflags: keep(widen(self.eflags), prev.eflags),
            rsp: keep(self.rsp, prev.rsp),
            ss: keep(widen(self.ss), prev.ss),
            fs_base: keep(self.fs_base, prev.fs_base),
            gs_base: keep(self.gs_base, prev.gs_base),
            ds: keep(widen(self.ds), prev.ds),
            es: keep(widen(self.es), prev.es),
            fs: keep(widen(self.fs), prev.fs),
            gs: keep(widen(self.gs), prev.gs),
        }
    }

    /// The x87 cells after the x87 registers present here are written over
    /// `words`.
    pub open spec fn stored_st(&self, words: Seq<u32>) -> Seq<u32> {
        let w = words;
        let w = put_cell(w, 0, self.st0);
        let w = put_cell(w, 1, self.st1);
        let w = put_cell(w, 2, self.st2);
        let w = put_cell(w, 3, self.st3);
        let w = put_cell(w, 4, self.st4);
        let w = put_cell(w, 5, self.st5);
        let w = put_cell(w, 6, self.st6);
        put_cell(w, 7, self.st7)
    }

    /// The SSE cells after the SSE registers present here are written over
    /// `words`.
    pub open spec fn stored_xmm(&self, words: Seq<u32>) -> Seq<u32> {
        let w = words;
        let w = put_cell(w, 0, self.xmm0);
        let w = put_cell(w, 1, self.xmm1);
        let w = put_cell(w, 2, self.xmm2);
        let w = put_cell(w, 3, self.xmm3);
        let w = put_cell(w, 4, self.xmm4);
        let w = put_cell(w, 5, self.xmm5);
        let w = put_cell(w, 6, self.xmm6);
        let w = put_cell(w, 7, self.xmm7);
        let w = put_cell(w, 8, self.xmm8);
        let w = put_cell(w, 9, self.xmm9);
        let w = put_cell(w, 10, self.xmm10);
        let w = put_cell(w, 11, self.xmm11);
        let w = put_cell(w, 12, self.xmm12);
        let w = put_cell(w, 13, self.xmm13);
        let w = put_cell(w, 14, self.xmm14);
        put_cell(w, 15, self.xmm15)
    }

    fn store_gp(&self, gp: &mut UserRegs)
        ensures
            *final(gp) == self.stored_int(*old(gp)),
    {
        *gp = UserRegs {
            r15: keep_value(self.r15, gp.r15),
            r14: keep_value(self.r14, gp.r14),
            r13: keep_value(self.r13, gp.r13),
            r12: keep_value(self.r12, gp.r12),
            rbp: keep_value(self.rbp, gp.rbp),
            rbx: keep_value(self.rbx, gp.rbx),
            r11: keep_value(self.r11, gp.r11),
            r10: keep_value(self.r10, gp.r10),
            r9: keep_value(self.r9, gp.r9),
            r8: keep_value(self.r8, gp.r8),
            rax: keep_value(self.rax, gp.rax),
            rcx: keep_value(self.rcx, gp.rcx),
            rdx: keep_value(self.rdx, gp.rdx),
            rsi: keep_value(self.rsi, gp.rsi),
            rdi: keep_value(self.rdi, gp.rdi),
            orig_rax: keep_value(self.orig_rax, gp.orig_rax),
            rip: keep_value(self.rip, gp.rip),
            cs: keep_value(widen_exec(self.cs), gp.cs),
            eflags: keep_value(widen_exec(self.eflags), gp.eflags),
            rsp: keep_value(self.rsp, gp.rsp),
            ss: keep_value(widen_exec(self.ss), gp.ss),
            fs_base: keep_value(self.fs_base, gp.fs_base),
            gs_base: keep_value(self.gs_base, gp.gs_base),
            ds: keep_value(widen_exec(self.ds), gp.ds),
            es: keep_value(widen_exec(self.es), gp.es),
            fs: keep_value(widen_exec(self.fs), gp.fs),
            gs: keep_value(widen_exec(self.gs), gp.gs),
        };
    }

    fn store_fp(&self, fp: &mut UserFpRegs)
        requires
            old(fp).wf(),
        ensures
            final(fp).wf(),
            final(fp).cwd == keep(narrow(self.fctrl), old(fp).cwd),
            final(fp).fop == keep(narrow(self.fop), old(fp).fop),
            final(fp).mxcsr == keep(self.mxcsr, old(fp).mxcsr),
            final(fp).swd == old(fp).swd,
            final(fp).ftw == old(fp).ftw,
            final(fp).rip == old(fp).rip,
            final(fp).rdp == old(fp).rdp,
            final(fp).mxcr_mask == old(fp).mxcr_mask,
            final(fp).st_space@ == self.stored_st(old(fp).st_space@),
            final(fp).xmm_space@ == self.stored_xmm(old(fp).xmm_space@),
    {
        fp.cwd = keep_value(narrow_exec(self.fctrl), fp.cwd);
        fp.fop = keep_value(narrow_exec(self.fop), fp.fop);
        fp.mxcsr = keep_value(self.mxcsr, fp.mxcsr);
        put_cell_exec(&mut fp.st_space, 0, self.st0);
        put_cell_exec(&mut fp.st_space, 1, self.st1);
        put_cell_exec(&mut fp.st_space, 2, self.st2);
        put_cell_exec(&mut fp.st_space, 3, self.st3);
        put_cell_exec(&mut fp.st_space, 4, self.st4);
        put_cell_exec(&mut fp.st_space, 5, self.st5);
        put_cell_exec(&mut fp.st_space, 6, self.st6);
        put_cell_exec(&mut fp.st_space, 7, self.st7);
        put_cell_exec(&mut fp.xmm_space, 0, self.xmm0);
        put_cell_exec(&mut fp.xmm_space, 1, self.xmm1);
        put_cell_exec(&mut fp.xmm_space, 2, self.xmm2);
        put_cell_exec(&mut fp.xmm_space, 3, self.xmm3);
        put_cell_exec(&mut fp.xmm_space, 4, self.xmm4);
        put_cell_exec(&mut fp.xmm_space, 5, self.xmm5);
        put_cell_exec(&mut fp.xmm_space, 6, self.xmm6);
        put_cell_exec(&mut fp.xmm_space, 7, self.xmm7);
        put_cell_exec(&mut fp.xmm_space, 8, self.xmm8);
        put_cell_exec(&mut fp.xmm_space, 9, self.xmm9);
        put_cell_exec(&mut fp.xmm_space, 10, self.xmm10);
        put_cell_exec(&mut fp.xmm_space, 11, self.xmm11);
        put_cell_exec(&mut fp.xmm_space, 12, self.xmm12);
        put_cell_exec(&mut fp.xmm_space, 13, self.xmm13);
        put_cell_exec(&mut fp.xmm_space, 14, self.xmm14);
        put_cell_exec(&mut fp.xmm_space, 15, self.xmm15);
    }

    /// Writes the registers present here into the kernel's register sets,
    /// keeping every other field as it is.
    pub fn store_user(&self, gp: &mut UserRegs, fp: &mut UserFpRegs)
        requires
            old(fp).wf(),
        ensures
            *final(gp) == self.stored_int(*old(gp)),
            final(fp).wf(),
            final(fp).cwd == keep(narrow(self.fctrl), old(fp).cwd),
            final(fp).fop == keep(narrow(self.fop), old(fp).fop),
            final(fp).mxcsr == keep(self.mxcsr, old(fp).mxcsr),
            final(fp).swd == old(fp).swd,
            final(fp).ftw == old(fp).ftw,
            final(fp).rip == old(fp).rip,
            final(fp).rdp == old(fp).rdp,
            final(fp).mxcr_mask == old(fp).mxcr_mask,
            final(fp).st_space@ == self.stored_st(old(fp).st_space@),
            final(fp).xmm_space@ == self.stored_xmm(old(fp).xmm_space@),
    {
        self.store_gp(gp);
        self.store_fp(fp);
    }
}

} // verus!
