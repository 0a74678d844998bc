//! The x86_64 register block exchanged with GDB, in the `amd64-linux` layout:
//! sixty slots in a fixed order, each a little-endian integer of fixed width,
//! 560 bytes in all.

use crate::wire::{
    le_bytes, le_value, lemma_le_bytes_len, lemma_le_bytes_of_value, lemma_le_value_bound,
    lemma_le_value_of_bytes, lemma_pow256_widths, pow256, push_le, read_le,
};
use vstd::prelude::*;

verus! {

/// Number of slots in the register block.
pub const SLOT_COUNT: usize = 60;

/// Length in bytes of the register block.
pub const BLOCK_LEN: usize = 560;

/// Width in bytes of slot `i` on the wire: sixteen general registers and
/// `rip` (8), `eflags` and six segment registers (4), `st0..st7` (10), eight
/// x87 control words (4), `xmm0..xmm15` (16), `mxcsr` (4), then `orig_rax`,
/// `fs_base` and `gs_base` (8).
pub open spec fn slot_width(i: int) -> nat {
    if i < 17 {
        8
    } else if i < 24 {
        4
    } else if i < 32 {
        10
    } else if i < 40 {
        4
    } else if i < 56 {
        16
    } else if i == 56 {
        4
    } else {
        8
    }
}

/// Offset in bytes of slot `i` in the block: the widths of the slots before it.
pub open spec fn slot_offset(i: nat) -> nat
    decreases i,
{
    if i == 0 {
        0
    } else {
        slot_offset((i - 1) as nat) + slot_width(i - 1)
    }
}

/// What goes on the wire for a slot: its value, or zero when it is absent.
pub open spec fn fill(slot: Option<nat>) -> nat {
    match slot {
        Some(v) => v,
        None => 0,
    }
}

/// The first `n` slots of `slots`, encoded one after another.
pub open spec fn wire_prefix(slots: Seq<Option<nat>>, n: nat) -> Seq<u8>
    decreases n,
{
    if n == 0 {
        Seq::empty()
    } else {
        wire_prefix(slots, (n - 1) as nat) + le_bytes(
            fill(slots[n - 1]),
            slot_width(n - 1),
        )
    }
}

/// The register block that holds `slots`, absent slots written as zero.
pub open spec fn wire_of(slots: Seq<Option<nat>>) -> Seq<u8> {
    wire_prefix(slots, SLOT_COUNT as nat)
}

/// Where slot `i` starts in the block.
pub open spec fn slot_start(i: int) -> int {
    slot_offset(i as nat) as int
}

/// Where slot `i` ends in the block.
pub open spec fn slot_end(i: int) -> int {
    (slot_offset(i as nat) + slot_width(i)) as int
}

/// The bytes of slot `i` in a block.
pub open spec fn slot_bytes(block: Seq<u8>, i: int) -> Seq<u8> {
    block.subrange(slot_start(i), slot_end(i))
}

/// The slots that a block holds: every one present.
pub open spec fn parse(block: Seq<u8>) -> Seq<Option<nat>> {
    Seq::new(SLOT_COUNT as nat, |i: int| Some(le_value(slot_bytes(block, i))))
}

/// `new` where it is present, else `current`.
pub open spec fn either<T>(new: Option<T>, current: Option<T>) -> Option<T> {
    if new is Some {
        new
    } else {
        current
    }
}

/// `slots` with every absent slot replaced by zero.
pub open spec fn filled(slots: Seq<Option<nat>>) -> Seq<Option<nat>> {
    Seq::new(slots.len(), |i: int| Some(fill(slots[i])))
}

/// An x87 cell that is absent or fits in 80 bits.
pub open spec fn fits80(o: Option<u128>) -> bool {
    match o {
        Some(v) => v < 0x1_0000_0000_0000_0000_0000,
        None => true,
    }
}

pub open spec fn opt_u64(o: Option<u64>) -> Option<nat> {
    match o {
        Some(v) => Some(v as nat),
        None => None,
    }
}

pub open spec fn opt_u32(o: Option<u32>) -> Option<nat> {
    match o {
        Some(v) => Some(v as nat),
        None => None,
    }
}

pub open spec fn opt_u128(o: Option<u128>) -> Option<nat> {
    match o {
        Some(v) => Some(v as nat),
        None => None,
    }
}

/// The register file of an x86_64 tracee. `None` marks a register that is
/// absent: not read on decode, written as zero on encode, left as it is by
/// `merged_over`. The x87 registers `st0..st7` hold 80-bit values in the low
/// bits of their cell.
pub struct Registers {
    pub rax: Option<u64>,
    pub rbx: Option<u64>,
    pub rcx: Option<u64>,
    pub rdx: Option<u64>,
    pub rsi: Option<u64>,
    pub rdi: Option<u64>,
    pub rbp: Option<u64>,
    pub rsp: Option<u64>,
    pub r8: Option<u64>,
    pub r9: Option<u64>,
    pub r10: Option<u64>,
    pub r11: Option<u64>,
    pub r12: Option<u64>,
    pub r13: Option<u64>,
    pub r14: Option<u64>,
    pub r15: Option<u64>,
    pub rip: Option<u64>,
    pub eflags: Option<u32>,
    pub cs: Option<u32>,
    pub ss: Option<u32>,
    pub ds: Option<u32>,
    pub es: Option<u32>,
    pub fs: Option<u32>,
    pub gs: Option<u32>,
    pub st0: Option<u128>,
    pub st1: Option<u128>,
    pub st2: Option<u128>,
    pub st3: Option<u128>,
    pub st4: Option<u128>,
    pub st5: Option<u128>,
    pub st6: Option<u128>,
    pub st7: Option<u128>,
    pub fctrl: Option<u32>,
    pub fstat: Option<u32>,
    pub ftag: Option<u32>,
    pub fiseg: Option<u32>,
    pub fioff: Option<u32>,
    pub foseg: Option<u32>,
    pub fooff: Option<u32>,
    pub fop: Option<u32>,
    pub xmm0: Option<u128>,
    pub xmm1: Option<u128>,
    pub xmm2: Option<u128>,
    pub xmm3: Option<u128>,
    pub xmm4: Option<u128>,
    pub xmm5: Option<u128>,
    pub xmm6: Option<u128>,
    pub xmm7: Option<u128>,
    pub xmm8: Option<u128>,
    pub xmm9: Option<u128>,
    pub xmm10: Option<u128>,
    pub xmm11: Option<u128>,
    pub xmm12: Option<u128>,
    pub xmm13: Option<u128>,
    pub xmm14: Option<u128>,
    pub xmm15: Option<u128>,
    pub mxcsr: Option<u32>,
    pub orig_rax: Option<u64>,
    pub fs_base: Option<u64>,
    pub gs_base: Option<u64>,
}

impl View for Registers {
    type V = Seq<Option<nat>>;

    /// The sixty slots in wire order.
    open spec fn view(&self) -> Seq<Option<nat>> {
        Seq::new(SLOT_COUNT as nat, |i: int| self.slot(i))
    }
}

impl Registers {
    /// Slot `i` in wire order.
    pub open spec fn slot(&self, i: int) -> Option<nat> {
        if i == 0 {
            opt_u64(self.rax)
        } else if i == 1 {
            opt_u64(self.rbx)
        } else if i == 2 {
            opt_u64(self.rcx)
        } else if i == 3 {
            opt_u64(self.rdx)
        } else if i == 4 {
            opt_u64(self.rsi)
        } else if i == 5 {
            opt_u64(self.rdi)
        } else if i == 6 {
            opt_u64(self.rbp)
        } else if i == 7 {
            opt_u64(self.rsp)
        } else if i == 8 {
            opt_u64(self.r8)
        } else if i == 9 {
            opt_u64(self.r9)
        } else if i == 10 {
            opt_u64(self.r10)
        } else if i == 11 {
            opt_u64(self.r11)
        } else if i == 12 {
            opt_u64(self.r12)
        } else if i == 13 {
            opt_u64(self.r13)
        } else if i == 14 {
            opt_u64(self.r14)
        } else if i == 15 {
            opt_u64(self.r15)
        } else if i == 16 {
            opt_u64(self.rip)
        } else if i == 17 {
            opt_u32(self.eflags)
        } else if i == 18 {
            opt_u32(self.cs)
        } else if i == 19 {
            opt_u32(self.ss)
        } else if i == 20 {
            opt_u32(self.ds)
        } else if i == 21 {
            opt_u32(self.es)
        } else if i == 22 {
            opt_u32(self.fs)
        } else if i == 23 {
            opt_u32(self.gs)
        } else if i == 24 {
            opt_u128(self.st0)
        } else if i == 25 {
            opt_u128(self.st1)
        } else if i == 26 {
            opt_u128(self.st2)
        } else if i == 27 {
            opt_u128(self.st3)
        } else if i == 28 {
            opt_u128(self.st4)
        } else if i == 29 {
            opt_u128(self.st5)
        } else if i == 30 {
            opt_u128(self.st6)
        } else if i == 31 {
            opt_u128(self.st7)
        } else if i == 32 {
            opt_u32(self.fctrl)
        } else if i == 33 {
            opt_u32(self.fstat)
        } else if i == 34 {
            opt_u32(self.ftag)
        } else if i == 35 {
            opt_u32(self.fiseg)
        } else if i == 36 {
            opt_u32(self.fioff)
        } else if i == 37 {
            opt_u32(self.foseg)
        } else if i == 38 {
            opt_u32(self.fooff)
        } else if i == 39 {
            opt_u32(self.fop)
        } else if i == 40 {
            opt_u128(self.xmm0)
        } else if i == 41 {
            opt_u128(self.xmm1)
        } else if i == 42 {
            opt_u128(self.xmm2)
        } else if i == 43 {
            opt_u128(self.xmm3)
        } else if i == 44 {
            opt_u128(self.xmm4)
        } else if i == 45 {
            opt_u128(self.xmm5)
        } else if i == 46 {
            opt_u128(self.xmm6)
        } else if i == 47 {
            opt_u128(self.xmm7)
        } else if i == 48 {
            opt_u128(self.xmm8)
        } else if i == 49 {
            opt_u128(self.xmm9)
        } else if i == 50 {
            opt_u128(self.xmm10)
        } else if i == 51 {
            opt_u128(self.xmm11)
        } else if i == 52 {
            opt_u128(self.xmm12)
        } else if i == 53 {
            opt_u128(self.xmm13)
        } else if i == 54 {
            opt_u128(self.xmm14)
        } else if i == 55 {
            opt_u128(self.xmm15)
        } else if i == 56 {
            opt_u32(self.mxcsr)
        } else if i == 57 {
            opt_u64(self.orig_rax)
        } else if i == 58 {
            opt_u64(self.fs_base)
        } else {
            opt_u64(self.gs_base)
        }
    }

    /// Every present value fits the width of its slot: for the x87 registers,
    /// the upper 48 bits of the cell are zero.
    pub open spec fn wf(&self) -> bool {
        forall|i: int| 0 <= i < SLOT_COUNT ==> fill(#[trigger] self@[i]) < pow256(slot_width(i))
    }

    /// Every x87 register that is present fits in 80 bits.
    pub open spec fn x87_fits(&self) -> bool {
        &&& fits80(self.st0)
        &&& fits80(self.st1)
        &&& fits80(self.st2)
        &&& fits80(self.st3)
        &&& fits80(self.st4)
        &&& fits80(self.st5)
        &&& fits80(self.st6)
        &&& fits80(self.st7)
    }

    /// The register block of this register file.
    pub open spec fn wire(&self) -> Seq<u8> {
        wire_of(self@)
    }

    fn slot_value(&self, i: usize) -> (r: u128)
        requires
            i < SLOT_COUNT,
        ensures
            r as nat == fill(self@[i as int]),
    {
        if i == 0 {
            self.rax.unwrap_or(0) as u128
        } else if i == 1 {
            self.rbx.unwrap_or(0) as u128
        } else if i == 2 {
            self.rcx.unwrap_or(0) as u128
        } else if i == 3 {
            self.rdx.unwrap_or(0) as u128
        } else if i == 4 {
            self.rsi.unwrap_or(0) as u128
        } else if i == 5 {
            self.rdi.unwrap_or(0) as u128
        } else if i == 6 {
            self.rbp.unwrap_or(0) as u128
        } else if i == 7 {
            self.rsp.unwrap_or(0) as u128
        } else if i == 8 {
            self.r8.unwrap_or(0) as u128
        } else if i == 9 {
            self.r9.unwrap_or(0) as u128
        } else if i == 10 {
            self.r10.unwrap_or(0) as u128
        } else if i == 11 {
            self.r11.unwrap_or(0) as u128
        } else if i == 12 {
            self.r12.unwrap_or(0) as u128
        } else if i == 13 {
            self.r13.unwrap_or(0) as u128
        } else if i == 14 {
            self.r14.unwrap_or(0) as u128
        } else if i == 15 {
            self.r15.unwrap_or(0) as u128
        } else if i == 16 {
            self.rip.unwrap_or(0) as u128
        } else if i == 17 {
            self.eflags.unwrap_or(0) as u128
        } else if i == 18 {
            self.cs.unwrap_or(0) as u128
        } else if i == 19 {
            self.ss.unwrap_or(0) as u128
        } else if i == 20 {
            self.ds.unwrap_or(0) as u128
        } else if i == 21 {
            self.es.unwrap_or(0) as u128
        } else if i == 22 {
            self.fs.unwrap_or(0) as u128
        } else if i == 23 {
            self.gs.unwrap_or(0) as u128
        } else if i == 24 {
            self.st0.unwrap_or(0)
        } else if i == 25 {
            self.st1.unwrap_or(0)
        } else if i == 26 {
            self.st2.unwrap_or(0)
        } else if i == 27 {
            self.st3.unwrap_or(0)
        } else if i == 28 {
            self.st4.unwrap_or(0)
        } else if i == 29 {
            self.st5.unwrap_or(0)
        } else if i == 30 {
            self.st6.unwrap_or(0)
        } else if i == 31 {
            self.st7.unwrap_or(0)
        } else if i == 32 {
            self.fctrl.unwrap_or(0) as u128
        } else if i == 33 {
            self.fstat.unwrap_or(0) as u128
        } else if i == 34 {
            self.ftag.unwrap_or(0) as u128
        } else if i == 35 {
            self.fiseg.unwrap_or(0) as u128
        } else if i == 36 {
            self.fioff.unwrap_or(0) as u128
        } else if i == 37 {
            self.foseg.unwrap_or(0) as u128
        } else if i == 38 {
            self.fooff.unwrap_or(0) as u128
        } else if i == 39 {
            self.fop.unwrap_or(0) as u128
        } else if i == 40 {
            self.xmm0.unwrap_or(0)
        } else if i == 41 {
            self.xmm1.unwrap_or(0)
        } else if i == 42 {
            self.xmm2.unwrap_or(0)
        } else if i == 43 {
            self.xmm3.unwrap_or(0)
        } else if i == 44 {
            self.xmm4.unwrap_or(0)
        } else if i == 45 {
            self.xmm5.unwrap_or(0)
        } else if i == 46 {
            self.xmm6.unwrap_or(0)
        } else if i == 47 {
            self.xmm7.unwrap_or(0)
        } else if i == 48 {
            self.xmm8.unwrap_or(0)
        } else if i == 49 {
            self.xmm9.unwrap_or(0)
        } else if i == 50 {
            self.xmm10.unwrap_or(0)
        } else if i == 51 {
            self.xmm11.unwrap_or(0)
        } else if i == 52 {
            self.xmm12.unwrap_or(0)
        } else if i == 53 {
            self.xmm13.unwrap_or(0)
        } else if i == 54 {
            self.xmm14.unwrap_or(0)
        } else if i == 55 {
            self.xmm15.unwrap_or(0)
        } else if i == 56 {
            self.mxcsr.unwrap_or(0) as u128
        } else if i == 57 {
            self.orig_rax.unwrap_or(0) as u128
        } else if i == 58 {
            self.fs_base.unwrap_or(0) as u128
        } else {
            self.gs_base.unwrap_or(0) as u128
        }
    }

    fn from_values(vals: &Vec<u128>) -> (r: Registers)
        requires
            vals@.len() == SLOT_COUNT,
            forall|i: int| 0 <= i < SLOT_COUNT ==> (#[trigger] vals@[i]) < pow256(slot_width(i)),
        ensures
            forall|i: int| 0 <= i < SLOT_COUNT ==> #[trigger] r@[i] == Some(vals@[i] as nat),
    {
        proof {
            lemma_pow256_widths();
        }
        let r = Registers {
            rax: Some(vals[0] as u64),
            rbx: Some(vals[1] as u64),
            rcx: Some(vals[2] as u64),
            rdx: Some(vals[3] as u64),
            rsi: Some(vals[4] as u64),
            rdi: Some(vals[5] as u64),
            rbp: Some(vals[6] as u64),
            rsp: Some(vals[7] as u64),
            r8: Some(vals[8] as u64),
            r9: Some(vals[9] as u64),
            r10: Some(vals[10] as u64),
            r11: Some(vals[11] as u64),
            r12: Some(vals[12] as u64),
            r13: Some(vals[13] as u64),
            r14: Some(vals[14] as u64),
            r15: Some(vals[15] as u64),
            rip: Some(vals[16] as u64),
            eflags: Some(vals[17] as u32),
            cs: Some(vals[18] as u32),
            ss: Some(vals[19] as u32),
            ds: Some(vals[20] as u32),
            es: Some(vals[21] as u32),
            fs: Some(vals[22] as u32),
            gs: Some(vals[23] as u32),
            st0: Some(vals[24]),
            st1: Some(vals[25]),
            st2: Some(vals[26]),
            st3: Some(vals[27]),
            st4: Some(vals[28]),
            st5: Some(vals[29]),
            st6: Some(vals[30]),
            st7: Some(vals[31]),
            fctrl: Some(vals[32] as u32),
            fstat: Some(vals[33] as u32),
            ftag: Some(vals[34] as u32),
            fiseg: Some(vals[35] as u32),
            fioff: Some(vals[36] as u32),
            foseg: Some(vals[37] as u32),
            fooff: Some(vals[38] as u32),
            fop: Some(vals[39] as u32),
            xmm0: Some(vals[40]),
            xmm1: Some(vals[41]),
            xmm2: Some(vals[42]),
            xmm3: Some(vals[43]),
            xmm4: Some(vals[44]),
            xmm5: Some(vals[45]),
            xmm6: Some(vals[46]),
            xmm7: Some(vals[47]),
            xmm8: Some(vals[48]),
            xmm9: Some(vals[49]),
            xmm10: Some(vals[50]),
            xmm11: Some(vals[51]),
            xmm12: Some(vals[52]),
            xmm13: Some(vals[53]),
            xmm14: Some(vals[54]),
            xmm15: Some(vals[55]),
            mxcsr: Some(vals[56] as u32),
            orig_rax: Some(vals[57] as u64),
            fs_base: Some(vals[58] as u64),
            gs_base: Some(vals[59] as u64),
        };
        assert forall|i: int| 0 <= i < SLOT_COUNT implies #[trigger] r@[i] == Some(vals@[i] as nat) by {
            assert(vals@[i] < pow256(slot_width(i)));
        }
        r
    }

    /// A register file with every register absent.
    pub fn empty() -> (r: Registers)
        ensures
            forall|i: int| 0 <= i < SLOT_COUNT ==> (#[trigger] r@[i]) is None,
    {
        Registers {
            rax: None,
            rbx: None,
            rcx: None,
            rdx: None,
            rsi: None,
            rdi: None,
            rbp: None,
            rsp: None,
            r8: None,
            r9: None,
            r10: None,
            r11: None,
            r12: None,
            r13: None,
            r14: None,
            r15: None,
            rip: None,
            eflags: None,
            cs: None,
            ss: None,
            ds: None,
            es: None,
            fs: None,
            gs: None,
            st0: None,
            st1: None,
            st2: None,
            st3: None,
            st4: None,
            st5: None,
            st6: None,
            st7: None,
            fctrl: None,
            fstat: None,
            ftag: None,
            fiseg: None,
            fioff: None,
            foseg: None,
            fooff: None,
            fop: None,
            xmm0: None,
            xmm1: None,
            xmm2: None,
            xmm3: None,
            xmm4: None,
            xmm5: None,
            xmm6: None,
            xmm7: None,
            xmm8: None,
            xmm9: None,
            xmm10: None,
            xmm11: None,
            xmm12: None,
            xmm13: None,
            xmm14: None,
            xmm15: None,
            mxcsr: None,
            orig_rax: None,
            fs_base: None,
            gs_base: None,
        }
    }

    /// Reads a register block. Every register is present in the result.
    pub fn decode(input: &[u8]) -> (r: Registers)
        requires
            input@.len() == BLOCK_LEN,
        ensures
            r@ == parse(input@),
            r.wf(),
    {
        proof {
            lemma_slot_offsets();
        }
        let mut vals: Vec<u128> = Vec::new();
        let mut pos: usize = 0;
        let mut i: usize = 0;
        while i < SLOT_COUNT
            invariant
                i <= SLOT_COUNT,
                input@.len() == BLOCK_LEN,
                vals@.len() == i,
                pos == slot_offset(i as nat),
                forall|k: nat| k <= SLOT_COUNT ==> slot_offset(k) + (if k < SLOT_COUNT { slot_width(k as int) } else { 0 }) <= BLOCK_LEN,
                forall|j: int| 0 <= j < i ==> (#[trigger] vals@[j]) as nat == le_value(slot_bytes(input@, j)),
                forall|j: int| 0 <= j < i ==> (#[trigger] vals@[j]) < pow256(slot_width(j)),
            decreases SLOT_COUNT - i,
        {
            let width = width_of(i);
            assert(slot_offset(i as nat) + slot_width(i as int) <= BLOCK_LEN);
            let v = read_le(input, pos, width);
            proof {
                lemma_le_value_bound(slot_bytes(input@, i as int));
            }
            vals.push(v);
            pos = pos + width;
            i = i + 1;
        }
        let r = Registers::from_values(&vals);
        assert(r@ =~= parse(input@));
        r
    }

    /// Appends the register block of this register file to `output`, each
    /// absent register written as zero.
    pub fn encode(&self, output: &mut Vec<u8>)
        requires
            self.wf(),
        ensures
            final(output)@ == old(output)@ + self.wire(),
    {
        let mut i: usize = 0;
        while i < SLOT_COUNT
            invariant
                i <= SLOT_COUNT,
                self.wf(),
                output@ == old(output)@ + wire_prefix(self@, i as nat),
            decreases SLOT_COUNT - i,
        {
            let v = self.slot_value(i);
            let width = width_of(i);
            assert(v < pow256(slot_width(i as int)));
            push_le(output, v, width);
            assert(output@ =~= old(output)@ + wire_prefix(self@, (i + 1) as nat));
            i = i + 1;
        }
    }

    /// This register file laid over `current`: each register present here
    /// replaces the one in `current`, and the others are kept.
    pub open spec fn overlaid(&self, current: &Registers) -> Registers {
        Registers {
            rax: either(self.rax, current.rax),
            rbx: either(self.rbx, current.rbx),
            rcx: either(self.rcx, current.rcx),
            rdx: either(self.rdx, current.rdx),
            rsi: either(self.rsi, current.rsi),
            rdi: either(self.rdi, current.rdi),
            rbp: either(self.rbp, current.rbp),
            rsp: either(self.rsp, current.rsp),
            r8: either(self.r8, current.r8),
            r9: either(self.r9, current.r9),
            r10: either(self.r10, current.r10),
            r11: either(self.r11, current.r11),
            r12: either(self.r12, current.r12),
            r13: either(self.r13, current.r13),
            r14: either(self.r14, current.r14),
            r15: either(self.r15, current.r15),
            rip: either(self.rip, current.rip),
            eflags: either(self.eflags, current.eflags),
            cs: either(self.cs, current.cs),
            ss: either(self.ss, current.ss),
            ds: either(self.ds, current.ds),
            es: either(self.es, current.es),
            fs: either(self.fs, current.fs),
            gs: either(self.gs, current.gs),
            st0: either(self.st0, current.st0),
            st1: either(self.st1, current.st1),
            st2: either(self.st2, current.st2),
            st3: either(self.st3, current.st3),
            st4: either(self.st4, current.st4),
            st5: either(self.st5, current.st5),
            st6: either(self.st6, current.st6),
            st7: either(self.st7, current.st7),
            fctrl: either(self.fctrl, current.fctrl),
            fstat: either(self.fstat, current.fstat),
            ftag: either(self.ftag, current.ftag),
            fiseg: either(self.fiseg, current.fiseg),
            fioff: either(self.fioff, current.fioff),
            foseg: either(self.foseg, current.foseg),
            fooff: either(self.fooff, current.fooff),
            fop: either(self.fop, current.fop),
            xmm0: either(self.xmm0, current.xmm0),
            xmm1: either(self.xmm1, current.xmm1),
            xmm2: either(self.xmm2, current.xmm2),
            xmm3: either(self.xmm3, current.xmm3),
            xmm4: either(self.xmm4, current.xmm4),
            xmm5: either(self.xmm5, current.xmm5),
            xmm6: either(self.xmm6, current.xmm6),
            xmm7: either(self.xmm7, current.xmm7),
            xmm8: either(self.xmm8, current.xmm8),
            xmm9: either(self.xmm9, current.xmm9),
            xmm10: either(self.xmm10, current.xmm10),
            xmm11: either(self.xmm11, current.xmm11),
            xmm12: either(self.xmm12, current.xmm12),
            xmm13: either(self.xmm13, current.xmm13),
            xmm14: either(self.xmm14, current.xmm14),
            xmm15: either(self.xmm15, current.xmm15),
            mxcsr: either(self.mxcsr, current.mxcsr),
            orig_rax: either(self.orig_rax, current.orig_rax),
            fs_base: either(self.fs_base, current.fs_base),
            gs_base: either(self.gs_base, current.gs_base),
        }
    }

    /// This register file laid over `current`: each register present here
    /// replaces the one in `current`, and the others are kept.
    pub fn merged_over(&self, current: &Registers) -> (r: Registers)
        ensures
            r == self.overlaid(current),
    {
        Registers {
            rax: pick(self.rax, current.rax),
            rbx: pick(self.rbx, current.rbx),
            rcx: pick(self.rcx, current.rcx),
            rdx: pick(self.rdx, current.rdx),
            rsi: pick(self.rsi, current.rsi),
            rdi: pick(self.rdi, current.rdi),
            rbp: pick(self.rbp, current.rbp),
            rsp: pick(self.rsp, current.rsp),
            r8: pick(self.r8, current.r8),
            r9: pick(self.r9, current.r9),
            r10: pick(self.r10, current.r10),
            r11: pick(self.r11, current.r11),
            r12: pick(self.r12, current.r12),
            r13: pick(self.r13, current.r13),
            r14: pick(self.r14, current.r14),
            r15: pick(self.r15, current.r15),
            rip: pick(self.rip, current.rip),
            eflags: pick(self.eflags, current.eflags),
            cs: pick(self.cs, current.cs),
            ss: pick(self.ss, current.ss),
            ds: pick(self.ds, current.ds),
            es: pick(self.es, current.es),
            fs: pick(self.fs, current.fs),
            gs: pick(self.gs, current.gs),
            st0: pick(self.st0, current.st0),
            st1: pick(self.st1, current.st1),
            st2: pick(self.st2, current.st2),
            st3: pick(self.st3, current.st3),
            st4: pick(self.st4, current.st4),
            st5: pick(self.st5, current.st5),
            st6: pick(self.st6, current.st6),
            st7: pick(self.st7, current.st7),
            fctrl: pick(self.fctrl, current.fctrl),
            fstat: pick(self.fstat, current.fstat),
            ftag: pick(self.ftag, current.ftag),
            fiseg: pick(self.fiseg, current.fiseg),
            fioff: pick(self.fioff, current.fioff),
            foseg: pick(self.foseg, current.foseg),
            fooff: pick(self.fooff, current.fooff),
            fop: pick(self.fop, current.fop),
            xmm0: pick(self.xmm0, current.xmm0),
            xmm1: pick(self.xmm1, current.xmm1),
            xmm2: pick(self.xmm2, current.xmm2),
            xmm3: pick(self.xmm3, current.xmm3),
            xmm4: pick(self.xmm4, current.xmm4),
            xmm5: pick(self.xmm5, current.xmm5),
            xmm6: pick(self.xmm6, current.xmm6),
            xmm7: pick(self.xmm7, current.xmm7),
            xmm8: pick(self.xmm8, current.xmm8),
            xmm9: pick(self.xmm9, current.xmm9),
            xmm10: pick(self.xmm10, current.xmm10),
            xmm11: pick(self.xmm11, current.xmm11),
            xmm12: pick(self.xmm12, current.xmm12),
            xmm13: pick(self.xmm13, current.xmm13),
            xmm14: pick(self.xmm14, current.xmm14),
            xmm15: pick(self.xmm15, current.xmm15),
            mxcsr: pick(self.mxcsr, current.mxcsr),
            orig_rax: pick(self.orig_rax, current.orig_rax),
            fs_base: pick(self.fs_base, current.fs_base),
            gs_base: pick(self.gs_base, current.gs_base),
        }
    }
}

impl Default for Registers {
    fn default() -> (r: Registers)
        ensures
            forall|i: int| 0 <= i < SLOT_COUNT ==> (#[trigger] r@[i]) is None,
    {
        Registers::empty()
    }
}

fn pick<T: Copy>(new: Option<T>, current: Option<T>) -> (r: Option<T>)
    ensures
        r == either(new, current),
{
    match new {
        Some(v) => Some(v),
        None => current,
    }
}

fn width_of(i: usize) -> (r: usize)
    requires
        i < SLOT_COUNT,
    ensures
        r == slot_width(i as int),
        1 <= r <= 16,
{
    if i < 17 {
        8
    } else if i < 24 {
        4
    } else if i < 32 {
        10
    } else if i < 40 {
        4
    } else if i < 56 {
        16
    } else if i == 56 {
        4
    } else {
        8
    }
}


/// Slot offsets in closed form, and the block length.
proof fn lemma_slot_offsets()
    ensures
        forall|k: nat| k <= SLOT_COUNT ==> slot_offset(k) + (if k < SLOT_COUNT { slot_width(k as int) } else { 0 }) <= BLOCK_LEN,
        slot_offset(SLOT_COUNT as nat) == BLOCK_LEN,
{
    assert forall|k: nat| k <= SLOT_COUNT implies #[trigger] slot_offset(k) == offset_closed(k) by {
        lemma_slot_offset_closed(k);
    }
}

spec fn offset_closed(k: nat) -> int {
    if k <= 17 {
        8 * k as int
    } else if k <= 24 {
        136 + 4 * (k - 17)
    } else if k <= 32 {
        164 + 10 * (k - 24)
    } else if k <= 40 {
        244 + 4 * (k - 32)
    } else if k <= 56 {
        276 + 16 * (k - 40)
    } else if k == 57 {
        536
    } else {
        536 + 8 * (k - 57)
    }
}

proof fn lemma_slot_offset_closed(k: nat)
    ensures
        slot_offset(k) == offset_closed(k),
    decreases k,
{
    if k > 0 {
        lemma_slot_offset_closed((k - 1) as nat);
    }
}

proof fn lemma_wire_prefix_len(slots: Seq<Option<nat>>, n: nat)
    ensures
        wire_prefix(slots, n).len() == slot_offset(n),
    decreases n,
{
    if n > 0 {
        lemma_wire_prefix_len(slots, (n - 1) as nat);
        lemma_le_bytes_len(fill(slots[n - 1]), slot_width(n - 1));
    }
}

/// Slot `i` of an encoded block holds the encoding of slot `i`.
proof fn lemma_wire_prefix_slot(slots: Seq<Option<nat>>, n: nat, i: int)
    requires
        0 <= i < n,
    ensures
        wire_prefix(slots, n).subrange(slot_start(i), slot_end(i))
            == le_bytes(fill(slots[i]), slot_width(i)),
    decreases n,
{
    let prev = wire_prefix(slots, (n - 1) as nat);
    let last = le_bytes(fill(slots[n - 1]), slot_width(n - 1));
    lemma_wire_prefix_len(slots, (n - 1) as nat);
    lemma_le_bytes_len(fill(slots[n - 1]), slot_width(n - 1));
    if i < n - 1 {
        lemma_wire_prefix_slot(slots, (n - 1) as nat, i);
        lemma_slot_offset_mono((i + 1) as nat, (n - 1) as nat);
        assert(wire_prefix(slots, n).subrange(slot_start(i), slot_end(i))
            =~= prev.subrange(slot_start(i), slot_end(i)));
    } else {
        assert(wire_prefix(slots, n).subrange(slot_start(i), slot_end(i))
            =~= last);
    }
}

proof fn lemma_slot_offset_mono(a: nat, b: nat)
    requires
        a <= b,
    ensures
        slot_offset(a) <= slot_offset(b),
    decreases b,
{
    if a < b {
        lemma_slot_offset_mono(a, (b - 1) as nat);
    }
}

/// A register file whose x87 registers fit in 80 bits is well formed: the
/// other registers fit their slots by their types.
pub proof fn lemma_wf_of_x87(r: Registers)
    requires
        r.x87_fits(),
    ensures
        r.wf(),
{
    lemma_pow256_widths();
    assert forall|i: int| 0 <= i < SLOT_COUNT implies fill(#[trigger] r@[i]) < pow256(slot_width(i)) by {
        assert(r@[i] == r.slot(i));
    }
}

/// Encoding the slots that a block holds gives the block back.
pub proof fn lemma_encode_decode(block: Seq<u8>)
    requires
        block.len() == BLOCK_LEN,
    ensures
        wire_of(parse(block)) == block,
{
    lemma_slot_offsets();
    lemma_wire_prefix_parse(block, SLOT_COUNT as nat);
    assert(block.subrange(0, BLOCK_LEN as int) =~= block);
}

proof fn lemma_wire_prefix_parse(block: Seq<u8>, n: nat)
    requires
        block.len() == BLOCK_LEN,
        n <= SLOT_COUNT,
    ensures
        wire_prefix(parse(block), n) == block.subrange(0, slot_offset(n) as int),
    decreases n,
{
    if n > 0 {
        let k = (n - 1) as nat;
        lemma_wire_prefix_parse(block, k);
        lemma_slot_offset_closed(k);
        lemma_slot_offset_closed(n);
        let piece = slot_bytes(block, k as int);
        assert(piece.len() == slot_width(k as int));
        lemma_le_bytes_of_value(piece);
        assert(parse(block)[k as int] == Some(le_value(piece)));
        assert(wire_prefix(parse(block), n) == wire_prefix(parse(block), k) + le_bytes(
            le_value(piece),
            slot_width(k as int),
        ));
        assert(block.subrange(0, slot_offset(n) as int) =~= block.subrange(0, slot_offset(k) as int)
            + piece);
    }
}

/// Decoding the encoding of a well-formed register file gives back its
/// registers, each absent one read as zero.
pub proof fn lemma_decode_encode(r: Registers)
    requires
        r.wf(),
    ensures
        parse(r.wire()) == filled(r@),
{
    lemma_slot_offsets();
    lemma_wire_prefix_len(r@, SLOT_COUNT as nat);
    assert forall|i: int| 0 <= i < SLOT_COUNT implies #[trigger] parse(r.wire())[i] == filled(r@)[i] by {
        lemma_wire_prefix_slot(r@, SLOT_COUNT as nat, i);
        assert(fill(r@[i]) < pow256(slot_width(i)));
        lemma_le_value_of_bytes(fill(r@[i]), slot_width(i));
    }
    assert(parse(r.wire()) =~= filled(r@));
}

} // verus!
