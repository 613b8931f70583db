pub mod arith;
pub mod bitfield;
pub mod itypes;
pub mod insn;
pub mod regs;
pub mod csrs;
pub mod insns;
pub mod loader;
pub mod logrunner;
pub mod memory;
pub mod mmu;
pub mod matcher;
pub mod processor;

use vstd::prelude::*;
use crate::arith::{add_wrap, wrap64};
use crate::matcher::{Exec, Matcher, Matchers, stepped};
use crate::processor::{Effect, Halt, Processor};
use crate::memory::{Memory, byte_of};

verus! {

/// Where the reset vector stands.
pub const RESET_VEC_ADDR: u64 = 0x1000;

/// The eight words of the reset vector: a jump to `entry`, with the hart id
/// in a0 and the address of the device tree (right after the vector) in a1.
pub open spec fn reset_word(entry: u64, k: int) -> u32 {
    if k == 0 {
        0x297
    } else if k == 1 {
        0x2028593
    } else if k == 2 {
        0xf1402573
    } else if k == 3 {
        0x0182b283
    } else if k == 4 {
        0x28067
    } else if k == 5 {
        0
    } else if k == 6 {
        entry as u32
    } else {
        (entry >> 32) as u32
    }
}

/// The byte at `x` after the reset vector and the device tree `dtb` are
/// written over memory that held `before` there.
pub open spec fn reset_image(entry: u64, dtb: Seq<u8>, before: u8, x: u64) -> u8 {
    if 0x1000 <= x < 0x1020 {
        byte_of(reset_word(entry, (x - 0x1000) / 4) as u64, ((x - 0x1000) % 4) as u64)
    } else if 0x1020 <= x < 0x1020 + dtb.len() {
        dtb[x - 0x1020]
    } else {
        before
    }
}

fn reset_word_at(entry: u64, k: u64) -> (w: u32)
    requires
        k < 8,
    ensures
        w == reset_word(entry, k as int),
{
    let reset_vec_size: u32 = 8;
    if k == 0 {
        0x297
    } else if k == 1 {
        assert(0x28593u32 + (32u32 << 20u32) == 0x2028593u32) by (bit_vector);
        0x28593 + ((reset_vec_size * 4) << 20u32)
    } else if k == 2 {
        0xf140_2573
    } else if k == 3 {
        0x0182_b283
    } else if k == 4 {
        0x28067
    } else if k == 5 {
        0x0
    } else if k == 6 {
        entry as u32
    } else {
        (entry >> 32u64) as u32
    }
}

/// Writes the reset vector at 0x1000 and the device tree right after it.
pub fn write_reset_vec<M: Memory>(mem: &mut M, entry: u64, dtb: &[u8])
    requires
        old(mem).inv(),
        0x1020 + dtb@.len() <= u64::MAX,
        forall|x: u64| 0x1000 <= x < 0x1020 + dtb@.len() ==> #[trigger] old(mem).mapped(x),
    ensures
        final(mem).inv(),
        forall|x: u64| #[trigger] final(mem).mapped(x) == old(mem).mapped(x),
        forall|x: u64| #[trigger] final(mem).byte(x) == reset_image(entry, dtb@, old(mem).byte(x), x),
{
    let mut k: u64 = 0;
    while k < 8
        invariant
            k <= 8,
            mem.inv(),
            0x1020 + dtb@.len() <= u64::MAX,
            forall|x: u64| 0x1000 <= x < 0x1020 + dtb@.len() ==> #[trigger] old(mem).mapped(x),
            forall|x: u64| #[trigger] mem.mapped(x) == old(mem).mapped(x),
            forall|x: u64| #[trigger]
                mem.byte(x) == if 0x1000 <= x < 0x1000 + 4 * k {
                    byte_of(reset_word(entry, (x - 0x1000) / 4) as u64, ((x - 0x1000) % 4) as u64)
                } else {
                    old(mem).byte(x)
                },
        decreases 8 - k,
    {
        let w = reset_word_at(entry, k);
        let addr = RESET_VEC_ADDR + 4 * k;
        assert forall|j: u64| j < 4 implies #[trigger] mem.mapped((addr + j) as u64) by {
            assert(old(mem).mapped((addr + j) as u64));
        }
        mem.write_w(addr, w);
        k = k + 1;
    }
    let mut i: usize = 0;
    while i < dtb.len()
        invariant
            i <= dtb@.len(),
            mem.inv(),
            0x1020 + dtb@.len() <= u64::MAX,
            forall|x: u64| 0x1000 <= x < 0x1020 + dtb@.len() ==> #[trigger] old(mem).mapped(x),
            forall|x: u64| #[trigger] mem.mapped(x) == old(mem).mapped(x),
            forall|x: u64| #[trigger]
                mem.byte(x) == if 0x1000 <= x < 0x1020 {
                    byte_of(reset_word(entry, (x - 0x1000) / 4) as u64, ((x - 0x1000) % 4) as u64)
                } else if 0x1020 <= x < 0x1020 + i {
                    dtb@[x - 0x1020]
                } else {
                    old(mem).byte(x)
                },
        decreases dtb@.len() - i,
    {
        let addr = RESET_VEC_ADDR + 32 + i as u64;
        assert(old(mem).mapped(addr));
        mem.write_b(addr, dtb[i]);
        proof {
            crate::memory::lemma_byte_of_u8(dtb@[i as int]);
        }
        i = i + 1;
    }
}

/// The decode table: each row's mask and match, and its handler, in the order
/// the lookup tries them.
pub open spec fn matcher_table() -> Seq<Matcher> {
    seq![
        Matcher { mask: 0x707f, mtch: 0x63, handler: Exec::Beq },
        Matcher { mask: 0x707f, mtch: 0x1063, handler: Exec::Bne },
        Matcher { mask: 0x707f, mtch: 0x4063, handler: Exec::Blt },
        Matcher { mask: 0x707f, mtch: 0x5063, handler: Exec::Bge },
        Matcher { mask: 0x707f, mtch: 0x6063, handler: Exec::Bltu },
        Matcher { mask: 0x707f, mtch: 0x7063, handler: Exec::Bgeu },
        Matcher { mask: 0x707f, mtch: 0x67, handler: Exec::Jalr },
        Matcher { mask: 0x7f, mtch: 0x6f, handler: Exec::Jal },
        Matcher { mask: 0x7f, mtch: 0x37, handler: Exec::Lui },
        Matcher { mask: 0x7f, mtch: 0x17, handler: Exec::Auipc },
        Matcher { mask: 0x707f, mtch: 0x13, handler: Exec::Addi },
        Matcher { mask: 0xfc00707f, mtch: 0x1013, handler: Exec::Slli },
        Matcher { mask: 0x707f, mtch: 0x2013, handler: Exec::Slti },
        Matcher { mask: 0x707f, mtch: 0x3013, handler: Exec::Sltiu },
        Matcher { mask: 0x707f, mtch: 0x4013, handler: Exec::Xori },
        Matcher { mask: 0xfc00707f, mtch: 0x5013, handler: Exec::Srli },
        Matcher { mask: 0xfc00707f, mtch: 0x40005013, handler: Exec::Srai },
        Matcher { mask: 0x707f, mtch: 0x6013, handler: Exec::Ori },
        Matcher { mask: 0x707f, mtch: 0x7013, handler: Exec::Andi },
        Matcher { mask: 0xfe00707f, mtch: 0x33, handler: Exec::Add },
        Matcher { mask: 0xfe00707f, mtch: 0x40000033, handler: Exec::Sub },
        Matcher { mask: 0xfe00707f, mtch: 0x1033, handler: Exec::Sll },
        Matcher { mask: 0xfe00707f, mtch: 0x2033, handler: Exec::Slt },
        Matcher { mask: 0xfe00707f, mtch: 0x3033, handler: Exec::Sltu },
        Matcher { mask: 0xfe00707f, mtch: 0x4033, handler: Exec::Xor },
        Matcher { mask: 0xfe00707f, mtch: 0x5033, handler: Exec::Srl },
        Matcher { mask: 0xfe00707f, mtch: 0x40005033, handler: Exec::Sra },
        Matcher { mask: 0xfe00707f, mtch: 0x6033, handler: Exec::Or },
        Matcher { mask: 0xfe00707f, mtch: 0x7033, handler: Exec::And },
        Matcher { mask: 0x707f, mtch: 0x1b, handler: Exec::Addiw },
        Matcher { mask: 0xfe00707f, mtch: 0x101b, handler: Exec::Slliw },
        Matcher { mask: 0xfe00707f, mtch: 0x501b, handler: Exec::Srliw },
        Matcher { mask: 0xfe00707f, mtch: 0x4000501b, handler: Exec::Sraiw },
        Matcher { mask: 0xfe00707f, mtch: 0x3b, handler: Exec::Addw },
        Matcher { mask: 0xfe00707f, mtch: 0x4000003b, handler: Exec::Subw },
        Matcher { mask: 0xfe00707f, mtch: 0x103b, handler: Exec::Sllw },
        Matcher { mask: 0xfe00707f, mtch: 0x503b, handler: Exec::Srlw },
        Matcher { mask: 0xfe00707f, mtch: 0x4000503b, handler: Exec::Sraw },
        Matcher { mask: 0x707f, mtch: 0x3, handler: Exec::Lb },
        Matcher { mask: 0x707f, mtch: 0x1003, handler: Exec::Lh },
        Matcher { mask: 0x707f, mtch: 0x2003, handler: Exec::Lw },
        Matcher { mask: 0x707f, mtch: 0x3003, handler: Exec::Ld },
        Matcher { mask: 0x707f, mtch: 0x4003, handler: Exec::Lbu },
        Matcher { mask: 0x707f, mtch: 0x5003, handler: Exec::Lhu },
        Matcher { mask: 0x707f, mtch: 0x6003, handler: Exec::Lwu },
        Matcher { mask: 0x707f, mtch: 0x23, handler: Exec::Sb },
        Matcher { mask: 0x707f, mtch: 0x1023, handler: Exec::Sh },
        Matcher { mask: 0x707f, mtch: 0x2023, handler: Exec::Sw },
        Matcher { mask: 0x707f, mtch: 0x3023, handler: Exec::Sd },
        Matcher { mask: 0x707f, mtch: 0xf, handler: Exec::Fence },
        Matcher { mask: 0x707f, mtch: 0x100f, handler: Exec::FenceI },
        Matcher { mask: 0xfe00707f, mtch: 0x2000033, handler: Exec::Mul },
        Matcher { mask: 0xfe00707f, mtch: 0x2001033, handler: Exec::Mulh },
        Matcher { mask: 0xfe00707f, mtch: 0x2002033, handler: Exec::Unimplemented },
        Matcher { mask: 0xfe00707f, mtch: 0x2003033, handler: Exec::Mulhu },
        Matcher { mask: 0xfe00707f, mtch: 0x2004033, handler: Exec::Div },
        Matcher { mask: 0xfe00707f, mtch: 0x2005033, handler: Exec::Divu },
        Matcher { mask: 0xfe00707f, mtch: 0x2006033, handler: Exec::Rem },
        Matcher { mask: 0xfe00707f, mtch: 0x2007033, handler: Exec::Remu },
        Matcher { mask: 0xfe00707f, mtch: 0x200003b, handler: Exec::Mulw },
        Matcher { mask: 0xfe00707f, mtch: 0x200403b, handler: Exec::Divw },
        Matcher { mask: 0xfe00707f, mtch: 0x200503b, handler: Exec::Divuw },
        Matcher { mask: 0xfe00707f, mtch: 0x200603b, handler: Exec::Remw },
        Matcher { mask: 0xfe00707f, mtch: 0x200703b, handler: Exec::Remuw },
        Matcher { mask: 0xf800707f, mtch: 0x202f, handler: Exec::AmoAddW },
        Matcher { mask: 0xf800707f, mtch: 0x2000202f, handler: Exec::Unimplemented },
        Matcher { mask: 0xf800707f, mtch: 0x4000202f, handler: Exec::Unimplemented },
        Matcher { mask: 0xf800707f, mtch: 0x6000202f, handler: Exec::Unimplemented },
        Matcher { mask: 0xf800707f, mtch: 0x8000202f, handler: Exec::Unimplemented },
        Matcher { mask: 0xf800707f, mtch: 0xa000202f, handler: Exec::Unimplemented },
        Matcher { mask: 0xf800707f, mtch: 0xc000202f, handler: Exec::Unimplemented },
        Matcher { mask: 0xf800707f, mtch: 0xe000202f, handler: Exec::Unimplemented },
        Matcher { mask: 0xf800707f, mtch: 0x800202f, handler: Exec::AmoSwapW },
        Matcher { mask: 0xf9f0707f, mtch: 0x1000202f, handler: Exec::LrW },
        Matcher { mask: 0xf800707f, mtch: 0x1800202f, handler: Exec::ScW },
        Matcher { mask: 0xf800707f, mtch: 0x302f, handler: Exec::AmoAddD },
        Matcher { mask: 0xf800707f, mtch: 0x2000302f, handler: Exec::Unimplemented },
        Matcher { mask: 0xf800707f, mtch: 0x4000302f, handler: Exec::AmoOrD },
        Matcher { mask: 0xf800707f, mtch: 0x6000302f, handler: Exec::AmoAndD },
        Matcher { mask: 0xf800707f, mtch: 0x8000302f, handler: Exec::Unimplemented },
        Matcher { mask: 0xf800707f, mtch: 0xa000302f, handler: Exec::Unimplemented },
        Matcher { mask: 0xf800707f, mtch: 0xc000302f, handler: Exec::Unimplemented },
        Matcher { mask: 0xf800707f, mtch: 0xe000302f, handler: Exec::Unimplemented },
        Matcher { mask: 0xf800707f, mtch: 0x800302f, handler: Exec::AmoSwapD },
        Matcher { mask: 0xf9f0707f, mtch: 0x1000302f, handler: Exec::LrD },
        Matcher { mask: 0xf800707f, mtch: 0x1800302f, handler: Exec::ScD },
        Matcher { mask: 0xffffffff, mtch: 0x73, handler: Exec::Ecall },
        Matcher { mask: 0xffffffff, mtch: 0x100073, handler: Exec::Unimplemented },
        Matcher { mask: 0xffffffff, mtch: 0x200073, handler: Exec::Unimplemented },
        Matcher { mask: 0xffffffff, mtch: 0x10200073, handler: Exec::Sret },
        Matcher { mask: 0xffffffff, mtch: 0x30200073, handler: Exec::Mret },
        Matcher { mask: 0xffffffff, mtch: 0x7b200073, handler: Exec::Unimplemented },
        Matcher { mask: 0xfe007fff, mtch: 0x12000073, handler: Exec::SfenceVma },
        Matcher { mask: 0xffffffff, mtch: 0x10500073, handler: Exec::Wfi },
        Matcher { mask: 0x707f, mtch: 0x1073, handler: Exec::Csrrw },
        Matcher { mask: 0x707f, mtch: 0x2073, handler: Exec::Csrrs },
        Matcher { mask: 0x707f, mtch: 0x3073, handler: Exec::Csrrc },
        Matcher { mask: 0x707f, mtch: 0x5073, handler: Exec::Csrrwi },
        Matcher { mask: 0x707f, mtch: 0x6073, handler: Exec::Csrrsi },
        Matcher { mask: 0x707f, mtch: 0x7073, handler: Exec::Csrrci },
    ]
}

/// The decode table of RV64IMA with the privileged instructions; the rows of
/// instructions this hart does not implement halt it.
pub fn build_matchers() -> (r: Matchers)
    ensures
        r.wf(),
        r.matchers@ == matcher_table(),
{
    let table = vec![
        Matcher::new(0x707f, 0x63, Exec::Beq),
        Matcher::new(0x707f, 0x1063, Exec::Bne),
        Matcher::new(0x707f, 0x4063, Exec::Blt),
        Matcher::new(0x707f, 0x5063, Exec::Bge),
        Matcher::new(0x707f, 0x6063, Exec::Bltu),
        Matcher::new(0x707f, 0x7063, Exec::Bgeu),
        Matcher::new(0x707f, 0x67, Exec::Jalr),
        Matcher::new(0x7f, 0x6f, Exec::Jal),
        Matcher::new(0x7f, 0x37, Exec::Lui),
        Matcher::new(0x7f, 0x17, Exec::Auipc),
        Matcher::new(0x707f, 0x13, Exec::Addi),
        Matcher::new(0xfc00707f, 0x1013, Exec::Slli),
        Matcher::new(0x707f, 0x2013, Exec::Slti),
        Matcher::new(0x707f, 0x3013, Exec::Sltiu),
        Matcher::new(0x707f, 0x4013, Exec::Xori),
        Matcher::new(0xfc00707f, 0x5013, Exec::Srli),
        Matcher::new(0xfc00707f, 0x40005013, Exec::Srai),
        Matcher::new(0x707f, 0x6013, Exec::Ori),
        Matcher::new(0x707f, 0x7013, Exec::Andi),
        Matcher::new(0xfe00707f, 0x33, Exec::Add),
        Matcher::new(0xfe00707f, 0x40000033, Exec::Sub),
        Matcher::new(0xfe00707f, 0x1033, Exec::Sll),
        Matcher::new(0xfe00707f, 0x2033, Exec::Slt),
        Matcher::new(0xfe00707f, 0x3033, Exec::Sltu),
        Matcher::new(0xfe00707f, 0x4033, Exec::Xor),
        Matcher::new(0xfe00707f, 0x5033, Exec::Srl),
        Matcher::new(0xfe00707f, 0x40005033, Exec::Sra),
        Matcher::new(0xfe00707f, 0x6033, Exec::Or),
        Matcher::new(0xfe00707f, 0x7033, Exec::And),
        Matcher::new(0x707f, 0x1b, Exec::Addiw),
        Matcher::new(0xfe00707f, 0x101b, Exec::Slliw),
        Matcher::new(0xfe00707f, 0x501b, Exec::Srliw),
        Matcher::new(0xfe00707f, 0x4000501b, Exec::Sraiw),
        Matcher::new(0xfe00707f, 0x3b, Exec::Addw),
        Matcher::new(0xfe00707f, 0x4000003b, Exec::Subw),
        Matcher::new(0xfe00707f, 0x103b, Exec::Sllw),
        Matcher::new(0xfe00707f, 0x503b, Exec::Srlw),
        Matcher::new(0xfe00707f, 0x4000503b, Exec::Sraw),
        Matcher::new(0x707f, 0x3, Exec::Lb),
        Matcher::new(0x707f, 0x1003, Exec::Lh),
        Matcher::new(0x707f, 0x2003, Exec::Lw),
        Matcher::new(0x707f, 0x3003, Exec::Ld),
        Matcher::new(0x707f, 0x4003, Exec::Lbu),
        Matcher::new(0x707f, 0x5003, Exec::Lhu),
        Matcher::new(0x707f, 0x6003, Exec::Lwu),
        Matcher::new(0x707f, 0x23, Exec::Sb),
        Matcher::new(0x707f, 0x1023, Exec::Sh),
        Matcher::new(0x707f, 0x2023, Exec::Sw),
        Matcher::new(0x707f, 0x3023, Exec::Sd),
        Matcher::new(0x707f, 0xf, Exec::Fence),
        Matcher::new(0x707f, 0x100f, Exec::FenceI),
        Matcher::new(0xfe00707f, 0x2000033, Exec::Mul),
        Matcher::new(0xfe00707f, 0x2001033, Exec::Mulh),
        Matcher::new(0xfe00707f, 0x2002033, Exec::Unimplemented),
        Matcher::new(0xfe00707f, 0x2003033, Exec::Mulhu),
        Matcher::new(0xfe00707f, 0x2004033, Exec::Div),
        Matcher::new(0xfe00707f, 0x2005033, Exec::Divu),
        Matcher::new(0xfe00707f, 0x2006033, Exec::Rem),
        Matcher::new(0xfe00707f, 0x2007033, Exec::Remu),
        Matcher::new(0xfe00707f, 0x200003b, Exec::Mulw),
        Matcher::new(0xfe00707f, 0x200403b, Exec::Divw),
        Matcher::new(0xfe00707f, 0x200503b, Exec::Divuw),
        Matcher::new(0xfe00707f, 0x200603b, Exec::Remw),
        Matcher::new(0xfe00707f, 0x200703b, Exec::Remuw),
        Matcher::new(0xf800707f, 0x202f, Exec::AmoAddW),
        Matcher::new(0xf800707f, 0x2000202f, Exec::Unimplemented),
        Matcher::new(0xf800707f, 0x4000202f, Exec::Unimplemented),
        Matcher::new(0xf800707f, 0x6000202f, Exec::Unimplemented),
        Matcher::new(0xf800707f, 0x8000202f, Exec::Unimplemented),
        Matcher::new(0xf800707f, 0xa000202f, Exec::Unimplemented),
        Matcher::new(0xf800707f, 0xc000202f, Exec::Unimplemented),
        Matcher::new(0xf800707f, 0xe000202f, Exec::Unimplemented),
        Matcher::new(0xf800707f, 0x800202f, Exec::AmoSwapW),
        Matcher::new(0xf9f0707f, 0x1000202f, Exec::LrW),
        Matcher::new(0xf800707f, 0x1800202f, Exec::ScW),
        Matcher::new(0xf800707f, 0x302f, Exec::AmoAddD),
        Matcher::new(0xf800707f, 0x2000302f, Exec::Unimplemented),
        Matcher::new(0xf800707f, 0x4000302f, Exec::AmoOrD),
        Matcher::new(0xf800707f, 0x6000302f, Exec::AmoAndD),
        Matcher::new(0xf800707f, 0x8000302f, Exec::Unimplemented),
        Matcher::new(0xf800707f, 0xa000302f, Exec::Unimplemented),
        Matcher::new(0xf800707f, 0xc000302f, Exec::Unimplemented),
        Matcher::new(0xf800707f, 0xe000302f, Exec::Unimplemented),
        Matcher::new(0xf800707f, 0x800302f, Exec::AmoSwapD),
        Matcher::new(0xf9f0707f, 0x1000302f, Exec::LrD),
        Matcher::new(0xf800707f, 0x1800302f, Exec::ScD),
        Matcher::new(0xffffffff, 0x73, Exec::Ecall),
        Matcher::new(0xffffffff, 0x100073, Exec::Unimplemented),
        Matcher::new(0xffffffff, 0x200073, Exec::Unimplemented),
        Matcher::new(0xffffffff, 0x10200073, Exec::Sret),
        Matcher::new(0xffffffff, 0x30200073, Exec::Mret),
        Matcher::new(0xffffffff, 0x7b200073, Exec::Unimplemented),
        Matcher::new(0xfe007fff, 0x12000073, Exec::SfenceVma),
        Matcher::new(0xffffffff, 0x10500073, Exec::Wfi),
        Matcher::new(0x707f, 0x1073, Exec::Csrrw),
        Matcher::new(0x707f, 0x2073, Exec::Csrrs),
        Matcher::new(0x707f, 0x3073, Exec::Csrrc),
        Matcher::new(0x707f, 0x5073, Exec::Csrrwi),
        Matcher::new(0x707f, 0x6073, Exec::Csrrsi),
        Matcher::new(0x707f, 0x7073, Exec::Csrrci),
    ];
    assert(table@ =~= matcher_table());
    Matchers::new(table)
}

/// How many steps go between two looks at the timer.
pub const INTERRUPT_INTERVAL: u64 = 1000;

/// `new` is `old` after the timer was looked at: a timer that has not yet
/// expired is disarmed.
pub open spec fn interrupt_handled<M: Memory>(old: &Processor<M>, new: &Processor<M>) -> bool {
    *new == (if old.timer > old.insn_counter {
        Processor { timer: 0, ..*old }
    } else {
        *old
    })
}

/// One turn of the machine's main loop: execute an instruction and count it;
/// every `INTERRUPT_INTERVAL` turns look at the timer. Gives the effect of the
/// instruction and whether this was such a turn.
pub fn run_step<M: Memory>(cpu: &mut Processor<M>, matchers: &mut Matchers, counter: &mut u64) -> (r: Result<(Effect, bool), Halt>)
    requires
        old(cpu).wf(),
        old(matchers).wf(),
    ensures
        final(cpu).wf(),
        final(matchers).wf(),
        final(matchers).matchers == old(matchers).matchers,
        *final(counter) == if r is Ok { wrap64(*old(counter) + 1) } else { *old(counter) },
        exists|mid: Processor<M>, res: Result<Effect, Halt>|
            #![trigger stepped(&*old(cpu), &mid, res, old(matchers).matchers@)]
            {
                &&& stepped(&*old(cpu), &mid, res, old(matchers).matchers@)
                &&& match res {
                    Err(h) => r == Err::<(Effect, bool), Halt>(h) && *final(cpu) == mid,
                    Ok(e) => {
                        let due = *final(counter) % INTERRUPT_INTERVAL == 0;
                        &&& r == Ok::<(Effect, bool), Halt>((e, due))
                        &&& if due {
                            interrupt_handled(&mid, &*final(cpu))
                        } else {
                            *final(cpu) == mid
                        }
                    },
                }
            },
{
    let ghost start = *cpu;
    let res = cpu.try_step(matchers);
    let ghost mid = *cpu;
    let r = match res {
        Ok(e) => {
            *counter = add_wrap(*counter, 1);
            let due = *counter % INTERRUPT_INTERVAL == 0;
            if due {
                cpu.handle_interrupt();
            }
            Ok((e, due))
        },
        Err(h) => Err(h),
    };
    proof {
        assert(stepped(&start, &mid, res, old(matchers).matchers@));
    }
    r
}

} // verus!
