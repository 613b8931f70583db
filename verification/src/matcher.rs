use vstd::prelude::*;
use crate::arith::{wrap64, add_wrap};
use crate::insns::{
    auipc, beq, bge, bgeu, blt, bltu, bne, branched, do_trap, ecall, ecall_outcome, jal, jalr, lui, mret,
    mret_outcome, sret, sret_outcome, trap_supported, trapped,
};
use crate::insns::amo::{self, AmoOp, amo_outcome, sc_outcome};
use crate::insns::comp;
use crate::insns::csr::{self, csr_outcome};
use crate::insns::mem::{self, load_addr, load_outcome, store_addr, store_outcome, untouched};
use crate::memory::{Memory, mem_value};
use crate::itypes::{Btype, Itype, Jtype, Rtype, Stype, Utype, i_imm, j_imm, u_imm, rd_of, rs1_of, rs2_of};

use crate::mmu::{Fault, MemoryOp, Mmu};
use crate::processor::{Effect, Halt, Processor};

verus! {

/// The number of entries of the decode cache.
pub const MATCHER_CACHE_SIZE: usize = 10000;

/// What an instruction does: one handler for each row of the decode table.
#[derive(Clone, Copy, PartialEq, Eq, Structural, Debug)]
pub enum Exec {
    Beq,
    Bne,
    Blt,
    Bge,
    Bltu,
    Bgeu,
    Jalr,
    Jal,
    Lui,
    Auipc,
    Addi,
    Slli,
    Slti,
    Sltiu,
    Xori,
    Srli,
    Srai,
    Ori,
    Andi,
    Add,
    Sub,
    Sll,
    Slt,
    Sltu,
    Xor,
    Srl,
    Sra,
    Or,
    And,
    Addiw,
    Slliw,
    Srliw,
    Sraiw,
    Addw,
    Subw,
    Sllw,
    Srlw,
    Sraw,
    Lb,
    Lh,
    Lw,
    Ld,
    Lbu,
    Lhu,
    Lwu,
    Sb,
    Sh,
    Sw,
    Sd,
    Fence,
    FenceI,
    Mul,
    Mulh,
    Mulhu,
    Div,
    Divu,
    Rem,
    Remu,
    Mulw,
    Divw,
    Divuw,
    Remw,
    Remuw,
    AmoAddW,
    AmoSwapW,
    LrW,
    ScW,
    AmoAddD,
    AmoOrD,
    AmoAndD,
    AmoSwapD,
    LrD,
    ScD,
    Ecall,
    Sret,
    Mret,
    SfenceVma,
    Wfi,
    Csrrw,
    Csrrs,
    Csrrc,
    Csrrwi,
    Csrrsi,
    Csrrci,
    Unimplemented,
}

/// The handler's outcome is no effect.
pub open spec fn nothing(r: Result<Effect, Halt>) -> bool {
    r == Ok::<Effect, Halt>(Effect::Nothing)
}

/// A handler that succeeds has no effect.
pub open spec fn quiet(r: Result<Effect, Halt>) -> bool {
    r matches Ok(e) ==> e == Effect::Nothing
}

/// The result without its effect.
pub open spec fn as_unit(r: Result<Effect, Halt>) -> Result<(), Halt> {
    match r {
        Ok(_) => Ok(()),
        Err(h) => Err(h),
    }
}

fn unit(r: Result<(), Halt>) -> (e: Result<Effect, Halt>)
    ensures
        quiet(e),
        as_unit(e) == r,
{
    match r {
        Ok(u) => {
            assert(u == ());
            Ok(Effect::Nothing)
        },
        Err(h) => Err(h),
    }
}

/// `new` is `old` after a fence: the memory unit's caches are dropped and the
/// program counter moves on.
pub open spec fn flushed<M: Memory>(old: &Processor<M>, new: &Processor<M>) -> bool {
    &&& new.wf()
    &&& new.pc == old.next_pc()
    &&& new.mmu.mem == old.mmu.mem
    &&& new.mmu.prv == old.mmu.prv
    &&& new.mmu.insn_prv == old.mmu.insn_prv
    &&& new.mmu.sv39 == old.mmu.sv39
    &&& new.mmu.asid == old.mmu.asid
    &&& new.mmu.ppn == old.mmu.ppn
    &&& new.regs == old.regs
    &&& new.csrs == old.csrs
    &&& new.trigger == old.trigger
    &&& new.insn_counter == old.insn_counter
    &&& new.timer == old.timer
    &&& new.ecall_counter == old.ecall_counter
}

/// `new` is `old` after the handler `e` ran on the instruction word `insn`
/// with result `r`.
pub open spec fn executed<M: Memory>(e: Exec, old: &Processor<M>, new: &Processor<M>, insn: u32, r: Result<Effect, Halt>) -> bool {
    match e {
        Exec::Beq => nothing(r) && branched(old, new, Btype(insn), old.regs@[rs1_of(insn)] == old.regs@[rs2_of(insn)]),
        Exec::Bne => nothing(r) && branched(old, new, Btype(insn), old.regs@[rs1_of(insn)] != old.regs@[rs2_of(insn)]),
        Exec::Blt => nothing(r) && branched(old, new, Btype(insn), (old.regs@[rs1_of(insn)] as i64) < old.regs@[rs2_of(insn)] as i64),
        Exec::Bge => nothing(r) && branched(old, new, Btype(insn), old.regs@[rs1_of(insn)] as i64 >= old.regs@[rs2_of(insn)] as i64),
        Exec::Bltu => nothing(r) && branched(old, new, Btype(insn), old.regs@[rs1_of(insn)] < old.regs@[rs2_of(insn)]),
        Exec::Bgeu => nothing(r) && branched(old, new, Btype(insn), old.regs@[rs1_of(insn)] >= old.regs@[rs2_of(insn)]),
        Exec::Jalr => nothing(r) && old.wrote_reg(new, rd_of(insn), old.next_pc(), wrap64(old.regs@[rs1_of(insn)] + i_imm(insn)) & !1u64),
        Exec::Jal => nothing(r) && old.wrote_reg(new, rd_of(insn), old.next_pc(), wrap64(old.pc + j_imm(insn))),
        Exec::Lui => nothing(r) && old.wrote_reg(new, rd_of(insn), wrap64(u_imm(insn) as int), old.next_pc()),
        Exec::Auipc => nothing(r) && old.wrote_reg(new, rd_of(insn), wrap64(old.pc + u_imm(insn)), old.next_pc()),
        Exec::Addi => nothing(r) && old.wrote_reg(new, rd_of(insn), comp::imm_value::<comp::Add>(old.regs@, insn), old.next_pc()),
        Exec::Slli => nothing(r) && old.wrote_reg(new, rd_of(insn), comp::imm_value::<comp::Sll>(old.regs@, insn), old.next_pc()),
        Exec::Slti => nothing(r) && old.wrote_reg(new, rd_of(insn), comp::imm_value::<comp::Slt>(old.regs@, insn), old.next_pc()),
        Exec::Sltiu => nothing(r) && old.wrote_reg(new, rd_of(insn), comp::immu_value::<comp::Slt>(old.regs@, insn), old.next_pc()),
        Exec::Xori => nothing(r) && old.wrote_reg(new, rd_of(insn), comp::imm_value::<comp::Xor>(old.regs@, insn), old.next_pc()),
        Exec::Srli => nothing(r) && old.wrote_reg(new, rd_of(insn), comp::immu_value::<comp::Srl>(old.regs@, insn), old.next_pc()),
        Exec::Srai => nothing(r) && old.wrote_reg(new, rd_of(insn), comp::imm_value::<comp::Sra>(old.regs@, insn), old.next_pc()),
        Exec::Ori => nothing(r) && old.wrote_reg(new, rd_of(insn), comp::imm_value::<comp::Or>(old.regs@, insn), old.next_pc()),
        Exec::Andi => nothing(r) && old.wrote_reg(new, rd_of(insn), comp::imm_value::<comp::And>(old.regs@, insn), old.next_pc()),
        Exec::Add => nothing(r) && old.wrote_reg(new, rd_of(insn), comp::reg_value::<comp::Add>(old.regs@, insn), old.next_pc()),
        Exec::Sub => nothing(r) && old.wrote_reg(new, rd_of(insn), comp::reg_value::<comp::Sub>(old.regs@, insn), old.next_pc()),
        Exec::Sll => nothing(r) && old.wrote_reg(new, rd_of(insn), comp::reg_value::<comp::Sll>(old.regs@, insn), old.next_pc()),
        Exec::Slt => nothing(r) && old.wrote_reg(new, rd_of(insn), comp::reg_value::<comp::Slt>(old.regs@, insn), old.next_pc()),
        Exec::Sltu => nothing(r) && old.wrote_reg(new, rd_of(insn), comp::regu_value::<comp::Slt>(old.regs@, insn), old.next_pc()),
        Exec::Xor => nothing(r) && old.wrote_reg(new, rd_of(insn), comp::reg_value::<comp::Xor>(old.regs@, insn), old.next_pc()),
        Exec::Srl => nothing(r) && old.wrote_reg(new, rd_of(insn), comp::regu_value::<comp::Srl>(old.regs@, insn), old.next_pc()),
        Exec::Sra => nothing(r) && old.wrote_reg(new, rd_of(insn), comp::reg_value::<comp::Sra>(old.regs@, insn), old.next_pc()),
        Exec::Or => nothing(r) && old.wrote_reg(new, rd_of(insn), comp::reg_value::<comp::Or>(old.regs@, insn), old.next_pc()),
        Exec::And => nothing(r) && old.wrote_reg(new, rd_of(insn), comp::reg_value::<comp::And>(old.regs@, insn), old.next_pc()),
        Exec::Addiw => nothing(r) && old.wrote_reg(new, rd_of(insn), comp::immw_value::<comp::Add>(old.regs@, insn), old.next_pc()),
        Exec::Slliw => nothing(r) && old.wrote_reg(new, rd_of(insn), comp::immw_value::<comp::Sll>(old.regs@, insn), old.next_pc()),
        Exec::Srliw => nothing(r) && old.wrote_reg(new, rd_of(insn), comp::immwu_value::<comp::Srl>(old.regs@, insn), old.next_pc()),
        Exec::Sraiw => nothing(r) && old.wrote_reg(new, rd_of(insn), comp::immw_value::<comp::Sra>(old.regs@, insn), old.next_pc()),
        Exec::Addw => nothing(r) && old.wrote_reg(new, rd_of(insn), comp::regw_value::<comp::Add>(old.regs@, insn), old.next_pc()),
        Exec::Subw => nothing(r) && old.wrote_reg(new, rd_of(insn), comp::regw_value::<comp::Sub>(old.regs@, insn), old.next_pc()),
        Exec::Sllw => nothing(r) && old.wrote_reg(new, rd_of(insn), comp::regw_value::<comp::Sll>(old.regs@, insn), old.next_pc()),
        Exec::Srlw => nothing(r) && old.wrote_reg(new, rd_of(insn), comp::regw_value::<comp::Srl>(old.regs@, insn), old.next_pc()),
        Exec::Sraw => nothing(r) && old.wrote_reg(new, rd_of(insn), comp::regw_value::<comp::Sra>(old.regs@, insn), old.next_pc()),
        Exec::Lb => quiet(r) && load_outcome(old, new, as_unit(r), load_addr(old, Itype(insn)), rd_of(insn), 1, true),
        Exec::Lh => quiet(r) && load_outcome(old, new, as_unit(r), load_addr(old, Itype(insn)), rd_of(insn), 2, true),
        Exec::Lw => quiet(r) && load_outcome(old, new, as_unit(r), load_addr(old, Itype(insn)), rd_of(insn), 4, true),
        Exec::Ld => quiet(r) && load_outcome(old, new, as_unit(r), load_addr(old, Itype(insn)), rd_of(insn), 8, false),
        Exec::Lbu => quiet(r) && load_outcome(old, new, as_unit(r), load_addr(old, Itype(insn)), rd_of(insn), 1, false),
        Exec::Lhu => quiet(r) && load_outcome(old, new, as_unit(r), load_addr(old, Itype(insn)), rd_of(insn), 2, false),
        Exec::Lwu => quiet(r) && load_outcome(old, new, as_unit(r), load_addr(old, Itype(insn)), rd_of(insn), 4, false),
        Exec::Sb => quiet(r) && store_outcome(old, new, as_unit(r), store_addr(old, Stype(insn)), 1, (old.regs@[rs2_of(insn)] as u8) as u64),
        Exec::Sh => quiet(r) && store_outcome(old, new, as_unit(r), store_addr(old, Stype(insn)), 2, (old.regs@[rs2_of(insn)] as u16) as u64),
        Exec::Sw => quiet(r) && store_outcome(old, new, as_unit(r), store_addr(old, Stype(insn)), 4, (old.regs@[rs2_of(insn)] as u32) as u64),
        Exec::Sd => quiet(r) && store_outcome(old, new, as_unit(r), store_addr(old, Stype(insn)), 8, old.regs@[rs2_of(insn)]),
        Exec::Fence => nothing(r) && flushed(old, new),
        Exec::FenceI => nothing(r) && flushed(old, new),
        Exec::Mul => nothing(r) && old.wrote_reg(new, rd_of(insn), comp::reg_value::<comp::Mul>(old.regs@, insn), old.next_pc()),
        Exec::Mulh => nothing(r) && old.wrote_reg(new, rd_of(insn), comp::reg_value::<comp::Mulh>(old.regs@, insn), old.next_pc()),
        Exec::Mulhu => nothing(r) && old.wrote_reg(new, rd_of(insn), comp::regu_value::<comp::Mulh>(old.regs@, insn), old.next_pc()),
        Exec::Div => nothing(r) && old.wrote_reg(new, rd_of(insn), comp::reg_value::<comp::Div>(old.regs@, insn), old.next_pc()),
        Exec::Divu => nothing(r) && old.wrote_reg(new, rd_of(insn), comp::regu_value::<comp::Div>(old.regs@, insn), old.next_pc()),
        Exec::Rem => nothing(r) && old.wrote_reg(new, rd_of(insn), comp::reg_value::<comp::Rem>(old.regs@, insn), old.next_pc()),
        Exec::Remu => nothing(r) && old.wrote_reg(new, rd_of(insn), comp::regu_value::<comp::Rem>(old.regs@, insn), old.next_pc()),
        Exec::Mulw => nothing(r) && old.wrote_reg(new, rd_of(insn), comp::regw_value::<comp::Mul>(old.regs@, insn), old.next_pc()),
        Exec::Divw => nothing(r) && old.wrote_reg(new, rd_of(insn), comp::regw_value::<comp::Div>(old.regs@, insn), old.next_pc()),
        Exec::Divuw => nothing(r) && old.wrote_reg(new, rd_of(insn), comp::reguw_value::<comp::Div>(old.regs@, insn), old.next_pc()),
        Exec::Remw => nothing(r) && old.wrote_reg(new, rd_of(insn), comp::regw_value::<comp::Rem>(old.regs@, insn), old.next_pc()),
        Exec::Remuw => nothing(r) && old.wrote_reg(new, rd_of(insn), comp::reguw_value::<comp::Rem>(old.regs@, insn), old.next_pc()),
        Exec::AmoAddW => quiet(r) && amo_outcome(old, new, as_unit(r), Rtype(insn), AmoOp::Add, false),
        Exec::AmoSwapW => quiet(r) && amo_outcome(old, new, as_unit(r), Rtype(insn), AmoOp::Swap, false),
        Exec::LrW => quiet(r) && load_outcome(old, new, as_unit(r), old.regs@[rs1_of(insn)], rd_of(insn), 4, true),
        Exec::ScW => quiet(r) && sc_outcome(old, new, as_unit(r), Rtype(insn), 4, (old.regs@[rs2_of(insn)] as u32) as u64),
        Exec::AmoAddD => quiet(r) && amo_outcome(old, new, as_unit(r), Rtype(insn), AmoOp::Add, true),
        Exec::AmoOrD => quiet(r) && amo_outcome(old, new, as_unit(r), Rtype(insn), AmoOp::Or, true),
        Exec::AmoAndD => quiet(r) && amo_outcome(old, new, as_unit(r), Rtype(insn), AmoOp::And, true),
        Exec::AmoSwapD => quiet(r) && amo_outcome(old, new, as_unit(r), Rtype(insn), AmoOp::Swap, true),
        Exec::LrD => quiet(r) && load_outcome(old, new, as_unit(r), old.regs@[rs1_of(insn)], rd_of(insn), 8, false),
        Exec::ScD => quiet(r) && sc_outcome(old, new, as_unit(r), Rtype(insn), 8, old.regs@[rs2_of(insn)]),
        Exec::Ecall => ecall_outcome(old, new, r),
        Exec::Sret => nothing(r) && sret_outcome(old, new),
        Exec::Mret => nothing(r) && mret_outcome(old, new),
        Exec::SfenceVma => nothing(r) && flushed(old, new),
        Exec::Wfi => nothing(r) && *new == (Processor { pc: old.next_pc(), ..*old }),
        Exec::Csrrw => quiet(r) && csr_outcome::<M, csr::ReadWrite>(old, new, as_unit(r), insn),
        Exec::Csrrs => quiet(r) && csr_outcome::<M, csr::ReadSet>(old, new, as_unit(r), insn),
        Exec::Csrrc => quiet(r) && csr_outcome::<M, csr::ReadClear>(old, new, as_unit(r), insn),
        Exec::Csrrwi => quiet(r) && csr_outcome::<M, csr::ReadWriteImm>(old, new, as_unit(r), insn),
        Exec::Csrrsi => quiet(r) && csr_outcome::<M, csr::ReadSetImm>(old, new, as_unit(r), insn),
        Exec::Csrrci => quiet(r) && csr_outcome::<M, csr::ReadClearImm>(old, new, as_unit(r), insn),
        Exec::Unimplemented => r == Err::<Effect, Halt>(Halt::Unimplemented(insn)) && *new == *old,
    }
}

/// A row of the decode table: the words `w` with `w & mask == mtch` are
/// handled by `handler`.
#[derive(Clone, Copy)]
pub struct Matcher {
    pub mask: u32,
    pub mtch: u32,
    pub handler: Exec,
}

impl Matcher {
    /// Whether this row accepts the instruction word `insn`.
    pub open spec fn accepts(&self, insn: u32) -> bool {
        insn & self.mask == self.mtch
    }

    pub fn new(mask: u32, mtch: u32, exec: Exec) -> (r: Self)
        ensures
            r == (Matcher { mask, mtch, handler: exec }),
    {
        Self { mask, mtch, handler: exec }
    }

    pub fn matches(&self, insn: u32) -> (r: bool)
        ensures
            r == self.accepts(insn),
    {
        insn & self.mask == self.mtch
    }

    /// Runs the handler of this row on the instruction word `insn`.
    #[verifier::rlimit(40)]
    pub fn exec<M: Memory>(&self, p: &mut Processor<M>, insn: u32) -> (r: Result<Effect, Halt>)
        requires
            old(p).wf(),
        ensures
            final(p).wf(),
            executed(self.handler, &*old(p), &*final(p), insn, r),
            r is Ok ==> final(p).insn_counter == old(p).insn_counter,
    {
        match self.handler {
            Exec::Beq => {
                beq(p, Btype(insn));
                Ok(Effect::Nothing)
            },
            Exec::Bne => {
                bne(p, Btype(insn));
                Ok(Effect::Nothing)
            },
            Exec::Blt => {
                blt(p, Btype(insn));
                Ok(Effect::Nothing)
            },
            Exec::Bge => {
                bge(p, Btype(insn));
                Ok(Effect::Nothing)
            },
            Exec::Bltu => {
                bltu(p, Btype(insn));
                Ok(Effect::Nothing)
            },
            Exec::Bgeu => {
                bgeu(p, Btype(insn));
                Ok(Effect::Nothing)
            },
            Exec::Jalr => {
                jalr(p, Itype(insn));
                Ok(Effect::Nothing)
            },
            Exec::Jal => {
                jal(p, Jtype(insn));
                Ok(Effect::Nothing)
            },
            Exec::Lui => {
                lui(p, Utype(insn));
                Ok(Effect::Nothing)
            },
            Exec::Auipc => {
                auipc(p, Utype(insn));
                Ok(Effect::Nothing)
            },
            Exec::Addi => {
                comp::imm::<M, comp::Add>(p, Itype(insn));
                Ok(Effect::Nothing)
            },
            Exec::Slli => {
                comp::imm::<M, comp::Sll>(p, Itype(insn));
                Ok(Effect::Nothing)
            },
            Exec::Slti => {
                comp::imm::<M, comp::Slt>(p, Itype(insn));
                Ok(Effect::Nothing)
            },
            Exec::Sltiu => {
                comp::immu::<M, comp::Slt>(p, Itype(insn));
                Ok(Effect::Nothing)
            },
            Exec::Xori => {
                comp::imm::<M, comp::Xor>(p, Itype(insn));
                Ok(Effect::Nothing)
            },
            Exec::Srli => {
                comp::immu::<M, comp::Srl>(p, Itype(insn));
                Ok(Effect::Nothing)
            },
            Exec::Srai => {
                comp::imm::<M, comp::Sra>(p, Itype(insn));
                Ok(Effect::Nothing)
            },
            Exec::Ori => {
                comp::imm::<M, comp::Or>(p, Itype(insn));
                Ok(Effect::Nothing)
            },
            Exec::Andi => {
                comp::imm::<M, comp::And>(p, Itype(insn));
                Ok(Effect::Nothing)
            },
            Exec::Add => {
                comp::reg::<M, comp::Add>(p, Rtype(insn));
                Ok(Effect::Nothing)
            },
            Exec::Sub => {
                comp::reg::<M, comp::Sub>(p, Rtype(insn));
                Ok(Effect::Nothing)
            },
            Exec::Sll => {
                comp::reg::<M, comp::Sll>(p, Rtype(insn));
                Ok(Effect::Nothing)
            },
            Exec::Slt => {
                comp::reg::<M, comp::Slt>(p, Rtype(insn));
                Ok(Effect::Nothing)
            },
            Exec::Sltu => {
                comp::regu::<M, comp::Slt>(p, Rtype(insn));
                Ok(Effect::Nothing)
            },
            Exec::Xor => {
                comp::reg::<M, comp::Xor>(p, Rtype(insn));
                Ok(Effect::Nothing)
            },
            Exec::Srl => {
                comp::regu::<M, comp::Srl>(p, Rtype(insn));
                Ok(Effect::Nothing)
            },
            Exec::Sra => {
                comp::reg::<M, comp::Sra>(p, Rtype(insn));
                Ok(Effect::Nothing)
            },
            Exec::Or => {
                comp::reg::<M, comp::Or>(p, Rtype(insn));
                Ok(Effect::Nothing)
            },
            Exec::And => {
                comp::reg::<M, comp::And>(p, Rtype(insn));
                Ok(Effect::Nothing)
            },
            Exec::Addiw => {
                comp::immw::<M, comp::Add>(p, Itype(insn));
                Ok(Effect::Nothing)
            },
            Exec::Slliw => {
                comp::immw::<M, comp::Sll>(p, Itype(insn));
                Ok(Effect::Nothing)
            },
            Exec::Srliw => {
                comp::immwu::<M, comp::Srl>(p, Itype(insn));
                Ok(Effect::Nothing)
            },
            Exec::Sraiw => {
                comp::immw::<M, comp::Sra>(p, Itype(insn));
                Ok(Effect::Nothing)
            },
            Exec::Addw => {
                comp::regw::<M, comp::Add>(p, Rtype(insn));
                Ok(Effect::Nothing)
            },
            Exec::Subw => {
                comp::regw::<M, comp::Sub>(p, Rtype(insn));
                Ok(Effect::Nothing)
            },
            Exec::Sllw => {
                comp::regw::<M, comp::Sll>(p, Rtype(insn));
                Ok(Effect::Nothing)
            },
            Exec::Srlw => {
                comp::regw::<M, comp::Srl>(p, Rtype(insn));
                Ok(Effect::Nothing)
            },
            Exec::Sraw => {
                comp::regw::<M, comp::Sra>(p, Rtype(insn));
                Ok(Effect::Nothing)
            },
            Exec::Lb => {
                unit(mem::lb(p, Itype(insn)))
            },
            Exec::Lh => {
                unit(mem::lh(p, Itype(insn)))
            },
            Exec::Lw => {
                unit(mem::lw(p, Itype(insn)))
            },
            Exec::Ld => {
                unit(mem::ld(p, Itype(insn)))
            },
            Exec::Lbu => {
                unit(mem::lbu(p, Itype(insn)))
            },
            Exec::Lhu => {
                unit(mem::lhu(p, Itype(insn)))
            },
            Exec::Lwu => {
                unit(mem::lwu(p, Itype(insn)))
            },
            Exec::Sb => {
                unit(mem::sb(p, Stype(insn)))
            },
            Exec::Sh => {
                unit(mem::sh(p, Stype(insn)))
            },
            Exec::Sw => {
                unit(mem::sw(p, Stype(insn)))
            },
            Exec::Sd => {
                unit(mem::sd(p, Stype(insn)))
            },
            Exec::Fence => {
                p.mmu.flush_cache();
                p.advance_pc();
                Ok(Effect::Nothing)
            },
            Exec::FenceI => {
                p.mmu.flush_cache();
                p.advance_pc();
                Ok(Effect::Nothing)
            },
            Exec::Mul => {
                comp::reg::<M, comp::Mul>(p, Rtype(insn));
                Ok(Effect::Nothing)
            },
            Exec::Mulh => {
                comp::reg::<M, comp::Mulh>(p, Rtype(insn));
                Ok(Effect::Nothing)
            },
            Exec::Mulhu => {
                comp::regu::<M, comp::Mulh>(p, Rtype(insn));
                Ok(Effect::Nothing)
            },
            Exec::Div => {
                comp::reg::<M, comp::Div>(p, Rtype(insn));
                Ok(Effect::Nothing)
            },
            Exec::Divu => {
                comp::regu::<M, comp::Div>(p, Rtype(insn));
                Ok(Effect::Nothing)
            },
            Exec::Rem => {
                comp::reg::<M, comp::Rem>(p, Rtype(insn));
                Ok(Effect::Nothing)
            },
            Exec::Remu => {
                comp::regu::<M, comp::Rem>(p, Rtype(insn));
                Ok(Effect::Nothing)
            },
            Exec::Mulw => {
                comp::regw::<M, comp::Mul>(p, Rtype(insn));
                Ok(Effect::Nothing)
            },
            Exec::Divw => {
                comp::regw::<M, comp::Div>(p, Rtype(insn));
                Ok(Effect::Nothing)
            },
            Exec::Divuw => {
                comp::reguw::<M, comp::Div>(p, Rtype(insn));
                Ok(Effect::Nothing)
            },
            Exec::Remw => {
                comp::regw::<M, comp::Rem>(p, Rtype(insn));
                Ok(Effect::Nothing)
            },
            Exec::Remuw => {
                comp::reguw::<M, comp::Rem>(p, Rtype(insn));
                Ok(Effect::Nothing)
            },
            Exec::AmoAddW => {
                unit(amo::amoaddw(p, Rtype(insn)))
            },
            Exec::AmoSwapW => {
                unit(amo::amoswapw(p, Rtype(insn)))
            },
            Exec::LrW => {
                unit(amo::lrw(p, Rtype(insn)))
            },
            Exec::ScW => {
                unit(amo::scw(p, Rtype(insn)))
            },
            Exec::AmoAddD => {
                unit(amo::amoaddd(p, Rtype(insn)))
            },
            Exec::AmoOrD => {
                unit(amo::amoord(p, Rtype(insn)))
            },
            Exec::AmoAndD => {
                unit(amo::amoandd(p, Rtype(insn)))
            },
            Exec::AmoSwapD => {
                unit(amo::amoswapd(p, Rtype(insn)))
            },
            Exec::LrD => {
                unit(amo::lrd(p, Rtype(insn)))
            },
            Exec::ScD => {
                unit(amo::scd(p, Rtype(insn)))
            },
            Exec::Ecall => {
                let prv = p.csrs.prv;
                if prv == 0 || prv == 1 || prv == 3 {
                    ecall(p, Itype(insn))
                } else {
                    Err(Halt::UnsupportedPrivilege(prv))
                }
            },
            Exec::Sret => {
                sret(p, Itype(insn));
                Ok(Effect::Nothing)
            },
            Exec::Mret => {
                mret(p, Itype(insn));
                Ok(Effect::Nothing)
            },
            Exec::SfenceVma => {
                p.mmu.flush_cache();
                p.advance_pc();
                Ok(Effect::Nothing)
            },
            Exec::Wfi => {
                p.advance_pc();
                Ok(Effect::Nothing)
            },
            Exec::Csrrw => {
                unit(csr::insn::<M, csr::ReadWrite>(p, Itype(insn)))
            },
            Exec::Csrrs => {
                unit(csr::insn::<M, csr::ReadSet>(p, Itype(insn)))
            },
            Exec::Csrrc => {
                unit(csr::insn::<M, csr::ReadClear>(p, Itype(insn)))
            },
            Exec::Csrrwi => {
                unit(csr::insn::<M, csr::ReadWriteImm>(p, Itype(insn)))
            },
            Exec::Csrrsi => {
                unit(csr::insn::<M, csr::ReadSetImm>(p, Itype(insn)))
            },
            Exec::Csrrci => {
                unit(csr::insn::<M, csr::ReadClearImm>(p, Itype(insn)))
            },
            Exec::Unimplemented => Err(Halt::Unimplemented(insn)),
        }
    }
}

/// Whether row `k` of `ms` is the first row that accepts `insn`.
pub open spec fn first_match(ms: Seq<Matcher>, insn: u32, k: int) -> bool {
    &&& 0 <= k < ms.len()
    &&& ms[k].accepts(insn)
    &&& forall|j: int| 0 <= j < k ==> !(#[trigger] ms[j]).accepts(insn)
}

/// Whether no row of `ms` accepts `insn`.
pub open spec fn no_match(ms: Seq<Matcher>, insn: u32) -> bool {
    forall|j: int| 0 <= j < ms.len() ==> !(#[trigger] ms[j]).accepts(insn)
}

/// The lookup gives one answer for a word whatever the cache holds: the
/// first row that accepts it.
pub proof fn lemma_lookup_unique(ms: Seq<Matcher>, insn: u32, k1: int, k2: int)
    requires
        first_match(ms, insn, k1),
        first_match(ms, insn, k2),
    ensures
        k1 == k2,
{
    if k1 < k2 {
        assert(!ms[k1].accepts(insn));
    } else if k2 < k1 {
        assert(!ms[k2].accepts(insn));
    }
}

/// The decode table with a direct-mapped cache of earlier lookups: entry
/// `w % MATCHER_CACHE_SIZE` remembers the word `w` and the row found for it.
pub struct Matchers {
    pub matchers: Vec<Matcher>,
    pub matcher_cache: Vec<(u32, usize)>,
}

impl Matchers {
    /// Cache entry `k` is either unused (its word does not belong there, or
    /// its row is past the table), or names the first row that accepts its word.
    pub open spec fn entry_ok(&self, k: int) -> bool {
        let (w, m) = self.matcher_cache@[k];
        w as int % MATCHER_CACHE_SIZE as int == k && m < self.matchers@.len() ==> first_match(self.matchers@, w, m as int)
    }

    pub open spec fn wf(&self) -> bool {
        &&& self.matcher_cache@.len() == MATCHER_CACHE_SIZE
        &&& forall|k: int| 0 <= k < MATCHER_CACHE_SIZE ==> #[trigger] self.entry_ok(k)
    }

    pub fn new(matchers: Vec<Matcher>) -> (r: Self)
        ensures
            r.wf(),
            r.matchers@ == matchers@,
    {
        let mut cache: Vec<(u32, usize)> = Vec::new();
        while cache.len() < MATCHER_CACHE_SIZE
            invariant
                cache@.len() <= MATCHER_CACHE_SIZE,
                forall|k: int| 0 <= k < cache@.len() ==> #[trigger] cache@[k] == (0u32, usize::MAX),
            decreases MATCHER_CACHE_SIZE - cache@.len(),
        {
            cache.push((0, usize::MAX));
        }
        let rows: usize = matchers.len();
        let r = Matchers { matchers, matcher_cache: cache };
        assert(r.matchers@.len() == rows);
        assert forall|k: int| 0 <= k < MATCHER_CACHE_SIZE implies #[trigger] r.entry_ok(k) by {
            assert(r.matcher_cache@[k] == (0u32, usize::MAX));
        }
        r
    }

    /// Whether some row accepts `insn`.
    pub fn has_match(&self, insn: u32) -> (r: bool)
        ensures
            r == !no_match(self.matchers@, insn),
    {
        let mut i: usize = 0;
        while i < self.matchers.len()
            invariant
                i <= self.matchers@.len(),
                forall|j: int| 0 <= j < i ==> !(#[trigger] self.matchers@[j]).accepts(insn),
            decreases self.matchers@.len() - i,
        {
            if self.matchers[i].matches(insn) {
                return true;
            }
            i += 1;
        }
        false
    }

    /// The row that handles `insn`, which some row accepts: the first row
    /// that accepts it. The answer is remembered in the cache.
    pub fn find_for(&mut self, insn: u32) -> (r: usize)
        requires
            old(self).wf(),
            !no_match(old(self).matchers@, insn),
        ensures
            final(self).wf(),
            final(self).matchers == old(self).matchers,
            first_match(old(self).matchers@, insn, r as int),
    {
        let cache_idx = (insn as usize) % MATCHER_CACHE_SIZE;
        let (cinsn, cmatcher) = self.matcher_cache[cache_idx];
        if cinsn == insn && cmatcher < self.matchers.len() {
            proof {
                assert(self.entry_ok(cache_idx as int));
            }
            return cmatcher;
        }
        Self::find_for_slow(self, insn)
    }

    /// Looks `insn` up row by row and remembers the row found.
    fn find_for_slow(&mut self, insn: u32) -> (r: usize)
        requires
            old(self).wf(),
            !no_match(old(self).matchers@, insn),
        ensures
            final(self).wf(),
            final(self).matchers == old(self).matchers,
            first_match(old(self).matchers@, insn, r as int),
    {
        let mut i: usize = 0;
        while i < self.matchers.len()
            invariant
                *self == *old(self),
                self.wf(),
                i <= self.matchers@.len(),
                forall|j: int| 0 <= j < i ==> !(#[trigger] self.matchers@[j]).accepts(insn),
            decreases self.matchers@.len() - i,
        {
            if self.matchers[i].matches(insn) {
                let cache_idx = (insn as usize) % MATCHER_CACHE_SIZE;
                let ghost before = *self;
                self.matcher_cache.set(cache_idx, (insn, i));
                proof {
                    assert forall|k: int| 0 <= k < MATCHER_CACHE_SIZE implies #[trigger] self.entry_ok(k) by {
                        if k != cache_idx as int {
                            assert(before.entry_ok(k));
                        }
                    }
                }
                return i;
            }
            i += 1;
        }
        proof {
            assert(no_match(old(self).matchers@, insn));
        }
        0
    }
}

/// The instruction word at the program counter, when the fetch succeeds.
pub open spec fn fetched_word<M: Memory>(p: &Processor<M>) -> Result<u32, Fault> {
    match p.mmu.access(p.pc, MemoryOp::Fetch, p.mmu.insn_prv, 4) {
        Ok(pa) => Ok(mem_value(&p.mmu.mem, pa, 4) as u32),
        Err(e) => Err(e),
    }
}

/// `new` is `old` after one step with the decode table `ms`: fetch the word at
/// the program counter (a refused fetch traps with cause 12), find its row,
/// run the row's handler and count the instruction.
pub open spec fn stepped<M: Memory>(old: &Processor<M>, new: &Processor<M>, r: Result<Effect, Halt>, ms: Seq<Matcher>) -> bool {
    match fetched_word(old) {
        Err(Fault::PageFault) => if trap_supported(&old.csrs, 12) {
            r == Ok::<Effect, Halt>(Effect::Nothing) && trapped(old, new, 12, old.pc)
        } else {
            r == Err::<Effect, Halt>(Halt::UnsupportedTrapMode) && untouched(old, new)
        },
        Err(Fault::Unmapped) => r == Err::<Effect, Halt>(Halt::Unmapped) && untouched(old, new),
        Ok(insn) => if no_match(ms, insn) {
            r == Err::<Effect, Halt>(Halt::UnknownInstruction(insn)) && untouched(old, new)
        } else {
            exists|k: int, mmu: Mmu<M>|
                #![trigger first_match(ms, insn, k), old.mmu.unchanged(&mmu)]
                {
                    &&& first_match(ms, insn, k)
                    &&& old.mmu.unchanged(&mmu)
                    &&& executed(
                        ms[k].handler,
                        &Processor { mmu, ..*old },
                        &(if r is Ok { Processor { insn_counter: old.insn_counter, ..*new } } else { *new }),
                        insn,
                        r,
                    )
                    &&& r is Ok ==> new.insn_counter == wrap64(old.insn_counter + 1)
                }
        },
    }
}

impl<M: Memory> Processor<M> {
    /// Runs the handler of the row `matcher` on the instruction word `insn`.
    pub fn execute(&mut self, insn: u32, matcher: &Matcher) -> (r: Result<Effect, Halt>)
        requires
            old(self).wf(),
        ensures
            final(self).wf(),
            executed(matcher.handler, &*old(self), &*final(self), insn, r),
            r is Ok ==> final(self).insn_counter == old(self).insn_counter,
    {
        matcher.exec(self, insn)
    }

    /// Executes one instruction; where the hart has no behaviour for it, says
    /// why it halts. A word that no row of the decode table accepts halts the
    /// hart, the all-zero word among them: the lookup never hands such a word
    /// to a row, whatever its cache held before.
    pub fn try_step(&mut self, matchers: &mut Matchers) -> (r: Result<Effect, Halt>)
        requires
            old(self).wf(),
            old(matchers).wf(),
        ensures
            final(self).wf(),
            final(matchers).wf(),
            final(matchers).matchers == old(matchers).matchers,
            stepped(&*old(self), &*final(self), r, old(matchers).matchers@),
    {
        let pc = self.pc;
        let insn = match self.mmu.read_insn(pc) {
            Ok(insn) => insn,
            Err(Fault::PageFault) => {
                return match do_trap(self, 12, pc) {
                    Ok(()) => Ok(Effect::Nothing),
                    Err(h) => Err(h),
                };
            },
            Err(Fault::Unmapped) => return Err(Halt::Unmapped),
        };
        if !matchers.has_match(insn) {
            return Err(Halt::UnknownInstruction(insn));
        }
        let k = matchers.find_for(insn);
        let matcher = matchers.matchers[k];
        let r = self.execute(insn, &matcher);
        if r.is_ok() {
            self.insn_counter = add_wrap(self.insn_counter, 1);
        }
        r
    }

    /// Executes one instruction, on a hart that does not halt on it.
    pub fn step(&mut self, matchers: &mut Matchers) -> (e: Effect)
        requires
            old(self).wf(),
            old(matchers).wf(),
            forall|new: Processor<M>, res: Result<Effect, Halt>|
                #[trigger] stepped(&*old(self), &new, res, old(matchers).matchers@) ==> res is Ok,
        ensures
            final(self).wf(),
            final(matchers).wf(),
            final(matchers).matchers == old(matchers).matchers,
            stepped(&*old(self), &*final(self), Ok(e), old(matchers).matchers@),
    {
        match self.try_step(matchers) {
            Ok(e) => e,
            Err(_) => {
                proof {
                    assert(false);
                }
                Effect::Nothing
            },
        }
    }
}

} // verus!
