use vstd::prelude::*;
use crate::arith::{wrap64, add_wrap, add_offset, lemma_i64_as_u64};
use crate::bitfield::{Mstatus, BitField, get_bits, put_bits, low_mask, lemma_put_put_same, lemma_get_put_same, lemma_get_put_other, lemma_get_bits_bound, lemma_mask_values};
use crate::csrs::Csrs;
use crate::itypes::{Btype, Itype, Jtype, Utype, FieldRd, FieldRs1, FieldRs2, Base, b_imm, i_imm, j_imm, u_imm, rd_of, rs1_of, rs2_of, lemma_reg_fields};
use crate::memory::{Memory, unchanged};
use crate::processor::{Effect, Halt, Processor};
use crate::regs::Regs;

pub mod amo;
pub mod comp;
pub mod csr;
pub mod mem;

verus! {

/// An exception raised by an instruction: its cause and trap value.
pub struct Trap {
    pub cause: u64,
    pub value: u64,
}

impl Trap {
    /// The illegal instruction exception.
    pub fn illegal_insn() -> (r: Trap)
        ensures
            r.cause == 2,
            r.value == 0,
    {
        Trap { cause: 2, value: 0 }
    }
}

/// `new` is `old` with the program counter at `pc` and nothing else changed.
pub open spec fn jumped<M: Memory>(old: &Processor<M>, new: &Processor<M>, pc: u64) -> bool {
    *new == (Processor { pc, ..*old })
}

impl Btype {
    /// Jumps by the branch offset.
    pub fn jump<M: Memory>(&self, p: &mut Processor<M>)
        ensures
            jumped(&*old(p), &*final(p), wrap64(old(p).pc + b_imm(self.0))),
    {
        let new_pc = add_offset(p.pc(), self.imm());
        p.set_pc(new_pc);
    }
}

/// Jump and link: the register gets the address of the next instruction.
pub fn jal<M: Memory>(p: &mut Processor<M>, i: Jtype)
    requires
        old(p).wf(),
    ensures
        final(p).wf(),
        old(p).wrote_reg(&*final(p), rd_of(i.0), old(p).next_pc(), wrap64(old(p).pc + j_imm(i.0))),
{
    proof {
        lemma_reg_fields(i.0);
    }
    let old_pc = p.pc();
    let new_pc = add_offset(old_pc, i.imm());
    p.set_pc(new_pc);
    p.regs.set(i.rd() as usize, add_wrap(old_pc, 4));
}

/// Jump and link to a register plus offset, with the low bit cleared.
pub fn jalr<M: Memory>(p: &mut Processor<M>, i: Itype)
    requires
        old(p).wf(),
    ensures
        final(p).wf(),
        old(p).wrote_reg(
            &*final(p),
            rd_of(i.0),
            old(p).next_pc(),
            wrap64(old(p).regs@[rs1_of(i.0)] + i_imm(i.0)) & !1u64,
        ),
{
    proof {
        lemma_reg_fields(i.0);
    }
    let next_pc = add_wrap(p.pc(), 4);
    let target = add_offset(p.regs.get(i.rs1() as usize), i.imm()) & !1u64;
    p.regs.set(i.rd() as usize, next_pc);
    p.set_pc(target);
}

/// A branch to the offset when `taken`, else to the next instruction.
pub open spec fn branched<M: Memory>(old: &Processor<M>, new: &Processor<M>, i: Btype, taken: bool) -> bool {
    jumped(old, new, if taken { wrap64(old.pc + b_imm(i.0)) } else { old.next_pc() })
}

pub fn beq<M: Memory>(p: &mut Processor<M>, i: Btype)
    requires
        old(p).wf(),
    ensures
        final(p).wf(),
        branched(&*old(p), &*final(p), i, old(p).regs@[rs1_of(i.0)] == old(p).regs@[rs2_of(i.0)]),
{
    proof {
        lemma_reg_fields(i.0);
    }
    if p.regs.get(i.rs1() as usize) != p.regs.get(i.rs2() as usize) {
        return p.advance_pc();
    }
    i.jump(p);
}

pub fn bne<M: Memory>(p: &mut Processor<M>, i: Btype)
    requires
        old(p).wf(),
    ensures
        final(p).wf(),
        branched(&*old(p), &*final(p), i, old(p).regs@[rs1_of(i.0)] != old(p).regs@[rs2_of(i.0)]),
{
    proof {
        lemma_reg_fields(i.0);
    }
    if p.regs.get(i.rs1() as usize) == p.regs.get(i.rs2() as usize) {
        return p.advance_pc();
    }
    i.jump(p);
}

/// Branch if greater or equal, comparing signed.
pub fn bge<M: Memory>(p: &mut Processor<M>, i: Btype)
    requires
        old(p).wf(),
    ensures
        final(p).wf(),
        branched(
            &*old(p),
            &*final(p),
            i,
            old(p).regs@[rs1_of(i.0)] as i64 >= old(p).regs@[rs2_of(i.0)] as i64,
        ),
{
    proof {
        lemma_reg_fields(i.0);
    }
    if (p.regs.get(i.rs1() as usize) as i64) < (p.regs.get(i.rs2() as usize) as i64) {
        return p.advance_pc();
    }
    i.jump(p);
}

/// Branch if less than, comparing signed.
pub fn blt<M: Memory>(p: &mut Processor<M>, i: Btype)
    requires
        old(p).wf(),
    ensures
        final(p).wf(),
        branched(
            &*old(p),
            &*final(p),
            i,
            (old(p).regs@[rs1_of(i.0)] as i64) < old(p).regs@[rs2_of(i.0)] as i64,
        ),
{
    proof {
        lemma_reg_fields(i.0);
    }
    if (p.regs.get(i.rs1() as usize) as i64) >= (p.regs.get(i.rs2() as usize) as i64) {
        return p.advance_pc();
    }
    i.jump(p);
}

/// Branch if greater or equal, comparing unsigned.
pub fn bgeu<M: Memory>(p: &mut Processor<M>, i: Btype)
    requires
        old(p).wf(),
    ensures
        final(p).wf(),
        branched(&*old(p), &*final(p), i, old(p).regs@[rs1_of(i.0)] >= old(p).regs@[rs2_of(i.0)]),
{
    proof {
        lemma_reg_fields(i.0);
    }
    if p.regs.get(i.rs1() as usize) < p.regs.get(i.rs2() as usize) {
        return p.advance_pc();
    }
    i.jump(p);
}

/// Branch if less than, comparing unsigned.
pub fn bltu<M: Memory>(p: &mut Processor<M>, i: Btype)
    requires
        old(p).wf(),
    ensures
        final(p).wf(),
        branched(&*old(p), &*final(p), i, old(p).regs@[rs1_of(i.0)] < old(p).regs@[rs2_of(i.0)]),
{
    proof {
        lemma_reg_fields(i.0);
    }
    if p.regs.get(i.rs1() as usize) >= p.regs.get(i.rs2() as usize) {
        return p.advance_pc();
    }
    i.jump(p);
}

/// Add upper immediate to the program counter.
pub fn auipc<M: Memory>(p: &mut Processor<M>, i: Utype)
    requires
        old(p).wf(),
    ensures
        final(p).wf(),
        old(p).wrote_reg(&*final(p), rd_of(i.0), wrap64(old(p).pc + u_imm(i.0)), old(p).next_pc()),
{
    proof {
        lemma_reg_fields(i.0);
    }
    let v = add_offset(p.pc(), i.imm());
    p.regs.set(i.rd() as usize, v);
    p.advance_pc();
}

/// Load upper immediate.
pub fn lui<M: Memory>(p: &mut Processor<M>, i: Utype)
    requires
        old(p).wf(),
    ensures
        final(p).wf(),
        old(p).wrote_reg(&*final(p), rd_of(i.0), wrap64(u_imm(i.0) as int), old(p).next_pc()),
{
    proof {
        lemma_reg_fields(i.0);
        lemma_i64_as_u64(u_imm(i.0));
    }
    p.regs.set(i.rd() as usize, i.imm() as u64);
    p.advance_pc();
}

/// Whether a trap with `cause` taken at privilege `prv` is delegated to
/// supervisor mode: from supervisor or user mode, when medeleg has the cause's bit.
pub open spec fn delegated(csrs: &Csrs, cause: u64) -> bool {
    csrs.prv <= 1 && (csrs.medeleg >> cause) & 1 == 1
}

/// The registers after a trap with `cause` and `val` taken at `pc`.
/// A delegated trap goes to stvec in supervisor mode: scause, sepc and stval
/// record it, SPIE takes SIE, SIE clears and SPP takes the old privilege.
/// Any other goes to mtvec in machine mode: mcause, mepc and mtval record it,
/// MPIE takes MIE, MIE clears and MPP takes the old privilege.
pub open spec fn trap_csrs(csrs: Csrs, pc: u64, cause: u64, val: u64) -> Csrs {
    let m = csrs.mstatus@;
    if delegated(&csrs, cause) {
        Csrs {
            prv: 1,
            scause: cause,
            sepc: pc,
            stval: val,
            mstatus: Mstatus(BitField(put_bits(put_bits(put_bits(m, 5, 1, get_bits(m, 1, 1)), 1, 1, 0), 8, 1, csrs.prv))),
            ..csrs
        }
    } else {
        Csrs {
            prv: 3,
            mcause: cause,
            mtval: val,
            mepc: pc,
            mstatus: Mstatus(BitField(put_bits(put_bits(put_bits(m, 7, 1, get_bits(m, 3, 1)), 3, 1, 0), 11, 2, csrs.prv))),
            ..csrs
        }
    }
}

/// The program counter a trap with `cause` goes to.
pub open spec fn trap_pc(csrs: &Csrs, cause: u64) -> u64 {
    if delegated(csrs, cause) {
        csrs.stvec
    } else {
        csrs.mtvec & !1u64
    }
}

/// Whether a trap with `cause` can be taken: a trap to machine mode needs a
/// direct (not vectored) mtvec.
pub open spec fn trap_supported(csrs: &Csrs, cause: u64) -> bool {
    delegated(csrs, cause) || csrs.mtvec & 3 == 0
}

/// `new` is `old` after taking the trap: registers, program counter and the
/// memory unit's privileges, and nothing else changed.
pub open spec fn trapped<M: Memory>(old: &Processor<M>, new: &Processor<M>, cause: u64, val: u64) -> bool {
    &&& new.wf()
    &&& new.csrs == trap_csrs(old.csrs, old.pc, cause, val)
    &&& new.pc == trap_pc(&old.csrs, cause)
    &&& Processor::<M>::mmu_prv_ok(&new.mmu, new.csrs.prv, &new.csrs)
    &&& unchanged(&old.mmu.mem, &new.mmu.mem)
    &&& new.mmu.sv39 == old.mmu.sv39
    &&& new.mmu.asid == old.mmu.asid
    &&& new.mmu.ppn == old.mmu.ppn
    &&& new.regs == old.regs
    &&& new.trigger == old.trigger
    &&& new.insn_counter == old.insn_counter
    &&& new.timer == old.timer
    &&& new.ecall_counter == old.ecall_counter
}

/// Takes a trap with `cause` and trap value `val`.
/// PRV levels: 0 user, 1 supervisor, 3 machine.
pub fn do_trap<M: Memory>(p: &mut Processor<M>, cause: u64, val: u64) -> (r: Result<(), Halt>)
    requires
        old(p).wf(),
        cause < 64,
    ensures
        trap_supported(&old(p).csrs, cause) ==> r is Ok && trapped(&*old(p), &*final(p), cause, val),
        !trap_supported(&old(p).csrs, cause) ==> r == Err::<(), Halt>(Halt::UnsupportedTrapMode) && *final(p) == *old(p),
{
    let prv = p.csrs().prv();
    let medeleg = p.csrs().medeleg;

    if prv <= 1 && ((medeleg >> cause) & 0x1) == 1 {
        // handled in supervisor mode
        let pc = p.pc();
        let stvec = p.csrs().stvec;
        p.set_pc(stvec);

        let csrs = p.csrs_mut();
        csrs.scause = cause;
        csrs.sepc = pc;
        csrs.stval = val;
        // move xIE to xPIE and set xIE to 0
        csrs.mstatus.move_supervisor_interrupt_enabled_to_prior();
        csrs.mstatus.set_supervisor_interrupt_enabled(0);
        // set xPP to prv
        csrs.mstatus.set_supervisor_previous_privilege(1);
        csrs.mstatus.set_supervisor_previous_privilege(prv);
        proof {
            let m = old(p).csrs.mstatus@;
            lemma_put_put_same(put_bits(put_bits(m, 5, 1, get_bits(m, 1, 1)), 1, 1, 0), 8, 1, 1, prv);
        }
        p.set_prv(1);
        Ok(())
    } else {
        // handled in machine mode
        let mtvec = p.csrs().mtvec;
        let mode = mtvec & 0x3;
        if mode != 0 {
            return Err(Halt::UnsupportedTrapMode);
        }
        let pc = p.pc();
        {
            let csrs = p.csrs_mut();
            csrs.mcause = cause;
            csrs.mtval = val;
            csrs.mepc = pc;
            // move xIE to xPIE and set xIE to 0
            csrs.mstatus.move_machine_interrupt_enabled_to_prior();
            csrs.mstatus.set_machine_interrupt_enabled(0);
            // set xPP to prv
            csrs.mstatus.set_machine_previous_privilege(prv);
        }
        p.set_pc(mtvec & !1u64);
        p.set_prv(3);
        Ok(())
    }
}

/// Where a trap goes. One taken in user or supervisor mode whose cause has its
/// bit set in medeleg is handled in supervisor mode: the hart jumps to stvec at
/// privilege 1; scause, sepc and stval record the cause, the trapping program
/// counter and the value; SPP holds the privilege trapped at; the machine trap
/// registers keep their values. Any other trap is handled in machine mode: the
/// hart jumps to mtvec (low bit cleared) at privilege 3; mcause, mepc and mtval
/// record it; MPP holds the privilege trapped at; the supervisor trap registers
/// keep their values.
pub proof fn lemma_trap_destination<M: Memory>(old: &Processor<M>, new: &Processor<M>, cause: u64, val: u64)
    requires
        trapped(old, new, cause, val),
    ensures
        (old.csrs.prv == 0 || old.csrs.prv == 1) && (old.csrs.medeleg >> cause) & 1 == 1 ==> {
            &&& new.pc == old.csrs.stvec
            &&& new.csrs.prv == 1
            &&& new.csrs.scause == cause
            &&& new.csrs.sepc == old.pc
            &&& new.csrs.stval == val
            &&& get_bits(new.csrs.mstatus@, 8, 1) == old.csrs.prv
            &&& new.csrs.mcause == old.csrs.mcause
            &&& new.csrs.mepc == old.csrs.mepc
            &&& new.csrs.mtval == old.csrs.mtval
        },
        !((old.csrs.prv == 0 || old.csrs.prv == 1) && (old.csrs.medeleg >> cause) & 1 == 1) ==> {
            &&& new.pc == old.csrs.mtvec & !1u64
            &&& new.csrs.prv == 3
            &&& new.csrs.mcause == cause
            &&& new.csrs.mepc == old.pc
            &&& new.csrs.mtval == val
            &&& get_bits(new.csrs.mstatus@, 11, 2) == old.csrs.prv & 3
            &&& new.csrs.scause == old.csrs.scause
            &&& new.csrs.sepc == old.csrs.sepc
            &&& new.csrs.stval == old.csrs.stval
        },
{
    let m = old.csrs.mstatus@;
    lemma_mask_values();
    if (old.csrs.prv == 0 || old.csrs.prv == 1) && (old.csrs.medeleg >> cause) & 1 == 1 {
        lemma_get_put_same(put_bits(put_bits(m, 5, 1, get_bits(m, 1, 1)), 1, 1, 0), 8, 1, old.csrs.prv);
        let prv = old.csrs.prv;
        assert(prv & 1 == prv) by (bit_vector)
            requires
                prv == 0 || prv == 1,
        ;
    } else {
        lemma_get_put_same(put_bits(put_bits(m, 7, 1, get_bits(m, 3, 1)), 3, 1, 0), 11, 2, old.csrs.prv);
    }
}

/// mstatus after a return from a machine mode trap: MIE takes MPIE, MPIE
/// sets and MPP clears.
pub open spec fn mret_mstatus(m: u64) -> u64 {
    put_bits(put_bits(put_bits(m, 3, 1, get_bits(m, 7, 1)), 7, 1, 1), 11, 2, 0)
}

/// mstatus after a return from a supervisor mode trap: SIE takes SPIE, SPIE
/// sets and SPP clears.
pub open spec fn sret_mstatus(m: u64) -> u64 {
    put_bits(put_bits(put_bits(m, 1, 1, get_bits(m, 5, 1)), 5, 1, 1), 8, 1, 0)
}

/// `new` is `old` after a return from a machine mode trap.
pub open spec fn mret_outcome<M: Memory>(old: &Processor<M>, new: &Processor<M>) -> bool {
    &&& new.wf()
    &&& new.trigger == old.trigger
    &&& new.insn_counter == old.insn_counter
    &&& new.timer == old.timer
    &&& new.ecall_counter == old.ecall_counter
    &&& new.csrs == (Csrs {
            prv: get_bits(old.csrs.mstatus@, 11, 2),
            mstatus: Mstatus(BitField(mret_mstatus(old.csrs.mstatus@))),
            ..old.csrs
        })
    &&& new.pc == old.csrs.mepc
    &&& Processor::<M>::mmu_prv_ok(&new.mmu, new.csrs.prv, &new.csrs)
    &&& new.mmu.mem == old.mmu.mem
    &&& new.mmu.sv39 == old.mmu.sv39
    &&& new.mmu.asid == old.mmu.asid
    &&& new.mmu.ppn == old.mmu.ppn
    &&& new.regs == old.regs
}

/// Return from a machine mode trap: MIE takes MPIE, MPIE sets, MPP clears,
/// the hart moves to the old MPP and to mepc.
pub fn mret<M: Memory>(p: &mut Processor<M>, _i: Itype)
    requires
        old(p).wf(),
    ensures
        final(p).wf(),
        mret_outcome(&*old(p), &*final(p)),
{
    let pprv = p.csrs().mstatus.machine_previous_privilege();
    let pie = p.csrs().mstatus.machine_prior_interrupt_enabled();
    let epc = p.csrs().mepc;

    p.csrs_mut().mstatus.set_machine_interrupt_enabled(pie);
    p.csrs_mut().mstatus.set_machine_prior_interrupt_enabled(1);
    p.csrs_mut().mstatus.set_machine_previous_privilege(0);

    p.set_prv(pprv);
    p.set_pc(epc);
}

/// `new` is `old` after a return from a supervisor mode trap.
pub open spec fn sret_outcome<M: Memory>(old: &Processor<M>, new: &Processor<M>) -> bool {
    &&& new.wf()
    &&& new.trigger == old.trigger
    &&& new.insn_counter == old.insn_counter
    &&& new.timer == old.timer
    &&& new.ecall_counter == old.ecall_counter
    &&& new.csrs == (Csrs {
            prv: get_bits(old.csrs.mstatus@, 8, 1),
            mstatus: Mstatus(BitField(sret_mstatus(old.csrs.mstatus@))),
            ..old.csrs
        })
    &&& new.pc == old.csrs.sepc
    &&& Processor::<M>::mmu_prv_ok(&new.mmu, new.csrs.prv, &new.csrs)
    &&& new.mmu.mem == old.mmu.mem
    &&& new.mmu.sv39 == old.mmu.sv39
    &&& new.mmu.asid == old.mmu.asid
    &&& new.mmu.ppn == old.mmu.ppn
    &&& new.regs == old.regs
}

/// Return from a supervisor mode trap: SIE takes SPIE, SPIE sets, SPP clears,
/// the hart moves to the old SPP and to sepc.
pub fn sret<M: Memory>(p: &mut Processor<M>, _i: Itype)
    requires
        old(p).wf(),
    ensures
        final(p).wf(),
        sret_outcome(&*old(p), &*final(p)),
{
    let pprv = p.csrs().mstatus.supervisor_previous_privilege();
    let pie = p.csrs().mstatus.supervisor_prior_interrupt_enabled();
    let spc = p.csrs().sepc;

    p.csrs_mut().mstatus.set_supervisor_interrupt_enabled(pie);
    p.csrs_mut().mstatus.set_supervisor_prior_interrupt_enabled(1);
    p.csrs_mut().mstatus.set_supervisor_previous_privilege(0);

    p.set_prv(pprv);
    p.set_pc(spc);
}

/// The environment call exception of privilege level `prv`, if it has one.
pub open spec fn ecall_cause(prv: u64) -> Option<u64> {
    if prv == 0 {
        Some(8)
    } else if prv == 1 {
        Some(9)
    } else if prv == 3 {
        Some(11)
    } else {
        None
    }
}

/// The outcome of an environment call.
pub open spec fn ecall_outcome<M: Memory>(old: &Processor<M>, new: &Processor<M>, r: Result<Effect, Halt>) -> bool {
    match ecall_cause(old.csrs.prv) {
        None => r == Err::<Effect, Halt>(Halt::UnsupportedPrivilege(old.csrs.prv)) && *new == *old,
        Some(cause) => if trap_supported(&old.csrs, cause) {
            trapped(old, new, cause, 0) && r == Ok::<Effect, Halt>(
                if old.regs@[17] == 1 {
                    Effect::Console(old.regs@[10] as u8)
                } else {
                    Effect::Nothing
                },
            )
        } else {
            r == Err::<Effect, Halt>(Halt::UnsupportedTrapMode) && *new == *old
        },
    }
}

/// An environment call that goes through traps with cause 8 from user mode,
/// 9 from supervisor mode and 11 from machine mode (8 plus the privilege),
/// recording the program counter of the call. Taken in user or supervisor
/// mode with that cause delegated in medeleg it lands in supervisor mode at
/// stvec, otherwise in machine mode at mtvec. With a7 = 1 the low byte of a0
/// goes to the console.
pub proof fn lemma_ecall_traps<M: Memory>(old: &Processor<M>, new: &Processor<M>, r: Result<Effect, Halt>)
    requires
        ecall_outcome(old, new, r),
        r is Ok,
    ensures
        old.csrs.prv == 0 || old.csrs.prv == 1 || old.csrs.prv == 3,
        r == Ok::<Effect, Halt>(if old.regs@[17] == 1 { Effect::Console(old.regs@[10] as u8) } else { Effect::Nothing }),
        (old.csrs.prv == 0 || old.csrs.prv == 1) && (old.csrs.medeleg >> (old.csrs.prv + 8) as u64) & 1 == 1 ==> {
            &&& new.pc == old.csrs.stvec
            &&& new.csrs.prv == 1
            &&& new.csrs.scause == old.csrs.prv + 8
            &&& new.csrs.sepc == old.pc
        },
        !((old.csrs.prv == 0 || old.csrs.prv == 1) && (old.csrs.medeleg >> (old.csrs.prv + 8) as u64) & 1 == 1) ==> {
            &&& new.pc == old.csrs.mtvec & !1u64
            &&& new.csrs.prv == 3
            &&& new.csrs.mcause == old.csrs.prv + 8
            &&& new.csrs.mepc == old.pc
        },
{
    let cause = ecall_cause(old.csrs.prv)->Some_0;
    lemma_trap_destination(old, new, cause, 0);
}

/// Environment call: with a7 = 1 the low byte of a0 goes to the console; then
/// the hart traps with the environment call cause of its privilege level.
pub fn ecall<M: Memory>(p: &mut Processor<M>, _i: Itype) -> (r: Result<Effect, Halt>)
    requires
        old(p).wf(),
        ecall_cause(old(p).csrs.prv) is Some,
    ensures
        final(p).wf(),
        ecall_outcome(&*old(p), &*final(p), r),
{
    let a7 = p.regs.get(17);
    let effect = if a7 == 1 {
        let a0 = p.regs.get(10);
        Effect::Console(a0 as u8)
    } else {
        Effect::Nothing
    };
    let prv = p.csrs().prv();
    let cause: u64 = match prv {
        0 => 8,
        1 => 9,
        _ => 11,
    };
    match do_trap(p, cause, 0) {
        Ok(()) => Ok(effect),
        Err(h) => Err(h),
    }
}

/// A value that fits in a field is kept whole when the field is written.
proof fn lemma_fits_mask(x: u64, len: u64)
    requires
        len < 64,
        x < (1u64 << len),
    ensures
        x & low_mask(len) == x,
{
    assert(x & (((1u64 << len) - 1) as u64) == x) by (bit_vector)
        requires
            len < 64,
            x < (1u64 << len),
    ;
}

/// A bit read out of a value is kept whole when written into a one bit field.
proof fn lemma_bit_fits(m: u64, offset: u64)
    requires
        offset < 64,
    ensures
        get_bits(m, offset, 1) & low_mask(1) == get_bits(m, offset, 1),
{
    lemma_get_bits_bound(m, offset, 1);
    lemma_fits_mask(get_bits(m, offset, 1), 1);
}

/// Returning from a machine mode trap undoes it: the hart is back at the
/// program counter and the privilege level it trapped at, with machine
/// interrupts enabled as they were.
pub proof fn lemma_mret_undoes_trap<M: Memory>(
    before: &Processor<M>,
    mid: &Processor<M>,
    after: &Processor<M>,
    cause: u64,
    val: u64,
)
    requires
        before.csrs.prv <= 3,
        !delegated(&before.csrs, cause),
        trapped(before, mid, cause, val),
        mret_outcome(mid, after),
    ensures
        after.pc == before.pc,
        after.csrs.prv == before.csrs.prv,
        get_bits(after.csrs.mstatus@, 3, 1) == get_bits(before.csrs.mstatus@, 3, 1),
        after.regs == before.regs,
{
    let m = before.csrs.mstatus@;
    let m0 = put_bits(m, 7, 1, get_bits(m, 3, 1));
    let m1 = put_bits(m0, 3, 1, 0);
    let m2 = put_bits(m1, 11, 2, before.csrs.prv);
    assert(mid.csrs.mstatus@ == m2);
    lemma_mask_values();
    crate::bitfield::lemma_one_shl_pos(2);
    lemma_fits_mask(before.csrs.prv, 2);
    lemma_get_put_same(m1, 11, 2, before.csrs.prv);
    lemma_bit_fits(m, 3);
    lemma_get_put_other(m1, 11, 2, before.csrs.prv, 7, 1);
    lemma_get_put_other(m0, 3, 1, 0, 7, 1);
    lemma_get_put_same(m, 7, 1, get_bits(m, 3, 1));
    let b7 = get_bits(m2, 7, 1);
    assert(b7 == get_bits(m, 3, 1));
    let n0 = put_bits(m2, 3, 1, b7);
    let n1 = put_bits(n0, 7, 1, 1);
    let n2 = put_bits(n1, 11, 2, 0);
    assert(after.csrs.mstatus@ == n2);
    lemma_get_put_other(n1, 11, 2, 0, 3, 1);
    lemma_get_put_other(n0, 7, 1, 1, 3, 1);
    lemma_get_put_same(m2, 3, 1, b7);
    lemma_bit_fits(m, 3);
}

/// Returning from a supervisor mode trap undoes a delegated trap: the hart is
/// back at the program counter and the privilege level it trapped at, with
/// supervisor interrupts enabled as they were.
pub proof fn lemma_sret_undoes_trap<M: Memory>(
    before: &Processor<M>,
    mid: &Processor<M>,
    after: &Processor<M>,
    cause: u64,
    val: u64,
)
    requires
        delegated(&before.csrs, cause),
        trapped(before, mid, cause, val),
        sret_outcome(mid, after),
    ensures
        after.pc == before.pc,
        after.csrs.prv == before.csrs.prv,
        get_bits(after.csrs.mstatus@, 1, 1) == get_bits(before.csrs.mstatus@, 1, 1),
        after.regs == before.regs,
{
    let m = before.csrs.mstatus@;
    let m0 = put_bits(m, 5, 1, get_bits(m, 1, 1));
    let m1 = put_bits(m0, 1, 1, 0);
    let m2 = put_bits(m1, 8, 1, before.csrs.prv);
    assert(mid.csrs.mstatus@ == m2);
    lemma_mask_values();
    crate::bitfield::lemma_one_shl_pos(1);
    lemma_fits_mask(before.csrs.prv, 1);
    lemma_get_put_same(m1, 8, 1, before.csrs.prv);
    lemma_bit_fits(m, 1);
    lemma_get_put_other(m1, 8, 1, before.csrs.prv, 5, 1);
    lemma_get_put_other(m0, 1, 1, 0, 5, 1);
    lemma_get_put_same(m, 5, 1, get_bits(m, 1, 1));
    let b5 = get_bits(m2, 5, 1);
    assert(b5 == get_bits(m, 1, 1));
    let n0 = put_bits(m2, 1, 1, b5);
    let n1 = put_bits(n0, 5, 1, 1);
    let n2 = put_bits(n1, 8, 1, 0);
    assert(after.csrs.mstatus@ == n2);
    lemma_get_put_other(n1, 8, 1, 0, 1, 1);
    lemma_get_put_other(n0, 5, 1, 1, 1, 1);
    lemma_get_put_same(m2, 1, 1, b5);
}

} // verus!
