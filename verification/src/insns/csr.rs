use vstd::prelude::*;
use crate::insns::{do_trap, trap_supported, trapped};
use crate::itypes::{Itype, FieldRd, FieldRs1, get_bits32, i_imm, rd_of, rs1_of, lemma_reg_fields};
use crate::memory::Memory;
use crate::processor::{Halt, Processor};
use crate::regs::Regs;

verus! {

/// The write a CSR instruction makes after reading the old value.
pub trait Op {
    /// The CSR the instruction word `insn` writes.
    spec fn target(insn: u32) -> u32;

    /// The value written, from the instruction word, the value of register
    /// rs1 and the old value of the CSR; `None` where nothing is written.
    spec fn written(insn: u32, rs1: u64, prev: u64) -> Option<u64>;

    fn exec<M: Memory>(p: &mut Processor<M>, i: &Itype, prev: u64) -> (r: Result<(), Halt>)
        requires
            old(p).wf(),
        ensures
            final(p).wf(),
            match Self::written(i.0, old(p).regs@[rs1_of(i.0)], prev) {
                None => r is Ok && *final(p) == *old(p),
                Some(v) => old(p).csr_written(&*final(p), r, Self::target(i.0), v),
            },
    ;
}

/// The CSR number as the sign-extended immediate gives it.
pub open spec fn signed_target(insn: u32) -> u32 {
    i_imm(insn) as u32
}

/// The CSR number as the unsigned immediate gives it.
pub open spec fn unsigned_target(insn: u32) -> u32 {
    get_bits32(insn, 20, 12)
}

/// csrrw: the CSR takes rs1.
pub struct ReadWrite {}

impl Op for ReadWrite {
    open spec fn target(insn: u32) -> u32 {
        signed_target(insn)
    }

    open spec fn written(insn: u32, rs1: u64, prev: u64) -> Option<u64> {
        Some(rs1)
    }

    fn exec<M: Memory>(p: &mut Processor<M>, i: &Itype, prev: u64) -> (r: Result<(), Halt>) {
        proof {
            lemma_reg_fields(i.0);
        }
        let v = p.get_reg(i.rs1());
        p.set_csr(#[verifier::truncate] (i.imm() as u32), v)
    }
}

/// csrrwi: the CSR takes the five bit immediate in the rs1 field.
pub struct ReadWriteImm {}

impl Op for ReadWriteImm {
    open spec fn target(insn: u32) -> u32 {
        signed_target(insn)
    }

    open spec fn written(insn: u32, rs1: u64, prev: u64) -> Option<u64> {
        Some(rs1_of(insn) as u64)
    }

    fn exec<M: Memory>(p: &mut Processor<M>, i: &Itype, prev: u64) -> (r: Result<(), Halt>) {
        p.set_csr(#[verifier::truncate] (i.imm() as u32), i.rs1() as u64)
    }
}

/// csrrci: the bits of the immediate in the rs1 field are cleared.
pub struct ReadClearImm {}

impl Op for ReadClearImm {
    open spec fn target(insn: u32) -> u32 {
        signed_target(insn)
    }

    open spec fn written(insn: u32, rs1: u64, prev: u64) -> Option<u64> {
        Some(prev & !(rs1_of(insn) as u64))
    }

    fn exec<M: Memory>(p: &mut Processor<M>, i: &Itype, prev: u64) -> (r: Result<(), Halt>) {
        p.set_csr(#[verifier::truncate] (i.imm() as u32), prev & !(i.rs1() as u64))
    }
}

/// csrrs: the bits of rs1 are set; with rs1 = x0 the CSR is not written.
pub struct ReadSet {}

impl Op for ReadSet {
    open spec fn target(insn: u32) -> u32 {
        unsigned_target(insn)
    }

    open spec fn written(insn: u32, rs1: u64, prev: u64) -> Option<u64> {
        if rs1_of(insn) != 0 {
            Some(prev | rs1)
        } else {
            None
        }
    }

    fn exec<M: Memory>(p: &mut Processor<M>, i: &Itype, prev: u64) -> (r: Result<(), Halt>) {
        proof {
            lemma_reg_fields(i.0);
        }
        if i.rs1() != 0 {
            let rs1 = p.regs.get(i.rs1() as usize);
            p.set_csr(i.immu() as u32, prev | rs1)
        } else {
            Ok(())
        }
    }
}

/// csrrsi: the bits of the immediate in the rs1 field are set; with a zero
/// immediate the CSR is not written.
pub struct ReadSetImm {}

impl Op for ReadSetImm {
    open spec fn target(insn: u32) -> u32 {
        unsigned_target(insn)
    }

    open spec fn written(insn: u32, rs1: u64, prev: u64) -> Option<u64> {
        if rs1_of(insn) != 0 {
            Some(prev | rs1_of(insn) as u64)
        } else {
            None
        }
    }

    fn exec<M: Memory>(p: &mut Processor<M>, i: &Itype, prev: u64) -> (r: Result<(), Halt>) {
        if i.rs1() != 0 {
            p.set_csr(i.immu() as u32, prev | i.rs1() as u64)
        } else {
            Ok(())
        }
    }
}

/// csrrc: the bits of rs1 are cleared.
pub struct ReadClear {}

impl Op for ReadClear {
    open spec fn target(insn: u32) -> u32 {
        signed_target(insn)
    }

    open spec fn written(insn: u32, rs1: u64, prev: u64) -> Option<u64> {
        Some(prev & !rs1)
    }

    fn exec<M: Memory>(p: &mut Processor<M>, i: &Itype, prev: u64) -> (r: Result<(), Halt>) {
        proof {
            lemma_reg_fields(i.0);
        }
        let rs1 = p.get_reg(i.rs1());
        p.set_csr(#[verifier::truncate] (i.imm() as u32), prev & !rs1)
    }
}

/// The outcome of the CSR instruction `insn` whose write `O` makes.
pub open spec fn csr_outcome<M: Memory, O: Op>(old: &Processor<M>, new: &Processor<M>, r: Result<(), Halt>, insn: u32) -> bool {
    match old.csrs.csr_value(unsigned_target(insn) as usize) {
        None => if trap_supported(&old.csrs, 2) {
            r is Ok && trapped(old, new, 2, 0)
        } else {
            r == Err::<(), Halt>(Halt::UnsupportedTrapMode) && *new == *old
        },
        Some(v) => {
            let mid = Processor { regs: old.regs, pc: old.pc, ..*new };
            &&& match O::written(insn, old.regs@[rs1_of(insn)], v) {
                None => r is Ok && mid == *old,
                Some(w) => old.csr_written(&mid, r, O::target(insn), w),
            }
            &&& r is Ok ==> new.regs@ == Regs::written(old.regs@, rd_of(insn), v)
                && new.pc == old.next_pc() && new.regs.wf()
            &&& r is Err ==> new.regs == old.regs && new.pc == old.pc
        },
    }
}

/// A CSR instruction: reads the CSR named by the unsigned immediate (an
/// unknown one raises the illegal instruction exception), makes the write `O`
/// asks for, then puts the old value in rd and moves on. A write that halts
/// the processor leaves rd and the program counter as they were.
pub fn insn<M: Memory, O: Op>(p: &mut Processor<M>, i: Itype) -> (r: Result<(), Halt>)
    requires
        old(p).wf(),
    ensures
        final(p).wf(),
        csr_outcome::<M, O>(&*old(p), &*final(p), r, i.0),
{
    proof {
        lemma_reg_fields(i.0);
    }
    let prev = match p.csrs().get(i.immu() as usize) {
        Ok(v) => v,
        Err(t) => return do_trap(p, t.cause, t.value),
    };
    match O::exec(p, &i, prev) {
        Ok(()) => {},
        Err(h) => return Err(h),
    }
    p.regs.set(i.rd() as usize, prev);
    p.advance_pc();
    Ok(())
}

} // verus!
