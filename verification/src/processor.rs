use vstd::prelude::*;
use crate::arith::{wrap64, add_wrap};
use crate::bitfield::get_bits;
use crate::csrs::{Csrs, PostSetOp, SetMemMode};
use crate::memory::Memory;
use crate::mmu::Mmu;
use crate::regs::Regs;

verus! {

/// Why the processor stops: conditions it has no behaviour for.
#[derive(Debug, PartialEq, Eq, Structural)]
pub enum Halt {
    /// No matcher accepts the instruction word.
    UnknownInstruction(u32),
    /// The instruction word is recognised but not implemented.
    Unimplemented(u32),
    /// A physical address that no memory backs.
    Unmapped,
    /// A privilege level that traps are not implemented for.
    UnsupportedPrivilege(u64),
    /// A vectored trap vector.
    UnsupportedTrapMode,
    /// A translation mode other than bare and Sv39.
    UnsupportedMemMode(u64),
}

/// What the surroundings of the processor have to do after an instruction.
#[derive(Debug, PartialEq, Eq, Structural)]
pub enum Effect {
    Nothing,
    /// Write this byte to the console.
    Console(u8),
}

/// A RISC-V hart: program counter, CSRs, registers and memory unit.
pub struct Processor<M> {
    pub pc: u64,
    pub csrs: Csrs,
    pub regs: Regs,
    pub mmu: Mmu<M>,
    pub trigger: bool,
    pub insn_counter: u64,
    pub timer: u64,
    pub ecall_counter: usize,
}

/// The characters the console hands out, one per call, then -1.
pub open spec fn console_char(n: int) -> u64 {
    if n == 0 {
        'l' as u64
    } else if n == 1 {
        's' as u64
    } else if n == 2 {
        ' ' as u64
    } else if n == 3 {
        '-' as u64
    } else if n == 4 {
        'a' as u64
    } else if n == 5 {
        'l' as u64
    } else if n == 6 {
        13
    } else {
        u64::MAX
    }
}

impl<M: Memory> Processor<M> {
    pub open spec fn wf(&self) -> bool {
        &&& self.regs.wf()
        &&& self.mmu.wf()
    }

    /// The program counter after this instruction's: four bytes on.
    pub open spec fn next_pc(&self) -> u64 {
        wrap64(self.pc + 4)
    }

    /// `other` is `self` but for the program counter and the registers.
    pub open spec fn same_but_pc_regs(&self, other: &Self) -> bool {
        &&& other.wf()
        &&& other.csrs == self.csrs
        &&& other.mmu == self.mmu
        &&& other.trigger == self.trigger
        &&& other.insn_counter == self.insn_counter
        &&& other.timer == self.timer
        &&& other.ecall_counter == self.ecall_counter
    }

    /// `other` is `self` with register `rd` written with `v` and the program
    /// counter at `pc`.
    pub open spec fn wrote_reg(&self, other: &Self, rd: int, v: u64, pc: u64) -> bool {
        &&& self.same_but_pc_regs(other)
        &&& other.pc == pc
        &&& other.regs@ == Regs::written(self.regs@, rd, v)
    }

    /// The memory unit's privileges after the hart moves to `prv` with `csrs`.
    pub open spec fn mmu_prv_ok(mmu: &Mmu<M>, prv: u64, csrs: &Csrs) -> bool {
        &&& mmu.insn_prv == prv
        &&& mmu.prv == (if get_bits(csrs.mstatus@, 17, 1) == 1 {
            get_bits(csrs.mstatus@, 11, 2)
        } else {
            prv
        })
    }

    pub fn new(mem: M) -> (r: Self)
        requires
            mem.inv(),
        ensures
            r.wf(),
            r.pc == 0x1000,
            r.csrs == Csrs::new_spec(),
            r.regs@ == Seq::new(32, |i: int| 0u64),
            r.mmu.mem == mem,
            r.mmu.prv == 3,
            r.mmu.insn_prv == 3,
            !r.mmu.sv39,
            !r.trigger,
            r.insn_counter == 0,
            r.timer == 0,
            r.ecall_counter == 0,
    {
        Processor {
            pc: 0x1000,
            csrs: Csrs::new(),
            regs: Regs::new(),
            mmu: Mmu::new(mem),
            trigger: false,
            insn_counter: 0,
            timer: 0,
            ecall_counter: 0,
        }
    }

    /// The next character of the console input.
    pub fn getchar(&mut self) -> (r: u64)
        requires
            old(self).ecall_counter < usize::MAX,
        ensures
            r == console_char(old(self).ecall_counter as int),
            final(self).ecall_counter == old(self).ecall_counter + 1,
            final(self).pc == old(self).pc,
            final(self).csrs == old(self).csrs,
            final(self).regs == old(self).regs,
            final(self).mmu == old(self).mmu,
            final(self).trigger == old(self).trigger,
            final(self).insn_counter == old(self).insn_counter,
            final(self).timer == old(self).timer,
    {
        let counter = self.ecall_counter;
        self.ecall_counter = self.ecall_counter + 1;
        match counter {
            0 => 'l' as u64,
            1 => 's' as u64,
            2 => ' ' as u64,
            3 => '-' as u64,
            4 => 'a' as u64,
            5 => 'l' as u64,
            6 => 13,
            _ => u64::MAX,
        }
    }

    pub fn prv(&self) -> (r: u64)
        ensures
            r == self.csrs.prv,
    {
        self.csrs.prv()
    }

    /// Moves the hart to privilege level `prv`.
    pub fn set_prv(&mut self, prv: u64)
        requires
            old(self).wf(),
        ensures
            final(self).wf(),
            final(self).csrs == (Csrs { prv, ..old(self).csrs }),
            Self::mmu_prv_ok(&final(self).mmu, prv, &final(self).csrs),
            final(self).mmu.mem == old(self).mmu.mem,
            final(self).mmu.sv39 == old(self).mmu.sv39,
            final(self).mmu.asid == old(self).mmu.asid,
            final(self).mmu.ppn == old(self).mmu.ppn,
            final(self).pc == old(self).pc,
            final(self).regs == old(self).regs,
            final(self).trigger == old(self).trigger,
            final(self).insn_counter == old(self).insn_counter,
            final(self).timer == old(self).timer,
            final(self).ecall_counter == old(self).ecall_counter,
    {
        self.csrs.set_prv(prv);
        self.mmu.set_prv(prv, &self.csrs.mstatus);
    }

    /// The memory unit is `old` with translation set as `m` asks: off for mode
    /// 0, Sv39 with the root table at `m.ppn` for mode 8.
    pub open spec fn mem_mode_set(old: &Mmu<M>, new: &Mmu<M>, m: SetMemMode) -> bool {
        &&& new.wf()
        &&& new.mem == old.mem
        &&& new.prv == old.prv
        &&& new.insn_prv == old.insn_prv
        &&& m.mode == 0 ==> !new.sv39 && new.asid == 0 && new.ppn == 0
        &&& m.mode == 8 ==> new.sv39 && new.asid == m.asid as u16 && new.ppn == m.ppn
    }

    /// Everything but the memory unit is the same.
    pub open spec fn same_but_mmu(&self, other: &Self) -> bool {
        &&& other.pc == self.pc
        &&& other.csrs == self.csrs
        &&& other.regs == self.regs
        &&& other.trigger == self.trigger
        &&& other.insn_counter == self.insn_counter
        &&& other.timer == self.timer
        &&& other.ecall_counter == self.ecall_counter
    }

    /// Switches the memory unit to the translation mode `op` asks for: bare
    /// (0) or Sv39 (8).
    pub fn set_mem_mode(&mut self, op: SetMemMode)
        requires
            old(self).wf(),
            op.ppn < 0x10_0000_0000_0000,
            op.mode == 0 || op.mode == 8,
        ensures
            final(self).wf(),
            old(self).same_but_mmu(&*final(self)),
            Self::mem_mode_set(&old(self).mmu, &final(self).mmu, op),
    {
        if op.mode == 0 {
            self.mmu.set_bare_mode();
        } else {
            self.mmu.set_page_mode(op.asid as u16, op.ppn);
        }
    }

    pub fn get_reg(&self, i: u32) -> (r: u64)
        requires
            self.wf(),
            i < 32,
        ensures
            r == self.regs@[i as int],
    {
        self.regs.get(i as usize)
    }

    /// `new` is `self` after a write of `val` to CSR `i` with result `r`: the
    /// CSRs as the write leaves them, and the memory unit updated as the write
    /// asks; nothing else changes.
    pub open spec fn csr_written(&self, new: &Self, r: Result<(), Halt>, i: u32, val: u64) -> bool {
        &&& new.wf()
        &&& new.csrs == self.csrs.after_set(i as usize, val)
        &&& new.pc == self.pc
        &&& new.regs == self.regs
        &&& new.trigger == self.trigger
        &&& new.insn_counter == self.insn_counter
        &&& new.timer == self.timer
        &&& new.ecall_counter == self.ecall_counter
        &&& match self.csrs.post_set_op(i as usize, val) {
            PostSetOp::Nothing => r is Ok && new.mmu == self.mmu,
            PostSetOp::UpdateMmuPrv => {
                &&& r is Ok
                &&& Self::mmu_prv_ok(&new.mmu, self.csrs.prv, &new.csrs)
                &&& new.mmu.mem == self.mmu.mem
                &&& new.mmu.sv39 == self.mmu.sv39
                &&& new.mmu.asid == self.mmu.asid
                &&& new.mmu.ppn == self.mmu.ppn
            },
            PostSetOp::SetMemMode(m) => if m.mode == 0 || m.mode == 8 {
                r is Ok && Self::mem_mode_set(&self.mmu, &new.mmu, m)
            } else {
                r == Err::<(), Halt>(Halt::UnsupportedMemMode(m.mode)) && new.mmu == self.mmu
            },
        }
    }

    /// Writes CSR `i`, then updates the memory unit as the write asks.
    pub fn set_csr(&mut self, i: u32, val: u64) -> (r: Result<(), Halt>)
        requires
            old(self).wf(),
        ensures
            old(self).csr_written(&*final(self), r, i, val),
    {
        let op = self.csrs.set(i as usize, val);
        match op {
            PostSetOp::Nothing => Ok(()),
            PostSetOp::SetMemMode(m) => {
                proof {
                    crate::bitfield::lemma_get_bits_bound(val, 0, 44);
                    crate::bitfield::lemma_mask_values();
                }
                if m.mode == 0 || m.mode == 8 {
                    self.set_mem_mode(m);
                    Ok(())
                } else {
                    Err(Halt::UnsupportedMemMode(m.mode))
                }
            },
            PostSetOp::UpdateMmuPrv => {
                let prv = self.csrs.prv();
                self.mmu.set_prv(prv, &self.csrs.mstatus);
                Ok(())
            },
        }
    }

    pub fn csrs(&self) -> (r: &Csrs)
        ensures
            *r == self.csrs,
    {
        &self.csrs
    }

    pub fn csrs_mut(&mut self) -> (r: &mut Csrs)
        ensures
            *r == old(self).csrs,
            final(self).csrs == *final(r),
            final(self).pc == old(self).pc,
            final(self).regs == old(self).regs,
            final(self).mmu == old(self).mmu,
            final(self).trigger == old(self).trigger,
            final(self).insn_counter == old(self).insn_counter,
            final(self).timer == old(self).timer,
            final(self).ecall_counter == old(self).ecall_counter,
    {
        &mut self.csrs
    }

    pub fn mmu(&self) -> (r: &Mmu<M>)
        ensures
            *r == self.mmu,
    {
        &self.mmu
    }

    pub fn mmu_mut(&mut self) -> (r: &mut Mmu<M>)
        ensures
            *r == old(self).mmu,
            final(self).mmu == *final(r),
            final(self).pc == old(self).pc,
            final(self).csrs == old(self).csrs,
            final(self).regs == old(self).regs,
            final(self).trigger == old(self).trigger,
            final(self).insn_counter == old(self).insn_counter,
            final(self).timer == old(self).timer,
            final(self).ecall_counter == old(self).ecall_counter,
    {
        &mut self.mmu
    }

    /// Arms the timer `delta` instructions from now.
    pub fn set_timer(&mut self, delta: u64)
        requires
            old(self).insn_counter + delta <= u64::MAX,
        ensures
            final(self).timer == old(self).insn_counter + delta,
            *final(self) == (Processor { timer: final(self).timer, ..*old(self) }),
    {
        self.timer = self.insn_counter + delta;
    }

    /// Disarms a timer that has not yet expired.
    pub fn handle_interrupt(&mut self)
        ensures
            *final(self) == (if old(self).timer > old(self).insn_counter {
                Processor { timer: 0, ..*old(self) }
            } else {
                *old(self)
            }),
    {
        if self.timer > self.insn_counter {
            self.timer = 0;
        }
    }

    /// Moves the program counter to the next instruction.
    pub fn advance_pc(&mut self)
        ensures
            *final(self) == (Processor { pc: old(self).next_pc(), ..*old(self) }),
    {
        self.pc = add_wrap(self.pc, 4);
    }

    pub fn set_pc(&mut self, pc: u64)
        ensures
            *final(self) == (Processor { pc, ..*old(self) }),
    {
        self.pc = pc;
    }

    pub fn pc(&self) -> (r: u64)
        ensures
            r == self.pc,
    {
        self.pc
    }
}

} // verus!
