use vstd::prelude::*;
use crate::arith::{wrap64, add_wrap, lemma_i64_as_u64};
use crate::insns::mem::{faulted, stored, load_outcome, untouched};
use crate::insns::do_trap;
use crate::itypes::{Rtype, FieldRd, FieldRs1, FieldRs2, rd_of, rs1_of, rs2_of, sext, sign_extend, lemma_reg_fields};
use crate::memory::{Memory, le32, le64, mem_value, lemma_read_after_write};
use crate::mmu::{Fault, MemoryOp, Mmu};
use crate::processor::{Halt, Processor};
use crate::regs::Regs;

verus! {

/// The read-modify-write an atomic memory operation does.
#[derive(Clone, Copy)]
pub enum AmoOp {
    Swap,
    Add,
    And,
    Or,
}

/// The value an atomic operation writes, from the value in memory and the register operand.
pub open spec fn amo_result(op: AmoOp, mem: u64, rs2: u64) -> u64 {
    match op {
        AmoOp::Swap => rs2,
        AmoOp::Add => wrap64(mem + rs2),
        AmoOp::And => mem & rs2,
        AmoOp::Or => mem | rs2,
    }
}

fn amo_apply(op: AmoOp, mem: u64, rs2: u64) -> (r: u64)
    ensures
        r == amo_result(op, mem, rs2),
{
    match op {
        AmoOp::Swap => rs2,
        AmoOp::Add => add_wrap(mem, rs2),
        AmoOp::And => mem & rs2,
        AmoOp::Or => mem | rs2,
    }
}

/// The word at `pa`, sign-extended to a register value.
pub open spec fn word_at<M: Memory>(mmu: &Mmu<M>, pa: u64) -> u64 {
    wrap64(sext(le32(mmu.mem.byte(pa), mmu.mem.byte((pa + 1) as u64), mmu.mem.byte((pa + 2) as u64), mmu.mem.byte((pa + 3) as u64)) as u64, 32) as int)
}

/// The doubleword at `pa`.
pub open spec fn dword_at<M: Memory>(mmu: &Mmu<M>, pa: u64) -> u64 {
    le64(mmu.mem.byte(pa), mmu.mem.byte((pa + 1) as u64), mmu.mem.byte((pa + 2) as u64), mmu.mem.byte((pa + 3) as u64),
        mmu.mem.byte((pa + 4) as u64), mmu.mem.byte((pa + 5) as u64), mmu.mem.byte((pa + 6) as u64), mmu.mem.byte((pa + 7) as u64))
}

/// The value an atomic operation reads at `pa`: the sign-extended word, or
/// the doubleword when `wide`.
pub open spec fn amo_old<M: Memory>(mmu: &Mmu<M>, pa: u64, wide: bool) -> u64 {
    if wide {
        dword_at(mmu, pa)
    } else {
        word_at(mmu, pa)
    }
}

/// The value an atomic operation writes at `pa`: the result of `op` on what it
/// read and rs2, of which a word operation keeps the low word.
pub open spec fn amo_new<M: Memory>(mmu: &Mmu<M>, pa: u64, wide: bool, op: AmoOp, rs2: u64) -> u64 {
    if wide {
        amo_result(op, dword_at(mmu, pa), rs2)
    } else {
        (amo_result(op, word_at(mmu, pa), rs2) as u32) as u64
    }
}

/// The outcome of an atomic read-modify-write of a word (or a doubleword when
/// `wide`) at the address in rs1: rd gets the value read, memory gets the
/// result of `op`. The read and the write are translated on their own; a
/// refused read traps with cause 13, a refused write with cause 15.
pub open spec fn amo_outcome<M: Memory>(
    old: &Processor<M>,
    new: &Processor<M>,
    r: Result<(), Halt>,
    i: Rtype,
    op: AmoOp,
    wide: bool,
) -> bool {
    let addr = old.regs@[rs1_of(i.0)];
    let n: u64 = if wide { 8 } else { 4 };
    match old.mmu.access(addr, MemoryOp::Load, old.mmu.prv, n) {
        Err(Fault::PageFault) => faulted(old, new, r, 13, addr),
        Err(Fault::Unmapped) => r == Err::<(), Halt>(Halt::Unmapped) && untouched(old, new),
        Ok(pa) => match old.mmu.access(addr, MemoryOp::Store, old.mmu.prv, n) {
            Err(Fault::PageFault) => faulted(old, new, r, 15, addr),
            Err(Fault::Unmapped) => r == Err::<(), Halt>(Halt::Unmapped) && untouched(old, new),
            Ok(pa2) => {
                &&& r is Ok
                &&& stored(old, &Processor { regs: old.regs, ..*new }, pa2, n, amo_new(&old.mmu, pa, wide, op, old.regs@[rs2_of(i.0)]))
                &&& new.regs@ == Regs::written(old.regs@, rd_of(i.0), amo_old(&old.mmu, pa, wide))
                &&& new.regs.wf()
            },
        },
    }
}

/// An atomic swap that goes through writes the register operand, whatever
/// memory held: afterwards the word (the doubleword when `wide`) at the
/// physical address of the store reads back as the low word of rs2 (as rs2),
/// and rd holds what memory held there before.
pub proof fn lemma_amoswap_writes_operand<M: Memory>(old: &Processor<M>, new: &Processor<M>, i: Rtype, wide: bool)
    requires
        amo_outcome(old, new, Ok(()), i, AmoOp::Swap, wide),
        old.mmu.access(old.regs@[rs1_of(i.0)], MemoryOp::Load, old.mmu.prv, if wide { 8 } else { 4 }) is Ok,
        old.mmu.access(old.regs@[rs1_of(i.0)], MemoryOp::Store, old.mmu.prv, if wide { 8 } else { 4 }) is Ok,
    ensures
        ({
            let n: u64 = if wide { 8 } else { 4 };
            let addr = old.regs@[rs1_of(i.0)];
            let pa = old.mmu.access(addr, MemoryOp::Store, old.mmu.prv, n)->Ok_0;
            let rs2 = old.regs@[rs2_of(i.0)];
            &&& mem_value(&new.mmu.mem, pa, n) == if wide { rs2 } else { (rs2 as u32) as u64 }
            &&& new.regs@ == Regs::written(old.regs@, rd_of(i.0), amo_old(&old.mmu, old.mmu.access(addr, MemoryOp::Load, old.mmu.prv, n)->Ok_0, wide))
        }),
{
    let n: u64 = if wide { 8 } else { 4 };
    let addr = old.regs@[rs1_of(i.0)];
    let pa = old.mmu.access(addr, MemoryOp::Store, old.mmu.prv, n)->Ok_0;
    let rs2 = old.regs@[rs2_of(i.0)];
    let v = amo_new(&old.mmu, old.mmu.access(addr, MemoryOp::Load, old.mmu.prv, n)->Ok_0, wide, AmoOp::Swap, rs2);
    let mid = Processor { regs: old.regs, ..*new };
    assert(old.mmu.stored(&mid.mmu, pa, n, v));
    assert(new.mmu.mem.inv());
    lemma_read_after_write(&old.mmu.mem, &new.mmu.mem, pa, n, v, pa);
    if !wide {
        assert(((rs2 as u32) as u64) as u32 == rs2 as u32) by (bit_vector);
    }
}

/// What an atomic doubleword operation that goes through leaves in memory,
/// from what memory held there (`m`) and rs2 (`x`): a swap leaves `x`, an add
/// the sum modulo 2^64, an and `m & x`, an or `m | x`; rd gets `m`.
pub proof fn lemma_amo_doubleword_writes<M: Memory>(old: &Processor<M>, new: &Processor<M>, i: Rtype, op: AmoOp)
    requires
        amo_outcome(old, new, Ok(()), i, op, true),
        old.mmu.access(old.regs@[rs1_of(i.0)], MemoryOp::Load, old.mmu.prv, 8) is Ok,
        old.mmu.access(old.regs@[rs1_of(i.0)], MemoryOp::Store, old.mmu.prv, 8) is Ok,
    ensures
        ({
            let addr = old.regs@[rs1_of(i.0)];
            let pa = old.mmu.access(addr, MemoryOp::Load, old.mmu.prv, 8)->Ok_0;
            let pa2 = old.mmu.access(addr, MemoryOp::Store, old.mmu.prv, 8)->Ok_0;
            let m = mem_value(&old.mmu.mem, pa, 8);
            let x = old.regs@[rs2_of(i.0)];
            &&& mem_value(&new.mmu.mem, pa2, 8) == match op {
                AmoOp::Swap => x,
                AmoOp::Add => ((m + x) % 0x1_0000_0000_0000_0000) as u64,
                AmoOp::And => m & x,
                AmoOp::Or => m | x,
            }
            &&& new.regs@ == Regs::written(old.regs@, rd_of(i.0), m)
        }),
{
    let addr = old.regs@[rs1_of(i.0)];
    let pa = old.mmu.access(addr, MemoryOp::Load, old.mmu.prv, 8)->Ok_0;
    let pa2 = old.mmu.access(addr, MemoryOp::Store, old.mmu.prv, 8)->Ok_0;
    let v = amo_new(&old.mmu, pa, true, op, old.regs@[rs2_of(i.0)]);
    let mid = Processor { regs: old.regs, ..*new };
    assert(old.mmu.stored(&mid.mmu, pa2, 8, v));
    lemma_read_after_write(&old.mmu.mem, &new.mmu.mem, pa2, 8, v, pa2);
}

/// An atomic operation on the word at the address in rs1.
fn amo_w<M: Memory>(p: &mut Processor<M>, i: Rtype, op: AmoOp) -> (r: Result<(), Halt>)
    requires
        old(p).wf(),
    ensures
        final(p).wf(),
        amo_outcome(&*old(p), &*final(p), r, i, op, false),
{
    proof {
        lemma_reg_fields(i.0);
    }
    let addr = p.regs.get(i.rs1() as usize);
    let ghost before = p.mmu;
    let v = match p.mmu.read_w(addr) {
        Ok(v) => v,
        Err(Fault::PageFault) => return do_trap(p, 13, addr),
        Err(Fault::Unmapped) => return Err(Halt::Unmapped),
    };
    proof {
        before.lemma_access_unchanged(&p.mmu, addr, MemoryOp::Store, before.prv, 4);
    }
    let x = sign_extend(v as u64, 32);
    proof {
        lemma_i64_as_u64(x);
    }
    let sign_extended_v = x as u64;
    let rs2 = p.regs.get(i.rs2() as usize);
    let result = amo_apply(op, sign_extended_v, rs2);
    match p.mmu.write_w(addr, #[verifier::truncate] (result as u32)) {
        Ok(()) => {},
        Err(Fault::PageFault) => return do_trap(p, 15, addr),
        Err(Fault::Unmapped) => return Err(Halt::Unmapped),
    }
    p.regs.set(i.rd() as usize, sign_extended_v);
    p.advance_pc();
    Ok(())
}

/// An atomic operation on the doubleword at the address in rs1.
fn amo_d<M: Memory>(p: &mut Processor<M>, i: Rtype, op: AmoOp) -> (r: Result<(), Halt>)
    requires
        old(p).wf(),
    ensures
        final(p).wf(),
        amo_outcome(&*old(p), &*final(p), r, i, op, true),
{
    proof {
        lemma_reg_fields(i.0);
    }
    let addr = p.regs.get(i.rs1() as usize);
    let ghost before = p.mmu;
    let v = match p.mmu.read_d(addr) {
        Ok(v) => v,
        Err(Fault::PageFault) => return do_trap(p, 13, addr),
        Err(Fault::Unmapped) => return Err(Halt::Unmapped),
    };
    proof {
        before.lemma_access_unchanged(&p.mmu, addr, MemoryOp::Store, before.prv, 8);
    }
    let rs2 = p.regs.get(i.rs2() as usize);
    let result = amo_apply(op, v, rs2);
    match p.mmu.write_d(addr, result) {
        Ok(()) => {},
        Err(Fault::PageFault) => return do_trap(p, 15, addr),
        Err(Fault::Unmapped) => return Err(Halt::Unmapped),
    }
    p.regs.set(i.rd() as usize, v);
    p.advance_pc();
    Ok(())
}

/// Atomic swap of a word: rd gets the sign-extended word, memory gets rs2's low word.
pub fn amoswapw<M: Memory>(p: &mut Processor<M>, i: Rtype) -> (r: Result<(), Halt>)
    requires
        old(p).wf(),
    ensures
        final(p).wf(),
        amo_outcome(&*old(p), &*final(p), r, i, AmoOp::Swap, false),
{
    amo_w(p, i, AmoOp::Swap)
}

/// Atomic add of a word: rd gets the sign-extended word, memory gets the low word of its sum with rs2.
pub fn amoaddw<M: Memory>(p: &mut Processor<M>, i: Rtype) -> (r: Result<(), Halt>)
    requires
        old(p).wf(),
    ensures
        final(p).wf(),
        amo_outcome(&*old(p), &*final(p), r, i, AmoOp::Add, false),
{
    amo_w(p, i, AmoOp::Add)
}

/// Atomic swap of a doubleword.
pub fn amoswapd<M: Memory>(p: &mut Processor<M>, i: Rtype) -> (r: Result<(), Halt>)
    requires
        old(p).wf(),
    ensures
        final(p).wf(),
        amo_outcome(&*old(p), &*final(p), r, i, AmoOp::Swap, true),
{
    amo_d(p, i, AmoOp::Swap)
}

/// Atomic add of a doubleword.
pub fn amoaddd<M: Memory>(p: &mut Processor<M>, i: Rtype) -> (r: Result<(), Halt>)
    requires
        old(p).wf(),
    ensures
        final(p).wf(),
        amo_outcome(&*old(p), &*final(p), r, i, AmoOp::Add, true),
{
    amo_d(p, i, AmoOp::Add)
}

/// Atomic and of a doubleword.
pub fn amoandd<M: Memory>(p: &mut Processor<M>, i: Rtype) -> (r: Result<(), Halt>)
    requires
        old(p).wf(),
    ensures
        final(p).wf(),
        amo_outcome(&*old(p), &*final(p), r, i, AmoOp::And, true),
{
    amo_d(p, i, AmoOp::And)
}

/// Atomic or of a doubleword.
pub fn amoord<M: Memory>(p: &mut Processor<M>, i: Rtype) -> (r: Result<(), Halt>)
    requires
        old(p).wf(),
    ensures
        final(p).wf(),
        amo_outcome(&*old(p), &*final(p), r, i, AmoOp::Or, true),
{
    amo_d(p, i, AmoOp::Or)
}

/// Load-reserved word: rd gets the sign-extended word at the address in rs1.
/// A single hart holds every reservation, so no reservation is kept.
pub fn lrw<M: Memory>(p: &mut Processor<M>, i: Rtype) -> (r: Result<(), Halt>)
    requires
        old(p).wf(),
    ensures
        final(p).wf(),
        load_outcome(&*old(p), &*final(p), r, old(p).regs@[rs1_of(i.0)], rd_of(i.0), 4, true),
{
    proof {
        lemma_reg_fields(i.0);
    }
    let addr = p.regs.get(i.rs1() as usize);
    let v = match p.mmu.read_w(addr) {
        Ok(v) => v,
        Err(Fault::PageFault) => return do_trap(p, 13, addr),
        Err(Fault::Unmapped) => return Err(Halt::Unmapped),
    };
    let x = sign_extend(v as u64, 32);
    proof {
        lemma_i64_as_u64(x);
    }
    p.regs.set(i.rd() as usize, x as u64);
    p.advance_pc();
    Ok(())
}

/// Load-reserved doubleword: rd gets the doubleword at the address in rs1.
pub fn lrd<M: Memory>(p: &mut Processor<M>, i: Rtype) -> (r: Result<(), Halt>)
    requires
        old(p).wf(),
    ensures
        final(p).wf(),
        load_outcome(&*old(p), &*final(p), r, old(p).regs@[rs1_of(i.0)], rd_of(i.0), 8, false),
{
    proof {
        lemma_reg_fields(i.0);
    }
    let addr = p.regs.get(i.rs1() as usize);
    let v = match p.mmu.read_d(addr) {
        Ok(v) => v,
        Err(Fault::PageFault) => return do_trap(p, 13, addr),
        Err(Fault::Unmapped) => return Err(Halt::Unmapped),
    };
    p.regs.set(i.rd() as usize, v);
    p.advance_pc();
    Ok(())
}

/// The outcome of a store-conditional of the `n` low bytes of rs2 at the
/// address in rs1: with a single hart it always succeeds and rd gets 0.
pub open spec fn sc_outcome<M: Memory>(old: &Processor<M>, new: &Processor<M>, r: Result<(), Halt>, i: Rtype, n: u64, v: u64) -> bool {
    let addr = old.regs@[rs1_of(i.0)];
    match old.mmu.access(addr, MemoryOp::Store, old.mmu.prv, n) {
        Err(Fault::PageFault) => faulted(old, new, r, 15, addr),
        Err(Fault::Unmapped) => r == Err::<(), Halt>(Halt::Unmapped) && untouched(old, new),
        Ok(pa) => {
            &&& r is Ok
            &&& stored(old, &Processor { regs: old.regs, ..*new }, pa, n, v)
            &&& new.regs@ == Regs::written(old.regs@, rd_of(i.0), 0)
            &&& new.regs.wf()
        },
    }
}

/// Store-conditional word.
pub fn scw<M: Memory>(p: &mut Processor<M>, i: Rtype) -> (r: Result<(), Halt>)
    requires
        old(p).wf(),
    ensures
        final(p).wf(),
        sc_outcome(&*old(p), &*final(p), r, i, 4, (old(p).regs@[rs2_of(i.0)] as u32) as u64),
{
    proof {
        lemma_reg_fields(i.0);
    }
    let addr = p.regs.get(i.rs1() as usize);
    let rs2 = p.regs.get(i.rs2() as usize);
    match p.mmu.write_w(addr, #[verifier::truncate] (rs2 as u32)) {
        Ok(()) => {},
        Err(Fault::PageFault) => return do_trap(p, 15, addr),
        Err(Fault::Unmapped) => return Err(Halt::Unmapped),
    }
    p.regs.set(i.rd() as usize, 0);
    p.advance_pc();
    Ok(())
}

/// Store-conditional doubleword.
pub fn scd<M: Memory>(p: &mut Processor<M>, i: Rtype) -> (r: Result<(), Halt>)
    requires
        old(p).wf(),
    ensures
        final(p).wf(),
        sc_outcome(&*old(p), &*final(p), r, i, 8, old(p).regs@[rs2_of(i.0)]),
{
    proof {
        lemma_reg_fields(i.0);
    }
    let addr = p.regs.get(i.rs1() as usize);
    let rs2 = p.regs.get(i.rs2() as usize);
    match p.mmu.write_d(addr, rs2) {
        Ok(()) => {},
        Err(Fault::PageFault) => return do_trap(p, 15, addr),
        Err(Fault::Unmapped) => return Err(Halt::Unmapped),
    }
    p.regs.set(i.rd() as usize, 0);
    p.advance_pc();
    Ok(())
}

} // verus!
