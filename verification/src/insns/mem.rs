use vstd::prelude::*;
use crate::arith::{wrap64, add_offset, lemma_i64_as_u64};
use crate::insns::{do_trap, trap_supported, trapped};
use crate::itypes::{Itype, Stype, FieldRd, FieldRs1, FieldRs2, i_imm, s_imm, rd_of, rs1_of, rs2_of, sext, sign_extend, lemma_reg_fields};
use crate::memory::{Memory, le16, le32, le64, low_bytes, mem_value, unchanged};
use crate::mmu::{Fault, MemoryOp};
use crate::processor::{Halt, Processor};
use crate::regs::Regs;

verus! {

/// The address a load reads: the base register plus the offset.
pub open spec fn load_addr<M: Memory>(p: &Processor<M>, i: Itype) -> u64 {
    wrap64(p.regs@[rs1_of(i.0)] + i_imm(i.0))
}

/// The address a store writes: the base register plus the offset.
pub open spec fn store_addr<M: Memory>(p: &Processor<M>, i: Stype) -> u64 {
    wrap64(p.regs@[rs1_of(i.0)] + s_imm(i.0))
}

/// `new` is `old` but for the memory unit's caches.
pub open spec fn untouched<M: Memory>(old: &Processor<M>, new: &Processor<M>) -> bool {
    &&& old.mmu.unchanged(&new.mmu)
    &&& *new == (Processor { mmu: new.mmu, ..*old })
}

/// The outcome of an access that the memory unit refused: the trap `cause`
/// with the address as trap value.
pub open spec fn faulted<M: Memory>(old: &Processor<M>, new: &Processor<M>, r: Result<(), Halt>, cause: u64, addr: u64) -> bool {
    if trap_supported(&old.csrs, cause) {
        r is Ok && trapped(old, new, cause, addr)
    } else {
        r == Err::<(), Halt>(Halt::UnsupportedTrapMode) && untouched(old, new)
    }
}

/// `new` is `old` after a load that put `v` in register `rd`.
pub open spec fn loaded<M: Memory>(old: &Processor<M>, new: &Processor<M>, rd: int, v: u64) -> bool {
    &&& new.wf()
    &&& new.pc == old.next_pc()
    &&& new.regs@ == Regs::written(old.regs@, rd, v)
    &&& new.csrs == old.csrs
    &&& old.mmu.unchanged(&new.mmu)
    &&& new.trigger == old.trigger
    &&& new.insn_counter == old.insn_counter
    &&& new.timer == old.timer
    &&& new.ecall_counter == old.ecall_counter
}

/// `new` is `old` after a store of the `n` low bytes of `v` at the physical address `pa`.
pub open spec fn stored<M: Memory>(old: &Processor<M>, new: &Processor<M>, pa: u64, n: u64, v: u64) -> bool {
    &&& new.wf()
    &&& new.pc == old.next_pc()
    &&& new.regs == old.regs
    &&& new.csrs == old.csrs
    &&& old.mmu.stored(&new.mmu, pa, n, v)
    &&& new.trigger == old.trigger
    &&& new.insn_counter == old.insn_counter
    &&& new.timer == old.timer
    &&& new.ecall_counter == old.ecall_counter
}

/// The register value a load of `n` bytes at `pa` gives: sign-extended when `signed`.
pub open spec fn load_value<M: Memory>(mem: &M, pa: u64, n: u64, signed: bool) -> u64 {
    extended(mem_value(mem, pa, n), n, signed)
}

/// The register value of the `n` byte value `x`: sign-extended when `signed`.
pub open spec fn extended(x: u64, n: u64, signed: bool) -> u64 {
    if signed {
        wrap64(sext(x, (8 * n) as u64) as int)
    } else {
        x
    }
}

/// The register value of a load of `n` bytes (1, 2 or 4) that read `x`: a
/// signed load keeps the low 8n bits of `x` and fills every bit above with
/// bit 8n - 1 of `x`; an unsigned load gives `x` itself.
pub proof fn lemma_load_extension(x: u64, n: u64, k: u64)
    requires
        n == 1 || n == 2 || n == 4,
        k < 64,
    ensures
        k < 8 * n ==> (extended(x, n, true) >> k) & 1 == (x >> k) & 1,
        k >= 8 * n ==> (extended(x, n, true) >> k) & 1 == (x >> ((8 * n - 1) as u64)) & 1,
        extended(x, n, false) == x,
{
    let len: u64 = (8 * n) as u64;
    let e: i64 = sext(x, len);
    lemma_i64_as_u64(e);
    let eu = e as u64;
    assert((k < len ==> (eu >> k) & 1 == (x >> k) & 1) && (k >= len ==> (eu >> k) & 1 == (x >> ((len - 1) as u64)) & 1)) by (bit_vector)
        requires
            len == 8 || len == 16 || len == 32,
            k < 64,
            e == (if (x >> ((len - 1) as u64)) & 1 == 1 {
                ((x & (((1u64 << len) - 1) as u64)) | !(((1u64 << len) - 1) as u64)) as i64
            } else {
                (x & (((1u64 << len) - 1) as u64)) as i64
            }),
            eu == e as u64,
    ;
}

/// The outcome of a load of `n` bytes at `addr` into register `rd`: the value
/// on success, trap 13 on a refused translation, a halt on unbacked memory.
pub open spec fn load_outcome<M: Memory>(old: &Processor<M>, new: &Processor<M>, r: Result<(), Halt>, addr: u64, rd: int, n: u64, signed: bool) -> bool {
    match old.mmu.access(addr, MemoryOp::Load, old.mmu.prv, n) {
        Ok(pa) => r is Ok && loaded(old, new, rd, load_value(&old.mmu.mem, pa, n, signed)),
        Err(Fault::PageFault) => faulted(old, new, r, 13, addr),
        Err(Fault::Unmapped) => r == Err::<(), Halt>(Halt::Unmapped) && untouched(old, new),
    }
}

/// The outcome of a store of the `n` low bytes of `v` at `addr`: trap 15 on a
/// refused translation, a halt on unbacked memory.
pub open spec fn store_outcome<M: Memory>(old: &Processor<M>, new: &Processor<M>, r: Result<(), Halt>, addr: u64, n: u64, v: u64) -> bool {
    match old.mmu.access(addr, MemoryOp::Store, old.mmu.prv, n) {
        Ok(pa) => r is Ok && stored(old, new, pa, n, v),
        Err(Fault::PageFault) => faulted(old, new, r, 15, addr),
        Err(Fault::Unmapped) => r == Err::<(), Halt>(Halt::Unmapped) && untouched(old, new),
    }
}

/// Where addresses are not translated, a load of the width of a store, from
/// the address of the store, gives back the value stored, cut to that width
/// and extended as the load asks (register x0 aside, which stays zero).
pub proof fn lemma_load_after_store<M: Memory>(
    p0: &Processor<M>,
    p1: &Processor<M>,
    p2: &Processor<M>,
    addr: u64,
    n: u64,
    v: u64,
    rd: int,
    signed: bool,
    r1: Result<(), Halt>,
    r2: Result<(), Halt>,
)
    requires
        p0.wf(),
        0 <= rd < 32,
        n == 1 || n == 2 || n == 4 || n == 8,
        !p0.mmu.sv39 || p0.mmu.prv == 3,
        store_outcome(p0, p1, r1, addr, n, v),
        r1 is Ok,
        load_outcome(p1, p2, r2, addr, rd, n, signed),
        r2 is Ok,
    ensures
        p2.regs@[rd] == if rd == 0 {
            0
        } else {
            extended(low_bytes(v, n), n, signed)
        },
{
    let pa = p0.mmu.access(addr, MemoryOp::Store, p0.mmu.prv, n)->Ok_0;
    assert(pa == addr);
    p0.mmu.lemma_read_after_write(&p1.mmu, addr, p0.mmu.prv, n, v);
    assert(p1.regs.wf());
}

/// Load byte, sign-extended.
pub fn lb<M: Memory>(p: &mut Processor<M>, i: Itype) -> (r: Result<(), Halt>)
    requires
        old(p).wf(),
    ensures
        final(p).wf(),
        load_outcome(&*old(p), &*final(p), r, load_addr(&*old(p), i), rd_of(i.0), 1, true),
{
    proof {
        lemma_reg_fields(i.0);
    }
    let rs1 = p.regs.get(i.rs1() as usize);
    let addr = add_offset(rs1, i.imm());
    let v = match p.mmu.read_b(addr) {
        Ok(v) => v,
        Err(Fault::PageFault) => return do_trap(p, 13, addr),
        Err(Fault::Unmapped) => return Err(Halt::Unmapped),
    };
    let x = sign_extend(v as u64, 8);
    proof {
        lemma_i64_as_u64(x);
    }
    let value = x as u64;
    p.regs.set(i.rd() as usize, value);
    p.advance_pc();
    Ok(())
}

/// Load halfword, sign-extended.
pub fn lh<M: Memory>(p: &mut Processor<M>, i: Itype) -> (r: Result<(), Halt>)
    requires
        old(p).wf(),
    ensures
        final(p).wf(),
        load_outcome(&*old(p), &*final(p), r, load_addr(&*old(p), i), rd_of(i.0), 2, true),
{
    proof {
        lemma_reg_fields(i.0);
    }
    let rs1 = p.regs.get(i.rs1() as usize);
    let addr = add_offset(rs1, i.imm());
    let v = match p.mmu.read_h(addr) {
        Ok(v) => v,
        Err(Fault::PageFault) => return do_trap(p, 13, addr),
        Err(Fault::Unmapped) => return Err(Halt::Unmapped),
    };
    let x = sign_extend(v as u64, 16);
    proof {
        lemma_i64_as_u64(x);
    }
    let value = x as u64;
    p.regs.set(i.rd() as usize, value);
    p.advance_pc();
    Ok(())
}

/// Load word, sign-extended.
pub fn lw<M: Memory>(p: &mut Processor<M>, i: Itype) -> (r: Result<(), Halt>)
    requires
        old(p).wf(),
    ensures
        final(p).wf(),
        load_outcome(&*old(p), &*final(p), r, load_addr(&*old(p), i), rd_of(i.0), 4, true),
{
    proof {
        lemma_reg_fields(i.0);
    }
    let rs1 = p.regs.get(i.rs1() as usize);
    let addr = add_offset(rs1, i.imm());
    let v = match p.mmu.read_w(addr) {
        Ok(v) => v,
        Err(Fault::PageFault) => return do_trap(p, 13, addr),
        Err(Fault::Unmapped) => return Err(Halt::Unmapped),
    };
    let x = sign_extend(v as u64, 32);
    proof {
        lemma_i64_as_u64(x);
    }
    let value = x as u64;
    p.regs.set(i.rd() as usize, value);
    p.advance_pc();
    Ok(())
}

/// Load doubleword.
pub fn ld<M: Memory>(p: &mut Processor<M>, i: Itype) -> (r: Result<(), Halt>)
    requires
        old(p).wf(),
    ensures
        final(p).wf(),
        load_outcome(&*old(p), &*final(p), r, load_addr(&*old(p), i), rd_of(i.0), 8, false),
{
    proof {
        lemma_reg_fields(i.0);
    }
    let rs1 = p.regs.get(i.rs1() as usize);
    let addr = add_offset(rs1, i.imm());
    let v = match p.mmu.read_d(addr) {
        Ok(v) => v,
        Err(Fault::PageFault) => return do_trap(p, 13, addr),
        Err(Fault::Unmapped) => return Err(Halt::Unmapped),
    };
    let value = v;
    p.regs.set(i.rd() as usize, value);
    p.advance_pc();
    Ok(())
}

/// Load byte, zero-extended.
pub fn lbu<M: Memory>(p: &mut Processor<M>, i: Itype) -> (r: Result<(), Halt>)
    requires
        old(p).wf(),
    ensures
        final(p).wf(),
        load_outcome(&*old(p), &*final(p), r, load_addr(&*old(p), i), rd_of(i.0), 1, false),
{
    proof {
        lemma_reg_fields(i.0);
    }
    let rs1 = p.regs.get(i.rs1() as usize);
    let addr = add_offset(rs1, i.imm());
    let v = match p.mmu.read_b(addr) {
        Ok(v) => v,
        Err(Fault::PageFault) => return do_trap(p, 13, addr),
        Err(Fault::Unmapped) => return Err(Halt::Unmapped),
    };
    let value = v as u64;
    p.regs.set(i.rd() as usize, value);
    p.advance_pc();
    Ok(())
}

/// Load halfword, zero-extended.
pub fn lhu<M: Memory>(p: &mut Processor<M>, i: Itype) -> (r: Result<(), Halt>)
    requires
        old(p).wf(),
    ensures
        final(p).wf(),
        load_outcome(&*old(p), &*final(p), r, load_addr(&*old(p), i), rd_of(i.0), 2, false),
{
    proof {
        lemma_reg_fields(i.0);
    }
    let rs1 = p.regs.get(i.rs1() as usize);
    let addr = add_offset(rs1, i.imm());
    let v = match p.mmu.read_h(addr) {
        Ok(v) => v,
        Err(Fault::PageFault) => return do_trap(p, 13, addr),
        Err(Fault::Unmapped) => return Err(Halt::Unmapped),
    };
    let value = v as u64;
    p.regs.set(i.rd() as usize, value);
    p.advance_pc();
    Ok(())
}

/// Load word, zero-extended.
pub fn lwu<M: Memory>(p: &mut Processor<M>, i: Itype) -> (r: Result<(), Halt>)
    requires
        old(p).wf(),
    ensures
        final(p).wf(),
        load_outcome(&*old(p), &*final(p), r, load_addr(&*old(p), i), rd_of(i.0), 4, false),
{
    proof {
        lemma_reg_fields(i.0);
    }
    let rs1 = p.regs.get(i.rs1() as usize);
    let addr = add_offset(rs1, i.imm());
    let v = match p.mmu.read_w(addr) {
        Ok(v) => v,
        Err(Fault::PageFault) => return do_trap(p, 13, addr),
        Err(Fault::Unmapped) => return Err(Halt::Unmapped),
    };
    let value = v as u64;
    p.regs.set(i.rd() as usize, value);
    p.advance_pc();
    Ok(())
}

/// Store byte.
pub fn sb<M: Memory>(p: &mut Processor<M>, i: Stype) -> (r: Result<(), Halt>)
    requires
        old(p).wf(),
    ensures
        final(p).wf(),
        store_outcome(&*old(p), &*final(p), r, store_addr(&*old(p), i), 1, (old(p).regs@[rs2_of(i.0)] as u8) as u64),
{
    proof {
        lemma_reg_fields(i.0);
    }
    let rs1 = p.regs.get(i.rs1() as usize);
    let rs2 = p.regs.get(i.rs2() as usize);
    let offset = add_offset(rs1, i.imm());
    match p.mmu.write_b(offset, #[verifier::truncate] (rs2 as u8)) {
        Ok(()) => {},
        Err(Fault::PageFault) => return do_trap(p, 15, offset),
        Err(Fault::Unmapped) => return Err(Halt::Unmapped),
    }
    p.advance_pc();
    Ok(())
}

/// Store halfword.
pub fn sh<M: Memory>(p: &mut Processor<M>, i: Stype) -> (r: Result<(), Halt>)
    requires
        old(p).wf(),
    ensures
        final(p).wf(),
        store_outcome(&*old(p), &*final(p), r, store_addr(&*old(p), i), 2, (old(p).regs@[rs2_of(i.0)] as u16) as u64),
{
    proof {
        lemma_reg_fields(i.0);
    }
    let rs1 = p.regs.get(i.rs1() as usize);
    let rs2 = p.regs.get(i.rs2() as usize);
    let offset = add_offset(rs1, i.imm());
    match p.mmu.write_h(offset, #[verifier::truncate] (rs2 as u16)) {
        Ok(()) => {},
        Err(Fault::PageFault) => return do_trap(p, 15, offset),
        Err(Fault::Unmapped) => return Err(Halt::Unmapped),
    }
    p.advance_pc();
    Ok(())
}

/// Store word.
pub fn sw<M: Memory>(p: &mut Processor<M>, i: Stype) -> (r: Result<(), Halt>)
    requires
        old(p).wf(),
    ensures
        final(p).wf(),
        store_outcome(&*old(p), &*final(p), r, store_addr(&*old(p), i), 4, (old(p).regs@[rs2_of(i.0)] as u32) as u64),
{
    proof {
        lemma_reg_fields(i.0);
    }
    let rs1 = p.regs.get(i.rs1() as usize);
    let rs2 = p.regs.get(i.rs2() as usize);
    let offset = add_offset(rs1, i.imm());
    match p.mmu.write_w(offset, #[verifier::truncate] (rs2 as u32)) {
        Ok(()) => {},
        Err(Fault::PageFault) => return do_trap(p, 15, offset),
        Err(Fault::Unmapped) => return Err(Halt::Unmapped),
    }
    p.advance_pc();
    Ok(())
}

/// Store doubleword.
pub fn sd<M: Memory>(p: &mut Processor<M>, i: Stype) -> (r: Result<(), Halt>)
    requires
        old(p).wf(),
    ensures
        final(p).wf(),
        store_outcome(&*old(p), &*final(p), r, store_addr(&*old(p), i), 8, old(p).regs@[rs2_of(i.0)]),
{
    proof {
        lemma_reg_fields(i.0);
    }
    let rs1 = p.regs.get(i.rs1() as usize);
    let rs2 = p.regs.get(i.rs2() as usize);
    let offset = add_offset(rs1, i.imm());
    match p.mmu.write_d(offset, rs2) {
        Ok(()) => {},
        Err(Fault::PageFault) => return do_trap(p, 15, offset),
        Err(Fault::Unmapped) => return Err(Halt::Unmapped),
    }
    p.advance_pc();
    Ok(())
}

} // verus!
