use vstd::prelude::*;
use crate::bitfield::{
    lemma_get_bits_bound, lemma_mask_values, low_mask, Mstatus, PageTableEntry, PhysicalAddress, VirtualAddress, get_bits, put_bits, bit, vpn,
    pte_ppn_offset, ppn_len,
};
use crate::memory::{Memory, le64, le32, le16, range_mapped, byte_of, low_bytes, mem_value, lemma_read_after_write};

verus! {

/// Number of entries of the instruction fetch cache.
pub const INSN_CACHE_SIZE: usize = 10000;

/// Number of entries of the translation cache.
pub const TRANSLATION_CACHE_SIZE: usize = 4000;

/// What a memory access is for.
#[derive(Clone, Copy, PartialEq, Eq, Structural, Debug)]
pub enum MemoryOp {
    Fetch,
    Load,
    Store,
}

/// Why a memory access failed.
#[derive(Clone, Copy, Debug, PartialEq, Eq, Structural)]
pub enum Fault {
    /// The page walk refused the access.
    PageFault,
    /// The physical address is not backed by memory.
    Unmapped,
}

/// The outcome of a Sv39 page walk.
pub enum Walk {
    /// A leaf entry, found at the given level.
    Leaf(u64, nat),
    PageFault,
    /// A page table entry lies outside memory.
    Unmapped,
}

/// The page table entry stored at `addr`.
pub open spec fn pte_at<M: Memory>(mem: &M, addr: u64) -> u64 {
    le64(
        mem.byte(addr),
        mem.byte((addr + 1) as u64),
        mem.byte((addr + 2) as u64),
        mem.byte((addr + 3) as u64),
        mem.byte((addr + 4) as u64),
        mem.byte((addr + 5) as u64),
        mem.byte((addr + 6) as u64),
        mem.byte((addr + 7) as u64),
    )
}

/// Whether a leaf entry grants the access `op`.
pub open spec fn grants(op: MemoryOp, pte: u64) -> bool {
    match op {
        MemoryOp::Fetch => bit(pte, 3),
        MemoryOp::Load => bit(pte, 1),
        MemoryOp::Store => bit(pte, 2),
    }
}

/// The address of the entry for `va` in the table at `table`, at `level`.
pub open spec fn pte_addr(table: u64, va: u64, level: nat) -> u64 {
    (table + vpn(va, level as int) * 8) as u64
}

/// The Sv39 page walk for `va` from the table at `table`, starting at `level`:
/// an invalid entry, or one that is writable but not readable, faults; an
/// entry that is readable or executable is the leaf, which faults when it
/// does not grant `op`, or when user mode (`prv` 0) reaches it without the
/// user bit; any other entry points to the table of the next level, and
/// faults at level 0.
pub open spec fn walk<M: Memory>(mem: &M, table: u64, va: u64, op: MemoryOp, prv: u64, level: nat) -> Walk
    decreases level,
{
    let addr = pte_addr(table, va, level);
    if !range_mapped(mem, addr, 8) {
        Walk::Unmapped
    } else {
        let pte = pte_at(mem, addr);
        if !bit(pte, 0) || (!bit(pte, 1) && bit(pte, 2)) {
            Walk::PageFault
        } else if bit(pte, 1) || bit(pte, 3) {
            if !grants(op, pte) || (prv == 0 && !bit(pte, 4)) {
                Walk::PageFault
            } else {
                Walk::Leaf(pte, level)
            }
        } else if level == 0 {
            Walk::PageFault
        } else {
            walk(mem, (get_bits(pte, 10, 44) * 4096) as u64, va, op, prv, (level - 1) as nat)
        }
    }
}

/// Physical page number `n` of a translation that ends at a leaf of `level`:
/// below the level it comes from the virtual address (a superpage), from the
/// level up from the entry.
pub open spec fn pa_ppn(va: u64, pte: u64, level: nat, n: int) -> u64 {
    if n < level {
        vpn(va, n)
    } else {
        get_bits(pte, pte_ppn_offset(n), ppn_len(n))
    }
}

/// The physical address `va` maps to through the leaf `pte` of `level`.
pub open spec fn pa_of(va: u64, pte: u64, level: nat) -> u64 {
    ((pa_ppn(va, pte, level, 2) & 0x3ffffff) << 30u64) | ((pa_ppn(va, pte, level, 1) & 0x1ff)
        << 21u64) | ((pa_ppn(va, pte, level, 0) & 0x1ff) << 12u64) | get_bits(va, 0, 12)
}

/// Building a physical address field by field from zero gives the fields side by side.
pub proof fn lemma_build_pa(c: u64, b: u64, a: u64, d: u64)
    ensures
        put_bits(put_bits(put_bits(put_bits(0, 30, 26, c), 21, 9, b), 12, 9, a), 0, 12, get_bits(d, 0, 12))
            == ((c & 0x3ffffff) << 30u64) | ((b & 0x1ff) << 21u64) | ((a & 0x1ff) << 12u64) | get_bits(d, 0, 12),
{
    assert(put_bits(put_bits(put_bits(put_bits(0, 30, 26, c), 21, 9, b), 12, 9, a), 0, 12, get_bits(d, 0, 12))
            == ((c & 0x3ffffff) << 30u64) | ((b & 0x1ff) << 21u64) | ((a & 0x1ff) << 12u64) | get_bits(d, 0, 12)) by (bit_vector);
}

/// Whether a range is backed only depends on which bytes are backed.
pub proof fn lemma_range_mapped_same<M: Memory>(m1: &M, m2: &M, addr: u64, n: u64)
    requires
        forall|x: u64| #[trigger] m1.mapped(x) == m2.mapped(x),
    ensures
        range_mapped(m1, addr, n) == range_mapped(m2, addr, n),
{
    if range_mapped(m1, addr, n) {
        assert forall|k: u64| k < n implies #[trigger] m2.mapped((addr + k) as u64) by {
            assert(m1.mapped((addr + k) as u64));
        }
    }
    if range_mapped(m2, addr, n) {
        assert forall|k: u64| k < n implies #[trigger] m1.mapped((addr + k) as u64) by {
            assert(m2.mapped((addr + k) as u64));
        }
    }
}

/// The page walk only depends on what the memory holds.
pub proof fn lemma_walk_same_memory<M: Memory>(m1: &M, m2: &M, table: u64, va: u64, op: MemoryOp, prv: u64, level: nat)
    requires
        forall|x: u64| #[trigger] m1.mapped(x) == m2.mapped(x),
        forall|x: u64| #[trigger] m1.byte(x) == m2.byte(x),
    ensures
        walk(m1, table, va, op, prv, level) == walk(m2, table, va, op, prv, level),
    decreases level,
{
    let addr = pte_addr(table, va, level);
    lemma_range_mapped_same(m1, m2, addr, 8);
    if level > 0 {
        let pte = pte_at(m1, addr);
        lemma_walk_same_memory(m1, m2, (get_bits(pte, 10, 44) * 4096) as u64, va, op, prv, (level - 1) as nat);
    }
}

/// A leaf is found at or below the level the walk starts at.
pub proof fn lemma_walk_level<M: Memory>(mem: &M, table: u64, va: u64, op: MemoryOp, prv: u64, level: nat)
    ensures
        walk(mem, table, va, op, prv, level) matches Walk::Leaf(_, l) ==> l <= level,
    decreases level,
{
    if level > 0 {
        let addr = pte_addr(table, va, level);
        let pte = pte_at(mem, addr);
        lemma_walk_level(mem, (get_bits(pte, 10, 44) * 4096) as u64, va, op, prv, (level - 1) as nat);
    }
}

/// A walk ends only at the first leaf it meets, and only where that leaf
/// grants the access: the entry is valid, readable or executable, has the
/// bit of `op`, and the user bit where user mode walks.
pub proof fn lemma_walk_leaf_grants<M: Memory>(mem: &M, table: u64, va: u64, op: MemoryOp, prv: u64, level: nat)
    ensures
        walk(mem, table, va, op, prv, level) matches Walk::Leaf(pte, _) ==> {
            &&& bit(pte, 0)
            &&& bit(pte, 1) || bit(pte, 3)
            &&& grants(op, pte)
            &&& prv == 0 ==> bit(pte, 4)
        },
        range_mapped(mem, pte_addr(table, va, level), 8) && (bit(pte_at(mem, pte_addr(table, va, level)), 1)
            || bit(pte_at(mem, pte_addr(table, va, level)), 3)) ==> !(walk(mem, table, va, op, prv, level) matches Walk::Leaf(_, l) && l < level),
    decreases level,
{
    if level > 0 {
        let addr = pte_addr(table, va, level);
        let pte = pte_at(mem, addr);
        lemma_walk_leaf_grants(mem, (get_bits(pte, 10, 44) * 4096) as u64, va, op, prv, (level - 1) as nat);
    }
}

/// Where the Sv39 walk for `va` ends at a leaf, the translation keeps the page
/// offset of `va` and takes the physical page number from the leaf: for a 4 KiB
/// page (a leaf at level 0) all 44 bits of the entry's page number; for a
/// 2 MiB page (level 1) the entry's upper 35 bits over the low 21 bits of `va`;
/// for a 1 GiB page (level 2) the entry's upper 26 bits over the low 30 bits of `va`.
pub proof fn lemma_translation_of_leaf<M: Memory>(mmu: &Mmu<M>, va: u64, op: MemoryOp, prv: u64)
    requires
        mmu.sv39,
        prv != 3,
    ensures
        walk(&mmu.mem, (mmu.ppn * 4096) as u64, va, op, prv, 2) matches Walk::Leaf(pte, level) ==> mmu.translation(va, op, prv)
            == Ok::<u64, Fault>(
            if level == 0 {
                (get_bits(pte, 10, 44) << 12u64) | (va & 0xfff)
            } else if level == 1 {
                (get_bits(pte, 19, 35) << 21u64) | (va & 0x1f_ffff)
            } else {
                (get_bits(pte, 28, 26) << 30u64) | (va & 0x3fff_ffff)
            },
        ),
{
    let table = (mmu.ppn * 4096) as u64;
    lemma_walk_level(&mmu.mem, table, va, op, prv, 2);
    if let Walk::Leaf(pte, level) = walk(&mmu.mem, table, va, op, prv, 2) {
        assert({
            &&& low_mask(9) == 0x1ff
            &&& low_mask(12) == 0xfff
            &&& low_mask(26) == 0x3ff_ffff
            &&& low_mask(35) == 0x7_ffff_ffff
            &&& low_mask(44) == 0xfff_ffff_ffff
            &&& ((((pte >> 28u64) & 0x3ff_ffff) & 0x3ffffff) << 30u64) | ((((pte >> 19u64) & 0x1ff) & 0x1ff) << 21u64)
                | ((((pte >> 10u64) & 0x1ff) & 0x1ff) << 12u64) | ((va >> 0u64) & 0xfff)
                == (((pte >> 10u64) & 0xfff_ffff_ffff) << 12u64) | (va & 0xfff)
            &&& ((((pte >> 28u64) & 0x3ff_ffff) & 0x3ffffff) << 30u64) | ((((pte >> 19u64) & 0x1ff) & 0x1ff) << 21u64)
                | ((((va >> 12u64) & 0x1ff) & 0x1ff) << 12u64) | ((va >> 0u64) & 0xfff)
                == (((pte >> 19u64) & 0x7_ffff_ffff) << 21u64) | (va & 0x1f_ffff)
            &&& ((((pte >> 28u64) & 0x3ff_ffff) & 0x3ffffff) << 30u64) | ((((va >> 21u64) & 0x1ff) & 0x1ff) << 21u64)
                | ((((va >> 12u64) & 0x1ff) & 0x1ff) << 12u64) | ((va >> 0u64) & 0xfff)
                == (((pte >> 28u64) & 0x3ff_ffff) << 30u64) | (va & 0x3fff_ffff)
        }) by (bit_vector);
    }
}

/// Each step of the walk: the entry for `va` at `level` lies at the table's
/// base plus eight times the nine bits of `va` from bit 12 + 9 * level. Where
/// that entry is backed, valid and readable or executable, and grants the
/// access (bit 3 for a fetch, bit 1 for a load, bit 2 for a store, and bit 4
/// as well in user mode), the walk ends at it. Where it is valid with bits 1,
/// 2 and 3 clear, above level 0, the walk goes on at the next level down in
/// the table at the entry's page number (bits 10..53) times 4096.
pub proof fn lemma_walk_step<M: Memory>(mem: &M, table: u64, va: u64, op: MemoryOp, prv: u64, level: nat)
    requires
        level <= 2,
        range_mapped(mem, (table + ((va >> (12 + 9 * level) as u64) & 0x1ff) * 8) as u64, 8),
    ensures
        ({
            let pte = pte_at(mem, (table + ((va >> (12 + 9 * level) as u64) & 0x1ff) * 8) as u64);
            let granted = match op {
                MemoryOp::Fetch => (pte >> 3u64) & 1 == 1,
                MemoryOp::Load => (pte >> 1u64) & 1 == 1,
                MemoryOp::Store => (pte >> 2u64) & 1 == 1,
            };
            &&& (pte & 1 == 1 && ((pte >> 1u64) & 1 == 1 || (pte >> 3u64) & 1 == 1) && !((pte >> 1u64) & 1 == 0 && (pte >> 2u64) & 1 == 1)
                && granted && (prv == 0 ==> (pte >> 4u64) & 1 == 1)) ==> walk(mem, table, va, op, prv, level) == Walk::Leaf(pte, level)
            &&& (pte & 1 == 1 && (pte >> 1u64) & 1 == 0 && (pte >> 2u64) & 1 == 0 && (pte >> 3u64) & 1 == 0 && level > 0) ==> walk(
                mem,
                table,
                va,
                op,
                prv,
                level,
            ) == walk(mem, (((pte >> 10u64) & 0xfff_ffff_ffff) * 4096) as u64, va, op, prv, (level - 1) as nat)
        }),
{
    lemma_mask_values();
    assert((12 + level * 9) as u64 == (12 + 9 * level) as u64);
    assert(vpn(va, level as int) == (va >> (12 + 9 * level) as u64) & 0x1ff);
    let addr = (table + ((va >> (12 + 9 * level) as u64) & 0x1ff) * 8) as u64;
    assert(pte_addr(table, va, level) == addr);
    let pte = pte_at(mem, addr);
    assert(pte & 1 == (pte >> 0u64) & 1 && ((pte >> 1u64) & 1 == 0 || (pte >> 1u64) & 1 == 1) && ((pte >> 2u64) & 1 == 0 || (pte
        >> 2u64) & 1 == 1) && ((pte >> 3u64) & 1 == 0 || (pte >> 3u64) & 1 == 1)) by (bit_vector);
    assert(bit(pte, 0) == (pte & 1 == 1));
    assert(bit(pte, 1) == ((pte >> 1u64) & 1 == 1));
    assert(bit(pte, 2) == ((pte >> 2u64) & 1 == 1));
    assert(bit(pte, 3) == ((pte >> 3u64) & 1 == 1));
    assert(bit(pte, 4) == ((pte >> 4u64) & 1 == 1));
    assert(get_bits(pte, 10, 44) == (pte >> 10u64) & 0xfff_ffff_ffff);
}

/// The memory unit: address translation in front of the physical memory.
pub struct Mmu<M> {
    pub mem: M,
    pub prv: u64,
    pub insn_prv: u64,
    pub sv39: bool,
    pub asid: u16,
    pub ppn: u64,
    pub cache: Vec<(u64, u64)>,
    pub insn_cache: Vec<(u64, u32)>,
}

impl<M: Memory> Mmu<M> {
    pub open spec fn wf(&self) -> bool {
        &&& self.mem.inv()
        &&& self.ppn < 0x10_0000_0000_0000
        &&& self.cache@.len() > 0
        &&& self.insn_cache@.len() == INSN_CACHE_SIZE
    }

    /// The physical address an access to `va` for `op` at privilege `prv` goes
    /// to. Without Sv39, and in machine mode, addresses are physical.
    pub open spec fn translation(&self, va: u64, op: MemoryOp, prv: u64) -> Result<u64, Fault> {
        if !self.sv39 || prv == 3 {
            Ok(va)
        } else {
            match walk(&self.mem, (self.ppn * 4096) as u64, va, op, prv, 2) {
                Walk::Leaf(pte, level) => Ok(pa_of(va, pte, level)),
                Walk::PageFault => Err(Fault::PageFault),
                Walk::Unmapped => Err(Fault::Unmapped),
            }
        }
    }

    /// Where an access of `n` bytes at `va` goes: the physical address when
    /// the translation succeeds and memory backs all `n` bytes.
    pub open spec fn access(&self, va: u64, op: MemoryOp, prv: u64, n: u64) -> Result<u64, Fault> {
        match self.translation(va, op, prv) {
            Ok(pa) => if range_mapped(&self.mem, pa, n) {
                Ok(pa)
            } else {
                Err(Fault::Unmapped)
            },
            Err(e) => Err(e),
        }
    }

    /// Everything but the memory's contents and the caches is the same.
    pub open spec fn same_state(&self, other: &Mmu<M>) -> bool {
        &&& other.wf()
        &&& other.prv == self.prv
        &&& other.insn_prv == self.insn_prv
        &&& other.sv39 == self.sv39
        &&& other.asid == self.asid
        &&& other.ppn == self.ppn
    }

    /// The memory holds what it held, and the translation state is the same.
    pub open spec fn unchanged(&self, other: &Mmu<M>) -> bool {
        &&& self.same_state(other)
        &&& forall|x: u64| #[trigger] other.mem.mapped(x) == self.mem.mapped(x)
        &&& forall|x: u64| #[trigger] other.mem.byte(x) == self.mem.byte(x)
    }

    /// The memory holds what it held, but for the `n` bytes at `pa`, which hold
    /// `value`, and the translation state is the same.
    pub open spec fn stored(&self, other: &Mmu<M>, pa: u64, n: u64, value: u64) -> bool {
        &&& self.same_state(other)
        &&& forall|x: u64| #[trigger] other.mem.mapped(x) == self.mem.mapped(x)
        &&& forall|x: u64| #[trigger]
            other.mem.byte(x) == if pa <= x < pa + n {
                byte_of(value, (x - pa) as u64)
            } else {
                self.mem.byte(x)
            }
    }

    /// An access goes where it went before the memory was read.
    pub proof fn lemma_access_unchanged(&self, other: &Mmu<M>, va: u64, op: MemoryOp, prv: u64, n: u64)
        requires
            self.unchanged(other),
        ensures
            other.access(va, op, prv, n) == self.access(va, op, prv, n),
            other.translation(va, op, prv) == self.translation(va, op, prv),
    {
        lemma_walk_same_memory(&self.mem, &other.mem, (self.ppn * 4096) as u64, va, op, prv, 2);
        if let Ok(pa) = self.translation(va, op, prv) {
            lemma_range_mapped_same(&self.mem, &other.mem, pa, n);
        }
    }

    /// Where addresses are not translated (bare mode, or machine mode), a read
    /// through the memory unit of the width of a write, at the address of the
    /// write, gives back the value written.
    pub proof fn lemma_read_after_write(&self, other: &Mmu<M>, va: u64, prv: u64, n: u64, v: u64)
        requires
            !self.sv39 || prv == 3,
            n == 1 || n == 2 || n == 4 || n == 8,
            self.access(va, MemoryOp::Store, prv, n) is Ok,
            self.stored(other, va, n, v),
        ensures
            other.access(va, MemoryOp::Load, prv, n) == Ok::<u64, Fault>(va),
            mem_value(&other.mem, va, n) == low_bytes(v, n),
    {
        lemma_range_mapped_same(&self.mem, &other.mem, va, n);
        lemma_read_after_write(&self.mem, &other.mem, va, n, v, va);
    }

    pub fn new(m: M) -> (r: Self)
        requires
            m.inv(),
        ensures
            r.wf(),
            r.mem == m,
            r.prv == 3,
            r.insn_prv == 3,
            !r.sv39,
            r.asid == 0,
            r.ppn == 0,
    {
        Self {
            mem: m,
            prv: 3,
            insn_prv: 3,
            sv39: false,
            asid: 0,
            ppn: 0,
            cache: vec![(0u64, 0u64); TRANSLATION_CACHE_SIZE],
            insn_cache: vec![(0u64, 0u32); INSN_CACHE_SIZE],
        }
    }

    pub fn mem(&self) -> (r: &M)
        ensures
            *r == self.mem,
    {
        &self.mem
    }

    pub fn mem_mut(&mut self) -> (r: &mut M)
        ensures
            *r == old(self).mem,
            final(self).mem == *final(r),
            final(self).prv == old(self).prv,
            final(self).insn_prv == old(self).insn_prv,
            final(self).sv39 == old(self).sv39,
            final(self).asid == old(self).asid,
            final(self).ppn == old(self).ppn,
            final(self).cache == old(self).cache,
            final(self).insn_cache == old(self).insn_cache,
    {
        &mut self.mem
    }

    pub fn bare(&self) -> (r: &M)
        ensures
            *r == self.mem,
    {
        &self.mem
    }

    pub fn bare_mut(&mut self) -> (r: &mut M)
        ensures
            *r == old(self).mem,
            final(self).mem == *final(r),
            final(self).prv == old(self).prv,
            final(self).insn_prv == old(self).insn_prv,
            final(self).sv39 == old(self).sv39,
            final(self).asid == old(self).asid,
            final(self).ppn == old(self).ppn,
            final(self).cache == old(self).cache,
            final(self).insn_cache == old(self).insn_cache,
    {
        &mut self.mem
    }

    /// Whether memory backs all `n` bytes at `offset`.
    pub fn range_is_mapped(mem: &M, offset: u64, n: u64) -> (r: bool)
        requires
            mem.inv(),
        ensures
            r == range_mapped(mem, offset, n),
    {
        if n > 0 && offset > u64::MAX - (n - 1) {
            return false;
        }
        let mut k: u64 = 0;
        while k < n
            invariant
                mem.inv(),
                n == 0 || offset <= u64::MAX - (n - 1),
                k <= n,
                forall|j: u64| j < k ==> #[trigger] mem.mapped((offset + j) as u64),
            decreases n - k,
        {
            if !mem.is_mapped(offset + k) {
                return false;
            }
            k = k + 1;
        }
        true
    }

    /// Walks the page table from the table at `table`, starting at `level`;
    /// gives the leaf entry and its level.
    fn walk_from(&mut self, table: u64, va: &VirtualAddress, op: MemoryOp, prv: u64, level: u8) -> (r: Result<(u64, u8), Fault>)
        requires
            old(self).wf(),
            level <= 2,
            table <= u64::MAX - 4095,
        ensures
            old(self).unchanged(&*final(self)),
            match walk(&old(self).mem, table, va@, op, prv, level as nat) {
                Walk::Leaf(pte, l) => r == Ok::<(u64, u8), Fault>((pte, l as u8)),
                Walk::PageFault => r matches Err(Fault::PageFault),
                Walk::Unmapped => r matches Err(Fault::Unmapped),
            },
        decreases level,
    {
        proof {
            lemma_get_bits_bound(va@, (12 + level * 9) as u64, 9);
            lemma_mask_values();
        }
        let pte_offset = table + va.virtual_page_number(level) * 8;
        if !Self::range_is_mapped(&self.mem, pte_offset, 8) {
            return Err(Fault::Unmapped);
        }
        let ghost before = *self;
        let pte_val = self.mem.read_d(pte_offset);
        proof {
            lemma_walk_same_memory(&before.mem, &self.mem, table, va@, op, prv, level as nat);
        }
        let pte = PageTableEntry::new(pte_val);
        // an invalid entry, or a writable one that is not readable
        if !pte.v() || (!pte.r() && pte.w()) {
            return Err(Fault::PageFault);
        }
        // a leaf: readable or executable
        if pte.r() || pte.x() {
            let granted = match op {
                MemoryOp::Fetch => pte.x(),
                MemoryOp::Load => pte.r(),
                MemoryOp::Store => pte.w(),
            };
            if !granted || (prv == 0 && !pte.u()) {
                return Err(Fault::PageFault);
            }
            return Ok((pte_val, level));
        }
        // a pointer to the next level
        if level == 0 {
            return Err(Fault::PageFault);
        }
        proof {
            lemma_get_bits_bound(pte_val, 10, 44);
        }
        let next = pte.physical_page_number() * 4096;
        let r = self.walk_from(next, va, op, prv, level - 1);
        proof {
            lemma_walk_same_memory(&before.mem, &self.mem, next, va@, op, prv, (level - 1) as nat);
        }
        r
    }

    /// Translates `offset` for the access `op` at privilege `prv`.
    pub fn translate(&mut self, offset: u64, op: MemoryOp, prv: u64) -> (r: Result<u64, Fault>)
        requires
            old(self).wf(),
        ensures
            old(self).unchanged(&*final(self)),
            r == old(self).translation(offset, op, prv),
    {
        if !self.sv39 || prv == 3 {
            return Ok(offset);
        }
        let va = VirtualAddress::new(offset);
        let table = self.ppn * 4096;
        let ghost before = *self;
        proof {
            lemma_walk_level(&self.mem, table, offset, op, prv, 2);
        }
        let (pte_val, level) = match self.walk_from(table, &va, op, prv, 2) {
            Ok(leaf) => leaf,
            Err(e) => return Err(e),
        };
        let pte = PageTableEntry::new(pte_val);

        // the page numbers below the leaf's level come from the virtual address
        let ppn2 = pte.physical_page_number_arr(2);
        let ppn1 = if 1 < level { va.virtual_page_number(1) } else { pte.physical_page_number_arr(1) };
        let ppn0 = if 0 < level { va.virtual_page_number(0) } else { pte.physical_page_number_arr(0) };
        let mut pa = PhysicalAddress::new(0);
        pa.set_physical_page_number_arr(2, ppn2);
        pa.set_physical_page_number_arr(1, ppn1);
        pa.set_physical_page_number_arr(0, ppn0);
        pa.set_offset(va.offset());
        let pa = pa.into_val();
        proof {
            lemma_build_pa(ppn2, ppn1, ppn0, offset);
            assert(pa == pa_of(offset, pte_val, level as nat));
        }

        let vpage = offset >> 12u64;
        let cache_idx = (#[verifier::truncate] (vpage as usize)) % self.cache.len();
        self.cache.set(cache_idx, (vpage, pa & !0xfffu64));
        Ok(pa)
    }

    /// Fetches the instruction word at `pc`, translated at the fetch privilege.
    pub fn read_insn(&mut self, pc: u64) -> (r: Result<u32, Fault>)
        requires
            old(self).wf(),
        ensures
            old(self).unchanged(&*final(self)),
            match old(self).access(pc, MemoryOp::Fetch, old(self).insn_prv, 4) {
                Ok(pa) => r == Ok::<u32, Fault>(le32(old(self).mem.byte(pa), old(self).mem.byte((pa + 1) as u64), old(self).mem.byte((pa + 2) as u64), old(self).mem.byte((pa + 3) as u64))),
                Err(e) => r == Err::<u32, Fault>(e),
            },
    {
        let cache_idx = (#[verifier::truncate] ((pc >> 2u64) as usize)) % INSN_CACHE_SIZE;
        let addr = match self.translate(pc, MemoryOp::Fetch, self.insn_prv) {
            Ok(a) => a,
            Err(e) => return Err(e),
        };
        proof {
            lemma_range_mapped_same(&old(self).mem, &self.mem, addr, 4);
        }
        if !Self::range_is_mapped(&self.mem, addr, 4) {
            return Err(Fault::Unmapped);
        }
        let ghost mid = *self;
        let val = self.mem.read_w(addr);
        proof {
            assert(mid.mem.byte(addr) == old(self).mem.byte(addr));
            assert(mid.mem.byte((addr + 1) as u64) == old(self).mem.byte((addr + 1) as u64));
            assert(mid.mem.byte((addr + 2) as u64) == old(self).mem.byte((addr + 2) as u64));
            assert(mid.mem.byte((addr + 3) as u64) == old(self).mem.byte((addr + 3) as u64));
        }
        self.insn_cache.set(cache_idx, (pc, val));
        Ok(val)
    }

    pub fn read_b(&mut self, offset: u64) -> (r: Result<u8, Fault>)
        requires
            old(self).wf(),
        ensures
            old(self).unchanged(&*final(self)),
            match old(self).access(offset, MemoryOp::Load, old(self).prv, 1) {
                Ok(pa) => r == Ok::<u8, Fault>(old(self).mem.byte(pa)),
                Err(e) => r == Err::<u8, Fault>(e),
            },
    {
        let addr = match self.translate(offset, MemoryOp::Load, self.prv) {
            Ok(a) => a,
            Err(e) => return Err(e),
        };
        proof {
            lemma_range_mapped_same(&old(self).mem, &self.mem, addr, 1);
        }
        if !Self::range_is_mapped(&self.mem, addr, 1) {
            return Err(Fault::Unmapped);
        }
        proof {
            assert(self.mem.mapped((addr + 0) as u64));
        }
        Ok(self.mem.read_b(addr))
    }

    pub fn read_h(&mut self, offset: u64) -> (r: Result<u16, Fault>)
        requires
            old(self).wf(),
        ensures
            old(self).unchanged(&*final(self)),
            match old(self).access(offset, MemoryOp::Load, old(self).prv, 2) {
                Ok(pa) => r == Ok::<u16, Fault>(le16(old(self).mem.byte(pa), old(self).mem.byte((pa + 1) as u64))),
                Err(e) => r == Err::<u16, Fault>(e),
            },
    {
        let addr = match self.translate(offset, MemoryOp::Load, self.prv) {
            Ok(a) => a,
            Err(e) => return Err(e),
        };
        proof {
            lemma_range_mapped_same(&old(self).mem, &self.mem, addr, 2);
        }
        if !Self::range_is_mapped(&self.mem, addr, 2) {
            return Err(Fault::Unmapped);
        }
        proof {
            assert(self.mem.mapped((addr + 0) as u64));
            assert(self.mem.mapped((addr + 1) as u64));
        }
        Ok(self.mem.read_h(addr))
    }

    pub fn read_w(&mut self, offset: u64) -> (r: Result<u32, Fault>)
        requires
            old(self).wf(),
        ensures
            old(self).unchanged(&*final(self)),
            match old(self).access(offset, MemoryOp::Load, old(self).prv, 4) {
                Ok(pa) => r == Ok::<u32, Fault>(le32(old(self).mem.byte(pa), old(self).mem.byte((pa + 1) as u64), old(self).mem.byte((pa + 2) as u64), old(self).mem.byte((pa + 3) as u64))),
                Err(e) => r == Err::<u32, Fault>(e),
            },
    {
        let addr = match self.translate(offset, MemoryOp::Load, self.prv) {
            Ok(a) => a,
            Err(e) => return Err(e),
        };
        proof {
            lemma_range_mapped_same(&old(self).mem, &self.mem, addr, 4);
        }
        if !Self::range_is_mapped(&self.mem, addr, 4) {
            return Err(Fault::Unmapped);
        }
        proof {
            assert(self.mem.mapped((addr + 0) as u64));
            assert(self.mem.mapped((addr + 1) as u64));
            assert(self.mem.mapped((addr + 2) as u64));
            assert(self.mem.mapped((addr + 3) as u64));
        }
        Ok(self.mem.read_w(addr))
    }

    pub fn read_d(&mut self, offset: u64) -> (r: Result<u64, Fault>)
        requires
            old(self).wf(),
        ensures
            old(self).unchanged(&*final(self)),
            match old(self).access(offset, MemoryOp::Load, old(self).prv, 8) {
                Ok(pa) => r == Ok::<u64, Fault>(le64(old(self).mem.byte(pa), old(self).mem.byte((pa + 1) as u64), old(self).mem.byte((pa + 2) as u64), old(self).mem.byte((pa + 3) as u64), old(self).mem.byte((pa + 4) as u64), old(self).mem.byte((pa + 5) as u64), old(self).mem.byte((pa + 6) as u64), old(self).mem.byte((pa + 7) as u64))),
                Err(e) => r == Err::<u64, Fault>(e),
            },
    {
        let addr = match self.translate(offset, MemoryOp::Load, self.prv) {
            Ok(a) => a,
            Err(e) => return Err(e),
        };
        proof {
            lemma_range_mapped_same(&old(self).mem, &self.mem, addr, 8);
        }
        if !Self::range_is_mapped(&self.mem, addr, 8) {
            return Err(Fault::Unmapped);
        }
        proof {
            assert(self.mem.mapped((addr + 0) as u64));
            assert(self.mem.mapped((addr + 1) as u64));
            assert(self.mem.mapped((addr + 2) as u64));
            assert(self.mem.mapped((addr + 3) as u64));
            assert(self.mem.mapped((addr + 4) as u64));
            assert(self.mem.mapped((addr + 5) as u64));
            assert(self.mem.mapped((addr + 6) as u64));
            assert(self.mem.mapped((addr + 7) as u64));
        }
        Ok(self.mem.read_d(addr))
    }

    pub fn write_b(&mut self, offset: u64, value: u8) -> (r: Result<(), Fault>)
        requires
            old(self).wf(),
        ensures
            match old(self).access(offset, MemoryOp::Store, old(self).prv, 1) {
                Ok(pa) => r is Ok && old(self).stored(&*final(self), pa, 1, value as u64),
                Err(e) => r == Err::<(), Fault>(e) && old(self).unchanged(&*final(self)),
            },
    {
        let addr = match self.translate(offset, MemoryOp::Store, self.prv) {
            Ok(a) => a,
            Err(e) => return Err(e),
        };
        proof {
            lemma_range_mapped_same(&old(self).mem, &self.mem, addr, 1);
        }
        if !Self::range_is_mapped(&self.mem, addr, 1) {
            return Err(Fault::Unmapped);
        }
        proof {
            assert(self.mem.mapped((addr + 0) as u64));
        }
        let ghost mid = *self;
        self.mem.write_b(addr, value);
        proof {
            assert forall|x: u64| #[trigger]
                self.mem.byte(x) == if addr <= x < addr + 1 {
                    byte_of(value as u64, (x - addr) as u64)
                } else {
                    old(self).mem.byte(x)
                } by {
                assert(mid.mem.byte(x) == old(self).mem.byte(x));
            }
        }
        Ok(())
    }

    pub fn write_h(&mut self, offset: u64, value: u16) -> (r: Result<(), Fault>)
        requires
            old(self).wf(),
        ensures
            match old(self).access(offset, MemoryOp::Store, old(self).prv, 2) {
                Ok(pa) => r is Ok && old(self).stored(&*final(self), pa, 2, value as u64),
                Err(e) => r == Err::<(), Fault>(e) && old(self).unchanged(&*final(self)),
            },
    {
        let addr = match self.translate(offset, MemoryOp::Store, self.prv) {
            Ok(a) => a,
            Err(e) => return Err(e),
        };
        proof {
            lemma_range_mapped_same(&old(self).mem, &self.mem, addr, 2);
        }
        if !Self::range_is_mapped(&self.mem, addr, 2) {
            return Err(Fault::Unmapped);
        }
        proof {
            assert(self.mem.mapped((addr + 0) as u64));
        }
        let ghost mid = *self;
        self.mem.write_h(addr, value);
        proof {
            assert forall|x: u64| #[trigger]
                self.mem.byte(x) == if addr <= x < addr + 2 {
                    byte_of(value as u64, (x - addr) as u64)
                } else {
                    old(self).mem.byte(x)
                } by {
                assert(mid.mem.byte(x) == old(self).mem.byte(x));
            }
        }
        Ok(())
    }

    pub fn write_w(&mut self, offset: u64, value: u32) -> (r: Result<(), Fault>)
        requires
            old(self).wf(),
        ensures
            match old(self).access(offset, MemoryOp::Store, old(self).prv, 4) {
                Ok(pa) => r is Ok && old(self).stored(&*final(self), pa, 4, value as u64),
                Err(e) => r == Err::<(), Fault>(e) && old(self).unchanged(&*final(self)),
            },
    {
        let addr = match self.translate(offset, MemoryOp::Store, self.prv) {
            Ok(a) => a,
            Err(e) => return Err(e),
        };
        proof {
            lemma_range_mapped_same(&old(self).mem, &self.mem, addr, 4);
        }
        if !Self::range_is_mapped(&self.mem, addr, 4) {
            return Err(Fault::Unmapped);
        }
        proof {
            assert(self.mem.mapped((addr + 0) as u64));
        }
        let ghost mid = *self;
        self.mem.write_w(addr, value);
        proof {
            assert forall|x: u64| #[trigger]
                self.mem.byte(x) == if addr <= x < addr + 4 {
                    byte_of(value as u64, (x - addr) as u64)
                } else {
                    old(self).mem.byte(x)
                } by {
                assert(mid.mem.byte(x) == old(self).mem.byte(x));
            }
        }
        Ok(())
    }

    pub fn write_d(&mut self, offset: u64, value: u64) -> (r: Result<(), Fault>)
        requires
            old(self).wf(),
        ensures
            match old(self).access(offset, MemoryOp::Store, old(self).prv, 8) {
                Ok(pa) => r is Ok && old(self).stored(&*final(self), pa, 8, value as u64),
                Err(e) => r == Err::<(), Fault>(e) && old(self).unchanged(&*final(self)),
            },
    {
        let addr = match self.translate(offset, MemoryOp::Store, self.prv) {
            Ok(a) => a,
            Err(e) => return Err(e),
        };
        proof {
            lemma_range_mapped_same(&old(self).mem, &self.mem, addr, 8);
        }
        if !Self::range_is_mapped(&self.mem, addr, 8) {
            return Err(Fault::Unmapped);
        }
        proof {
            assert(self.mem.mapped((addr + 0) as u64));
        }
        let ghost mid = *self;
        self.mem.write_d(addr, value);
        proof {
            assert forall|x: u64| #[trigger]
                self.mem.byte(x) == if addr <= x < addr + 8 {
                    byte_of(value as u64, (x - addr) as u64)
                } else {
                    old(self).mem.byte(x)
                } by {
                assert(mid.mem.byte(x) == old(self).mem.byte(x));
            }
        }
        Ok(())
    }

    /// Empties the instruction fetch cache.
    pub fn flush_cache(&mut self)
        requires
            old(self).wf(),
        ensures
            final(self).wf(),
            final(self).mem == old(self).mem,
            final(self).prv == old(self).prv,
            final(self).insn_prv == old(self).insn_prv,
            final(self).sv39 == old(self).sv39,
            final(self).asid == old(self).asid,
            final(self).ppn == old(self).ppn,
            final(self).cache == old(self).cache,
            final(self).insn_cache@ == Seq::new(INSN_CACHE_SIZE as nat, |i: int| (0u64, 0u32)),
    {
        let mut c: Vec<(u64, u32)> = Vec::new();
        while c.len() < INSN_CACHE_SIZE
            invariant
                c@.len() <= INSN_CACHE_SIZE,
                forall|i: int| 0 <= i < c@.len() ==> #[trigger] c@[i] == (0u64, 0u32),
            decreases INSN_CACHE_SIZE - c@.len(),
        {
            c.push((0, 0));
        }
        assert(c@ =~= Seq::new(INSN_CACHE_SIZE as nat, |i: int| (0u64, 0u32)));
        self.insn_cache = c;
    }

    /// Sets the privilege of fetches to `prv`, and that of loads and stores to
    /// the previous privilege when mstatus.MPRV is set, else to `prv`.
    pub fn set_prv(&mut self, prv: u64, mstatus: &Mstatus)
        requires
            old(self).wf(),
        ensures
            final(self).wf(),
            final(self).mem == old(self).mem,
            final(self).insn_prv == prv,
            final(self).prv == (if get_bits(mstatus@, 17, 1) == 1 {
                get_bits(mstatus@, 11, 2)
            } else {
                prv
            }),
            final(self).sv39 == old(self).sv39,
            final(self).asid == old(self).asid,
            final(self).ppn == old(self).ppn,
    {
        self.flush_cache();
        self.insn_prv = prv;
        self.prv = if mstatus.memory_privilege() == 1 {
            mstatus.machine_previous_privilege()
        } else {
            prv
        };
    }

    /// Turns translation off.
    pub fn set_bare_mode(&mut self)
        requires
            old(self).wf(),
        ensures
            final(self).wf(),
            final(self).mem == old(self).mem,
            final(self).prv == old(self).prv,
            final(self).insn_prv == old(self).insn_prv,
            !final(self).sv39,
            final(self).asid == 0,
            final(self).ppn == 0,
    {
        self.flush_cache();
        self.sv39 = false;
        self.asid = 0;
        self.ppn = 0;
    }

    /// Turns Sv39 translation on, with the root table at page `ppn`.
    pub fn set_page_mode(&mut self, asid: u16, ppn: u64)
        requires
            old(self).wf(),
            ppn < 0x10_0000_0000_0000,
        ensures
            final(self).wf(),
            final(self).mem == old(self).mem,
            final(self).prv == old(self).prv,
            final(self).insn_prv == old(self).insn_prv,
            final(self).sv39,
            final(self).asid == asid,
            final(self).ppn == ppn,
    {
        self.flush_cache();
        self.sv39 = true;
        self.asid = asid;
        self.ppn = ppn;
    }
}

} // verus!
