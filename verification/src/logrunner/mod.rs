use vstd::prelude::*;
use crate::bitfield::{Mstatus, Satp, get_bits};
use crate::csrs::Csrs;
use crate::memory::{Memory, low_bytes, mem_value};
use crate::mmu::{Fault, MemoryOp, Mmu};
use crate::processor::Processor;
use crate::regs::Regs;

pub mod json;
pub mod logger;
pub mod run;
pub mod transaction;

verus! {

/// The value of a hexadecimal digit.
pub open spec fn hex_digit(c: char) -> Option<u64> {
    if '0' <= c && c <= '9' {
        Some((c as u64 - '0' as u64) as u64)
    } else if 'a' <= c && c <= 'f' {
        Some((c as u64 - 'a' as u64 + 10) as u64)
    } else if 'A' <= c && c <= 'F' {
        Some((c as u64 - 'A' as u64 + 10) as u64)
    } else {
        None
    }
}

/// Whether every character of `ds` is a hexadecimal digit.
pub open spec fn all_hex(ds: Seq<char>) -> bool {
    forall|i: int| 0 <= i < ds.len() ==> (#[trigger] hex_digit(ds[i])) is Some
}

/// The number the hexadecimal digits `ds` write.
pub open spec fn hex_value(ds: Seq<char>) -> int
    decreases ds.len(),
{
    if ds.len() == 0 {
        0
    } else {
        hex_value(ds.drop_last()) * 16 + hex_digit(ds.last()).unwrap()
    }
}

/// What a base 16 parse of `ds` into an unsigned type whose largest value is
/// `max` gives: an optional `+`, then at least one digit, and no more than `max`.
pub open spec fn parse_radix16(ds: Seq<char>, max: int) -> Option<int> {
    let digits = if ds.len() > 0 && ds[0] == '+' {
        ds.drop_first()
    } else {
        ds
    };
    if digits.len() > 0 && all_hex(digits) && hex_value(digits) <= max {
        Some(hex_value(digits))
    } else {
        None
    }
}

/// The value of a field written as two ASCII characters (`0x`) and base 16
/// digits, for a type whose largest value is `max`.
pub open spec fn hex_field(s: Seq<char>, max: int) -> Option<int> {
    if s.len() >= 2 && (s[0] as u32) < 128 && (s[1] as u32) < 128 {
        parse_radix16(s.subrange(2, s.len() as int), max)
    } else {
        None
    }
}

proof fn lemma_hex_value_nonneg(ds: Seq<char>)
    requires
        all_hex(ds),
    ensures
        hex_value(ds) >= 0,
    decreases ds.len(),
{
    if ds.len() > 0 {
        assert(hex_digit(ds[ds.len() - 1]) is Some);
        assert(all_hex(ds.drop_last())) by {
            assert forall|i: int| 0 <= i < ds.drop_last().len() implies (#[trigger] hex_digit(ds.drop_last()[i])) is Some by {
                assert(hex_digit(ds[i]) is Some);
            }
        }
        lemma_hex_value_nonneg(ds.drop_last());
    }
}

/// A longer run of digits never writes a smaller number.
proof fn lemma_hex_value_grows(ds: Seq<char>, j: int)
    requires
        all_hex(ds),
        0 <= j <= ds.len(),
    ensures
        hex_value(ds.take(j)) <= hex_value(ds),
    decreases ds.len() - j,
{
    if j < ds.len() {
        let t = ds.take(j + 1);
        assert(t.drop_last() =~= ds.take(j));
        assert(hex_digit(ds[j]) is Some);
        assert(all_hex(ds.take(j))) by {
            assert forall|i: int| 0 <= i < ds.take(j).len() implies (#[trigger] hex_digit(ds.take(j)[i])) is Some by {
                assert(hex_digit(ds[i]) is Some);
            }
        }
        lemma_hex_value_nonneg(ds.take(j));
        lemma_hex_value_grows(ds, j + 1);
    } else {
        assert(ds.take(j) =~= ds);
    }
}

fn digit_value(c: char) -> (r: Option<u64>)
    ensures
        r == hex_digit(c),
{
    if '0' <= c && c <= '9' {
        Some(c as u64 - '0' as u64)
    } else if 'a' <= c && c <= 'f' {
        Some(c as u64 - 'a' as u64 + 10)
    } else if 'A' <= c && c <= 'F' {
        Some(c as u64 - 'A' as u64 + 10)
    } else {
        None
    }
}

/// Parses the characters of `s` from `start` on as `u64::from_str_radix` does
/// in base 16, for a type whose largest value is `max`.
fn parse_from(s: &str, start: usize, max: u64) -> (r: Option<u64>)
    requires
        start <= s@.len(),
        max >= 15,
    ensures
        match parse_radix16(s@.subrange(start as int, s@.len() as int), max as int) {
            Some(v) => r == Some(v as u64) && 0 <= v <= max,
            None => r is None,
        },
        r matches Some(x) ==> x <= max,
{
    let ghost ds = s@.subrange(start as int, s@.len() as int);
    let n = s.unicode_len();
    let mut i = start;
    if i < n && s.get_char(i) == '+' {
        i = i + 1;
    }
    let ghost digits = s@.subrange(i as int, s@.len() as int);
    proof {
        if ds.len() > 0 && ds[0] == '+' {
            assert(digits =~= ds.drop_first());
        } else {
            assert(digits =~= ds);
        }
    }
    if i >= n {
        return None;
    }
    let first = i;
    let mut acc: u64 = 0;
    while i < n
        invariant
            first <= i <= n,
            n == s@.len(),
            first < n,
            max >= 15,
            ds == s@.subrange(start as int, s@.len() as int),
            digits == s@.subrange(first as int, n as int),
            digits == (if ds.len() > 0 && ds[0] == '+' { ds.drop_first() } else { ds }),
            all_hex(digits.take(i - first)),
            acc == hex_value(digits.take(i - first)),
            acc <= max,
        decreases n - i,
    {
        let c = s.get_char(i);
        let ghost k = i - first;
        proof {
            assert(digits[k] == c);
            assert(digits.take(k + 1).drop_last() =~= digits.take(k));
            assert(digits.take(k + 1).last() == c);
        }
        let d = match digit_value(c) {
            Some(d) => d,
            None => {
                proof {
                    assert(!all_hex(digits)) by {
                        assert(hex_digit(digits[k]) is None);
                    }
                }
                return None;
            },
        };
        if acc > (max - d) / 16 {
            proof {
                assert(all_hex(digits.take(k + 1))) by {
                    assert forall|j: int| 0 <= j < digits.take(k + 1).len() implies (#[trigger] hex_digit(digits.take(k + 1)[j])) is Some by {
                        if j < k {
                            assert(hex_digit(digits.take(k)[j]) is Some);
                        }
                    }
                }
                assert(hex_value(digits.take(k + 1)) == acc * 16 + d);
                assert(acc * 16 + d > max) by (nonlinear_arith)
                    requires
                        acc > (max - d) / 16,
                        d <= max,
                        d < 16,
                ;
                if all_hex(digits) {
                    lemma_hex_value_grows(digits, k + 1);
                }
            }
            return None;
        }
        proof {
            assert(acc * 16 + d <= max) by (nonlinear_arith)
                requires
                    acc <= (max - d) / 16,
                    d <= max,
            ;
            assert(all_hex(digits.take(k + 1))) by {
                assert forall|j: int| 0 <= j < digits.take(k + 1).len() implies (#[trigger] hex_digit(digits.take(k + 1)[j])) is Some by {
                    if j < k {
                        assert(hex_digit(digits.take(k)[j]) is Some);
                    }
                }
            }
        }
        acc = acc * 16 + d;
        i = i + 1;
    }
    proof {
        assert(digits.take(n - first) =~= digits);
    }
    Some(acc)
}

/// Reads a register value written as `0x` and hexadecimal digits.
pub fn string_to_u64(s: &str) -> (r: Option<u64>)
    ensures
        match hex_field(s@, u64::MAX as int) {
            Some(v) => r == Some(v as u64),
            None => r is None,
        },
{
    let n = s.unicode_len();
    if n < 2 {
        return None;
    }
    let c0 = s.get_char(0);
    let c1 = s.get_char(1);
    if (c0 as u32) >= 128 || (c1 as u32) >= 128 {
        return None;
    }
    parse_from(s, 2, u64::MAX)
}

/// Reads an instruction word written as `0x` and hexadecimal digits.
pub fn string_to_u32(s: &str) -> (r: Option<u32>)
    ensures
        match hex_field(s@, u32::MAX as int) {
            Some(v) => r == Some(v as u32),
            None => r is None,
        },
{
    let n = s.unicode_len();
    if n < 2 {
        return None;
    }
    let c0 = s.get_char(0);
    let c1 = s.get_char(1);
    if (c0 as u32) >= 128 || (c1 as u32) >= 128 {
        return None;
    }
    match parse_from(s, 2, u32::MAX as u64) {
        Some(v) => {
            Some(v as u32)
        },
        None => None,
    }
}

/// The length of a record of a binary trace, from the two bytes before it
/// (least significant first).
pub fn frame_len(header: [u8; 2]) -> (r: usize)
    ensures
        r == header[0] + 256 * header[1],
{
    header[0] as usize + header[1] as usize * 256
}

/// An instruction of the trace: where it was, its word and its disassembly.
pub struct Insn {
    pub pc: u64,
    pub bits: u32,
    pub desc: String,
}

/// The state of the hart as the trace records it.
pub struct State {
    pub id: usize,
    pub pc: u64,
    pub prv: u64,
    pub mstatus: u64,
    pub mepc: u64,
    pub mtvec: u64,
    pub mcause: u64,
    pub mscratch: u64,
    pub minstret: u64,
    pub mie: u64,
    pub mip: u64,
    pub medeleg: u64,
    pub mideleg: u64,
    pub mcounteren: u64,
    pub scounteren: u64,
    pub sepc: u64,
    pub stval: u64,
    pub sscratch: u64,
    pub stvec: u64,
    pub satp: u64,
    pub scause: u64,
    pub xregs: Vec<u64>,
}

/// A memory access of the trace: its kind (`uint8` to `uint64`), address and value.
pub struct MemoryTrace {
    pub kind: String,
    pub addr: u64,
    pub value: u64,
}

/// A state of the trace and the machine's state to restore it in.
pub struct RestorableState<'s, M> {
    pub state: &'s State,
    pub memory: M,
}

/// Whether the state `actual` agrees with the expected state `expected`:
/// program counter, privilege, the machine trap CSRs, mstatus, and the
/// registers that `expected` records.
pub open spec fn states_agree(expected: &State, actual: &State) -> bool {
    &&& actual.pc == expected.pc
    &&& actual.prv == expected.prv
    &&& actual.mepc == expected.mepc
    &&& actual.mtvec == expected.mtvec
    &&& actual.mcause == expected.mcause
    &&& actual.mscratch == expected.mscratch
    &&& actual.mie == expected.mie
    &&& actual.medeleg == expected.medeleg
    &&& actual.mideleg == expected.mideleg
    &&& actual.mstatus == expected.mstatus
    &&& forall|i: int| 0 <= i < expected.xregs@.len() ==> #[trigger] actual.xregs@[i] == expected.xregs@[i]
}

/// Whether the hart `p` is in the state `expected` as `validate` checks it.
pub open spec fn agrees<M: Memory>(expected: &State, p: &Processor<M>) -> bool {
    &&& p.pc == expected.pc
    &&& p.csrs.prv == expected.prv
    &&& p.csrs.mepc == expected.mepc
    &&& p.csrs.mtvec == expected.mtvec
    &&& p.csrs.mcause == expected.mcause
    &&& p.csrs.mscratch == expected.mscratch
    &&& p.csrs.mie == expected.mie
    &&& p.csrs.medeleg == expected.medeleg
    &&& p.csrs.mideleg == expected.mideleg
    &&& p.csrs.mstatus@ == expected.mstatus
    &&& forall|i: int| 0 <= i < expected.xregs@.len() ==> #[trigger] p.regs@[i] == expected.xregs@[i]
}

/// A state passes the check against itself.
pub proof fn lemma_states_agree_reflexive(s: &State)
    ensures
        states_agree(s, s),
{
}

impl State {
    /// Checks the state `other` against this one.
    pub fn validate(&self, other: &State) -> (r: bool)
        requires
            other.xregs@.len() >= self.xregs@.len(),
        ensures
            r == states_agree(self, other),
    {
        let mut valid = other.pc == self.pc && other.prv == self.prv;
        valid = valid && (other.mepc == self.mepc && other.mtvec == self.mtvec && other.mcause == self.mcause
            && other.mscratch == self.mscratch && other.mie == self.mie && other.medeleg == self.medeleg
            && other.mideleg == self.mideleg);
        if self.mstatus != other.mstatus {
            valid = false;
        }
        let mut regs_ok = true;
        let mut i: usize = 0;
        while i < self.xregs.len()
            invariant
                i <= self.xregs@.len(),
                other.xregs@.len() >= self.xregs@.len(),
                regs_ok == forall|j: int| 0 <= j < i ==> #[trigger] other.xregs@[j] == self.xregs@[j],
            decreases self.xregs@.len() - i,
        {
            if self.xregs[i] != other.xregs[i] {
                regs_ok = false;
            }
            i = i + 1;
        }
        valid && regs_ok
    }

    /// A copy of this state.
    pub fn copy(&self) -> (r: State)
        ensures
            r.same(self),
    {
        State {
            id: self.id,
            pc: self.pc,
            prv: self.prv,
            mstatus: self.mstatus,
            mepc: self.mepc,
            mtvec: self.mtvec,
            mcause: self.mcause,
            mscratch: self.mscratch,
            minstret: self.minstret,
            mie: self.mie,
            mip: self.mip,
            medeleg: self.medeleg,
            mideleg: self.mideleg,
            mcounteren: self.mcounteren,
            scounteren: self.scounteren,
            sepc: self.sepc,
            stval: self.stval,
            sscratch: self.sscratch,
            stvec: self.stvec,
            satp: self.satp,
            scause: self.scause,
            xregs: self.xregs.clone(),
        }
    }

    /// Every field holds what it holds in `other`.
    pub open spec fn same(&self, other: &State) -> bool {
        &&& self.id == other.id
        &&& self.pc == other.pc
        &&& self.prv == other.prv
        &&& self.mstatus == other.mstatus
        &&& self.mepc == other.mepc
        &&& self.mtvec == other.mtvec
        &&& self.mcause == other.mcause
        &&& self.mscratch == other.mscratch
        &&& self.minstret == other.minstret
        &&& self.mie == other.mie
        &&& self.mip == other.mip
        &&& self.medeleg == other.medeleg
        &&& self.mideleg == other.mideleg
        &&& self.mcounteren == other.mcounteren
        &&& self.scounteren == other.scounteren
        &&& self.sepc == other.sepc
        &&& self.stval == other.stval
        &&& self.sscratch == other.sscratch
        &&& self.stvec == other.stvec
        &&& self.satp == other.satp
        &&& self.scause == other.scause
        &&& self.xregs@ == other.xregs@
    }
}

/// The width in bytes of an access of kind `kind`.
pub open spec fn kind_width(kind: Seq<char>) -> Option<u64> {
    if kind == seq!['u', 'i', 'n', 't', '8'] {
        Some(1)
    } else if kind == seq!['u', 'i', 'n', 't', '1', '6'] {
        Some(2)
    } else if kind == seq!['u', 'i', 'n', 't', '3', '2'] {
        Some(4)
    } else if kind == seq!['u', 'i', 'n', 't', '6', '4'] {
        Some(8)
    } else {
        None
    }
}

fn width_of(kind: &str) -> (r: Option<u64>)
    ensures
        r == kind_width(kind@),
{
    let n = kind.unicode_len();
    if n < 5 || n > 6 {
        return None;
    }
    let c0 = kind.get_char(0);
    let c1 = kind.get_char(1);
    let c2 = kind.get_char(2);
    let c3 = kind.get_char(3);
    let c4 = kind.get_char(4);
    if c0 != 'u' || c1 != 'i' || c2 != 'n' || c3 != 't' {
        return None;
    }
    if n == 5 {
        if c4 == '8' {
            assert(kind@ =~= seq!['u', 'i', 'n', 't', '8']);
            return Some(1);
        }
        return None;
    }
    let c5 = kind.get_char(5);
    if c4 == '1' && c5 == '6' {
        assert(kind@ =~= seq!['u', 'i', 'n', 't', '1', '6']);
        Some(2)
    } else if c4 == '3' && c5 == '2' {
        assert(kind@ =~= seq!['u', 'i', 'n', 't', '3', '2']);
        Some(4)
    } else if c4 == '6' && c5 == '4' {
        assert(kind@ =~= seq!['u', 'i', 'n', 't', '6', '4']);
        Some(8)
    } else {
        None
    }
}

/// Whether `addr` is in the host interface, whose writes are not checked.
pub open spec fn in_htif(addr: u64) -> bool {
    0x8000_9000 <= addr < 0x8000_9016
}

/// What checking the store `st` against the memory unit `m` gives: `true`
/// when memory holds its value; writes to the host interface always pass;
/// `None` where the kind is unknown or the memory unit refuses the read.
pub open spec fn store_check<M: Memory>(st: &MemoryTrace, m: &Mmu<M>) -> Option<bool> {
    if in_htif(st.addr) {
        Some(true)
    } else {
        match kind_width(st.kind@) {
            None => None,
            Some(n) => match m.access(st.addr, MemoryOp::Load, m.prv, n) {
                Ok(pa) => Some(mem_value(&m.mem, pa, n) == low_bytes(st.value, n)),
                Err(_) => None,
            },
        }
    }
}

impl MemoryTrace {
    /// Checks that memory holds the value of this store of a known kind, at
    /// an address the memory unit reads. Writes to the host interface always pass.
    pub fn validate<M: Memory>(&self, m: &mut Mmu<M>) -> (r: bool)
        requires
            old(m).wf(),
            store_check(self, &*old(m)) is Some,
        ensures
            old(m).unchanged(&*final(m)),
            Some(r) == store_check(self, &*old(m)),
    {
        match self.check(m) {
            Some(b) => b,
            None => false,
        }
    }

    /// Checks that memory holds the value of this store. Writes to the host
    /// interface always pass; `None` where the kind is unknown or the memory
    /// unit refuses the read.
    pub fn check<M: Memory>(&self, m: &mut Mmu<M>) -> (r: Option<bool>)
        requires
            old(m).wf(),
        ensures
            old(m).unchanged(&*final(m)),
            r == store_check(self, &*old(m)),
    {
        if self.addr >= 0x8000_9000 && self.addr < 0x8000_9016 {
            return Some(true);
        }
        let n = match width_of(self.kind.as_str()) {
            Some(n) => n,
            None => return None,
        };
        if n == 1 {
            match m.read_b(self.addr) {
                Ok(v) => Some(v == self.value as u8),
                Err(_) => None,
            }
        } else if n == 2 {
            match m.read_h(self.addr) {
                Ok(v) => Some(v == self.value as u16),
                Err(_) => None,
            }
        } else if n == 4 {
            match m.read_w(self.addr) {
                Ok(v) => Some(v == self.value as u32),
                Err(_) => None,
            }
        } else {
            match m.read_d(self.addr) {
                Ok(v) => Some(v == self.value),
                Err(_) => None,
            }
        }
    }
}

impl<M: Memory> Processor<M> {
    /// The state of the hart in the form the trace records it.
    pub fn to_state(&self) -> (r: State)
        ensures
            r.id == 0,
            r.pc == self.pc,
            r.prv == self.csrs.prv,
            r.mstatus == self.csrs.mstatus@,
            r.mepc == self.csrs.mepc,
            r.mtvec == self.csrs.mtvec,
            r.mcause == self.csrs.mcause,
            r.mscratch == self.csrs.mscratch,
            r.minstret == 0,
            r.mie == self.csrs.mie,
            r.mip == self.csrs.mip,
            r.medeleg == self.csrs.medeleg,
            r.mideleg == self.csrs.mideleg,
            r.mcounteren == self.csrs.mcounteren,
            r.scounteren == self.csrs.scounteren,
            r.sepc == self.csrs.sepc,
            r.stval == self.csrs.stval,
            r.sscratch == self.csrs.sscratch,
            r.stvec == self.csrs.stvec,
            r.satp == self.csrs.satp@,
            r.scause == self.csrs.scause,
            r.xregs@ == self.regs@,
    {
        State {
            id: 0,
            pc: self.pc,
            prv: self.csrs.prv(),
            mstatus: self.csrs.mstatus.val(),
            mepc: self.csrs.mepc,
            mtvec: self.csrs.mtvec,
            mcause: self.csrs.mcause,
            mscratch: self.csrs.mscratch,
            minstret: 0,
            mie: self.csrs.mie,
            mip: self.csrs.mip,
            medeleg: self.csrs.medeleg,
            mideleg: self.csrs.mideleg,
            mcounteren: self.csrs.mcounteren,
            scounteren: self.csrs.scounteren,
            sepc: self.csrs.sepc,
            stval: self.csrs.stval,
            sscratch: self.csrs.sscratch,
            stvec: self.csrs.stvec,
            satp: self.csrs.satp.val(),
            scause: self.csrs.scause,
            xregs: self.regs.to_values(),
        }
    }
}

impl State {
    /// The CSRs this state records, the others as after reset.
    pub fn to_csrs(&self) -> (r: Csrs)
        ensures
            r == (Csrs {
                prv: self.prv,
                mstatus: r.mstatus,
                mepc: self.mepc,
                mtvec: self.mtvec,
                mcause: self.mcause,
                mscratch: self.mscratch,
                mie: self.mie,
                mip: self.mip,
                medeleg: self.medeleg,
                mideleg: self.mideleg,
                mcounteren: self.mcounteren,
                scounteren: self.scounteren,
                sepc: self.sepc,
                stval: self.stval,
                sscratch: self.sscratch,
                stvec: self.stvec,
                satp: r.satp,
                scause: self.scause,
                ..Csrs::new_spec()
            }),
            r.mstatus@ == self.mstatus,
            r.satp@ == self.satp,
    {
        let mut c = Csrs::new();
        c.prv = self.prv;
        c.mstatus = Mstatus::new_with_val(self.mstatus);
        c.mepc = self.mepc;
        c.mtvec = self.mtvec;
        c.mcause = self.mcause;
        c.mscratch = self.mscratch;
        c.mie = self.mie;
        c.mip = self.mip;
        c.medeleg = self.medeleg;
        c.mideleg = self.mideleg;
        c.mcounteren = self.mcounteren;
        c.scounteren = self.scounteren;
        c.sepc = self.sepc;
        c.stval = self.stval;
        c.sscratch = self.sscratch;
        c.stvec = self.stvec;
        c.satp = Satp::new(self.satp);
        c.scause = self.scause;
        c
    }
}

/// `p` is the hart restored to the state `s` with `memory` as its memory: the
/// recorded program counter, CSRs and registers, translation as satp says,
/// and the memory unit at the recorded privilege.
pub open spec fn restored<M: Memory>(p: &Processor<M>, s: &State, memory: M) -> bool {
    &&& p.wf()
    &&& p.pc == s.pc
    &&& p.csrs == s.to_csrs_spec(p.csrs)
    &&& p.csrs.mstatus@ == s.mstatus
    &&& p.csrs.satp@ == s.satp
    &&& p.regs@ == s.xregs@.update(0, 0)
    &&& p.mmu.mem == memory
    &&& p.mmu.sv39 == (get_bits(s.satp, 60, 4) == 8)
    &&& p.mmu.asid == get_bits(s.satp, 44, 16) as u16
    &&& p.mmu.ppn == get_bits(s.satp, 0, 44)
    &&& Processor::<M>::mmu_prv_ok(&p.mmu, s.prv, &p.csrs)
    &&& !p.trigger
    &&& p.insn_counter == 0
    &&& p.timer == 0
    &&& p.ecall_counter == 0
}

impl<'s, M: Memory> RestorableState<'s, M> {
    /// A hart in the recorded state, with `memory` as its memory: the
    /// recorded program counter, CSRs and registers, translation as satp
    /// says, and the memory unit at the recorded privilege.
    pub fn into_processor(self) -> (p: Processor<M>)
        requires
            self.state.xregs@.len() == 32,
            self.memory.inv(),
        ensures
            restored(&p, self.state, self.memory),
    {
        let RestorableState { state, memory } = self;
        let csrs = state.to_csrs();
        let satp = Satp::new(state.satp);
        let mut mmu = Mmu::new(memory);
        mmu.sv39 = satp.mode() == 8;
        mmu.asid = #[verifier::truncate] (satp.asid() as u16);
        proof {
            crate::bitfield::lemma_get_bits_bound(state.satp, 0, 44);
            crate::bitfield::lemma_mask_values();
        }
        mmu.ppn = satp.ppn();
        let mstatus = Mstatus::new_with_val(state.mstatus);
        mmu.set_prv(state.prv, &mstatus);
        Processor {
            pc: state.pc,
            csrs,
            regs: Regs::from_values(state.xregs.as_slice()),
            mmu,
            trigger: false,
            insn_counter: 0,
            timer: 0,
            ecall_counter: 0,
        }
    }
}

impl State {
    /// The CSRs `to_csrs` gives, with `c`'s mstatus and satp.
    pub open spec fn to_csrs_spec(&self, c: Csrs) -> Csrs {
        Csrs {
            prv: self.prv,
            mstatus: c.mstatus,
            mepc: self.mepc,
            mtvec: self.mtvec,
            mcause: self.mcause,
            mscratch: self.mscratch,
            mie: self.mie,
            mip: self.mip,
            medeleg: self.medeleg,
            mideleg: self.mideleg,
            mcounteren: self.mcounteren,
            scounteren: self.scounteren,
            sepc: self.sepc,
            stval: self.stval,
            sscratch: self.sscratch,
            stvec: self.stvec,
            satp: c.satp,
            scause: self.scause,
            ..Csrs::new_spec()
        }
    }
}

} // verus!
