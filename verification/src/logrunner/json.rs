use vstd::prelude::*;
use crate::logrunner::{Insn, MemoryTrace, State, hex_field, string_to_u32, string_to_u64};
use crate::logrunner::transaction::LogTuple;

verus! {

/// An instruction line of a JSON trace.
pub struct JsonInsn {
    pub core: usize,
    pub pc: String,
    pub bits: String,
    pub desc: String,
}

/// A state line of a JSON trace.
pub struct JsonState {
    pub id: usize,
    pub pc: String,
    pub prv: String,
    pub mstatus: String,
    pub mepc: String,
    pub mtval: String,
    pub mscratch: String,
    pub mtvec: String,
    pub mcause: String,
    pub xregs: Vec<String>,
}

/// A memory line of a JSON trace.
pub struct JsonMemory {
    pub kind: String,
    pub addr: String,
    pub value: String,
}

/// The lines of a JSON trace between two marks.
pub struct JsonLogTuple {
    pub line: usize,
    pub state: JsonState,
    pub insn: Option<JsonInsn>,
    pub store: Option<JsonMemory>,
    pub mems: Vec<JsonMemory>,
}

/// The 64 bit value a hexadecimal field gives.
pub open spec fn hex64(s: Seq<char>) -> Option<u64> {
    match hex_field(s, u64::MAX as int) {
        Some(v) => Some(v as u64),
        None => None,
    }
}

/// The 32 bit value a hexadecimal field gives.
pub open spec fn hex32(s: Seq<char>) -> Option<u32> {
    match hex_field(s, u32::MAX as int) {
        Some(v) => Some(v as u32),
        None => None,
    }
}

fn hex_u64(s: &String) -> (r: Option<u64>)
    ensures
        r == hex64(s@),
{
    string_to_u64(s.as_str())
}

fn hex_u32(s: &String) -> (r: Option<u32>)
    ensures
        r == hex32(s@),
{
    string_to_u32(s.as_str())
}

impl JsonInsn {
    /// Whether every field parses.
    pub open spec fn parses(&self) -> bool {
        hex64(self.pc@) is Some && hex32(self.bits@) is Some
    }

    /// `i` is this line with its fields parsed.
    pub open spec fn gives(&self, i: &Insn) -> bool {
        &&& hex64(self.pc@) == Some(i.pc)
        &&& hex32(self.bits@) == Some(i.bits)
        &&& i.desc@ == self.desc@
    }

    /// The instruction this line records; `None` where a field does not parse.
    pub fn to_insn(self) -> (r: Option<Insn>)
        ensures
            r is Some <==> self.parses(),
            r matches Some(i) ==> self.gives(&i),
    {
        let pc = match hex_u64(&self.pc) {
            Some(v) => v,
            None => return None,
        };
        let bits = match hex_u32(&self.bits) {
            Some(v) => v,
            None => return None,
        };
        Some(Insn { pc, bits, desc: self.desc })
    }
}

impl JsonMemory {
    /// Whether every field parses.
    pub open spec fn parses(&self) -> bool {
        hex64(self.addr@) is Some && hex64(self.value@) is Some
    }

    /// `m` is this line with its fields parsed.
    pub open spec fn gives(&self, m: &MemoryTrace) -> bool {
        &&& hex64(self.addr@) == Some(m.addr)
        &&& hex64(self.value@) == Some(m.value)
        &&& m.kind@ == self.kind@
    }

    /// The access this line records; `None` where a field does not parse.
    pub fn to_memory_trace(self) -> (r: Option<MemoryTrace>)
        ensures
            r is Some <==> self.parses(),
            r matches Some(m) ==> self.gives(&m),
    {
        let addr = match hex_u64(&self.addr) {
            Some(v) => v,
            None => return None,
        };
        let value = match hex_u64(&self.value) {
            Some(v) => v,
            None => return None,
        };
        Some(MemoryTrace { kind: self.kind, addr, value })
    }
}

/// Whether every register of `xs` parses.
pub open spec fn regs_parse(xs: Seq<String>) -> bool {
    forall|i: int| 0 <= i < xs.len() ==> (#[trigger] hex64(xs[i]@)) is Some
}

fn parse_regs(xs: &Vec<String>) -> (r: Option<Vec<u64>>)
    ensures
        r is Some <==> regs_parse(xs@),
        r matches Some(v) ==> v@.len() == xs@.len() && forall|i: int| 0 <= i < xs@.len() ==> hex64(xs@[i]@) == Some(#[trigger] v@[i]),
{
    let mut v: Vec<u64> = Vec::new();
    let mut i: usize = 0;
    while i < xs.len()
        invariant
            i <= xs@.len(),
            v@.len() == i,
            forall|j: int| 0 <= j < i ==> hex64(xs@[j]@) == Some(#[trigger] v@[j]),
        decreases xs@.len() - i,
    {
        match hex_u64(&xs[i]) {
            Some(x) => v.push(x),
            None => {
                assert(hex64(xs@[i as int]@) is None);
                return None;
            },
        }
        i = i + 1;
    }
    assert forall|j: int| 0 <= j < xs@.len() implies (#[trigger] hex64(xs@[j]@)) is Some by {
        assert(hex64(xs@[j]@) == Some(v@[j]));
    }
    Some(v)
}

impl JsonState {
    /// Whether every field parses.
    pub open spec fn parses(&self) -> bool {
        &&& hex64(self.pc@) is Some
        &&& hex64(self.prv@) is Some
        &&& hex64(self.mstatus@) is Some
        &&& hex64(self.mcause@) is Some
        &&& hex64(self.mscratch@) is Some
        &&& hex64(self.mtvec@) is Some
        &&& hex64(self.mepc@) is Some
        &&& regs_parse(self.xregs@)
    }

    /// `s` is this line with its fields parsed; the CSRs the line does not
    /// record are zero.
    pub open spec fn gives(&self, s: &State) -> bool {
        &&& s.id == self.id
        &&& hex64(self.pc@) == Some(s.pc)
        &&& hex64(self.prv@) == Some(s.prv)
        &&& hex64(self.mstatus@) == Some(s.mstatus)
        &&& hex64(self.mcause@) == Some(s.mcause)
        &&& hex64(self.mscratch@) == Some(s.mscratch)
        &&& hex64(self.mtvec@) == Some(s.mtvec)
        &&& hex64(self.mepc@) == Some(s.mepc)
        &&& s.minstret == 0 && s.mie == 0 && s.mip == 0 && s.medeleg == 0 && s.mideleg == 0
        &&& s.mcounteren == 0 && s.scounteren == 0 && s.sepc == 0 && s.stval == 0
        &&& s.sscratch == 0 && s.stvec == 0 && s.satp == 0 && s.scause == 0
        &&& s.xregs@.len() == self.xregs@.len()
        &&& forall|i: int| 0 <= i < self.xregs@.len() ==> hex64(self.xregs@[i]@) == Some(#[trigger] s.xregs@[i])
    }

    /// The state this line records; `None` where a field does not parse.
    pub fn to_state(self) -> (r: Option<State>)
        ensures
            r is Some <==> self.parses(),
            r matches Some(s) ==> self.gives(&s),
    {
        let pc = match hex_u64(&self.pc) {
            Some(v) => v,
            None => return None,
        };
        let prv = match hex_u64(&self.prv) {
            Some(v) => v,
            None => return None,
        };
        let mstatus = match hex_u64(&self.mstatus) {
            Some(v) => v,
            None => return None,
        };
        let mcause = match hex_u64(&self.mcause) {
            Some(v) => v,
            None => return None,
        };
        let mscratch = match hex_u64(&self.mscratch) {
            Some(v) => v,
            None => return None,
        };
        let mtvec = match hex_u64(&self.mtvec) {
            Some(v) => v,
            None => return None,
        };
        let mepc = match hex_u64(&self.mepc) {
            Some(v) => v,
            None => return None,
        };
        let xregs = match parse_regs(&self.xregs) {
            Some(v) => v,
            None => return None,
        };
        Some(State {
            id: self.id,
            pc,
            prv,
            mstatus,
            mepc,
            mtvec,
            mcause,
            mscratch,
            minstret: 0,
            mie: 0,
            mip: 0,
            medeleg: 0,
            mideleg: 0,
            mcounteren: 0,
            scounteren: 0,
            sepc: 0,
            stval: 0,
            sscratch: 0,
            stvec: 0,
            satp: 0,
            scause: 0,
            xregs,
        })
    }
}

/// Whether every memory line of `ms` parses.
pub open spec fn mems_parse(ms: Seq<JsonMemory>) -> bool {
    forall|i: int| 0 <= i < ms.len() ==> (#[trigger] ms[i]).parses()
}

fn convert_mems(mems: Vec<JsonMemory>) -> (r: Option<Vec<MemoryTrace>>)
    ensures
        r is Some <==> mems_parse(mems@),
        r matches Some(v) ==> v@.len() == mems@.len() && forall|i: int| 0 <= i < mems@.len() ==> mems@[i].gives(#[trigger] &v@[i]),
{
    let ghost jmems = mems@;
    let mut out: Vec<MemoryTrace> = Vec::new();
    let mut rest = mems;
    while rest.len() > 0
        invariant
            jmems == mems@,
            out@.len() + rest@.len() == jmems.len(),
            rest@ == jmems.subrange(out@.len() as int, jmems.len() as int),
            forall|i: int| 0 <= i < out@.len() ==> jmems[i].gives(#[trigger] &out@[i]),
            forall|i: int| 0 <= i < out@.len() ==> (#[trigger] jmems[i]).parses(),
        decreases rest@.len(),
    {
        let m = rest.remove(0);
        let ghost k = out@.len() as int;
        assert(m == jmems[k]);
        match m.to_memory_trace() {
            Some(t) => out.push(t),
            None => {
                assert(!jmems[k].parses());
                return None;
            },
        }
    }
    Some(out)
}

impl JsonLogTuple {
    /// Whether every line parses.
    pub open spec fn parses(&self) -> bool {
        &&& self.state.parses()
        &&& self.insn matches Some(i) ==> i.parses()
        &&& self.store matches Some(m) ==> m.parses()
        &&& mems_parse(self.mems@)
    }

    /// `t` is these lines with their fields parsed.
    pub open spec fn gives(&self, t: &LogTuple) -> bool {
        &&& t.line == self.line
        &&& self.state.gives(&t.state)
        &&& match (self.insn, t.insn) {
            (Some(j), Some(i)) => j.gives(&i),
            (None, None) => true,
            _ => false,
        }
        &&& match (self.store, t.store) {
            (Some(j), Some(m)) => j.gives(&m),
            (None, None) => true,
            _ => false,
        }
        &&& t.mems@.len() == self.mems@.len()
        &&& forall|i: int| 0 <= i < self.mems@.len() ==> self.mems@[i].gives(#[trigger] &t.mems@[i])
    }

    /// The trace tuple these lines record; `None` where a field does not parse.
    pub fn to_logtuple(self) -> (r: Option<LogTuple>)
        ensures
            r is Some <==> self.parses(),
            r matches Some(t) ==> self.gives(&t),
    {
        let JsonLogTuple { line, state, insn, store, mems } = self;
        let state = match state.to_state() {
            Some(s) => s,
            None => return None,
        };
        let insn = match insn {
            Some(i) => match i.to_insn() {
                Some(i) => Some(i),
                None => return None,
            },
            None => None,
        };
        let store = match store {
            Some(m) => match m.to_memory_trace() {
                Some(m) => Some(m),
                None => return None,
            },
            None => None,
        };
        let out = match convert_mems(mems) {
            Some(v) => v,
            None => return None,
        };
        Some(LogTuple { line, state, insn, store, mems: out })
    }
}

} // verus!
