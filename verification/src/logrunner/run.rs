use vstd::prelude::*;
use crate::logrunner::State;
use crate::logrunner::transaction::{LogTuple, Transaction};

verus! {

impl State {
    /// Whether this state and `other` are the same in every field.
    pub fn equals(&self, other: &State) -> (r: bool)
        ensures
            r == self.same(other),
    {
        if !(self.id == other.id && self.pc == other.pc && self.prv == other.prv && self.mstatus == other.mstatus
            && self.mepc == other.mepc && self.mtvec == other.mtvec && self.mcause == other.mcause
            && self.mscratch == other.mscratch && self.minstret == other.minstret && self.mie == other.mie
            && self.mip == other.mip && self.medeleg == other.medeleg && self.mideleg == other.mideleg
            && self.mcounteren == other.mcounteren && self.scounteren == other.scounteren && self.sepc
            == other.sepc && self.stval == other.stval && self.sscratch == other.sscratch && self.stvec
            == other.stvec && self.satp == other.satp && self.scause == other.scause) {
            return false;
        }
        if self.xregs.len() != other.xregs.len() {
            return false;
        }
        let mut i: usize = 0;
        while i < self.xregs.len()
            invariant
                i <= self.xregs@.len(),
                self.xregs@.len() == other.xregs@.len(),
                forall|j: int| 0 <= j < i ==> self.xregs@[j] == other.xregs@[j],
            decreases self.xregs@.len() - i,
        {
            if self.xregs[i] != other.xregs[i] {
                return false;
            }
            i = i + 1;
        }
        assert(self.xregs@ =~= other.xregs@);
        true
    }
}

/// The replay of a trace: each tuple whose state differs from the last
/// tuple's closes the transaction of the last tuple; a tuple with the same
/// state as the last one is dropped.
pub struct LogRun {
    pub last: Option<LogTuple>,
}

impl LogRun {
    pub fn new() -> (r: Self)
        ensures
            r.last is None,
    {
        LogRun { last: None }
    }

    /// Takes the next tuple of the trace, and gives the transaction it closes.
    pub fn take(&mut self, tuple: LogTuple) -> (r: Option<Transaction>)
        ensures
            match old(self).last {
                None => r is None && final(self).last == Some(tuple),
                Some(l) => if l.state.same(&tuple.state) {
                    r is None && final(self).last == old(self).last
                } else {
                    &&& final(self).last == Some(tuple)
                    &&& r matches Some(t) && {
                        &&& t.state == l.state
                        &&& t.insn == l.insn
                        &&& t.mems == l.mems
                        &&& t.store == l.store
                        &&& t.after.same(&tuple.state)
                    }
                },
            },
    {
        let same = match &self.last {
            Some(l) => l.state.equals(&tuple.state),
            None => false,
        };
        if same {
            return None;
        }
        let after = tuple.state.copy();
        let prev = self.last.take();
        self.last = Some(tuple);
        match prev {
            Some(LogTuple { line: _, state, insn, store, mems }) => Some(Transaction { state, insn, mems, store, after }),
            None => None,
        }
    }
}

} // verus!
