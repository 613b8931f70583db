use vstd::prelude::*;
use crate::logrunner::{Insn, MemoryTrace, RestorableState, State, agrees, restored, store_check};
use crate::matcher::{Matcher, Matchers, stepped};
use crate::memory::{ByteMap, Memory};
use crate::processor::{Effect, Halt, Processor};

verus! {

/// The lines of a trace between two marks: the state before the
/// instruction, the instruction, its store and the memory it read.
pub struct LogTuple {
    pub line: usize,
    pub state: State,
    pub insn: Option<Insn>,
    pub store: Option<MemoryTrace>,
    pub mems: Vec<MemoryTrace>,
}

/// A line of a trace.
pub enum LogLine {
    Mark,
    Insn(Insn),
    State(State),
    Load(MemoryTrace),
    Store(MemoryTrace),
    Memory(MemoryTrace),
}

/// What feeding a line to a `TupleBuilder` gives.
pub enum Fed {
    /// The tuple goes on.
    Pending,
    /// A mark closed a tuple.
    Tuple(LogTuple),
}

/// Groups the lines of a trace into tuples: the lines up to the first
/// `skip` marks are dropped, then each mark closes a tuple. Of the lines of
/// a tuple the last instruction, state and store count, and every memory
/// line; the tuple is numbered with the number of its first line.
pub struct TupleBuilder {
    pub skip: usize,
    pub first: Option<usize>,
    pub insn: Option<Insn>,
    pub state: Option<State>,
    pub store: Option<MemoryTrace>,
    pub mems: Vec<MemoryTrace>,
}

impl TupleBuilder {
    /// A builder that drops the lines up to the `skip`-th mark.
    pub fn new(skip: usize) -> (r: Self)
        ensures
            r.skip == skip,
            r.first is None,
            r.insn is None,
            r.state is None,
            r.store is None,
            r.mems@.len() == 0,
    {
        TupleBuilder { skip, first: None, insn: None, state: None, store: None, mems: Vec::new() }
    }

    /// The builder with no line of a tuple taken yet.
    pub open spec fn empty(&self) -> bool {
        &&& self.first is None
        &&& self.insn is None
        &&& self.state is None
        &&& self.store is None
        &&& self.mems@.len() == 0
    }

    /// Whether `line` would close a tuple that has no state.
    pub open spec fn closes_stateless(&self, line: &LogLine) -> bool {
        self.skip == 0 && *line is Mark && self.state is None
    }

    /// Whether `line` would close a tuple that has no state.
    pub fn closes_without_state(&self, line: &LogLine) -> (r: bool)
        ensures
            r == self.closes_stateless(line),
    {
        self.skip == 0 && matches!(line, LogLine::Mark) && self.state.is_none()
    }

    /// Takes line number `line_no` of the trace, `line`, which does not close
    /// a tuple that has no state.
    pub fn feed(&mut self, line_no: usize, line: LogLine) -> (r: Fed)
        requires
            !old(self).closes_stateless(&line),
        ensures
            old(self).skip > 0 ==> {
                &&& r is Pending
                &&& final(self).first == old(self).first
                &&& final(self).insn == old(self).insn
                &&& final(self).state == old(self).state
                &&& final(self).store == old(self).store
                &&& final(self).mems@ == old(self).mems@
                &&& final(self).skip == if line is Mark {
                    old(self).skip - 1
                } else {
                    old(self).skip as int
                }
            },
            old(self).skip == 0 ==> final(self).skip == 0 && {
                let first = if old(self).first is None {
                    line_no
                } else {
                    old(self).first->0
                };
                match line {
                    LogLine::Mark => {
                        &&& final(self).empty()
                        &&& r matches Fed::Tuple(t) && t.line == first && Some(t.state) == old(self).state
                            && t.insn == old(self).insn && t.store == old(self).store && t.mems@ == old(
                            self,
                        ).mems@
                    },
                    LogLine::Insn(i) => r is Pending && *final(self) == (TupleBuilder {
                        first: Some(first),
                        insn: Some(i),
                        ..*old(self)
                    }),
                    LogLine::State(st) => r is Pending && *final(self) == (TupleBuilder {
                        first: Some(first),
                        state: Some(st),
                        ..*old(self)
                    }),
                    LogLine::Store(m) => r is Pending && *final(self) == (TupleBuilder {
                        first: Some(first),
                        store: Some(m),
                        ..*old(self)
                    }),
                    LogLine::Load(_) => r is Pending && *final(self) == (TupleBuilder {
                        first: Some(first),
                        ..*old(self)
                    }),
                    LogLine::Memory(m) => {
                        &&& r is Pending
                        &&& final(self).first == Some(first)
                        &&& final(self).insn == old(self).insn
                        &&& final(self).state == old(self).state
                        &&& final(self).store == old(self).store
                        &&& final(self).mems@ == old(self).mems@.push(m)
                    },
                }
            },
    {
        if self.skip > 0 {
            if let LogLine::Mark = line {
                self.skip = self.skip - 1;
            }
            return Fed::Pending;
        }
        let first = match self.first {
            Some(f) => f,
            None => line_no,
        };
        self.first = Some(first);
        match line {
            LogLine::Mark => {
                self.first = None;
                let insn = self.insn.take();
                let state = self.state.take();
                let store = self.store.take();
                let mut mems = Vec::new();
                std::mem::swap(&mut mems, &mut self.mems);
                match state {
                    Some(state) => Fed::Tuple(LogTuple { line: first, state, insn, store, mems }),
                    None => {
                        proof {
                            assert(old(self).closes_stateless(&LogLine::Mark));
                        }
                        Fed::Pending
                    },
                }
            },
            LogLine::Insn(i) => {
                self.insn = Some(i);
                Fed::Pending
            },
            LogLine::State(s) => {
                self.state = Some(s);
                Fed::Pending
            },
            LogLine::Store(m) => {
                self.store = Some(m);
                Fed::Pending
            },
            LogLine::Load(_) => Fed::Pending,
            LogLine::Memory(m) => {
                self.mems.push(m);
                Fed::Pending
            },
        }
    }
}

/// Picks the lines of a JSON trace to read: lines are counted from 1, empty
/// ones are passed over, and so is every line before the first state line.
pub struct LineFilter {
    pub count: usize,
    pub had_first_state: bool,
}

impl LineFilter {
    pub fn new() -> (r: Self)
        ensures
            r.count == 0,
            !r.had_first_state,
    {
        LineFilter { count: 0, had_first_state: false }
    }

    /// Takes the next line, which is empty or, if not, is a state line or
    /// not; gives its number where it is to be read.
    pub fn take(&mut self, empty: bool, is_state: bool) -> (r: Option<usize>)
        requires
            old(self).count < usize::MAX,
        ensures
            final(self).count == old(self).count + 1,
            final(self).had_first_state == (old(self).had_first_state || (!empty && is_state)),
            r == if !empty && final(self).had_first_state {
                Some(final(self).count)
            } else {
                None::<usize>
            },
    {
        self.count = self.count + 1;
        if empty {
            return None;
        }
        if is_state {
            self.had_first_state = true;
        } else if !self.had_first_state {
            return None;
        }
        Some(self.count)
    }
}

/// One instruction of a trace: the state before it, the instruction, the
/// memory it read, its store and the state after it.
pub struct Transaction {
    pub state: State,
    pub insn: Option<Insn>,
    pub mems: Vec<MemoryTrace>,
    pub store: Option<MemoryTrace>,
    pub after: State,
}

/// `new` is `old` after it took `tuple` and gave `t`: the transaction of the
/// tuple before, whose state after is the state of `tuple`.
pub open spec fn advanced(old: &TransactionIterator, tuple: &LogTuple, t: &Transaction, new: &TransactionIterator) -> bool {
    &&& t.state == old.last_tuple.state
    &&& t.insn == old.last_tuple.insn
    &&& t.mems == old.last_tuple.mems
    &&& t.store == old.last_tuple.store
    &&& t.after.same(&tuple.state)
    &&& new.last_tuple == *tuple
}

/// Transactions follow one another: the state after one is the state before
/// the next.
pub proof fn lemma_transactions_chain(
    it0: &TransactionIterator,
    it1: &TransactionIterator,
    it2: &TransactionIterator,
    tuple1: &LogTuple,
    tuple2: &LogTuple,
    t1: &Transaction,
    t2: &Transaction,
)
    requires
        advanced(it0, tuple1, t1, it1),
        advanced(it1, tuple2, t2, it2),
    ensures
        t1.after.same(&t2.state),
{
}

/// Pairs each tuple of a trace with the state of the next one.
pub struct TransactionIterator {
    pub last_tuple: LogTuple,
}

impl TransactionIterator {
    /// Starts with the first tuple of the trace.
    pub fn new(first: LogTuple) -> (r: Self)
        ensures
            r.last_tuple == first,
    {
        TransactionIterator { last_tuple: first }
    }

    /// Takes the next tuple and gives the transaction of the one before it.
    pub fn next(&mut self, tuple: LogTuple) -> (t: Transaction)
        ensures
            advanced(&*old(self), &tuple, &t, &*final(self)),
    {
        let after = tuple.state.copy();
        let mut this_tuple = tuple;
        std::mem::swap(&mut this_tuple, &mut self.last_tuple);
        let LogTuple { line: _, state, insn, store, mems } = this_tuple;
        Transaction { state, insn, mems, store, after }
    }
}

/// The writes the accesses `mems` make, in order.
pub open spec fn memory_of(mems: Seq<MemoryTrace>) -> Seq<(u64, u8)> {
    Seq::new(mems.len(), |i: int| (mems[i].addr, mems[i].value as u8))
}

/// The memory the accesses `mems` leave in an empty byte map, in order.
pub fn to_memory(mems: &Vec<MemoryTrace>) -> (m: ByteMap)
    ensures
        m.inv(),
        m.persistent@.len() == 0,
        m.data@ == memory_of(mems@),
        !m.did_persistent_load,
{
    let mut m = ByteMap::default();
    let mut i: usize = 0;
    while i < mems.len()
        invariant
            i <= mems@.len(),
            m.persistent@.len() == 0,
            !m.did_persistent_load,
            m.data@ == Seq::new(i as nat, |j: int| (mems@[j].addr, mems@[j].value as u8)),
        decreases mems@.len() - i,
    {
        m.data.push((mems[i].addr, mems[i].value as u8));
        i = i + 1;
        assert(m.data@ =~= Seq::new(i as nat, |j: int| (mems@[j].addr, mems@[j].value as u8)));
    }
    assert(m.data@ =~= memory_of(mems@));
    m
}

/// What checking a transaction found.
#[derive(Debug, PartialEq, Eq, Structural)]
pub enum Verdict {
    /// The hart went from the state before to the state after, and memory
    /// holds the store.
    Pass,
    /// The state after, or the store, differs.
    Fail,
    /// The hart halted on the instruction.
    Halted(Halt),
    /// The store could not be checked.
    Unchecked,
}

/// The verdict on the transaction `t` when the hart restored to its state
/// before went to `q` with result `res` in one step.
pub open spec fn verdict_of(t: &Transaction, q: &Processor<ByteMap>, res: Result<Effect, Halt>) -> Verdict {
    match res {
        Err(h) => Verdict::Halted(h),
        Ok(_) => if !agrees(&t.after, q) {
            Verdict::Fail
        } else {
            match t.store {
                None => Verdict::Pass,
                Some(st) => match store_check(&st, &q.mmu) {
                    Some(true) => Verdict::Pass,
                    Some(false) => Verdict::Fail,
                    None => Verdict::Unchecked,
                },
            }
        },
    }
}

/// Whether `v` is what checking `t` with the decode table `ms` gives: the hart
/// restored to the state before, in a memory that holds what the instruction
/// read, takes one step, and the verdict is drawn from where it got.
pub open spec fn transaction_verdict(t: &Transaction, ms: Seq<Matcher>, v: Verdict) -> bool {
    exists|m: ByteMap, p: Processor<ByteMap>, q: Processor<ByteMap>, res: Result<Effect, Halt>|
        #![trigger restored(&p, &t.state, m), stepped(&p, &q, res, ms)]
        {
            &&& m.inv()
            &&& m.persistent@.len() == 0
            &&& m.data@ == memory_of(t.mems@)
            &&& !m.did_persistent_load
            &&& restored(&p, &t.state, m)
            &&& stepped(&p, &q, res, ms)
            &&& v == verdict_of(t, &q, res)
        }
}

impl Transaction {
    /// Checks a transaction that passes: restores the state before, runs one
    /// step, and checks the state after and the store.
    pub fn validate(&self, matchers: &mut Matchers)
        requires
            self.state.xregs@.len() == 32,
            self.after.xregs@.len() <= 32,
            old(matchers).wf(),
            forall|v: Verdict| #[trigger] transaction_verdict(self, old(matchers).matchers@, v) ==> v == Verdict::Pass,
        ensures
            final(matchers).wf(),
            final(matchers).matchers == old(matchers).matchers,
    {
        let v = self.verdict(matchers);
        assert(v == Verdict::Pass);
    }

    /// Restores the state before, in a memory that holds what the
    /// instruction read, runs one step, and checks the state after and the store.
    #[verifier::spinoff_prover]
    #[verifier::rlimit(60)]
    pub fn verdict(&self, matchers: &mut Matchers) -> (r: Verdict)
        requires
            self.state.xregs@.len() == 32,
            self.after.xregs@.len() <= 32,
            old(matchers).wf(),
        ensures
            final(matchers).wf(),
            final(matchers).matchers == old(matchers).matchers,
            transaction_verdict(self, old(matchers).matchers@, r),
    {
        let memory = to_memory(&self.mems);
        let ghost m = memory;
        let mut cpu = RestorableState { state: &self.state, memory }.into_processor();
        let ghost p = cpu;
        let res = cpu.try_step(matchers);
        let ghost q = cpu;
        let r = match res {
            Ok(_) => {
                let actual = cpu.to_state();
                if !self.after.validate(&actual) {
                    Verdict::Fail
                } else {
                    match &self.store {
                        Some(store) => match store.check(&mut cpu.mmu) {
                            Some(true) => Verdict::Pass,
                            Some(false) => Verdict::Fail,
                            None => Verdict::Unchecked,
                        },
                        None => Verdict::Pass,
                    }
                }
            },
            Err(h) => Verdict::Halted(h),
        };
        proof {
            assert(restored(&p, &self.state, m));
            assert(stepped(&p, &q, res, old(matchers).matchers@));
            assert(r == verdict_of(self, &q, res));
        }
        r
    }
}

/// How many transactions a log file takes before the next file is begun.
pub const TRANSACTIONS_PER_FILE: usize = 250_000;

/// What to do with a transaction offered to a log file.
#[derive(Debug, PartialEq, Eq, Structural)]
pub enum StoreAction {
    /// The transaction is not of this file's kind.
    Ignore,
    /// It is, but the file takes none.
    Skip,
    /// Write it to the file.
    Write,
    /// Write it, then begin the next file of the kind.
    WriteAndRotate,
}

/// A series of log files for the transactions of one kind: those whose
/// instruction word has `mtch` under `mask`.
pub struct TransLogFile {
    pub name: String,
    pub count: usize,
    pub idx: usize,
    pub mask: u32,
    pub mtch: u32,
    pub skip: bool,
}

impl TransLogFile {
    pub open spec fn wf(&self) -> bool {
        self.count < TRANSACTIONS_PER_FILE
    }

    /// Whether a transaction is of this file's kind.
    pub open spec fn takes(&self, t: &Transaction) -> bool {
        t.insn matches Some(i) && i.bits & self.mask == self.mtch
    }

    pub fn new(mask: u32, mtch: u32, name: String) -> (r: Self)
        ensures
            r.wf(),
            r.name == name,
            r.count == 0,
            r.idx == 0,
            r.mask == mask,
            r.mtch == mtch,
            !r.skip,
    {
        TransLogFile { name, count: 0, idx: 0, mask, mtch, skip: false }
    }

    /// Offers a transaction to the file.
    pub fn store(&mut self, t: &Transaction) -> (r: StoreAction)
        requires
            old(self).wf(),
        ensures
            final(self).wf(),
            final(self).name == old(self).name,
            final(self).mask == old(self).mask,
            final(self).mtch == old(self).mtch,
            final(self).skip == old(self).skip,
            !old(self).takes(t) ==> r == StoreAction::Ignore && *final(self) == *old(self),
            old(self).takes(t) && old(self).skip ==> r == StoreAction::Skip && *final(self) == *old(self),
            old(self).takes(t) && !old(self).skip ==> if old(self).count + 1 >= TRANSACTIONS_PER_FILE {
                r == StoreAction::WriteAndRotate && final(self).count == 0 && final(self).idx == (if old(self).idx == usize::MAX {
                    0
                } else {
                    old(self).idx + 1
                })
            } else {
                r == StoreAction::Write && final(self).count == old(self).count + 1 && final(self).idx == old(self).idx
            },
        {
        let takes = match &t.insn {
            Some(i) => i.bits & self.mask == self.mtch,
            None => false,
        };
        if !takes {
            return StoreAction::Ignore;
        }
        if self.skip {
            return StoreAction::Skip;
        }
        self.count = self.count + 1;
        if self.count >= TRANSACTIONS_PER_FILE {
            self.idx = self.idx.wrapping_add(1);
            self.count = 0;
            return StoreAction::WriteAndRotate;
        }
        StoreAction::Write
    }
}

} // verus!
