use vstd::prelude::*;

verus! {

/// The integer register file: thirty-two 64 bit registers, the first of
/// which always reads as zero.
#[derive(Debug)]
pub struct Regs {
    regs: Vec<u64>,
}

impl View for Regs {
    type V = Seq<u64>;

    closed spec fn view(&self) -> Seq<u64> {
        self.regs@
    }
}

impl Regs {
    /// Thirty-two registers, and register zero holds zero.
    pub open spec fn wf(&self) -> bool {
        &&& self@.len() == 32
        &&& self@[0] == 0
    }

    /// The register file after a write: a write to register zero is dropped.
    pub open spec fn written(regs: Seq<u64>, i: int, v: u64) -> Seq<u64> {
        if i == 0 {
            regs
        } else {
            regs.update(i, v)
        }
    }

    pub fn new() -> (r: Self)
        ensures
            r.wf(),
            r@ == Seq::new(32, |i: int| 0u64),
    {
        let mut regs: Vec<u64> = Vec::new();
        for i in 0..32
            invariant
                regs@.len() == i,
                forall|j: int| 0 <= j < i ==> regs@[j] == 0,
        {
            regs.push(0);
        }
        let r = Regs { regs };
        assert(r@ =~= Seq::new(32, |i: int| 0u64));
        r
    }

    /// A register file holding `values`, but for register zero, which holds zero.
    pub fn from_values(values: &[u64]) -> (r: Self)
        requires
            values@.len() == 32,
        ensures
            r.wf(),
            r@ == values@.update(0, 0),
    {
        let mut regs: Vec<u64> = Vec::new();
        regs.push(0);
        for i in 1..32
            invariant
                values@.len() == 32,
                regs@.len() == i,
                regs@[0] == 0,
                forall|j: int| 1 <= j < i ==> regs@[j] == values@[j],
        {
            regs.push(values[i]);
        }
        let r = Regs { regs };
        assert(r@ =~= values@.update(0, 0));
        r
    }

    /// The values of all registers, in order.
    pub fn to_values(&self) -> (r: Vec<u64>)
        ensures
            r@ == self@,
    {
        self.regs.clone()
    }

    pub fn get(&self, i: usize) -> (r: u64)
        requires
            self.wf(),
            i < 32,
        ensures
            r == self@[i as int],
    {
        self.regs[i]
    }

    /// The register's bits read as a signed number.
    pub fn geti(&self, i: usize) -> (r: i64)
        requires
            self.wf(),
            i < 32,
        ensures
            r == self@[i as int] as i64,
    {
        self.regs[i] as i64
    }

    pub fn set(&mut self, i: usize, v: u64)
        requires
            old(self).wf(),
            i < 32,
        ensures
            final(self).wf(),
            final(self)@ == Self::written(old(self)@, i as int, v),
    {
        // register zero is a black hole
        if i == 0 {
            return;
        }
        self.regs.set(i, v);
    }

    /// Writes the bits of a signed number.
    pub fn seti(&mut self, i: usize, v: i64)
        requires
            old(self).wf(),
            i < 32,
        ensures
            final(self).wf(),
            final(self)@ == Self::written(old(self)@, i as int, v as u64),
    {
        self.set(i, v as u64)
    }
}

/// Register zero reads as zero in every well-formed register file.
pub proof fn lemma_zero_register(regs: Regs)
    requires
        regs.wf(),
    ensures
        regs@[0] == 0,
{
}

/// A write to any register but zero is read back; all other registers keep their values.
pub proof fn lemma_read_after_write(regs: Seq<u64>, i: int, v: u64, j: int)
    requires
        regs.len() == 32,
        0 <= i < 32,
        0 <= j < 32,
    ensures
        Regs::written(regs, i, v)[j] == (if j == i && i != 0 { v } else { regs[j] }),
{
}

} // verus!
