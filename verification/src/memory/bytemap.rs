use vstd::prelude::*;
use crate::memory::{Memory, unchanged, stored, byte_of};

verus! {

/// The value of the last entry of `log` for `addr`, if there is one.
pub open spec fn last_write(log: Seq<(u64, u8)>, addr: u64) -> Option<u8>
    decreases log.len(),
{
    if log.len() == 0 {
        None
    } else if log.last().0 == addr {
        Some(log.last().1)
    } else {
        last_write(log.drop_last(), addr)
    }
}

/// A memory that records every write in a log. A read gives the last value
/// written at the address, else the last value of the persistent log, else 0.
#[derive(Clone)]
pub struct ByteMap {
    pub persistent: Vec<(u64, u8)>,
    pub data: Vec<(u64, u8)>,
    pub did_persistent_load: bool,
}

impl ByteMap {
    /// An empty memory: both logs are empty.
    pub fn default() -> (r: Self)
        ensures
            r.persistent@.len() == 0,
            r.data@.len() == 0,
            !r.did_persistent_load,
    {
        ByteMap { did_persistent_load: false, persistent: Vec::new(), data: Vec::new() }
    }

    pub fn with_persistent(self, p: Vec<(u64, u8)>) -> (r: Self)
        ensures
            r.persistent@ == p@,
            r.data@ == self.data@,
            r.did_persistent_load == self.did_persistent_load,
    {
        let mut s = self;
        s.persistent = p;
        s
    }

    pub fn into_data(self) -> (r: Vec<(u64, u8)>)
        ensures
            r@ == self.data@,
    {
        self.data
    }

    /// Whether a read was served from the persistent log.
    pub fn did_persistent_load(&self) -> (r: bool)
        ensures
            r == self.did_persistent_load,
    {
        self.did_persistent_load
    }

    pub fn _set_data(&mut self, data: Vec<(u64, u8)>)
        ensures
            final(self).data@ == data@,
            final(self).persistent@ == old(self).persistent@,
            final(self).did_persistent_load == old(self).did_persistent_load,
    {
        self.data = data;
    }

    /// Forgets all writes, and that any read was served from the persistent log.
    pub fn clear(&mut self)
        ensures
            final(self).data@.len() == 0,
            final(self).persistent@ == old(self).persistent@,
            !final(self).did_persistent_load,
    {
        self.data.clear();
        self.did_persistent_load = false;
    }
}

/// Looks `addr` up in `log`, from the last entry back.
fn find_last(log: &Vec<(u64, u8)>, addr: u64) -> (r: Option<u8>)
    ensures
        r == last_write(log@, addr),
{
    let mut i = log.len();
    assert(log@.subrange(0, i as int) =~= log@);
    while i > 0
        invariant
            i <= log@.len(),
            last_write(log@, addr) == last_write(log@.subrange(0, i as int), addr),
        decreases i,
    {
        let (a, v) = log[i - 1];
        assert(log@.subrange(0, i as int).drop_last() =~= log@.subrange(0, i - 1));
        if a == addr {
            return Some(v);
        }
        i = i - 1;
    }
    None
}

impl Memory for ByteMap {
    open spec fn inv(&self) -> bool {
        true
    }

    open spec fn mapped(&self, addr: u64) -> bool {
        true
    }

    open spec fn byte(&self, addr: u64) -> u8 {
        match last_write(self.data@, addr) {
            Some(v) => v,
            None => match last_write(self.persistent@, addr) {
                Some(v) => v,
                None => 0,
            },
        }
    }

    fn is_mapped(&self, offset: u64) -> (r: bool) {
        true
    }

    fn read_b(&mut self, offset: u64) -> (r: u8)
        ensures
            final(self).data@ == old(self).data@,
            final(self).persistent@ == old(self).persistent@,
            final(self).did_persistent_load == (old(self).did_persistent_load || (last_write(
                old(self).data@,
                offset,
            ) is None && last_write(old(self).persistent@, offset) is Some)),
    {
        proof {
            assert(self.data@.subrange(0, self.data@.len() as int) =~= self.data@);
            assert(self.persistent@.subrange(0, self.persistent@.len() as int) =~= self.persistent@);
        }
        match find_last(&self.data, offset) {
            Some(v) => v,
            None => match find_last(&self.persistent, offset) {
                Some(v) => {
                    self.did_persistent_load = true;
                    v
                },
                None => 0,
            },
        }
    }

    fn write_b(&mut self, offset: u64, value: u8)
        ensures
            final(self).data@ == old(self).data@.push((offset, value)),
            final(self).persistent@ == old(self).persistent@,
            final(self).did_persistent_load == old(self).did_persistent_load,
    {
        self.data.push((offset, value));
        proof {
            crate::memory::lemma_byte_of_u8(value);
            assert(self.data@.drop_last() =~= old(self).data@);
        }
    }
}

} // verus!
