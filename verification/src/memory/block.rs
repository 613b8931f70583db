use vstd::prelude::*;
use crate::memory::{Memory, unchanged, stored, byte_of};

verus! {

/// A contiguous range of memory: `size` bytes from `start`.
#[derive(Clone)]
pub struct Block {
    pub start: u64,
    pub end: u64,
    pub size: u64,
    pub data: Vec<u8>,
}

impl Block {
    pub open spec fn wf(&self) -> bool {
        &&& self.end == self.start + self.size
        &&& self.data@.len() == self.size
    }

    pub open spec fn contains(&self, addr: u64) -> bool {
        self.start <= addr < self.end
    }
}

/// A memory made of blocks; a byte is served by the first block that holds it.
#[derive(Clone)]
pub struct BlockMemory {
    pub blocks: Vec<Block>,
}

/// `i` is the first of `blocks` that holds `addr`.
pub open spec fn first_block(blocks: Seq<Block>, addr: u64, i: int) -> bool {
    &&& 0 <= i < blocks.len()
    &&& blocks[i].contains(addr)
    &&& forall|j: int| 0 <= j < i ==> !(#[trigger] blocks[j]).contains(addr)
}

/// The index of the first of `blocks` that holds `addr`.
pub open spec fn block_index(blocks: Seq<Block>, addr: u64) -> int {
    choose|i: int| first_block(blocks, addr, i)
}

/// There is at most one first block for an address.
pub proof fn lemma_first_block_unique(blocks: Seq<Block>, addr: u64, i: int, j: int)
    requires
        first_block(blocks, addr, i),
        first_block(blocks, addr, j),
    ensures
        i == j,
{
    if i < j {
        assert(!blocks[i].contains(addr));
    } else if j < i {
        assert(!blocks[j].contains(addr));
    }
}

/// When some block holds `addr`, a first one does.
pub proof fn lemma_first_block_exists(blocks: Seq<Block>, addr: u64, i: int)
    requires
        0 <= i < blocks.len(),
        blocks[i].contains(addr),
    ensures
        first_block(blocks, addr, block_index(blocks, addr)),
    decreases i,
{
    if exists|j: int| 0 <= j < i && (#[trigger] blocks[j]).contains(addr) {
        let j = choose|j: int| 0 <= j < i && (#[trigger] blocks[j]).contains(addr);
        lemma_first_block_exists(blocks, addr, j);
    } else {
        assert(first_block(blocks, addr, i));
    }
}

/// The first block that holds a mapped address.
pub proof fn lemma_mapped_block(m: &BlockMemory, addr: u64)
    requires
        m.mapped(addr),
    ensures
        first_block(m.blocks@, addr, block_index(m.blocks@, addr)),
{
    let i = choose|i: int| 0 <= i < m.blocks@.len() && (#[trigger] m.blocks@[i]).contains(addr);
    lemma_first_block_exists(m.blocks@, addr, i);
}

impl BlockMemory {
    pub fn new(_mb: u64) -> (r: Self)
        ensures
            r.inv(),
            r.blocks@.len() == 0,
    {
        Self { blocks: Vec::new() }
    }

    /// Adds a block of `size` zero bytes at `offset`; earlier blocks keep
    /// serving the addresses they hold.
    pub fn add_block(&mut self, offset: u64, size: u64)
        requires
            old(self).inv(),
            offset + size <= u64::MAX,
            size <= usize::MAX,
        ensures
            final(self).inv(),
            final(self).blocks@ == old(self).blocks@.push(
                Block { start: offset, end: (offset + size) as u64, size, data: final(self).blocks@.last().data },
            ),
            final(self).blocks@.last().data@ == Seq::new(size as nat, |i: int| 0u8),
    {
        let mem: Vec<u8> = vec![0u8; size as usize];
        assert(mem@ =~= Seq::new(size as nat, |i: int| 0u8));
        self.blocks.push(Block { start: offset, end: offset + size, size, data: mem });
    }

    pub fn get_block(&self, i: usize) -> (r: &Block)
        requires
            i < self.blocks@.len(),
        ensures
            *r == self.blocks@[i as int],
    {
        &self.blocks[i]
    }

    /// The index of the first block that holds `offset`.
    pub fn find_block_for(&self, offset: u64) -> (r: usize)
        requires
            self.inv(),
            self.mapped(offset),
        ensures
            first_block(self.blocks@, offset, r as int),
            r as int == block_index(self.blocks@, offset),
    {
        let mut i: usize = 0;
        while i < self.blocks.len()
            invariant
                self.inv(),
                self.mapped(offset),
                i <= self.blocks@.len(),
                forall|j: int| 0 <= j < i ==> !(#[trigger] self.blocks@[j]).contains(offset),
            decreases self.blocks@.len() - i,
        {
            let b = &self.blocks[i];
            if offset >= b.start && offset < b.end {
                proof {
                    lemma_mapped_block(self, offset);
                    let k = block_index(self.blocks@, offset);
                    lemma_first_block_unique(self.blocks@, offset, i as int, k);
                }
                return i;
            }
            i = i + 1;
        }
        proof {
            let k = choose|k: int| 0 <= k < self.blocks@.len() && (#[trigger] self.blocks@[k]).contains(offset);
            assert(!self.blocks@[k].contains(offset));
        }
        0
    }
}

impl Memory for BlockMemory {
    open spec fn inv(&self) -> bool {
        forall|i: int| 0 <= i < self.blocks@.len() ==> (#[trigger] self.blocks@[i]).wf()
    }

    open spec fn mapped(&self, addr: u64) -> bool {
        exists|i: int| 0 <= i < self.blocks@.len() && (#[trigger] self.blocks@[i]).contains(addr)
    }

    open spec fn byte(&self, addr: u64) -> u8 {
        if self.mapped(addr) {
            let b = self.blocks@[block_index(self.blocks@, addr)];
            b.data@[addr - b.start]
        } else {
            0
        }
    }

    fn is_mapped(&self, offset: u64) -> (r: bool) {
        let mut i: usize = 0;
        while i < self.blocks.len()
            invariant
                i <= self.blocks@.len(),
                forall|j: int| 0 <= j < i ==> !(#[trigger] self.blocks@[j]).contains(offset),
            decreases self.blocks@.len() - i,
        {
            let b = &self.blocks[i];
            if offset >= b.start && offset < b.end {
                return true;
            }
            i = i + 1;
        }
        false
    }

    fn read_b(&mut self, offset: u64) -> (r: u8)
        ensures
            *final(self) == *old(self),
    {
        let i = self.find_block_for(offset);
        assert(self.blocks@[i as int].wf());
        let block = &self.blocks[i];
        let _len = block.data.len();
        let off = (offset - block.start) as usize;
        block.data[off]
    }

    fn write_b(&mut self, offset: u64, value: u8) {
        let i = self.find_block_for(offset);
        let ghost before = *self;
        assert(self.blocks@[i as int].wf());
        let start = self.blocks[i].start;
        let _len = self.blocks[i].data.len();
        let off = (offset - start) as usize;
        self.blocks[i].data[off] = value;
        proof {
            assert forall|x: u64| #[trigger] self.mapped(x) == before.mapped(x) by {
                if before.mapped(x) {
                    let k = choose|k: int| 0 <= k < before.blocks@.len() && (#[trigger] before.blocks@[k]).contains(x);
                    assert(self.blocks@[k].contains(x));
                }
                if self.mapped(x) {
                    let k = choose|k: int| 0 <= k < self.blocks@.len() && (#[trigger] self.blocks@[k]).contains(x);
                    assert(before.blocks@[k].contains(x));
                }
            }
            crate::memory::lemma_byte_of_u8(value);
            assert forall|x: u64| #[trigger]
                self.byte(x) == if offset <= x < offset + 1 {
                    byte_of(value as u64, (x - offset) as u64)
                } else {
                    before.byte(x)
                } by {
                if before.mapped(x) {
                    lemma_mapped_block(&before, x);
                    let k = block_index(before.blocks@, x);
                    assert(first_block(before.blocks@, x, k));
                    assert(first_block(self.blocks@, x, k));
                    let k2 = block_index(self.blocks@, x);
                    lemma_first_block_unique(self.blocks@, x, k, k2);
                    if x == offset {
                        lemma_first_block_unique(before.blocks@, x, k, i as int);
                    }
                }
            }
        }
    }
}

} // verus!
