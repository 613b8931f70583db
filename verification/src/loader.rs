use vstd::prelude::*;
use crate::memory::{Memory, BlockMemory};
use crate::memory::block::{Block, first_block, lemma_first_block_exists, lemma_mapped_block};
use crate::{reset_image, write_reset_vec};

verus! {

#[verifier::external_type_specification]
#[verifier::external_body]
pub struct ExParseError(elf::ParseError);

/// The entry point and the program headers of the ELF image `bytes` as the
/// elf crate parses them, each header as (type, offset in the file, virtual
/// address, size in the file, size in memory); `None` where it refuses the image.
pub uninterp spec fn elf_headers(bytes: Seq<u8>) -> Option<(u64, Seq<(u32, u64, u64, u64, u64)>)>;

/// Parses `bytes` with `elf::ElfBytes::minimal_parse` and reads the entry point
/// and the program headers (an image without a program header table has
/// none). What the parse gives is claimed to be what `elf_headers` names for
/// these bytes, and a refusal to be its `None`; nothing more is stated.
#[verifier::external_body]
fn parse_elf(bytes: &[u8]) -> (r: Result<(u64, Vec<(u32, u64, u64, u64, u64)>), elf::ParseError>)
    ensures
        match r {
            Ok((entry, hs)) => elf_headers(bytes@) == Some((entry, hs@)),
            Err(_) => elf_headers(bytes@) is None,
        },
{
    let file = elf::ElfBytes::<elf::endian::AnyEndian>::minimal_parse(bytes)?;
    let hs = match file.segments() {
        Some(t) => t.iter().map(|h| (h.p_type, h.p_offset, h.p_vaddr, h.p_filesz, h.p_memsz)).collect(),
        None => Vec::new(),
    };
    Ok((file.ehdr.e_entry, hs))
}

/// Why an image cannot be loaded.
#[derive(Debug, Clone, Copy, PartialEq, Eq, Structural)]
pub enum LoadError {
    /// The elf crate refuses the image.
    Elf,
    /// A loadable segment reaches past the end of the file or outside the memory.
    BadSegment,
    /// The device tree does not fit behind the reset vector.
    DtbTooLarge,
}

/// The type of a loadable segment.
pub const PT_LOAD: u32 = 1;

/// Whether a program header describes a segment to load: of type PT_LOAD and
/// taking room in memory.
pub open spec fn is_loadable(h: (u32, u64, u64, u64, u64)) -> bool {
    h.0 == PT_LOAD && h.4 > 0
}

/// The segments to load, in order, each as (offset in the file, address, size).
pub open spec fn loadable(hs: Seq<(u32, u64, u64, u64, u64)>) -> Seq<(u64, u64, u64)>
    decreases hs.len(),
{
    if hs.len() == 0 {
        Seq::empty()
    } else {
        let rest = loadable(hs.drop_last());
        let h = hs.last();
        if is_loadable(h) {
            rest.push((h.1, h.2, h.3))
        } else {
            rest
        }
    }
}

/// The segments the program headers `hs` ask to load.
pub fn load_segments(hs: &[(u32, u64, u64, u64, u64)]) -> (r: Vec<(u64, u64, u64)>)
    ensures
        r@ == loadable(hs@),
{
    let mut r: Vec<(u64, u64, u64)> = Vec::new();
    let mut i: usize = 0;
    while i < hs.len()
        invariant
            i <= hs@.len(),
            r@ == loadable(hs@.take(i as int)),
        decreases hs@.len() - i,
    {
        let h = hs[i];
        proof {
            assert(hs@.take(i as int + 1).drop_last() =~= hs@.take(i as int));
            assert(hs@.take(i as int + 1).last() == h);
        }
        if h.0 == PT_LOAD && h.4 > 0 {
            r.push((h.1, h.2, h.3));
        }
        i = i + 1;
    }
    assert(hs@.take(hs@.len() as int) =~= hs@);
    r
}

/// Whether the elf crate takes `bytes` as an ELF image.
pub fn is_elf(bytes: &[u8]) -> (r: bool)
    ensures
        r == elf_headers(bytes@) is Some,
{
    match parse_elf(bytes) {
        Ok(_) => true,
        Err(_) => false,
    }
}

/// Reads the entry point and the segments to load of the ELF image `bytes`,
/// which the elf crate takes.
pub fn read_program_segments(bytes: &[u8]) -> (r: (u64, Vec<(u64, u64, u64)>))
    requires
        elf_headers(bytes@) is Some,
    ensures
        r.0 == elf_headers(bytes@).unwrap().0,
        r.1@ == loadable(elf_headers(bytes@).unwrap().1),
{
    match parse_elf(bytes) {
        Ok((entry, hs)) => (entry, load_segments(hs.as_slice())),
        Err(_) => {
            proof {
                assert(elf_headers(bytes@) is None);
            }
            (0, Vec::new())
        },
    }
}

/// The byte at `x` after the segments `secs` are copied from `file` over
/// memory that held `before` there; a later segment wins over an earlier one.
pub open spec fn image_byte(file: Seq<u8>, secs: Seq<(u64, u64, u64)>, before: u8, x: u64) -> u8
    decreases secs.len(),
{
    if secs.len() == 0 {
        before
    } else {
        let s = secs.last();
        if s.1 <= x < s.1 + s.2 {
            file[s.0 + (x - s.1)]
        } else {
            image_byte(file, secs.drop_last(), before, x)
        }
    }
}

/// The segment `s` lies within the file and within memory that `mem` serves.
pub open spec fn segment_in<M: Memory>(file_len: int, mem: &M, s: (u64, u64, u64)) -> bool {
    s.2 > 0 ==> {
        &&& s.0 + s.2 <= file_len
        &&& s.1 + s.2 <= u64::MAX + 1
        &&& forall|x: u64| s.1 <= x < s.1 + s.2 ==> #[trigger] mem.mapped(x)
    }
}

/// Copies the segments `secs` from `file` into memory, in order.
pub fn load_image<M: Memory>(mem: &mut M, file: &[u8], secs: &[(u64, u64, u64)])
    requires
        old(mem).inv(),
        forall|k: int| 0 <= k < secs@.len() ==> segment_in(file@.len() as int, &*old(mem), #[trigger] secs@[k]),
    ensures
        final(mem).inv(),
        forall|x: u64| #[trigger] final(mem).mapped(x) == old(mem).mapped(x),
        forall|x: u64| #[trigger] final(mem).byte(x) == image_byte(file@, secs@, old(mem).byte(x), x),
{
    let file_len = file.len();
    let mut k: usize = 0;
    while k < secs.len()
        invariant
            file_len == file@.len(),
            k <= secs@.len(),
            mem.inv(),
            forall|k: int| 0 <= k < secs@.len() ==> segment_in(file@.len() as int, &*old(mem), #[trigger] secs@[k]),
            forall|x: u64| #[trigger] mem.mapped(x) == old(mem).mapped(x),
            forall|x: u64| #[trigger] mem.byte(x) == image_byte(file@, secs@.take(k as int), old(mem).byte(x), x),
        decreases secs@.len() - k,
    {
        let (f_offset, m_offset, size) = secs[k];
        assert(segment_in(file@.len() as int, &*old(mem), secs@[k as int]));
        let ghost done = secs@.take(k as int);
        let mut i: u64 = 0;
        while i < size
            invariant
                file_len == file@.len(),
                i <= size,
                size > 0 ==> f_offset + size <= file@.len(),
                size > 0 ==> m_offset + size <= u64::MAX + 1,
                forall|x: u64| m_offset <= x < m_offset + size ==> #[trigger] old(mem).mapped(x),
                mem.inv(),
                forall|x: u64| #[trigger] mem.mapped(x) == old(mem).mapped(x),
                forall|x: u64| #[trigger]
                    mem.byte(x) == if m_offset <= x < m_offset + i {
                        file@[f_offset + (x - m_offset)]
                    } else {
                        image_byte(file@, done, old(mem).byte(x), x)
                    },
            decreases size - i,
        {
            assert(old(mem).mapped((m_offset + i) as u64));
            assert(f_offset + i < file@.len());
            let b = file[(f_offset + i) as usize];
            mem.write_b(m_offset + i, b);
            proof {
                crate::memory::lemma_byte_of_u8(b);
            }
            i = i + 1;
        }
        proof {
            let next = secs@.take(k as int + 1);
            assert(next.drop_last() =~= done);
            assert(next.last() == (f_offset, m_offset, size));
        }
        k = k + 1;
    }
    assert(secs@.take(secs@.len() as int) =~= secs@);
}

/// Whether the `n` bytes at `m` lie within one block of the machine's
/// memory: 2 GiB of RAM at 0x8000_0000, a stand-in for the core-local
/// interruptor at 0x200_0000, and 2 KiB for the reset vector at 0x1000.
pub open spec fn in_standard_block(m: u64, n: u64) -> bool {
    ||| 0x8000_0000 <= m && m + n <= 0x1_0000_0000
    ||| 0x200_0000 <= m && m + n <= 0x200_c000
    ||| 0x1000 <= m && m + n <= 0x1800
}

/// Whether the segment `s` can be loaded from a file of `file_len` bytes: an
/// empty one always, else it lies within the file and within one block.
pub open spec fn segment_fits(file_len: int, s: (u64, u64, u64)) -> bool {
    s.2 == 0 || (s.0 + s.2 <= file_len && in_standard_block(s.1, s.2))
}

/// Whether every segment of `secs` can be loaded from a file of `file_len` bytes.
pub open spec fn all_fit(file_len: int, secs: Seq<(u64, u64, u64)>) -> bool {
    forall|k: int| 0 <= k < secs.len() ==> segment_fits(file_len, #[trigger] secs[k])
}

fn segment_fits_exec(file_len: usize, s: (u64, u64, u64)) -> (r: bool)
    ensures
        r == segment_fits(file_len as int, s),
{
    let (f, m, n) = s;
    if n == 0 {
        return true;
    }
    if f as u128 + n as u128 > file_len as u128 {
        return false;
    }
    let end = m as u128 + n as u128;
    (0x8000_0000 <= m && end <= 0x1_0000_0000) || (0x200_0000 <= m && end <= 0x200_c000) || (0x1000 <= m
        && end <= 0x1800)
}

/// Whether `x` lies in the machine's memory.
pub open spec fn standard_mapped(x: u64) -> bool {
    in_standard_block(x, 1)
}

/// The machine's memory, all zero.
pub fn standard_memory() -> (mem: BlockMemory)
    ensures
        mem.inv(),
        forall|x: u64| #[trigger] mem.mapped(x) == standard_mapped(x),
        forall|x: u64| #[trigger] mem.byte(x) == 0,
{
    let mut mem = BlockMemory::new(15);
    mem.add_block(0x8000_0000, 2048 * 1024 * 1024);
    mem.add_block(0x200_0000, 0xc000);
    mem.add_block(0x1000, 2048);
    proof {
        let bs = mem.blocks@;
        assert forall|x: u64| #[trigger] mem.mapped(x) == standard_mapped(x) by {
            if 0x8000_0000 <= x && x + 1 <= 0x1_0000_0000 {
                assert(bs[0].contains(x));
            } else if 0x200_0000 <= x && x + 1 <= 0x200_c000 {
                assert(bs[1].contains(x));
            } else if 0x1000 <= x && x + 1 <= 0x1800 {
                assert(bs[2].contains(x));
            }
            if mem.mapped(x) {
                let k = choose|k: int| 0 <= k < bs.len() && (#[trigger] bs[k]).contains(x);
                assert(k == 0 || k == 1 || k == 2);
            }
        }
        assert forall|x: u64| #[trigger] mem.byte(x) == 0 by {
            if mem.mapped(x) {
                lemma_mapped_block(&mem, x);
                let k = crate::memory::block::block_index(bs, x);
                assert(bs[k].data@[x - bs[k].start] == 0u8);
            }
        }
    }
    mem
}

/// Loads the ELF image `file` into the machine's memory and writes the reset
/// vector, which jumps to the image's entry point, and the device tree `dtb`.
pub fn build_memory_from(file: &[u8], dtb: &[u8]) -> (r: Result<BlockMemory, LoadError>)
    ensures
        match elf_headers(file@) {
            None => r == Err::<BlockMemory, LoadError>(LoadError::Elf),
            Some((entry, hs)) => {
                let secs = loadable(hs);
                if !all_fit(file@.len() as int, secs) {
                    r == Err::<BlockMemory, LoadError>(LoadError::BadSegment)
                } else if dtb@.len() > 2048 - 32 {
                    r == Err::<BlockMemory, LoadError>(LoadError::DtbTooLarge)
                } else {
                    r matches Ok(mem) && {
                        &&& mem.inv()
                        &&& forall|x: u64| #[trigger] mem.mapped(x) == standard_mapped(x)
                        &&& forall|x: u64| standard_mapped(x) ==> #[trigger] mem.byte(x) == reset_image(entry, dtb@, image_byte(file@, secs, 0, x), x)
                    }
                }
            },
        },
{
    let mut mem = standard_memory();
    if !is_elf(file) {
        return Err(LoadError::Elf);
    }
    let (entry, sections) = read_program_segments(file);
    let ghost hs = elf_headers(file@).unwrap().1;
    let mut k: usize = 0;
    while k < sections.len()
        invariant
            elf_headers(file@) == Some((entry, hs)),
            sections@ == loadable(hs),
            k <= sections@.len(),
            forall|j: int| 0 <= j < k ==> segment_fits(file@.len() as int, #[trigger] sections@[j]),
        decreases sections@.len() - k,
    {
        if !segment_fits_exec(file.len(), sections[k]) {
            assert(!segment_fits(file@.len() as int, sections@[k as int]));
            assert(!all_fit(file@.len() as int, loadable(hs)));
            return Err(LoadError::BadSegment);
        }
        k = k + 1;
    }
    let ghost before = mem;
    proof {
        assert forall|j: int| 0 <= j < sections@.len() implies segment_in(file@.len() as int, &before, #[trigger] sections@[j]) by {
            let s = sections@[j];
            assert(segment_fits(file@.len() as int, s));
            assert forall|x: u64| s.1 <= x < s.1 + s.2 implies #[trigger] before.mapped(x) by {
                assert(standard_mapped(x));
            }
        }
    }
    load_image(&mut mem, file, sections.as_slice());
    if dtb.len() > 2048 - 32 {
        return Err(LoadError::DtbTooLarge);
    }
    proof {
        assert forall|x: u64| 0x1000 <= x < 0x1020 + dtb@.len() implies #[trigger] mem.mapped(x) by {
            assert(standard_mapped(x));
        }
    }
    write_reset_vec(&mut mem, entry, dtb);
    Ok(mem)
}

} // verus!
