use vstd::prelude::*;

pub mod interrupt;
pub mod mstatus;
pub mod satp;

pub use self::interrupt::Interrupt;
pub use self::mstatus::Mstatus;
pub use self::satp::Satp;

verus! {

/// The mask of the `len` lowest bits.
pub open spec fn low_mask(len: u64) -> u64 {
    ((1u64 << len) - 1) as u64
}

/// The `len` bits of `v` that start at bit `offset`, moved down to bit 0.
pub open spec fn get_bits(v: u64, offset: u64, len: u64) -> u64 {
    (v >> offset) & low_mask(len)
}

/// `v` with the `len` bits that start at bit `offset` replaced by the low `len` bits of `x`.
pub open spec fn put_bits(v: u64, offset: u64, len: u64, x: u64) -> u64 {
    (v & !(low_mask(len) << offset)) | ((x & low_mask(len)) << offset)
}

/// A shifted-in one is never zero below bit 64.
pub proof fn lemma_one_shl_pos(len: u64)
    requires
        len < 64,
    ensures
        (1u64 << len) >= 1,
{
    assert((1u64 << len) >= 1) by (bit_vector)
        requires
            len < 64,
    ;
}

/// Reading a field right after writing it gives back the written value, cut to the field's width.
pub proof fn lemma_get_put_same(v: u64, offset: u64, len: u64, x: u64)
    requires
        len < 64,
        offset + len <= 64,
    ensures
        get_bits(put_bits(v, offset, len, x), offset, len) == x & low_mask(len),
{
    assert(((((v & !((((1u64 << len) - 1) as u64) << offset)) | ((x & (((1u64 << len) - 1) as u64)) << offset)) >> offset) & (((1u64 << len) - 1) as u64)) == x & (((1u64 << len) - 1) as u64)) by (bit_vector)
        requires
            len < 64,
            offset + len <= 64,
    ;
}

/// Writing a field leaves every field that does not overlap it unchanged.
pub proof fn lemma_get_put_other(v: u64, offset: u64, len: u64, x: u64, offset2: u64, len2: u64)
    requires
        len < 64,
        len2 < 64,
        offset + len <= 64,
        offset2 + len2 <= 64,
        offset + len <= offset2 || offset2 + len2 <= offset,
    ensures
        get_bits(put_bits(v, offset, len, x), offset2, len2) == get_bits(v, offset2, len2),
{
    assert(((((v & !((((1u64 << len) - 1) as u64) << offset)) | ((x & (((1u64 << len) - 1) as u64)) << offset)) >> offset2) & (((1u64 << len2) - 1) as u64)) == ((v >> offset2) & (((1u64 << len2) - 1) as u64))) by (bit_vector)
        requires
            len < 64,
            len2 < 64,
            offset + len <= 64,
            offset2 + len2 <= 64,
            offset + len <= offset2 || offset2 + len2 <= offset,
    ;
}

/// A second write of the same field wins over the first.
pub proof fn lemma_put_put_same(v: u64, offset: u64, len: u64, x: u64, y: u64)
    requires
        len < 64,
        offset < 64,
    ensures
        put_bits(put_bits(v, offset, len, x), offset, len, y) == put_bits(v, offset, len, y),
{
    let m = low_mask(len);
    assert(((((v & !(m << offset)) | ((x & m) << offset)) & !(m << offset)) | ((y & m) << offset)) == ((v & !(m << offset)) | ((y & m) << offset))) by (bit_vector);
}

/// Writing back the value a field holds leaves the whole value unchanged.
pub proof fn lemma_put_get_same(v: u64, offset: u64, len: u64)
    requires
        len < 64,
        offset + len <= 64,
    ensures
        put_bits(v, offset, len, get_bits(v, offset, len)) == v,
{
    assert(((v & !((((1u64 << len) - 1) as u64) << offset)) | ((((v >> offset) & (((1u64 << len) - 1) as u64)) & (((1u64 << len) - 1) as u64)) << offset)) == v) by (bit_vector)
        requires
            len < 64,
            offset + len <= 64,
    ;
}

/// A field of `len` bits holds a number below `2^len`.
pub proof fn lemma_get_bits_bound(v: u64, offset: u64, len: u64)
    requires
        len < 64,
    ensures
        get_bits(v, offset, len) <= low_mask(len),
        get_bits(v, offset, len) < (1u64 << len),
{
    assert(((v >> offset) & (((1u64 << len) - 1) as u64)) <= (((1u64 << len) - 1) as u64)) by (bit_vector);
    assert(((v >> offset) & (((1u64 << len) - 1) as u64)) < (1u64 << len)) by (bit_vector)
        requires
            len < 64,
    ;
}

/// The masks of the field widths in use.
pub proof fn lemma_mask_values()
    ensures
        low_mask(1) == 1,
        low_mask(2) == 3,
        low_mask(4) == 15,
        low_mask(5) == 31,
        low_mask(9) == 511,
        low_mask(12) == 4095,
        low_mask(16) == 0xffff,
        low_mask(26) == 0x3ff_ffff,
        low_mask(44) == 0xfff_ffff_ffff,
{
    assert(((1u64 << 1u64) - 1) as u64 == 1 && ((1u64 << 2u64) - 1) as u64 == 3 && ((1u64 << 4u64) - 1) as u64 == 15
        && ((1u64 << 5u64) - 1) as u64 == 31 && ((1u64 << 9u64) - 1) as u64 == 511 && ((1u64 << 12u64) - 1) as u64 == 4095
        && ((1u64 << 16u64) - 1) as u64 == 0xffff && ((1u64 << 26u64) - 1) as u64 == 0x3ff_ffff
        && ((1u64 << 44u64) - 1) as u64 == 0xfff_ffff_ffff) by (bit_vector);
}

/// A 64 bit register value whose bits are read and written as fields.
pub struct BitField(pub u64);

impl View for BitField {
    type V = u64;

    open spec fn view(&self) -> u64 {
        self.0
    }
}

impl BitField {
    pub fn new(i: u64) -> (r: Self)
        ensures
            r@ == i,
    {
        BitField(i)
    }

    /// Returns the value with one field replaced; used to build values field by field.
    pub fn with_field(self, offset: u8, len: u8, val: u64) -> (r: Self)
        requires
            offset < 64,
            len < 64,
        ensures
            r@ == put_bits(self@, offset as u64, len as u64, val),
    {
        let mut s = self;
        s.set_field(offset, len, val);
        s
    }

    pub fn into_val(self) -> (r: u64)
        ensures
            r == self@,
    {
        self.0
    }

    pub fn field(&self, offset: u8, len: u8) -> (r: u64)
        requires
            offset < 64,
            len < 64,
        ensures
            r == get_bits(self@, offset as u64, len as u64),
    {
        proof {
            lemma_one_shl_pos(len as u64);
        }
        let mask: u64 = (1u64 << (len as u64)) - 1;
        (self.0 >> offset) & mask
    }

    pub fn set_field(&mut self, offset: u8, len: u8, val: u64)
        requires
            offset < 64,
            len < 64,
        ensures
            final(self)@ == put_bits(old(self)@, offset as u64, len as u64, val),
    {
        proof {
            lemma_one_shl_pos(len as u64);
        }
        // valid bits
        let mask: u64 = (1u64 << (len as u64)) - 1;
        // only the valid bits of val
        let val = val & mask;
        // move the mask to the offset
        let mask = mask << offset;
        // the bits outside the field
        let neg_mask = !mask;
        // clear the field, then set its ones
        self.0 = self.0 & neg_mask;
        self.0 = self.0 | (val << offset);
    }

    pub fn val(&self) -> (r: u64)
        ensures
            r == self@,
    {
        self.0
    }

    pub fn bool_field(&self, offset: u8) -> (r: bool)
        requires
            offset < 64,
        ensures
            r == (get_bits(self@, offset as u64, 1) == 1),
    {
        self.field(offset, 1) == 1
    }

    pub fn set_bool_field(&mut self, offset: u8, value: u64)
        requires
            offset < 64,
        ensures
            final(self)@ == put_bits(old(self)@, offset as u64, 1, value),
    {
        self.set_field(offset, 1, value)
    }
}


/// A physical address, read and written by page-number fields.
pub struct PhysicalAddress(pub BitField);

impl View for PhysicalAddress {
    type V = u64;

    open spec fn view(&self) -> u64 {
        self.0@
    }
}

impl PhysicalAddress {
    pub fn new(v: u64) -> (r: Self)
        ensures
            r@ == v,
    {
        PhysicalAddress(BitField::new(v))
    }

    pub fn offset(&self) -> (r: u64)
        ensures
            r == get_bits(self@, 0, 12),
    {
        self.0.field(0, 12)
    }

    pub fn set_offset(&mut self, offset: u64)
        ensures
            final(self)@ == put_bits(old(self)@, 0, 12, offset),
    {
        self.0.set_field(0, 12, offset)
    }

    /// Sets the `i`th physical page number field: nine bits for the two low
    /// ones, twenty-six bits for the top one.
    pub fn set_physical_page_number_arr(&mut self, i: u8, val: u64)
        requires
            i <= 2,
        ensures
            final(self)@ == put_bits(old(self)@, ppn_offset(i as int), ppn_len(i as int), val),
    {
        if i == 2 {
            self.0.set_field(30, 26, val)
        } else {
            self.0.set_field(12 + i * 9, 9, val)
        }
    }

    pub fn val(&self) -> (r: u64)
        ensures
            r == self@,
    {
        self.0.val()
    }

    pub fn into_val(self) -> (r: u64)
        ensures
            r == self@,
    {
        self.0.into_val()
    }
}

/// Bit offset of the `i`th page number field of a physical address.
pub open spec fn ppn_offset(i: int) -> u64 {
    if i == 2 { 30 } else { (12 + i * 9) as u64 }
}

/// Width of the `i`th page number field of a physical address.
pub open spec fn ppn_len(i: int) -> u64 {
    if i == 2 { 26 } else { 9 }
}

/// A Sv39 virtual address: three nine bit page numbers above a twelve bit offset.
pub struct VirtualAddress(pub BitField);

impl View for VirtualAddress {
    type V = u64;

    open spec fn view(&self) -> u64 {
        self.0@
    }
}

/// The `i`th virtual page number of a Sv39 address.
pub open spec fn vpn(va: u64, i: int) -> u64 {
    get_bits(va, (12 + i * 9) as u64, 9)
}

impl VirtualAddress {
    pub fn new(v: u64) -> (r: Self)
        ensures
            r@ == v,
    {
        VirtualAddress(BitField::new(v))
    }

    pub fn virtual_page_number(&self, i: u8) -> (r: u64)
        requires
            i < 3,
        ensures
            r == vpn(self@, i as int),
    {
        self.0.field(12 + i * 9, 9)
    }

    pub fn offset(&self) -> (r: u64)
        ensures
            r == get_bits(self@, 0, 12),
    {
        self.0.field(0, 12)
    }

    pub fn val(&self) -> (r: u64)
        ensures
            r == self@,
    {
        self.0.val()
    }
}

/// A Sv39 page table entry.
pub struct PageTableEntry(pub BitField);

impl View for PageTableEntry {
    type V = u64;

    open spec fn view(&self) -> u64 {
        self.0@
    }
}

/// Whether bit `b` of `v` is set.
pub open spec fn bit(v: u64, b: u64) -> bool {
    get_bits(v, b, 1) == 1
}

/// Bit offset of the `i`th page number field of a page table entry.
pub open spec fn pte_ppn_offset(i: int) -> u64 {
    if i == 2 { 28 } else { (10 + i * 9) as u64 }
}

impl PageTableEntry {
    pub fn new(v: u64) -> (r: Self)
        ensures
            r@ == v,
    {
        PageTableEntry(BitField::new(v))
    }

    /// Valid bit.
    pub fn v(&self) -> (r: bool)
        ensures
            r == bit(self@, 0),
    {
        self.0.bool_field(0)
    }

    /// Readable bit.
    pub fn r(&self) -> (r: bool)
        ensures
            r == bit(self@, 1),
    {
        self.0.bool_field(1)
    }

    /// Writable bit.
    pub fn w(&self) -> (r: bool)
        ensures
            r == bit(self@, 2),
    {
        self.0.bool_field(2)
    }

    /// Executable bit.
    pub fn x(&self) -> (r: bool)
        ensures
            r == bit(self@, 3),
    {
        self.0.bool_field(3)
    }

    /// User-accessible bit.
    pub fn u(&self) -> (r: bool)
        ensures
            r == bit(self@, 4),
    {
        self.0.bool_field(4)
    }

    /// The `i`th physical page number field: nine bits for the two low ones,
    /// twenty-six bits for the top one.
    pub fn physical_page_number_arr(&self, i: u8) -> (r: u64)
        requires
            i <= 2,
        ensures
            r == get_bits(self@, pte_ppn_offset(i as int), ppn_len(i as int)),
    {
        if i == 2 {
            self.0.field(28, 26)
        } else {
            self.0.field(10 + i * 9, 9)
        }
    }

    pub fn physical_page_number(&self) -> (r: u64)
        ensures
            r == get_bits(self@, 10, 44),
    {
        self.0.field(10, 44)
    }

    pub fn offset(&self) -> (r: u64)
        ensures
            r == get_bits(self@, 0, 12),
    {
        self.0.field(0, 12)
    }

    pub fn val(&self) -> (r: u64)
        ensures
            r == self@,
    {
        self.0.val()
    }
}

} // verus!
