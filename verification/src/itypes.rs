use vstd::prelude::*;

verus! {

/// The `len` bits of `v` that start at bit `offset`, moved down to bit 0.
pub open spec fn get_bits32(v: u32, offset: u32, len: u32) -> u32 {
    (v >> offset) & (((1u32 << len) - 1) as u32)
}

/// `v` read as a two's complement number of `len` bits: the bits above bit
/// `len - 1` are filled with copies of that bit.
pub open spec fn sext(v: u64, len: u64) -> i64 {
    let low = v & (((1u64 << len) - 1) as u64);
    if (v >> ((len - 1) as u64)) & 1 == 1 {
        (low | !(((1u64 << len) - 1) as u64)) as i64
    } else {
        low as i64
    }
}

/// Sign-extends the low `len` bits of `val`.
pub fn sign_extend(val: u64, len: u8) -> (r: i64)
    requires
        1 <= len <= 63,
    ensures
        r == sext(val, len as u64),
{
    let extend: u64 = 64 - len as u64;
    let shifted: i64 = #[verifier::truncate] ((val << extend) as i64);
    let r = shifted >> extend;
    let l = len as u64;
    assert((((val << extend) as i64) >> extend) == (if (val >> ((l - 1) as u64)) & 1 == 1 { ((val & (((1u64 << l) - 1) as u64)) | !(((1u64 << l) - 1) as u64)) as i64 } else { (val & (((1u64 << l) - 1) as u64)) as i64 })) by (bit_vector)
        requires
            1 <= l <= 63,
            extend == 64 - l,
    ;
    r
}

/// A `u32` field of `len` bits holds a number below `2^len`, and shifting the
/// mask never underflows.
pub proof fn lemma_field32(v: u32, offset: u32, len: u32)
    requires
        offset < 32,
        len < 32,
    ensures
        (1u32 << len) >= 1,
        get_bits32(v, offset, len) < (1u32 << len),
{
    assert((1u32 << len) >= 1) by (bit_vector)
        requires
            len < 32,
    ;
    assert(((v >> offset) & (((1u32 << len) - 1) as u32)) < (1u32 << len)) by (bit_vector)
        requires
            len < 32,
    ;
}

/// The destination register of an instruction word.
pub open spec fn rd_of(v: u32) -> int {
    get_bits32(v, 7, 5) as int
}

/// The first source register of an instruction word.
pub open spec fn rs1_of(v: u32) -> int {
    get_bits32(v, 15, 5) as int
}

/// The second source register of an instruction word.
pub open spec fn rs2_of(v: u32) -> int {
    get_bits32(v, 20, 5) as int
}

/// The register fields name one of the thirty-two registers.
pub proof fn lemma_reg_fields(v: u32)
    ensures
        get_bits32(v, 7, 5) < 32,
        get_bits32(v, 15, 5) < 32,
        get_bits32(v, 20, 5) < 32,
{
    assert(((v >> 7u32) & (((1u32 << 5u32) - 1) as u32)) < 32 && ((v >> 15u32) & (((1u32 << 5u32) - 1) as u32)) < 32
        && ((v >> 20u32) & (((1u32 << 5u32) - 1) as u32)) < 32) by (bit_vector);
}

/// An instruction word: the fields every instruction format reads.
pub trait Base {
    /// The raw instruction bits.
    spec fn bits(&self) -> u32;

    fn val(&self) -> (r: u32)
        ensures
            r == self.bits(),
    ;

    fn field(&self, offset: u8, len: u8) -> (r: u32)
        requires
            offset < 32,
            len < 32,
        ensures
            r == get_bits32(self.bits(), offset as u32, len as u32),
    {
        proof {
            lemma_field32(self.bits(), offset as u32, len as u32);
        }
        (self.val() >> (offset as u32)) & ((1u32 << (len as u32)) - 1)
    }

    /// Extends the sign bit of a field up to 64 bits.
    fn signed_field(&self, offset: u8, len: u8) -> (r: i64)
        requires
            offset < 32,
            1 <= len < 32,
        ensures
            r == sext(get_bits32(self.bits(), offset as u32, len as u32) as u64, len as u64),
    {
        let f = self.field(offset, len);
        sign_extend(f as u64, len)
    }
}

/// The destination register field, bits 7 to 11.
pub trait FieldRd: Base {
    fn rd(&self) -> (r: u32)
        ensures
            r == get_bits32(self.bits(), 7, 5),
    {
        self.field(7, 5)
    }
}

/// The first source register field, bits 15 to 19.
pub trait FieldRs1: Base {
    fn rs1(&self) -> (r: u32)
        ensures
            r == get_bits32(self.bits(), 15, 5),
    {
        self.field(15, 5)
    }
}

/// The second source register field, bits 20 to 24.
pub trait FieldRs2: Base {
    fn rs2(&self) -> (r: u32)
        ensures
            r == get_bits32(self.bits(), 20, 5),
    {
        self.field(20, 5)
    }
}

// B instruction type

/// The branch offset bits of a B-type instruction, as the decoder assembles them.
pub open spec fn b_imm_bits(v: u32) -> u32 {
    (get_bits32(v, 8, 4) << 1u32) | (get_bits32(v, 25, 6) << 5u32) | (get_bits32(v, 7, 1) << 11u32) | (get_bits32(v, 31, 1) << 12u32)
}

/// The branch offset of a B-type instruction word.
pub open spec fn b_imm(v: u32) -> i64 {
    sext(b_imm_bits(v) as u64, 12)
}

/// A conditional branch.
pub struct Btype(pub u32);

impl Base for Btype {
    open spec fn bits(&self) -> u32 {
        self.0
    }

    fn val(&self) -> (r: u32) {
        self.0
    }
}

impl FieldRs1 for Btype {}

impl FieldRs2 for Btype {}

impl Btype {
    /// The branch offset, sign-extended from its low twelve bits.
    pub fn imm(&self) -> (r: i64)
        ensures
            r == b_imm(self.0),
    {
        let i: u32 = (self.field(8, 4) << 1u32) | (self.field(25, 6) << 5u32) | (self.field(7, 1) << 11u32) | (self.field(31, 1) << 12u32);
        sign_extend(i as u64, 12)
    }
}

/// Decoding the offset of a branch undoes encoding it, for every even offset
/// that fits in twelve bits (the decoder sign-extends from bit 11): a word
/// that holds the offset's bit 12 at bit 31, bits 10..5 at 30..25, bits 4..1 at
/// 11..8 and bit 11 at bit 7 decodes to the offset, whatever the other fields hold.
pub proof fn lemma_b_imm_encoding(imm: i64, fields: u32)
    requires
        -2048 <= imm < 2048,
        (imm as u64) & 1 == 0,
    ensures
        b_imm((fields & 0x01ff_f07f) | (((((imm as u64) >> 12u64) & 1) as u32) << 31u32) | (((((imm as u64) >> 5u64) & 0x3f) as u32)
            << 25u32) | (((((imm as u64) >> 1u64) & 0xf) as u32) << 8u32) | (((((imm as u64) >> 11u64) & 1) as u32) << 7u32)) == imm,
{
    let v = (fields & 0x01ff_f07f) | (((((imm as u64) >> 12u64) & 1) as u32) << 31u32) | (((((imm as u64) >> 5u64) & 0x3f) as u32)
        << 25u32) | (((((imm as u64) >> 1u64) & 0xf) as u32) << 8u32) | (((((imm as u64) >> 11u64) & 1) as u32) << 7u32);
    assert(sext(((((v >> 8u32) & (((1u32 << 4u32) - 1) as u32)) << 1u32) | (((v >> 25u32) & (((1u32 << 6u32) - 1) as u32)) << 5u32)
        | (((v >> 7u32) & (((1u32 << 1u32) - 1) as u32)) << 11u32) | (((v >> 31u32) & (((1u32 << 1u32) - 1) as u32)) << 12u32)) as u64, 12)
        == imm) by (bit_vector)
        requires
            -2048 <= imm < 2048,
            (imm as u64) & 1 == 0,
            v == (fields & 0x01ff_f07f) | (((((imm as u64) >> 12u64) & 1) as u32) << 31u32) | (((((imm as u64) >> 5u64) & 0x3f) as u32)
                << 25u32) | (((((imm as u64) >> 1u64) & 0xf) as u32) << 8u32) | (((((imm as u64) >> 11u64) & 1) as u32) << 7u32),
    ;
}

// R instruction type

/// A register to register operation.
pub struct Rtype(pub u32);

impl Base for Rtype {
    open spec fn bits(&self) -> u32 {
        self.0
    }

    fn val(&self) -> (r: u32) {
        self.0
    }
}

impl FieldRd for Rtype {}

impl FieldRs1 for Rtype {}

impl FieldRs2 for Rtype {}

// I instruction type

/// The sign-extended immediate of an I-type instruction word.
pub open spec fn i_imm(v: u32) -> i64 {
    sext(get_bits32(v, 20, 12) as u64, 12)
}

/// An operation with a twelve bit immediate.
pub struct Itype(pub u32);

impl Base for Itype {
    open spec fn bits(&self) -> u32 {
        self.0
    }

    fn val(&self) -> (r: u32) {
        self.0
    }
}

impl FieldRd for Itype {}

impl FieldRs1 for Itype {}

impl Itype {
    /// The immediate, zero-extended.
    pub fn immu(&self) -> (r: u64)
        ensures
            r == get_bits32(self.0, 20, 12),
    {
        self.field(20, 12) as u64
    }

    /// The immediate, sign-extended.
    pub fn imm(&self) -> (r: i64)
        ensures
            r == i_imm(self.0),
    {
        self.signed_field(20, 12)
    }
}

// S instruction type

/// The offset bits of an S-type instruction.
pub open spec fn s_imm_bits(v: u32) -> u32 {
    get_bits32(v, 7, 5) | (get_bits32(v, 25, 7) << 5u32)
}

/// The offset of an S-type instruction word.
pub open spec fn s_imm(v: u32) -> i64 {
    sext(s_imm_bits(v) as u64, 12)
}

/// A store.
pub struct Stype(pub u32);

impl Base for Stype {
    open spec fn bits(&self) -> u32 {
        self.0
    }

    fn val(&self) -> (r: u32) {
        self.0
    }
}

impl FieldRs1 for Stype {}

impl FieldRs2 for Stype {}

impl Stype {
    /// The store offset, sign-extended from twelve bits.
    pub fn imm(&self) -> (r: i64)
        ensures
            r == s_imm(self.0),
    {
        let i: u32 = self.field(7, 5) | (self.field(25, 7) << 5u32);
        sign_extend(i as u64, 12)
    }
}

/// Decoding the offset of a store undoes encoding it: a word that holds any
/// twelve bit offset `imm` in two's complement, its bits 11..5 at bits 31..25
/// and its bits 4..0 at bits 11..7, decodes to `imm`, whatever the other
/// fields (opcode, funct3, rs1, rs2) hold.
pub proof fn lemma_s_imm_encoding(imm: i64, fields: u32)
    requires
        -2048 <= imm < 2048,
    ensures
        s_imm((fields & 0x01ff_f07f) | (((((imm as u64) >> 5u64) & 0x7f) as u32) << 25u32) | ((((imm as u64) & 0x1f) as u32) << 7u32))
            == imm,
{
    let v = (fields & 0x01ff_f07f) | (((((imm as u64) >> 5u64) & 0x7f) as u32) << 25u32) | ((((imm as u64) & 0x1f) as u32) << 7u32);
    assert(sext((((v >> 7u32) & (((1u32 << 5u32) - 1) as u32)) | (((v >> 25u32) & (((1u32 << 7u32) - 1) as u32)) << 5u32)) as u64, 12)
        == imm) by (bit_vector)
        requires
            -2048 <= imm < 2048,
            v == (fields & 0x01ff_f07f) | (((((imm as u64) >> 5u64) & 0x7f) as u32) << 25u32) | ((((imm as u64) & 0x1f) as u32) << 7u32),
    ;
}

/// Decoding the immediate of an I-type word undoes encoding it: a word that
/// holds any twelve bit `imm` in two's complement at bits 31..20 decodes to
/// `imm`, whatever the other fields hold.
pub proof fn lemma_i_imm_encoding(imm: i64, fields: u32)
    requires
        -2048 <= imm < 2048,
    ensures
        i_imm((fields & 0x000f_ffff) | ((((imm as u64) & 0xfff) as u32) << 20u32)) == imm,
{
    let v = (fields & 0x000f_ffff) | ((((imm as u64) & 0xfff) as u32) << 20u32);
    assert(sext(((v >> 20u32) & (((1u32 << 12u32) - 1) as u32)) as u64, 12) == imm) by (bit_vector)
        requires
            -2048 <= imm < 2048,
            v == (fields & 0x000f_ffff) | ((((imm as u64) & 0xfff) as u32) << 20u32),
    ;
}

// U instruction type

/// The upper immediate of a U-type instruction word, sign-extended.
pub open spec fn u_imm(v: u32) -> i64 {
    (v & 0xfffff000u32) as i32 as i64
}

/// Decoding the upper immediate of a U-type word undoes encoding it: a word
/// that holds any twenty bit `imm` in two's complement at bits 31..12 decodes
/// to `imm` times 4096, whatever the other fields hold.
pub proof fn lemma_u_imm_encoding(imm: i64, fields: u32)
    requires
        -0x8_0000 <= imm < 0x8_0000,
    ensures
        u_imm((fields & 0xfff) | ((((imm as u64) & 0xf_ffff) as u32) << 12u32)) == imm * 4096,
{
    let v = (fields & 0xfff) | ((((imm as u64) & 0xf_ffff) as u32) << 12u32);
    assert(((v & 0xfffff000u32) as i32 as i64) == imm * 4096) by (bit_vector)
        requires
            -0x8_0000 <= imm < 0x8_0000,
            v == (fields & 0xfff) | ((((imm as u64) & 0xf_ffff) as u32) << 12u32),
    ;
}

/// An operation with an upper immediate.
pub struct Utype(pub u32);

impl Base for Utype {
    open spec fn bits(&self) -> u32 {
        self.0
    }

    fn val(&self) -> (r: u32) {
        self.0
    }
}

impl FieldRd for Utype {}

impl Utype {
    /// The upper twenty bits, in place, sign-extended to 64 bits.
    pub fn imm(&self) -> (r: i64)
        ensures
            r == u_imm(self.0),
    {
        let v: i32 = #[verifier::truncate] (self.val() as i32);
        let i: i32 = (v >> 12u32) << 12u32;
        let x = self.0;
        assert((((x as i32) >> 12u32) << 12u32) == (x & 0xfffff000u32) as i32) by (bit_vector);
        i as i64
    }
}

// J instruction type

/// The jump offset bits of a J-type instruction, as the decoder assembles them.
pub open spec fn j_imm_bits(v: u32) -> u32 {
    (get_bits32(v, 21, 10) << 1u32) | (get_bits32(v, 20, 1) << 11u32) | (get_bits32(v, 12, 8) << 12u32) | (get_bits32(v, 31, 1) << 20u32)
}

/// Decoding the offset of a jump undoes encoding it, for every even offset
/// that fits in twenty bits (the decoder sign-extends from bit 19): a word
/// that holds the offset's bit 20 at bit 31, bits 10..1 at 30..21, bit 11 at
/// bit 20 and bits 19..12 at 19..12 decodes to the offset, whatever the other
/// fields hold.
pub proof fn lemma_j_imm_encoding(imm: i64, fields: u32)
    requires
        -0x8_0000 <= imm < 0x8_0000,
        (imm as u64) & 1 == 0,
    ensures
        j_imm((fields & 0xfff) | (((((imm as u64) >> 20u64) & 1) as u32) << 31u32) | (((((imm as u64) >> 1u64) & 0x3ff) as u32) << 21u32)
            | (((((imm as u64) >> 11u64) & 1) as u32) << 20u32) | (((((imm as u64) >> 12u64) & 0xff) as u32) << 12u32)) == imm,
{
    let v = (fields & 0xfff) | (((((imm as u64) >> 20u64) & 1) as u32) << 31u32) | (((((imm as u64) >> 1u64) & 0x3ff) as u32) << 21u32)
        | (((((imm as u64) >> 11u64) & 1) as u32) << 20u32) | (((((imm as u64) >> 12u64) & 0xff) as u32) << 12u32);
    assert(sext(((((v >> 21u32) & (((1u32 << 10u32) - 1) as u32)) << 1u32) | (((v >> 20u32) & (((1u32 << 1u32) - 1) as u32)) << 11u32)
        | (((v >> 12u32) & (((1u32 << 8u32) - 1) as u32)) << 12u32) | (((v >> 31u32) & (((1u32 << 1u32) - 1) as u32)) << 20u32)) as u64, 20)
        == imm) by (bit_vector)
        requires
            -0x8_0000 <= imm < 0x8_0000,
            (imm as u64) & 1 == 0,
            v == (fields & 0xfff) | (((((imm as u64) >> 20u64) & 1) as u32) << 31u32) | (((((imm as u64) >> 1u64) & 0x3ff) as u32) << 21u32)
                | (((((imm as u64) >> 11u64) & 1) as u32) << 20u32) | (((((imm as u64) >> 12u64) & 0xff) as u32) << 12u32),
    ;
}

/// The jump offset of a J-type instruction word.
pub open spec fn j_imm(v: u32) -> i64 {
    sext(j_imm_bits(v) as u64, 20)
}

/// A jump and link.
pub struct Jtype(pub u32);

impl Base for Jtype {
    open spec fn bits(&self) -> u32 {
        self.0
    }

    fn val(&self) -> (r: u32) {
        self.0
    }
}

impl FieldRd for Jtype {}

impl Jtype {
    /// The jump offset, sign-extended from its low twenty bits.
    pub fn imm(&self) -> (r: i64)
        ensures
            r == j_imm(self.0),
    {
        let i: u32 = (self.field(21, 10) << 1u32) | (self.field(20, 1) << 11u32) | (self.field(12, 8) << 12u32) | (self.field(31, 1) << 20u32);
        sign_extend(i as u64, 20)
    }
}

} // verus!
