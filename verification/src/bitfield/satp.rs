use vstd::prelude::*;
use crate::bitfield::{BitField, get_bits, put_bits};

verus! {

/// The supervisor address translation and protection register.
pub struct Satp(pub BitField);

impl View for Satp {
    type V = u64;

    open spec fn view(&self) -> u64 {
        self.0@
    }
}

impl Satp {
    pub fn new(i: u64) -> (r: Self)
        ensures
            r@ == i,
    {
        Satp(BitField::new(i))
    }

    /// The register after reset: bare translation.
    pub fn default() -> (r: Self)
        ensures
            r@ == 0,
    {
        Satp(BitField::new(0))
    }

    pub fn val(&self) -> (r: u64)
        ensures
            r == self@,
    {
        self.0.val()
    }

    pub fn ppn(&self) -> (r: u64)
        ensures
            r == get_bits(self@, 0, 44),
    {
        self.0.field(0, 44)
    }

    pub fn asid(&self) -> (r: u64)
        ensures
            r == get_bits(self@, 44, 16),
    {
        self.0.field(44, 16)
    }

    pub fn mode(&self) -> (r: u64)
        ensures
            r == get_bits(self@, 60, 4),
    {
        self.0.field(60, 4)
    }
}

} // verus!
