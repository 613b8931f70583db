use vstd::prelude::*;
use crate::bitfield::{BitField, get_bits, put_bits};

verus! {

/// Interrupt bits that supervisor mode may write: ssi, sti and sei.
pub const SMASK_WRITE: u64 = 0x222;

/// Interrupt bits that user mode may read: usi, uti and uei.
pub const UMASK_READ: u64 = 0x111;

/// Interrupt bits that supervisor mode may read: its own and the user ones.
pub const SMASK_READ: u64 = 0x333;

/// The mie / mip interrupt pending and enable registers.
pub struct Interrupt(pub BitField);

impl View for Interrupt {
    type V = u64;

    open spec fn view(&self) -> u64 {
        self.0@
    }
}

impl Interrupt {
    pub fn new(i: u64) -> (r: Self)
        ensures
            r@ == i,
    {
        Interrupt(BitField::new(i))
    }

    pub fn val(&self) -> (r: u64)
        ensures
            r == self@,
    {
        self.0.val()
    }

    /// The value as supervisor mode sees it.
    pub fn supervisor_view(&self) -> (r: u64)
        ensures
            r == self@ & SMASK_READ,
    {
        self.0.val() & SMASK_READ
    }

    /// Writes the supervisor-writable bits from `v`, keeping all other bits.
    pub fn set_supervisor_vals(&mut self, v: u64)
        ensures
            final(self)@ == (old(self)@ & !SMASK_WRITE) | (v & SMASK_WRITE),
    {
        (self.0).0 = (self.0).0 & !SMASK_WRITE;
        (self.0).0 = (self.0).0 | (v & SMASK_WRITE);
    }

    pub fn machine_external_interrupt(&self) -> (r: u64)
        ensures
            r == get_bits(self@, 11, 1),
    {
        self.0.field(11, 1)
    }

    pub fn set_machine_external_interrupt(&mut self, n: u64)
        ensures
            final(self)@ == put_bits(old(self)@, 11, 1, n),
    {
        self.0.set_bool_field(11, n)
    }

    pub fn supervisor_external_interrupt(&self) -> (r: u64)
        ensures
            r == get_bits(self@, 9, 1),
    {
        self.0.field(9, 1)
    }

    pub fn set_supervisor_external_interrupt(&mut self, n: u64)
        ensures
            final(self)@ == put_bits(old(self)@, 9, 1, n),
    {
        self.0.set_bool_field(9, n)
    }

    pub fn user_external_interrupt(&self) -> (r: u64)
        ensures
            r == get_bits(self@, 8, 1),
    {
        self.0.field(8, 1)
    }

    pub fn set_user_external_interrupt(&mut self, n: u64)
        ensures
            final(self)@ == put_bits(old(self)@, 8, 1, n),
    {
        self.0.set_bool_field(8, n)
    }

    pub fn machine_timer_interrupt(&self) -> (r: u64)
        ensures
            r == get_bits(self@, 7, 1),
    {
        self.0.field(7, 1)
    }

    pub fn set_machine_timer_interrupt(&mut self, n: u64)
        ensures
            final(self)@ == put_bits(old(self)@, 7, 1, n),
    {
        self.0.set_bool_field(7, n)
    }

    pub fn supervisor_timer_interrupt(&self) -> (r: u64)
        ensures
            r == get_bits(self@, 5, 1),
    {
        self.0.field(5, 1)
    }

    pub fn set_supervisor_timer_interrupt(&mut self, n: u64)
        ensures
            final(self)@ == put_bits(old(self)@, 5, 1, n),
    {
        self.0.set_bool_field(5, n)
    }

    pub fn user_timer_interrupt(&self) -> (r: u64)
        ensures
            r == get_bits(self@, 4, 1),
    {
        self.0.field(4, 1)
    }

    pub fn set_user_timer_interrupt(&mut self, n: u64)
        ensures
            final(self)@ == put_bits(old(self)@, 4, 1, n),
    {
        self.0.set_bool_field(4, n)
    }

    pub fn machine_software_interrupt(&self) -> (r: u64)
        ensures
            r == get_bits(self@, 3, 1),
    {
        self.0.field(3, 1)
    }

    pub fn set_machine_software_interrupt(&mut self, n: u64)
        ensures
            final(self)@ == put_bits(old(self)@, 3, 1, n),
    {
        self.0.set_bool_field(3, n)
    }

    pub fn supervisor_software_interrupt(&self) -> (r: u64)
        ensures
            r == get_bits(self@, 1, 1),
    {
        self.0.field(1, 1)
    }

    pub fn set_supervisor_software_interrupt(&mut self, n: u64)
        ensures
            final(self)@ == put_bits(old(self)@, 1, 1, n),
    {
        self.0.set_bool_field(1, n)
    }

    pub fn user_software_interrupt(&self) -> (r: u64)
        ensures
            r == get_bits(self@, 0, 1),
    {
        self.0.field(0, 1)
    }

    pub fn set_user_software_interrupt(&mut self, n: u64)
        ensures
            final(self)@ == put_bits(old(self)@, 0, 1, n),
    {
        self.0.set_bool_field(0, n)
    }
}

} // verus!
