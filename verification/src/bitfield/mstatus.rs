use vstd::prelude::*;
use crate::bitfield::{BitField, get_bits, put_bits};

verus! {

/// The mstatus bits that supervisor mode sees.
pub const SSTATUS_MASK: u64 = 0x3000de122;

/// The machine status register.
pub struct Mstatus(pub BitField);

impl View for Mstatus {
    type V = u64;

    open spec fn view(&self) -> u64 {
        self.0@
    }
}

impl Mstatus {
    pub fn new() -> (r: Self)
        ensures
            r@ == 0,
    {
        Mstatus(BitField::new(0))
    }

    pub fn new_with_val(i: u64) -> (r: Self)
        ensures
            r@ == i,
    {
        Mstatus(BitField::new(i))
    }

    pub fn val(&self) -> (r: u64)
        ensures
            r == self@,
    {
        self.0.val()
    }

    /// The value as privilege level `prv` sees it: all of it in machine mode,
    /// the sstatus bits in supervisor mode, and nothing in other modes.
    pub fn val_for_prv(&self, prv: u64) -> (r: u64)
        ensures
            r == (if prv == 3 {
                self@
            } else if prv == 1 {
                self@ & SSTATUS_MASK
            } else {
                0
            }),
    {
        match prv {
            3 => self.val(),
            1 => self.val() & SSTATUS_MASK,
            _ => 0,
        }
    }

    /// Accepts a write of the whole register and ignores it.
    pub fn set_bits(&mut self, _v: u64)
        ensures
            final(self)@ == old(self)@,
    {
    }

    /// Copies the machine interrupt enable bit into the machine prior interrupt enable bit.
    pub fn move_machine_interrupt_enabled_to_prior(&mut self)
        ensures
            final(self)@ == put_bits(old(self)@, 7, 1, get_bits(old(self)@, 3, 1)),
    {
        let mie = self.machine_interrupt_enabled();
        self.set_machine_prior_interrupt_enabled(mie);
    }

    /// Copies the supervisor interrupt enable bit into the supervisor prior interrupt enable bit.
    pub fn move_supervisor_interrupt_enabled_to_prior(&mut self)
        ensures
            final(self)@ == put_bits(old(self)@, 5, 1, get_bits(old(self)@, 1, 1)),
    {
        let ie = self.supervisor_interrupt_enabled();
        self.set_supervisor_prior_interrupt_enabled(ie);
    }

    pub fn machine_interrupt_enabled(&self) -> (r: u64)
        ensures
            r == get_bits(self@, 3, 1),
    {
        self.0.field(3, 1)
    }

    pub fn set_machine_interrupt_enabled(&mut self, n: u64)
        ensures
            final(self)@ == put_bits(old(self)@, 3, 1, n),
    {
        self.0.set_bool_field(3, n)
    }

    pub fn supervisor_interrupt_enabled(&self) -> (r: u64)
        ensures
            r == get_bits(self@, 1, 1),
    {
        self.0.field(1, 1)
    }

    pub fn set_supervisor_interrupt_enabled(&mut self, n: u64)
        ensures
            final(self)@ == put_bits(old(self)@, 1, 1, n),
    {
        self.0.set_bool_field(1, n)
    }

    pub fn user_interrupt_enabled(&self) -> (r: u64)
        ensures
            r == get_bits(self@, 0, 1),
    {
        self.0.field(0, 1)
    }

    pub fn set_user_interrupt_enabled(&mut self, n: u64)
        ensures
            final(self)@ == put_bits(old(self)@, 0, 1, n),
    {
        self.0.set_bool_field(0, n)
    }

    pub fn _set_user_interrupt_enabled(&mut self, n: u64)
        ensures
            final(self)@ == put_bits(old(self)@, 0, 1, n),
    {
        self.0.set_bool_field(0, n)
    }

    pub fn machine_prior_interrupt_enabled(&self) -> (r: u64)
        ensures
            r == get_bits(self@, 7, 1),
    {
        self.0.field(7, 1)
    }

    pub fn set_machine_prior_interrupt_enabled(&mut self, n: u64)
        ensures
            final(self)@ == put_bits(old(self)@, 7, 1, n),
    {
        self.0.set_bool_field(7, n)
    }

    pub fn supervisor_prior_interrupt_enabled(&self) -> (r: u64)
        ensures
            r == get_bits(self@, 5, 1),
    {
        self.0.field(5, 1)
    }

    pub fn set_supervisor_prior_interrupt_enabled(&mut self, n: u64)
        ensures
            final(self)@ == put_bits(old(self)@, 5, 1, n),
    {
        self.0.set_field(5, 1, n)
    }

    pub fn user_prior_interrupt_enabled(&self) -> (r: u64)
        ensures
            r == get_bits(self@, 4, 1),
    {
        self.0.field(4, 1)
    }

    pub fn supervisor_xlen(&self) -> (r: u64)
        ensures
            r == get_bits(self@, 34, 2),
    {
        self.0.field(34, 2)
    }

    pub fn set_supervisor_xlen(&mut self, n: u64)
        ensures
            final(self)@ == put_bits(old(self)@, 34, 2, n),
    {
        self.0.set_field(34, 2, n)
    }

    pub fn user_xlen(&self) -> (r: u64)
        ensures
            r == get_bits(self@, 32, 2),
    {
        self.0.field(32, 2)
    }

    pub fn set_user_xlen(&mut self, n: u64)
        ensures
            final(self)@ == put_bits(old(self)@, 32, 2, n),
    {
        self.0.set_field(32, 2, n)
    }

    pub fn machine_previous_privilege(&self) -> (r: u64)
        ensures
            r == get_bits(self@, 11, 2),
    {
        self.0.field(11, 2)
    }

    pub fn set_machine_previous_privilege(&mut self, n: u64)
        ensures
            final(self)@ == put_bits(old(self)@, 11, 2, n),
    {
        self.0.set_field(11, 2, n)
    }

    pub fn supervisor_previous_privilege(&self) -> (r: u64)
        ensures
            r == get_bits(self@, 8, 1),
    {
        self.0.field(8, 1)
    }

    pub fn set_supervisor_previous_privilege(&mut self, n: u64)
        ensures
            final(self)@ == put_bits(old(self)@, 8, 1, n),
    {
        self.0.set_field(8, 1, n)
    }

    pub fn floating_point_state(&self) -> (r: u64)
        ensures
            r == get_bits(self@, 13, 2),
    {
        self.0.field(13, 2)
    }

    pub fn extensions_state(&self) -> (r: u64)
        ensures
            r == get_bits(self@, 15, 2),
    {
        self.0.field(15, 2)
    }

    pub fn make_executable_readable(&self) -> (r: u64)
        ensures
            r == get_bits(self@, 19, 1),
    {
        self.0.field(19, 1)
    }

    pub fn supervisor_user_memory_access(&self) -> (r: u64)
        ensures
            r == get_bits(self@, 18, 1),
    {
        self.0.field(18, 1)
    }

    pub fn memory_privilege(&self) -> (r: u64)
        ensures
            r == get_bits(self@, 17, 1),
    {
        self.0.field(17, 1)
    }
}

} // verus!
