use vstd::prelude::*;
use crate::bitfield::{Mstatus, Satp, get_bits, put_bits};
use crate::insns::Trap;

verus! {

// Supervisor trap setup
pub const SSTATUS: usize = 0x100;
pub const SEDELEG: usize = 0x102;
pub const SIDELEG: usize = 0x103;
pub const SIE: usize = 0x104;
pub const STVEC: usize = 0x105;
pub const SCOUNTEREN: usize = 0x106;

// Supervisor trap handling
pub const SSCRATCH: usize = 0x140;
pub const SEPC: usize = 0x141;
pub const SCAUSE: usize = 0x142;
pub const STVAL: usize = 0x143;
pub const SIP: usize = 0x144;

// Supervisor protection and translation
pub const SATP: usize = 0x180;

// Machine information registers
pub const MHARTID: usize = 0xf14;

// Machine trap setup
pub const MSTATUS: usize = 0x300;
pub const MISA: usize = 0x301;
pub const MEDELEG: usize = 0x302;
pub const MIDELEG: usize = 0x303;
pub const MIE: usize = 0x304;
pub const MTVEC: usize = 0x305;
pub const MCOUNTEREN: usize = 0x306;

// Machine trap handling
pub const MSCRATCH: usize = 0x340;
pub const MEPC: usize = 0x341;
pub const MCAUSE: usize = 0x342;
pub const MTVAL: usize = 0x343;
pub const MIP: usize = 0x344;

/// The ISA the hart reports: RV64 with the A, C, I, M, S and U extensions.
pub const MISA_RV64: u64 = 0x8000000000141101;

/// The value 2 in both xlen fields of mstatus: 64 bit supervisor and user modes.
pub open spec fn with_xlen64(v: u64) -> u64 {
    put_bits(put_bits(v, 34, 2, 2), 32, 2, 2)
}

/// A new translation mode for the memory unit.
pub struct SetMemMode {
    pub mode: u64,
    pub asid: u64,
    pub ppn: u64,
}

/// What the processor has to do after a CSR write.
pub enum PostSetOp {
    Nothing,
    SetMemMode(SetMemMode),
    UpdateMmuPrv,
}

/// The control and status registers of the hart, and its privilege level.
pub struct Csrs {
    pub prv: u64,
    pub mstatus: Mstatus,
    pub medeleg: u64,
    pub mideleg: u64,
    pub mtvec: u64,
    pub mepc: u64,
    pub mtval: u64,
    pub mcause: u64,
    pub mscratch: u64,
    pub misa: u64,
    pub mcounteren: u64,
    pub mie: u64,
    pub mip: u64,
    pub sstatus: u64,
    pub sedeleg: u64,
    pub sideleg: u64,
    pub sie: u64,
    pub stvec: u64,
    pub scounteren: u64,
    pub sscratch: u64,
    pub sepc: u64,
    pub scause: u64,
    pub stval: u64,
    pub sip: u64,
    pub satp: Satp,
}

/// The CSRs that read back exactly what was written to them.
pub open spec fn plain_csr(i: usize) -> bool {
    i == MTVEC || i == MIP || i == MIE || i == MEDELEG || i == MIDELEG || i == MSCRATCH
        || i == MCOUNTEREN || i == SSTATUS || i == SEDELEG || i == SIDELEG || i == SIE || i
        == STVEC || i == SCOUNTEREN || i == SSCRATCH || i == SEPC || i == SCAUSE || i == STVAL
        || i == SIP
}

impl Csrs {
    /// The value a read of CSR `i` gives, or `None` where the read traps.
    pub open spec fn csr_value(&self, i: usize) -> Option<u64> {
        if i == MHARTID {
            Some(0)
        } else if i == MSTATUS {
            Some(self.mstatus@)
        } else if i == MISA {
            Some(self.misa)
        } else if i == MIP {
            Some(self.mip)
        } else if i == MIE {
            Some(self.mie)
        } else if i == MEDELEG {
            Some(self.medeleg)
        } else if i == MIDELEG {
            Some(self.mideleg)
        } else if i == MCOUNTEREN {
            Some(self.mcounteren)
        } else if i == MTVEC {
            Some(self.mtvec)
        } else if i == MEPC {
            Some(self.mepc)
        } else if i == MTVAL {
            Some(self.mtval)
        } else if i == MSCRATCH {
            Some(self.mscratch)
        } else if i == MCAUSE {
            Some(self.mcause)
        } else if i == SSTATUS {
            Some(self.sstatus)
        } else if i == SEDELEG {
            Some(self.sedeleg)
        } else if i == SIDELEG {
            Some(self.sideleg)
        } else if i == SIE {
            Some(self.sie)
        } else if i == STVEC {
            Some(self.stvec)
        } else if i == SCOUNTEREN {
            Some(self.scounteren)
        } else if i == SSCRATCH {
            Some(self.sscratch)
        } else if i == SEPC {
            Some(self.sepc)
        } else if i == SCAUSE {
            Some(self.scause)
        } else if i == STVAL {
            Some(self.stval)
        } else if i == SIP {
            Some(self.sip)
        } else if i == SATP {
            Some(self.satp@)
        } else {
            None
        }
    }

    /// Whether a write of `satp` is taken: the current translation mode must
    /// be bare (0) or Sv39 (8).
    pub open spec fn satp_write_taken(&self) -> bool {
        get_bits(self.satp@, 60, 4) == 0 || get_bits(self.satp@, 60, 4) == 8
    }

    /// The registers after reset: machine mode, 64 bit xlen fields, the ISA
    /// register, and zero everywhere else.
    pub open spec fn new_spec() -> Csrs {
        Csrs {
            prv: 3,
            mstatus: Mstatus(crate::bitfield::BitField(with_xlen64(0))),
            medeleg: 0,
            mideleg: 0,
            mtvec: 0,
            mepc: 0,
            mtval: 0,
            mcause: 0,
            mscratch: 0,
            misa: MISA_RV64,
            mcounteren: 0,
            mie: 0,
            mip: 0,
            sstatus: 0,
            sedeleg: 0,
            sideleg: 0,
            sie: 0,
            stvec: 0,
            scounteren: 0,
            sscratch: 0,
            sepc: 0,
            scause: 0,
            stval: 0,
            sip: 0,
            satp: Satp(crate::bitfield::BitField(0)),
        }
    }

    pub fn new() -> (r: Self)
        ensures
            r == Self::new_spec(),
            r.prv == 3,
            r.mstatus@ == with_xlen64(0),
            r.misa == MISA_RV64,
            r.satp@ == 0,
            forall|i: usize|
                i != MSTATUS && i != MISA && (#[trigger] r.csr_value(i)) is Some ==> r.csr_value(i)
                    == Some(0u64),
    {
        let mut mstatus = Mstatus::new();
        mstatus.set_supervisor_xlen(2);
        mstatus.set_user_xlen(2);

        Csrs {
            prv: 3,
            mstatus: mstatus,
            medeleg: 0,
            mideleg: 0,
            mtvec: 0,
            mepc: 0,
            mtval: 0,
            mcause: 0,
            mscratch: 0,
            misa: MISA_RV64,
            mcounteren: 0,
            mie: 0,
            mip: 0,
            sstatus: 0,
            sedeleg: 0,
            sideleg: 0,
            sie: 0,
            stvec: 0,
            scounteren: 0,
            sscratch: 0,
            sepc: 0,
            scause: 0,
            stval: 0,
            sip: 0,
            satp: Satp::new(0),
        }
    }

    pub fn prv(&self) -> (r: u64)
        ensures
            r == self.prv,
    {
        self.prv
    }

    pub fn set_prv(&mut self, prv: u64)
        ensures
            *final(self) == (Csrs { prv, ..*old(self) }),
    {
        self.prv = prv;
    }

    /// The registers after a write of `v` to CSR `i`. Plain CSRs take `v`;
    /// mepc drops the low bit; mstatus takes `v` with both xlen fields forced to
    /// 64 bit; satp takes `v` when the current mode is bare or Sv39, and is left
    /// alone otherwise; all other CSRs ignore the write.
    pub open spec fn after_set(self, i: usize, v: u64) -> Csrs {
        if i == MTVEC {
            Csrs { mtvec: v, ..self }
        } else if i == MSTATUS {
            Csrs { mstatus: Mstatus(crate::bitfield::BitField(with_xlen64(v))), ..self }
        } else if i == MEPC {
            Csrs { mepc: v & !1u64, ..self }
        } else if i == MIP {
            Csrs { mip: v, ..self }
        } else if i == MIE {
            Csrs { mie: v, ..self }
        } else if i == MEDELEG {
            Csrs { medeleg: v, ..self }
        } else if i == MIDELEG {
            Csrs { mideleg: v, ..self }
        } else if i == MSCRATCH {
            Csrs { mscratch: v, ..self }
        } else if i == MCOUNTEREN {
            Csrs { mcounteren: v, ..self }
        } else if i == SSTATUS {
            Csrs { sstatus: v, ..self }
        } else if i == SEDELEG {
            Csrs { sedeleg: v, ..self }
        } else if i == SIDELEG {
            Csrs { sideleg: v, ..self }
        } else if i == SIE {
            Csrs { sie: v, ..self }
        } else if i == STVEC {
            Csrs { stvec: v, ..self }
        } else if i == SCOUNTEREN {
            Csrs { scounteren: v, ..self }
        } else if i == SSCRATCH {
            Csrs { sscratch: v, ..self }
        } else if i == SEPC {
            Csrs { sepc: v, ..self }
        } else if i == SCAUSE {
            Csrs { scause: v, ..self }
        } else if i == STVAL {
            Csrs { stval: v, ..self }
        } else if i == SIP {
            Csrs { sip: v, ..self }
        } else if i == SATP && self.satp_write_taken() {
            Csrs { satp: Satp(crate::bitfield::BitField(v)), ..self }
        } else {
            self
        }
    }

    /// What the processor has to do after a write of `v` to CSR `i`.
    pub open spec fn post_set_op(self, i: usize, v: u64) -> PostSetOp {
        if i == MSTATUS {
            PostSetOp::UpdateMmuPrv
        } else if i == SATP && self.satp_write_taken() {
            PostSetOp::SetMemMode(
                SetMemMode {
                    mode: get_bits(v, 60, 4),
                    asid: get_bits(v, 44, 16),
                    ppn: get_bits(v, 0, 44),
                },
            )
        } else {
            PostSetOp::Nothing
        }
    }

    pub fn set(&mut self, i: usize, v: u64) -> (r: PostSetOp)
        ensures
            *final(self) == old(self).after_set(i, v),
            r == old(self).post_set_op(i, v),
    {
        match i {
            MTVEC => self.mtvec = v,
            MSTATUS => {
                let mut mstatus = Mstatus::new_with_val(v);
                mstatus.set_supervisor_xlen(2);
                mstatus.set_user_xlen(2);
                self.mstatus = mstatus;
                return PostSetOp::UpdateMmuPrv;
            },
            MEPC => self.mepc = v & !1u64,
            MIP => self.mip = v,
            MIE => self.mie = v,
            MEDELEG => self.medeleg = v,
            MIDELEG => self.mideleg = v,
            MSCRATCH => self.mscratch = v,
            MCOUNTEREN => self.mcounteren = v,
            SSTATUS => self.sstatus = v,
            SEDELEG => self.sedeleg = v,
            SIDELEG => self.sideleg = v,
            SIE => self.sie = v,
            STVEC => self.stvec = v,
            SCOUNTEREN => self.scounteren = v,
            SSCRATCH => self.sscratch = v,
            SEPC => self.sepc = v,
            SCAUSE => self.scause = v,
            STVAL => self.stval = v,
            SIP => self.sip = v,
            SATP => {
                let satp = Satp::new(v);
                if self.satp.mode() != 0 && self.satp.mode() != 8 {
                    return PostSetOp::Nothing;
                }
                let op = SetMemMode { mode: satp.mode(), asid: satp.asid(), ppn: satp.ppn() };
                self.satp = satp;
                return PostSetOp::SetMemMode(op);
            },
            _ => {},
        }
        PostSetOp::Nothing
    }

    /// Reads CSR `i`; an unknown CSR raises the illegal instruction exception.
    pub fn get(&self, i: usize) -> (r: Result<u64, Trap>)
        ensures
            match self.csr_value(i) {
                Some(v) => r == Ok::<u64, Trap>(v),
                None => r matches Err(t) && t.cause == 2 && t.value == 0,
            },
    {
        match i {
            MHARTID => Ok(0),
            MSTATUS => Ok(self.mstatus.val()),
            MISA => Ok(self.misa),
            MIP => Ok(self.mip),
            MIE => Ok(self.mie),
            MEDELEG => Ok(self.medeleg),
            MIDELEG => Ok(self.mideleg),
            MCOUNTEREN => Ok(self.mcounteren),
            MTVEC => Ok(self.mtvec),
            MEPC => Ok(self.mepc),
            MTVAL => Ok(self.mtval),
            MSCRATCH => Ok(self.mscratch),
            MCAUSE => Ok(self.mcause),
            SSTATUS => Ok(self.sstatus),
            SEDELEG => Ok(self.sedeleg),
            SIDELEG => Ok(self.sideleg),
            SIE => Ok(self.sie),
            STVEC => Ok(self.stvec),
            SCOUNTEREN => Ok(self.scounteren),
            SSCRATCH => Ok(self.sscratch),
            SEPC => Ok(self.sepc),
            SCAUSE => Ok(self.scause),
            STVAL => Ok(self.stval),
            SIP => Ok(self.sip),
            SATP => Ok(self.satp.val()),
            _ => Err(Trap::illegal_insn()),
        }
    }
}

/// A read of a CSR right after a write gives back what was written: exactly for
/// the plain CSRs, with the low bit cleared for mepc, with both xlen fields set
/// to 64 bit for mstatus, and for satp when the current mode is bare or Sv39.
/// A write never changes any other CSR, nor the privilege level.
pub proof fn lemma_get_after_set(c: Csrs, i: usize, v: u64, j: usize)
    ensures
        c.after_set(i, v).prv == c.prv,
        j != i ==> c.after_set(i, v).csr_value(j) == c.csr_value(j),
        plain_csr(i) ==> c.after_set(i, v).csr_value(i) == Some(v),
        i == MEPC ==> c.after_set(i, v).csr_value(i) == Some(v & !1u64),
        i == MSTATUS ==> c.after_set(i, v).csr_value(i) == Some(with_xlen64(v)),
        i == SATP && c.satp_write_taken() ==> c.after_set(i, v).csr_value(i) == Some(v),
        i == SATP && !c.satp_write_taken() ==> c.after_set(i, v) == c,
{
}

} // verus!
