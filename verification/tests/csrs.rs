use risk5::csrs::{Csrs, PostSetOp, MEPC, MHARTID, MISA, MISA_RV64, MSTATUS, MTVEC, SATP};
use risk5::regs::Regs;

#[test]
fn csr_reads_give_back_writes() {
    let mut c = Csrs::new();
    assert!(matches!(c.set(MTVEC, 0x8000_0000), PostSetOp::Nothing));
    assert_eq!(c.get(MTVEC).ok(), Some(0x8000_0000));
    c.set(MEPC, 0x1001);
    assert_eq!(c.get(MEPC).ok(), Some(0x1000));
    assert!(matches!(c.set(MSTATUS, 0x8), PostSetOp::UpdateMmuPrv));
    assert_eq!(c.get(MSTATUS).ok(), Some(0xa_0000_0008));
    assert_eq!(c.get(MHARTID).ok(), Some(0));
    assert_eq!(c.get(MISA).ok(), Some(MISA_RV64));
}

#[test]
fn unknown_csr_is_an_illegal_instruction() {
    let c = Csrs::new();
    match c.get(0x7ff) {
        Err(t) => {
            assert_eq!(t.cause, 2);
            assert_eq!(t.value, 0);
        }
        Ok(_) => panic!("an unknown CSR was read"),
    }
}

#[test]
fn satp_write_switches_translation() {
    let mut c = Csrs::new();
    match c.set(SATP, (8u64 << 60) | (5 << 44) | 0x80000) {
        PostSetOp::SetMemMode(m) => {
            assert_eq!(m.mode, 8);
            assert_eq!(m.asid, 5);
            assert_eq!(m.ppn, 0x80000);
        }
        _ => panic!("satp write asks for a mode switch"),
    }
    // with an unsupported mode in force, satp is left alone
    c.satp = risk5::bitfield::Satp::new(9u64 << 60);
    assert!(matches!(c.set(SATP, 0), PostSetOp::Nothing));
    assert_eq!(c.get(SATP).ok(), Some(9u64 << 60));
}

#[test]
fn register_zero_reads_zero() {
    let mut r = Regs::new();
    r.set(0, 5);
    assert_eq!(r.get(0), 0);
    r.set(3, 7);
    assert_eq!(r.get(3), 7);
    r.seti(4, -2);
    assert_eq!(r.geti(4), -2);
    assert_eq!(r.get(4), u64::MAX - 1);
    let vals = r.to_values();
    assert_eq!(vals.len(), 32);
    assert_eq!(Regs::from_values(&vals).get(3), 7);
}
