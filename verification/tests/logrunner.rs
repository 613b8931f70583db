use risk5::build_matchers;
use risk5::logrunner::json::{JsonInsn, JsonLogTuple, JsonMemory, JsonState};
use risk5::logrunner::logger::{level_override, LogLevel, LogWindow};
use risk5::logrunner::run::LogRun;
use risk5::logrunner::transaction::{
    Fed, LineFilter, LogLine, LogTuple, StoreAction, Transaction, TransLogFile, TransactionIterator, TupleBuilder, Verdict,
};
use risk5::logrunner::{frame_len, string_to_u32, string_to_u64, Insn, MemoryTrace, RestorableState, State};
use risk5::memory::ByteMap;
use risk5::mmu::Mmu;

fn state(pc: u64, x1: u64) -> State {
    let mut xregs = vec![0u64; 32];
    xregs[1] = x1;
    State {
        id: 0,
        pc,
        prv: 3,
        mstatus: 0xa_0000_0000,
        mepc: 0,
        mtvec: 0,
        mcause: 0,
        mscratch: 0,
        minstret: 0,
        mie: 0,
        mip: 0,
        medeleg: 0,
        mideleg: 0,
        mcounteren: 0,
        scounteren: 0,
        sepc: 0,
        stval: 0,
        sscratch: 0,
        stvec: 0,
        satp: 0,
        scause: 0,
        xregs,
    }
}

fn word(addr: u64, w: u32) -> Vec<MemoryTrace> {
    (0..4)
        .map(|i| MemoryTrace { kind: "uint8".to_string(), addr: addr + i, value: ((w >> (8 * i)) & 0xff) as u64 })
        .collect()
}

fn tuple(pc: u64, x1: u64) -> LogTuple {
    LogTuple { line: 0, state: state(pc, x1), insn: None, store: None, mems: vec![] }
}

#[test]
fn hex_fields() {
    assert_eq!(string_to_u64("0x1f"), Some(31));
    assert_eq!(string_to_u64("0xffffffffffffffff"), Some(u64::MAX));
    assert_eq!(string_to_u64("0x10000000000000000"), None);
    assert_eq!(string_to_u64("0x"), None);
    assert_eq!(string_to_u64("0"), None);
    assert_eq!(string_to_u64("0x+f"), Some(15));
    assert_eq!(string_to_u64("0xAbC"), Some(0xabc));
    assert_eq!(string_to_u64("0xg1"), None);
    assert_eq!(string_to_u32("0xffffffff"), Some(u32::MAX));
    assert_eq!(string_to_u32("0x100000000"), None);
}

#[test]
fn json_tuple_conversion() {
    let t = JsonLogTuple {
        line: 7,
        state: JsonState {
            id: 1,
            pc: "0x1000".to_string(),
            prv: "0x3".to_string(),
            mstatus: "0x0".to_string(),
            mepc: "0x0".to_string(),
            mtval: "0x0".to_string(),
            mscratch: "0x0".to_string(),
            mtvec: "0x100".to_string(),
            mcause: "0x0".to_string(),
            xregs: vec!["0x0".to_string(), "0x5".to_string()],
        },
        insn: Some(JsonInsn { core: 0, pc: "0x1000".to_string(), bits: "0x00500093".to_string(), desc: "addi".to_string() }),
        store: None,
        mems: vec![JsonMemory { kind: "uint8".to_string(), addr: "0x2000".to_string(), value: "0x7".to_string() }],
    };
    let lt = t.to_logtuple().expect("parses");
    assert_eq!(lt.line, 7);
    assert_eq!(lt.state.pc, 0x1000);
    assert_eq!(lt.state.mtvec, 0x100);
    assert_eq!(lt.state.xregs, vec![0, 5]);
    assert_eq!(lt.insn.as_ref().map(|i| i.bits), Some(0x00500093));
    assert_eq!(lt.mems[0].addr, 0x2000);
    assert_eq!(lt.mems[0].value, 7);

    let bad = JsonMemory { kind: "uint8".to_string(), addr: "0xzz".to_string(), value: "0x0".to_string() };
    assert!(bad.to_memory_trace().is_none());
}

#[test]
fn state_check() {
    let s = state(0x1000, 5);
    assert!(s.validate(&state(0x1000, 5)));
    assert!(!s.validate(&state(0x1000, 6)));
    assert!(!s.validate(&state(0x1004, 5)));
    assert!(s.equals(&s.copy()));
}

#[test]
fn store_check() {
    let mut mmu = Mmu::new(ByteMap::default());
    assert_eq!(mmu.write_w(0x2000, 0x1234_5678), Ok(()));
    let t = MemoryTrace { kind: "uint32".to_string(), addr: 0x2000, value: 0xffff_ffff_1234_5678 };
    assert_eq!(t.check(&mut mmu), Some(true));
    assert!(t.validate(&mut mmu));
    let t = MemoryTrace { kind: "uint16".to_string(), addr: 0x2000, value: 0x5679 };
    assert_eq!(t.check(&mut mmu), Some(false));
    assert!(!t.validate(&mut mmu));
    let t = MemoryTrace { kind: "int8".to_string(), addr: 0x2000, value: 0 };
    assert_eq!(t.check(&mut mmu), None);
    let t = MemoryTrace { kind: "bogus".to_string(), addr: 0x8000_9008, value: 0 };
    assert_eq!(t.check(&mut mmu), Some(true));
    assert!(t.validate(&mut mmu));
}

#[test]
fn restored_hart() {
    let mut s = state(0x8000_0000, 9);
    s.satp = (8u64 << 60) | (3 << 44) | 0x80000;
    s.prv = 1;
    let cpu = RestorableState { state: &s, memory: ByteMap::default() }.into_processor();
    assert_eq!(cpu.pc, 0x8000_0000);
    assert_eq!(cpu.csrs.prv, 1);
    assert_eq!(cpu.get_reg(1), 9);
    assert!(cpu.mmu.sv39);
    assert_eq!(cpu.mmu.asid, 3);
    assert_eq!(cpu.mmu.ppn, 0x80000);
    assert_eq!(cpu.mmu.prv, 1);
    let back = cpu.to_state();
    assert!(s.validate(&back));
    assert_eq!(back.satp, s.satp);
}

#[test]
fn transaction_passes_and_fails() {
    let mut ms = build_matchers();
    let t = Transaction {
        state: state(0x1000, 0),
        insn: Some(Insn { pc: 0x1000, bits: 0x00500093, desc: "addi ra, zero, 5".to_string() }),
        mems: word(0x1000, 0x00500093),
        store: None,
        after: state(0x1004, 5),
    };
    assert_eq!(t.verdict(&mut ms), Verdict::Pass);
    t.validate(&mut ms);
    let wrong = Transaction { after: state(0x1004, 6), ..t };
    assert_eq!(wrong.verdict(&mut ms), Verdict::Fail);
    let halting = Transaction {
        state: state(0x1000, 0),
        insn: None,
        mems: word(0x1000, 0xffffffff),
        store: None,
        after: state(0x1004, 0),
    };
    assert_eq!(halting.verdict(&mut ms), Verdict::Halted(risk5::processor::Halt::UnknownInstruction(0xffffffff)));
}

#[test]
fn transactions_follow_one_another() {
    let mut it = TransactionIterator::new(tuple(0x1000, 0));
    let t1 = it.next(tuple(0x1004, 1));
    let t2 = it.next(tuple(0x1008, 2));
    assert_eq!(t1.state.pc, 0x1000);
    assert_eq!(t1.after.pc, 0x1004);
    assert!(t1.after.equals(&t2.state));
    assert_eq!(t2.after.pc, 0x1008);
}

#[test]
fn replay_drops_repeated_states() {
    let mut run = LogRun::new();
    assert!(run.take(tuple(0x1000, 0)).is_none());
    assert!(run.take(tuple(0x1000, 0)).is_none());
    let t = run.take(tuple(0x1004, 1)).expect("transaction");
    assert_eq!(t.state.pc, 0x1000);
    assert_eq!(t.after.pc, 0x1004);
}

#[test]
fn tuples_from_lines() {
    let mut b = TupleBuilder::new(1);
    assert!(matches!(b.feed(1, LogLine::State(state(0, 0))), Fed::Pending));
    assert!(matches!(b.feed(2, LogLine::Mark), Fed::Pending));
    assert!(b.closes_without_state(&LogLine::Mark));
    assert!(!b.closes_without_state(&LogLine::State(state(4, 1))));
    assert!(matches!(b.feed(4, LogLine::Insn(Insn { pc: 4, bits: 0x13, desc: String::new() })), Fed::Pending));
    assert!(matches!(b.feed(5, LogLine::State(state(4, 1))), Fed::Pending));
    assert!(matches!(b.feed(6, LogLine::Memory(MemoryTrace { kind: "uint8".to_string(), addr: 1, value: 2 })), Fed::Pending));
    match b.feed(7, LogLine::Mark) {
        Fed::Tuple(t) => {
            assert_eq!(t.line, 4);
            assert_eq!(t.state.pc, 4);
            assert_eq!(t.insn.map(|i| i.pc), Some(4));
            assert_eq!(t.mems.len(), 1);
        },
        _ => panic!("a tuple was expected"),
    }
}

#[test]
fn log_files_rotate() {
    let t = Transaction {
        state: state(0, 0),
        insn: Some(Insn { pc: 0, bits: 0x00002003, desc: String::new() }),
        mems: vec![],
        store: None,
        after: state(4, 0),
    };
    let mut loads = TransLogFile::new(0x7f, 0b000_0011, "load".to_string());
    let mut stores = TransLogFile::new(0x7f, 0b010_0011, "store".to_string());
    assert_eq!(stores.store(&t), StoreAction::Ignore);
    loads.count = 249_998;
    assert_eq!(loads.store(&t), StoreAction::Write);
    assert_eq!(loads.store(&t), StoreAction::WriteAndRotate);
    assert_eq!(loads.idx, 1);
    assert_eq!(loads.count, 0);
    loads.skip = true;
    assert_eq!(loads.store(&t), StoreAction::Skip);
}

#[test]
fn log_window() {
    assert_eq!(level_override(None), None);
    assert_eq!(level_override(Some("debug")), Some(LogLevel::Debug));
    assert_eq!(level_override(Some("loud")), Some(LogLevel::Warn));
    let w = LogWindow::new(Some(LogLevel::Info));
    assert!(w.enabled(LogLevel::Warn));
    assert!(!w.enabled(LogLevel::Debug));

    let mut w = LogWindow::new(None);
    assert!(w.log((LogLevel::Info, None, "a".to_string())).is_empty());
    assert_eq!(w.log((LogLevel::Warn, None, "b".to_string())).len(), 1);
    let shown = w.log((LogLevel::Error, Some("m".to_string()), "c".to_string()));
    assert_eq!(shown.len(), 3);
    assert_eq!(shown[0].2, "a");
    assert_eq!(shown[2].2, "c");
    assert!(w.buffer.is_empty());
    for i in 0..250 {
        w.log((LogLevel::Trace, None, format!("{}", i)));
    }
    assert_eq!(w.buffer.len(), 200);
    assert_eq!(w.buffer[0].2, "50");
}

#[test]
fn json_lines_start_at_the_first_state() {
    let mut f = LineFilter::new();
    assert_eq!(f.take(false, false), None);
    assert_eq!(f.take(true, false), None);
    assert_eq!(f.take(false, true), Some(3));
    assert_eq!(f.take(false, false), Some(4));
    assert_eq!(f.take(true, false), None);
    assert_eq!(f.take(false, false), Some(6));
}

#[test]
fn record_frames() {
    assert_eq!(frame_len([0x34, 0x12]), 0x1234);
}
