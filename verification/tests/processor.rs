use risk5::build_matchers;
use risk5::matcher::{Exec, Matchers};
use risk5::memory::{BlockMemory, Memory};
use risk5::processor::{Effect, Halt, Processor};
use risk5::run_step;

fn machine(program: &[u32]) -> (Processor<BlockMemory>, Matchers) {
    let mut mem = BlockMemory::new(0);
    mem.add_block(0x1000, 0x1000);
    mem.add_block(0x2000, 0x1000);
    for (i, w) in program.iter().enumerate() {
        mem.write_w(0x1000 + 4 * i as u64, *w);
    }
    (Processor::new(mem), build_matchers())
}

fn run(cpu: &mut Processor<BlockMemory>, ms: &mut Matchers, n: usize) {
    for _ in 0..n {
        assert_eq!(cpu.try_step(ms), Ok(Effect::Nothing));
    }
}

#[test]
fn arithmetic_instructions() {
    let (mut cpu, mut ms) = machine(&[
        0x00500093, // addi x1, x0, 5
        0xffd00113, // addi x2, x0, -3
        0x002081b3, // add x3, x1, x2
        0x40208233, // sub x4, x1, x2
        0x022083b3, // mul x7, x1, x2
        0x0200c433, // div x8, x1, x0
    ]);
    run(&mut cpu, &mut ms, 6);
    assert_eq!(cpu.get_reg(1), 5);
    assert_eq!(cpu.get_reg(2), (-3i64) as u64);
    assert_eq!(cpu.get_reg(3), 2);
    assert_eq!(cpu.get_reg(4), 8);
    assert_eq!(cpu.get_reg(7), (-15i64) as u64);
    assert_eq!(cpu.get_reg(8), u64::MAX);
    assert_eq!(cpu.pc(), 0x1018);
    assert_eq!(cpu.insn_counter, 6);
}

#[test]
fn register_zero_ignores_writes() {
    let (mut cpu, mut ms) = machine(&[0x00500013]); // addi x0, x0, 5
    run(&mut cpu, &mut ms, 1);
    assert_eq!(cpu.get_reg(0), 0);
}

#[test]
fn store_then_load() {
    let (mut cpu, mut ms) = machine(&[
        0x00500093, // addi x1, x0, 5
        0x000022b7, // lui x5, 0x2
        0x0012a023, // sw x1, 0(x5)
        0x0002a303, // lw x6, 0(x5)
        0x0012a4af, // amoadd.w x9, x1, (x5)
        0x0002a383, // lw x7, 0(x5)
    ]);
    run(&mut cpu, &mut ms, 6);
    assert_eq!(cpu.get_reg(5), 0x2000);
    assert_eq!(cpu.get_reg(6), 5);
    assert_eq!(cpu.get_reg(9), 5);
    assert_eq!(cpu.get_reg(7), 10);
}

#[test]
fn branches_and_jumps() {
    let (mut cpu, mut ms) = machine(&[
        0x00000463, // beq x0, x0, +8
        0x00000013, // nop (skipped)
        0x010000ef, // jal x1, +16
    ]);
    run(&mut cpu, &mut ms, 1);
    assert_eq!(cpu.pc(), 0x1008);
    run(&mut cpu, &mut ms, 1);
    assert_eq!(cpu.pc(), 0x1018);
    assert_eq!(cpu.get_reg(1), 0x100c);
}

#[test]
fn trap_and_return() {
    let mut program = vec![
        0x000010b7u32, // lui x1, 0x1
        0x10008093, // addi x1, x1, 0x100
        0x30509073, // csrrw x0, mtvec, x1
        0x00000073, // ecall
    ];
    while program.len() < 0x40 {
        program.push(0x00000013);
    }
    program.push(0x30200073); // mret at 0x1100
    let (mut cpu, mut ms) = machine(&program);
    run(&mut cpu, &mut ms, 3);
    assert_eq!(cpu.csrs.mtvec, 0x1100);
    assert_eq!(cpu.try_step(&mut ms), Ok(Effect::Nothing));
    assert_eq!(cpu.pc(), 0x1100);
    assert_eq!(cpu.csrs.mcause, 11);
    assert_eq!(cpu.csrs.mepc, 0x100c);
    assert_eq!(cpu.prv(), 3);
    assert_eq!(cpu.try_step(&mut ms), Ok(Effect::Nothing));
    assert_eq!(cpu.pc(), 0x100c);
    assert_eq!(cpu.prv(), 3);
}

#[test]
fn console_output_through_ecall() {
    let (mut cpu, mut ms) = machine(&[
        0x00100893, // addi a7, x0, 1
        0x04100513, // addi a0, x0, 65
        0x00000073, // ecall
    ]);
    run(&mut cpu, &mut ms, 2);
    assert_eq!(cpu.try_step(&mut ms), Ok(Effect::Console(65)));
}

#[test]
fn csr_read() {
    let (mut cpu, mut ms) = machine(&[0x30002573]); // csrrs a0, mstatus, x0
    run(&mut cpu, &mut ms, 1);
    assert_eq!(cpu.get_reg(10), cpu.csrs.mstatus.val());
    assert_eq!(cpu.get_reg(10) >> 32, 0xa);
}

#[test]
fn unknown_and_unimplemented_instructions_halt() {
    let (mut cpu, mut ms) = machine(&[0xffffffff]);
    assert_eq!(cpu.try_step(&mut ms), Err(Halt::UnknownInstruction(0xffffffff)));
    let (mut cpu, mut ms) = machine(&[0x00100073]); // ebreak
    assert_eq!(cpu.try_step(&mut ms), Err(Halt::Unimplemented(0x00100073)));
    assert_eq!(cpu.pc(), 0x1000);
}

#[test]
fn fetch_outside_memory_halts() {
    let (mut cpu, mut ms) = machine(&[]);
    cpu.set_pc(0x9000);
    assert_eq!(cpu.try_step(&mut ms), Err(Halt::Unmapped));
}

#[test]
fn vectored_trap_mode_halts() {
    let (mut cpu, mut ms) = machine(&[0x00000073]);
    cpu.csrs.mtvec = 0x1001;
    assert_eq!(cpu.try_step(&mut ms), Err(Halt::UnsupportedTrapMode));
}

#[test]
fn lookup_is_the_first_match_every_time() {
    let mut ms = build_matchers();
    let addi = 0x00500093u32;
    assert!(ms.has_match(addi));
    let k = ms.find_for(addi);
    assert_eq!(ms.matchers[k].handler, Exec::Addi);
    assert_eq!(ms.find_for(addi), k);
    let k2 = ms.find_for(0x0000006f);
    assert_eq!(ms.matchers[k2].handler, Exec::Jal);
    assert!(!ms.has_match(0xffffffff));
}

#[test]
fn main_loop_looks_at_timer_every_thousand_steps() {
    let (mut cpu, mut ms) = machine(&[0x0000006f]); // jal x0, 0
    cpu.set_timer(5000);
    let mut counter = 0u64;
    for i in 1..=1000u64 {
        let (effect, due) = run_step(&mut cpu, &mut ms, &mut counter).expect("step");
        assert_eq!(effect, Effect::Nothing);
        assert_eq!(due, i == 1000);
    }
    assert_eq!(counter, 1000);
    assert_eq!(cpu.timer, 0);
}

#[test]
fn step_on_a_hart_that_does_not_halt() {
    let (mut cpu, mut ms) = machine(&[
        0x00100893, // addi a7, x0, 1
        0x04100513, // addi a0, x0, 65
        0x00000073, // ecall
    ]);
    assert_eq!(cpu.step(&mut ms), Effect::Nothing);
    assert_eq!(cpu.step(&mut ms), Effect::Nothing);
    assert_eq!(cpu.step(&mut ms), Effect::Console(65));
    assert_eq!(cpu.get_reg(10), 65);
}

#[test]
fn ecall_at_an_unknown_privilege_halts() {
    let (mut cpu, mut ms) = machine(&[0x00000073]); // ecall
    cpu.csrs.prv = 2;
    assert_eq!(cpu.try_step(&mut ms), Err(Halt::UnsupportedPrivilege(2)));
    assert_eq!(cpu.pc(), 0x1000);
}

#[test]
fn memory_modes() {
    let (mut cpu, _) = machine(&[]);
    cpu.set_mem_mode(risk5::csrs::SetMemMode { mode: 8, asid: 7, ppn: 0x80000 });
    assert!(cpu.mmu.sv39);
    assert_eq!(cpu.mmu.asid, 7);
    assert_eq!(cpu.mmu.ppn, 0x80000);
    cpu.set_mem_mode(risk5::csrs::SetMemMode { mode: 0, asid: 7, ppn: 0x80000 });
    assert!(!cpu.mmu.sv39);
    assert_eq!(cpu.mmu.asid, 0);
    assert_eq!(cpu.mmu.ppn, 0);
    // a satp write that asks for a mode the hart does not have halts it
    assert_eq!(cpu.set_csr(0x180, 9u64 << 60), Err(Halt::UnsupportedMemMode(9)));
    assert!(!cpu.mmu.sv39);
}

#[test]
fn the_all_zero_word_halts() {
    let ms = build_matchers();
    assert!(!ms.has_match(0));
    let (mut cpu, mut ms) = machine(&[0x00000000]);
    assert_eq!(cpu.try_step(&mut ms), Err(Halt::UnknownInstruction(0)));
    assert_eq!(cpu.pc(), 0x1000);
}
