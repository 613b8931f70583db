# risk5

A RISC-V (RV64IMA, machine and supervisor mode, Sv39) hart, verified with Verus.

`src/` is the library; every function in it carries a contract that Verus proves:

- `bitfield`, `itypes`, `insn`: bit fields of registers and instruction words.
- `regs`, `csrs`: the integer registers and the control and status registers.
- `memory`: byte-addressed memories (`BlockMemory`, `ByteMap`).
- `mmu`: Sv39 address translation in front of a memory.
- `insns`: the instructions, each with the state change it makes.
- `matcher`: the decode table, its cache, and `Processor::step`.
- `loader`: ELF loading (through the `elf` crate) and the reset vector.
- `logrunner`: checking the hart against traces of another emulator.

`app/` is the program around it: file and terminal I/O, the serialised trace
formats, and the logger. `tests/` exercises the library.
