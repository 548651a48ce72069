# rustx86_core

The core of an x86 PC: a processor from the 8086 to the Pentium III generation,
memory with paging, firmware services, and the start of a Linux kernel. It is written
in Verus; every executable function has a contract that is proved.

## How it is stated

`machine::Machine` is the machine that runs. Its view is `machine::State`, and what an
instruction does is a function from states to states (`State::step`,
`State::step_cached`). Functions that change a machine say that the view afterwards is
that function of the view before. A step that the machine cannot take (a gate that is
not there, a descriptor beyond its table) has no next state: the function is `None`
there, and the executable function asks that it is not.

## Layout

- `src/machine.rs` - memory, paging, ports, and what is saved to take an instruction back
- `src/walk.rs` - the accessed and dirty bits that page walks raise
- `src/cpu/` - the instruction set; `cpu/dcache/` is the cache of decoded instructions
  and the vocabulary for a code generator
- `src/bios/` - the firmware: keyboard, screen, disk
- `src/boot/` - disks, ROMs and kernels: where they go and how they start
- `src/text.rs` - the messages for what stopped the machine or kept it from starting
- `src/bus/`, `src/disk.rs` - address decoding, devices, sectors
- `app/` - the floating-point unit and the hooks of a code generator
- `tests/` - the library on concrete values

## What is proved beyond the contracts

Public proof functions whose names begin with `law_` state what holds of the library as
a whole. Among them:

- the cache does what the interpreter does, instruction by instruction
  (`cpu::dcache::agreement`), and stays in agreement with memory whatever is executed
  (`cpu::dcache::coherence`)
- an instruction that faults can be taken back (`cpu::dcache::coherence`, `reach`)
- an interrupt and the return from it, in real mode, within a ring and between rings
  (`cpu::interrupt`, `cpu::rings`)
- fills, copies and what a page fault leaves of them (`cpu::repeat`), done page by page
  with the same result (`cpu::bulk`)
- the page tables say what was accessed and written before the next cached instruction,
  and no translation changes by it (`walk`)
- what is written is read back, with or without paging (`machine`, `cpu::operand`)
- an access that a segment does not allow is noted and changes nothing, and a flat
  segment refuses none (`cpu::operand`)
- extended, double and single numbers and their conversions (`cpu::float`)
- what the screen, the keyboard and the disk services do to memory (`bios`)
- the state in which a kernel starts (`boot`)

Sums, products and functions of floating-point numbers are not computed by the library:
it puts a `FloatRequest` together, and takes the answer.
