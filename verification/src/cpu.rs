//! Processor state, the instruction handlers and the dispatch loop.

use vstd::prelude::*;
use crate::addressing::{operand_bytes, resolve};
pub use crate::addressing::AddressingMode;
pub use crate::error::CpuError;
use crate::machine::{
    advance, after_inx, after_load, after_store, after_tax, decode_spec, fetchable, flags_after,
    image_written, interpret_from, lemma_advance_one_more, lemma_advance_unique,
    lemma_stop_state_unfold, lemma_stops_within_monotonic, load_spec, next, opcode_at, outcome,
    reset_spec, rewound, run_result, stop_state, stops_within, terminates, Interpreted, Machine,
};
use crate::memory::{store_word, word_at, Memory};

verus! {

/// Opcode of load-accumulator with an immediate operand.
pub const LDA: u8 = 0xA9;

/// Opcode of transfer-accumulator-to-X.
pub const TAX: u8 = 0xAA;

/// Opcode of increment-X.
pub const INX: u8 = 0xE8;

/// Opcode of break, which halts execution.
pub const BRK: u8 = 0x00;

/// Address at which a program image is placed.
pub const PROGRAM_ORIGIN: u16 = 0x8000;

/// Address of the little-endian reset vector.
pub const RESET_VECTOR: u16 = 0xFFFC;

/// The processor: registers, status word, program counter and memory.
pub struct CPU {
    /// The accumulator.
    pub register_a: u8,
    /// Index register X.
    pub register_x: u8,
    /// Index register Y.
    pub register_y: u8,
    /// The flag word: bit 1 is the zero flag, bit 7 the negative flag; the
    /// other bits are reserved.
    pub status: u8,
    /// Address of the next byte to fetch.
    pub program_counter: u16,
    /// The address space.
    pub memory: Memory,
}

impl View for CPU {
    type V = Machine;

    open spec fn view(&self) -> Machine {
        Machine {
            a: self.register_a,
            x: self.register_x,
            y: self.register_y,
            status: self.status,
            pc: self.program_counter,
            mem: self.memory@,
        }
    }
}

/// Whether the dispatch loop goes on after an instruction.
#[derive(Debug, Clone, Copy, PartialEq, Eq, Structural)]
pub enum RunState {
    Running,
    Halted,
}

/// The instructions that have a handler, each with the addressing mode of
/// its operand where it has one.
#[derive(Debug, Clone, Copy, PartialEq, Eq, Structural)]
pub enum Instruction {
    Brk,
    Tax,
    Inx,
    Lda(AddressingMode),
    Sta(AddressingMode),
}

/// The instruction that an opcode byte stands for, or `None` for a byte
/// without a handler.
pub fn decode(opcode: u8) -> (r: Option<Instruction>)
    ensures
        r == decode_spec(opcode),
{
    match opcode {
        0x00 => Some(Instruction::Brk),
        0xAA => Some(Instruction::Tax),
        0xE8 => Some(Instruction::Inx),
        0xA9 => Some(Instruction::Lda(AddressingMode::Immediate)),
        0xA5 => Some(Instruction::Lda(AddressingMode::ZeroPage)),
        0xAD => Some(Instruction::Lda(AddressingMode::Absolute)),
        0x85 => Some(Instruction::Sta(AddressingMode::ZeroPage)),
        0x95 => Some(Instruction::Sta(AddressingMode::ZeroPage_X)),
        _ => None,
    }
}

impl CPU {
    /// A processor with every register, the status word, the program counter
    /// and all of memory zero.
    pub fn new() -> (r: Self)
        ensures
            r.register_a == 0,
            r.register_x == 0,
            r.register_y == 0,
            r.status == 0,
            r.program_counter == 0,
            r.memory@.len() == 65536,
            forall|i: int| 0 <= i < 65536 ==> r.memory@[i] == 0u8,
    {
        CPU {
            register_a: 0,
            register_x: 0,
            register_y: 0,
            status: 0,
            program_counter: 0,
            memory: Memory::new(),
        }
    }

    /// The memory of a processor has one cell for each 16-bit address.
    pub proof fn lemma_wf(&self)
        ensures
            self@.wf(),
    {
        self.memory.lemma_len();
    }

    /// The byte at `addr`.
    pub fn mem_read(&self, addr: u16) -> (r: u8)
        ensures
            r == self@.mem[addr as int],
    {
        self.memory.read(addr)
    }

    /// Stores `data` at `addr` and changes nothing else.
    pub fn mem_write(&mut self, addr: u16, data: u8)
        ensures
            final(self)@ == (Machine { mem: old(self)@.mem.update(addr as int, data), ..old(self)@ }),
    {
        self.memory.write(addr, data);
    }

    /// The little-endian word at `addr`.
    pub fn mem_read_u16(&self, addr: u16) -> (r: u16)
        ensures
            r == word_at(self@.mem, addr),
    {
        self.memory.read16(addr)
    }

    /// Stores `word` at `addr` in little-endian order and changes nothing
    /// else.
    pub fn mem_write_u16(&mut self, addr: u16, word: u16)
        ensures
            final(self)@ == (Machine { mem: store_word(old(self)@.mem, addr, word), ..old(self)@ }),
    {
        self.memory.write16(addr, word);
    }

    /// Sets the zero and negative bits of the status word from `result` and
    /// leaves every other bit, and all other state, as it was.
    pub fn update_zero_and_negative_flags(&mut self, result: u8)
        ensures
            (final(self).status & 0b0000_0010u8 != 0) <==> result == 0,
            (final(self).status & 0b1000_0000u8 != 0) <==> (result & 0b1000_0000u8 != 0),
            final(self).status & 0b0111_1101u8 == old(self).status & 0b0111_1101u8,
            final(self)@ == (Machine { status: flags_after(old(self).status, result), ..old(self)@ }),
    {
        let before: u8 = self.status;
        let with_zero: u8 = if result == 0 {
            before | 0b0000_0010
        } else {
            before & 0b1111_1101
        };
        let after: u8 = if result & 0b1000_0000 != 0 {
            with_zero | 0b1000_0000
        } else {
            with_zero & 0b0111_1111
        };
        assert(after == (before & 0b0111_1101u8) | (if result == 0 {
            0b0000_0010u8
        } else {
            0u8
        }) | (result & 0b1000_0000u8)) by (bit_vector)
            requires
                with_zero == (if result == 0 {
                    before | 0b0000_0010u8
                } else {
                    before & 0b1111_1101u8
                }),
                after == (if result & 0b1000_0000u8 != 0 {
                    with_zero | 0b1000_0000u8
                } else {
                    with_zero & 0b0111_1111u8
                }),
        ;
        assert(((after & 0b0000_0010u8 != 0) <==> result == 0) && ((after & 0b1000_0000u8 != 0) <==> (
        result & 0b1000_0000u8 != 0)) && after & 0b0111_1101u8 == before & 0b0111_1101u8)
            by (bit_vector)
            requires
                after == (before & 0b0111_1101u8) | (if result == 0 {
                    0b0000_0010u8
                } else {
                    0u8
                }) | (result & 0b1000_0000u8),
        ;
        self.status = after;
    }
    /// Copies the accumulator to X and sets the flags from it.
    pub fn tax(&mut self)
        ensures
            final(self)@ == after_tax(old(self)@),
    {
        self.register_x = self.register_a;
        self.update_zero_and_negative_flags(self.register_x);
    }

    /// Increments X modulo 256 and sets the flags from it.
    pub fn inx(&mut self)
        ensures
            final(self)@ == after_inx(old(self)@),
    {
        self.register_x = self.register_x.wrapping_add(1);
        self.update_zero_and_negative_flags(self.register_x);
    }

    /// Loads the accumulator from the operand in `mode` whose bytes start at
    /// the program counter, sets the flags from it and moves the program
    /// counter past the operand bytes. Fails, changing nothing, exactly when
    /// `mode` has no memory operand.
    pub fn lda(&mut self, mode: AddressingMode) -> (r: Result<(), CpuError>)
        ensures
            mode != AddressingMode::NoneAddressing ==> r == Ok::<(), CpuError>(()) && final(self)@
                == after_load(old(self)@, mode),
            mode == AddressingMode::NoneAddressing ==> r == Err::<(), CpuError>(
                CpuError::InvalidAddressingMode,
            ) && final(self)@ == old(self)@,
    {
        match resolve(mode, self.program_counter, &self.memory, self.register_x, self.register_y) {
            Ok(addr) => {
                let value: u8 = self.memory.read(addr);
                self.register_a = value;
                self.update_zero_and_negative_flags(value);
                self.program_counter = self.program_counter.wrapping_add(operand_bytes(mode));
                Ok(())
            },
            Err(e) => Err(e),
        }
    }

    /// Stores the accumulator at the operand in `mode` whose bytes start at
    /// the program counter and moves the program counter past the operand
    /// bytes. Fails, changing nothing, exactly when `mode` has no memory
    /// operand.
    pub fn sta(&mut self, mode: AddressingMode) -> (r: Result<(), CpuError>)
        ensures
            mode != AddressingMode::NoneAddressing ==> r == Ok::<(), CpuError>(()) && final(self)@
                == after_store(old(self)@, mode),
            mode == AddressingMode::NoneAddressing ==> r == Err::<(), CpuError>(
                CpuError::InvalidAddressingMode,
            ) && final(self)@ == old(self)@,
    {
        match resolve(mode, self.program_counter, &self.memory, self.register_x, self.register_y) {
            Ok(addr) => {
                self.memory.write(addr, self.register_a);
                self.program_counter = self.program_counter.wrapping_add(operand_bytes(mode));
                Ok(())
            },
            Err(e) => Err(e),
        }
    }

    /// One fetch-decode-execute cycle: reads the opcode at the program
    /// counter, moves the counter past it and runs the handler. Reports
    /// `Halted` for a halt instruction, `Running` for any other instruction
    /// with a handler, and `UnsupportedOpcode` for every other byte.
    pub fn step(&mut self) -> (r: Result<RunState, CpuError>)
        ensures
            final(self)@ == next(old(self)@),
            r == outcome(opcode_at(old(self)@)),
    {
        let opcode: u8 = self.memory.read(self.program_counter);
        self.program_counter = self.program_counter.wrapping_add(1);
        match decode(opcode) {
            Some(Instruction::Brk) => Ok(RunState::Halted),
            Some(Instruction::Tax) => {
                self.tax();
                Ok(RunState::Running)
            },
            Some(Instruction::Inx) => {
                self.inx();
                Ok(RunState::Running)
            },
            Some(Instruction::Lda(mode)) => match self.lda(mode) {
                Ok(()) => Ok(RunState::Running),
                Err(e) => Err(e),
            },
            Some(Instruction::Sta(mode)) => match self.sta(mode) {
                Ok(()) => Ok(RunState::Running),
                Err(e) => Err(e),
            },
            None => Err(CpuError::UnsupportedOpcode(opcode)),
        }
    }

    /// Runs the dispatch loop from the current program counter until a halt
    /// instruction or a byte without a handler is fetched. The state is then
    /// that of the first stopping point with the program counter moved past
    /// the byte that stopped the loop; the result is `Ok` for a halt
    /// instruction and `UnsupportedOpcode` with the byte otherwise.
    ///
    /// The loop has no other way to end, so the caller has to start it on a
    /// machine that reaches a stopping point.
    pub fn run(&mut self) -> (r: Result<(), CpuError>)
        requires
            terminates(old(self)@),
        ensures
            final(self)@ == next(stop_state(old(self)@)),
            r == run_result(opcode_at(stop_state(old(self)@))),
    {
        let ghost start = self@;
        let ghost mut fuel: nat = choose|n: nat| stops_within(self@, n);
        loop
            invariant
                start == old(self)@,
                stops_within(self@, fuel),
                terminates(self@),
                stop_state(self@) == stop_state(start),
            decreases fuel,
        {
            let ghost before = self@;
            proof {
                lemma_stop_state_unfold(before);
            }
            match self.step() {
                Ok(RunState::Running) => {
                    proof {
                        fuel = (fuel - 1) as nat;
                    }
                },
                Ok(RunState::Halted) => {
                    return Ok(());
                },
                Err(e) => {
                    return Err(e);
                },
            }
        }
    }

    /// Runs the dispatch loop for at most `max_cycles` cycles, for callers
    /// that cannot tell beforehand whether the loop ends. Where a halt
    /// instruction or a byte without a handler is fetched in one of these
    /// cycles, the result and the state are those of `run`; otherwise the
    /// result is `Running` and the state is that after `max_cycles` cycles.
    pub fn run_bounded(&mut self, max_cycles: u64) -> (r: Result<RunState, CpuError>)
        ensures
            max_cycles > 0 && stops_within(old(self)@, (max_cycles - 1) as nat) ==> final(self)@
                == next(advance(old(self)@, (max_cycles - 1) as nat)) && r == outcome(
                opcode_at(advance(old(self)@, (max_cycles - 1) as nat)),
            ),
            !(max_cycles > 0 && stops_within(old(self)@, (max_cycles - 1) as nat)) ==> final(self)@
                == advance(old(self)@, max_cycles as nat) && r == Ok::<RunState, CpuError>(
                RunState::Running,
            ),
    {
        let ghost start = self@;
        let mut done: u64 = 0;
        while done < max_cycles
            invariant
                start == old(self)@,
                done <= max_cycles,
                done == 0 || !stops_within(start, (done - 1) as nat),
                self@ == advance(start, done as nat),
            decreases max_cycles - done,
        {
            proof {
                lemma_advance_one_more(start, done as nat);
            }
            match self.step() {
                Ok(RunState::Running) => {
                    done = done + 1;
                },
                stopped => {
                    proof {
                        lemma_stops_within_monotonic(start, done as nat, (max_cycles - 1) as nat);
                        lemma_advance_unique(start, done as nat, (max_cycles - 1) as nat);
                    }
                    return stopped;
                },
            }
        }
        Ok(RunState::Running)
    }

    /// Copies `program` to memory from `0x8000` on and then writes `0x8000`
    /// as the reset vector at `0xFFFC`. Registers are not touched. The image
    /// has to fit between its origin and the top of the address space.
    pub fn load(&mut self, program: Vec<u8>)
        requires
            program.len() <= 0x8000,
        ensures
            final(self)@ == load_spec(old(self)@, program@),
    {
        let ghost start = self@;
        proof {
            self.memory.lemma_len();
        }
        let mut i: usize = 0;
        while i < program.len()
            invariant
                i <= program.len() <= 0x8000,
                self@.mem.len() == 65536,
                self@ == (Machine { mem: self@.mem, ..start }),
                forall|j: int|
                    0 <= j < 65536 ==> self@.mem[j] == (if 0x8000 <= j < 0x8000 + i {
                        program@[j - 0x8000]
                    } else {
                        start.mem[j]
                    }),
            decreases program.len() - i,
        {
            self.memory.write((0x8000 + i) as u16, program[i]);
            i = i + 1;
        }
        assert(self@.mem =~= image_written(start.mem, program@));
        self.memory.write16(RESET_VECTOR, PROGRAM_ORIGIN);
    }

    /// Zeroes the accumulator, X and the status word and sets the program
    /// counter from the reset vector. Y and memory are not touched.
    pub fn reset(&mut self)
        ensures
            final(self)@ == reset_spec(old(self)@),
    {
        self.register_a = 0;
        self.register_x = 0;
        self.status = 0;
        self.program_counter = self.memory.read16(RESET_VECTOR);
    }

    /// Loads `program`, resets the processor and runs the dispatch loop.
    pub fn load_and_run(&mut self, program: Vec<u8>) -> (r: Result<(), CpuError>)
        requires
            program.len() <= 0x8000,
            terminates(reset_spec(load_spec(old(self)@, program@))),
        ensures
            final(self)@ == next(stop_state(reset_spec(load_spec(old(self)@, program@)))),
            r == run_result(opcode_at(stop_state(reset_spec(load_spec(old(self)@, program@))))),
    {
        self.load(program);
        self.reset();
        self.run()
    }

    /// Fetches the byte of `program` at the program counter and moves the
    /// counter past it.
    pub fn get_next_op(&mut self, program: &Vec<u8>) -> (r: u8)
        requires
            fetchable(program@, old(self).program_counter),
        ensures
            r == program@[old(self).program_counter as int],
            final(self)@ == (Machine { pc: (old(self)@.pc + 1) as u16, ..old(self)@ }),
    {
        let opcode: u8 = program[self.program_counter as usize];
        self.program_counter = self.program_counter + 1;
        opcode
    }

    /// Interprets `program` as a bare instruction stream, starting at its
    /// first byte: the program counter indexes `program`, and memory and Y
    /// take no part. Ends with `Ok` at a halt instruction and with
    /// `UnsupportedOpcode` at a byte without a handler, in either case with
    /// the program counter just past that byte.
    ///
    /// The stream has to reach one of the two before a fetch goes beyond
    /// its end.
    pub fn interpret(&mut self, program: Vec<u8>) -> (r: Result<(), CpuError>)
        requires
            interpret_from(rewound(old(self)@), program@) != Interpreted::Overrun,
        ensures
            match interpret_from(rewound(old(self)@), program@) {
                Interpreted::Halted(m) => r == Ok::<(), CpuError>(()) && final(self)@ == m,
                Interpreted::Unsupported(opcode, m) => r == Err::<(), CpuError>(
                    CpuError::UnsupportedOpcode(opcode),
                ) && final(self)@ == m,
                Interpreted::Overrun => false,
            },
    {
        self.program_counter = 0;
        let ghost start = self@;
        loop
            invariant
                start == rewound(old(self)@),
                interpret_from(self@, program@) == interpret_from(start, program@),
                interpret_from(start, program@) != Interpreted::Overrun,
            decreases 0x10000 - self.program_counter,
        {
            let opcode: u8 = self.get_next_op(&program);
            match opcode {
                LDA => {
                    self.register_a = self.get_next_op(&program);
                    self.update_zero_and_negative_flags(self.register_a);
                },
                TAX => {
                    self.tax();
                },
                INX => {
                    self.inx();
                },
                BRK => {
                    return Ok(());
                },
                _ => {
                    return Err(CpuError::UnsupportedOpcode(opcode));
                },
            }
        }
    }
}

} // verus!
