//! The mathematical model of the processor: what each instruction, one
//! cycle and a whole run do to the machine state, and the laws that hold of
//! them.

use vstd::prelude::*;
use crate::addressing::{effective_address, operand_len, wrap16, wrap8, AddressingMode};
use crate::cpu::{Instruction, RunState};
use crate::error::CpuError;
use crate::memory::{lemma_word_round_trip, next_addr, store_word, word_at};

verus! {

/// The state of a processor as a mathematical value.
pub struct Machine {
    /// The accumulator.
    pub a: u8,
    /// Index register X.
    pub x: u8,
    /// Index register Y.
    pub y: u8,
    /// The flag word.
    pub status: u8,
    /// The program counter.
    pub pc: u16,
    /// The cells of memory, by address.
    pub mem: Seq<u8>,
}

impl Machine {
    /// Whether the memory has one cell for each 16-bit address, as that of
    /// every processor has.
    pub open spec fn wf(self) -> bool {
        self.mem.len() == 65536
    }
}

/// The status word after a flag-affecting instruction produced `result`:
/// the zero bit says whether `result` is zero, the negative bit is bit 7 of
/// `result`, and the six other bits are those of `status`.
pub open spec fn flags_after(status: u8, result: u8) -> u8 {
    (status & 0b0111_1101u8) | (if result == 0 { 0b0000_0010u8 } else { 0u8 }) | (result
        & 0b1000_0000u8)
}

/// The instruction that an opcode byte stands for, if it has a handler.
pub open spec fn decode_spec(opcode: u8) -> Option<Instruction> {
    if opcode == 0x00 {
        Some(Instruction::Brk)
    } else if opcode == 0xAA {
        Some(Instruction::Tax)
    } else if opcode == 0xE8 {
        Some(Instruction::Inx)
    } else if opcode == 0xA9 {
        Some(Instruction::Lda(AddressingMode::Immediate))
    } else if opcode == 0xA5 {
        Some(Instruction::Lda(AddressingMode::ZeroPage))
    } else if opcode == 0xAD {
        Some(Instruction::Lda(AddressingMode::Absolute))
    } else if opcode == 0x85 {
        Some(Instruction::Sta(AddressingMode::ZeroPage))
    } else if opcode == 0x95 {
        Some(Instruction::Sta(AddressingMode::ZeroPage_X))
    } else {
        None
    }
}

/// The machine after a load-accumulator instruction with an operand in
/// `mode`, whose operand bytes start at the program counter.
pub open spec fn after_load(m: Machine, mode: AddressingMode) -> Machine {
    match effective_address(mode, m.mem, m.x, m.y, m.pc) {
        Some(addr) => Machine {
            a: m.mem[addr as int],
            status: flags_after(m.status, m.mem[addr as int]),
            pc: wrap16(m.pc, operand_len(mode)),
            ..m
        },
        None => m,
    }
}

/// The machine after a store-accumulator instruction with an operand in
/// `mode`, whose operand bytes start at the program counter.
pub open spec fn after_store(m: Machine, mode: AddressingMode) -> Machine {
    match effective_address(mode, m.mem, m.x, m.y, m.pc) {
        Some(addr) => Machine {
            mem: m.mem.update(addr as int, m.a),
            pc: wrap16(m.pc, operand_len(mode)),
            ..m
        },
        None => m,
    }
}

/// The machine after the accumulator was copied to X.
pub open spec fn after_tax(m: Machine) -> Machine {
    Machine { x: m.a, status: flags_after(m.status, m.a), ..m }
}

/// The machine after X was incremented modulo 256.
pub open spec fn after_inx(m: Machine) -> Machine {
    Machine { x: wrap8(m.x, 1), status: flags_after(m.status, wrap8(m.x, 1)), ..m }
}

/// The machine after its program counter moved past the byte it points at.
pub open spec fn fetched(m: Machine) -> Machine {
    Machine { pc: next_addr(m.pc), ..m }
}

/// The byte that the next fetch reads.
pub open spec fn opcode_at(m: Machine) -> u8 {
    m.mem[m.pc as int]
}

/// The machine after one fetch-decode-execute cycle. The operand address is
/// computed from the program counter as it stands after the opcode fetch,
/// and the counter moves past the operand bytes once the instruction has
/// taken effect. A halt instruction and a byte without a handler change
/// nothing but the program counter, which has moved past the byte.
pub open spec fn next(m: Machine) -> Machine {
    match decode_spec(opcode_at(m)) {
        Some(Instruction::Tax) => after_tax(fetched(m)),
        Some(Instruction::Inx) => after_inx(fetched(m)),
        Some(Instruction::Lda(mode)) => after_load(fetched(m), mode),
        Some(Instruction::Sta(mode)) => after_store(fetched(m), mode),
        Some(Instruction::Brk) | None => fetched(m),
    }
}

/// What one cycle reports for the opcode it fetched.
pub open spec fn outcome(opcode: u8) -> Result<RunState, CpuError> {
    match decode_spec(opcode) {
        Some(Instruction::Brk) => Ok(RunState::Halted),
        Some(_) => Ok(RunState::Running),
        None => Err(CpuError::UnsupportedOpcode(opcode)),
    }
}

/// Whether the dispatch loop ends with the next cycle: the machine points at
/// a halt instruction or at a byte without a handler.
pub open spec fn stops(m: Machine) -> bool {
    outcome(opcode_at(m)) != Ok::<RunState, CpuError>(RunState::Running)
}

/// Whether the machine reaches a stopping point in at most `n` cycles.
pub open spec fn stops_within(m: Machine, n: nat) -> bool
    decreases n,
{
    stops(m) || (n > 0 && stops_within(next(m), (n - 1) as nat))
}

/// Whether the dispatch loop comes to an end when started on `m`.
pub open spec fn terminates(m: Machine) -> bool {
    exists|n: nat| stops_within(m, n)
}

/// The machine after at most `n` cycles, none of them taken from a
/// stopping point.
pub open spec fn advance(m: Machine, n: nat) -> Machine
    decreases n,
{
    if n == 0 || stops(m) {
        m
    } else {
        advance(next(m), (n - 1) as nat)
    }
}

/// The first stopping point that the machine reaches from `m`, meaningful
/// where `terminates(m)`.
pub open spec fn stop_state(m: Machine) -> Machine {
    advance(m, choose|n: nat| stops_within(m, n))
}

/// What the dispatch loop reports when it ends on `opcode`.
pub open spec fn run_result(opcode: u8) -> Result<(), CpuError> {
    match outcome(opcode) {
        Ok(_) => Ok(()),
        Err(e) => Err(e),
    }
}

/// `cells` with `program` copied to the addresses from `0x8000` on.
pub open spec fn image_written(cells: Seq<u8>, program: Seq<u8>) -> Seq<u8> {
    Seq::new(
        cells.len(),
        |i: int|
            if 0x8000 <= i < 0x8000 + program.len() {
                program[i - 0x8000]
            } else {
                cells[i]
            },
    )
}

/// The machine after `program` was loaded: the image stands at `0x8000` and
/// the reset vector, written after it, holds `0x8000`. Registers are as
/// before.
pub open spec fn load_spec(m: Machine, program: Seq<u8>) -> Machine {
    Machine { mem: store_word(image_written(m.mem, program), 0xFFFC, 0x8000), ..m }
}

/// The machine after a reset: accumulator, X and status are zero and the
/// program counter is the reset vector. Y and memory are as before.
pub open spec fn reset_spec(m: Machine) -> Machine {
    Machine { a: 0, x: 0, status: 0, pc: word_at(m.mem, 0xFFFC), ..m }
}

/// With enough cycles allowed, the machine arrives at a stopping point.
pub proof fn lemma_advance_stops(m: Machine, n: nat)
    requires
        stops_within(m, n),
    ensures
        stops(advance(m, n)),
    decreases n,
{
    if !stops(m) {
        lemma_advance_stops(next(m), (n - 1) as nat);
    }
}

/// The stopping point does not depend on how many cycles are allowed, as
/// long as they suffice.
pub proof fn lemma_advance_unique(m: Machine, a: nat, b: nat)
    requires
        stops_within(m, a),
        stops_within(m, b),
    ensures
        advance(m, a) == advance(m, b),
    decreases a,
{
    if !stops(m) {
        lemma_advance_unique(next(m), (a - 1) as nat, (b - 1) as nat);
    }
}

/// A machine at a stopping point is its own stopping point; any other
/// machine that terminates shares the stopping point of its successor,
/// which terminates too. The stopping point is one.
pub proof fn lemma_stop_state_unfold(m: Machine)
    requires
        terminates(m),
    ensures
        stops(stop_state(m)),
        stops(m) ==> stop_state(m) == m,
        !stops(m) ==> terminates(next(m)) && stop_state(next(m)) == stop_state(m),
{
    let n = choose|n: nat| stops_within(m, n);
    lemma_advance_stops(m, n);
    if !stops(m) {
        assert(stops_within(next(m), (n - 1) as nat));
        let k = choose|k: nat| stops_within(next(m), k);
        lemma_advance_unique(next(m), k, (n - 1) as nat);
    }
}

/// A machine whose successor terminates, or which stands at a stopping
/// point, terminates.
pub proof fn lemma_terminates_fold(m: Machine)
    requires
        stops(m) || terminates(next(m)),
    ensures
        terminates(m),
{
    if stops(m) {
        assert(stops_within(m, 0));
    } else {
        let k = choose|k: nat| stops_within(next(m), k);
        assert(stops_within(m, k + 1));
    }
}

/// If the machine stops within `a` cycles, it stops within any larger
/// number of them.
pub proof fn lemma_stops_within_monotonic(m: Machine, a: nat, b: nat)
    requires
        stops_within(m, a),
        a <= b,
    ensures
        stops_within(m, b),
    decreases a,
{
    if !stops(m) {
        lemma_stops_within_monotonic(next(m), (a - 1) as nat, (b - 1) as nat);
    }
}

/// Where the machine terminates, allowing it enough cycles takes it to its
/// stopping point.
pub proof fn lemma_advance_reaches_stop_state(m: Machine, n: nat)
    requires
        stops_within(m, n),
    ensures
        terminates(m),
        advance(m, n) == stop_state(m),
{
    lemma_advance_unique(m, n, choose|k: nat| stops_within(m, k));
}

/// Where none of the first `n` cycles starts at a stopping point, the
/// machine stops within `n` cycles exactly if it stands at a stopping point
/// after them, and allowing one more cycle takes it one cycle further unless
/// it stands at one.
pub proof fn lemma_advance_one_more(m: Machine, n: nat)
    requires
        n == 0 || !stops_within(m, (n - 1) as nat),
    ensures
        stops_within(m, n) <==> stops(advance(m, n)),
        advance(m, n + 1) == (if stops(advance(m, n)) {
            advance(m, n)
        } else {
            next(advance(m, n))
        }),
    decreases n,
{
    reveal_with_fuel(advance, 2);
    if n > 0 {
        assert(!stops(m));
        if n > 1 {
            assert(!stops_within(next(m), (n - 2) as nat));
        }
        lemma_advance_one_more(next(m), (n - 1) as nat);
    }
}

/// Setting the flags leaves the six reserved bits of the status word as
/// they were.
pub proof fn lemma_flags_keep_reserved_bits(status: u8, result: u8)
    ensures
        flags_after(status, result) & 0b0111_1101u8 == status & 0b0111_1101u8,
{
    assert(((status & 0b0111_1101u8) | (if result == 0 {
        0b0000_0010u8
    } else {
        0u8
    }) | (result & 0b1000_0000u8)) & 0b0111_1101u8 == status & 0b0111_1101u8) by (bit_vector);
}

/// No cycle asserts or clears a reserved bit of the status word.
pub proof fn lemma_next_keeps_reserved_bits(m: Machine)
    ensures
        next(m).status & 0b0111_1101u8 == m.status & 0b0111_1101u8,
{
    lemma_flags_keep_reserved_bits(m.status, m.a);
    lemma_flags_keep_reserved_bits(m.status, wrap8(m.x, 1));
    match decode_spec(opcode_at(m)) {
        Some(Instruction::Lda(mode)) => {
            match effective_address(mode, m.mem, m.x, m.y, next_addr(m.pc)) {
                Some(addr) => {
                    lemma_flags_keep_reserved_bits(m.status, m.mem[addr as int]);
                },
                None => {},
            }
        },
        _ => {},
    }
}

/// However long the machine runs, the reserved bits of the status word stay
/// as they were.
pub proof fn lemma_advance_keeps_reserved_bits(m: Machine, n: nat)
    ensures
        advance(m, n).status & 0b0111_1101u8 == m.status & 0b0111_1101u8,
    decreases n,
{
    if n > 0 && !stops(m) {
        lemma_next_keeps_reserved_bits(m);
        lemma_advance_keeps_reserved_bits(next(m), (n - 1) as nat);
    }
}

/// After a load the reset vector holds `0x8000`. Every cell but the two of
/// the reset vector holds the byte of the image that belongs there, or,
/// outside the image, what it held before.
pub proof fn lemma_load_layout(m: Machine, program: Seq<u8>, addr: u16)
    requires
        m.wf(),
        program.len() <= 0x8000,
    ensures
        load_spec(m, program).wf(),
        word_at(load_spec(m, program).mem, 0xFFFC) == 0x8000,
        addr != 0xFFFC && addr != 0xFFFD ==> load_spec(m, program).mem[addr as int] == (if 0x8000
            <= addr < 0x8000 + program.len() {
            program[addr - 0x8000]
        } else {
            m.mem[addr as int]
        }),
{
    lemma_word_round_trip(image_written(m.mem, program), 0xFFFC, 0x8000);
}

/// Loading a program and then resetting always leaves the program counter
/// at `0x8000`, with accumulator, X and status zero.
pub proof fn lemma_load_then_reset(m: Machine, program: Seq<u8>)
    requires
        m.wf(),
    ensures
        reset_spec(load_spec(m, program)).pc == 0x8000,
        reset_spec(load_spec(m, program)).a == 0,
        reset_spec(load_spec(m, program)).x == 0,
        reset_spec(load_spec(m, program)).status == 0,
        reset_spec(load_spec(m, program)).y == m.y,
        reset_spec(load_spec(m, program)).mem == load_spec(m, program).mem,
{
    lemma_word_round_trip(image_written(m.mem, program), 0xFFFC, 0x8000);
}

/// Increment-X wraps modulo 256: from `0xFF` it gives zero, and a second
/// increment gives one. The zero flag is set by exactly the increment that
/// wraps.
pub proof fn lemma_inx_wraps(m: Machine)
    ensures
        after_inx(m).x == (if m.x == 0xFF { 0 } else { m.x + 1 }),
        (after_inx(m).status & 0b0000_0010u8 != 0) <==> m.x == 0xFF,
        after_inx(after_inx(m)).x == (m.x + 2) % 256,
        m.x == 0xFF ==> after_inx(after_inx(m)).x == 1 && after_inx(after_inx(m)).status
            & 0b0000_0010u8 == 0,
{
    let s0 = m.status;
    let v1 = wrap8(m.x, 1);
    let s1 = flags_after(s0, v1);
    let v2 = wrap8(v1, 1);
    assert((((s0 & 0b0111_1101u8) | (if v1 == 0 {
        0b0000_0010u8
    } else {
        0u8
    }) | (v1 & 0b1000_0000u8)) & 0b0000_0010u8 != 0) <==> v1 == 0) by (bit_vector);
    assert((((s1 & 0b0111_1101u8) | (if v2 == 0 {
        0b0000_0010u8
    } else {
        0u8
    }) | (v2 & 0b1000_0000u8)) & 0b0000_0010u8 != 0) <==> v2 == 0) by (bit_vector);
}

/// One cycle leaves the memory with one cell for each address.
pub proof fn lemma_next_wf(m: Machine)
    requires
        m.wf(),
    ensures
        next(m).wf(),
{
}

/// How the interpretation of a bare byte sequence ends.
pub enum Interpreted {
    /// A halt instruction was fetched; the machine is as it was then.
    Halted(Machine),
    /// A byte without a handler was fetched; the machine is as it was then.
    Unsupported(u8, Machine),
    /// A fetch went beyond the sequence, or beyond what the program counter
    /// can address.
    Overrun,
}

/// Whether the byte at `pc` of `program` can be fetched and the program
/// counter moved past it.
pub open spec fn fetchable(program: Seq<u8>, pc: u16) -> bool {
    pc < program.len() && pc < 0xFFFF
}

/// Interpretation of `program` as a bare instruction stream, from the
/// program counter of `m` on. The program counter indexes `program`; memory
/// takes no part. Four instructions have a handler here: halt,
/// transfer-accumulator-to-X, increment-X, and load-accumulator with the
/// literal that follows the opcode.
pub open spec fn interpret_from(m: Machine, program: Seq<u8>) -> Interpreted
    decreases 0x10000 - m.pc,
{
    if !fetchable(program, m.pc) {
        Interpreted::Overrun
    } else {
        let opcode = program[m.pc as int];
        let f = Machine { pc: (m.pc + 1) as u16, ..m };
        if opcode == 0xA9 {
            if !fetchable(program, f.pc) {
                Interpreted::Overrun
            } else {
                let value = program[f.pc as int];
                interpret_from(
                    Machine {
                        a: value,
                        status: flags_after(f.status, value),
                        pc: (f.pc + 1) as u16,
                        ..f
                    },
                    program,
                )
            }
        } else if opcode == 0xAA {
            interpret_from(after_tax(f), program)
        } else if opcode == 0xE8 {
            interpret_from(after_inx(f), program)
        } else if opcode == 0x00 {
            Interpreted::Halted(f)
        } else {
            Interpreted::Unsupported(opcode, f)
        }
    }
}

/// The machine with its program counter at zero.
pub open spec fn rewound(m: Machine) -> Machine {
    Machine { pc: 0, ..m }
}

} // verus!
