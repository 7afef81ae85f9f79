//! Addressing modes and the computation of effective addresses.

use vstd::prelude::*;
use crate::error::CpuError;
use crate::memory::{word_at, word_of, Memory};

verus! {

/// How an instruction's operand bytes map to the memory location it works on.
#[allow(non_camel_case_types)]
#[derive(Debug, Clone, Copy, PartialEq, Eq, Structural)]
pub enum AddressingMode {
    Immediate,
    ZeroPage,
    ZeroPage_X,
    ZeroPage_Y,
    Absolute,
    Absolute_X,
    Absolute_Y,
    Indirect_X,
    Indirect_Y,
    /// The instruction has no memory operand.
    NoneAddressing,
}

/// Sum of two bytes modulo 256.
pub open spec fn wrap8(a: u8, b: u8) -> u8 {
    ((a as int + b as int) % 256) as u8
}

/// Sum of a word and an offset modulo 65536.
pub open spec fn wrap16(a: u16, b: u16) -> u16 {
    ((a as int + b as int) % 65536) as u16
}

/// The effective address of an operand whose bytes start at
/// `program_counter`, or `None` for the mode that has no operand.
///
/// * `Immediate`: the operand is the literal at `program_counter`.
/// * `ZeroPage`: the byte at `program_counter`, zero-extended.
/// * `ZeroPage_X`, `ZeroPage_Y`: that byte plus the index register, modulo
///   256, so that the sum never leaves the zero page.
/// * `Absolute`: the little-endian word at `program_counter`.
/// * `Absolute_X`, `Absolute_Y`: that word plus the index register, modulo
///   65536.
/// * `Indirect_X`: the operand byte plus `x`, modulo 256, is a pointer into
///   the zero page; the address is the word whose low byte is at the pointer
///   and whose high byte is at the pointer plus one, modulo 256.
/// * `Indirect_Y`: the operand byte, zero-extended, is the address of a
///   little-endian word, whose high byte stands at the address that follows
///   (for the pointer `0xFF` that is `0x0100`); the result is that word plus
///   `y`, modulo 65536.
pub open spec fn effective_address(
    mode: AddressingMode,
    cells: Seq<u8>,
    x: u8,
    y: u8,
    program_counter: u16,
) -> Option<u16> {
    let operand = cells[program_counter as int];
    match mode {
        AddressingMode::Immediate => Some(program_counter),
        AddressingMode::ZeroPage => Some(operand as u16),
        AddressingMode::ZeroPage_X => Some(wrap8(operand, x) as u16),
        AddressingMode::ZeroPage_Y => Some(wrap8(operand, y) as u16),
        AddressingMode::Absolute => Some(word_at(cells, program_counter)),
        AddressingMode::Absolute_X => Some(wrap16(word_at(cells, program_counter), x as u16)),
        AddressingMode::Absolute_Y => Some(wrap16(word_at(cells, program_counter), y as u16)),
        AddressingMode::Indirect_X => {
            let pointer = wrap8(operand, x);
            Some(word_of(cells[pointer as int], cells[wrap8(pointer, 1) as int]))
        },
        AddressingMode::Indirect_Y => Some(wrap16(word_at(cells, operand as u16), y as u16)),
        AddressingMode::NoneAddressing => None,
    }
}

/// Number of operand bytes that follow the opcode of an instruction in this
/// mode.
pub open spec fn operand_len(mode: AddressingMode) -> u16 {
    match mode {
        AddressingMode::NoneAddressing => 0,
        AddressingMode::Absolute | AddressingMode::Absolute_X | AddressingMode::Absolute_Y => 2,
        _ => 1,
    }
}

/// Number of operand bytes that follow the opcode of an instruction in
/// `mode`.
pub fn operand_bytes(mode: AddressingMode) -> (r: u16)
    ensures
        r == operand_len(mode),
{
    match mode {
        AddressingMode::NoneAddressing => 0,
        AddressingMode::Absolute | AddressingMode::Absolute_X | AddressingMode::Absolute_Y => 2,
        _ => 1,
    }
}

/// Computes the effective address of the operand at `program_counter`.
/// Fails with `InvalidAddressingMode` exactly when `mode` has no memory
/// operand.
pub fn resolve(
    mode: AddressingMode,
    program_counter: u16,
    memory: &Memory,
    register_x: u8,
    register_y: u8,
) -> (r: Result<u16, CpuError>)
    ensures
        r == match effective_address(mode, memory@, register_x, register_y, program_counter) {
            Some(addr) => Ok::<u16, CpuError>(addr),
            None => Err::<u16, CpuError>(CpuError::InvalidAddressingMode),
        },
{
    match mode {
        AddressingMode::Immediate => Ok(program_counter),
        AddressingMode::ZeroPage => Ok(memory.read(program_counter) as u16),
        AddressingMode::ZeroPage_X => {
            let base: u8 = memory.read(program_counter);
            Ok(base.wrapping_add(register_x) as u16)
        },
        AddressingMode::ZeroPage_Y => {
            let base: u8 = memory.read(program_counter);
            Ok(base.wrapping_add(register_y) as u16)
        },
        AddressingMode::Absolute => Ok(memory.read16(program_counter)),
        AddressingMode::Absolute_X => {
            let base: u16 = memory.read16(program_counter);
            Ok(base.wrapping_add(register_x as u16))
        },
        AddressingMode::Absolute_Y => {
            let base: u16 = memory.read16(program_counter);
            Ok(base.wrapping_add(register_y as u16))
        },
        AddressingMode::Indirect_X => {
            let base: u8 = memory.read(program_counter);
            let pointer: u8 = base.wrapping_add(register_x);
            let lo: u8 = memory.read(pointer as u16);
            let hi: u8 = memory.read(pointer.wrapping_add(1) as u16);
            assert(((hi as u16) << 8) | (lo as u16) == (hi as u16) * 256 + (lo as u16))
                by (bit_vector);
            Ok(((hi as u16) << 8) | (lo as u16))
        },
        AddressingMode::Indirect_Y => {
            let pointer: u8 = memory.read(program_counter);
            let base: u16 = memory.read16(pointer as u16);
            Ok(base.wrapping_add(register_y as u16))
        },
        AddressingMode::NoneAddressing => Err(CpuError::InvalidAddressingMode),
    }
}

/// Zero-page indexed addressing never carries into the high byte: whatever
/// the base byte and the index register hold, the effective address lies in
/// the zero page and is their sum modulo 256.
pub proof fn lemma_zero_page_indexed_stays_in_zero_page(
    cells: Seq<u8>,
    x: u8,
    y: u8,
    program_counter: u16,
)
    ensures
        effective_address(AddressingMode::ZeroPage_X, cells, x, y, program_counter)
            == Some(((cells[program_counter as int] as int + x as int) % 256) as u16),
        effective_address(AddressingMode::ZeroPage_X, cells, x, y, program_counter).unwrap()
            <= 0xFF,
        effective_address(AddressingMode::ZeroPage_Y, cells, x, y, program_counter)
            == Some(((cells[program_counter as int] as int + y as int) % 256) as u16),
        effective_address(AddressingMode::ZeroPage_Y, cells, x, y, program_counter).unwrap()
            <= 0xFF,
        cells[program_counter as int] == 0xFF && x == 1 ==> effective_address(
            AddressingMode::ZeroPage_X,
            cells,
            x,
            y,
            program_counter,
        ) == Some(0u16),
{
}

} // verus!
