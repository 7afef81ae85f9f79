use emu6502::addressing::{operand_bytes, resolve, AddressingMode};
use emu6502::error::CpuError;
use emu6502::memory::Memory;

#[test]
fn immediate_is_the_program_counter() {
    let mem = Memory::new();
    assert_eq!(resolve(AddressingMode::Immediate, 0x8001, &mem, 3, 4), Ok(0x8001));
}

#[test]
fn zero_page_zero_extends_the_operand() {
    let mut mem = Memory::new();
    mem.write(0x8001, 0x10);
    mem.write(0x8002, 0x99);
    assert_eq!(resolve(AddressingMode::ZeroPage, 0x8001, &mem, 3, 4), Ok(0x0010));
}

#[test]
fn zero_page_x_adds_x() {
    let mut mem = Memory::new();
    mem.write(0x8001, 0x10);
    assert_eq!(resolve(AddressingMode::ZeroPage_X, 0x8001, &mem, 3, 4), Ok(0x0013));
}

#[test]
fn zero_page_x_never_carries_into_high_byte() {
    let mut mem = Memory::new();
    mem.write(0x8001, 0xFF);
    assert_eq!(resolve(AddressingMode::ZeroPage_X, 0x8001, &mem, 1, 0), Ok(0x0000));
}

#[test]
fn zero_page_indexed_stays_in_zero_page_for_all_bytes() {
    let mut mem = Memory::new();
    for base in 0..=255u8 {
        mem.write(0x0300, base);
        for index in [0u8, 1, 0x7F, 0x80, 0xFF] {
            let want = ((base as u16) + (index as u16)) % 256;
            assert_eq!(resolve(AddressingMode::ZeroPage_X, 0x0300, &mem, index, 0), Ok(want));
            assert_eq!(resolve(AddressingMode::ZeroPage_Y, 0x0300, &mem, 0, index), Ok(want));
        }
    }
}

#[test]
fn zero_page_y_adds_y() {
    let mut mem = Memory::new();
    mem.write(0x8001, 0xF0);
    assert_eq!(resolve(AddressingMode::ZeroPage_Y, 0x8001, &mem, 3, 0x20), Ok(0x0010));
}

#[test]
fn absolute_reads_a_little_endian_word() {
    let mut mem = Memory::new();
    mem.write(0x8001, 0x34);
    mem.write(0x8002, 0x12);
    assert_eq!(resolve(AddressingMode::Absolute, 0x8001, &mem, 3, 4), Ok(0x1234));
}

#[test]
fn absolute_indexed_crosses_pages_and_wraps() {
    let mut mem = Memory::new();
    mem.write(0x8001, 0xFF);
    mem.write(0x8002, 0x12);
    assert_eq!(resolve(AddressingMode::Absolute_X, 0x8001, &mem, 1, 0), Ok(0x1300));
    assert_eq!(resolve(AddressingMode::Absolute_Y, 0x8001, &mem, 0, 2), Ok(0x1301));
    mem.write(0x8002, 0xFF);
    assert_eq!(resolve(AddressingMode::Absolute_X, 0x8001, &mem, 1, 0), Ok(0x0000));
    assert_eq!(resolve(AddressingMode::Absolute_Y, 0x8001, &mem, 0, 3), Ok(0x0002));
}

#[test]
fn indirect_x_reads_pointer_in_zero_page() {
    let mut mem = Memory::new();
    mem.write(0x8001, 0x20);
    mem.write(0x0024, 0x78);
    mem.write(0x0025, 0x56);
    assert_eq!(resolve(AddressingMode::Indirect_X, 0x8001, &mem, 4, 0), Ok(0x5678));
}

#[test]
fn indirect_x_pointer_wraps_within_zero_page() {
    let mut mem = Memory::new();
    mem.write(0x8001, 0xFE);
    mem.write(0x00FF, 0xCD);
    mem.write(0x0000, 0xAB);
    mem.write(0x0100, 0x77);
    assert_eq!(resolve(AddressingMode::Indirect_X, 0x8001, &mem, 1, 0), Ok(0xABCD));
    mem.write(0x8001, 0xFF);
    mem.write(0x0001, 0x11);
    assert_eq!(resolve(AddressingMode::Indirect_X, 0x8001, &mem, 1, 0), Ok(0x11AB));
}

#[test]
fn indirect_y_adds_y_after_dereference() {
    let mut mem = Memory::new();
    mem.write(0x8001, 0x40);
    mem.write(0x0040, 0xF0);
    mem.write(0x0041, 0x12);
    assert_eq!(resolve(AddressingMode::Indirect_Y, 0x8001, &mem, 0, 0x20), Ok(0x1310));
    mem.write(0x0041, 0xFF);
    assert_eq!(resolve(AddressingMode::Indirect_Y, 0x8001, &mem, 0, 0x20), Ok(0x0010));
}

#[test]
fn none_addressing_is_rejected() {
    let mem = Memory::new();
    assert_eq!(
        resolve(AddressingMode::NoneAddressing, 0x8001, &mem, 0, 0),
        Err(CpuError::InvalidAddressingMode)
    );
}

#[test]
fn operand_bytes_per_mode() {
    assert_eq!(operand_bytes(AddressingMode::NoneAddressing), 0);
    assert_eq!(operand_bytes(AddressingMode::Immediate), 1);
    assert_eq!(operand_bytes(AddressingMode::ZeroPage), 1);
    assert_eq!(operand_bytes(AddressingMode::ZeroPage_X), 1);
    assert_eq!(operand_bytes(AddressingMode::ZeroPage_Y), 1);
    assert_eq!(operand_bytes(AddressingMode::Indirect_X), 1);
    assert_eq!(operand_bytes(AddressingMode::Indirect_Y), 1);
    assert_eq!(operand_bytes(AddressingMode::Absolute), 2);
    assert_eq!(operand_bytes(AddressingMode::Absolute_X), 2);
    assert_eq!(operand_bytes(AddressingMode::Absolute_Y), 2);
}
