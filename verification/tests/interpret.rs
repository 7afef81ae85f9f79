use emu6502::cpu::{CpuError, BRK, CPU, INX, LDA, TAX};

#[test]
fn test_0xa9_lda_load_data() {
    let mut cpu = CPU::new();
    let _ = cpu.interpret(vec![LDA, 0x05, BRK]);
    assert_eq!(cpu.register_a, 0x05);
    assert_eq!(cpu.status & 0b0000_0010, 0b00);
    assert_eq!(cpu.status & 0b1000_0000, 0);
}

#[test]
fn test_0xa9_lda_zero_flag() {
    let mut cpu = CPU::new();
    let _ = cpu.interpret(vec![LDA, 0x00, BRK]);
    assert_eq!(cpu.status & 0b0000_0010, 0b10);
}

#[test]
fn test_0xaa_tax_move_a_to_x() {
    let mut cpu = CPU::new();
    cpu.register_a = 10;
    let _ = cpu.interpret(vec![TAX, BRK]);

    assert_eq!(cpu.register_x, 10)
}

#[test]
fn test_5_ops_working_together() {
    let mut cpu = CPU::new();
    let _ = cpu.interpret(vec![LDA, 0xc0, TAX, INX, BRK]);

    assert_eq!(cpu.register_x, 0xc1)
}

#[test]
fn test_inx_overflow() {
    let mut cpu = CPU::new();
    cpu.register_x = 0xff;
    let _ = cpu.interpret(vec![INX, INX, BRK]);

    assert_eq!(cpu.register_x, 1)
}

#[test]
fn interpret_reports_halt_and_final_counter() {
    let mut cpu = CPU::new();
    cpu.program_counter = 77;
    cpu.register_y = 9;
    let r = cpu.interpret(vec![LDA, 0x80, TAX, BRK, INX]);
    assert_eq!(r, Ok(()));
    assert_eq!(cpu.register_a, 0x80);
    assert_eq!(cpu.register_x, 0x80);
    assert_eq!(cpu.register_y, 9);
    assert_eq!(cpu.status, 0b1000_0000);
    assert_eq!(cpu.program_counter, 4);
}

#[test]
fn interpret_rejects_byte_without_handler() {
    let mut cpu = CPU::new();
    let r = cpu.interpret(vec![INX, 0xA5, 0x10, BRK]);
    assert_eq!(r, Err(CpuError::UnsupportedOpcode(0xA5)));
    assert_eq!(cpu.register_x, 1);
    assert_eq!(cpu.program_counter, 2);
}

#[test]
fn interpret_leaves_memory_alone() {
    let mut cpu = CPU::new();
    cpu.mem_write(0x0000, 0xE8);
    cpu.mem_write(0x8000, 0xE8);
    let r = cpu.interpret(vec![BRK]);
    assert_eq!(r, Ok(()));
    assert_eq!(cpu.register_x, 0);
    assert_eq!(cpu.mem_read(0x0000), 0xE8);
    assert_eq!(cpu.mem_read(0x8000), 0xE8);
}

#[test]
fn get_next_op_fetches_and_advances() {
    let mut cpu = CPU::new();
    let program = vec![0x11, 0x22, 0x33];
    assert_eq!(cpu.get_next_op(&program), 0x11);
    assert_eq!(cpu.program_counter, 1);
    assert_eq!(cpu.get_next_op(&program), 0x22);
    assert_eq!(cpu.get_next_op(&program), 0x33);
    assert_eq!(cpu.program_counter, 3);
}
