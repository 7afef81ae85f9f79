use emu6502::addressing::AddressingMode;
use emu6502::cpu::{decode, Instruction};
use emu6502::op_code::{cpu_ops_codes, OpCode, OpCodeTable, LDA_Z, LDA_Z_X, STA_A_X};

#[test]
fn descriptor_keeps_its_fields() {
    let op = OpCode::new(0x42, "XYZ", 3, 5, AddressingMode::Absolute_Y);
    assert_eq!(op.code, 0x42);
    assert_eq!(op.mnemonic, "XYZ");
    assert_eq!(op.len, 3);
    assert_eq!(op.cycles, 5);
    assert_eq!(op.mode, AddressingMode::Absolute_Y);
}

#[test]
fn list_has_eighteen_distinct_codes() {
    let ops = cpu_ops_codes();
    assert_eq!(ops.len(), 18);
    for i in 0..ops.len() {
        for j in (i + 1)..ops.len() {
            assert_ne!(ops[i].code, ops[j].code);
        }
    }
}

#[test]
fn lookup_finds_each_listed_descriptor() {
    let table = OpCodeTable::new();
    for op in cpu_ops_codes() {
        let found = table.lookup(op.code).unwrap();
        assert_eq!(found.code, op.code);
        assert_eq!(found.mnemonic, op.mnemonic);
        assert_eq!(found.len, op.len);
        assert_eq!(found.cycles, op.cycles);
        assert_eq!(found.mode, op.mode);
    }
}

#[test]
fn lookup_knows_nothing_else() {
    let table = OpCodeTable::new();
    let ops = cpu_ops_codes();
    let mut known = 0;
    for code in 0..=255u8 {
        let listed = ops.iter().any(|op| op.code == code);
        assert_eq!(table.lookup(code).is_some(), listed);
        if listed {
            known += 1;
        }
    }
    assert_eq!(known, 18);
    assert!(table.lookup(0x42).is_none());
    assert!(table.lookup(0xFF).is_none());
}

#[test]
fn lookup_exact_values() {
    let table = OpCodeTable::new();
    let brk = table.lookup(0x00).unwrap();
    assert_eq!((brk.mnemonic, brk.len, brk.cycles, brk.mode), ("BRK", 1, 7, AddressingMode::NoneAddressing));
    let lda = table.lookup(0xA9).unwrap();
    assert_eq!((lda.mnemonic, lda.len, lda.cycles, lda.mode), ("LDA", 2, 2, AddressingMode::Immediate));
    let lda_z = table.lookup(LDA_Z).unwrap();
    assert_eq!((lda_z.mnemonic, lda_z.len, lda_z.cycles, lda_z.mode), ("LDA", 2, 3, AddressingMode::ZeroPage));
    let lda_zx = table.lookup(LDA_Z_X).unwrap();
    assert_eq!((lda_zx.mnemonic, lda_zx.len, lda_zx.cycles, lda_zx.mode), ("LDA", 2, 4, AddressingMode::ZeroPage_X));
    let sta = table.lookup(STA_A_X).unwrap();
    assert_eq!((sta.code, sta.mnemonic, sta.len, sta.cycles, sta.mode), (0x9D, "STA", 3, 5, AddressingMode::Absolute_X));
}

#[test]
fn table_agrees_with_dispatch() {
    let table = OpCodeTable::new();
    for code in 0..=255u8 {
        match decode(code) {
            Some(Instruction::Lda(mode)) => {
                let op = table.lookup(code).unwrap();
                assert_eq!(op.mnemonic, "LDA");
                assert_eq!(op.mode, mode);
            }
            Some(Instruction::Sta(mode)) => {
                let op = table.lookup(code).unwrap();
                assert_eq!(op.mnemonic, "STA");
                assert_eq!(op.mode, mode);
            }
            Some(_) => {
                let op = table.lookup(code).unwrap();
                assert_eq!(op.mode, AddressingMode::NoneAddressing);
                assert_eq!(op.len, 1);
            }
            None => {}
        }
    }
}

#[test]
fn decode_knows_eight_opcodes() {
    assert_eq!(decode(0x00), Some(Instruction::Brk));
    assert_eq!(decode(0xAA), Some(Instruction::Tax));
    assert_eq!(decode(0xE8), Some(Instruction::Inx));
    assert_eq!(decode(0xA9), Some(Instruction::Lda(AddressingMode::Immediate)));
    assert_eq!(decode(0xA5), Some(Instruction::Lda(AddressingMode::ZeroPage)));
    assert_eq!(decode(0xAD), Some(Instruction::Lda(AddressingMode::Absolute)));
    assert_eq!(decode(0x85), Some(Instruction::Sta(AddressingMode::ZeroPage)));
    assert_eq!(decode(0x95), Some(Instruction::Sta(AddressingMode::ZeroPage_X)));
    let mut known = 0;
    for code in 0..=255u8 {
        if decode(code).is_some() {
            known += 1;
        }
    }
    assert_eq!(known, 8);
}
