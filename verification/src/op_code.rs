//! Opcode metadata: mnemonic, length, cycle count and addressing mode of
//! each known opcode, and the table that finds them by opcode byte.

use std::collections::HashMap;
use vstd::prelude::*;
use crate::addressing::{operand_len, AddressingMode};
use crate::cpu::Instruction;
use crate::machine::decode_spec;

verus! {

/// Break.
pub const BRK: u8 = 0x00;

/// Transfer accumulator to X.
pub const TAX: u8 = 0xAA;

/// Increment X.
pub const INX: u8 = 0xE8;

/// Load accumulator, immediate.
pub const LDA_I: u8 = 0xA9;

/// Load accumulator, zero page.
pub const LDA_Z: u8 = 0xA5;

/// Load accumulator, zero page indexed by X.
pub const LDA_Z_X: u8 = 0xB5;

/// Load accumulator, absolute.
pub const LDA_A: u8 = 0xAD;

/// Load accumulator, absolute indexed by X.
pub const LDA_A_X: u8 = 0xBD;

/// Load accumulator, absolute indexed by Y.
pub const LDA_A_Y: u8 = 0xB9;

/// Load accumulator, indirect pre-indexed by X.
pub const LDA_I_X: u8 = 0xA1;

/// Load accumulator, indirect post-indexed by Y.
pub const LDA_I_Y: u8 = 0xB1;

/// Store accumulator, zero page.
pub const STA_Z: u8 = 0x85;

/// Store accumulator, zero page indexed by X.
pub const STA_Z_X: u8 = 0x95;

/// Store accumulator, absolute.
pub const STA_A: u8 = 0x8D;

/// Store accumulator, absolute indexed by X.
pub const STA_A_X: u8 = 0x9D;

/// Store accumulator, absolute indexed by Y.
pub const STA_A_Y: u8 = 0x99;

/// Store accumulator, indirect pre-indexed by X.
pub const STA_I_X: u8 = 0x81;

/// Store accumulator, indirect post-indexed by Y.
pub const STA_I_Y: u8 = 0x91;

/// Metadata of one opcode.
#[derive(Debug, Clone, Copy)]
pub struct OpCode {
    /// The opcode byte.
    pub code: u8,
    /// The instruction's three-letter name.
    pub mnemonic: &'static str,
    /// Length of the instruction in bytes, the opcode included.
    pub len: u8,
    /// Number of clock cycles the instruction takes.
    pub cycles: u8,
    /// How the operand bytes are read.
    pub mode: AddressingMode,
}

impl OpCode {
    /// The descriptor with the given fields.
    pub fn new(code: u8, mnemonic: &'static str, len: u8, cycles: u8, mode: AddressingMode) -> (r:
        Self)
        ensures
            r == (OpCode { code, mnemonic, len, cycles, mode }),
    {
        OpCode { code: code, mnemonic: mnemonic, len: len, cycles: cycles, mode: mode }
    }
}

/// The descriptors of all known opcodes, in the order in which they are
/// listed.
pub open spec fn descriptors() -> Seq<OpCode> {
    seq![
        OpCode { code: 0x00, mnemonic: "BRK", len: 1, cycles: 7, mode: AddressingMode::NoneAddressing },
        OpCode { code: 0xAA, mnemonic: "TAX", len: 1, cycles: 2, mode: AddressingMode::NoneAddressing },
        OpCode { code: 0xE8, mnemonic: "INX", len: 1, cycles: 2, mode: AddressingMode::NoneAddressing },
        OpCode { code: 0xA9, mnemonic: "LDA", len: 2, cycles: 2, mode: AddressingMode::Immediate },
        OpCode { code: 0xA5, mnemonic: "LDA", len: 2, cycles: 3, mode: AddressingMode::ZeroPage },
        OpCode { code: 0xB5, mnemonic: "LDA", len: 2, cycles: 4, mode: AddressingMode::ZeroPage_X },
        OpCode { code: 0xAD, mnemonic: "LDA", len: 3, cycles: 4, mode: AddressingMode::Absolute },
        OpCode { code: 0xBD, mnemonic: "LDA", len: 3, cycles: 4, mode: AddressingMode::Absolute_X },
        OpCode { code: 0xB9, mnemonic: "LDA", len: 3, cycles: 4, mode: AddressingMode::Absolute_Y },
        OpCode { code: 0xA1, mnemonic: "LDA", len: 3, cycles: 6, mode: AddressingMode::Indirect_X },
        OpCode { code: 0xB1, mnemonic: "LDA", len: 3, cycles: 5, mode: AddressingMode::Indirect_Y },
        OpCode { code: 0x85, mnemonic: "STA", len: 2, cycles: 3, mode: AddressingMode::ZeroPage },
        OpCode { code: 0x95, mnemonic: "STA", len: 2, cycles: 4, mode: AddressingMode::ZeroPage_X },
        OpCode { code: 0x8D, mnemonic: "STA", len: 3, cycles: 4, mode: AddressingMode::Absolute },
        OpCode { code: 0x9D, mnemonic: "STA", len: 3, cycles: 5, mode: AddressingMode::Absolute_X },
        OpCode { code: 0x99, mnemonic: "STA", len: 3, cycles: 5, mode: AddressingMode::Absolute_Y },
        OpCode { code: 0x81, mnemonic: "STA", len: 2, cycles: 6, mode: AddressingMode::Indirect_X },
        OpCode { code: 0x91, mnemonic: "STA", len: 2, cycles: 6, mode: AddressingMode::Indirect_Y },
    ]
}

/// The map that takes the opcode byte of each of the first `n` descriptors
/// of `ops` to that descriptor; of two with the same byte the later one
/// stays.
pub open spec fn indexed(ops: Seq<OpCode>, n: nat) -> Map<u8, OpCode>
    decreases n,
{
    if n == 0 {
        Map::empty()
    } else {
        indexed(ops, (n - 1) as nat).insert(ops[n - 1].code, ops[n - 1])
    }
}

/// The map from each known opcode byte to its descriptor.
pub open spec fn known_opcodes() -> Map<u8, OpCode> {
    indexed(descriptors(), descriptors().len())
}

/// The descriptor of `code`, if the opcode is known.
pub open spec fn descriptor(code: u8) -> Option<OpCode> {
    if known_opcodes().contains_key(code) {
        Some(known_opcodes()[code])
    } else {
        None
    }
}

/// Whether no two descriptors of `ops` share an opcode byte.
pub open spec fn codes_unique(ops: Seq<OpCode>) -> bool {
    forall|i: int, j: int| 0 <= i < j < ops.len() ==> ops[i].code != ops[j].code
}

/// Where no opcode byte occurs twice, the map of the first `n` descriptors
/// holds exactly their opcode bytes, and takes each of them to its
/// descriptor.
pub proof fn lemma_indexed(ops: Seq<OpCode>, n: nat)
    requires
        n <= ops.len(),
        codes_unique(ops),
    ensures
        forall|c: u8|
            indexed(ops, n).contains_key(c) <==> exists|j: int| 0 <= j < n && ops[j].code == c,
        forall|j: int| 0 <= j < n ==> #[trigger] indexed(ops, n)[ops[j].code] == ops[j],
    decreases n,
{
    if n > 0 {
        lemma_indexed(ops, (n - 1) as nat);
        let last = ops[n - 1];
        let prev = indexed(ops, (n - 1) as nat);
        assert(indexed(ops, n) == prev.insert(last.code, last));
        assert forall|c: u8|
            indexed(ops, n).contains_key(c) <==> exists|j: int| 0 <= j < n && ops[j].code == c by {
            if indexed(ops, n).contains_key(c) {
                if c == last.code {
                    assert(0 <= n - 1 < n && ops[n - 1].code == c);
                } else {
                    assert(prev.contains_key(c));
                    let j = choose|j: int| 0 <= j < n - 1 && ops[j].code == c;
                    assert(0 <= j < n && ops[j].code == c);
                }
            }
            if exists|j: int| 0 <= j < n && ops[j].code == c {
                let j = choose|j: int| 0 <= j < n && ops[j].code == c;
                if j < n - 1 {
                    assert(prev.contains_key(c));
                }
            }
        }
        assert forall|j: int| 0 <= j < n implies #[trigger] indexed(ops, n)[ops[j].code]
            == ops[j] by {
            if j < n - 1 {
                assert(ops[j].code != ops[n - 1].code);
                assert(prev[ops[j].code] == ops[j]);
            }
        }
    }
}

/// No opcode byte is listed twice.
pub proof fn lemma_codes_unique()
    ensures
        codes_unique(descriptors()),
        descriptors().len() == 18,
{
}

/// The table finds every listed descriptor under its own opcode byte, and
/// nothing under any other byte.
pub proof fn lemma_descriptor(code: u8)
    ensures
        match descriptor(code) {
            Some(op) => op.code == code && exists|i: int|
                0 <= i < descriptors().len() && descriptors()[i] == op,
            None => forall|i: int| 0 <= i < descriptors().len() ==> descriptors()[i].code != code,
        },
{
    lemma_codes_unique();
    lemma_indexed(descriptors(), descriptors().len());
    let table = indexed(descriptors(), descriptors().len());
    if table.contains_key(code) {
        let j = choose|j: int| 0 <= j < descriptors().len() && descriptors()[j].code == code;
        assert(table[descriptors()[j].code] == descriptors()[j]);
    }
}

/// Every opcode that the dispatch loop has a handler for is listed with the
/// addressing mode that the handler uses, and with a length of one byte for
/// the opcode plus the operand bytes of that mode.
pub proof fn lemma_table_covers_dispatch(code: u8)
    requires
        decode_spec(code) is Some,
    ensures
        descriptor(code) is Some,
        descriptor(code).unwrap().code == code,
        descriptor(code).unwrap().mode == (match decode_spec(code).unwrap() {
            Instruction::Lda(mode) => mode,
            Instruction::Sta(mode) => mode,
            _ => AddressingMode::NoneAddressing,
        }),
        descriptor(code).unwrap().len == 1 + operand_len(descriptor(code).unwrap().mode),
{
    lemma_codes_unique();
    lemma_indexed(descriptors(), descriptors().len());
    let table = indexed(descriptors(), descriptors().len());
    let d = descriptors();
    let j: int = if code == 0x00 {
        0
    } else if code == 0xAA {
        1
    } else if code == 0xE8 {
        2
    } else if code == 0xA9 {
        3
    } else if code == 0xA5 {
        4
    } else if code == 0xAD {
        6
    } else if code == 0x85 {
        11
    } else {
        12
    };
    assert(d[j].code == code);
    assert(table[d[j].code] == d[j]);
}

/// The descriptors of all known opcodes.
pub fn cpu_ops_codes() -> (r: Vec<OpCode>)
    ensures
        r@ == descriptors(),
{
    let r = vec![
        OpCode::new(BRK, "BRK", 1, 7, AddressingMode::NoneAddressing),
        OpCode::new(TAX, "TAX", 1, 2, AddressingMode::NoneAddressing),
        OpCode::new(INX, "INX", 1, 2, AddressingMode::NoneAddressing),
        OpCode::new(LDA_I, "LDA", 2, 2, AddressingMode::Immediate),
        OpCode::new(LDA_Z, "LDA", 2, 3, AddressingMode::ZeroPage),
        OpCode::new(LDA_Z_X, "LDA", 2, 4, AddressingMode::ZeroPage_X),
        OpCode::new(LDA_A, "LDA", 3, 4, AddressingMode::Absolute),
        OpCode::new(LDA_A_X, "LDA", 3, 4, AddressingMode::Absolute_X),
        OpCode::new(LDA_A_Y, "LDA", 3, 4, AddressingMode::Absolute_Y),
        OpCode::new(LDA_I_X, "LDA", 3, 6, AddressingMode::Indirect_X),
        OpCode::new(LDA_I_Y, "LDA", 3, 5, AddressingMode::Indirect_Y),
        OpCode::new(STA_Z, "STA", 2, 3, AddressingMode::ZeroPage),
        OpCode::new(STA_Z_X, "STA", 2, 4, AddressingMode::ZeroPage_X),
        OpCode::new(STA_A, "STA", 3, 4, AddressingMode::Absolute),
        OpCode::new(STA_A_X, "STA", 3, 5, AddressingMode::Absolute_X),
        OpCode::new(STA_A_Y, "STA", 3, 5, AddressingMode::Absolute_Y),
        OpCode::new(STA_I_X, "STA", 2, 6, AddressingMode::Indirect_X),
        OpCode::new(STA_I_Y, "STA", 2, 6, AddressingMode::Indirect_Y),
    ];
    assert(r@ =~= descriptors());
    r
}

/// The opcode table: built once, read-only afterwards.
pub struct OpCodeTable {
    map: HashMap<u8, OpCode>,
}

impl View for OpCodeTable {
    type V = Map<u8, OpCode>;

    closed spec fn view(&self) -> Map<u8, OpCode> {
        self.map@
    }
}

impl OpCodeTable {
    #[verifier::type_invariant]
    spec fn inv(self) -> bool {
        self.map@ == known_opcodes()
    }

    /// The table of all known opcodes.
    pub fn new() -> (r: Self)
        ensures
            r@ == known_opcodes(),
    {
        let ops = cpu_ops_codes();
        let mut map: HashMap<u8, OpCode> = HashMap::new();
        let mut i: usize = 0;
        while i < ops.len()
            invariant
                i <= ops.len(),
                ops@ == descriptors(),
                map@ == indexed(ops@, i as nat),
            decreases ops.len() - i,
        {
            let cpuop: OpCode = ops[i];
            map.insert(cpuop.code, cpuop);
            i = i + 1;
        }
        OpCodeTable { map }
    }

    /// The descriptor of `code`, or `None` for a byte that is not a known
    /// opcode.
    pub fn lookup(&self, code: u8) -> (r: Option<OpCode>)
        ensures
            self@ == known_opcodes(),
            r == descriptor(code),
    {
        proof {
            use_type_invariant(self);
        }
        match self.map.get(&code) {
            Some(op) => Some(*op),
            None => None,
        }
    }
}

} // verus!
