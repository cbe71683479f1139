//! The 6502 opcode table.
use vstd::prelude::*;

verus! {

/// The operand forms of 6502 instructions.
#[derive(Clone, Copy, Debug, PartialEq, Eq, Structural)]
pub enum AddressingMode {
    Implicit,
    Accumulator,
    Immediate,
    ZeroPage,
    ZeroPageX,
    ZeroPageY,
    Absolute,
    AbsoluteX,
    AbsoluteY,
    Indirect,
    IndirectX,
    IndirectY,
    Relative,
}

/// An instruction name, as three upper-case ASCII letters.
#[derive(Clone, Copy, Debug, PartialEq, Eq, Structural)]
pub struct Mnemonic(pub u8, pub u8, pub u8);

/// One mnemonic's opcode for each addressing mode, in the order of
/// `AddressingMode`'s variants; `NO` marks a mode the mnemonic lacks.
#[derive(Clone, Copy, Debug, PartialEq, Eq, Structural)]
pub struct OpRow(
    pub u16,
    pub u16,
    pub u16,
    pub u16,
    pub u16,
    pub u16,
    pub u16,
    pub u16,
    pub u16,
    pub u16,
    pub u16,
    pub u16,
    pub u16,
);

/// Marks an addressing mode that a mnemonic does not have.
pub const NO: u16 = 0x100;

/// Number of operand bytes that follow the opcode in the given mode.
pub open spec fn operand_len(mode: AddressingMode) -> nat {
    match mode {
        AddressingMode::Implicit | AddressingMode::Accumulator => 0,
        AddressingMode::Absolute | AddressingMode::AbsoluteX | AddressingMode::AbsoluteY
        | AddressingMode::Indirect => 2,
        _ => 1,
    }
}

pub fn operand_length(mode: AddressingMode) -> (r: usize)
    ensures
        r == operand_len(mode),
{
    match mode {
        AddressingMode::Implicit | AddressingMode::Accumulator => 0,
        AddressingMode::Absolute | AddressingMode::AbsoluteX | AddressingMode::AbsoluteY
        | AddressingMode::Indirect => 2,
        _ => 1,
    }
}

/// The entry of a row for one mode.
pub open spec fn row_entry(row: OpRow, mode: AddressingMode) -> u16 {
    match mode {
        AddressingMode::Implicit => row.0,
        AddressingMode::Accumulator => row.1,
        AddressingMode::Immediate => row.2,
        AddressingMode::ZeroPage => row.3,
        AddressingMode::ZeroPageX => row.4,
        AddressingMode::ZeroPageY => row.5,
        AddressingMode::Absolute => row.6,
        AddressingMode::AbsoluteX => row.7,
        AddressingMode::AbsoluteY => row.8,
        AddressingMode::Indirect => row.9,
        AddressingMode::IndirectX => row.10,
        AddressingMode::IndirectY => row.11,
        AddressingMode::Relative => row.12,
    }
}

/// The opcode table of the NMOS 6502: the row of each documented mnemonic.
pub open spec fn op_row(m: Mnemonic) -> Option<OpRow> {
    match (m.0, m.1, m.2) {
        (65, 68, 67) => Some(OpRow(NO, NO, 0x69, 0x65, 0x75, NO, 0x6D, 0x7D, 0x79, NO, 0x61, 0x71, NO)),  // ADC
        (65, 78, 68) => Some(OpRow(NO, NO, 0x29, 0x25, 0x35, NO, 0x2D, 0x3D, 0x39, NO, 0x21, 0x31, NO)),  // AND
        (65, 83, 76) => Some(OpRow(NO, 0x0A, NO, 0x06, 0x16, NO, 0x0E, 0x1E, NO, NO, NO, NO, NO)),  // ASL
        (66, 67, 67) => Some(OpRow(NO, NO, NO, NO, NO, NO, NO, NO, NO, NO, NO, NO, 0x90)),  // BCC
        (66, 67, 83) => Some(OpRow(NO, NO, NO, NO, NO, NO, NO, NO, NO, NO, NO, NO, 0xB0)),  // BCS
        (66, 69, 81) => Some(OpRow(NO, NO, NO, NO, NO, NO, NO, NO, NO, NO, NO, NO, 0xF0)),  // BEQ
        (66, 73, 84) => Some(OpRow(NO, NO, NO, 0x24, NO, NO, 0x2C, NO, NO, NO, NO, NO, NO)),  // BIT
        (66, 77, 73) => Some(OpRow(NO, NO, NO, NO, NO, NO, NO, NO, NO, NO, NO, NO, 0x30)),  // BMI
        (66, 78, 69) => Some(OpRow(NO, NO, NO, NO, NO, NO, NO, NO, NO, NO, NO, NO, 0xD0)),  // BNE
        (66, 80, 76) => Some(OpRow(NO, NO, NO, NO, NO, NO, NO, NO, NO, NO, NO, NO, 0x10)),  // BPL
        (66, 82, 75) => Some(OpRow(0x00, NO, NO, NO, NO, NO, NO, NO, NO, NO, NO, NO, NO)),  // BRK
        (66, 86, 67) => Some(OpRow(NO, NO, NO, NO, NO, NO, NO, NO, NO, NO, NO, NO, 0x50)),  // BVC
        (66, 86, 83) => Some(OpRow(NO, NO, NO, NO, NO, NO, NO, NO, NO, NO, NO, NO, 0x70)),  // BVS
        (67, 76, 67) => Some(OpRow(0x18, NO, NO, NO, NO, NO, NO, NO, NO, NO, NO, NO, NO)),  // CLC
        (67, 76, 68) => Some(OpRow(0xD8, NO, NO, NO, NO, NO, NO, NO, NO, NO, NO, NO, NO)),  // CLD
        (67, 76, 73) => Some(OpRow(0x58, NO, NO, NO, NO, NO, NO, NO, NO, NO, NO, NO, NO)),  // CLI
        (67, 76, 86) => Some(OpRow(0xB8, NO, NO, NO, NO, NO, NO, NO, NO, NO, NO, NO, NO)),  // CLV
        (67, 77, 80) => Some(OpRow(NO, NO, 0xC9, 0xC5, 0xD5, NO, 0xCD, 0xDD, 0xD9, NO, 0xC1, 0xD1, NO)),  // CMP
        (67, 80, 88) => Some(OpRow(NO, NO, 0xE0, 0xE4, NO, NO, 0xEC, NO, NO, NO, NO, NO, NO)),  // CPX
        (67, 80, 89) => Some(OpRow(NO, NO, 0xC0, 0xC4, NO, NO, 0xCC, NO, NO, NO, NO, NO, NO)),  // CPY
        (68, 69, 67) => Some(OpRow(NO, NO, NO, 0xC6, 0xD6, NO, 0xCE, 0xDE, NO, NO, NO, NO, NO)),  // DEC
        (68, 69, 88) => Some(OpRow(0xCA, NO, NO, NO, NO, NO, NO, NO, NO, NO, NO, NO, NO)),  // DEX
        (68, 69, 89) => Some(OpRow(0x88, NO, NO, NO, NO, NO, NO, NO, NO, NO, NO, NO, NO)),  // DEY
        (69, 79, 82) => Some(OpRow(NO, NO, 0x49, 0x45, 0x55, NO, 0x4D, 0x5D, 0x59, NO, 0x41, 0x51, NO)),  // EOR
        (73, 78, 67) => Some(OpRow(NO, NO, NO, 0xE6, 0xF6, NO, 0xEE, 0xFE, NO, NO, NO, NO, NO)),  // INC
        (73, 78, 88) => Some(OpRow(0xE8, NO, NO, NO, NO, NO, NO, NO, NO, NO, NO, NO, NO)),  // INX
        (73, 78, 89) => Some(OpRow(0xC8, NO, NO, NO, NO, NO, NO, NO, NO, NO, NO, NO, NO)),  // INY
        (74, 77, 80) => Some(OpRow(NO, NO, NO, NO, NO, NO, 0x4C, NO, NO, 0x6C, NO, NO, NO)),  // JMP
        (74, 83, 82) => Some(OpRow(NO, NO, NO, NO, NO, NO, 0x20, NO, NO, NO, NO, NO, NO)),  // JSR
        (76, 68, 65) => Some(OpRow(NO, NO, 0xA9, 0xA5, 0xB5, NO, 0xAD, 0xBD, 0xB9, NO, 0xA1, 0xB1, NO)),  // LDA
        (76, 68, 88) => Some(OpRow(NO, NO, 0xA2, 0xA6, NO, 0xB6, 0xAE, NO, 0xBE, NO, NO, NO, NO)),  // LDX
        (76, 68, 89) => Some(OpRow(NO, NO, 0xA0, 0xA4, 0xB4, NO, 0xAC, 0xBC, NO, NO, NO, NO, NO)),  // LDY
        (76, 83, 82) => Some(OpRow(NO, 0x4A, NO, 0x46, 0x56, NO, 0x4E, 0x5E, NO, NO, NO, NO, NO)),  // LSR
        (78, 79, 80) => Some(OpRow(0xEA, NO, NO, NO, NO, NO, NO, NO, NO, NO, NO, NO, NO)),  // NOP
        (79, 82, 65) => Some(OpRow(NO, NO, 0x09, 0x05, 0x15, NO, 0x0D, 0x1D, 0x19, NO, 0x01, 0x11, NO)),  // ORA
        (80, 72, 65) => Some(OpRow(0x48, NO, NO, NO, NO, NO, NO, NO, NO, NO, NO, NO, NO)),  // PHA
        (80, 72, 80) => Some(OpRow(0x08, NO, NO, NO, NO, NO, NO, NO, NO, NO, NO, NO, NO)),  // PHP
        (80, 76, 65) => Some(OpRow(0x68, NO, NO, NO, NO, NO, NO, NO, NO, NO, NO, NO, NO)),  // PLA
        (80, 76, 80) => Some(OpRow(0x28, NO, NO, NO, NO, NO, NO, NO, NO, NO, NO, NO, NO)),  // PLP
        (82, 79, 76) => Some(OpRow(NO, 0x2A, NO, 0x26, 0x36, NO, 0x2E, 0x3E, NO, NO, NO, NO, NO)),  // ROL
        (82, 79, 82) => Some(OpRow(NO, 0x6A, NO, 0x66, 0x76, NO, 0x6E, 0x7E, NO, NO, NO, NO, NO)),  // ROR
        (82, 84, 73) => Some(OpRow(0x40, NO, NO, NO, NO, NO, NO, NO, NO, NO, NO, NO, NO)),  // RTI
        (82, 84, 83) => Some(OpRow(0x60, NO, NO, NO, NO, NO, NO, NO, NO, NO, NO, NO, NO)),  // RTS
        (83, 66, 67) => Some(OpRow(NO, NO, 0xE9, 0xE5, 0xF5, NO, 0xED, 0xFD, 0xF9, NO, 0xE1, 0xF1, NO)),  // SBC
        (83, 69, 67) => Some(OpRow(0x38, NO, NO, NO, NO, NO, NO, NO, NO, NO, NO, NO, NO)),  // SEC
        (83, 69, 68) => Some(OpRow(0xF8, NO, NO, NO, NO, NO, NO, NO, NO, NO, NO, NO, NO)),  // SED
        (83, 69, 73) => Some(OpRow(0x78, NO, NO, NO, NO, NO, NO, NO, NO, NO, NO, NO, NO)),  // SEI
        (83, 84, 65) => Some(OpRow(NO, NO, NO, 0x85, 0x95, NO, 0x8D, 0x9D, 0x99, NO, 0x81, 0x91, NO)),  // STA
        (83, 84, 88) => Some(OpRow(NO, NO, NO, 0x86, NO, 0x96, 0x8E, NO, NO, NO, NO, NO, NO)),  // STX
        (83, 84, 89) => Some(OpRow(NO, NO, NO, 0x84, 0x94, NO, 0x8C, NO, NO, NO, NO, NO, NO)),  // STY
        (84, 65, 88) => Some(OpRow(0xAA, NO, NO, NO, NO, NO, NO, NO, NO, NO, NO, NO, NO)),  // TAX
        (84, 65, 89) => Some(OpRow(0xA8, NO, NO, NO, NO, NO, NO, NO, NO, NO, NO, NO, NO)),  // TAY
        (84, 83, 88) => Some(OpRow(0xBA, NO, NO, NO, NO, NO, NO, NO, NO, NO, NO, NO, NO)),  // TSX
        (84, 88, 65) => Some(OpRow(0x8A, NO, NO, NO, NO, NO, NO, NO, NO, NO, NO, NO, NO)),  // TXA
        (84, 88, 83) => Some(OpRow(0x9A, NO, NO, NO, NO, NO, NO, NO, NO, NO, NO, NO, NO)),  // TXS
        (84, 89, 65) => Some(OpRow(0x98, NO, NO, NO, NO, NO, NO, NO, NO, NO, NO, NO, NO)),  // TYA
        _ => None,
    }
}

/// The opcode byte for `m` in `mode`, if the CPU has that form.
pub open spec fn opcode_of(m: Mnemonic, mode: AddressingMode) -> Option<u8> {
    match op_row(m) {
        Some(row) => if row_entry(row, mode) < NO {
            Some(row_entry(row, mode) as u8)
        } else {
            None
        },
        None => None,
    }
}

/// Whether `m` names an instruction of the table.
pub open spec fn is_mnemonic(m: Mnemonic) -> bool {
    op_row(m) is Some
}

pub open spec fn has_mode(m: Mnemonic, mode: AddressingMode) -> bool {
    opcode_of(m, mode) is Some
}

fn row_of(m: Mnemonic) -> (r: Option<OpRow>)
    ensures
        r == op_row(m),
{
    match (m.0, m.1, m.2) {
        (65, 68, 67) => Some(OpRow(NO, NO, 0x69, 0x65, 0x75, NO, 0x6D, 0x7D, 0x79, NO, 0x61, 0x71, NO)),  // ADC
        (65, 78, 68) => Some(OpRow(NO, NO, 0x29, 0x25, 0x35, NO, 0x2D, 0x3D, 0x39, NO, 0x21, 0x31, NO)),  // AND
        (65, 83, 76) => Some(OpRow(NO, 0x0A, NO, 0x06, 0x16, NO, 0x0E, 0x1E, NO, NO, NO, NO, NO)),  // ASL
        (66, 67, 67) => Some(OpRow(NO, NO, NO, NO, NO, NO, NO, NO, NO, NO, NO, NO, 0x90)),  // BCC
        (66, 67, 83) => Some(OpRow(NO, NO, NO, NO, NO, NO, NO, NO, NO, NO, NO, NO, 0xB0)),  // BCS
        (66, 69, 81) => Some(OpRow(NO, NO, NO, NO, NO, NO, NO, NO, NO, NO, NO, NO, 0xF0)),  // BEQ
        (66, 73, 84) => Some(OpRow(NO, NO, NO, 0x24, NO, NO, 0x2C, NO, NO, NO, NO, NO, NO)),  // BIT
        (66, 77, 73) => Some(OpRow(NO, NO, NO, NO, NO, NO, NO, NO, NO, NO, NO, NO, 0x30)),  // BMI
        (66, 78, 69) => Some(OpRow(NO, NO, NO, NO, NO, NO, NO, NO, NO, NO, NO, NO, 0xD0)),  // BNE
        (66, 80, 76) => Some(OpRow(NO, NO, NO, NO, NO, NO, NO, NO, NO, NO, NO, NO, 0x10)),  // BPL
        (66, 82, 75) => Some(OpRow(0x00, NO, NO, NO, NO, NO, NO, NO, NO, NO, NO, NO, NO)),  // BRK
        (66, 86, 67) => Some(OpRow(NO, NO, NO, NO, NO, NO, NO, NO, NO, NO, NO, NO, 0x50)),  // BVC
        (66, 86, 83) => Some(OpRow(NO, NO, NO, NO, NO, NO, NO, NO, NO, NO, NO, NO, 0x70)),  // BVS
        (67, 76, 67) => Some(OpRow(0x18, NO, NO, NO, NO, NO, NO, NO, NO, NO, NO, NO, NO)),  // CLC
        (67, 76, 68) => Some(OpRow(0xD8, NO, NO, NO, NO, NO, NO, NO, NO, NO, NO, NO, NO)),  // CLD
        (67, 76, 73) => Some(OpRow(0x58, NO, NO, NO, NO, NO, NO, NO, NO, NO, NO, NO, NO)),  // CLI
        (67, 76, 86) => Some(OpRow(0xB8, NO, NO, NO, NO, NO, NO, NO, NO, NO, NO, NO, NO)),  // CLV
        (67, 77, 80) => Some(OpRow(NO, NO, 0xC9, 0xC5, 0xD5, NO, 0xCD, 0xDD, 0xD9, NO, 0xC1, 0xD1, NO)),  // CMP
        (67, 80, 88) => Some(OpRow(NO, NO, 0xE0, 0xE4, NO, NO, 0xEC, NO, NO, NO, NO, NO, NO)),  // CPX
        (67, 80, 89) => Some(OpRow(NO, NO, 0xC0, 0xC4, NO, NO, 0xCC, NO, NO, NO, NO, NO, NO)),  // CPY
        (68, 69, 67) => Some(OpRow(NO, NO, NO, 0xC6, 0xD6, NO, 0xCE, 0xDE, NO, NO, NO, NO, NO)),  // DEC
        (68, 69, 88) => Some(OpRow(0xCA, NO, NO, NO, NO, NO, NO, NO, NO, NO, NO, NO, NO)),  // DEX
        (68, 69, 89) => Some(OpRow(0x88, NO, NO, NO, NO, NO, NO, NO, NO, NO, NO, NO, NO)),  // DEY
        (69, 79, 82) => Some(OpRow(NO, NO, 0x49, 0x45, 0x55, NO, 0x4D, 0x5D, 0x59, NO, 0x41, 0x51, NO)),  // EOR
        (73, 78, 67) => Some(OpRow(NO, NO, NO, 0xE6, 0xF6, NO, 0xEE, 0xFE, NO, NO, NO, NO, NO)),  // INC
        (73, 78, 88) => Some(OpRow(0xE8, NO, NO, NO, NO, NO, NO, NO, NO, NO, NO, NO, NO)),  // INX
        (73, 78, 89) => Some(OpRow(0xC8, NO, NO, NO, NO, NO, NO, NO, NO, NO, NO, NO, NO)),  // INY
        (74, 77, 80) => Some(OpRow(NO, NO, NO, NO, NO, NO, 0x4C, NO, NO, 0x6C, NO, NO, NO)),  // JMP
        (74, 83, 82) => Some(OpRow(NO, NO, NO, NO, NO, NO, 0x20, NO, NO, NO, NO, NO, NO)),  // JSR
        (76, 68, 65) => Some(OpRow(NO, NO, 0xA9, 0xA5, 0xB5, NO, 0xAD, 0xBD, 0xB9, NO, 0xA1, 0xB1, NO)),  // LDA
        (76, 68, 88) => Some(OpRow(NO, NO, 0xA2, 0xA6, NO, 0xB6, 0xAE, NO, 0xBE, NO, NO, NO, NO)),  // LDX
        (76, 68, 89) => Some(OpRow(NO, NO, 0xA0, 0xA4, 0xB4, NO, 0xAC, 0xBC, NO, NO, NO, NO, NO)),  // LDY
        (76, 83, 82) => Some(OpRow(NO, 0x4A, NO, 0x46, 0x56, NO, 0x4E, 0x5E, NO, NO, NO, NO, NO)),  // LSR
        (78, 79, 80) => Some(OpRow(0xEA, NO, NO, NO, NO, NO, NO, NO, NO, NO, NO, NO, NO)),  // NOP
        (79, 82, 65) => Some(OpRow(NO, NO, 0x09, 0x05, 0x15, NO, 0x0D, 0x1D, 0x19, NO, 0x01, 0x11, NO)),  // ORA
        (80, 72, 65) => Some(OpRow(0x48, NO, NO, NO, NO, NO, NO, NO, NO, NO, NO, NO, NO)),  // PHA
        (80, 72, 80) => Some(OpRow(0x08, NO, NO, NO, NO, NO, NO, NO, NO, NO, NO, NO, NO)),  // PHP
        (80, 76, 65) => Some(OpRow(0x68, NO, NO, NO, NO, NO, NO, NO, NO, NO, NO, NO, NO)),  // PLA
        (80, 76, 80) => Some(OpRow(0x28, NO, NO, NO, NO, NO, NO, NO, NO, NO, NO, NO, NO)),  // PLP
        (82, 79, 76) => Some(OpRow(NO, 0x2A, NO, 0x26, 0x36, NO, 0x2E, 0x3E, NO, NO, NO, NO, NO)),  // ROL
        (82, 79, 82) => Some(OpRow(NO, 0x6A, NO, 0x66, 0x76, NO, 0x6E, 0x7E, NO, NO, NO, NO, NO)),  // ROR
        (82, 84, 73) => Some(OpRow(0x40, NO, NO, NO, NO, NO, NO, NO, NO, NO, NO, NO, NO)),  // RTI
        (82, 84, 83) => Some(OpRow(0x60, NO, NO, NO, NO, NO, NO, NO, NO, NO, NO, NO, NO)),  // RTS
        (83, 66, 67) => Some(OpRow(NO, NO, 0xE9, 0xE5, 0xF5, NO, 0xED, 0xFD, 0xF9, NO, 0xE1, 0xF1, NO)),  // SBC
        (83, 69, 67) => Some(OpRow(0x38, NO, NO, NO, NO, NO, NO, NO, NO, NO, NO, NO, NO)),  // SEC
        (83, 69, 68) => Some(OpRow(0xF8, NO, NO, NO, NO, NO, NO, NO, NO, NO, NO, NO, NO)),  // SED
        (83, 69, 73) => Some(OpRow(0x78, NO, NO, NO, NO, NO, NO, NO, NO, NO, NO, NO, NO)),  // SEI
        (83, 84, 65) => Some(OpRow(NO, NO, NO, 0x85, 0x95, NO, 0x8D, 0x9D, 0x99, NO, 0x81, 0x91, NO)),  // STA
        (83, 84, 88) => Some(OpRow(NO, NO, NO, 0x86, NO, 0x96, 0x8E, NO, NO, NO, NO, NO, NO)),  // STX
        (83, 84, 89) => Some(OpRow(NO, NO, NO, 0x84, 0x94, NO, 0x8C, NO, NO, NO, NO, NO, NO)),  // STY
        (84, 65, 88) => Some(OpRow(0xAA, NO, NO, NO, NO, NO, NO, NO, NO, NO, NO, NO, NO)),  // TAX
        (84, 65, 89) => Some(OpRow(0xA8, NO, NO, NO, NO, NO, NO, NO, NO, NO, NO, NO, NO)),  // TAY
        (84, 83, 88) => Some(OpRow(0xBA, NO, NO, NO, NO, NO, NO, NO, NO, NO, NO, NO, NO)),  // TSX
        (84, 88, 65) => Some(OpRow(0x8A, NO, NO, NO, NO, NO, NO, NO, NO, NO, NO, NO, NO)),  // TXA
        (84, 88, 83) => Some(OpRow(0x9A, NO, NO, NO, NO, NO, NO, NO, NO, NO, NO, NO, NO)),  // TXS
        (84, 89, 65) => Some(OpRow(0x98, NO, NO, NO, NO, NO, NO, NO, NO, NO, NO, NO, NO)),  // TYA
        _ => None,
    }
}

fn entry_of(row: OpRow, mode: AddressingMode) -> (r: u16)
    ensures
        r == row_entry(row, mode),
{
    match mode {
        AddressingMode::Implicit => row.0,
        AddressingMode::Accumulator => row.1,
        AddressingMode::Immediate => row.2,
        AddressingMode::ZeroPage => row.3,
        AddressingMode::ZeroPageX => row.4,
        AddressingMode::ZeroPageY => row.5,
        AddressingMode::Absolute => row.6,
        AddressingMode::AbsoluteX => row.7,
        AddressingMode::AbsoluteY => row.8,
        AddressingMode::Indirect => row.9,
        AddressingMode::IndirectX => row.10,
        AddressingMode::IndirectY => row.11,
        AddressingMode::Relative => row.12,
    }
}

/// Looks up the opcode byte of `m` in `mode`; `None` where the pair is not
/// an instruction of the CPU.
pub fn resolve(m: Mnemonic, mode: AddressingMode) -> (r: Option<u8>)
    ensures
        r == opcode_of(m, mode),
{
    match row_of(m) {
        Some(row) => {
            let e = entry_of(row, mode);
            if e < NO {
                Some(e as u8)
            } else {
                None
            }
        },
        None => None,
    }
}

/// Whether the table has `m` in the given mode.
pub fn supports(m: Mnemonic, mode: AddressingMode) -> (r: bool)
    ensures
        r == has_mode(m, mode),
{
    resolve(m, mode).is_some()
}

/// Recognises a mnemonic from its text, ignoring case.
pub open spec fn upper(c: u8) -> u8 {
    if 97 <= c <= 122 {
        (c - 32) as u8
    } else {
        c
    }
}

pub open spec fn mnemonic_of(text: Seq<u8>) -> Option<Mnemonic> {
    if text.len() == 3 && is_mnemonic(Mnemonic(upper(text[0]), upper(text[1]), upper(text[2]))) {
        Some(Mnemonic(upper(text[0]), upper(text[1]), upper(text[2])))
    } else {
        None
    }
}

pub fn to_upper(c: u8) -> (r: u8)
    ensures
        r == upper(c),
{
    if 97 <= c && c <= 122 {
        c - 32
    } else {
        c
    }
}

/// Reads `text` as a mnemonic, ignoring case.
pub fn mnemonic_from(text: &[u8]) -> (r: Option<Mnemonic>)
    ensures
        r == mnemonic_of(text@),
{
    if text.len() != 3 {
        return None;
    }
    let m = Mnemonic(to_upper(text[0]), to_upper(text[1]), to_upper(text[2]));
    if row_of(m).is_some() {
        Some(m)
    } else {
        None
    }
}

} // verus!
