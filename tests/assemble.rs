use asm6502::codegen::CodeGenErrorKind;
use asm6502::lexer::ParseErrorKind;
use asm6502::ast::AstErrorKind;
use asm6502::{assemble, assemble_string, AssemblyError, Stage};

fn bytes(code: &str) -> Vec<u8> {
    assemble_string(code).expect("assembles")
}

fn codegen_kind(code: &str) -> CodeGenErrorKind {
    match assemble(code) {
        Err(AssemblyError::CodeGen(e)) => e.kind,
        other => panic!("expected a code generation error, got {:?}", other.map(|a| a.bytes)),
    }
}

fn parse_kind(code: &str) -> ParseErrorKind {
    match assemble(code) {
        Err(AssemblyError::Parse(e)) => e.kind,
        other => panic!("expected a parse error, got {:?}", other.map(|a| a.bytes)),
    }
}

fn ast_kind(code: &str) -> AstErrorKind {
    match assemble(code) {
        Err(AssemblyError::Ast(e)) => e.kind,
        other => panic!("expected a tree error, got {:?}", other.map(|a| a.bytes)),
    }
}

#[test]
fn test_assemble_string() {
    let code = "LDA #$00";
    let result = assemble_string(code);
    assert!(result.is_ok());
    assert_eq!(result.unwrap(), vec![0xA9, 0x00]);
}

#[test]
fn forward_label_reference() {
    let out = assemble("JMP target\ntarget:\nNOP").unwrap();
    assert_eq!(out.bytes, vec![0x4C, 0x03, 0x00, 0xEA]);
    assert_eq!(out.origin, 0);
}

#[test]
fn branch_too_far_ahead() {
    assert_eq!(codegen_kind("BNE *+130"), CodeGenErrorKind::BranchOutOfRange);
    assert_eq!(codegen_kind("BNE ahead\n.res 128\nahead: NOP"), CodeGenErrorKind::BranchOutOfRange);
}

#[test]
fn branch_within_range() {
    assert_eq!(bytes("BNE *+120"), vec![0xD0, 118]);
    let out = bytes("BEQ ahead\n.res 118\nahead: NOP");
    assert_eq!(out.len(), 121);
    assert_eq!(&out[..2], &[0xF0, 118]);
    assert_eq!(out[120], 0xEA);
}

#[test]
fn branch_backwards() {
    assert_eq!(bytes("loop: DEX\nBNE loop"), vec![0xCA, 0xD0, 0xFD]);
    assert_eq!(bytes("BNE *-126"), vec![0xD0, 0x80]);
    assert_eq!(codegen_kind("BNE *-127"), CodeGenErrorKind::BranchOutOfRange);
}

#[test]
fn duplicate_label() {
    match assemble("foo: NOP\nbar: NOP\nfoo: NOP") {
        Err(AssemblyError::CodeGen(e)) => {
            assert_eq!(e.kind, CodeGenErrorKind::DuplicateSymbol);
            assert_eq!(e.position.line, 3);
        },
        _ => panic!("expected DuplicateSymbol"),
    }
}

#[test]
fn debug_map_two_instructions() {
    let out = assemble("LDA #$01\nSTA $0200").unwrap();
    assert_eq!(out.bytes, vec![0xA9, 0x01, 0x8D, 0x00, 0x02]);
    assert_eq!(out.offset_to_line.get(&0), Some(&1));
    assert_eq!(out.offset_to_line.get(&2), Some(&2));
    assert_eq!(out.offset_to_line.get(&1), None);
    assert_eq!(out.offset_to_line.len(), 2);
}

#[test]
fn undefined_symbol_is_named() {
    let code = "LDA undefined_label";
    match assemble(code) {
        Err(AssemblyError::CodeGen(e)) => {
            assert_eq!(e.kind, CodeGenErrorKind::UndefinedSymbol);
            let sp = e.symbol.expect("names the symbol");
            assert_eq!(&code[sp.start..sp.end], "undefined_label");
        },
        _ => panic!("expected UndefinedSymbol"),
    }
}

#[test]
fn assembling_twice_agrees() {
    let code = ".org $0600\nstart: LDX #3\nloop: DEX\nBNE loop\nJMP start\n";
    let a = assemble(code).unwrap();
    let b = assemble(code).unwrap();
    assert_eq!(a.bytes, b.bytes);
    assert_eq!(a.offset_to_line, b.offset_to_line);
    assert_eq!(a.origin, b.origin);
}

#[test]
fn number_bases() {
    assert_eq!(bytes("LDA #$FF"), vec![0xA9, 0xFF]);
    assert_eq!(bytes("LDA #%1010"), vec![0xA9, 10]);
    assert_eq!(bytes("LDA #0x1f"), vec![0xA9, 0x1F]);
    assert_eq!(bytes("LDA #200"), vec![0xA9, 200]);
}

#[test]
fn bad_number_literals() {
    assert_eq!(parse_kind("LDA #$G1"), ParseErrorKind::InvalidNumberLiteral);
    assert_eq!(parse_kind("LDA #70000"), ParseErrorKind::InvalidNumberLiteral);
    assert_eq!(parse_kind("LDA #%102"), ParseErrorKind::InvalidNumberLiteral);
    assert_eq!(parse_kind("LDA #12ab"), ParseErrorKind::InvalidNumberLiteral);
}

#[test]
fn parse_errors() {
    assert_eq!(parse_kind("LDA #1 2"), ParseErrorKind::UnexpectedToken);
    assert_eq!(parse_kind(".byte \"abc"), ParseErrorKind::UnterminatedString);
    assert_eq!(parse_kind("LDA ($10,Y)"), ParseErrorKind::InvalidAddressingSyntax);
    assert_eq!(parse_kind("foo bar"), ParseErrorKind::UnexpectedToken);
}

#[test]
fn parse_error_position() {
    match assemble("NOP\n  LDA #$ZZ") {
        Err(e) => {
            assert_eq!(e.stage(), Stage::Parse);
            assert_eq!(e.position().line, 2);
            assert_eq!(e.position().column, 8);
        },
        Ok(_) => panic!("expected an error"),
    }
}

#[test]
fn tree_errors() {
    assert_eq!(ast_kind(".foo 1"), AstErrorKind::UnknownDirective);
    assert_eq!(ast_kind(".org"), AstErrorKind::MalformedDirectiveArguments);
    assert_eq!(ast_kind(".word \"ab\""), AstErrorKind::MalformedDirectiveArguments);
    assert_eq!(ast_kind("NOP #1"), AstErrorKind::InvalidOperandForMnemonic);
    assert_eq!(ast_kind("LDA ($10)"), AstErrorKind::InvalidOperandForMnemonic);
}

#[test]
fn code_generation_errors() {
    assert_eq!(codegen_kind("STX $1234,Y"), CodeGenErrorKind::IllegalAddressingMode);
    assert_eq!(codegen_kind(".byte 256"), CodeGenErrorKind::ValueOutOfRange);
    assert_eq!(codegen_kind("LDA #$100"), CodeGenErrorKind::ValueOutOfRange);
    assert_eq!(codegen_kind(".org $FFFF\nNOP\nNOP"), CodeGenErrorKind::AddressOverflow);
    assert_eq!(codegen_kind(".org $10\nNOP\n.org $05"), CodeGenErrorKind::OriginBackwards);
    assert_eq!(codegen_kind(".org later\nlater: NOP"), CodeGenErrorKind::UndefinedSymbol);
}

#[test]
fn zero_page_and_absolute_forms() {
    assert_eq!(bytes("LDA $10"), vec![0xA5, 0x10]);
    assert_eq!(bytes("LDA $10,X"), vec![0xB5, 0x10]);
    assert_eq!(bytes("LDA $1234"), vec![0xAD, 0x34, 0x12]);
    assert_eq!(bytes("LDA $10,Y"), vec![0xB9, 0x10, 0x00]);
    assert_eq!(bytes("LDX $10,Y"), vec![0xB6, 0x10]);
    assert_eq!(bytes("JMP $10"), vec![0x4C, 0x10, 0x00]);
}

#[test]
fn label_in_zero_page_is_absolute() {
    assert_eq!(bytes("LDA here\nhere: NOP"), vec![0xAD, 0x03, 0x00, 0xEA]);
}

#[test]
fn other_addressing_modes() {
    assert_eq!(bytes("ASL"), vec![0x0A]);
    assert_eq!(bytes("ASL A"), vec![0x0A]);
    assert_eq!(bytes("JMP ($1234)"), vec![0x6C, 0x34, 0x12]);
    assert_eq!(bytes("LDA ($10,X)"), vec![0xA1, 0x10]);
    assert_eq!(bytes("LDA ($10),Y"), vec![0xB1, 0x10]);
    assert_eq!(bytes("rts"), vec![0x60]);
}

#[test]
fn directives() {
    let out = assemble(".org $0600\nstart: JMP start").unwrap();
    assert_eq!(out.origin, 0x0600);
    assert_eq!(out.bytes, vec![0x4C, 0x00, 0x06]);
    assert_eq!(bytes(".word $1234, 1"), vec![0x34, 0x12, 0x01, 0x00]);
    assert_eq!(bytes(".byte \"AB\", 1"), vec![65, 66, 1]);
    assert_eq!(bytes(".res 3"), vec![0, 0, 0]);
    assert_eq!(bytes("NOP\n.org 4\nNOP"), vec![0xEA, 0, 0, 0, 0xEA]);
}

#[test]
fn expressions_and_comments() {
    assert_eq!(bytes("LDA #2+3-1 ; four"), vec![0xA9, 4]);
    assert_eq!(bytes(".org $10\nJMP *"), vec![0x4C, 0x10, 0x00]);
    assert_eq!(bytes("; only a comment\n\n  nop  "), vec![0xEA]);
    assert_eq!(bytes("tbl: .byte tbl+1"), vec![1]);
}

#[test]
fn empty_source() {
    let out = assemble("").unwrap();
    assert!(out.bytes.is_empty());
    assert!(out.offset_to_line.is_empty());
}

#[test]
fn constants() {
    assert_eq!(bytes("val = 5\nLDA #val"), vec![0xA9, 5]);
    // a symbol's value is not known while sizes are fixed: the absolute form
    assert_eq!(bytes("zp = $10\nLDA zp"), vec![0xAD, 0x10, 0x00]);
    assert_eq!(bytes(".org $0300\nhere = * + 2\nJMP here"), vec![0x4C, 0x02, 0x03]);
    assert_eq!(codegen_kind("a1 = 1\na1 = 2"), CodeGenErrorKind::DuplicateSymbol);
    assert_eq!(codegen_kind("x1 = later\nlater: NOP"), CodeGenErrorKind::UndefinedSymbol);
    assert_eq!(codegen_kind("neg = 0-1"), CodeGenErrorKind::ValueOutOfRange);
    assert_eq!(parse_kind("c = "), ParseErrorKind::UnexpectedToken);
}
