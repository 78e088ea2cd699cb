use cupana::asm_codegen::{calculate_instruction_size, CodeGenError};
use cupana::asm_driver::{assemble_source, tokenize_line, AssemblerError, LexerError};
use cupana::asm_parser::{InstructionType, Operand, Register, Token};
use cupana::symbols::SymbolTable;

#[test]
fn line_tokens_follow_the_source() {
    assert_eq!(
        tokenize_line("start: MOV R1, R2* ; copy").unwrap(),
        vec![
            Token::LabelIdentifier("start".to_string()),
            Token::Colon,
            Token::Mnemonic("MOV".to_string()),
            Token::Register(Register(1)),
            Token::Comma,
            Token::DereferencedRegister(Register(2)),
        ]
    );
    assert_eq!(tokenize_line(".org #1000").unwrap(), vec![Token::DotDirective(".org".to_string()), Token::Literal(0x1000)]);
    assert!(matches!(tokenize_line("!alias"), Err(LexerError::UnknownToken(_))));
}

#[test]
fn instruction_sizes_in_bytes() {
    let t = SymbolTable::new();
    assert_eq!(calculate_instruction_size(&InstructionType::Nop, &t), Ok(2));
    let mov = InstructionType::Mov { dest: Operand::Register(Register(0)), src: Operand::Literal(5) };
    assert_eq!(calculate_instruction_size(&mov, &t), Ok(4));
    let jmp = InstructionType::Jmp { target: Operand::Label("x".to_string()) };
    assert_eq!(calculate_instruction_size(&jmp, &t), Ok(4));
    let bad = InstructionType::And { dest: Operand::Register(Register(0)), src: Operand::Literal(1) };
    assert!(calculate_instruction_size(&bad, &t).is_err());
}

#[test]
fn assembles_words_with_labels() {
    let src = "start:\n  MOV R1, $5\n  ADD R1, R2\n  JMP start\n  HLT\n";
    let code = assemble_source(src).unwrap();
    assert_eq!(code, vec![0x1110, 5, 0x2012, 0x5000, 0, 0x0100]);
}

#[test]
fn org_pads_with_zero_words() {
    let code = assemble_source("NOP\n.ORG #0008\nHLT").unwrap();
    assert_eq!(code, vec![0, 0, 0, 0, 0x0100]);
}

#[test]
fn driver_errors_carry_their_line() {
    match assemble_source("a:\nNOP\na:\nNOP") {
        Err(AssemblerError::Driver { line_number, message }) => {
            assert_eq!(line_number, Some(3));
            assert_eq!(message, "Duplicate label a");
        }
        other => panic!("unexpected {:?}", other),
    }
    match assemble_source("NOP\nJMP nowhere") {
        Err(AssemblerError::CodeGen { line_number, kind, .. }) => {
            assert_eq!(line_number, 2);
            assert_eq!(kind, CodeGenError::MissingLabel("nowhere".to_string()));
        }
        other => panic!("unexpected {:?}", other),
    }
    assert!(matches!(assemble_source("NOP\nMOV R1"), Err(AssemblerError::Parser { line_number: 2, .. })));
    assert!(matches!(assemble_source("@"), Err(AssemblerError::Lexer { line_number: 1, .. })));
}

#[test]
fn crlf_lines_assemble() {
    assert_eq!(assemble_source("NOP\r\nHLT\r\n").unwrap(), vec![0x0000, 0x0100]);
}

#[test]
fn assembler_object_assembles_its_source() {
    let a = cupana::asm_driver::CupanaAssembler::new("NOP\nHLT");
    assert_eq!(a.assemble(), Ok(vec![0x0000, 0x0100]));
}
