use cupana::asm_parser::{parse_line, InstructionType, Operand, ParsedLine, ParserError, Register, Token};

#[test]
fn test_parse_empty_line() {
    assert_eq!(parse_line(&[]), Ok(ParsedLine::Empty));
    assert_eq!(parse_line(&[Token::Comment("test".to_string())]), Ok(ParsedLine::Empty));
}

#[test]
fn test_parse_label_definition() {
    let tokens = vec![
        Token::LabelIdentifier("MY_LABEL".to_string()),
        Token::Colon,
    ];
    assert_eq!(parse_line(&tokens), Ok(ParsedLine::LabelDefinition("MY_LABEL".to_string())));
}

#[test]
fn test_parse_label_definition_with_comment() {
    let tokens = vec![
        Token::LabelIdentifier("MY_LABEL".to_string()),
        Token::Colon,
        Token::Comment("this is a label".to_string()),
    ];
    assert_eq!(parse_line(&tokens), Ok(ParsedLine::LabelDefinition("MY_LABEL".to_string())));
}

#[test]
fn test_parse_error_label_trailing_tokens() {
    let tokens_invalid_after_label = vec![
        Token::LabelIdentifier("MY_LABEL".to_string()),
        Token::Colon,
        Token::Register(Register(1)), 
    ];
    assert!(matches!(parse_line(&tokens_invalid_after_label), Err(ParserError::UnexpectedToken(Token::Register(Register(1))))));
}

#[test]
fn test_parse_nop() {
    assert_eq!(parse_line(&[Token::Mnemonic("NOP".to_string())]), Ok(ParsedLine::Instruction(InstructionType::Nop)));
}

// ... (rest of the tests from previous correct version) ...
#[test]
fn test_parse_hlt() {
    let tokens = vec![Token::Mnemonic("HLT".to_string())];
    assert_eq!(parse_line(&tokens), Ok(ParsedLine::Instruction(InstructionType::Hlt)));
}

#[test]
fn test_parse_ret() {
    let tokens = vec![Token::Mnemonic("RET".to_string())];
    assert_eq!(parse_line(&tokens), Ok(ParsedLine::Instruction(InstructionType::Ret)));
}

#[test]
fn test_parse_mov_reg_reg() {
    let tokens = vec![
        Token::Mnemonic("MOV".to_string()),
        Token::Register(Register(1)),
        Token::Comma,
        Token::Register(Register(2)),
    ];
    assert_eq!(
        parse_line(&tokens),
        Ok(ParsedLine::Instruction(InstructionType::Mov {
            dest: Operand::Register(Register(1)),
            src: Operand::Register(Register(2)),
        }))
    );
}

#[test]
fn test_parse_mov_reg_lit() {
    let tokens = vec![
        Token::Mnemonic("MOV".to_string()),
        Token::Register(Register(0)),
        Token::Comma,
        Token::Literal(123),
    ];
    assert_eq!(
        parse_line(&tokens),
        Ok(ParsedLine::Instruction(InstructionType::Mov {
            dest: Operand::Register(Register(0)),
            src: Operand::Literal(123),
        }))
    );
}

#[test]
fn test_parse_mov_reg_deref() {
    let tokens = vec![
        Token::Mnemonic("MOV".to_string()),
        Token::Register(Register(3)),
        Token::Comma,
        Token::DereferencedRegister(Register(4)),
    ];
    assert_eq!(
        parse_line(&tokens),
        Ok(ParsedLine::Instruction(InstructionType::Mov {
            dest: Operand::Register(Register(3)),
            src: Operand::DereferencedRegister(Register(4)),
        }))
    );
}

 #[test]
fn test_parse_mov_deref_lit() { 
    let tokens = vec![
        Token::Mnemonic("MOV".to_string()),
        Token::DereferencedRegister(Register(1)),
        Token::Comma,
        Token::Literal(0xAB),
    ];
    assert_eq!(
        parse_line(&tokens),
        Ok(ParsedLine::Instruction(InstructionType::Mov {
            dest: Operand::DereferencedRegister(Register(1)),
            src: Operand::Literal(0xAB),
        }))
    );
}

#[test]
fn test_parse_add_reg_reg() {
    let tokens = vec![
        Token::Mnemonic("ADD".to_string()),
        Token::Register(Register(0)),
        Token::Comma,
        Token::Register(Register(1)),
    ];
    assert_eq!(
        parse_line(&tokens),
        Ok(ParsedLine::Instruction(InstructionType::Add {
            dest: Operand::Register(Register(0)),
            src: Operand::Register(Register(1)),
        }))
    );
}

#[test]
fn test_parse_add_reg_lit() {
    let tokens = vec![
        Token::Mnemonic("ADD".to_string()),
        Token::Register(Register(0)),
        Token::Comma,
        Token::Literal(10),
    ];
    assert_eq!(
        parse_line(&tokens),
        Ok(ParsedLine::Instruction(InstructionType::Add {
            dest: Operand::Register(Register(0)),
            src: Operand::Literal(10),
        }))
    );
}

#[test]
fn test_parse_inc_reg() {
    let tokens = vec![
        Token::Mnemonic("INC".to_string()),
        Token::Register(Register(0)),
    ];
    assert_eq!(
        parse_line(&tokens),
        Ok(ParsedLine::Instruction(InstructionType::Inc {
            reg: Operand::Register(Register(0)),
        }))
    );
}

#[test]
fn test_parse_dec_reg() {
    let tokens = vec![
        Token::Mnemonic("DEC".to_string()),
        Token::Register(Register(1)),
    ];
    assert_eq!(
        parse_line(&tokens),
        Ok(ParsedLine::Instruction(InstructionType::Dec {
            reg: Operand::Register(Register(1)),
        }))
    );
}

#[test]
fn test_parse_jmp_reg() {
     let tokens = vec![
        Token::Mnemonic("JMP".to_string()),
        Token::Register(Register(2)),
    ];
    assert_eq!(
        parse_line(&tokens),
        Ok(ParsedLine::Instruction(InstructionType::Jmp {
            target: Operand::Register(Register(2)),
        }))
    );
}

#[test]
fn test_parse_jmp_lit() {
    let tokens = vec![
        Token::Mnemonic("JMP".to_string()),
        Token::Literal(0xC000),
    ];
    assert_eq!(
        parse_line(&tokens),
        Ok(ParsedLine::Instruction(InstructionType::Jmp {
            target: Operand::Literal(0xC000),
        }))
    );
}

#[test]
fn test_parse_call_lit() {
    let tokens = vec![
        Token::Mnemonic("CALL".to_string()),
        Token::Literal(0xD000),
    ];
    assert_eq!(
        parse_line(&tokens),
        Ok(ParsedLine::Instruction(InstructionType::Call {
            target: Operand::Literal(0xD000),
        }))
    );
}

#[test]
fn test_parse_directive_org() {
    let tokens = vec![
        Token::DotDirective(".ORG".to_string()),
        Token::Literal(0x1000),
    ];
    assert_eq!(
        parse_line(&tokens),
        Ok(ParsedLine::Directive {
            name: ".ORG".to_string(),
            args: vec![Operand::Literal(0x1000)],
        })
    );
}

#[test]
fn test_parse_directive_db_multiple_args() {
    let tokens = vec![
        Token::DotDirective(".DB".to_string()),
        Token::Literal(10),
        Token::Comma,
        Token::Literal(20),
        Token::Comma,
        Token::Register(Register(1)), 
    ];
     assert_eq!(
        parse_line(&tokens),
        Ok(ParsedLine::Directive {
            name: ".DB".to_string(),
            args: vec![Operand::Literal(10), Operand::Literal(20), Operand::Register(Register(1))],
        })
    );
}

#[test]
fn test_parse_error_unknown_mnemonic() {
    let tokens = vec![Token::Mnemonic("FOO".to_string()), Token::Register(Register(0))];
    match parse_line(&tokens) {
        Ok(ParsedLine::Instruction(InstructionType::UnknownInstruction { name })) => {
            assert_eq!(name, "FOO");
        }
        _ => panic!("Expected UnknownInstruction error"),
    }
}

#[test]
fn test_parse_error_label_identifier_as_mnemonic() {
    let tokens = vec![Token::LabelIdentifier("MYLABEL".to_string()), Token::Register(Register(0))];
     match parse_line(&tokens) {
        Ok(ParsedLine::Instruction(InstructionType::UnknownInstruction { name })) => {
            assert_eq!(name, "MYLABEL");
        }
        _ => panic!("Expected UnknownInstruction for label-like mnemonic"),
    }
}

#[test]
fn test_parse_error_missing_operands_mov() {
    let tokens = vec![Token::Mnemonic("MOV".to_string()), Token::Register(Register(0))];
    assert!(matches!(parse_line(&tokens), Err(ParserError::MissingComma(_)) | Err(ParserError::MissingOperand)));
}

#[test]
fn test_parse_error_missing_operands_add() {
    let tokens = vec![Token::Mnemonic("ADD".to_string())];
    assert!(matches!(parse_line(&tokens), Err(ParserError::MissingOperand)));
}

#[test]
fn test_parse_error_too_many_operands_hlt() {
    let tokens = vec![Token::Mnemonic("HLT".to_string()), Token::Register(Register(0))];
    assert!(matches!(parse_line(&tokens), Err(ParserError::TrailingTokens(_))));
}

#[test]
fn test_parse_error_too_many_operands_mov() {
     let tokens = vec![
        Token::Mnemonic("MOV".to_string()),
        Token::Register(Register(0)),
        Token::Comma,
        Token::Register(Register(1)),
        Token::Comma, 
        Token::Register(Register(2)), 
    ];
    assert!(matches!(parse_line(&tokens), Err(ParserError::TrailingTokens(_))));
}

#[test]
fn test_parse_error_inc_literal() {
    let tokens = vec![Token::Mnemonic("INC".to_string()), Token::Literal(10)];
    assert!(matches!(parse_line(&tokens), Err(ParserError::InvalidOperandType(Token::Literal(10)))));
}

#[test]
fn test_parse_error_call_register() { 
    let tokens = vec![Token::Mnemonic("CALL".to_string()), Token::Register(Register(0))];
    assert!(matches!(parse_line(&tokens), Err(ParserError::InvalidOperandType(Token::Register(Register(0))))));
}

#[test]
fn test_parse_error_missing_comma_mov() {
    let tokens = vec![
        Token::Mnemonic("MOV".to_string()),
        Token::Register(Register(0)),
        Token::Register(Register(1)),
    ];
    assert!(matches!(parse_line(&tokens), Err(ParserError::MissingComma(Token::Register(Register(0))))));
}

#[test]
fn test_parse_error_unexpected_comma_hlt() {
    let tokens = vec![Token::Mnemonic("HLT".to_string()), Token::Comma];
    assert!(matches!(parse_line(&tokens), Err(ParserError::TrailingTokens(_))));
}

#[test]
fn test_parse_error_invalid_label_format_colon_first() {
    let tokens = vec![Token::Colon, Token::LabelIdentifier("MY_LABEL".to_string())];
    assert!(matches!(parse_line(&tokens), Err(ParserError::UnexpectedToken(Token::Colon))));
}

#[test]
fn test_parse_error_directive_missing_arg() {
    let tokens = vec![Token::DotDirective(".ORG".to_string())]; 
    assert!(matches!(parse_line(&tokens), Err(ParserError::MissingOperand)));
}

#[test]
fn test_parse_error_directive_invalid_arg_type() {
    let tokens = vec![
        Token::DotDirective(".ORG".to_string()),
        Token::Register(Register(1)), 
    ];
    assert_eq!(
        parse_line(&tokens),
        Ok(ParsedLine::Directive {
            name: ".ORG".to_string(),
            args: vec![Operand::Register(Register(1))],
        })
    );
}

#[test]
fn test_parse_error_directive_trailing_comma() {
    let tokens = vec![
        Token::DotDirective(".DB".to_string()),
        Token::Literal(10),
        Token::Comma,
    ];
    assert!(matches!(parse_line(&tokens), Err(ParserError::MissingOperand)));
}

#[test]
fn test_parse_line_label_then_instruction() {
    let tokens = vec![
        Token::LabelIdentifier("START".to_string()),
        Token::Colon,
        Token::Mnemonic("MOV".to_string()),
        Token::Register(Register(1)),
        Token::Comma,
        Token::Register(Register(2)),
    ];
    assert_eq!(
        parse_line(&tokens),
        Ok(ParsedLine::Instruction(InstructionType::Mov {
            dest: Operand::Register(Register(1)),
            src: Operand::Register(Register(2)),
        }))
    );
}

#[test]
fn test_parse_line_label_then_directive() {
    let tokens = vec![
        Token::LabelIdentifier("DATA_AREA".to_string()),
        Token::Colon,
        Token::DotDirective(".ORG".to_string()),
        Token::Literal(0x2000),
    ];
     assert_eq!(
        parse_line(&tokens),
        Ok(ParsedLine::Directive {
            name: ".ORG".to_string(),
            args: vec![Operand::Literal(0x2000)],
        })
    );
}

#[test]
fn test_parse_error_label_then_invalid() {
    let tokens = vec![
        Token::LabelIdentifier("BAD".to_string()),
        Token::Colon,
        Token::Comma, 
    ];
    assert!(matches!(parse_line(&tokens), Err(ParserError::UnexpectedToken(Token::Comma))));
}

#[test]
fn test_parse_instruction_with_leading_whitespace_tokens_is_handled_by_lexer() {
    let tokens = vec![
        Token::Comment("leading comment".to_string()),
        Token::Mnemonic("NOP".to_string()),
    ];
     assert_eq!(parse_line(&tokens), Ok(ParsedLine::Instruction(InstructionType::Nop)));
}
