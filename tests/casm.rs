use cupana::casm::{instruction_size, Assembler};
use cupana::symbols::AliasTable;
use cupana::casm_lexer::{tokenize, Token};
use cupana::casm_parser::{parse_tokens, Mnemonic, Operand, Statement};
use cupana::error::AssembleError;

fn assemble(src: &str) -> Result<Vec<u8>, AssembleError> {
    Assembler::new().assemble_string(src)
}

#[test]
fn lexes_every_token_kind() {
    let toks = tokenize("lbl: mov R1, r2* ; note\n$12 #fF 0x10 0b101 !al name .org \"hi\" :").unwrap();
    assert_eq!(
        toks,
        vec![
            Token::Label("lbl".to_string()),
            Token::Mnemonic("mov".to_string()),
            Token::Register(1),
            Token::Comma,
            Token::RegisterIndirect(2),
            Token::Newline,
            Token::DecimalLiteral(12),
            Token::HexLiteral(0xFF),
            Token::HexLiteral(0x10),
            Token::BinaryLiteral(5),
            Token::Alias("al".to_string()),
            Token::Identifier("name".to_string()),
            Token::Directive("org".to_string()),
            Token::CharString("hi".to_string()),
            Token::Colon,
        ]
    );
}

#[test]
fn lexer_errors() {
    assert_eq!(tokenize("NOP\n@"), Err(AssembleError::InvalidCharacter(2)));
    assert_eq!(tokenize("$65536"), Err(AssembleError::InvalidLiteral(1)));
    assert_eq!(tokenize("R16"), Err(AssembleError::InvalidLiteral(1)));
    assert_eq!(tokenize("$65535"), Ok(vec![Token::DecimalLiteral(65535)]));
}

#[test]
fn parses_statements_and_aliases() {
    let toks = tokenize("!five $5\nstart: ADD R0, !five\n.word start\nHLT").unwrap();
    let prog = parse_tokens(&toks).unwrap();
    assert_eq!(prog.statements.len(), 5);
    assert_eq!(prog.statements[0], Statement::AliasDeclaration("five".to_string(), Operand::Literal(5)));
    assert_eq!(prog.statements[1], Statement::Label("start".to_string()));
    match &prog.statements[2] {
        Statement::Instruction(i) => {
            assert_eq!(i.mnemonic, Mnemonic::Add);
            assert_eq!(i.operands, vec![Operand::Register(0), Operand::Alias("five".to_string())]);
        }
        _ => panic!("expected an instruction"),
    }
    assert_eq!(prog.aliases.get("five"), Some(&Operand::Literal(5)));
}

#[test]
fn parse_errors() {
    assert_eq!(parse_tokens(&tokenize("MOV R0 R1").unwrap()).err(), Some(AssembleError::ParseError(1)));
    assert_eq!(parse_tokens(&tokenize("\n, NOP").unwrap()).err(), Some(AssembleError::InvalidInstruction(2)));
    assert_eq!(parse_tokens(&tokenize("HLT R0").unwrap()).err(), Some(AssembleError::ParseError(1)));
}

#[test]
fn emits_exact_bytes() {
    let img = assemble("MOV R1, #1234\nMOV R0*, $7\nJZ done\ndone: JSB done\n.byte $9\n.word \"AB\"").unwrap();
    assert_eq!(&img[..19], &[0x11, 1, 0x34, 0x12, 0x16, 0, 7, 0, 0x52, 11, 0, 0x5E, 11, 0, 9, 0x41, 0, 0x42, 0]);
    assert_eq!(img.len(), 0x8000);
}

#[test]
fn alias_chain_and_cycle() {
    let img = assemble("!a !b\n!b R3\nINC !a").unwrap();
    assert_eq!(&img[..2], &[0x2A, 3]);
    assert_eq!(assemble("!a !a\nINC !a"), Err(AssembleError::AliasDepthExceeded("a".to_string())));
    assert_eq!(assemble("INC !nope"), Err(AssembleError::UnknownAlias("nope".to_string())));
}

#[test]
fn codegen_errors() {
    assert_eq!(assemble("x: NOP\nx: NOP"), Err(AssembleError::DuplicateLabel("x".to_string())));
    assert_eq!(assemble("JMP nowhere"), Err(AssembleError::UnknownLabel("nowhere".to_string())));
    assert_eq!(assemble("ADD $1, R0"), Err(AssembleError::InvalidOperands));
    assert_eq!(assemble(".data $1"), Err(AssembleError::UnknownDirective("data".to_string())));
    assert_eq!(assemble(".org #7FFF\n.word $1"), Err(AssembleError::ImageOverflow));
}

#[test]
fn pass_sizes_match_emission() {
    let src = "MOV R0, R1\nMOV R0, $1\nMOV $1, R0\nMOV $1, $2\nADD R0, $1\nJMP R1\nJMP end\nPHR R0\nend: HLT";
    let img = assemble(src).unwrap();
    // 3 + 4 + 4 + 5 + 4 + 2 + 3 + 2 = 27: `end` sits at 27.
    assert_eq!(img[27], 0x01);
    assert_eq!(&img[25..27], &[0x17, 0]);
    assert_eq!(&img[22..25], &[0x50, 27, 0]);
}

#[test]
fn operand_count_must_fit_the_mnemonic() {
    let aliases = AliasTable::new();
    assert_eq!(instruction_size(Mnemonic::Mov, &vec![], &aliases), Err(AssembleError::InvalidOperands));
    assert_eq!(
        instruction_size(Mnemonic::Inc, &vec![Operand::Register(0), Operand::Register(1)], &aliases),
        Err(AssembleError::InvalidOperands)
    );
    assert_eq!(instruction_size(Mnemonic::Mov, &vec![Operand::Register(0), Operand::Literal(1)], &aliases), Ok(4));
}
