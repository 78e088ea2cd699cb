use cupana::asm_codegen::{generate_instruction_code, CodeGenError, Opcode};
use cupana::asm_parser::{InstructionType, Operand, Register};
use cupana::symbols::SymbolTable;

fn assert_code_with_symtable(instruction: InstructionType, expected_code: Vec<u16>, symbol_table: &SymbolTable) {
    let current_address = 0u16;
    match generate_instruction_code(&instruction, symbol_table, current_address) {
        Ok(code) => assert_eq!(code, expected_code),
        Err(e) => panic!(
            "Code generation failed for {:?}: {:?}, expected {:?}",
            instruction, e, expected_code
        ),
    }
}

fn assert_code(instruction: InstructionType, expected_code: Vec<u16>) {
    let symbol_table = SymbolTable::new();
    assert_code_with_symtable(instruction, expected_code, &symbol_table);
}

fn assert_error_with_symtable(instruction: InstructionType, expected_error_variant: CodeGenError, symbol_table: &SymbolTable) {
    let current_address = 0u16;
    match generate_instruction_code(&instruction, symbol_table, current_address) {
        Ok(code) => panic!(
            "Expected error {:?} for {:?}, but got code {:?}",
            expected_error_variant, instruction, code
        ),
        Err(e) => match (&e, &expected_error_variant) {
            (CodeGenError::UnsupportedInstruction(_), CodeGenError::UnsupportedInstruction(_)) => {}
            (CodeGenError::InvalidOperandForInstruction(_), CodeGenError::InvalidOperandForInstruction(_)) => {}
            (CodeGenError::MissingLabel(_), CodeGenError::MissingLabel(_)) => {}
            (CodeGenError::OperandIsNotRegister(_), CodeGenError::OperandIsNotRegister(_)) => {}
            (CodeGenError::OperandIsNotLiteral(_), CodeGenError::OperandIsNotLiteral(_)) => {}
            (CodeGenError::OperandIsNotDereferencedRegister(_), CodeGenError::OperandIsNotDereferencedRegister(_)) => {}
            (CodeGenError::OperandCombinationNotSupported(_), CodeGenError::OperandCombinationNotSupported(_)) => {}
            _ => assert_eq!(e, expected_error_variant),
        },
    }
}

fn assert_error(instruction: InstructionType, expected_error_variant: CodeGenError) {
    let symbol_table = SymbolTable::new();
    assert_error_with_symtable(instruction, expected_error_variant, &symbol_table);
}

#[test]
fn test_nop() {
    assert_code(InstructionType::Nop, vec![(Opcode::Nop.to_byte() as u16) << 8]);
}

#[test]
fn test_mov_reg_reg() {
    assert_code(
        InstructionType::Mov {
            dest: Operand::Register(Register(1)),
            src: Operand::Register(Register(2)),
        },
        vec![((Opcode::MovRegReg.to_byte() as u16) << 8) | (1 << 4) | 2],
    );
}

#[test]
fn test_inc_reg_error_literal() {
    assert_error(
        InstructionType::Inc { reg: Operand::Literal(7) },
        CodeGenError::OperandIsNotRegister(Operand::Literal(7)),
    );
}

#[test]
fn test_jmp_label() {
    let mut sym = SymbolTable::new();
    sym.insert("MY_LABEL".to_string(), 0x1000);
    assert_code_with_symtable(
        InstructionType::Jmp { target: Operand::Label("MY_LABEL".to_string()) },
        vec![(Opcode::JmpLit.to_byte() as u16) << 8, 0x1000],
        &sym,
    );
}

#[test]
fn test_jmp_label_missing() {
    assert_error(
        InstructionType::Jmp { target: Operand::Label("MISSING_LABEL".to_string()) },
        CodeGenError::MissingLabel("MISSING_LABEL".to_string()),
    );
}

#[test]
fn test_call_reg_error() {
    assert_error(
        InstructionType::Call { target: Operand::Register(Register(1)) },
        CodeGenError::InvalidOperandForInstruction("CALL expects Literal or Label".to_string()),
    );
}

#[test]
fn codegen_mov_reg_literal_takes_two_words() {
    assert_code(
        InstructionType::Mov { dest: Operand::Register(Register(3)), src: Operand::Literal(0xBEEF) },
        vec![0x1130, 0xBEEF],
    );
}

#[test]
fn codegen_register_out_of_range() {
    assert_error(
        InstructionType::Add { dest: Operand::Register(Register(16)), src: Operand::Register(Register(1)) },
        CodeGenError::RegisterIdOutOfRange(16),
    );
}

#[test]
fn codegen_unknown_instruction() {
    assert_error(
        InstructionType::UnknownInstruction { name: "FOO".to_string() },
        CodeGenError::UnsupportedInstruction("FOO".to_string()),
    );
}

#[test]
fn codegen_sub_literal_register_not_supported() {
    let i = InstructionType::Sub { dest: Operand::Literal(1), src: Operand::Register(Register(1)) };
    assert_error(i.clone(), CodeGenError::OperandCombinationNotSupported(i));
}

#[test]
fn bad_targets_name_the_kinds_that_fit() {
    let t = SymbolTable::new();
    let call = InstructionType::Call { target: Operand::Register(Register(1)) };
    assert_eq!(
        generate_instruction_code(&call, &t, 0),
        Err(CodeGenError::InvalidOperandForInstruction("CALL expects Literal or Label".to_string()))
    );
    let jump = InstructionType::Jz { target: Operand::DereferencedRegister(Register(1)) };
    assert_eq!(
        generate_instruction_code(&jump, &t, 0),
        Err(CodeGenError::InvalidOperandForInstruction("Jump expects Register, Literal or Label".to_string()))
    );
}
