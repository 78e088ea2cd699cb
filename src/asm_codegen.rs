use vstd::prelude::*;
use crate::asm_parser::{InstructionType, Operand, Register};
use crate::symbols::SymbolTable;

verus! {

/// The instruction forms of the line assembler, each with its CPU opcode.
#[derive(Debug, Clone, Copy, PartialEq, Eq)]
pub enum Opcode {
    Nop,
    Hlt,
    Ret,
    MovRegReg,
    MovRegLit,
    MovRegRegInd,
    MovMemReg,
    MovRegIndReg,
    AddRegReg,
    AddRegLit,
    SubRegReg,
    SubRegLit,
    MulRegReg,
    MulRegLit,
    DivRegReg,
    DivRegLit,
    ModRegReg,
    ModRegLit,
    IncReg,
    DecReg,
    NotReg,
    AndRegReg,
    OrRegReg,
    XorRegReg,
    CmpRegReg,
    CmpRegLit,
    JmpLit,
    JmpReg,
    JzLit,
    JzReg,
    JnzLit,
    JnzReg,
    JnLit,
    JnReg,
    JnnLit,
    JnnReg,
    JcLit,
    JcReg,
    JncLit,
    JncReg,
    CallLit,
}

impl Opcode {
    pub open spec fn spec_byte(self) -> u8 {
        match self {
            Opcode::Nop => 0x00,
            Opcode::Hlt => 0x01,
            Opcode::Ret => 0x5F,
            Opcode::MovRegReg => 0x10,
            Opcode::MovRegLit => 0x11,
            Opcode::MovRegRegInd => 0x12,
            Opcode::MovMemReg => 0x13,
            Opcode::MovRegIndReg => 0x15,
            Opcode::AddRegReg => 0x20,
            Opcode::AddRegLit => 0x21,
            Opcode::SubRegReg => 0x22,
            Opcode::SubRegLit => 0x23,
            Opcode::MulRegReg => 0x24,
            Opcode::MulRegLit => 0x25,
            Opcode::DivRegReg => 0x26,
            Opcode::DivRegLit => 0x27,
            Opcode::ModRegReg => 0x28,
            Opcode::ModRegLit => 0x29,
            Opcode::IncReg => 0x2A,
            Opcode::DecReg => 0x2B,
            Opcode::NotReg => 0x36,
            Opcode::AndRegReg => 0x30,
            Opcode::OrRegReg => 0x32,
            Opcode::XorRegReg => 0x34,
            Opcode::CmpRegReg => 0x40,
            Opcode::CmpRegLit => 0x41,
            Opcode::JmpLit => 0x50,
            Opcode::JmpReg => 0x51,
            Opcode::JzLit => 0x52,
            Opcode::JzReg => 0x53,
            Opcode::JnzLit => 0x54,
            Opcode::JnzReg => 0x55,
            Opcode::JnLit => 0x56,
            Opcode::JnReg => 0x57,
            Opcode::JnnLit => 0x58,
            Opcode::JnnReg => 0x59,
            Opcode::JcLit => 0x5A,
            Opcode::JcReg => 0x5B,
            Opcode::JncLit => 0x5C,
            Opcode::JncReg => 0x5D,
            Opcode::CallLit => 0x5E,
        }
    }

    /// The CPU opcode byte of this form.
    pub fn to_byte(&self) -> (r: u8)
        ensures
            r == self.spec_byte(),
    {
        match self {
            Opcode::Nop => 0x00,
            Opcode::Hlt => 0x01,
            Opcode::Ret => 0x5F,
            Opcode::MovRegReg => 0x10,
            Opcode::MovRegLit => 0x11,
            Opcode::MovRegRegInd => 0x12,
            Opcode::MovMemReg => 0x13,
            Opcode::MovRegIndReg => 0x15,
            Opcode::AddRegReg => 0x20,
            Opcode::AddRegLit => 0x21,
            Opcode::SubRegReg => 0x22,
            Opcode::SubRegLit => 0x23,
            Opcode::MulRegReg => 0x24,
            Opcode::MulRegLit => 0x25,
            Opcode::DivRegReg => 0x26,
            Opcode::DivRegLit => 0x27,
            Opcode::ModRegReg => 0x28,
            Opcode::ModRegLit => 0x29,
            Opcode::IncReg => 0x2A,
            Opcode::DecReg => 0x2B,
            Opcode::NotReg => 0x36,
            Opcode::AndRegReg => 0x30,
            Opcode::OrRegReg => 0x32,
            Opcode::XorRegReg => 0x34,
            Opcode::CmpRegReg => 0x40,
            Opcode::CmpRegLit => 0x41,
            Opcode::JmpLit => 0x50,
            Opcode::JmpReg => 0x51,
            Opcode::JzLit => 0x52,
            Opcode::JzReg => 0x53,
            Opcode::JnzLit => 0x54,
            Opcode::JnzReg => 0x55,
            Opcode::JnLit => 0x56,
            Opcode::JnReg => 0x57,
            Opcode::JnnLit => 0x58,
            Opcode::JnnReg => 0x59,
            Opcode::JcLit => 0x5A,
            Opcode::JcReg => 0x5B,
            Opcode::JncLit => 0x5C,
            Opcode::JncReg => 0x5D,
            Opcode::CallLit => 0x5E,
        }
    }
}

#[derive(Debug, Clone, PartialEq, Eq)]
pub enum CodeGenError {
    /// A mnemonic that names no instruction.
    UnsupportedInstruction(String),
    /// A jump or call target of the wrong kind; the text says which kinds fit.
    InvalidOperandForInstruction(String),
    MissingLabel(String),
    OperandIsNotRegister(Operand),
    OperandIsNotLiteral(Operand),
    OperandIsNotDereferencedRegister(Operand),
    OperandCombinationNotSupported(InstructionType),
    RegisterIdOutOfRange(u8),
    LiteralOutOfRange(u16),
}

/// A code generation error, with the message of a bad target as characters.
pub enum CodeErrorView {
    Exact(CodeGenError),
    BadTarget(Seq<char>),
}

/// The first word of an instruction: opcode in the high byte, then the
/// destination and source register nibbles.
pub open spec fn word(op: Opcode, hi: u8, lo: u8) -> u16 {
    (op.spec_byte() as int * 256 + hi as int * 16 + lo as int) as u16
}

/// The first register index above 15 among one or two registers.
pub open spec fn reg_check(rs: Seq<u8>) -> Option<u8> {
    if rs.len() >= 1 && rs[0] > 15 {
        Some(rs[0])
    } else if rs.len() >= 2 && rs[1] > 15 {
        Some(rs[1])
    } else {
        None
    }
}

/// Words for registers `rs` (checked in order) given that they are all in range.
pub open spec fn with_regs(rs: Seq<u8>, ws: Seq<u16>) -> Result<Seq<u16>, CodeErrorView> {
    match reg_check(rs) {
        Some(r) => Err(CodeErrorView::Exact(CodeGenError::RegisterIdOutOfRange(r))),
        None => Ok(ws),
    }
}

pub open spec fn not_supported(i: InstructionType) -> Result<Seq<u16>, CodeErrorView> {
    Err(CodeErrorView::Exact(CodeGenError::OperandCombinationNotSupported(i)))
}

/// Register-register and register-literal forms of a two-operand instruction.
pub open spec fn two_op_spec(i: InstructionType, rr: Opcode, rl: Option<Opcode>, a: Operand, b: Operand) -> Result<Seq<u16>, CodeErrorView> {
    match (a, b) {
        (Operand::Register(rd), Operand::Register(rs)) => with_regs(seq![rd.0, rs.0], seq![word(rr, rd.0, rs.0)]),
        (Operand::Register(rd), Operand::Literal(v)) => match rl {
            Some(op) => with_regs(seq![rd.0], seq![word(op, rd.0, 0), v]),
            None => not_supported(i),
        },
        _ => not_supported(i),
    }
}

pub open spec fn reg_spec(op: Operand) -> Result<u8, CodeErrorView> {
    match op {
        Operand::Register(r) => if r.0 > 15 {
            Err(CodeErrorView::Exact(CodeGenError::RegisterIdOutOfRange(r.0)))
        } else {
            Ok(r.0)
        },
        _ => Err(CodeErrorView::Exact(CodeGenError::OperandIsNotRegister(op))),
    }
}

pub open spec fn one_reg_spec(op: Opcode, a: Operand) -> Result<Seq<u16>, CodeErrorView> {
    match reg_spec(a) {
        Err(e) => Err(e),
        Ok(r) => Ok(seq![word(op, r, 0)]),
    }
}

/// A jump or call target: a register (when `reg` is given), a literal, or a
/// label found in `labels`. A target of another kind is refused with a
/// message naming the kinds that fit.
pub open spec fn target_code_spec(lit: Opcode, reg: Option<Opcode>, t: Operand, labels: Map<Seq<char>, u16>) -> Result<Seq<u16>, CodeErrorView> {
    match t {
        Operand::Register(r) => match reg {
            Some(op) => with_regs(seq![r.0], seq![word(op, r.0, 0)]),
            None => Err(CodeErrorView::BadTarget("CALL expects Literal or Label"@)),
        },
        Operand::Literal(a) => Ok(seq![word(lit, 0, 0), a]),
        Operand::Label(n) => if labels.contains_key(n@) {
            Ok(seq![word(lit, 0, 0), labels[n@]])
        } else {
            Err(CodeErrorView::Exact(CodeGenError::MissingLabel(n)))
        },
        _ => Err(CodeErrorView::BadTarget(bad_target_message(reg is None))),
    }
}

/// The message for a jump or call target of the wrong kind.
pub open spec fn bad_target_message(call: bool) -> Seq<char> {
    if call {
        "CALL expects Literal or Label"@
    } else {
        "Jump expects Register, Literal or Label"@
    }
}

/// The words of an instruction: one word, then a second one holding the
/// literal or address when there is one.
pub open spec fn code_spec(i: InstructionType, labels: Map<Seq<char>, u16>) -> Result<Seq<u16>, CodeErrorView> {
    match i {
        InstructionType::Nop => Ok(seq![word(Opcode::Nop, 0, 0)]),
        InstructionType::Hlt => Ok(seq![word(Opcode::Hlt, 0, 0)]),
        InstructionType::Ret => Ok(seq![word(Opcode::Ret, 0, 0)]),
        InstructionType::Mov { dest, src } => match (dest, src) {
            (Operand::Register(rd), Operand::Register(rs)) => with_regs(
                seq![rd.0, rs.0],
                seq![word(Opcode::MovRegReg, rd.0, rs.0)],
            ),
            (Operand::Register(rd), Operand::Literal(v)) => with_regs(seq![rd.0], seq![word(Opcode::MovRegLit, rd.0, 0), v]),
            (Operand::Register(rd), Operand::DereferencedRegister(rs)) => with_regs(
                seq![rd.0, rs.0],
                seq![word(Opcode::MovRegRegInd, rd.0, rs.0)],
            ),
            (Operand::DereferencedRegister(rd), Operand::Register(rs)) => with_regs(
                seq![rd.0, rs.0],
                seq![word(Opcode::MovRegIndReg, rd.0, rs.0)],
            ),
            (Operand::Literal(a), Operand::Register(rs)) => with_regs(seq![rs.0], seq![word(Opcode::MovMemReg, 0, rs.0), a]),
            _ => not_supported(i),
        },
        InstructionType::Add { dest, src } => two_op_spec(i, Opcode::AddRegReg, Some(Opcode::AddRegLit), dest, src),
        InstructionType::Sub { dest, src } => two_op_spec(i, Opcode::SubRegReg, Some(Opcode::SubRegLit), dest, src),
        InstructionType::Mul { dest, src } => two_op_spec(i, Opcode::MulRegReg, Some(Opcode::MulRegLit), dest, src),
        InstructionType::Div { dest, src } => two_op_spec(i, Opcode::DivRegReg, Some(Opcode::DivRegLit), dest, src),
        InstructionType::Mod { dest, src } => two_op_spec(i, Opcode::ModRegReg, Some(Opcode::ModRegLit), dest, src),
        InstructionType::Cmp { op1, op2 } => two_op_spec(i, Opcode::CmpRegReg, Some(Opcode::CmpRegLit), op1, op2),
        InstructionType::And { dest, src } => logic_spec(Opcode::AndRegReg, dest, src),
        InstructionType::Or { dest, src } => logic_spec(Opcode::OrRegReg, dest, src),
        InstructionType::Xor { dest, src } => logic_spec(Opcode::XorRegReg, dest, src),
        InstructionType::Inc { reg } => one_reg_spec(Opcode::IncReg, reg),
        InstructionType::Dec { reg } => one_reg_spec(Opcode::DecReg, reg),
        InstructionType::Not { reg } => one_reg_spec(Opcode::NotReg, reg),
        InstructionType::Jmp { target } => target_code_spec(Opcode::JmpLit, Some(Opcode::JmpReg), target, labels),
        InstructionType::Jz { target } => target_code_spec(Opcode::JzLit, Some(Opcode::JzReg), target, labels),
        InstructionType::Jnz { target } => target_code_spec(Opcode::JnzLit, Some(Opcode::JnzReg), target, labels),
        InstructionType::Jn { target } => target_code_spec(Opcode::JnLit, Some(Opcode::JnReg), target, labels),
        InstructionType::Jnn { target } => target_code_spec(Opcode::JnnLit, Some(Opcode::JnnReg), target, labels),
        InstructionType::Jc { target } => target_code_spec(Opcode::JcLit, Some(Opcode::JcReg), target, labels),
        InstructionType::Jnc { target } => target_code_spec(Opcode::JncLit, Some(Opcode::JncReg), target, labels),
        InstructionType::Call { target } => target_code_spec(Opcode::CallLit, None, target, labels),
        InstructionType::UnknownInstruction { name } => Err(CodeErrorView::Exact(CodeGenError::UnsupportedInstruction(name))),
    }
}

pub open spec fn logic_spec(op: Opcode, a: Operand, b: Operand) -> Result<Seq<u16>, CodeErrorView> {
    match reg_spec(a) {
        Err(e) => Err(e),
        Ok(rd) => match reg_spec(b) {
            Err(e) => Err(e),
            Ok(rs) => Ok(seq![word(op, rd, rs)]),
        },
    }
}

/// A result agrees with the outcome `o`.
/// `InvalidOperandForInstruction` error.
pub open spec fn code_agrees(o: Result<Seq<u16>, CodeErrorView>, r: Result<Vec<u16>, CodeGenError>) -> bool {
    match o {
        Ok(ws) => r is Ok && r.unwrap()@ == ws,
        Err(CodeErrorView::Exact(e)) => r == Err::<Vec<u16>, CodeGenError>(e),
        Err(CodeErrorView::BadTarget(m)) => r is Err && r.unwrap_err() is InvalidOperandForInstruction
            && r.unwrap_err()->InvalidOperandForInstruction_0@ == m,
    }
}

pub fn clone_operand(o: &Operand) -> (r: Operand)
    ensures
        r == *o,
{
    match o {
        Operand::Register(r) => Operand::Register(*r),
        Operand::DereferencedRegister(r) => Operand::DereferencedRegister(*r),
        Operand::Literal(v) => Operand::Literal(*v),
        Operand::Label(n) => Operand::Label(n.clone()),
    }
}

pub fn clone_instruction(i: &InstructionType) -> (r: InstructionType)
    ensures
        r == *i,
{
    match i {
        InstructionType::Nop => InstructionType::Nop,
        InstructionType::Hlt => InstructionType::Hlt,
        InstructionType::Ret => InstructionType::Ret,
        InstructionType::Mov { dest, src } => InstructionType::Mov { dest: clone_operand(dest), src: clone_operand(src) },
        InstructionType::Add { dest, src } => InstructionType::Add { dest: clone_operand(dest), src: clone_operand(src) },
        InstructionType::Sub { dest, src } => InstructionType::Sub { dest: clone_operand(dest), src: clone_operand(src) },
        InstructionType::Mul { dest, src } => InstructionType::Mul { dest: clone_operand(dest), src: clone_operand(src) },
        InstructionType::Div { dest, src } => InstructionType::Div { dest: clone_operand(dest), src: clone_operand(src) },
        InstructionType::Mod { dest, src } => InstructionType::Mod { dest: clone_operand(dest), src: clone_operand(src) },
        InstructionType::And { dest, src } => InstructionType::And { dest: clone_operand(dest), src: clone_operand(src) },
        InstructionType::Or { dest, src } => InstructionType::Or { dest: clone_operand(dest), src: clone_operand(src) },
        InstructionType::Xor { dest, src } => InstructionType::Xor { dest: clone_operand(dest), src: clone_operand(src) },
        InstructionType::Cmp { op1, op2 } => InstructionType::Cmp { op1: clone_operand(op1), op2: clone_operand(op2) },
        InstructionType::Inc { reg } => InstructionType::Inc { reg: clone_operand(reg) },
        InstructionType::Dec { reg } => InstructionType::Dec { reg: clone_operand(reg) },
        InstructionType::Not { reg } => InstructionType::Not { reg: clone_operand(reg) },
        InstructionType::Jmp { target } => InstructionType::Jmp { target: clone_operand(target) },
        InstructionType::Jz { target } => InstructionType::Jz { target: clone_operand(target) },
        InstructionType::Jnz { target } => InstructionType::Jnz { target: clone_operand(target) },
        InstructionType::Jn { target } => InstructionType::Jn { target: clone_operand(target) },
        InstructionType::Jnn { target } => InstructionType::Jnn { target: clone_operand(target) },
        InstructionType::Jc { target } => InstructionType::Jc { target: clone_operand(target) },
        InstructionType::Jnc { target } => InstructionType::Jnc { target: clone_operand(target) },
        InstructionType::Call { target } => InstructionType::Call { target: clone_operand(target) },
        InstructionType::UnknownInstruction { name } => InstructionType::UnknownInstruction { name: name.clone() },
    }
}

fn mk_word(op: Opcode, hi: u8, lo: u8) -> (r: u16)
    requires
        hi <= 15,
        lo <= 15,
    ensures
        r == word(op, hi, lo),
{
    (op.to_byte() as u16) * 256 + (hi as u16) * 16 + (lo as u16)
}

/// The register of a register operand.
fn get_reg(op: &Operand) -> (r: Result<u8, CodeGenError>)
    ensures
        match reg_spec(*op) {
            Ok(v) => r == Ok::<u8, CodeGenError>(v),
            Err(e) => e is Exact && r == Err::<u8, CodeGenError>(e->Exact_0),
        },
{
    match op {
        Operand::Register(r) => if r.0 > 15 {
            Err(CodeGenError::RegisterIdOutOfRange(r.0))
        } else {
            Ok(r.0)
        },
        _ => Err(CodeGenError::OperandIsNotRegister(clone_operand(op))),
    }
}

fn two_op(i: &InstructionType, rr: Opcode, rl: Option<Opcode>, a: &Operand, b: &Operand) -> (r: Result<Vec<u16>, CodeGenError>)
    ensures
        code_agrees(two_op_spec(*i, rr, rl, *a, *b), r),
{
    match (a, b) {
        (Operand::Register(rd), Operand::Register(rs)) => {
            if rd.0 > 15 {
                return Err(CodeGenError::RegisterIdOutOfRange(rd.0));
            }
            if rs.0 > 15 {
                return Err(CodeGenError::RegisterIdOutOfRange(rs.0));
            }
            let r = vec![mk_word(rr, rd.0, rs.0)];
            assert(r@ =~= seq![word(rr, rd.0, rs.0)]);
            Ok(r)
        },
        (Operand::Register(rd), Operand::Literal(v)) => match rl {
            Some(op) => {
                if rd.0 > 15 {
                    return Err(CodeGenError::RegisterIdOutOfRange(rd.0));
                }
                let r = vec![mk_word(op, rd.0, 0), *v];
                assert(r@ =~= seq![word(op, rd.0, 0), *v]);
                Ok(r)
            },
            None => Err(CodeGenError::OperandCombinationNotSupported(clone_instruction(i))),
        },
        _ => Err(CodeGenError::OperandCombinationNotSupported(clone_instruction(i))),
    }
}

fn one_reg(op: Opcode, a: &Operand) -> (r: Result<Vec<u16>, CodeGenError>)
    ensures
        code_agrees(one_reg_spec(op, *a), r),
{
    let reg = get_reg(a)?;
    let r = vec![mk_word(op, reg, 0)];
    assert(r@ =~= seq![word(op, reg, 0)]);
    Ok(r)
}

fn logic(op: Opcode, a: &Operand, b: &Operand) -> (r: Result<Vec<u16>, CodeGenError>)
    ensures
        code_agrees(logic_spec(op, *a, *b), r),
{
    let rd = get_reg(a)?;
    let rs = get_reg(b)?;
    let r = vec![mk_word(op, rd, rs)];
    assert(r@ =~= seq![word(op, rd, rs)]);
    Ok(r)
}

fn invalid_target(call: bool) -> (r: CodeGenError)
    ensures
        r is InvalidOperandForInstruction && r->InvalidOperandForInstruction_0@ == bad_target_message(call),
{
    if call {
        CodeGenError::InvalidOperandForInstruction(String::from_str("CALL expects Literal or Label"))
    } else {
        CodeGenError::InvalidOperandForInstruction(String::from_str("Jump expects Register, Literal or Label"))
    }
}

fn target_code(lit: Opcode, reg: Option<Opcode>, t: &Operand, labels: &SymbolTable) -> (r: Result<Vec<u16>, CodeGenError>)
    ensures
        code_agrees(target_code_spec(lit, reg, *t, labels@), r),
{
    match t {
        Operand::Register(r) => match reg {
            Some(op) => {
                if r.0 > 15 {
                    return Err(CodeGenError::RegisterIdOutOfRange(r.0));
                }
                let v = vec![mk_word(op, r.0, 0)];
                assert(v@ =~= seq![word(op, r.0, 0)]);
                Ok(v)
            },
            None => Err(invalid_target(true)),
        },
        Operand::Literal(a) => {
            let v = vec![mk_word(lit, 0, 0), *a];
            assert(v@ =~= seq![word(lit, 0, 0), *a]);
            Ok(v)
        },
        Operand::Label(n) => match labels.get(n.as_str()) {
            Some(a) => {
                let v = vec![mk_word(lit, 0, 0), a];
                assert(v@ =~= seq![word(lit, 0, 0), a]);
                Ok(v)
            },
            None => Err(CodeGenError::MissingLabel(n.clone())),
        },
        _ => Err(invalid_target(reg.is_none())),
    }
}

/// The words of one instruction, with labels resolved through `symbol_table`.
pub fn generate_instruction_code(
    instruction: &InstructionType,
    symbol_table: &SymbolTable,
    _current_address: u16,
) -> (r: Result<Vec<u16>, CodeGenError>)
    ensures
        code_agrees(code_spec(*instruction, symbol_table@), r),
{
    match instruction {
        InstructionType::Nop => {
            let v = vec![mk_word(Opcode::Nop, 0, 0)];
            assert(v@ =~= seq![word(Opcode::Nop, 0, 0)]);
            Ok(v)
        },
        InstructionType::Hlt => {
            let v = vec![mk_word(Opcode::Hlt, 0, 0)];
            assert(v@ =~= seq![word(Opcode::Hlt, 0, 0)]);
            Ok(v)
        },
        InstructionType::Ret => {
            let v = vec![mk_word(Opcode::Ret, 0, 0)];
            assert(v@ =~= seq![word(Opcode::Ret, 0, 0)]);
            Ok(v)
        },
        InstructionType::Mov { dest, src } => match (dest, src) {
            (Operand::Register(rd), Operand::Register(rs)) => two_op(instruction, Opcode::MovRegReg, None, dest, src),
            (Operand::Register(rd), Operand::Literal(v)) => two_op(instruction, Opcode::MovRegReg, Some(Opcode::MovRegLit), dest, src),
            (Operand::Register(rd), Operand::DereferencedRegister(rs)) => {
                let a = Operand::Register(*rd);
                let b = Operand::Register(*rs);
                two_op(instruction, Opcode::MovRegRegInd, None, &a, &b)
            },
            (Operand::DereferencedRegister(rd), Operand::Register(rs)) => {
                let a = Operand::Register(*rd);
                two_op(instruction, Opcode::MovRegIndReg, None, &a, src)
            },
            (Operand::Literal(addr), Operand::Register(rs)) => {
                if rs.0 > 15 {
                    return Err(CodeGenError::RegisterIdOutOfRange(rs.0));
                }
                let v = vec![mk_word(Opcode::MovMemReg, 0, rs.0), *addr];
                assert(v@ =~= seq![word(Opcode::MovMemReg, 0, rs.0), *addr]);
                Ok(v)
            },
            _ => Err(CodeGenError::OperandCombinationNotSupported(clone_instruction(instruction))),
        },
        InstructionType::Add { dest, src } => two_op(instruction, Opcode::AddRegReg, Some(Opcode::AddRegLit), dest, src),
        InstructionType::Sub { dest, src } => two_op(instruction, Opcode::SubRegReg, Some(Opcode::SubRegLit), dest, src),
        InstructionType::Mul { dest, src } => two_op(instruction, Opcode::MulRegReg, Some(Opcode::MulRegLit), dest, src),
        InstructionType::Div { dest, src } => two_op(instruction, Opcode::DivRegReg, Some(Opcode::DivRegLit), dest, src),
        InstructionType::Mod { dest, src } => two_op(instruction, Opcode::ModRegReg, Some(Opcode::ModRegLit), dest, src),
        InstructionType::Cmp { op1, op2 } => two_op(instruction, Opcode::CmpRegReg, Some(Opcode::CmpRegLit), op1, op2),
        InstructionType::And { dest, src } => logic(Opcode::AndRegReg, dest, src),
        InstructionType::Or { dest, src } => logic(Opcode::OrRegReg, dest, src),
        InstructionType::Xor { dest, src } => logic(Opcode::XorRegReg, dest, src),
        InstructionType::Inc { reg } => one_reg(Opcode::IncReg, reg),
        InstructionType::Dec { reg } => one_reg(Opcode::DecReg, reg),
        InstructionType::Not { reg } => one_reg(Opcode::NotReg, reg),
        InstructionType::Jmp { target } => target_code(Opcode::JmpLit, Some(Opcode::JmpReg), target, symbol_table),
        InstructionType::Jz { target } => target_code(Opcode::JzLit, Some(Opcode::JzReg), target, symbol_table),
        InstructionType::Jnz { target } => target_code(Opcode::JnzLit, Some(Opcode::JnzReg), target, symbol_table),
        InstructionType::Jn { target } => target_code(Opcode::JnLit, Some(Opcode::JnReg), target, symbol_table),
        InstructionType::Jnn { target } => target_code(Opcode::JnnLit, Some(Opcode::JnnReg), target, symbol_table),
        InstructionType::Jc { target } => target_code(Opcode::JcLit, Some(Opcode::JcReg), target, symbol_table),
        InstructionType::Jnc { target } => target_code(Opcode::JncLit, Some(Opcode::JncReg), target, symbol_table),
        InstructionType::Call { target } => target_code(Opcode::CallLit, None, target, symbol_table),
        InstructionType::UnknownInstruction { name } => Err(CodeGenError::UnsupportedInstruction(name.clone())),
    }
}

/// The size in bytes (two per word) of an instruction's code, from the kinds
/// of its operands; `None` where no form fits them.
pub open spec fn size_in_bytes(i: InstructionType) -> Option<nat> {
    let words: Option<nat> = match i {
        InstructionType::Nop | InstructionType::Hlt | InstructionType::Ret => Some(1),
        InstructionType::Mov { dest, src } => match (dest, src) {
            (Operand::Register(_), Operand::Register(_)) => Some(1),
            (Operand::Register(_), Operand::Literal(_)) => Some(2),
            (Operand::Register(_), Operand::DereferencedRegister(_)) => Some(1),
            (Operand::DereferencedRegister(_), Operand::Register(_)) => Some(1),
            (Operand::Literal(_), Operand::Register(_)) => Some(2),
            _ => None,
        },
        InstructionType::Add { dest, src } | InstructionType::Sub { dest, src } | InstructionType::Mul { dest, src }
        | InstructionType::Div { dest, src } | InstructionType::Mod { dest, src } | InstructionType::Cmp {
            op1: dest,
            op2: src,
        } => match (dest, src) {
            (Operand::Register(_), Operand::Register(_)) => Some(1),
            (Operand::Register(_), Operand::Literal(_)) => Some(2),
            _ => None,
        },
        InstructionType::And { dest, src } | InstructionType::Or { dest, src } | InstructionType::Xor {
            dest,
            src,
        } => match (dest, src) {
            (Operand::Register(_), Operand::Register(_)) => Some(1),
            _ => None,
        },
        InstructionType::Inc { reg } | InstructionType::Dec { reg } | InstructionType::Not { reg } => match reg {
            Operand::Register(_) => Some(1),
            _ => None,
        },
        InstructionType::Jmp { target } | InstructionType::Jz { target } | InstructionType::Jnz { target }
        | InstructionType::Jn { target } | InstructionType::Jnn { target } | InstructionType::Jc { target }
        | InstructionType::Jnc { target } => match target {
            Operand::Register(_) => Some(1),
            Operand::Literal(_) | Operand::Label(_) => Some(2),
            _ => None,
        },
        InstructionType::Call { target } => match target {
            Operand::Literal(_) | Operand::Label(_) => Some(2),
            _ => None,
        },
        InstructionType::UnknownInstruction { .. } => None,
    };
    match words {
        Some(w) => Some(2 * w),
        None => None,
    }
}

/// Sizing agrees with code generation: whenever the words of an instruction
/// are generated, its size is twice their number.
pub proof fn lemma_size_matches_code(i: InstructionType, labels: Map<Seq<char>, u16>)
    requires
        code_spec(i, labels) is Ok,
    ensures
        size_in_bytes(i) == Some(2 * code_spec(i, labels)->Ok_0.len()),
{
}

fn words_of(i: &InstructionType) -> (r: Option<u16>)
    ensures
        match r {
            Some(w) => size_in_bytes(*i) == Some(2 * (w as nat)),
            None => size_in_bytes(*i) is None,
        },
{
    match i {
        InstructionType::Nop | InstructionType::Hlt | InstructionType::Ret => Some(1),
        InstructionType::Mov { dest, src } => match (dest, src) {
            (Operand::Register(_), Operand::Register(_)) => Some(1),
            (Operand::Register(_), Operand::Literal(_)) => Some(2),
            (Operand::Register(_), Operand::DereferencedRegister(_)) => Some(1),
            (Operand::DereferencedRegister(_), Operand::Register(_)) => Some(1),
            (Operand::Literal(_), Operand::Register(_)) => Some(2),
            _ => None,
        },
        InstructionType::Add { dest, src } | InstructionType::Sub { dest, src } | InstructionType::Mul { dest, src }
        | InstructionType::Div { dest, src } | InstructionType::Mod { dest, src } | InstructionType::Cmp {
            op1: dest,
            op2: src,
        } => match (dest, src) {
            (Operand::Register(_), Operand::Register(_)) => Some(1),
            (Operand::Register(_), Operand::Literal(_)) => Some(2),
            _ => None,
        },
        InstructionType::And { dest, src } | InstructionType::Or { dest, src } | InstructionType::Xor {
            dest,
            src,
        } => match (dest, src) {
            (Operand::Register(_), Operand::Register(_)) => Some(1),
            _ => None,
        },
        InstructionType::Inc { reg } | InstructionType::Dec { reg } | InstructionType::Not { reg } => match reg {
            Operand::Register(_) => Some(1),
            _ => None,
        },
        InstructionType::Jmp { target } | InstructionType::Jz { target } | InstructionType::Jnz { target }
        | InstructionType::Jn { target } | InstructionType::Jnn { target } | InstructionType::Jc { target }
        | InstructionType::Jnc { target } => match target {
            Operand::Register(_) => Some(1),
            Operand::Literal(_) | Operand::Label(_) => Some(2),
            _ => None,
        },
        InstructionType::Call { target } => match target {
            Operand::Literal(_) | Operand::Label(_) => Some(2),
            _ => None,
        },
        InstructionType::UnknownInstruction { .. } => None,
    }
}

/// The size in bytes of an instruction's code; an error names a form that no
/// encoding fits.
pub fn calculate_instruction_size(instruction: &InstructionType, _symbol_table: &SymbolTable) -> (r: Result<u16, String>)
    ensures
        r is Ok <==> size_in_bytes(*instruction) is Some,
        r is Ok ==> r.unwrap() as nat == size_in_bytes(*instruction).unwrap(),
{
    match words_of(instruction) {
        Some(w) => Ok(w * 2),
        None => Err(String::from_str("no encoding fits these operands")),
    }
}

} // verus!
