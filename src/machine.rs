use vstd::prelude::*;
use crate::bus::{
    Device, MemoryBus, le_word, low_byte, high_byte, make_word, split_word, mem_read_u16,
    mem_write_u16, MMIO_BASE, STACK_BASE, STACK_END, IRQ_VECTOR,
    RESET_VECTOR,
};
use crate::error::{MemoryError, VMError};

verus! {

pub const FLAG_ZERO: u8 = 0x01;
pub const FLAG_CARRY: u8 = 0x02;
pub const FLAG_NEGATIVE: u8 = 0x04;
pub const FLAG_INTERRUPT_DISABLED: u8 = 0x08;
pub const FLAG_INTERRUPT_PENDING: u8 = 0x10;
pub const FLAG_HALT: u8 = 0x80;

/// The bits of the flag byte.
#[derive(Debug, Clone, Copy, PartialEq, Eq, Structural)]
pub enum Flag {
    Zero,
    Carry,
    Negative,
    InterruptDisabled,
    InterruptRequestPending,
    Halt,
}

impl Flag {
    pub open spec fn spec_mask(self) -> u8 {
        match self {
            Flag::Zero => FLAG_ZERO,
            Flag::Carry => FLAG_CARRY,
            Flag::Negative => FLAG_NEGATIVE,
            Flag::InterruptDisabled => FLAG_INTERRUPT_DISABLED,
            Flag::InterruptRequestPending => FLAG_INTERRUPT_PENDING,
            Flag::Halt => FLAG_HALT,
        }
    }

    /// The flag's bit in the flag byte.
    pub fn mask(self) -> (r: u8)
        ensures
            r == self.spec_mask(),
    {
        match self {
            Flag::Zero => FLAG_ZERO,
            Flag::Carry => FLAG_CARRY,
            Flag::Negative => FLAG_NEGATIVE,
            Flag::InterruptDisabled => FLAG_INTERRUPT_DISABLED,
            Flag::InterruptRequestPending => FLAG_INTERRUPT_PENDING,
            Flag::Halt => FLAG_HALT,
        }
    }
}

pub open spec fn get_bit(f: u8, m: u8) -> bool {
    f & m != 0
}

pub open spec fn set_bit(f: u8, m: u8, v: bool) -> u8 {
    if v {
        f | m
    } else {
        f & !m
    }
}

pub open spec fn single_bit(m: u8) -> bool {
    m == 0x01 || m == 0x02 || m == 0x04 || m == 0x08 || m == 0x10 || m == 0x80
}

proof fn lemma_set_bit(f: u8, m: u8, v: bool, m2: u8)
    requires
        single_bit(m),
        single_bit(m2),
    ensures
        get_bit(set_bit(f, m, v), m) == v,
        m2 != m ==> get_bit(set_bit(f, m, v), m2) == get_bit(f, m2),
{
    if v {
        assert(single_bit(m) ==> (f | m) & m != 0) by (bit_vector);
        assert(single_bit(m) && single_bit(m2) && m2 != m ==> ((f | m) & m2 != 0) == (f & m2 != 0))
            by (bit_vector);
    } else {
        assert(single_bit(m) ==> (f & !m) & m == 0) by (bit_vector);
        assert(single_bit(m) && single_bit(m2) && m2 != m ==> ((f & !m) & m2 != 0) == (f & m2 != 0))
            by (bit_vector);
    }
}

/// The operation of an arithmetic or logic instruction.
#[derive(Debug, Clone, Copy, PartialEq, Eq, Structural)]
pub enum AluOp {
    Add,
    Sub,
    Mul,
    Div,
    Mod,
    And,
    Or,
    Xor,
    Cmp,
}

/// The condition of a jump.
#[derive(Debug, Clone, Copy, PartialEq, Eq, Structural)]
pub enum Cond {
    Always,
    Zero,
    NotZero,
    Negative,
    NotNegative,
    Carry,
    NotCarry,
}

/// One decoded instruction: one variant per encoded form.
#[derive(Debug, Clone, Copy, PartialEq, Eq, Structural)]
pub enum Instr {
    Nop,
    Hlt,
    /// `MOV Rd, Rs`
    MovRegReg(u8, u8),
    /// `MOV Rd, imm16`
    MovRegImm(u8, u16),
    /// `MOV Rd, [Rs]`
    MovRegMem(u8, u8),
    /// `MOV [imm16], Rs`
    MovImmReg(u16, u8),
    /// `MOV [imm16], imm16`
    MovImmImm(u16, u16),
    /// `MOV [Rd], Rs`
    MovMemReg(u8, u8),
    /// `MOV [Rd], imm16`
    MovMemImm(u8, u16),
    Phr(u8),
    Plr(u8),
    AluReg(AluOp, u8, u8),
    AluImm(AluOp, u8, u16),
    Inc(u8),
    Dec(u8),
    Not(u8),
    JumpImm(Cond, u16),
    JumpReg(Cond, u8),
    Jsb(u16),
    Rsb,
    Cli,
    Sei,
    Rsi,
}

/// Opcode of the register form of an ALU operation; the immediate form is one more.
pub open spec fn alu_opcode(op: AluOp) -> u8 {
    match op {
        AluOp::Add => 0x20,
        AluOp::Sub => 0x22,
        AluOp::Mul => 0x24,
        AluOp::Div => 0x26,
        AluOp::Mod => 0x28,
        AluOp::And => 0x30,
        AluOp::Or => 0x32,
        AluOp::Xor => 0x34,
        AluOp::Cmp => 0x40,
    }
}

/// Opcode of the immediate form of a jump; the register form is one more.
pub open spec fn cond_opcode(c: Cond) -> u8 {
    match c {
        Cond::Always => 0x50,
        Cond::Zero => 0x52,
        Cond::NotZero => 0x54,
        Cond::Negative => 0x56,
        Cond::NotNegative => 0x58,
        Cond::Carry => 0x5A,
        Cond::NotCarry => 0x5C,
    }
}

/// The ALU operation of an opcode, and whether its second operand is immediate.
pub open spec fn alu_of_opcode(op: u8) -> Option<(AluOp, bool)> {
    if op == 0x20 || op == 0x21 {
        Some((AluOp::Add, op == 0x21))
    } else if op == 0x22 || op == 0x23 {
        Some((AluOp::Sub, op == 0x23))
    } else if op == 0x24 || op == 0x25 {
        Some((AluOp::Mul, op == 0x25))
    } else if op == 0x26 || op == 0x27 {
        Some((AluOp::Div, op == 0x27))
    } else if op == 0x28 || op == 0x29 {
        Some((AluOp::Mod, op == 0x29))
    } else if op == 0x30 || op == 0x31 {
        Some((AluOp::And, op == 0x31))
    } else if op == 0x32 || op == 0x33 {
        Some((AluOp::Or, op == 0x33))
    } else if op == 0x34 || op == 0x35 {
        Some((AluOp::Xor, op == 0x35))
    } else if op == 0x40 || op == 0x41 {
        Some((AluOp::Cmp, op == 0x41))
    } else {
        None
    }
}

/// The condition of a jump opcode, and whether its target is immediate.
pub open spec fn cond_of_opcode(op: u8) -> Option<(Cond, bool)> {
    if op == 0x50 || op == 0x51 {
        Some((Cond::Always, op == 0x50))
    } else if op == 0x52 || op == 0x53 {
        Some((Cond::Zero, op == 0x52))
    } else if op == 0x54 || op == 0x55 {
        Some((Cond::NotZero, op == 0x54))
    } else if op == 0x56 || op == 0x57 {
        Some((Cond::Negative, op == 0x56))
    } else if op == 0x58 || op == 0x59 {
        Some((Cond::NotNegative, op == 0x58))
    } else if op == 0x5A || op == 0x5B {
        Some((Cond::Carry, op == 0x5A))
    } else if op == 0x5C || op == 0x5D {
        Some((Cond::NotCarry, op == 0x5C))
    } else {
        None
    }
}

/// The number of bytes that follow an opcode; `None` for an undefined opcode.
pub open spec fn operand_count(op: u8) -> Option<nat> {
    if op == 0x00 || op == 0x01 || op == 0x5F || op == 0x60 || op == 0x61 || op == 0x62 {
        Some(0)
    } else if op == 0x10 || op == 0x12 || op == 0x15 || op == 0x5E {
        Some(2)
    } else if op == 0x11 || op == 0x13 || op == 0x16 {
        Some(3)
    } else if op == 0x14 {
        Some(4)
    } else if op == 0x17 || op == 0x18 || op == 0x2A || op == 0x2B || op == 0x36 {
        Some(1)
    } else if alu_of_opcode(op) is Some {
        Some(if alu_of_opcode(op).unwrap().1 { 3 } else { 2 })
    } else if cond_of_opcode(op) is Some {
        Some(if cond_of_opcode(op).unwrap().1 { 2 } else { 1 })
    } else {
        None
    }
}

pub open spec fn check1(r: u8, i: Instr) -> Result<Instr, VMError> {
    if r <= 15 {
        Ok(i)
    } else {
        Err(VMError::InvalidRegister(r))
    }
}

pub open spec fn check2(r1: u8, r2: u8, i: Instr) -> Result<Instr, VMError> {
    if r1 > 15 {
        Err(VMError::InvalidRegister(r1))
    } else if r2 > 15 {
        Err(VMError::InvalidRegister(r2))
    } else {
        Ok(i)
    }
}

/// Decoding an opcode and the `operand_count(op)` bytes that follow it.
pub open spec fn decode_spec(op: u8, b: Seq<u8>) -> Result<Instr, VMError> {
    if op == 0x00 {
        Ok(Instr::Nop)
    } else if op == 0x01 {
        Ok(Instr::Hlt)
    } else if op == 0x10 {
        check2(b[0], b[1], Instr::MovRegReg(b[0], b[1]))
    } else if op == 0x11 {
        check1(b[0], Instr::MovRegImm(b[0], le_word(b[1], b[2])))
    } else if op == 0x12 {
        check2(b[0], b[1], Instr::MovRegMem(b[0], b[1]))
    } else if op == 0x13 {
        check1(b[2], Instr::MovImmReg(le_word(b[0], b[1]), b[2]))
    } else if op == 0x14 {
        Ok(Instr::MovImmImm(le_word(b[0], b[1]), le_word(b[2], b[3])))
    } else if op == 0x15 {
        check2(b[0], b[1], Instr::MovMemReg(b[0], b[1]))
    } else if op == 0x16 {
        check1(b[0], Instr::MovMemImm(b[0], le_word(b[1], b[2])))
    } else if op == 0x17 {
        check1(b[0], Instr::Phr(b[0]))
    } else if op == 0x18 {
        check1(b[0], Instr::Plr(b[0]))
    } else if op == 0x2A {
        check1(b[0], Instr::Inc(b[0]))
    } else if op == 0x2B {
        check1(b[0], Instr::Dec(b[0]))
    } else if op == 0x36 {
        check1(b[0], Instr::Not(b[0]))
    } else if op == 0x5E {
        Ok(Instr::Jsb(le_word(b[0], b[1])))
    } else if op == 0x5F {
        Ok(Instr::Rsb)
    } else if op == 0x60 {
        Ok(Instr::Cli)
    } else if op == 0x61 {
        Ok(Instr::Sei)
    } else if op == 0x62 {
        Ok(Instr::Rsi)
    } else if alu_of_opcode(op) is Some {
        let (a, imm) = alu_of_opcode(op).unwrap();
        if imm {
            check1(b[0], Instr::AluImm(a, b[0], le_word(b[1], b[2])))
        } else {
            check2(b[0], b[1], Instr::AluReg(a, b[0], b[1]))
        }
    } else if cond_of_opcode(op) is Some {
        let (c, imm) = cond_of_opcode(op).unwrap();
        if imm {
            Ok(Instr::JumpImm(c, le_word(b[0], b[1])))
        } else {
            check1(b[0], Instr::JumpReg(c, b[0]))
        }
    } else {
        Err(VMError::InvalidOpcode(op))
    }
}

/// The bytes of an instruction: opcode, then operands in table order,
/// immediates little-endian.
pub open spec fn encode_spec(i: Instr) -> Seq<u8> {
    match i {
        Instr::Nop => seq![0x00u8],
        Instr::Hlt => seq![0x01u8],
        Instr::MovRegReg(d, s) => seq![0x10u8, d, s],
        Instr::MovRegImm(d, v) => seq![0x11u8, d, low_byte(v), high_byte(v)],
        Instr::MovRegMem(d, s) => seq![0x12u8, d, s],
        Instr::MovImmReg(a, s) => seq![0x13u8, low_byte(a), high_byte(a), s],
        Instr::MovImmImm(a, v) => seq![0x14u8, low_byte(a), high_byte(a), low_byte(v), high_byte(v)],
        Instr::MovMemReg(d, s) => seq![0x15u8, d, s],
        Instr::MovMemImm(d, v) => seq![0x16u8, d, low_byte(v), high_byte(v)],
        Instr::Phr(s) => seq![0x17u8, s],
        Instr::Plr(d) => seq![0x18u8, d],
        Instr::AluReg(op, d, s) => seq![alu_opcode(op), d, s],
        Instr::AluImm(op, d, v) => seq![(alu_opcode(op) + 1) as u8, d, low_byte(v), high_byte(v)],
        Instr::Inc(d) => seq![0x2Au8, d],
        Instr::Dec(d) => seq![0x2Bu8, d],
        Instr::Not(d) => seq![0x36u8, d],
        Instr::JumpImm(c, t) => seq![cond_opcode(c), low_byte(t), high_byte(t)],
        Instr::JumpReg(c, s) => seq![(cond_opcode(c) + 1) as u8, s],
        Instr::Jsb(t) => seq![0x5Eu8, low_byte(t), high_byte(t)],
        Instr::Rsb => seq![0x5Fu8],
        Instr::Cli => seq![0x60u8],
        Instr::Sei => seq![0x61u8],
        Instr::Rsi => seq![0x62u8],
    }
}

pub proof fn lemma_word_bytes(lo: u8, hi: u8)
    ensures
        low_byte(le_word(lo, hi)) == lo,
        high_byte(le_word(lo, hi)) == hi,
{
    assert(hi as int * 256 + lo as int <= 65535);
}

pub proof fn lemma_bytes_word(v: u16)
    ensures
        le_word(low_byte(v), high_byte(v)) == v,
{
}

/// Decoding then encoding gives back the bytes: every byte sequence that
/// decodes is the encoding of the instruction it decodes to.
pub proof fn lemma_decode_encode(op: u8, b: Seq<u8>)
    requires
        operand_count(op) == Some(b.len()),
        decode_spec(op, b) is Ok,
    ensures
        encode_spec(decode_spec(op, b).unwrap()) == seq![op] + b,
{
    if b.len() >= 2 {
        lemma_word_bytes(b[0], b[1]);
    }
    if b.len() >= 3 {
        lemma_word_bytes(b[1], b[2]);
    }
    if b.len() >= 4 {
        lemma_word_bytes(b[2], b[3]);
    }
    assert(encode_spec(decode_spec(op, b).unwrap()) =~= seq![op] + b);
}

/// The result and the carry of an ALU operation; `None` on division by zero.
pub open spec fn alu_spec(op: AluOp, a: u16, b: u16) -> Option<(u16, bool)> {
    match op {
        AluOp::Add => Some((((a + b) % 65536) as u16, a + b > 65535)),
        AluOp::Sub | AluOp::Cmp => Some((((a - b + 65536) % 65536) as u16, a < b)),
        AluOp::Mul => Some((((a * b) % 65536) as u16, a * b > 65535)),
        AluOp::Div => if b == 0 {
            None
        } else {
            Some(((a / b) as u16, false))
        },
        AluOp::Mod => if b == 0 {
            None
        } else {
            Some(((a % b) as u16, false))
        },
        AluOp::And => Some((a & b, false)),
        AluOp::Or => Some((a | b, false)),
        AluOp::Xor => Some((a ^ b, false)),
    }
}

/// The flag byte after an arithmetic result: Zero, Negative and Carry set from
/// the result, the other bits kept.
pub open spec fn update_flags_spec(f: u8, r: u16, c: bool) -> u8 {
    set_bit(set_bit(set_bit(f, FLAG_ZERO, r == 0), FLAG_NEGATIVE, r & 0x8000 != 0), FLAG_CARRY, c)
}

pub open spec fn cond_holds(c: Cond, f: u8) -> bool {
    match c {
        Cond::Always => true,
        Cond::Zero => get_bit(f, FLAG_ZERO),
        Cond::NotZero => !get_bit(f, FLAG_ZERO),
        Cond::Negative => get_bit(f, FLAG_NEGATIVE),
        Cond::NotNegative => !get_bit(f, FLAG_NEGATIVE),
        Cond::Carry => get_bit(f, FLAG_CARRY),
        Cond::NotCarry => !get_bit(f, FLAG_CARRY),
    }
}

/// The architectural state of the CPU.
pub struct CpuState {
    pub regs: Seq<u16>,
    pub flags: u8,
    pub pc: u16,
    pub sp: u16,
}

pub open spec fn wrap16(x: int) -> u16 {
    (x % 65536) as u16
}

/// Pushing a byte: written at SP, then SP decrements. SP must lie in the stack
/// region.
pub open spec fn push8_spec(s: CpuState, mem: Seq<u8>, v: u8) -> Result<(CpuState, Seq<u8>), VMError> {
    if STACK_BASE <= s.sp && s.sp <= STACK_END {
        Ok((CpuState { sp: (s.sp - 1) as u16, ..s }, mem.update(s.sp as int, v)))
    } else {
        Err(VMError::StackOverflow)
    }
}

/// Pushing a word: high byte first, so that it lies little-endian at SP - 1.
pub open spec fn push16_spec(s: CpuState, mem: Seq<u8>, v: u16) -> Result<(CpuState, Seq<u8>), VMError> {
    if STACK_BASE + 1 <= s.sp && s.sp <= STACK_END {
        Ok(
            (
                CpuState { sp: (s.sp - 2) as u16, ..s },
                mem.update(s.sp as int, high_byte(v)).update(s.sp - 1, low_byte(v)),
            ),
        )
    } else {
        Err(VMError::StackOverflow)
    }
}

/// Popping a byte: SP increments, then the byte at SP is read. The stack is
/// empty when SP is `STACK_END - 1`.
pub open spec fn pop8_spec(s: CpuState, mem: Seq<u8>) -> Result<(CpuState, u8), VMError> {
    if STACK_BASE - 1 <= s.sp && s.sp < STACK_END - 1 {
        Ok((CpuState { sp: (s.sp + 1) as u16, ..s }, mem[s.sp + 1]))
    } else {
        Err(VMError::StackUnderflow)
    }
}

/// Popping a word: low byte first.
pub open spec fn pop16_spec(s: CpuState, mem: Seq<u8>) -> Result<(CpuState, u16), VMError> {
    if STACK_BASE - 1 <= s.sp && s.sp + 2 <= STACK_END - 1 {
        Ok((CpuState { sp: (s.sp + 2) as u16, ..s }, le_word(mem[s.sp + 1], mem[s.sp + 2])))
    } else {
        Err(VMError::StackUnderflow)
    }
}

pub open spec fn set_reg(s: CpuState, r: u8, v: u16) -> CpuState {
    CpuState { regs: s.regs.update(r as int, v), ..s }
}

pub open spec fn mem_err<T>(e: MemoryError) -> Option<Result<T, VMError>> {
    Some(Err(VMError::MemoryError(e)))
}

/// A store through the bus, as far as the fixed regions decide it.
pub open spec fn store_spec(s: CpuState, mem: Seq<u8>, ranges: Seq<(u16, u16)>, a: u16, v: u16) -> Option<Result<(CpuState, Seq<u8>), VMError>> {
    match mem_write_u16(mem, ranges, a, v) {
        None => None,
        Some(Err(e)) => mem_err(e),
        Some(Ok(m)) => Some(Ok((s, m))),
    }
}

pub open spec fn alu_step(s: CpuState, mem: Seq<u8>, op: AluOp, d: u8, b: u16) -> Option<Result<(CpuState, Seq<u8>), VMError>> {
    match alu_spec(op, s.regs[d as int], b) {
        None => Some(Err(VMError::DivideByZero)),
        Some((r, c)) => {
            let s1 = CpuState { flags: update_flags_spec(s.flags, r, c), ..s };
            Some(Ok((if op == AluOp::Cmp { s1 } else { set_reg(s1, d, r) }, mem)))
        },
    }
}

/// Executing a decoded instruction, with PC already past it. `None`: a device
/// takes part, and the outcome is partly the device's.
pub open spec fn exec_spec(i: Instr, s: CpuState, mem: Seq<u8>, ranges: Seq<(u16, u16)>) -> Option<Result<(CpuState, Seq<u8>), VMError>> {
    match i {
        Instr::Nop => Some(Ok((s, mem))),
        Instr::Hlt => Some(Ok((CpuState { flags: set_bit(s.flags, FLAG_HALT, true), ..s }, mem))),
        Instr::MovRegReg(d, r) => Some(Ok((set_reg(s, d, s.regs[r as int]), mem))),
        Instr::MovRegImm(d, v) => Some(Ok((set_reg(s, d, v), mem))),
        Instr::MovRegMem(d, r) => match mem_read_u16(mem, ranges, s.regs[r as int]) {
            None => None,
            Some(Err(e)) => mem_err(e),
            Some(Ok(v)) => Some(Ok((set_reg(s, d, v), mem))),
        },
        Instr::MovImmReg(a, r) => store_spec(s, mem, ranges, a, s.regs[r as int]),
        Instr::MovImmImm(a, v) => store_spec(s, mem, ranges, a, v),
        Instr::MovMemReg(d, r) => store_spec(s, mem, ranges, s.regs[d as int], s.regs[r as int]),
        Instr::MovMemImm(d, v) => store_spec(s, mem, ranges, s.regs[d as int], v),
        Instr::Phr(r) => Some(push16_spec(s, mem, s.regs[r as int])),
        Instr::Plr(d) => match pop16_spec(s, mem) {
            Err(e) => Some(Err(e)),
            Ok((s1, v)) => Some(Ok((set_reg(s1, d, v), mem))),
        },
        Instr::AluReg(op, d, r) => alu_step(s, mem, op, d, s.regs[r as int]),
        Instr::AluImm(op, d, v) => alu_step(s, mem, op, d, v),
        Instr::Inc(d) => alu_step(s, mem, AluOp::Add, d, 1),
        Instr::Dec(d) => alu_step(s, mem, AluOp::Sub, d, 1),
        Instr::Not(d) => {
            let r = !s.regs[d as int];
            Some(Ok((set_reg(CpuState { flags: update_flags_spec(s.flags, r, false), ..s }, d, r), mem)))
        },
        Instr::JumpImm(c, t) => Some(Ok((if cond_holds(c, s.flags) { CpuState { pc: t, ..s } } else { s }, mem))),
        Instr::JumpReg(c, r) => Some(
            Ok((if cond_holds(c, s.flags) { CpuState { pc: s.regs[r as int], ..s } } else { s }, mem)),
        ),
        Instr::Jsb(t) => match push16_spec(s, mem, s.pc) {
            Err(e) => Some(Err(e)),
            Ok((s1, m1)) => Some(Ok((CpuState { pc: t, ..s1 }, m1))),
        },
        Instr::Rsb => match pop16_spec(s, mem) {
            Err(e) => Some(Err(e)),
            Ok((s1, v)) => Some(Ok((CpuState { pc: v, ..s1 }, mem))),
        },
        Instr::Cli => Some(Ok((CpuState { flags: set_bit(s.flags, FLAG_INTERRUPT_DISABLED, false), ..s }, mem))),
        Instr::Sei => Some(Ok((CpuState { flags: set_bit(s.flags, FLAG_INTERRUPT_DISABLED, true), ..s }, mem))),
        Instr::Rsi => match pop8_spec(s, mem) {
            Err(e) => Some(Err(e)),
            Ok((s1, f)) => match pop16_spec(s1, mem) {
                Err(e) => Some(Err(e)),
                Ok((s2, v)) => Some(Ok((CpuState { flags: f, pc: v, ..s2 }, mem))),
            },
        },
    }
}

/// An interrupt request is taken at the next step boundary.
pub open spec fn irq_taken(s: CpuState) -> bool {
    get_bit(s.flags, FLAG_INTERRUPT_PENDING) && !get_bit(s.flags, FLAG_INTERRUPT_DISABLED)
}

/// Interrupt entry: PC is pushed (high byte first), then the flag byte with the
/// request consumed; interrupts are disabled and PC is loaded from the vector.
pub open spec fn irq_entry_spec(s: CpuState, mem: Seq<u8>) -> Result<(CpuState, Seq<u8>), VMError> {
    let f1 = set_bit(s.flags, FLAG_INTERRUPT_PENDING, false);
    match push16_spec(s, mem, s.pc) {
        Err(e) => Err(e),
        Ok((s1, m1)) => match push8_spec(s1, m1, f1) {
            Err(e) => Err(e),
            Ok((s2, m2)) => Ok(
                (
                    CpuState {
                        flags: set_bit(f1, FLAG_INTERRUPT_DISABLED, true),
                        pc: le_word(mem[IRQ_VECTOR as int], mem[IRQ_VECTOR + 1]),
                        ..s2
                    },
                    m2,
                ),
            ),
        },
    }
}

/// The addresses `pc + 1 .. pc + n` (wrapping) all lie below the MMIO window.
pub open spec fn operands_plain(pc: u16, n: nat) -> bool {
    forall|k: int| 1 <= k <= n ==> #[trigger] wrap16(pc + k) < MMIO_BASE
}

/// The `n` bytes after the opcode at `pc`.
pub open spec fn operand_bytes(mem: Seq<u8>, pc: u16, n: nat) -> Seq<u8> {
    Seq::new(n, |k: int| mem[wrap16(pc + k + 1) as int])
}

/// One CPU step over the fixed regions `mem` and the device ranges. `None`:
/// the step fetches from or accesses the MMIO window where a device answers,
/// or fetches code there.
pub open spec fn step_spec(s: CpuState, mem: Seq<u8>, ranges: Seq<(u16, u16)>) -> Option<Result<(CpuState, Seq<u8>), VMError>> {
    if irq_taken(s) {
        Some(irq_entry_spec(s, mem))
    } else if s.pc >= MMIO_BASE {
        None
    } else {
        let op = mem[s.pc as int];
        match operand_count(op) {
            None => Some(Err(VMError::InvalidOpcode(op))),
            Some(n) => if !operands_plain(s.pc, n) {
                None
            } else {
                match decode_spec(op, operand_bytes(mem, s.pc, n)) {
                    Err(e) => Some(Err(e)),
                    Ok(i) => exec_spec(i, CpuState { pc: wrap16(s.pc + 1 + n), ..s }, mem, ranges),
                }
            },
        }
    }
}

/// The register operands of an instruction are all below 16.
pub open spec fn regs_ok(i: Instr) -> bool {
    match i {
        Instr::MovRegReg(d, r) | Instr::MovRegMem(d, r) | Instr::MovMemReg(d, r) | Instr::AluReg(_, d, r) => d
            <= 15 && r <= 15,
        Instr::MovRegImm(d, _) | Instr::MovMemImm(d, _) | Instr::AluImm(_, d, _) => d <= 15,
        Instr::MovImmReg(_, r) | Instr::Phr(r) | Instr::Plr(r) | Instr::Inc(r) | Instr::Dec(r) | Instr::Not(r)
        | Instr::JumpReg(_, r) => r <= 15,
        _ => true,
    }
}

/// A step's result and new state agree with the outcome `o`.
pub open spec fn step_agrees(
    o: Option<Result<(CpuState, Seq<u8>), VMError>>,
    r: Result<(), VMError>,
    s2: CpuState,
    mem1: Seq<u8>,
    mem2: Seq<u8>,
) -> bool {
    match o {
        Some(Ok((s, m))) => r is Ok && s2 == s && mem2 == m,
        Some(Err(e)) => r == Err::<(), VMError>(e) && mem2 == mem1,
        None => true,
    }
}

fn set_bit_exec(f: u8, m: u8, v: bool) -> (r: u8)
    ensures
        r == set_bit(f, m, v),
{
    if v {
        f | m
    } else {
        f & !m
    }
}

fn update_flags(f: u8, r: u16, c: bool) -> (x: u8)
    ensures
        x == update_flags_spec(f, r, c),
{
    let f1 = set_bit_exec(f, FLAG_ZERO, r == 0);
    let f2 = set_bit_exec(f1, FLAG_NEGATIVE, r & 0x8000 != 0);
    set_bit_exec(f2, FLAG_CARRY, c)
}

fn cond_holds_exec(c: Cond, f: u8) -> (r: bool)
    ensures
        r == cond_holds(c, f),
{
    match c {
        Cond::Always => true,
        Cond::Zero => f & FLAG_ZERO != 0,
        Cond::NotZero => f & FLAG_ZERO == 0,
        Cond::Negative => f & FLAG_NEGATIVE != 0,
        Cond::NotNegative => f & FLAG_NEGATIVE == 0,
        Cond::Carry => f & FLAG_CARRY != 0,
        Cond::NotCarry => f & FLAG_CARRY == 0,
    }
}

/// Computes an ALU operation; `None` on division by zero.
pub fn alu(op: AluOp, a: u16, b: u16) -> (r: Option<(u16, bool)>)
    ensures
        r == alu_spec(op, a, b),
{
    match op {
        AluOp::Add => {
            let s = a as u32 + b as u32;
            Some(((s % 65536) as u16, s > 65535))
        },
        AluOp::Sub | AluOp::Cmp => Some((((a as u32 + 65536 - b as u32) % 65536) as u16, a < b)),
        AluOp::Mul => {
            assert(a as int * b as int <= 65535 * 65535) by (nonlinear_arith)
                requires
                    a <= 65535,
                    b <= 65535,
            ;
            let p = a as u32 * b as u32;
            Some(((p % 65536) as u16, p > 65535))
        },
        AluOp::Div => if b == 0 {
            None
        } else {
            Some((a / b, false))
        },
        AluOp::Mod => if b == 0 {
            None
        } else {
            Some((a % b, false))
        },
        AluOp::And => Some((a & b, false)),
        AluOp::Or => Some((a | b, false)),
        AluOp::Xor => Some((a ^ b, false)),
    }
}

fn alu_opcode_exec(op: AluOp) -> (r: u8)
    ensures
        r == alu_opcode(op),
{
    match op {
        AluOp::Add => 0x20,
        AluOp::Sub => 0x22,
        AluOp::Mul => 0x24,
        AluOp::Div => 0x26,
        AluOp::Mod => 0x28,
        AluOp::And => 0x30,
        AluOp::Or => 0x32,
        AluOp::Xor => 0x34,
        AluOp::Cmp => 0x40,
    }
}

fn cond_opcode_exec(c: Cond) -> (r: u8)
    ensures
        r == cond_opcode(c),
{
    match c {
        Cond::Always => 0x50,
        Cond::Zero => 0x52,
        Cond::NotZero => 0x54,
        Cond::Negative => 0x56,
        Cond::NotNegative => 0x58,
        Cond::Carry => 0x5A,
        Cond::NotCarry => 0x5C,
    }
}

fn alu_of_opcode_exec(op: u8) -> (r: Option<(AluOp, bool)>)
    ensures
        r == alu_of_opcode(op),
{
    if op == 0x20 || op == 0x21 {
        Some((AluOp::Add, op == 0x21))
    } else if op == 0x22 || op == 0x23 {
        Some((AluOp::Sub, op == 0x23))
    } else if op == 0x24 || op == 0x25 {
        Some((AluOp::Mul, op == 0x25))
    } else if op == 0x26 || op == 0x27 {
        Some((AluOp::Div, op == 0x27))
    } else if op == 0x28 || op == 0x29 {
        Some((AluOp::Mod, op == 0x29))
    } else if op == 0x30 || op == 0x31 {
        Some((AluOp::And, op == 0x31))
    } else if op == 0x32 || op == 0x33 {
        Some((AluOp::Or, op == 0x33))
    } else if op == 0x34 || op == 0x35 {
        Some((AluOp::Xor, op == 0x35))
    } else if op == 0x40 || op == 0x41 {
        Some((AluOp::Cmp, op == 0x41))
    } else {
        None
    }
}

fn cond_of_opcode_exec(op: u8) -> (r: Option<(Cond, bool)>)
    ensures
        r == cond_of_opcode(op),
{
    if op == 0x50 || op == 0x51 {
        Some((Cond::Always, op == 0x50))
    } else if op == 0x52 || op == 0x53 {
        Some((Cond::Zero, op == 0x52))
    } else if op == 0x54 || op == 0x55 {
        Some((Cond::NotZero, op == 0x54))
    } else if op == 0x56 || op == 0x57 {
        Some((Cond::Negative, op == 0x56))
    } else if op == 0x58 || op == 0x59 {
        Some((Cond::NotNegative, op == 0x58))
    } else if op == 0x5A || op == 0x5B {
        Some((Cond::Carry, op == 0x5A))
    } else if op == 0x5C || op == 0x5D {
        Some((Cond::NotCarry, op == 0x5C))
    } else {
        None
    }
}

/// The number of operand bytes of an opcode; `None` when it is undefined.
pub fn operand_count_of(op: u8) -> (r: Option<usize>)
    ensures
        r is Some <==> operand_count(op) is Some,
        r is Some ==> r.unwrap() == operand_count(op).unwrap(),
{
    if op == 0x00 || op == 0x01 || op == 0x5F || op == 0x60 || op == 0x61 || op == 0x62 {
        Some(0)
    } else if op == 0x10 || op == 0x12 || op == 0x15 || op == 0x5E {
        Some(2)
    } else if op == 0x11 || op == 0x13 || op == 0x16 {
        Some(3)
    } else if op == 0x14 {
        Some(4)
    } else if op == 0x17 || op == 0x18 || op == 0x2A || op == 0x2B || op == 0x36 {
        Some(1)
    } else {
        match alu_of_opcode_exec(op) {
            Some((_, imm)) => Some(if imm { 3 } else { 2 }),
            None => match cond_of_opcode_exec(op) {
                Some((_, imm)) => Some(if imm { 2 } else { 1 }),
                None => None,
            },
        }
    }
}

fn chk1(r: u8, i: Instr) -> (x: Result<Instr, VMError>)
    ensures
        x == check1(r, i),
{
    if r <= 15 {
        Ok(i)
    } else {
        Err(VMError::InvalidRegister(r))
    }
}

fn chk2(r1: u8, r2: u8, i: Instr) -> (x: Result<Instr, VMError>)
    ensures
        x == check2(r1, r2, i),
{
    if r1 > 15 {
        Err(VMError::InvalidRegister(r1))
    } else if r2 > 15 {
        Err(VMError::InvalidRegister(r2))
    } else {
        Ok(i)
    }
}

/// Decodes an opcode and its operand bytes.
pub fn decode(op: u8, b: &Vec<u8>) -> (r: Result<Instr, VMError>)
    requires
        operand_count(op) == Some(b@.len()),
    ensures
        r == decode_spec(op, b@),
        r is Ok ==> regs_ok(r.unwrap()),
{
    if op == 0x00 {
        Ok(Instr::Nop)
    } else if op == 0x01 {
        Ok(Instr::Hlt)
    } else if op == 0x10 {
        chk2(b[0], b[1], Instr::MovRegReg(b[0], b[1]))
    } else if op == 0x11 {
        chk1(b[0], Instr::MovRegImm(b[0], make_word(b[1], b[2])))
    } else if op == 0x12 {
        chk2(b[0], b[1], Instr::MovRegMem(b[0], b[1]))
    } else if op == 0x13 {
        chk1(b[2], Instr::MovImmReg(make_word(b[0], b[1]), b[2]))
    } else if op == 0x14 {
        Ok(Instr::MovImmImm(make_word(b[0], b[1]), make_word(b[2], b[3])))
    } else if op == 0x15 {
        chk2(b[0], b[1], Instr::MovMemReg(b[0], b[1]))
    } else if op == 0x16 {
        chk1(b[0], Instr::MovMemImm(b[0], make_word(b[1], b[2])))
    } else if op == 0x17 {
        chk1(b[0], Instr::Phr(b[0]))
    } else if op == 0x18 {
        chk1(b[0], Instr::Plr(b[0]))
    } else if op == 0x2A {
        chk1(b[0], Instr::Inc(b[0]))
    } else if op == 0x2B {
        chk1(b[0], Instr::Dec(b[0]))
    } else if op == 0x36 {
        chk1(b[0], Instr::Not(b[0]))
    } else if op == 0x5E {
        Ok(Instr::Jsb(make_word(b[0], b[1])))
    } else if op == 0x5F {
        Ok(Instr::Rsb)
    } else if op == 0x60 {
        Ok(Instr::Cli)
    } else if op == 0x61 {
        Ok(Instr::Sei)
    } else if op == 0x62 {
        Ok(Instr::Rsi)
    } else {
        match alu_of_opcode_exec(op) {
            Some((a, imm)) => {
                if imm {
                    chk1(b[0], Instr::AluImm(a, b[0], make_word(b[1], b[2])))
                } else {
                    chk2(b[0], b[1], Instr::AluReg(a, b[0], b[1]))
                }
            },
            None => match cond_of_opcode_exec(op) {
                Some((c, imm)) => {
                    if imm {
                        Ok(Instr::JumpImm(c, make_word(b[0], b[1])))
                    } else {
                        chk1(b[0], Instr::JumpReg(c, b[0]))
                    }
                },
                None => Err(VMError::InvalidOpcode(op)),
            },
        }
    }
}

/// Encodes an instruction as the bytes the CPU decodes.
pub fn encode(i: Instr) -> (r: Vec<u8>)
    ensures
        r@ == encode_spec(i),
{
    let r = match i {
        Instr::Nop => vec![0x00u8],
        Instr::Hlt => vec![0x01u8],
        Instr::MovRegReg(d, s) => vec![0x10u8, d, s],
        Instr::MovRegImm(d, v) => {
            let (lo, hi) = split_word(v);
            vec![0x11u8, d, lo, hi]
        },
        Instr::MovRegMem(d, s) => vec![0x12u8, d, s],
        Instr::MovImmReg(a, s) => {
            let (lo, hi) = split_word(a);
            vec![0x13u8, lo, hi, s]
        },
        Instr::MovImmImm(a, v) => {
            let (alo, ahi) = split_word(a);
            let (lo, hi) = split_word(v);
            vec![0x14u8, alo, ahi, lo, hi]
        },
        Instr::MovMemReg(d, s) => vec![0x15u8, d, s],
        Instr::MovMemImm(d, v) => {
            let (lo, hi) = split_word(v);
            vec![0x16u8, d, lo, hi]
        },
        Instr::Phr(s) => vec![0x17u8, s],
        Instr::Plr(d) => vec![0x18u8, d],
        Instr::AluReg(op, d, s) => vec![alu_opcode_exec(op), d, s],
        Instr::AluImm(op, d, v) => {
            let (lo, hi) = split_word(v);
            vec![alu_opcode_exec(op) + 1, d, lo, hi]
        },
        Instr::Inc(d) => vec![0x2Au8, d],
        Instr::Dec(d) => vec![0x2Bu8, d],
        Instr::Not(d) => vec![0x36u8, d],
        Instr::JumpImm(c, t) => {
            let (lo, hi) = split_word(t);
            vec![cond_opcode_exec(c), lo, hi]
        },
        Instr::JumpReg(c, s) => vec![cond_opcode_exec(c) + 1, s],
        Instr::Jsb(t) => {
            let (lo, hi) = split_word(t);
            vec![0x5Eu8, lo, hi]
        },
        Instr::Rsb => vec![0x5Fu8],
        Instr::Cli => vec![0x60u8],
        Instr::Sei => vec![0x61u8],
        Instr::Rsi => vec![0x62u8],
    };
    assert(r@ =~= encode_spec(i));
    r
}

/// The CPU: sixteen general registers, the flag byte, PC and SP.
#[derive(Debug, Clone, Copy)]
pub struct Machine {
    pub registers: [u16; 16],
    pub flags: u8,
    pub pc: u16,
    pub sp: u16,
}

impl View for Machine {
    type V = CpuState;

    open spec fn view(&self) -> CpuState {
        CpuState { regs: self.registers@, flags: self.flags, pc: self.pc, sp: self.sp }
    }
}

impl Machine {
    /// A CPU in its reset state, with PC at 0 until `reset` reads the vector.
    pub fn new() -> (r: Self)
        ensures
            r@.regs == Seq::new(16, |i: int| 0u16),
            r.flags == FLAG_INTERRUPT_DISABLED,
            r.pc == 0,
            r.sp == STACK_END - 1,
    {
        let r = Machine { registers: [0u16; 16], flags: FLAG_INTERRUPT_DISABLED, pc: 0, sp: STACK_END - 1 };
        assert(r@.regs =~= Seq::new(16, |i: int| 0u16));
        r
    }

    /// Clears the registers, disables interrupts, empties the stack and loads
    /// PC from the reset vector.
    pub fn reset<D: Device>(&mut self, bus: &mut MemoryBus<D>) -> (r: Result<(), VMError>)
        requires
            old(bus).wf(),
        ensures
            final(bus).wf(),
            final(bus).mem() == old(bus).mem(),
            final(bus).devices() == old(bus).devices(),
            r is Ok,
            final(self)@.regs == Seq::new(16, |i: int| 0u16),
            final(self).flags == FLAG_INTERRUPT_DISABLED,
            final(self).sp == STACK_END - 1,
            final(self).pc == le_word(old(bus).mem()[RESET_VECTOR as int], old(bus).mem()[RESET_VECTOR + 1]),
    {
        let pc = match bus.read_u16(RESET_VECTOR) {
            Ok(v) => v,
            Err(e) => return Err(VMError::MemoryError(e)),
        };
        self.registers = [0u16; 16];
        self.flags = FLAG_INTERRUPT_DISABLED;
        self.sp = STACK_END - 1;
        self.pc = pc;
        assert(self@.regs =~= Seq::new(16, |i: int| 0u16));
        Ok(())
    }

    pub fn get_flag(&self, flag: Flag) -> (r: bool)
        ensures
            r == get_bit(self.flags, flag.spec_mask()),
    {
        self.flags & flag.mask() != 0
    }

    pub fn set_flag(&mut self, flag: Flag, value: bool)
        ensures
            final(self).flags == set_bit(old(self).flags, flag.spec_mask(), value),
            final(self).registers == old(self).registers,
            final(self).pc == old(self).pc,
            final(self).sp == old(self).sp,
    {
        self.flags = set_bit_exec(self.flags, flag.mask(), value);
    }

    pub fn halted(&self) -> (r: bool)
        ensures
            r == get_bit(self.flags, FLAG_HALT),
    {
        self.flags & FLAG_HALT != 0
    }

    /// Latches an interrupt request; it is taken at the next step boundary
    /// when interrupts are enabled.
    pub fn request_interrupt(&mut self)
        ensures
            final(self)@ == (CpuState { flags: set_bit(old(self).flags, FLAG_INTERRUPT_PENDING, true), ..old(self)@ }),
    {
        self.flags = set_bit_exec(self.flags, FLAG_INTERRUPT_PENDING, true);
    }

    pub fn push_u8<D: Device>(&mut self, bus: &mut MemoryBus<D>, v: u8) -> (r: Result<(), VMError>)
        requires
            old(bus).wf(),
        ensures
            final(bus).wf(),
            final(bus).ranges() == old(bus).ranges(),
            final(bus).devices() == old(bus).devices(),
            match push8_spec(old(self)@, old(bus).mem(), v) {
                Ok((s, m)) => r is Ok && final(self)@ == s && final(bus).mem() == m,
                Err(e) => r == Err::<(), VMError>(e) && *final(self) == *old(self) && final(bus).mem() == old(bus).mem(),
            },
    {
        if STACK_BASE <= self.sp && self.sp <= STACK_END {
            let _ = bus.write_u8(self.sp, v);
            self.sp = self.sp - 1;
            Ok(())
        } else {
            Err(VMError::StackOverflow)
        }
    }

    /// Pushes a word, high byte first.
    pub fn push_u16<D: Device>(&mut self, bus: &mut MemoryBus<D>, v: u16) -> (r: Result<(), VMError>)
        requires
            old(bus).wf(),
        ensures
            final(bus).wf(),
            final(bus).ranges() == old(bus).ranges(),
            final(bus).devices() == old(bus).devices(),
            match push16_spec(old(self)@, old(bus).mem(), v) {
                Ok((s, m)) => r is Ok && final(self)@ == s && final(bus).mem() == m,
                Err(e) => r == Err::<(), VMError>(e) && *final(self) == *old(self) && final(bus).mem() == old(bus).mem(),
            },
    {
        if STACK_BASE + 1 <= self.sp && self.sp <= STACK_END {
            let (lo, hi) = split_word(v);
            let _ = bus.write_u8(self.sp, hi);
            let _ = bus.write_u8(self.sp - 1, lo);
            self.sp = self.sp - 2;
            Ok(())
        } else {
            Err(VMError::StackOverflow)
        }
    }

    pub fn pop_u8<D: Device>(&mut self, bus: &mut MemoryBus<D>) -> (r: Result<u8, VMError>)
        requires
            old(bus).wf(),
        ensures
            final(bus).wf(),
            final(bus).ranges() == old(bus).ranges(),
            final(bus).devices() == old(bus).devices(),
            final(bus).mem() == old(bus).mem(),
            match pop8_spec(old(self)@, old(bus).mem()) {
                Ok((s, v)) => r == Ok::<u8, VMError>(v) && final(self)@ == s,
                Err(e) => r == Err::<u8, VMError>(e) && *final(self) == *old(self),
            },
    {
        if STACK_BASE - 1 <= self.sp && self.sp < STACK_END - 1 {
            let v = match bus.read_u8(self.sp + 1) {
                Ok(v) => v,
                Err(_) => 0,
            };
            self.sp = self.sp + 1;
            Ok(v)
        } else {
            Err(VMError::StackUnderflow)
        }
    }

    /// Pops a word, low byte first.
    pub fn pop_u16<D: Device>(&mut self, bus: &mut MemoryBus<D>) -> (r: Result<u16, VMError>)
        requires
            old(bus).wf(),
        ensures
            final(bus).wf(),
            final(bus).ranges() == old(bus).ranges(),
            final(bus).devices() == old(bus).devices(),
            final(bus).mem() == old(bus).mem(),
            match pop16_spec(old(self)@, old(bus).mem()) {
                Ok((s, v)) => r == Ok::<u16, VMError>(v) && final(self)@ == s,
                Err(e) => r == Err::<u16, VMError>(e) && *final(self) == *old(self),
            },
    {
        if STACK_BASE - 1 <= self.sp && self.sp <= STACK_END - 3 {
            let lo = match bus.read_u8(self.sp + 1) {
                Ok(v) => v,
                Err(_) => 0,
            };
            let hi = match bus.read_u8(self.sp + 2) {
                Ok(v) => v,
                Err(_) => 0,
            };
            self.sp = self.sp + 2;
            Ok(make_word(lo, hi))
        } else {
            Err(VMError::StackUnderflow)
        }
    }

    fn store<D: Device>(&mut self, bus: &mut MemoryBus<D>, a: u16, v: u16) -> (r: Result<(), VMError>)
        requires
            old(bus).wf(),
        ensures
            final(bus).wf(),
            final(bus).ranges() == old(bus).ranges(),
            *final(self) == *old(self),
            step_agrees(store_spec(old(self)@, old(bus).mem(), old(bus).ranges(), a, v), r, final(self)@, old(bus).mem(), final(bus).mem()),
    {
        match bus.write_u16(a, v) {
            Ok(()) => Ok(()),
            Err(e) => Err(VMError::MemoryError(e)),
        }
    }

    fn alu_exec(&mut self, op: AluOp, d: u8, b: u16) -> (r: Result<(), VMError>)
        requires
            d <= 15,
        ensures
            forall|mem: Seq<u8>|
                step_agrees(#[trigger] alu_step(old(self)@, mem, op, d, b), r, final(self)@, mem, mem),
    {
        match alu(op, self.registers[d as usize], b) {
            None => Err(VMError::DivideByZero),
            Some((res, c)) => {
                self.flags = update_flags(self.flags, res, c);
                if op != AluOp::Cmp {
                    self.registers[d as usize] = res;
                }
                proof {
                    let s1 = CpuState { flags: update_flags_spec(old(self).flags, res, c), ..old(self)@ };
                    if op != AluOp::Cmp {
                        assert(self@ == set_reg(s1, d, res));
                    } else {
                        assert(self@ == s1);
                    }
                }
                Ok(())
            },
        }
    }

    /// Interrupt entry; the stack must hold three more bytes.
    fn enter_interrupt<D: Device>(&mut self, bus: &mut MemoryBus<D>) -> (r: Result<(), VMError>)
        requires
            old(bus).wf(),
        ensures
            final(bus).wf(),
            final(bus).ranges() == old(bus).ranges(),
            step_agrees(Some(irq_entry_spec(old(self)@, old(bus).mem())), r, final(self)@, old(bus).mem(), final(bus).mem()),
    {
        if !(STACK_BASE + 2 <= self.sp && self.sp <= STACK_END) {
            return Err(VMError::StackOverflow);
        }
        let vector = match bus.read_u16(IRQ_VECTOR) {
            Ok(v) => v,
            Err(e) => return Err(VMError::MemoryError(e)),
        };
        let f1 = set_bit_exec(self.flags, FLAG_INTERRUPT_PENDING, false);
        let ret = self.pc;
        let _ = self.push_u16(bus, ret);
        let _ = self.push_u8(bus, f1);
        self.flags = set_bit_exec(f1, FLAG_INTERRUPT_DISABLED, true);
        self.pc = vector;
        Ok(())
    }

    /// One step: an interrupt entry when a request is pending and interrupts
    /// are enabled, else the fetch, decode and execution of one instruction.
    /// On an error the CPU is left as it was.
    pub fn step<D: Device>(&mut self, bus: &mut MemoryBus<D>) -> (r: Result<(), VMError>)
        requires
            old(bus).wf(),
        ensures
            final(bus).wf(),
            final(bus).ranges() == old(bus).ranges(),
            step_agrees(step_spec(old(self)@, old(bus).mem(), old(bus).ranges()), r, final(self)@, old(bus).mem(), final(bus).mem()),
            r is Err ==> *final(self) == *old(self),
    {
        let mut m = *self;
        if m.flags & FLAG_INTERRUPT_PENDING != 0 && m.flags & FLAG_INTERRUPT_DISABLED == 0 {
            let r = m.enter_interrupt(bus);
            if r.is_ok() {
                *self = m;
            }
            return r;
        }
        let pc = m.pc;
        let op = match bus.read_u8(pc) {
            Ok(b) => b,
            Err(e) => return Err(VMError::MemoryError(e)),
        };
        let n = match operand_count_of(op) {
            Some(n) => n,
            None => return Err(VMError::InvalidOpcode(op)),
        };
        let ghost mem0 = old(bus).mem();
        let mut bytes: Vec<u8> = Vec::new();
        let mut k: usize = 0;
        while k < n
            invariant
                bus.wf(),
                bus.mem() == mem0,
                bus.ranges() == old(bus).ranges(),
                *self == *old(self),
                m == *old(self),
                pc == m.pc,
                mem0 == old(bus).mem(),
                !irq_taken(old(self)@),
                pc < MMIO_BASE ==> op == mem0[pc as int],
                pc >= MMIO_BASE ==> step_spec(old(self)@, old(bus).mem(), old(bus).ranges()) is None,
                operand_count(op) is Some,
                n == operand_count(op).unwrap(),
                n <= 4,
                k <= n,
                bytes@.len() == k,
                operands_plain(pc, n as nat) ==> forall|j: int|
                    0 <= j < k ==> bytes@[j] == #[trigger] operand_bytes(mem0, pc, n as nat)[j],
            decreases n - k,
        {
            let a = ((pc as u32 + k as u32 + 1) % 65536) as u16;
            let b = match bus.read_u8(a) {
                Ok(b) => b,
                Err(e) => return Err(VMError::MemoryError(e)),
            };
            proof {
                if operands_plain(pc, n as nat) {
                    assert(wrap16(pc + (k + 1)) < MMIO_BASE);
                    assert(wrap16(pc + (k + 1)) == a);
                }
            }
            bytes.push(b);
            k = k + 1;
        }
        proof {
            if operands_plain(pc, n as nat) {
                assert(bytes@ =~= operand_bytes(mem0, pc, n as nat));
            }
        }
        let i = decode(op, &bytes)?;
        m.pc = ((pc as u32 + n as u32 + 1) % 65536) as u16;
        let r = m.execute(i, bus);
        if r.is_ok() {
            *self = m;
        }
        r
    }

    /// Executes a decoded instruction; PC is already past it.
    pub fn execute<D: Device>(&mut self, i: Instr, bus: &mut MemoryBus<D>) -> (r: Result<(), VMError>)
        requires
            old(bus).wf(),
            regs_ok(i),
            old(self).registers@.len() == 16,
        ensures
            final(bus).wf(),
            final(bus).ranges() == old(bus).ranges(),
            step_agrees(exec_spec(i, old(self)@, old(bus).mem(), old(bus).ranges()), r, final(self)@, old(bus).mem(), final(bus).mem()),
    {
        match i {
            Instr::Nop => Ok(()),
            Instr::Hlt => {
                self.flags = set_bit_exec(self.flags, FLAG_HALT, true);
                Ok(())
            },
            Instr::MovRegReg(d, s) => {
                self.registers[d as usize] = self.registers[s as usize];
                Ok(())
            },
            Instr::MovRegImm(d, v) => {
                self.registers[d as usize] = v;
                Ok(())
            },
            Instr::MovRegMem(d, s) => {
                match bus.read_u16(self.registers[s as usize]) {
                    Ok(v) => {
                        self.registers[d as usize] = v;
                        Ok(())
                    },
                    Err(e) => Err(VMError::MemoryError(e)),
                }
            },
            Instr::MovImmReg(a, s) => {
                let v = self.registers[s as usize];
                self.store(bus, a, v)
            },
            Instr::MovImmImm(a, v) => self.store(bus, a, v),
            Instr::MovMemReg(d, s) => {
                let a = self.registers[d as usize];
                let v = self.registers[s as usize];
                self.store(bus, a, v)
            },
            Instr::MovMemImm(d, v) => {
                let a = self.registers[d as usize];
                self.store(bus, a, v)
            },
            Instr::Phr(s) => {
                let v = self.registers[s as usize];
                self.push_u16(bus, v)
            },
            Instr::Plr(d) => {
                let v = self.pop_u16(bus)?;
                self.registers[d as usize] = v;
                Ok(())
            },
            Instr::AluReg(op, d, s) => {
                let b = self.registers[s as usize];
                let r = self.alu_exec(op, d, b);
                assert(step_agrees(alu_step(old(self)@, old(bus).mem(), op, d, b), r, self@, old(bus).mem(), old(bus).mem()));
                r
            },
            Instr::AluImm(op, d, v) => {
                let r = self.alu_exec(op, d, v);
                assert(step_agrees(alu_step(old(self)@, old(bus).mem(), op, d, v), r, self@, old(bus).mem(), old(bus).mem()));
                r
            },
            Instr::Inc(d) => {
                let r = self.alu_exec(AluOp::Add, d, 1);
                assert(step_agrees(alu_step(old(self)@, old(bus).mem(), AluOp::Add, d, 1), r, self@, old(bus).mem(), old(bus).mem()));
                r
            },
            Instr::Dec(d) => {
                let r = self.alu_exec(AluOp::Sub, d, 1);
                assert(step_agrees(alu_step(old(self)@, old(bus).mem(), AluOp::Sub, d, 1), r, self@, old(bus).mem(), old(bus).mem()));
                r
            },
            Instr::Not(d) => {
                let res = !self.registers[d as usize];
                self.flags = update_flags(self.flags, res, false);
                self.registers[d as usize] = res;
                Ok(())
            },
            Instr::JumpImm(c, t) => {
                if cond_holds_exec(c, self.flags) {
                    self.pc = t;
                }
                Ok(())
            },
            Instr::JumpReg(c, s) => {
                if cond_holds_exec(c, self.flags) {
                    self.pc = self.registers[s as usize];
                }
                Ok(())
            },
            Instr::Jsb(t) => {
                let ret = self.pc;
                self.push_u16(bus, ret)?;
                self.pc = t;
                Ok(())
            },
            Instr::Rsb => {
                let v = self.pop_u16(bus)?;
                self.pc = v;
                Ok(())
            },
            Instr::Cli => {
                self.flags = set_bit_exec(self.flags, FLAG_INTERRUPT_DISABLED, false);
                Ok(())
            },
            Instr::Sei => {
                self.flags = set_bit_exec(self.flags, FLAG_INTERRUPT_DISABLED, true);
                Ok(())
            },
            Instr::Rsi => {
                let f = self.pop_u8(bus)?;
                let v = self.pop_u16(bus)?;
                self.flags = f;
                self.pc = v;
                Ok(())
            },
        }
    }
}

/// A word pushed on the stack pops back unchanged, and SP returns to its value
/// before the push. A push from SP = `STACK_END` is left out: it writes the top
/// byte, which a pop (that stops at `STACK_END - 1`) never reads back.
pub proof fn lemma_push_pop_u16(s: CpuState, mem: Seq<u8>, v: u16)
    requires
        mem.len() == MMIO_BASE,
        s.sp <= STACK_END - 1,
        push16_spec(s, mem, v) is Ok,
    ensures
        ({
            let (s1, m1) = push16_spec(s, mem, v).unwrap();
            pop16_spec(s1, m1) == Ok::<(CpuState, u16), VMError>((s, v))
        }),
{
    lemma_bytes_word(v);
}

/// A conditional jump to an immediate target moves PC past its three bytes when
/// its condition fails, and to the target when it holds.
pub proof fn lemma_conditional_jump(s: CpuState, mem: Seq<u8>, ranges: Seq<(u16, u16)>, c: Cond)
    requires
        mem.len() == MMIO_BASE,
        c != Cond::Always,
        !irq_taken(s),
        s.pc + 2 < MMIO_BASE,
        mem[s.pc as int] == cond_opcode(c),
    ensures
        ({
            let t = le_word(mem[s.pc + 1], mem[s.pc + 2]);
            &&& !cond_holds(c, s.flags) ==> step_spec(s, mem, ranges) == Some(
                Ok::<(CpuState, Seq<u8>), VMError>((CpuState { pc: (s.pc + 3) as u16, ..s }, mem)),
            )
            &&& cond_holds(c, s.flags) ==> step_spec(s, mem, ranges) == Some(
                Ok::<(CpuState, Seq<u8>), VMError>((CpuState { pc: t, ..s }, mem)),
            )
        }),
{
    let b = operand_bytes(mem, s.pc, 2);
    assert(wrap16(s.pc + 1) == s.pc + 1);
    assert(wrap16(s.pc + 2) == s.pc + 2);
    assert(b[0] == mem[s.pc + 1]);
    assert(b[1] == mem[s.pc + 2]);
    assert(operands_plain(s.pc, 2));
}

/// After an arithmetic or logic instruction, Zero is set exactly when the result
/// is zero and Negative exactly when its bit 15 is set.
pub proof fn lemma_alu_flags(s: CpuState, mem: Seq<u8>, op: AluOp, d: u8, b: u16)
    requires
        d <= 15,
        s.regs.len() == 16,
        alu_spec(op, s.regs[d as int], b) is Some,
    ensures
        ({
            let (r, c) = alu_spec(op, s.regs[d as int], b).unwrap();
            let s2 = alu_step(s, mem, op, d, b).unwrap().unwrap().0;
            &&& get_bit(s2.flags, FLAG_ZERO) == (r == 0)
            &&& get_bit(s2.flags, FLAG_NEGATIVE) == (r & 0x8000 != 0)
            &&& get_bit(s2.flags, FLAG_CARRY) == c
        }),
{
    let (r, c) = alu_spec(op, s.regs[d as int], b).unwrap();
    let f1 = set_bit(s.flags, FLAG_ZERO, r == 0);
    let f2 = set_bit(f1, FLAG_NEGATIVE, r & 0x8000 != 0);
    lemma_set_bit(s.flags, FLAG_ZERO, r == 0, FLAG_ZERO);
    lemma_set_bit(f1, FLAG_NEGATIVE, r & 0x8000 != 0, FLAG_ZERO);
    lemma_set_bit(f1, FLAG_NEGATIVE, r & 0x8000 != 0, FLAG_NEGATIVE);
    lemma_set_bit(f2, FLAG_CARRY, c, FLAG_ZERO);
    lemma_set_bit(f2, FLAG_CARRY, c, FLAG_NEGATIVE);
    lemma_set_bit(f2, FLAG_CARRY, c, FLAG_CARRY);
}

/// `JSB t` followed by the `RSB` at `t` returns to the instruction after the
/// `JSB`, with SP, the registers and the flags as before the call.
pub proof fn lemma_call_return(s: CpuState, mem: Seq<u8>, ranges: Seq<(u16, u16)>)
    requires
        mem.len() == MMIO_BASE,
        !irq_taken(s),
        s.pc + 2 < MMIO_BASE,
        mem[s.pc as int] == 0x5E,
        STACK_BASE + 1 <= s.sp <= STACK_END - 1,
        le_word(mem[s.pc + 1], mem[s.pc + 2]) < STACK_BASE,
        mem[le_word(mem[s.pc + 1], mem[s.pc + 2]) as int] == 0x5F,
    ensures
        ({
            let (s1, m1) = step_spec(s, mem, ranges).unwrap().unwrap();
            step_spec(s1, m1, ranges) == Some(
                Ok::<(CpuState, Seq<u8>), VMError>((CpuState { pc: (s.pc + 3) as u16, ..s }, m1)),
            )
        }),
{
    let t = le_word(mem[s.pc + 1], mem[s.pc + 2]);
    let b = operand_bytes(mem, s.pc, 2);
    assert(wrap16(s.pc + 1) == s.pc + 1);
    assert(wrap16(s.pc + 2) == s.pc + 2);
    assert(b[0] == mem[s.pc + 1]);
    assert(b[1] == mem[s.pc + 2]);
    assert(operands_plain(s.pc, 2));
    let ret = wrap16(s.pc + 1 + 2);
    assert(ret == s.pc + 3);
    let (s1, m1) = step_spec(s, mem, ranges).unwrap().unwrap();
    assert(s1 == CpuState { pc: t, sp: (s.sp - 2) as u16, ..s });
    assert(m1[t as int] == 0x5F);
    assert(operands_plain(t, 0));
    lemma_bytes_word(ret);
    let s2 = CpuState { pc: ret, sp: s.sp, ..s1 };
    assert(s2 == CpuState { pc: (s.pc + 3) as u16, ..s });
}

/// Taking an interrupt whose handler is a single `RSI` returns to the
/// interrupted instruction with SP and the registers as before, and the flags
/// as before with the request consumed.
pub proof fn lemma_interrupt_return(s: CpuState, mem: Seq<u8>, ranges: Seq<(u16, u16)>)
    requires
        mem.len() == MMIO_BASE,
        irq_taken(s),
        STACK_BASE + 2 <= s.sp <= STACK_END - 1,
        le_word(mem[IRQ_VECTOR as int], mem[IRQ_VECTOR + 1]) < STACK_BASE,
        mem[le_word(mem[IRQ_VECTOR as int], mem[IRQ_VECTOR + 1]) as int] == 0x62,
    ensures
        ({
            let (s1, m1) = step_spec(s, mem, ranges).unwrap().unwrap();
            step_spec(s1, m1, ranges) == Some(
                Ok::<(CpuState, Seq<u8>), VMError>(
                    (CpuState { flags: set_bit(s.flags, FLAG_INTERRUPT_PENDING, false), ..s }, m1),
                ),
            )
        }),
{
    let f1 = set_bit(s.flags, FLAG_INTERRUPT_PENDING, false);
    lemma_set_bit(f1, FLAG_INTERRUPT_DISABLED, true, FLAG_INTERRUPT_DISABLED);
    let v = le_word(mem[IRQ_VECTOR as int], mem[IRQ_VECTOR + 1]);
    let (s1, m1) = step_spec(s, mem, ranges).unwrap().unwrap();
    assert(!irq_taken(s1));
    assert(m1[v as int] == 0x62);
    assert(operands_plain(v, 0));
    lemma_bytes_word(s.pc);
}

} // verus!
