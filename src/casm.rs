use vstd::prelude::*;
use crate::bus::{low_byte, high_byte};
use crate::casm_lexer::tokenize;
use crate::casm_parser::{
    aliases_spec, parse_tokens, statements_view, tokens_view, parse_spec, Mnemonic, Operand, OperandView,
    Program, Statement, StatementView,
};
use crate::error::{AssembleError, AssembleErrorView};
use crate::machine::{encode, encode_spec, decode_spec, operand_count, lemma_decode_encode, AluOp, Cond, Instr};
use crate::text::{eq_upper, upper};
use crate::symbols::{AliasTable, SymbolTable};
use crate::casm_parser::{arity, arity_exec, clone_operand};

verus! {

/// The size of the output image: the ROM.
pub const IMAGE_SIZE: usize = 0x8000;

/// The deepest chain of aliases that resolution follows.
pub const MAX_ALIAS_DEPTH: usize = 10;

/// What an operand is for sizing: a register, or a value (literal or label).
#[derive(Debug, Clone, Copy, PartialEq, Eq, Structural)]
pub enum OperandKind {
    RegisterLike,
    LiteralLike,
}

pub type AliasMap = Map<Seq<char>, OperandView>;

pub type LabelMap = Map<Seq<char>, u16>;

pub open spec fn alias_view(m: Map<Seq<char>, Operand>) -> AliasMap {
    m.map_values(|o: Operand| o@)
}

/// The kind of an operand after following aliases, `depth` of them already.
pub open spec fn kind_spec(op: OperandView, al: AliasMap, depth: nat) -> Result<OperandKind, AssembleErrorView>
    decreases MAX_ALIAS_DEPTH - depth,
{
    match op {
        OperandView::Register(_) | OperandView::RegisterIndirect(_) => Ok(OperandKind::RegisterLike),
        OperandView::Literal(_) | OperandView::LabelRef(_) => Ok(OperandKind::LiteralLike),
        OperandView::CharString(_) => Err(AssembleErrorView::InvalidOperands),
        OperandView::Alias(n) => if depth >= MAX_ALIAS_DEPTH {
            Err(AssembleErrorView::AliasDepthExceeded(n))
        } else if !al.contains_key(n) {
            Err(AssembleErrorView::UnknownAlias(n))
        } else {
            kind_spec(al[n], al, depth + 1)
        },
    }
}

/// An operand with aliases followed and labels replaced by their addresses.
pub open spec fn resolve_spec(op: OperandView, al: AliasMap, labels: LabelMap, depth: nat) -> Result<OperandView, AssembleErrorView>
    decreases MAX_ALIAS_DEPTH - depth,
{
    match op {
        OperandView::Alias(n) => if depth >= MAX_ALIAS_DEPTH {
            Err(AssembleErrorView::AliasDepthExceeded(n))
        } else if !al.contains_key(n) {
            Err(AssembleErrorView::UnknownAlias(n))
        } else {
            resolve_spec(al[n], al, labels, depth + 1)
        },
        OperandView::LabelRef(n) => if labels.contains_key(n) {
            Ok(OperandView::Literal(labels[n]))
        } else {
            Err(AssembleErrorView::UnknownLabel(n))
        },
        _ => Ok(op),
    }
}

pub open spec fn is_alu(m: Mnemonic) -> bool {
    m == Mnemonic::Add || m == Mnemonic::Sub || m == Mnemonic::Mul || m == Mnemonic::Div || m == Mnemonic::Mod
        || m == Mnemonic::And || m == Mnemonic::Or || m == Mnemonic::Xor || m == Mnemonic::Cmp
}

pub open spec fn is_jump(m: Mnemonic) -> bool {
    m == Mnemonic::Jmp || m == Mnemonic::Jz || m == Mnemonic::Jnz || m == Mnemonic::Jn || m == Mnemonic::Jnn
        || m == Mnemonic::Jc || m == Mnemonic::Jnc
}

pub open spec fn is_single_register(m: Mnemonic) -> bool {
    m == Mnemonic::Inc || m == Mnemonic::Dec || m == Mnemonic::Not || m == Mnemonic::Phr || m == Mnemonic::Plr
}

pub open spec fn alu_op_of(m: Mnemonic) -> AluOp {
    if m == Mnemonic::Add {
        AluOp::Add
    } else if m == Mnemonic::Sub {
        AluOp::Sub
    } else if m == Mnemonic::Mul {
        AluOp::Mul
    } else if m == Mnemonic::Div {
        AluOp::Div
    } else if m == Mnemonic::Mod {
        AluOp::Mod
    } else if m == Mnemonic::And {
        AluOp::And
    } else if m == Mnemonic::Or {
        AluOp::Or
    } else if m == Mnemonic::Xor {
        AluOp::Xor
    } else {
        AluOp::Cmp
    }
}

pub open spec fn cond_of(m: Mnemonic) -> Cond {
    if m == Mnemonic::Jz {
        Cond::Zero
    } else if m == Mnemonic::Jnz {
        Cond::NotZero
    } else if m == Mnemonic::Jn {
        Cond::Negative
    } else if m == Mnemonic::Jnn {
        Cond::NotNegative
    } else if m == Mnemonic::Jc {
        Cond::Carry
    } else if m == Mnemonic::Jnc {
        Cond::NotCarry
    } else {
        Cond::Always
    }
}

/// The sizing table: the encoded size of a mnemonic with operands of the
/// kinds `ks`; `None` where no form fits. A label counts as a literal.
pub open spec fn size_table(m: Mnemonic, ks: Seq<OperandKind>) -> Option<nat> {
    let reg = OperandKind::RegisterLike;
    let lit = OperandKind::LiteralLike;
    if ks.len() != arity(m) {
        None
    } else if ks.len() == 0 {
        Some(1)
    } else if ks.len() == 1 {
        if is_jump(m) {
            Some(if ks[0] == lit { 3 } else { 2 })
        } else if m == Mnemonic::Jsb {
            if ks[0] == lit { Some(3) } else { None }
        } else if ks[0] == reg {
            Some(2)
        } else {
            None
        }
    } else if m == Mnemonic::Mov {
        Some((3 + (if ks[0] == lit { 1nat } else { 0 }) + (if ks[1] == lit { 1nat } else { 0 })) as nat)
    } else if ks[0] == reg {
        Some(if ks[1] == lit { 4 } else { 3 })
    } else {
        None
    }
}

/// The kinds of up to two operands, resolved in order.
pub open spec fn kinds_spec(ops: Seq<OperandView>, al: AliasMap) -> Result<Seq<OperandKind>, AssembleErrorView> {
    if ops.len() == 0 {
        Ok(Seq::empty())
    } else {
        match kind_spec(ops[0], al, 0) {
            Err(e) => Err(e),
            Ok(k1) => if ops.len() == 1 {
                Ok(seq![k1])
            } else {
                match kind_spec(ops[1], al, 0) {
                    Err(e) => Err(e),
                    Ok(k2) => Ok(seq![k1, k2]),
                }
            },
        }
    }
}

/// The encoded size of an instruction: its operand count must fit the
/// mnemonic, then the table decides from the operands' kinds.
pub open spec fn size_spec(m: Mnemonic, ops: Seq<OperandView>, al: AliasMap) -> Result<nat, AssembleErrorView> {
    if ops.len() != arity(m) {
        Err(AssembleErrorView::InvalidOperands)
    } else {
        match kinds_spec(ops, al) {
            Err(e) => Err(e),
            Ok(ks) => match size_table(m, ks) {
                None => Err(AssembleErrorView::InvalidOperands),
                Some(n) => Ok(n),
            },
        }
    }
}

pub open spec fn reg_ok(r: u8, i: Instr) -> Result<Instr, AssembleErrorView> {
    if r > 15 {
        Err(AssembleErrorView::RegisterOutOfRange(r))
    } else {
        Ok(i)
    }
}

pub open spec fn regs_ok2(r1: u8, r2: u8, i: Instr) -> Result<Instr, AssembleErrorView> {
    if r1 > 15 {
        Err(AssembleErrorView::RegisterOutOfRange(r1))
    } else if r2 > 15 {
        Err(AssembleErrorView::RegisterOutOfRange(r2))
    } else {
        Ok(i)
    }
}

/// The machine instruction for a mnemonic and its resolved operands.
pub open spec fn select_spec(m: Mnemonic, ops: Seq<OperandView>) -> Result<Instr, AssembleErrorView> {
    let bad = Err(AssembleErrorView::InvalidOperands);
    if ops.len() == 0 {
        Ok(
            if m == Mnemonic::Nop {
                Instr::Nop
            } else if m == Mnemonic::Hlt {
                Instr::Hlt
            } else if m == Mnemonic::Rsb {
                Instr::Rsb
            } else if m == Mnemonic::Cli {
                Instr::Cli
            } else if m == Mnemonic::Sei {
                Instr::Sei
            } else {
                Instr::Rsi
            },
        )
    } else if ops.len() == 1 {
        match ops[0] {
            OperandView::Register(r) => if is_jump(m) {
                reg_ok(r, Instr::JumpReg(cond_of(m), r))
            } else if m == Mnemonic::Inc {
                reg_ok(r, Instr::Inc(r))
            } else if m == Mnemonic::Dec {
                reg_ok(r, Instr::Dec(r))
            } else if m == Mnemonic::Not {
                reg_ok(r, Instr::Not(r))
            } else if m == Mnemonic::Phr {
                reg_ok(r, Instr::Phr(r))
            } else if m == Mnemonic::Plr {
                reg_ok(r, Instr::Plr(r))
            } else {
                bad
            },
            OperandView::Literal(v) => if is_jump(m) {
                Ok(Instr::JumpImm(cond_of(m), v))
            } else if m == Mnemonic::Jsb {
                Ok(Instr::Jsb(v))
            } else {
                bad
            },
            _ => bad,
        }
    } else {
        match (ops[0], ops[1]) {
            (OperandView::Register(d), OperandView::Register(r)) => if m == Mnemonic::Mov {
                regs_ok2(d, r, Instr::MovRegReg(d, r))
            } else {
                regs_ok2(d, r, Instr::AluReg(alu_op_of(m), d, r))
            },
            (OperandView::Register(d), OperandView::Literal(v)) => if m == Mnemonic::Mov {
                reg_ok(d, Instr::MovRegImm(d, v))
            } else {
                reg_ok(d, Instr::AluImm(alu_op_of(m), d, v))
            },
            (OperandView::Register(d), OperandView::RegisterIndirect(r)) => if m == Mnemonic::Mov {
                regs_ok2(d, r, Instr::MovRegMem(d, r))
            } else {
                bad
            },
            (OperandView::Literal(a), OperandView::Register(r)) => if m == Mnemonic::Mov {
                reg_ok(r, Instr::MovImmReg(a, r))
            } else {
                bad
            },
            (OperandView::Literal(a), OperandView::Literal(v)) => if m == Mnemonic::Mov {
                Ok(Instr::MovImmImm(a, v))
            } else {
                bad
            },
            (OperandView::RegisterIndirect(d), OperandView::Register(r)) => if m == Mnemonic::Mov {
                regs_ok2(d, r, Instr::MovMemReg(d, r))
            } else {
                bad
            },
            (OperandView::RegisterIndirect(d), OperandView::Literal(v)) => if m == Mnemonic::Mov {
                reg_ok(d, Instr::MovMemImm(d, v))
            } else {
                bad
            },
            _ => bad,
        }
    }
}

/// The operands resolved in order; the first failure is reported.
pub open spec fn resolve_all(ops: Seq<OperandView>, al: AliasMap, labels: LabelMap) -> Result<Seq<OperandView>, AssembleErrorView> {
    if ops.len() == 0 {
        Ok(Seq::empty())
    } else {
        match resolve_spec(ops[0], al, labels, 0) {
            Err(e) => Err(e),
            Ok(a) => if ops.len() == 1 {
                Ok(seq![a])
            } else {
                match resolve_spec(ops[1], al, labels, 0) {
                    Err(e) => Err(e),
                    Ok(b) => Ok(seq![a, b]),
                }
            },
        }
    }
}

/// The bytes of an instruction statement.
pub open spec fn instr_bytes_spec(m: Mnemonic, ops: Seq<OperandView>, al: AliasMap, labels: LabelMap) -> Result<Seq<u8>, AssembleErrorView> {
    if ops.len() != arity(m) {
        Err(AssembleErrorView::InvalidOperands)
    } else {
    match resolve_all(ops, al, labels) {
        Err(e) => Err(e),
        Ok(rs) => match select_spec(m, rs) {
            Err(e) => Err(e),
            Ok(i) => Ok(encode_spec(i)),
        },
    }
    }
}

pub open spec fn directive_is(n: Seq<char>, lit: Seq<char>) -> bool {
    upper(n) == lit
}

/// The little-endian words of a string's characters, one word per character.
pub open spec fn string_bytes(s: Seq<char>) -> Seq<u8> {
    Seq::new(
        2 * s.len(),
        |k: int| {
            let w = ((s[k / 2] as u32) % 65536) as u16;
            if k % 2 == 0 {
                low_byte(w)
            } else {
                high_byte(w)
            }
        },
    )
}

/// First pass over one statement: the labels and the cursor after it.
pub open spec fn pass1_step(st: StatementView, al: AliasMap, labels: LabelMap, c: int) -> Result<(LabelMap, int), AssembleErrorView> {
    let r = match st {
        StatementView::Label(n) => if labels.contains_key(n) {
            Err(AssembleErrorView::DuplicateLabel(n))
        } else {
            Ok((labels.insert(n, c as u16), c))
        },
        StatementView::AliasDeclaration(_, _) => Ok((labels, c)),
        StatementView::Directive(n, o) => if directive_is(n, "ORG"@) {
            match o {
                OperandView::Literal(v) => Ok((labels, v as int)),
                _ => Err(AssembleErrorView::InvalidOperands),
            }
        } else if directive_is(n, "WORD"@) {
            match o {
                OperandView::Literal(_) | OperandView::LabelRef(_) => Ok((labels, c + 2)),
                OperandView::CharString(s) => Ok((labels, c + 2 * s.len())),
                _ => Err(AssembleErrorView::InvalidOperands),
            }
        } else if directive_is(n, "BYTE"@) {
            match o {
                OperandView::Literal(_) => Ok((labels, c + 1)),
                _ => Err(AssembleErrorView::InvalidOperands),
            }
        } else {
            Err(AssembleErrorView::UnknownDirective(n))
        },
        StatementView::Instruction(m, ops) => match size_spec(m, ops, al) {
            Err(e) => Err(e),
            Ok(n) => Ok((labels, c + n)),
        },
    };
    match r {
        Ok((l, c2)) => if c2 > IMAGE_SIZE {
            Err(AssembleErrorView::ImageOverflow)
        } else {
            Ok((l, c2))
        },
        Err(e) => Err(e),
    }
}

/// First pass: the label addresses and the final cursor.
pub open spec fn pass1_spec(stmts: Seq<StatementView>, al: AliasMap) -> Result<(LabelMap, int), AssembleErrorView>
    decreases stmts.len(),
{
    if stmts.len() == 0 {
        Ok((Map::empty(), 0))
    } else {
        match pass1_spec(stmts.drop_last(), al) {
            Err(e) => Err(e),
            Ok((labels, c)) => pass1_step(stmts.last(), al, labels, c),
        }
    }
}

/// `img` with `bs` written from address `c`.
pub open spec fn write_spec(img: Seq<u8>, c: int, bs: Seq<u8>) -> Seq<u8> {
    Seq::new(img.len(), |k: int| if c <= k < c + bs.len() { bs[k - c] } else { img[k] })
}

/// Emitting `bs` at the cursor: within the image, or an overflow.
pub open spec fn emit_spec(img: Seq<u8>, c: int, bs: Seq<u8>) -> Result<(Seq<u8>, int), AssembleErrorView> {
    if c + bs.len() > IMAGE_SIZE {
        Err(AssembleErrorView::ImageOverflow)
    } else {
        Ok((write_spec(img, c, bs), c + bs.len()))
    }
}

/// Second pass over one statement: the image and the cursor after it.
pub open spec fn pass2_step(st: StatementView, al: AliasMap, labels: LabelMap, img: Seq<u8>, c: int) -> Result<(Seq<u8>, int), AssembleErrorView> {
    match st {
        StatementView::Label(_) | StatementView::AliasDeclaration(_, _) => Ok((img, c)),
        StatementView::Directive(n, o) => if directive_is(n, "ORG"@) {
            match o {
                OperandView::Literal(v) => Ok((img, v as int)),
                _ => Err(AssembleErrorView::InvalidOperands),
            }
        } else if directive_is(n, "WORD"@) {
            match o {
                OperandView::Literal(v) => emit_spec(img, c, seq![low_byte(v), high_byte(v)]),
                OperandView::LabelRef(l) => if labels.contains_key(l) {
                    emit_spec(img, c, seq![low_byte(labels[l]), high_byte(labels[l])])
                } else {
                    Err(AssembleErrorView::UnknownLabel(l))
                },
                OperandView::CharString(s) => emit_spec(img, c, string_bytes(s)),
                _ => Err(AssembleErrorView::InvalidOperands),
            }
        } else if directive_is(n, "BYTE"@) {
            match o {
                OperandView::Literal(v) => if v > 0xFF {
                    Err(AssembleErrorView::InvalidOperands)
                } else {
                    emit_spec(img, c, seq![v as u8])
                },
                _ => Err(AssembleErrorView::InvalidOperands),
            }
        } else {
            Err(AssembleErrorView::UnknownDirective(n))
        },
        StatementView::Instruction(m, ops) => match instr_bytes_spec(m, ops, al, labels) {
            Err(e) => Err(e),
            Ok(bs) => emit_spec(img, c, bs),
        },
    }
}

/// Second pass from the image `img0`: the image and the final cursor.
pub open spec fn pass2_spec(stmts: Seq<StatementView>, al: AliasMap, labels: LabelMap, img0: Seq<u8>) -> Result<(Seq<u8>, int), AssembleErrorView>
    decreases stmts.len(),
{
    if stmts.len() == 0 {
        Ok((img0, 0))
    } else {
        match pass2_spec(stmts.drop_last(), al, labels, img0) {
            Err(e) => Err(e),
            Ok((img, c)) => pass2_step(stmts.last(), al, labels, img, c),
        }
    }
}

pub open spec fn no_org(stmts: Seq<StatementView>) -> bool {
    forall|i: int|
        0 <= i < stmts.len() ==> !(#[trigger] stmts[i] is Directive && directive_is(
            stmts[i]->Directive_0,
            "ORG"@,
        ))
}

pub open spec fn resolved_kind(r: OperandView) -> OperandKind {
    match r {
        OperandView::Literal(_) => OperandKind::LiteralLike,
        _ => OperandKind::RegisterLike,
    }
}

proof fn lemma_resolve_kind(op: OperandView, al: AliasMap, labels: LabelMap, depth: nat)
    requires
        depth <= MAX_ALIAS_DEPTH,
        resolve_spec(op, al, labels, depth) is Ok,
        !(resolve_spec(op, al, labels, depth)->Ok_0 is CharString),
    ensures
        kind_spec(op, al, depth) == Ok::<OperandKind, AssembleErrorView>(
            resolved_kind(resolve_spec(op, al, labels, depth)->Ok_0),
        ),
        !(resolve_spec(op, al, labels, depth)->Ok_0 is Alias),
        !(resolve_spec(op, al, labels, depth)->Ok_0 is LabelRef),
    decreases MAX_ALIAS_DEPTH - depth,
{
    match op {
        OperandView::Alias(n) => {
            lemma_resolve_kind(al[n], al, labels, depth + 1);
        },
        _ => {},
    }
}

proof fn lemma_instr_size(m: Mnemonic, ops: Seq<OperandView>, al: AliasMap, labels: LabelMap)
    requires
        instr_bytes_spec(m, ops, al, labels) is Ok,
    ensures
        size_spec(m, ops, al) == Ok::<nat, AssembleErrorView>(instr_bytes_spec(m, ops, al, labels)->Ok_0.len()),
{
    let rs = resolve_all(ops, al, labels)->Ok_0;
    if ops.len() >= 1 {
        if !(rs[0] is CharString) {
            lemma_resolve_kind(ops[0], al, labels, 0);
        }
    }
    if ops.len() >= 2 {
        if !(rs[1] is CharString) {
            lemma_resolve_kind(ops[1], al, labels, 0);
        }
    }
}

proof fn lemma_step_cursor(st: StatementView, al: AliasMap, l1: LabelMap, l2: LabelMap, img: Seq<u8>, c: int)
    requires
        !(st is Directive && directive_is(st->Directive_0, "ORG"@)),
        pass1_step(st, al, l1, c) is Ok,
        pass2_step(st, al, l2, img, c) is Ok,
    ensures
        pass1_step(st, al, l1, c)->Ok_0.1 == pass2_step(st, al, l2, img, c)->Ok_0.1,
{
    match st {
        StatementView::Instruction(m, ops) => {
            lemma_instr_size(m, ops, al, l2);
        },
        _ => {},
    }
}

/// Without `.org`, the cursor at the end of the first pass equals the number
/// of bytes that the second pass emits: sizing and emission agree.
pub proof fn lemma_pass_cursors_agree(stmts: Seq<StatementView>, al: AliasMap, labels: LabelMap, img0: Seq<u8>)
    requires
        no_org(stmts),
        pass1_spec(stmts, al) is Ok,
        pass2_spec(stmts, al, labels, img0) is Ok,
    ensures
        pass1_spec(stmts, al)->Ok_0.1 == pass2_spec(stmts, al, labels, img0)->Ok_0.1,
    decreases stmts.len(),
{
    if stmts.len() > 0 {
        let pre = stmts.drop_last();
        assert forall|i: int| 0 <= i < pre.len() implies !(#[trigger] pre[i] is Directive && directive_is(
            pre[i]->Directive_0,
            "ORG"@,
        )) by {
            assert(pre[i] == stmts[i]);
        }
        lemma_pass_cursors_agree(pre, al, labels, img0);
        let (l1, c1) = pass1_spec(pre, al)->Ok_0;
        let (img, c2) = pass2_spec(pre, al, labels, img0)->Ok_0;
        assert(stmts.last() == stmts[stmts.len() - 1]);
        lemma_step_cursor(stmts.last(), al, l1, labels, img, c1);
    }
}

fn err_of<T>(e: AssembleError) -> (r: Result<T, AssembleError>)
    ensures
        r == Err::<T, AssembleError>(e),
{
    Err(e)
}

/// The kind of an operand after following aliases, `depth` of them already.
fn operand_kind(op: &Operand, aliases: &AliasTable, depth: usize) -> (r: Result<OperandKind, AssembleError>)
    requires
        depth <= MAX_ALIAS_DEPTH,
    ensures
        match r {
            Ok(k) => kind_spec(op@, alias_view(aliases@), depth as nat) == Ok::<OperandKind, AssembleErrorView>(k),
            Err(e) => kind_spec(op@, alias_view(aliases@), depth as nat) == Err::<OperandKind, AssembleErrorView>(e@),
        },
    decreases MAX_ALIAS_DEPTH - depth,
{
    match op {
        Operand::Register(_) | Operand::RegisterIndirect(_) => Ok(OperandKind::RegisterLike),
        Operand::Literal(_) | Operand::LabelRef(_) => Ok(OperandKind::LiteralLike),
        Operand::CharString(_) => Err(AssembleError::InvalidOperands),
        Operand::Alias(n) => {
            if depth >= MAX_ALIAS_DEPTH {
                return Err(AssembleError::AliasDepthExceeded(n.clone()));
            }
            match aliases.get(n.as_str()) {
                None => Err(AssembleError::UnknownAlias(n.clone())),
                Some(target) => operand_kind(target, aliases, depth + 1),
            }
        },
    }
}

/// An operand with aliases followed and labels replaced by their addresses.
fn resolve_operand(op: &Operand, aliases: &AliasTable, labels: &SymbolTable, depth: usize) -> (r: Result<Operand, AssembleError>)
    requires
        depth <= MAX_ALIAS_DEPTH,
    ensures
        match r {
            Ok(o) => resolve_spec(op@, alias_view(aliases@), labels@, depth as nat) == Ok::<OperandView, AssembleErrorView>(o@),
            Err(e) => resolve_spec(op@, alias_view(aliases@), labels@, depth as nat) == Err::<OperandView, AssembleErrorView>(e@),
        },
    decreases MAX_ALIAS_DEPTH - depth,
{
    match op {
        Operand::Alias(n) => {
            if depth >= MAX_ALIAS_DEPTH {
                return Err(AssembleError::AliasDepthExceeded(n.clone()));
            }
            match aliases.get(n.as_str()) {
                None => Err(AssembleError::UnknownAlias(n.clone())),
                Some(target) => resolve_operand(target, aliases, labels, depth + 1),
            }
        },
        Operand::LabelRef(n) => match labels.get(n.as_str()) {
            Some(a) => Ok(Operand::Literal(a)),
            None => Err(AssembleError::UnknownLabel(n.clone())),
        },
        _ => Ok(clone_operand(op)),
    }
}

fn is_jump_exec(m: Mnemonic) -> (r: bool)
    ensures
        r == is_jump(m),
{
    m == Mnemonic::Jmp || m == Mnemonic::Jz || m == Mnemonic::Jnz || m == Mnemonic::Jn || m == Mnemonic::Jnn
        || m == Mnemonic::Jc || m == Mnemonic::Jnc
}

fn alu_op_exec(m: Mnemonic) -> (r: AluOp)
    ensures
        r == alu_op_of(m),
{
    if m == Mnemonic::Add {
        AluOp::Add
    } else if m == Mnemonic::Sub {
        AluOp::Sub
    } else if m == Mnemonic::Mul {
        AluOp::Mul
    } else if m == Mnemonic::Div {
        AluOp::Div
    } else if m == Mnemonic::Mod {
        AluOp::Mod
    } else if m == Mnemonic::And {
        AluOp::And
    } else if m == Mnemonic::Or {
        AluOp::Or
    } else if m == Mnemonic::Xor {
        AluOp::Xor
    } else {
        AluOp::Cmp
    }
}

fn cond_exec(m: Mnemonic) -> (r: Cond)
    ensures
        r == cond_of(m),
{
    if m == Mnemonic::Jz {
        Cond::Zero
    } else if m == Mnemonic::Jnz {
        Cond::NotZero
    } else if m == Mnemonic::Jn {
        Cond::Negative
    } else if m == Mnemonic::Jnn {
        Cond::NotNegative
    } else if m == Mnemonic::Jc {
        Cond::Carry
    } else if m == Mnemonic::Jnc {
        Cond::NotCarry
    } else {
        Cond::Always
    }
}

/// The encoded size of an instruction, from the kinds of its operands.
pub fn instruction_size(m: Mnemonic, ops: &Vec<Operand>, aliases: &AliasTable) -> (r: Result<usize, AssembleError>)
    ensures
        match r {
            Ok(n) => size_spec(m, ops@.map_values(|o: Operand| o@), alias_view(aliases@)) == Ok::<nat, AssembleErrorView>(n as nat),
            Err(e) => size_spec(m, ops@.map_values(|o: Operand| o@), alias_view(aliases@)) == Err::<nat, AssembleErrorView>(e@),
        },
{
    let ghost ov = ops@.map_values(|o: Operand| o@);
    if ops.len() != arity_exec(m) {
        return Err(AssembleError::InvalidOperands);
    }
    if ops.len() == 0 {
        Ok(1)
    } else if ops.len() == 1 {
        assert(ov[0] == ops@[0]@);
        let k = operand_kind(&ops[0], aliases, 0)?;
        assert(kinds_spec(ov, alias_view(aliases@)) == Ok::<Seq<OperandKind>, AssembleErrorView>(seq![k]));
        if is_jump_exec(m) {
            Ok(if k == OperandKind::LiteralLike { 3 } else { 2 })
        } else if m == Mnemonic::Jsb {
            if k == OperandKind::LiteralLike {
                Ok(3)
            } else {
                Err(AssembleError::InvalidOperands)
            }
        } else if k == OperandKind::RegisterLike {
            Ok(2)
        } else {
            Err(AssembleError::InvalidOperands)
        }
    } else {
        assert(ov[0] == ops@[0]@);
        assert(ov[1] == ops@[1]@);
        let k1 = operand_kind(&ops[0], aliases, 0)?;
        let k2 = operand_kind(&ops[1], aliases, 0)?;
        assert(kinds_spec(ov, alias_view(aliases@)) == Ok::<Seq<OperandKind>, AssembleErrorView>(seq![k1, k2]));
        if m == Mnemonic::Mov {
            let a: usize = if k1 == OperandKind::LiteralLike { 1 } else { 0 };
            let b: usize = if k2 == OperandKind::LiteralLike { 1 } else { 0 };
            Ok(3 + a + b)
        } else if k1 == OperandKind::RegisterLike {
            Ok(if k2 == OperandKind::LiteralLike { 4 } else { 3 })
        } else {
            Err(AssembleError::InvalidOperands)
        }
    }
}

fn reg_ok_exec(r: u8, i: Instr) -> (x: Result<Instr, AssembleError>)
    ensures
        match x {
            Ok(v) => reg_ok(r, i) == Ok::<Instr, AssembleErrorView>(v),
            Err(e) => reg_ok(r, i) == Err::<Instr, AssembleErrorView>(e@),
        },
{
    if r > 15 {
        Err(AssembleError::RegisterOutOfRange(r))
    } else {
        Ok(i)
    }
}

fn regs_ok2_exec(r1: u8, r2: u8, i: Instr) -> (x: Result<Instr, AssembleError>)
    ensures
        match x {
            Ok(v) => regs_ok2(r1, r2, i) == Ok::<Instr, AssembleErrorView>(v),
            Err(e) => regs_ok2(r1, r2, i) == Err::<Instr, AssembleErrorView>(e@),
        },
{
    if r1 > 15 {
        Err(AssembleError::RegisterOutOfRange(r1))
    } else if r2 > 15 {
        Err(AssembleError::RegisterOutOfRange(r2))
    } else {
        Ok(i)
    }
}

/// The machine instruction for a mnemonic and its resolved operands.
fn select_instruction(m: Mnemonic, rs: &Vec<Operand>) -> (r: Result<Instr, AssembleError>)
    ensures
        match r {
            Ok(i) => select_spec(m, rs@.map_values(|o: Operand| o@)) == Ok::<Instr, AssembleErrorView>(i),
            Err(e) => select_spec(m, rs@.map_values(|o: Operand| o@)) == Err::<Instr, AssembleErrorView>(e@),
        },
{
    let ghost ov = rs@.map_values(|o: Operand| o@);
    if rs.len() == 0 {
        Ok(
            if m == Mnemonic::Nop {
                Instr::Nop
            } else if m == Mnemonic::Hlt {
                Instr::Hlt
            } else if m == Mnemonic::Rsb {
                Instr::Rsb
            } else if m == Mnemonic::Cli {
                Instr::Cli
            } else if m == Mnemonic::Sei {
                Instr::Sei
            } else {
                Instr::Rsi
            },
        )
    } else if rs.len() == 1 {
        assert(ov[0] == rs@[0]@);
        match &rs[0] {
            Operand::Register(r) => {
                let r = *r;
                if is_jump_exec(m) {
                    reg_ok_exec(r, Instr::JumpReg(cond_exec(m), r))
                } else if m == Mnemonic::Inc {
                    reg_ok_exec(r, Instr::Inc(r))
                } else if m == Mnemonic::Dec {
                    reg_ok_exec(r, Instr::Dec(r))
                } else if m == Mnemonic::Not {
                    reg_ok_exec(r, Instr::Not(r))
                } else if m == Mnemonic::Phr {
                    reg_ok_exec(r, Instr::Phr(r))
                } else if m == Mnemonic::Plr {
                    reg_ok_exec(r, Instr::Plr(r))
                } else {
                    Err(AssembleError::InvalidOperands)
                }
            },
            Operand::Literal(v) => {
                if is_jump_exec(m) {
                    Ok(Instr::JumpImm(cond_exec(m), *v))
                } else if m == Mnemonic::Jsb {
                    Ok(Instr::Jsb(*v))
                } else {
                    Err(AssembleError::InvalidOperands)
                }
            },
            _ => Err(AssembleError::InvalidOperands),
        }
    } else {
        assert(ov[0] == rs@[0]@);
        assert(ov[1] == rs@[1]@);
        let is_mov = m == Mnemonic::Mov;
        match (&rs[0], &rs[1]) {
            (Operand::Register(d), Operand::Register(r)) => if is_mov {
                regs_ok2_exec(*d, *r, Instr::MovRegReg(*d, *r))
            } else {
                regs_ok2_exec(*d, *r, Instr::AluReg(alu_op_exec(m), *d, *r))
            },
            (Operand::Register(d), Operand::Literal(v)) => if is_mov {
                reg_ok_exec(*d, Instr::MovRegImm(*d, *v))
            } else {
                reg_ok_exec(*d, Instr::AluImm(alu_op_exec(m), *d, *v))
            },
            (Operand::Register(d), Operand::RegisterIndirect(r)) => if is_mov {
                regs_ok2_exec(*d, *r, Instr::MovRegMem(*d, *r))
            } else {
                Err(AssembleError::InvalidOperands)
            },
            (Operand::Literal(a), Operand::Register(r)) => if is_mov {
                reg_ok_exec(*r, Instr::MovImmReg(*a, *r))
            } else {
                Err(AssembleError::InvalidOperands)
            },
            (Operand::Literal(a), Operand::Literal(v)) => if is_mov {
                Ok(Instr::MovImmImm(*a, *v))
            } else {
                Err(AssembleError::InvalidOperands)
            },
            (Operand::RegisterIndirect(d), Operand::Register(r)) => if is_mov {
                regs_ok2_exec(*d, *r, Instr::MovMemReg(*d, *r))
            } else {
                Err(AssembleError::InvalidOperands)
            },
            (Operand::RegisterIndirect(d), Operand::Literal(v)) => if is_mov {
                reg_ok_exec(*d, Instr::MovMemImm(*d, *v))
            } else {
                Err(AssembleError::InvalidOperands)
            },
            _ => Err(AssembleError::InvalidOperands),
        }
    }
}

/// The bytes of an instruction statement.
fn instruction_bytes(m: Mnemonic, ops: &Vec<Operand>, aliases: &AliasTable, labels: &SymbolTable) -> (r: Result<Vec<u8>, AssembleError>)
    ensures
        match r {
            Ok(bs) => instr_bytes_spec(m, ops@.map_values(|o: Operand| o@), alias_view(aliases@), labels@)
                == Ok::<Seq<u8>, AssembleErrorView>(bs@),
            Err(e) => instr_bytes_spec(m, ops@.map_values(|o: Operand| o@), alias_view(aliases@), labels@)
                == Err::<Seq<u8>, AssembleErrorView>(e@),
        },
{
    let ghost ov = ops@.map_values(|o: Operand| o@);
    if ops.len() != arity_exec(m) {
        return Err(AssembleError::InvalidOperands);
    }
    let mut rs: Vec<Operand> = Vec::new();
    if ops.len() >= 1 {
        assert(ov[0] == ops@[0]@);
        let a = resolve_operand(&ops[0], aliases, labels, 0)?;
        rs.push(a);
        if ops.len() >= 2 {
            assert(ov[1] == ops@[1]@);
            let b = resolve_operand(&ops[1], aliases, labels, 0)?;
            rs.push(b);
        }
    }
    assert(resolve_all(ov, alias_view(aliases@), labels@) == Ok::<Seq<OperandView>, AssembleErrorView>(
        rs@.map_values(|o: Operand| o@),
    )) by {
        if ops.len() == 0 {
            assert(rs@.map_values(|o: Operand| o@) =~= Seq::<OperandView>::empty());
        } else if ops.len() == 1 {
            assert(rs@.map_values(|o: Operand| o@) =~= seq![rs@[0]@]);
        } else {
            assert(rs@.map_values(|o: Operand| o@) =~= seq![rs@[0]@, rs@[1]@]);
        }
    }
    let i = select_instruction(m, &rs)?;
    Ok(encode(i))
}

proof fn lemma_pass1_prefix_err(stmts: Seq<StatementView>, k: int, al: AliasMap)
    requires
        0 <= k <= stmts.len(),
        pass1_spec(stmts.subrange(0, k), al) is Err,
    ensures
        pass1_spec(stmts, al) == pass1_spec(stmts.subrange(0, k), al),
    decreases stmts.len() - k,
{
    if k < stmts.len() {
        let s1 = stmts.subrange(0, k + 1);
        assert(s1.drop_last() =~= stmts.subrange(0, k));
        lemma_pass1_prefix_err(stmts, k + 1, al);
    } else {
        assert(stmts.subrange(0, k) =~= stmts);
    }
}

proof fn lemma_pass2_prefix_err(stmts: Seq<StatementView>, k: int, al: AliasMap, labels: LabelMap, img0: Seq<u8>)
    requires
        0 <= k <= stmts.len(),
        pass2_spec(stmts.subrange(0, k), al, labels, img0) is Err,
    ensures
        pass2_spec(stmts, al, labels, img0) == pass2_spec(stmts.subrange(0, k), al, labels, img0),
    decreases stmts.len() - k,
{
    if k < stmts.len() {
        let s1 = stmts.subrange(0, k + 1);
        assert(s1.drop_last() =~= stmts.subrange(0, k));
        lemma_pass2_prefix_err(stmts, k + 1, al, labels, img0);
    } else {
        assert(stmts.subrange(0, k) =~= stmts);
    }
}

fn string_bytes_exec(s: &String) -> (r: Vec<u8>)
    ensures
        r@ == string_bytes(s@),
{
    let n = s.as_str().unicode_len();
    let mut out: Vec<u8> = Vec::new();
    let mut i: usize = 0;
    while i < n
        invariant
            n == s@.len(),
            i <= n,
            out@.len() == 2 * i,
            forall|k: int| 0 <= k < 2 * i ==> out@[k] == #[trigger] string_bytes(s@)[k],
        decreases n - i,
    {
        let ch = s.as_str().get_char(i);
        let w = ((ch as u32) % 65536) as u16;
        out.push((w % 256) as u8);
        out.push((w / 256) as u8);
        i = i + 1;
    }
    assert(out@ =~= string_bytes(s@));
    out
}

/// The two-pass assembler. Its output is a ROM image; bytes that no
/// statement emits stay zero.
pub struct Assembler {
    output: Vec<u8>,
    current_address: u16,
}

impl View for Assembler {
    type V = Seq<u8>;

    closed spec fn view(&self) -> Seq<u8> {
        self.output@
    }
}

pub open spec fn zero_image() -> Seq<u8> {
    Seq::new(IMAGE_SIZE as nat, |i: int| 0u8)
}

/// Assembling source text: tokens, statements, the first pass over them for
/// the labels, and the second pass from an empty image.
pub open spec fn assemble_spec(src: Seq<char>) -> Result<Seq<u8>, AssembleErrorView> {
    match crate::casm_lexer::lex_spec(src, 0) {
        Err(e) => Err(e@),
        Ok(ts) => match parse_spec(ts, 0) {
            Err(e) => Err(e@),
            Ok(stmts) => match pass1_spec(stmts, alias_decls(stmts)) {
                Err(e) => Err(e),
                Ok((labels, _)) => match pass2_spec(stmts, alias_decls(stmts), labels, zero_image()) {
                    Err(e) => Err(e),
                    Ok((img, _)) => Ok(img),
                },
            },
        },
    }
}

/// The alias bindings that the declarations among `stmts` make, later ones
/// replacing earlier ones.
pub open spec fn alias_decls(stmts: Seq<StatementView>) -> AliasMap
    decreases stmts.len(),
{
    if stmts.len() == 0 {
        Map::empty()
    } else {
        let m = alias_decls(stmts.drop_last());
        match stmts.last() {
            StatementView::AliasDeclaration(n, o) => m.insert(n, o),
            _ => m,
        }
    }
}

proof fn lemma_alias_decls(ss: Seq<Statement>)
    ensures
        alias_view(aliases_spec(ss)) == alias_decls(statements_view(ss)),
    decreases ss.len(),
{
    if ss.len() > 0 {
        lemma_alias_decls(ss.drop_last());
        assert(statements_view(ss.drop_last()) =~= statements_view(ss).drop_last());
        assert(alias_view(aliases_spec(ss)) =~= alias_decls(statements_view(ss)));
    } else {
        assert(alias_view(aliases_spec(ss)) =~= alias_decls(statements_view(ss)));
    }
}

impl Assembler {
    pub open spec fn wf(&self) -> bool {
        self@.len() == IMAGE_SIZE
    }

    pub fn new() -> (r: Self)
        ensures
            r@ == zero_image(),
    {
        let r = Assembler { output: vec![0u8; 0x8000], current_address: 0 };
        assert(r@ =~= zero_image());
        r
    }

    /// First pass: records each label at its address; returns the final cursor.
    pub fn first_pass(program: &mut Program) -> (r: Result<usize, AssembleError>)
        ensures
            final(program).statements == old(program).statements,
            final(program).aliases == old(program).aliases,
            match r {
                Ok(c) => pass1_spec(statements_view(old(program).statements@), alias_view(old(program).aliases@))
                    == Ok::<(LabelMap, int), AssembleErrorView>((final(program).labels@, c as int)),
                Err(e) => pass1_spec(statements_view(old(program).statements@), alias_view(old(program).aliases@))
                    == Err::<(LabelMap, int), AssembleErrorView>(e@),
            },
    {
        let ghost sv = statements_view(program.statements@);
        let ghost al = alias_view(program.aliases@);
        program.labels = SymbolTable::new();
        let mut c: usize = 0;
        let mut i: usize = 0;
        assert(sv.subrange(0, 0) =~= Seq::<StatementView>::empty());
        while i < program.statements.len()
            invariant
                program.statements == old(program).statements,
                program.aliases == old(program).aliases,
                sv == statements_view(program.statements@),
                al == alias_view(program.aliases@),
                i <= program.statements@.len(),
                c <= IMAGE_SIZE,
                pass1_spec(sv.subrange(0, i as int), al) == Ok::<(LabelMap, int), AssembleErrorView>(
                    (program.labels@, c as int),
                ),
            decreases program.statements@.len() - i,
        {
            let ghost pre_labels = program.labels@;
            let ghost pre_c = c as int;
            let ghost st = sv[i as int];
            assert(st == program.statements@[i as int]@);
            assert(sv.subrange(0, i + 1).drop_last() =~= sv.subrange(0, i as int));
            assert(sv.subrange(0, i + 1).last() == st);
            let step: Result<usize, AssembleError> = match &program.statements[i] {
                Statement::Label(n) => {
                    if program.labels.contains_key(n.as_str()) {
                        Err(AssembleError::DuplicateLabel(n.clone()))
                    } else {
                        program.labels.insert(n.clone(), c as u16);
                        Ok(c)
                    }
                },
                Statement::AliasDeclaration(_, _) => Ok(c),
                Statement::Directive(n, o) => {
                    if eq_upper(n.as_str(), "ORG") {
                        match o {
                            Operand::Literal(v) => Ok(*v as usize),
                            _ => Err(AssembleError::InvalidOperands),
                        }
                    } else if eq_upper(n.as_str(), "WORD") {
                        match o {
                            Operand::Literal(_) | Operand::LabelRef(_) => Ok(c + 2),
                            Operand::CharString(t) => {
                                let len = t.as_str().unicode_len();
                                if len > IMAGE_SIZE {
                                    Err(AssembleError::ImageOverflow)
                                } else {
                                    Ok(c + 2 * len)
                                }
                            },
                            _ => Err(AssembleError::InvalidOperands),
                        }
                    } else if eq_upper(n.as_str(), "BYTE") {
                        match o {
                            Operand::Literal(_) => Ok(c + 1),
                            _ => Err(AssembleError::InvalidOperands),
                        }
                    } else {
                        Err(AssembleError::UnknownDirective(n.clone()))
                    }
                },
                Statement::Instruction(ins) => {
                    match instruction_size(ins.mnemonic, &ins.operands, &program.aliases) {
                        Ok(n) => Ok(c + n),
                        Err(e) => Err(e),
                    }
                },
            };
            match step {
                Err(e) => {
                    proof {
                        lemma_pass1_prefix_err(sv, i + 1, al);
                    }
                    return Err(e);
                },
                Ok(c2) => {
                    if c2 > IMAGE_SIZE {
                        proof {
                            lemma_pass1_prefix_err(sv, i + 1, al);
                        }
                        return Err(AssembleError::ImageOverflow);
                    }
                    c = c2;
                },
            }
            i = i + 1;
        }
        assert(sv.subrange(0, i as int) =~= sv);
        Ok(c)
    }

    /// Second pass: emits every statement's bytes at its address; returns the
    /// final cursor.
    pub fn second_pass(&mut self, program: &Program) -> (r: Result<usize, AssembleError>)
        requires
            old(self).wf(),
        ensures
            final(self).wf(),
            match r {
                Ok(c) => pass2_spec(statements_view(program.statements@), alias_view(program.aliases@), program.labels@, old(self)@)
                    == Ok::<(Seq<u8>, int), AssembleErrorView>((final(self)@, c as int)),
                Err(e) => pass2_spec(statements_view(program.statements@), alias_view(program.aliases@), program.labels@, old(self)@)
                    == Err::<(Seq<u8>, int), AssembleErrorView>(e@),
            },
    {
        let ghost sv = statements_view(program.statements@);
        let ghost al = alias_view(program.aliases@);
        let ghost img0 = self@;
        let mut c: usize = 0;
        let mut i: usize = 0;
        assert(sv.subrange(0, 0) =~= Seq::<StatementView>::empty());
        while i < program.statements.len()
            invariant
                self.wf(),
                sv == statements_view(program.statements@),
                al == alias_view(program.aliases@),
                img0 == old(self)@,
                i <= program.statements@.len(),
                c <= 0xFFFF,
                pass2_spec(sv.subrange(0, i as int), al, program.labels@, img0) == Ok::<(Seq<u8>, int), AssembleErrorView>(
                    (self@, c as int),
                ),
            decreases program.statements@.len() - i,
        {
            let ghost st = sv[i as int];
            assert(st == program.statements@[i as int]@);
            assert(sv.subrange(0, i + 1).drop_last() =~= sv.subrange(0, i as int));
            assert(sv.subrange(0, i + 1).last() == st);
            let step: Result<usize, AssembleError> = match &program.statements[i] {
                Statement::Label(_) | Statement::AliasDeclaration(_, _) => Ok(c),
                Statement::Directive(n, o) => {
                    if eq_upper(n.as_str(), "ORG") {
                        match o {
                            Operand::Literal(v) => Ok(*v as usize),
                            _ => Err(AssembleError::InvalidOperands),
                        }
                    } else if eq_upper(n.as_str(), "WORD") {
                        match o {
                            Operand::Literal(v) => {
                                let bs = vec![(*v % 256) as u8, (*v / 256) as u8];
                                assert(bs@ =~= seq![low_byte(*v), high_byte(*v)]);
                                self.emit(c, &bs)
                            },
                            Operand::LabelRef(l) => match program.labels.get(l.as_str()) {
                                Some(a) => {
                                    let bs = vec![(a % 256) as u8, (a / 256) as u8];
                                    assert(bs@ =~= seq![low_byte(a), high_byte(a)]);
                                    self.emit(c, &bs)
                                },
                                None => Err(AssembleError::UnknownLabel(l.clone())),
                            },
                            Operand::CharString(t) => {
                                let bs = string_bytes_exec(t);
                                self.emit(c, &bs)
                            },
                            _ => Err(AssembleError::InvalidOperands),
                        }
                    } else if eq_upper(n.as_str(), "BYTE") {
                        match o {
                            Operand::Literal(v) => {
                                if *v > 0xFF {
                                    Err(AssembleError::InvalidOperands)
                                } else {
                                    let bs = vec![*v as u8];
                                    assert(bs@ =~= seq![*v as u8]);
                                    self.emit(c, &bs)
                                }
                            },
                            _ => Err(AssembleError::InvalidOperands),
                        }
                    } else {
                        Err(AssembleError::UnknownDirective(n.clone()))
                    }
                },
                Statement::Instruction(ins) => {
                    match instruction_bytes(ins.mnemonic, &ins.operands, &program.aliases, &program.labels) {
                        Ok(bs) => self.emit(c, &bs),
                        Err(e) => Err(e),
                    }
                },
            };
            match step {
                Err(e) => {
                    proof {
                        lemma_pass2_prefix_err(sv, i + 1, al, program.labels@, img0);
                    }
                    return Err(e);
                },
                Ok(c2) => {
                    c = c2;
                },
            }
            i = i + 1;
        }
        assert(sv.subrange(0, i as int) =~= sv);
        Ok(c)
    }

    /// Assembles source text into the image, which starts out zeroed, and
    /// returns a copy of it.
    pub fn assemble_string(&mut self, input: &str) -> (r: Result<Vec<u8>, AssembleError>)
        requires
            input@.len() < usize::MAX - 3,
        ensures
            final(self).wf(),
            match r {
                Ok(img) => assemble_spec(input@) == Ok::<Seq<u8>, AssembleErrorView>(img@) && img@ == final(self)@,
                Err(e) => assemble_spec(input@) == Err::<Seq<u8>, AssembleErrorView>(e@),
            },
    {
        self.output = vec![0u8; 0x8000];
        self.current_address = 0;
        assert(self@ =~= zero_image());
        let tokens = tokenize(input)?;
        proof {
            assert(tokens_view(tokens@) == tokens@.map_values(|t: crate::casm_lexer::Token| t@));
        }
        proof {
            crate::casm_lexer::lemma_lex_len(input@, 0);
        }
        let mut program = parse_tokens(&tokens)?;
        proof {
            lemma_alias_decls(program.statements@);
        }
        Self::first_pass(&mut program)?;
        self.second_pass(&program)?;
        let mut out: Vec<u8> = Vec::new();
        let mut k: usize = 0;
        while k < self.output.len()
            invariant
                k <= self.output@.len(),
                out@ == self.output@.subrange(0, k as int),
            decreases self.output@.len() - k,
        {
            out.push(self.output[k]);
            k = k + 1;
            assert(out@ =~= self.output@.subrange(0, k as int));
        }
        assert(out@ =~= self.output@);
        Ok(out)
    }

    /// Writes `bs` at `c`; refused past the end of the image.
    fn emit(&mut self, c: usize, bs: &Vec<u8>) -> (r: Result<usize, AssembleError>)
        requires
            old(self).wf(),
            c <= 0xFFFF,
        ensures
            final(self).wf(),
            match r {
                Ok(c2) => emit_spec(old(self)@, c as int, bs@) == Ok::<(Seq<u8>, int), AssembleErrorView>(
                    (final(self)@, c2 as int),
                ),
                Err(e) => emit_spec(old(self)@, c as int, bs@) == Err::<(Seq<u8>, int), AssembleErrorView>(e@),
            },
    {
        if c > IMAGE_SIZE || bs.len() > IMAGE_SIZE - c {
            return Err(AssembleError::ImageOverflow);
        }
        let mut k: usize = 0;
        while k < bs.len()
            invariant
                self.wf(),
                c + bs@.len() <= IMAGE_SIZE,
                k <= bs@.len(),
                forall|j: int|
                    0 <= j < IMAGE_SIZE ==> #[trigger] self@[j] == (if c <= j < c + k {
                        bs@[j - c]
                    } else {
                        old(self)@[j]
                    }),
            decreases bs@.len() - k,
        {
            self.output.set(c + k, bs[k]);
            k = k + 1;
        }
        self.current_address = (c + k) as u16;
        assert(self@ =~= write_spec(old(self)@, c as int, bs@));
        Ok(c + k)
    }
}

pub open spec fn alu_mnemonic(op: AluOp) -> Mnemonic {
    match op {
        AluOp::Add => Mnemonic::Add,
        AluOp::Sub => Mnemonic::Sub,
        AluOp::Mul => Mnemonic::Mul,
        AluOp::Div => Mnemonic::Div,
        AluOp::Mod => Mnemonic::Mod,
        AluOp::And => Mnemonic::And,
        AluOp::Or => Mnemonic::Or,
        AluOp::Xor => Mnemonic::Xor,
        AluOp::Cmp => Mnemonic::Cmp,
    }
}

pub open spec fn jump_mnemonic(c: Cond) -> Mnemonic {
    match c {
        Cond::Always => Mnemonic::Jmp,
        Cond::Zero => Mnemonic::Jz,
        Cond::NotZero => Mnemonic::Jnz,
        Cond::Negative => Mnemonic::Jn,
        Cond::NotNegative => Mnemonic::Jnn,
        Cond::Carry => Mnemonic::Jc,
        Cond::NotCarry => Mnemonic::Jnc,
    }
}

/// The source form of a machine instruction: its mnemonic and operands.
pub open spec fn disassemble_spec(i: Instr) -> (Mnemonic, Seq<OperandView>) {
    match i {
        Instr::Nop => (Mnemonic::Nop, Seq::empty()),
        Instr::Hlt => (Mnemonic::Hlt, Seq::empty()),
        Instr::Rsb => (Mnemonic::Rsb, Seq::empty()),
        Instr::Cli => (Mnemonic::Cli, Seq::empty()),
        Instr::Sei => (Mnemonic::Sei, Seq::empty()),
        Instr::Rsi => (Mnemonic::Rsi, Seq::empty()),
        Instr::MovRegReg(d, r) => (Mnemonic::Mov, seq![OperandView::Register(d), OperandView::Register(r)]),
        Instr::MovRegImm(d, v) => (Mnemonic::Mov, seq![OperandView::Register(d), OperandView::Literal(v)]),
        Instr::MovRegMem(d, r) => (Mnemonic::Mov, seq![OperandView::Register(d), OperandView::RegisterIndirect(r)]),
        Instr::MovImmReg(a, r) => (Mnemonic::Mov, seq![OperandView::Literal(a), OperandView::Register(r)]),
        Instr::MovImmImm(a, v) => (Mnemonic::Mov, seq![OperandView::Literal(a), OperandView::Literal(v)]),
        Instr::MovMemReg(d, r) => (Mnemonic::Mov, seq![OperandView::RegisterIndirect(d), OperandView::Register(r)]),
        Instr::MovMemImm(d, v) => (Mnemonic::Mov, seq![OperandView::RegisterIndirect(d), OperandView::Literal(v)]),
        Instr::Phr(r) => (Mnemonic::Phr, seq![OperandView::Register(r)]),
        Instr::Plr(r) => (Mnemonic::Plr, seq![OperandView::Register(r)]),
        Instr::Inc(r) => (Mnemonic::Inc, seq![OperandView::Register(r)]),
        Instr::Dec(r) => (Mnemonic::Dec, seq![OperandView::Register(r)]),
        Instr::Not(r) => (Mnemonic::Not, seq![OperandView::Register(r)]),
        Instr::AluReg(op, d, r) => (alu_mnemonic(op), seq![OperandView::Register(d), OperandView::Register(r)]),
        Instr::AluImm(op, d, v) => (alu_mnemonic(op), seq![OperandView::Register(d), OperandView::Literal(v)]),
        Instr::JumpImm(c, t) => (jump_mnemonic(c), seq![OperandView::Literal(t)]),
        Instr::JumpReg(c, r) => (jump_mnemonic(c), seq![OperandView::Register(r)]),
        Instr::Jsb(t) => (Mnemonic::Jsb, seq![OperandView::Literal(t)]),
    }
}

/// Disassembling an instruction and assembling the result gives back the same
/// bytes: every byte sequence that decodes to an instruction is what the
/// assembler emits for that instruction's source form, whatever the aliases and
/// labels; one that does not decode is refused by the CPU's decoder.
pub proof fn lemma_disassemble_reassemble(op: u8, b: Seq<u8>, al: AliasMap, labels: LabelMap)
    requires
        operand_count(op) == Some(b.len()),
    ensures
        decode_spec(op, b) is Ok ==> ({
            let (m, ops) = disassemble_spec(decode_spec(op, b)->Ok_0);
            instr_bytes_spec(m, ops, al, labels) == Ok::<Seq<u8>, AssembleErrorView>(seq![op] + b)
        }),
{
    if decode_spec(op, b) is Ok {
        lemma_decode_encode(op, b);
        let i = decode_spec(op, b)->Ok_0;
        let (m, ops) = disassemble_spec(i);
        assert(resolve_all(ops, al, labels) == Ok::<Seq<OperandView>, AssembleErrorView>(ops)) by {
            if ops.len() == 1 {
                assert(seq![ops[0]] =~= ops);
            } else if ops.len() == 2 {
                assert(seq![ops[0], ops[1]] =~= ops);
            } else {
                assert(Seq::<OperandView>::empty() =~= ops);
            }
        }
        assert(select_spec(m, ops) == Ok::<Instr, AssembleErrorView>(i));
    }
}

} // verus!
