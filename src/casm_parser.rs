use vstd::prelude::*;
use crate::casm_lexer::{Token, TokenView};
use crate::error::AssembleError;
use crate::symbols::{AliasTable, SymbolTable};
use crate::text::{eq_upper, upper};

verus! {

/// An operand as written; aliases and labels are resolved by the assembler.
#[derive(Debug, Clone, PartialEq, Eq)]
pub enum Operand {
    Register(u8),
    RegisterIndirect(u8),
    Literal(u16),
    Alias(String),
    LabelRef(String),
    CharString(String),
}

pub enum OperandView {
    Register(u8),
    RegisterIndirect(u8),
    Literal(u16),
    Alias(Seq<char>),
    LabelRef(Seq<char>),
    CharString(Seq<char>),
}

impl View for Operand {
    type V = OperandView;

    open spec fn view(&self) -> OperandView {
        match self {
            Operand::Register(r) => OperandView::Register(*r),
            Operand::RegisterIndirect(r) => OperandView::RegisterIndirect(*r),
            Operand::Literal(v) => OperandView::Literal(*v),
            Operand::Alias(n) => OperandView::Alias(n@),
            Operand::LabelRef(n) => OperandView::LabelRef(n@),
            Operand::CharString(s) => OperandView::CharString(s@),
        }
    }
}

/// The mnemonics of the instruction set.
#[derive(Debug, Clone, Copy, PartialEq, Eq, Structural)]
pub enum Mnemonic {
    Nop,
    Hlt,
    Mov,
    Phr,
    Plr,
    Add,
    Sub,
    Mul,
    Div,
    Mod,
    Inc,
    Dec,
    And,
    Or,
    Xor,
    Not,
    Cmp,
    Jmp,
    Jz,
    Jnz,
    Jn,
    Jnn,
    Jc,
    Jnc,
    Jsb,
    Rsb,
    Cli,
    Sei,
    Rsi,
}

/// The number of operands a mnemonic takes.
pub open spec fn arity(m: Mnemonic) -> nat {
    match m {
        Mnemonic::Nop | Mnemonic::Hlt | Mnemonic::Rsb | Mnemonic::Cli | Mnemonic::Sei | Mnemonic::Rsi => 0,
        Mnemonic::Mov | Mnemonic::Add | Mnemonic::Sub | Mnemonic::Mul | Mnemonic::Div | Mnemonic::Mod
        | Mnemonic::And | Mnemonic::Or | Mnemonic::Xor | Mnemonic::Cmp => 2,
        _ => 1,
    }
}

pub open spec fn mnemonic_of(u: Seq<char>) -> Option<Mnemonic> {
    if u == "NOP"@ {
        Some(Mnemonic::Nop)
    } else if u == "HLT"@ {
        Some(Mnemonic::Hlt)
    } else if u == "MOV"@ {
        Some(Mnemonic::Mov)
    } else if u == "PHR"@ {
        Some(Mnemonic::Phr)
    } else if u == "PLR"@ {
        Some(Mnemonic::Plr)
    } else if u == "ADD"@ {
        Some(Mnemonic::Add)
    } else if u == "SUB"@ {
        Some(Mnemonic::Sub)
    } else if u == "MUL"@ {
        Some(Mnemonic::Mul)
    } else if u == "DIV"@ {
        Some(Mnemonic::Div)
    } else if u == "MOD"@ {
        Some(Mnemonic::Mod)
    } else if u == "INC"@ {
        Some(Mnemonic::Inc)
    } else if u == "DEC"@ {
        Some(Mnemonic::Dec)
    } else if u == "AND"@ {
        Some(Mnemonic::And)
    } else if u == "OR"@ {
        Some(Mnemonic::Or)
    } else if u == "XOR"@ {
        Some(Mnemonic::Xor)
    } else if u == "NOT"@ {
        Some(Mnemonic::Not)
    } else if u == "CMP"@ {
        Some(Mnemonic::Cmp)
    } else if u == "JMP"@ {
        Some(Mnemonic::Jmp)
    } else if u == "JZ"@ {
        Some(Mnemonic::Jz)
    } else if u == "JNZ"@ {
        Some(Mnemonic::Jnz)
    } else if u == "JN"@ {
        Some(Mnemonic::Jn)
    } else if u == "JNN"@ {
        Some(Mnemonic::Jnn)
    } else if u == "JC"@ {
        Some(Mnemonic::Jc)
    } else if u == "JNC"@ {
        Some(Mnemonic::Jnc)
    } else if u == "JSB"@ {
        Some(Mnemonic::Jsb)
    } else if u == "RSB"@ {
        Some(Mnemonic::Rsb)
    } else if u == "CLI"@ {
        Some(Mnemonic::Cli)
    } else if u == "SEI"@ {
        Some(Mnemonic::Sei)
    } else if u == "RSI"@ {
        Some(Mnemonic::Rsi)
    } else {
        None
    }
}

/// An instruction: a mnemonic and as many operands as it takes.
#[derive(Debug, Clone, PartialEq, Eq)]
pub struct Instruction {
    pub mnemonic: Mnemonic,
    pub operands: Vec<Operand>,
}

#[derive(Debug, Clone, PartialEq, Eq)]
pub enum Statement {
    Instruction(Instruction),
    Label(String),
    AliasDeclaration(String, Operand),
    Directive(String, Operand),
}

pub enum StatementView {
    Instruction(Mnemonic, Seq<OperandView>),
    Label(Seq<char>),
    AliasDeclaration(Seq<char>, OperandView),
    Directive(Seq<char>, OperandView),
}

impl View for Statement {
    type V = StatementView;

    open spec fn view(&self) -> StatementView {
        match self {
            Statement::Instruction(i) => StatementView::Instruction(
                i.mnemonic,
                i.operands@.map_values(|o: Operand| o@),
            ),
            Statement::Label(n) => StatementView::Label(n@),
            Statement::AliasDeclaration(n, o) => StatementView::AliasDeclaration(n@, o@),
            Statement::Directive(n, o) => StatementView::Directive(n@, o@),
        }
    }
}

/// The line (from 1) of token `p`: one more than the newlines before it.
pub open spec fn token_line(ts: Seq<TokenView>, p: int) -> usize
    decreases p,
{
    if p <= 0 {
        1
    } else {
        (token_line(ts, p - 1) + if ts[p - 1] is Newline {
            1usize
        } else {
            0usize
        }) as usize
    }
}

/// The operand that token `p` spells, if any.
pub open spec fn operand_at(ts: Seq<TokenView>, p: int) -> Option<OperandView> {
    if p < 0 || p >= ts.len() {
        None
    } else {
        match ts[p] {
            TokenView::Register(r) => Some(OperandView::Register(r)),
            TokenView::RegisterIndirect(r) => Some(OperandView::RegisterIndirect(r)),
            TokenView::DecimalLiteral(v) => Some(OperandView::Literal(v)),
            TokenView::HexLiteral(v) => Some(OperandView::Literal(v)),
            TokenView::BinaryLiteral(v) => Some(OperandView::Literal(v)),
            TokenView::Alias(n) => Some(OperandView::Alias(n)),
            TokenView::Identifier(n) => Some(OperandView::LabelRef(n)),
            TokenView::CharString(s) => Some(OperandView::CharString(s)),
            _ => None,
        }
    }
}

/// A statement ends at a newline or at the end of the tokens.
pub open spec fn ends_at(ts: Seq<TokenView>, q: int) -> bool {
    q >= ts.len() || ts[q] is Newline
}

/// The operands of a mnemonic from token `p`, and the position after them.
pub open spec fn operands_spec(m: Mnemonic, ts: Seq<TokenView>, p: int) -> Option<(Seq<OperandView>, int)> {
    if arity(m) == 0 {
        Some((Seq::empty(), p))
    } else if arity(m) == 1 {
        match operand_at(ts, p) {
            Some(a) => Some((seq![a], p + 1)),
            None => None,
        }
    } else {
        match (operand_at(ts, p), operand_at(ts, p + 2)) {
            (Some(a), Some(b)) => if ts[p + 1] is Comma {
                Some((seq![a, b], p + 3))
            } else {
                None
            },
            _ => None,
        }
    }
}

/// One statement from token `p` (not a newline), and the position after it.
pub open spec fn statement_spec(ts: Seq<TokenView>, p: int) -> Result<(StatementView, int), AssembleError> {
    let line = token_line(ts, p);
    match ts[p] {
        TokenView::Label(n) => Ok((StatementView::Label(n), p + 1)),
        TokenView::Alias(n) => match operand_at(ts, p + 1) {
            Some(o) => if ends_at(ts, p + 2) {
                Ok((StatementView::AliasDeclaration(n, o), p + 2))
            } else {
                Err(AssembleError::ParseError(line))
            },
            None => Err(AssembleError::ParseError(line)),
        },
        TokenView::Directive(n) => match operand_at(ts, p + 1) {
            Some(o) => if ends_at(ts, p + 2) {
                Ok((StatementView::Directive(n, o), p + 2))
            } else {
                Err(AssembleError::ParseError(line))
            },
            None => Err(AssembleError::ParseError(line)),
        },
        TokenView::Mnemonic(name) => match mnemonic_of(upper(name)) {
            None => Err(AssembleError::InvalidInstruction(line)),
            Some(m) => match operands_spec(m, ts, p + 1) {
                None => Err(AssembleError::ParseError(line)),
                Some((ops, q)) => if ends_at(ts, q) {
                    Ok((StatementView::Instruction(m, ops), q))
                } else {
                    Err(AssembleError::ParseError(line))
                },
            },
        },
        _ => Err(AssembleError::InvalidInstruction(line)),
    }
}

/// The statements of the tokens from position `p`; newlines separate them.
pub open spec fn parse_spec(ts: Seq<TokenView>, p: int) -> Result<Seq<StatementView>, AssembleError>
    decreases ts.len() - p,
{
    if p < 0 || p >= ts.len() {
        Ok(Seq::empty())
    } else if ts[p] is Newline {
        parse_spec(ts, p + 1)
    } else {
        let r = statement_spec(ts, p);
        if r is Err {
            Err(r->Err_0)
        } else {
            let st = r->Ok_0.0;
            let q = r->Ok_0.1;
            if q <= p || q > ts.len() {
                Err(AssembleError::ParseError(0))
            } else {
                let rest = parse_spec(ts, q);
                if rest is Err {
                    rest
                } else {
                    Ok(seq![st] + rest->Ok_0)
                }
            }
        }
    }
}

/// The alias bindings that the declarations among `stmts` make, later ones
/// replacing earlier ones.
pub open spec fn aliases_spec(stmts: Seq<Statement>) -> Map<Seq<char>, Operand>
    decreases stmts.len(),
{
    if stmts.len() == 0 {
        Map::empty()
    } else {
        let m = aliases_spec(stmts.drop_last());
        match stmts.last() {
            Statement::AliasDeclaration(n, o) => m.insert(n@, o),
            _ => m,
        }
    }
}

/// A parsed program: its statements, the aliases they declare, and the
/// labels (filled by the assembler's first pass).
pub struct Program {
    pub statements: Vec<Statement>,
    pub aliases: AliasTable,
    pub labels: SymbolTable,
}

pub open spec fn tokens_view(ts: Seq<Token>) -> Seq<TokenView> {
    ts.map_values(|t: Token| t@)
}

pub open spec fn statements_view(ss: Seq<Statement>) -> Seq<StatementView> {
    ss.map_values(|s: Statement| s@)
}

fn token_line_exec(ts: &Vec<Token>, p: usize) -> (r: usize)
    requires
        p <= ts@.len() < usize::MAX,
    ensures
        r == token_line(tokens_view(ts@), p as int),
{
    let mut n: usize = 1;
    let mut i: usize = 0;
    while i < p
        invariant
            i <= p <= ts@.len() < usize::MAX,
            n == token_line(tokens_view(ts@), i as int),
            n <= i + 1,
        decreases p - i,
    {
        if matches!(ts[i], Token::Newline) {
            n = n + 1;
        }
        i = i + 1;
    }
    n
}

pub fn clone_operand(o: &Operand) -> (r: Operand)
    ensures
        r == *o,
{
    match o {
        Operand::Register(r) => Operand::Register(*r),
        Operand::RegisterIndirect(r) => Operand::RegisterIndirect(*r),
        Operand::Literal(v) => Operand::Literal(*v),
        Operand::Alias(n) => Operand::Alias(n.clone()),
        Operand::LabelRef(n) => Operand::LabelRef(n.clone()),
        Operand::CharString(n) => Operand::CharString(n.clone()),
    }
}

fn operand_at_exec(ts: &Vec<Token>, p: usize) -> (r: Option<Operand>)
    ensures
        match r {
            Some(o) => operand_at(tokens_view(ts@), p as int) == Some(o@),
            None => operand_at(tokens_view(ts@), p as int) is None,
        },
{
    if p >= ts.len() {
        return None;
    }
    match &ts[p] {
        Token::Register(r) => Some(Operand::Register(*r)),
        Token::RegisterIndirect(r) => Some(Operand::RegisterIndirect(*r)),
        Token::DecimalLiteral(v) => Some(Operand::Literal(*v)),
        Token::HexLiteral(v) => Some(Operand::Literal(*v)),
        Token::BinaryLiteral(v) => Some(Operand::Literal(*v)),
        Token::Alias(n) => Some(Operand::Alias(n.clone())),
        Token::Identifier(n) => Some(Operand::LabelRef(n.clone())),
        Token::CharString(s) => Some(Operand::CharString(s.clone())),
        _ => None,
    }
}

fn mnemonic_of_exec(n: &str) -> (r: Option<Mnemonic>)
    ensures
        r == mnemonic_of(upper(n@)),
{
    if eq_upper(n, "NOP") {
        Some(Mnemonic::Nop)
    } else if eq_upper(n, "HLT") {
        Some(Mnemonic::Hlt)
    } else if eq_upper(n, "MOV") {
        Some(Mnemonic::Mov)
    } else if eq_upper(n, "PHR") {
        Some(Mnemonic::Phr)
    } else if eq_upper(n, "PLR") {
        Some(Mnemonic::Plr)
    } else if eq_upper(n, "ADD") {
        Some(Mnemonic::Add)
    } else if eq_upper(n, "SUB") {
        Some(Mnemonic::Sub)
    } else if eq_upper(n, "MUL") {
        Some(Mnemonic::Mul)
    } else if eq_upper(n, "DIV") {
        Some(Mnemonic::Div)
    } else if eq_upper(n, "MOD") {
        Some(Mnemonic::Mod)
    } else if eq_upper(n, "INC") {
        Some(Mnemonic::Inc)
    } else if eq_upper(n, "DEC") {
        Some(Mnemonic::Dec)
    } else if eq_upper(n, "AND") {
        Some(Mnemonic::And)
    } else if eq_upper(n, "OR") {
        Some(Mnemonic::Or)
    } else if eq_upper(n, "XOR") {
        Some(Mnemonic::Xor)
    } else if eq_upper(n, "NOT") {
        Some(Mnemonic::Not)
    } else if eq_upper(n, "CMP") {
        Some(Mnemonic::Cmp)
    } else if eq_upper(n, "JMP") {
        Some(Mnemonic::Jmp)
    } else if eq_upper(n, "JZ") {
        Some(Mnemonic::Jz)
    } else if eq_upper(n, "JNZ") {
        Some(Mnemonic::Jnz)
    } else if eq_upper(n, "JN") {
        Some(Mnemonic::Jn)
    } else if eq_upper(n, "JNN") {
        Some(Mnemonic::Jnn)
    } else if eq_upper(n, "JC") {
        Some(Mnemonic::Jc)
    } else if eq_upper(n, "JNC") {
        Some(Mnemonic::Jnc)
    } else if eq_upper(n, "JSB") {
        Some(Mnemonic::Jsb)
    } else if eq_upper(n, "RSB") {
        Some(Mnemonic::Rsb)
    } else if eq_upper(n, "CLI") {
        Some(Mnemonic::Cli)
    } else if eq_upper(n, "SEI") {
        Some(Mnemonic::Sei)
    } else if eq_upper(n, "RSI") {
        Some(Mnemonic::Rsi)
    } else {
        None
    }
}

pub fn arity_exec(m: Mnemonic) -> (r: usize)
    ensures
        r == arity(m),
{
    match m {
        Mnemonic::Nop | Mnemonic::Hlt | Mnemonic::Rsb | Mnemonic::Cli | Mnemonic::Sei | Mnemonic::Rsi => 0,
        Mnemonic::Mov | Mnemonic::Add | Mnemonic::Sub | Mnemonic::Mul | Mnemonic::Div | Mnemonic::Mod
        | Mnemonic::And | Mnemonic::Or | Mnemonic::Xor | Mnemonic::Cmp => 2,
        _ => 1,
    }
}

fn ends_at_exec(ts: &Vec<Token>, q: usize) -> (r: bool)
    ensures
        r == ends_at(tokens_view(ts@), q as int),
{
    q >= ts.len() || matches!(ts[q], Token::Newline)
}

fn operands_exec(m: Mnemonic, ts: &Vec<Token>, p: usize) -> (r: Option<(Vec<Operand>, usize)>)
    requires
        p <= ts@.len() < usize::MAX - 3,
    ensures
        match r {
            Some((ops, q)) => operands_spec(m, tokens_view(ts@), p as int) == Some(
                (ops@.map_values(|o: Operand| o@), q as int),
            ),
            None => operands_spec(m, tokens_view(ts@), p as int) is None,
        },
{
    let k = arity_exec(m);
    if k == 0 {
        let v: Vec<Operand> = Vec::new();
        assert(v@.map_values(|o: Operand| o@) =~= Seq::<OperandView>::empty());
        Some((v, p))
    } else if k == 1 {
        match operand_at_exec(ts, p) {
            Some(a) => {
                let v = vec![a];
                assert(v@.map_values(|o: Operand| o@) =~= seq![a@]);
                Some((v, p + 1))
            },
            None => None,
        }
    } else {
        let a = operand_at_exec(ts, p);
        let b = operand_at_exec(ts, p + 2);
        match (a, b) {
            (Some(a), Some(b)) => {
                if matches!(ts[p + 1], Token::Comma) {
                    let v = vec![a, b];
                    assert(v@.map_values(|o: Operand| o@) =~= seq![a@, b@]);
                    Some((v, p + 3))
                } else {
                    None
                }
            },
            _ => None,
        }
    }
}

fn statement_exec(ts: &Vec<Token>, p: usize) -> (r: Result<(Statement, usize), AssembleError>)
    requires
        p < ts@.len() < usize::MAX - 3,
    ensures
        match r {
            Ok((st, q)) => statement_spec(tokens_view(ts@), p as int) == Ok::<(StatementView, int), AssembleError>(
                (st@, q as int),
            ) && p < q <= ts@.len(),
            Err(e) => statement_spec(tokens_view(ts@), p as int) == Err::<(StatementView, int), AssembleError>(e),
        },
{
    match &ts[p] {
        Token::Label(n) => Ok((Statement::Label(n.clone()), p + 1)),
        Token::Alias(n) => match operand_at_exec(ts, p + 1) {
            Some(o) => if ends_at_exec(ts, p + 2) {
                Ok((Statement::AliasDeclaration(n.clone(), o), p + 2))
            } else {
                Err(AssembleError::ParseError(token_line_exec(ts, p)))
            },
            None => Err(AssembleError::ParseError(token_line_exec(ts, p))),
        },
        Token::Directive(n) => match operand_at_exec(ts, p + 1) {
            Some(o) => if ends_at_exec(ts, p + 2) {
                Ok((Statement::Directive(n.clone(), o), p + 2))
            } else {
                Err(AssembleError::ParseError(token_line_exec(ts, p)))
            },
            None => Err(AssembleError::ParseError(token_line_exec(ts, p))),
        },
        Token::Mnemonic(name) => match mnemonic_of_exec(name.as_str()) {
            None => Err(AssembleError::InvalidInstruction(token_line_exec(ts, p))),
            Some(m) => match operands_exec(m, ts, p + 1) {
                None => Err(AssembleError::ParseError(token_line_exec(ts, p))),
                Some((ops, q)) => {
                    if ends_at_exec(ts, q) {
                        if q > ts.len() {
                            return Err(AssembleError::ParseError(0));
                        }
                        Ok((Statement::Instruction(Instruction { mnemonic: m, operands: ops }), q))
                    } else {
                        Err(AssembleError::ParseError(token_line_exec(ts, p)))
                    }
                },
            },
        },
        _ => Err(AssembleError::InvalidInstruction(token_line_exec(ts, p))),
    }
}

/// Parses tokens into a program; the alias table holds the declarations.
pub fn parse_tokens(ts: &Vec<Token>) -> (r: Result<Program, AssembleError>)
    requires
        ts@.len() < usize::MAX - 3,
    ensures
        match r {
            Ok(prog) => parse_spec(tokens_view(ts@), 0) == Ok::<Seq<StatementView>, AssembleError>(
                statements_view(prog.statements@),
            ) && prog.aliases@ == aliases_spec(prog.statements@) && prog.labels@ == Map::<
                Seq<char>,
                u16,
            >::empty(),
            Err(e) => parse_spec(tokens_view(ts@), 0) == Err::<Seq<StatementView>, AssembleError>(e),
        },
{
    let mut statements: Vec<Statement> = Vec::new();
    let mut aliases = AliasTable::new();
    let mut p: usize = 0;
    assert(aliases_spec(statements@) =~= Map::<Seq<char>, Operand>::empty());
    while p < ts.len()
        invariant
            p <= ts@.len() < usize::MAX - 3,
            aliases@ == aliases_spec(statements@),
            parse_spec(tokens_view(ts@), 0) == match parse_spec(tokens_view(ts@), p as int) {
                Ok(rest) => Ok(statements_view(statements@) + rest),
                Err(e) => Err(e),
            },
        decreases ts@.len() - p,
    {
        if matches!(ts[p], Token::Newline) {
            p = p + 1;
        } else {
            let (st, q) = statement_exec(ts, p)?;
            proof {
                let sv = statements_view(statements@);
                let sv2 = statements_view(statements@.push(st));
                assert(sv2 =~= sv.push(st@));
                match parse_spec(tokens_view(ts@), q as int) {
                    Ok(rest) => {
                        assert(sv + (seq![st@] + rest) =~= sv2 + rest);
                    },
                    Err(_) => {},
                }
                assert(statements@.push(st).drop_last() =~= statements@);
            }
            if let Statement::AliasDeclaration(n, o) = &st {
                aliases.insert(n.clone(), clone_operand(o));
            }
            statements.push(st);
            p = q;
        }
    }
    assert(statements_view(statements@) + Seq::<StatementView>::empty() =~= statements_view(statements@));
    Ok(Program { statements, aliases, labels: SymbolTable::new() })
}

} // verus!
