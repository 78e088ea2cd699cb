use vstd::prelude::*;
use crate::text::{eq_upper, upper};

verus! {

/// A register index as written in source.
#[derive(Debug, Clone, Copy, PartialEq, Eq)]
pub struct Register(pub u8);

/// A token of one source line.
#[derive(Debug, Clone, PartialEq, Eq)]
pub enum Token {
    Mnemonic(String),
    Register(Register),
    /// `R<n>*`: the memory at the address held in the register.
    DereferencedRegister(Register),
    Literal(u16),
    LabelIdentifier(String),
    Colon,
    Comma,
    DotDirective(String),
    Comment(String),
}

#[derive(Debug, Clone, PartialEq, Eq)]
pub enum Operand {
    Register(Register),
    DereferencedRegister(Register),
    Literal(u16),
    Label(String),
}

#[derive(Debug, Clone, PartialEq, Eq)]
pub enum InstructionType {
    Nop,
    Hlt,
    Ret,
    Mov { dest: Operand, src: Operand },
    Add { dest: Operand, src: Operand },
    Sub { dest: Operand, src: Operand },
    Mul { dest: Operand, src: Operand },
    Div { dest: Operand, src: Operand },
    Mod { dest: Operand, src: Operand },
    And { dest: Operand, src: Operand },
    Or { dest: Operand, src: Operand },
    Xor { dest: Operand, src: Operand },
    Cmp { op1: Operand, op2: Operand },
    Inc { reg: Operand },
    Dec { reg: Operand },
    Not { reg: Operand },
    Jmp { target: Operand },
    Jz { target: Operand },
    Jnz { target: Operand },
    Jn { target: Operand },
    Jnn { target: Operand },
    Jc { target: Operand },
    Jnc { target: Operand },
    Call { target: Operand },
    /// A mnemonic that names no instruction; code generation refuses it.
    UnknownInstruction { name: String },
}

#[derive(Debug, Clone, PartialEq, Eq)]
pub enum ParsedLine {
    Empty,
    Comment,
    LabelDefinition(String),
    Instruction(InstructionType),
    Directive { name: String, args: Vec<Operand> },
}

#[derive(Debug, Clone, PartialEq, Eq)]
pub enum ParserError {
    UnexpectedToken(Token),
    MissingOperand,
    InvalidOperandType(Token),
    UnknownInstruction(String),
    TrailingTokens(Vec<Token>),
    EmptyInput,
    InvalidDirective(String),
    InvalidLabel(String),
    MissingComma(Token),
    ExpectedMnemonic,
    ExpectedRegister,
    ExpectedLiteral,
    ExpectedLabelIdentifier,
    ExpectedColon,
    ExpectedSpecificToken(String),
}

/// A parsed line, with a directive's arguments as a sequence.
pub enum LineView {
    Empty,
    Comment,
    LabelDefinition(String),
    Instruction(InstructionType),
    Directive(String, Seq<Operand>),
}

/// A parse error, with trailing tokens as a sequence.
pub enum ErrorView {
    Error(ParserError),
    Trailing(Seq<Token>),
}

impl View for ParsedLine {
    type V = LineView;

    open spec fn view(&self) -> LineView {
        match self {
            ParsedLine::Empty => LineView::Empty,
            ParsedLine::Comment => LineView::Comment,
            ParsedLine::LabelDefinition(n) => LineView::LabelDefinition(*n),
            ParsedLine::Instruction(i) => LineView::Instruction(*i),
            ParsedLine::Directive { name, args } => LineView::Directive(*name, args@),
        }
    }
}

pub open spec fn error_view(e: ParserError) -> ErrorView {
    match e {
        ParserError::TrailingTokens(v) => ErrorView::Trailing(v@),
        _ => ErrorView::Error(e),
    }
}

pub open spec fn result_view(r: Result<ParsedLine, ParserError>) -> Result<LineView, ErrorView> {
    match r {
        Ok(l) => Ok(l@),
        Err(e) => Err(error_view(e)),
    }
}

/// The tokens without comments, in order.
pub open spec fn strip_comments(ts: Seq<Token>) -> Seq<Token>
    decreases ts.len(),
{
    if ts.len() == 0 {
        Seq::empty()
    } else if ts.last() is Comment {
        strip_comments(ts.drop_last())
    } else {
        strip_comments(ts.drop_last()).push(ts.last())
    }
}

/// A register, dereferenced register or literal token as an operand.
pub open spec fn operand_spec(t: Token) -> Result<Operand, ParserError> {
    match t {
        Token::Register(r) => Ok(Operand::Register(r)),
        Token::DereferencedRegister(r) => Ok(Operand::DereferencedRegister(r)),
        Token::Literal(v) => Ok(Operand::Literal(v)),
        _ => Err(ParserError::InvalidOperandType(t)),
    }
}

pub open spec fn err<T>(e: ParserError) -> Result<T, ErrorView> {
    Err(ErrorView::Error(e))
}

pub open spec fn is_binary(u: Seq<char>) -> bool {
    u == "MOV"@ || u == "ADD"@ || u == "SUB"@ || u == "MUL"@ || u == "DIV"@ || u == "MOD"@ || u == "AND"@
        || u == "OR"@ || u == "XOR"@ || u == "CMP"@
}

pub open spec fn binary_spec(u: Seq<char>, a: Operand, b: Operand) -> InstructionType {
    if u == "MOV"@ {
        InstructionType::Mov { dest: a, src: b }
    } else if u == "ADD"@ {
        InstructionType::Add { dest: a, src: b }
    } else if u == "SUB"@ {
        InstructionType::Sub { dest: a, src: b }
    } else if u == "MUL"@ {
        InstructionType::Mul { dest: a, src: b }
    } else if u == "DIV"@ {
        InstructionType::Div { dest: a, src: b }
    } else if u == "MOD"@ {
        InstructionType::Mod { dest: a, src: b }
    } else if u == "AND"@ {
        InstructionType::And { dest: a, src: b }
    } else if u == "OR"@ {
        InstructionType::Or { dest: a, src: b }
    } else if u == "XOR"@ {
        InstructionType::Xor { dest: a, src: b }
    } else {
        InstructionType::Cmp { op1: a, op2: b }
    }
}

pub open spec fn is_unary(u: Seq<char>) -> bool {
    u == "INC"@ || u == "DEC"@ || u == "NOT"@
}

pub open spec fn unary_spec(u: Seq<char>, a: Operand) -> InstructionType {
    if u == "INC"@ {
        InstructionType::Inc { reg: a }
    } else if u == "DEC"@ {
        InstructionType::Dec { reg: a }
    } else {
        InstructionType::Not { reg: a }
    }
}

pub open spec fn is_jump(u: Seq<char>) -> bool {
    u == "JMP"@ || u == "JZ"@ || u == "JNZ"@ || u == "JN"@ || u == "JNN"@ || u == "JC"@ || u == "JNC"@
}

pub open spec fn jump_spec(u: Seq<char>, a: Operand) -> InstructionType {
    if u == "JMP"@ {
        InstructionType::Jmp { target: a }
    } else if u == "JZ"@ {
        InstructionType::Jz { target: a }
    } else if u == "JNZ"@ {
        InstructionType::Jnz { target: a }
    } else if u == "JN"@ {
        InstructionType::Jn { target: a }
    } else if u == "JNN"@ {
        InstructionType::Jnn { target: a }
    } else if u == "JC"@ {
        InstructionType::Jc { target: a }
    } else {
        InstructionType::Jnc { target: a }
    }
}

/// A jump or call target: a name (label identifier or mnemonic-like word), or
/// a register (jumps only) or literal.
pub open spec fn target_spec(t: Token, allow_register: bool) -> Result<Operand, ParserError> {
    match t {
        Token::LabelIdentifier(n) => Ok(Operand::Label(n)),
        Token::Mnemonic(n) => Ok(Operand::Label(n)),
        Token::Literal(v) => Ok(Operand::Literal(v)),
        Token::Register(r) => if allow_register {
            Ok(Operand::Register(r))
        } else {
            Err(ParserError::InvalidOperandType(t))
        },
        _ => Err(ParserError::InvalidOperandType(t)),
    }
}

/// The instruction named `m` with its operands from position `p`, and the
/// position after them. An unknown name takes the rest of the line.
pub open spec fn instr_spec(m: String, f: Seq<Token>, p: int) -> Result<(InstructionType, int), ErrorView> {
    let u = upper(m@);
    if u == "NOP"@ {
        Ok((InstructionType::Nop, p))
    } else if u == "HLT"@ {
        Ok((InstructionType::Hlt, p))
    } else if u == "RET"@ {
        Ok((InstructionType::Ret, p))
    } else if is_binary(u) {
        if p >= f.len() {
            err(ParserError::MissingOperand)
        } else {
            match operand_spec(f[p]) {
                Err(e) => err(e),
                Ok(a) => if p + 1 >= f.len() || !(f[p + 1] is Comma) {
                    err(ParserError::MissingComma(f[p]))
                } else if p + 2 >= f.len() {
                    err(ParserError::MissingOperand)
                } else {
                    match operand_spec(f[p + 2]) {
                        Err(e) => err(e),
                        Ok(b) => Ok((binary_spec(u, a, b), p + 3)),
                    }
                },
            }
        }
    } else if is_unary(u) {
        if p >= f.len() {
            err(ParserError::MissingOperand)
        } else {
            match operand_spec(f[p]) {
                Err(e) => err(e),
                Ok(a) => if a is Literal {
                    err(ParserError::InvalidOperandType(f[p]))
                } else {
                    Ok((unary_spec(u, a), p + 1))
                },
            }
        }
    } else if is_jump(u) || u == "CALL"@ {
        if p >= f.len() {
            err(ParserError::MissingOperand)
        } else {
            match target_spec(f[p], u != "CALL"@) {
                Err(e) => err(e),
                Ok(a) => Ok((if u == "CALL"@ { InstructionType::Call { target: a } } else { jump_spec(u, a) }, p + 1)),
            }
        }
    } else {
        Ok((InstructionType::UnknownInstruction { name: m }, f.len() as int))
    }
}

/// Directive arguments from position `p`: operands separated by commas.
pub open spec fn args_spec(f: Seq<Token>, p: int, expect: bool) -> Result<Seq<Operand>, ErrorView>
    decreases f.len() - p,
{
    if p >= f.len() {
        if expect {
            err(ParserError::MissingOperand)
        } else {
            Ok(Seq::empty())
        }
    } else if f[p] is Comma {
        if expect {
            err(ParserError::UnexpectedToken(Token::Comma))
        } else {
            args_spec(f, p + 1, true)
        }
    } else if !expect {
        err(ParserError::MissingComma(f[p]))
    } else {
        match operand_spec(f[p]) {
            Err(e) => err(e),
            Ok(o) => match args_spec(f, p + 1, false) {
                Err(e) => Err(e),
                Ok(rest) => Ok(seq![o] + rest),
            },
        }
    }
}

/// The statement from position `p` (after any label).
pub open spec fn body_spec(f: Seq<Token>, p: int) -> Result<LineView, ErrorView> {
    if p >= f.len() {
        Ok(LineView::Empty)
    } else {
        match f[p] {
            Token::DotDirective(name) => match args_spec(f, p + 1, true) {
                Err(e) => Err(e),
                Ok(args) => Ok(LineView::Directive(name, args)),
            },
            Token::Mnemonic(m) => match instr_spec(m, f, p + 1) {
                Err(e) => Err(e),
                Ok((i, q)) => if q < f.len() {
                    Err(ErrorView::Trailing(f.subrange(q, f.len() as int)))
                } else {
                    Ok(LineView::Instruction(i))
                },
            },
            Token::LabelIdentifier(m) => match instr_spec(m, f, p + 1) {
                Err(e) => Err(e),
                Ok((i, q)) => if q < f.len() {
                    Err(ErrorView::Trailing(f.subrange(q, f.len() as int)))
                } else {
                    Ok(LineView::Instruction(i))
                },
            },
            _ => err(ParserError::UnexpectedToken(f[p])),
        }
    }
}

/// One source line: an optional `label:`, then a directive or an instruction.
/// A label alone defines the label; a label before a statement is dropped.
pub open spec fn parse_line_spec(tokens: Seq<Token>) -> Result<LineView, ErrorView> {
    let f = strip_comments(tokens);
    if f.len() == 0 {
        Ok(LineView::Empty)
    } else if f.len() >= 2 && f[0] is LabelIdentifier && f[1] is Colon {
        if f.len() == 2 {
            Ok(LineView::LabelDefinition(f[0]->LabelIdentifier_0))
        } else {
            body_spec(f, 2)
        }
    } else {
        body_spec(f, 0)
    }
}

pub fn clone_token(t: &Token) -> (r: Token)
    ensures
        r == *t,
{
    match t {
        Token::Mnemonic(s) => Token::Mnemonic(s.clone()),
        Token::Register(r) => Token::Register(*r),
        Token::DereferencedRegister(r) => Token::DereferencedRegister(*r),
        Token::Literal(v) => Token::Literal(*v),
        Token::LabelIdentifier(s) => Token::LabelIdentifier(s.clone()),
        Token::Colon => Token::Colon,
        Token::Comma => Token::Comma,
        Token::DotDirective(s) => Token::DotDirective(s.clone()),
        Token::Comment(s) => Token::Comment(s.clone()),
    }
}

/// A register, dereferenced register or literal token as an operand.
pub fn parse_operand(token: &Token) -> (r: Result<Operand, ParserError>)
    ensures
        r == operand_spec(*token),
{
    match token {
        Token::Register(r) => Ok(Operand::Register(*r)),
        Token::DereferencedRegister(r) => Ok(Operand::DereferencedRegister(*r)),
        Token::Literal(v) => Ok(Operand::Literal(*v)),
        _ => Err(ParserError::InvalidOperandType(clone_token(token))),
    }
}

fn parse_target(token: &Token, allow_register: bool) -> (r: Result<Operand, ParserError>)
    ensures
        r == target_spec(*token, allow_register),
{
    match token {
        Token::LabelIdentifier(n) => Ok(Operand::Label(n.clone())),
        Token::Mnemonic(n) => Ok(Operand::Label(n.clone())),
        Token::Literal(v) => Ok(Operand::Literal(*v)),
        Token::Register(r) => if allow_register {
            Ok(Operand::Register(*r))
        } else {
            Err(ParserError::InvalidOperandType(clone_token(token)))
        },
        _ => Err(ParserError::InvalidOperandType(clone_token(token))),
    }
}

fn binary_instr(m: &str, a: Operand, b: Operand) -> (r: InstructionType)
    requires
        is_binary(upper(m@)),
    ensures
        r == binary_spec(upper(m@), a, b),
{
    if eq_upper(m, "MOV") {
        InstructionType::Mov { dest: a, src: b }
    } else if eq_upper(m, "ADD") {
        InstructionType::Add { dest: a, src: b }
    } else if eq_upper(m, "SUB") {
        InstructionType::Sub { dest: a, src: b }
    } else if eq_upper(m, "MUL") {
        InstructionType::Mul { dest: a, src: b }
    } else if eq_upper(m, "DIV") {
        InstructionType::Div { dest: a, src: b }
    } else if eq_upper(m, "MOD") {
        InstructionType::Mod { dest: a, src: b }
    } else if eq_upper(m, "AND") {
        InstructionType::And { dest: a, src: b }
    } else if eq_upper(m, "OR") {
        InstructionType::Or { dest: a, src: b }
    } else if eq_upper(m, "XOR") {
        InstructionType::Xor { dest: a, src: b }
    } else {
        InstructionType::Cmp { op1: a, op2: b }
    }
}

fn jump_instr(m: &str, a: Operand) -> (r: InstructionType)
    ensures
        r == jump_spec(upper(m@), a),
{
    if eq_upper(m, "JMP") {
        InstructionType::Jmp { target: a }
    } else if eq_upper(m, "JZ") {
        InstructionType::Jz { target: a }
    } else if eq_upper(m, "JNZ") {
        InstructionType::Jnz { target: a }
    } else if eq_upper(m, "JN") {
        InstructionType::Jn { target: a }
    } else if eq_upper(m, "JNN") {
        InstructionType::Jnn { target: a }
    } else if eq_upper(m, "JC") {
        InstructionType::Jc { target: a }
    } else {
        InstructionType::Jnc { target: a }
    }
}

/// Parses the operands of mnemonic `m` from position `p` of the comment-free
/// tokens `f`; returns the instruction and the position after it.
pub fn parse_instruction(m: &String, f: &Vec<Token>, p: usize) -> (r: Result<(InstructionType, usize), ParserError>)
    requires
        p <= f@.len(),
    ensures
        match r {
            Ok((i, q)) => instr_spec(*m, f@, p as int) == Ok::<(InstructionType, int), ErrorView>((i, q as int)),
            Err(e) => instr_spec(*m, f@, p as int) == err::<(InstructionType, int)>(e) && !(e is TrailingTokens),
        },
{
    let ms = m.as_str();
    if eq_upper(ms, "NOP") {
        Ok((InstructionType::Nop, p))
    } else if eq_upper(ms, "HLT") {
        Ok((InstructionType::Hlt, p))
    } else if eq_upper(ms, "RET") {
        Ok((InstructionType::Ret, p))
    } else if eq_upper(ms, "MOV") || eq_upper(ms, "ADD") || eq_upper(ms, "SUB") || eq_upper(ms, "MUL") || eq_upper(
        ms,
        "DIV",
    ) || eq_upper(ms, "MOD") || eq_upper(ms, "AND") || eq_upper(ms, "OR") || eq_upper(ms, "XOR") || eq_upper(
        ms,
        "CMP",
    ) {
        if p >= f.len() {
            return Err(ParserError::MissingOperand);
        }
        let a = parse_operand(&f[p])?;
        if p + 1 >= f.len() || !matches!(f[p + 1], Token::Comma) {
            return Err(ParserError::MissingComma(clone_token(&f[p])));
        }
        if p + 2 >= f.len() {
            return Err(ParserError::MissingOperand);
        }
        let b = parse_operand(&f[p + 2])?;
        Ok((binary_instr(ms, a, b), p + 3))
    } else if eq_upper(ms, "INC") || eq_upper(ms, "DEC") || eq_upper(ms, "NOT") {
        if p >= f.len() {
            return Err(ParserError::MissingOperand);
        }
        let a = parse_operand(&f[p])?;
        if matches!(a, Operand::Literal(_)) {
            return Err(ParserError::InvalidOperandType(clone_token(&f[p])));
        }
        let i = if eq_upper(ms, "INC") {
            InstructionType::Inc { reg: a }
        } else if eq_upper(ms, "DEC") {
            InstructionType::Dec { reg: a }
        } else {
            InstructionType::Not { reg: a }
        };
        Ok((i, p + 1))
    } else if eq_upper(ms, "JMP") || eq_upper(ms, "JZ") || eq_upper(ms, "JNZ") || eq_upper(ms, "JN") || eq_upper(
        ms,
        "JNN",
    ) || eq_upper(ms, "JC") || eq_upper(ms, "JNC") || eq_upper(ms, "CALL") {
        if p >= f.len() {
            return Err(ParserError::MissingOperand);
        }
        let is_call = eq_upper(ms, "CALL");
        let a = parse_target(&f[p], !is_call)?;
        let i = if is_call {
            InstructionType::Call { target: a }
        } else {
            jump_instr(ms, a)
        };
        Ok((i, p + 1))
    } else {
        Ok((InstructionType::UnknownInstruction { name: m.clone() }, f.len()))
    }
}

fn strip_comment_tokens(tokens: &[Token]) -> (r: Vec<Token>)
    ensures
        r@ == strip_comments(tokens@),
{
    let mut out: Vec<Token> = Vec::new();
    let mut i: usize = 0;
    while i < tokens.len()
        invariant
            i <= tokens@.len(),
            out@ == strip_comments(tokens@.subrange(0, i as int)),
        decreases tokens@.len() - i,
    {
        assert(tokens@.subrange(0, i + 1).drop_last() =~= tokens@.subrange(0, i as int));
        if !matches!(tokens[i], Token::Comment(_)) {
            out.push(clone_token(&tokens[i]));
        }
        i = i + 1;
    }
    assert(tokens@.subrange(0, tokens@.len() as int) =~= tokens@);
    out
}

fn parse_directive_args(f: &Vec<Token>, start: usize) -> (r: Result<Vec<Operand>, ParserError>)
    requires
        start <= f@.len(),
    ensures
        match r {
            Ok(v) => args_spec(f@, start as int, true) == Ok::<Seq<Operand>, ErrorView>(v@),
            Err(e) => args_spec(f@, start as int, true) == err::<Seq<Operand>>(e) && !(e is TrailingTokens),
        },
{
    let mut args: Vec<Operand> = Vec::new();
    let mut expect = true;
    let mut p = start;
    while p < f.len()
        invariant
            start <= p <= f@.len(),
            args_spec(f@, start as int, true) == match args_spec(f@, p as int, expect) {
                Ok(rest) => Ok(args@ + rest),
                Err(e) => Err(e),
            },
        decreases f@.len() - p,
    {
        if matches!(f[p], Token::Comma) {
            if expect {
                return Err(ParserError::UnexpectedToken(Token::Comma));
            }
            expect = true;
        } else {
            if !expect {
                return Err(ParserError::MissingComma(clone_token(&f[p])));
            }
            let o = parse_operand(&f[p])?;
            proof {
                let a2 = args@.push(o);
                match args_spec(f@, p + 1, false) {
                    Ok(rest) => {
                        assert(args@ + (seq![o] + rest) =~= a2 + rest);
                    },
                    Err(_) => {},
                }
            }
            args.push(o);
            expect = false;
        }
        p = p + 1;
    }
    if expect {
        return Err(ParserError::MissingOperand);
    }
    assert(args@ + Seq::<Operand>::empty() =~= args@);
    Ok(args)
}

fn tail_tokens(f: &Vec<Token>, q: usize) -> (r: Vec<Token>)
    requires
        q <= f@.len(),
    ensures
        r@ == f@.subrange(q as int, f@.len() as int),
{
    let mut out: Vec<Token> = Vec::new();
    let mut i = q;
    while i < f.len()
        invariant
            q <= i <= f@.len(),
            out@ == f@.subrange(q as int, i as int),
        decreases f@.len() - i,
    {
        out.push(clone_token(&f[i]));
        assert(out@ =~= f@.subrange(q as int, i + 1));
        i = i + 1;
    }
    out
}

fn parse_body(f: &Vec<Token>, p: usize) -> (r: Result<ParsedLine, ParserError>)
    requires
        p <= f@.len(),
    ensures
        result_view(r) == body_spec(f@, p as int),
{
    if p >= f.len() {
        return Ok(ParsedLine::Empty);
    }
    match &f[p] {
        Token::DotDirective(name) => {
            let args = parse_directive_args(f, p + 1)?;
            Ok(ParsedLine::Directive { name: name.clone(), args })
        },
        Token::Mnemonic(m) | Token::LabelIdentifier(m) => {
            let (i, q) = parse_instruction(m, f, p + 1)?;
            if q < f.len() {
                return Err(ParserError::TrailingTokens(tail_tokens(f, q)));
            }
            Ok(ParsedLine::Instruction(i))
        },
        t => Err(ParserError::UnexpectedToken(clone_token(t))),
    }
}

/// Parses the tokens of one source line; comments are ignored.
pub fn parse_line(tokens: &[Token]) -> (r: Result<ParsedLine, ParserError>)
    ensures
        result_view(r) == parse_line_spec(tokens@),
{
    let f = strip_comment_tokens(tokens);
    if f.len() == 0 {
        return Ok(ParsedLine::Empty);
    }
    if f.len() >= 2 && matches!(f[1], Token::Colon) {
        if let Token::LabelIdentifier(name) = &f[0] {
            if f.len() == 2 {
                return Ok(ParsedLine::LabelDefinition(name.clone()));
            }
            return parse_body(&f, 2);
        }
    }
    parse_body(&f, 0)
}

} // verus!
