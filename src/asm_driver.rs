use vstd::prelude::*;
use crate::asm_codegen::{CodeErrorView, code_agrees, code_spec, generate_instruction_code, calculate_instruction_size, size_in_bytes, CodeGenError};
use crate::asm_parser::{parse_line, Operand, ParsedLine, ParserError, Register, Token};
use crate::casm_lexer::{tokenize, lex_spec, TokenView};
use crate::error::AssembleError;
use crate::symbols::SymbolTable;
use crate::text::{eq_upper, upper};

verus! {

/// Why a line could not be split into tokens.
#[derive(Debug, PartialEq, Eq, Clone)]
pub enum LexerError {
    InvalidCharacter(char),
    InvalidLiteralFormat(String),
    InvalidRegisterFormat(String),
    UnknownToken(String),
}

/// Errors of the line assembler, each with the line (from 1) and its text.
#[derive(Debug, PartialEq, Eq, Clone)]
pub enum AssemblerError {
    Lexer { line_number: usize, content: String, kind: LexerError },
    Parser { line_number: usize, content: String, kind: ParserError },
    CodeGen { line_number: usize, content: String, kind: CodeGenError },
    Driver { line_number: Option<usize>, message: String },
    Io { message: String },
}

/// The line tokens that one source token stands for: a `name:` label is a
/// label identifier and a colon, a directive keeps its dot. `None`: the token
/// has no place in a line of this assembler.
pub open spec fn line_tokens_of(t: TokenView, out: Seq<Token>) -> bool {
    match t {
        TokenView::Mnemonic(n) => out.len() == 1 && out[0] is Mnemonic && out[0]->Mnemonic_0@ == n,
        TokenView::Register(r) => out.len() == 1 && out[0] == Token::Register(Register(r)),
        TokenView::RegisterIndirect(r) => out.len() == 1 && out[0] == Token::DereferencedRegister(Register(r)),
        TokenView::DecimalLiteral(v) | TokenView::HexLiteral(v) | TokenView::BinaryLiteral(v) => out.len() == 1
            && out[0] == Token::Literal(v),
        TokenView::Label(n) => out.len() == 2 && out[0] is LabelIdentifier && out[0]->LabelIdentifier_0@ == n
            && out[1] is Colon,
        TokenView::Identifier(n) => out.len() == 1 && out[0] is LabelIdentifier && out[0]->LabelIdentifier_0@
            == n,
        TokenView::Directive(n) => out.len() == 1 && out[0] is DotDirective && out[0]->DotDirective_0@ == seq!['.']
            + n,
        TokenView::Comma => out.len() == 1 && out[0] is Comma,
        TokenView::Colon => out.len() == 1 && out[0] is Colon,
        _ => false,
    }
}

/// `out` is the line tokens of the source tokens `ts`, in order; `k` of them
/// per source token as `line_tokens_of` says.
pub open spec fn line_tokens_agree(ts: Seq<TokenView>, out: Seq<Token>) -> bool
    decreases ts.len(),
{
    if ts.len() == 0 {
        out.len() == 0
    } else {
        exists|k: int|
            0 <= k <= out.len() && line_tokens_of(ts.last(), out.subrange(k, out.len() as int))
                && line_tokens_agree(ts.drop_last(), out.subrange(0, k))
    }
}

pub open spec fn convertible(t: TokenView) -> bool {
    !(t is Alias || t is CharString || t is Newline)
}

/// Splits one source line into tokens; comments are dropped.
pub fn tokenize_line(line: &str) -> (r: Result<Vec<Token>, LexerError>)
    requires
        line@.len() < usize::MAX - 3,
    ensures
        r is Ok ==> lex_spec(line@, 0) is Ok && line_tokens_agree(lex_spec(line@, 0)->Ok_0, r.unwrap()@),
        lex_spec(line@, 0) is Ok && (forall|i: int|
            0 <= i < lex_spec(line@, 0)->Ok_0.len() ==> convertible(#[trigger] lex_spec(line@, 0)->Ok_0[i]))
            ==> r is Ok,
{
    let ts = match tokenize(line) {
        Ok(ts) => ts,
        Err(AssembleError::InvalidLiteral(_)) => return Err(LexerError::InvalidLiteralFormat(String::from_str(line))),
        Err(_) => return Err(LexerError::UnknownToken(String::from_str(line))),
    };
    let ghost tv = ts@.map_values(|t: crate::casm_lexer::Token| t@);
    let mut out: Vec<Token> = Vec::new();
    let mut i: usize = 0;
    while i < ts.len()
        invariant
            i <= ts@.len(),
            tv == ts@.map_values(|t: crate::casm_lexer::Token| t@),
            lex_spec(line@, 0) == Ok::<Seq<TokenView>, AssembleError>(tv),
            line_tokens_agree(tv.subrange(0, i as int), out@),
            forall|j: int| 0 <= j < i ==> convertible(#[trigger] tv[j]),
        decreases ts@.len() - i,
    {
        let ghost before = out@;
        let ghost sub = tv.subrange(0, i + 1);
        assert(sub.drop_last() =~= tv.subrange(0, i as int));
        assert(sub.last() == ts@[i as int]@);
        match &ts[i] {
            crate::casm_lexer::Token::Mnemonic(n) => out.push(Token::Mnemonic(n.clone())),
            crate::casm_lexer::Token::Register(r) => out.push(Token::Register(Register(*r))),
            crate::casm_lexer::Token::RegisterIndirect(r) => out.push(Token::DereferencedRegister(Register(*r))),
            crate::casm_lexer::Token::DecimalLiteral(v) => out.push(Token::Literal(*v)),
            crate::casm_lexer::Token::HexLiteral(v) => out.push(Token::Literal(*v)),
            crate::casm_lexer::Token::BinaryLiteral(v) => out.push(Token::Literal(*v)),
            crate::casm_lexer::Token::Label(n) => {
                out.push(Token::LabelIdentifier(n.clone()));
                out.push(Token::Colon);
            },
            crate::casm_lexer::Token::Identifier(n) => out.push(Token::LabelIdentifier(n.clone())),
            crate::casm_lexer::Token::Directive(n) => {
                let dot = String::from_str(".");
                proof {
                    reveal_strlit(".");
                    assert(dot@ =~= seq!['.']);
                }
                let dotted = dot.concat(n.as_str());
                out.push(Token::DotDirective(dotted));
            },
            crate::casm_lexer::Token::Comma => out.push(Token::Comma),
            crate::casm_lexer::Token::Colon => out.push(Token::Colon),
            _ => {
                assert(!convertible(tv[i as int]));
                assert(!convertible(lex_spec(line@, 0)->Ok_0[i as int]));
                return Err(LexerError::UnknownToken(String::from_str(line)));
            },
        }
        proof {
            let k = before.len() as int;
            assert(out@.subrange(0, k) =~= before);
            let tail = out@.subrange(k, out@.len() as int);
            assert(tail.len() >= 1 ==> tail[0] == out@[k]);
            assert(tail.len() >= 2 ==> tail[1] == out@[k + 1]);
            assert(line_tokens_of(sub.last(), out@.subrange(k, out@.len() as int)));
            assert(line_tokens_agree(sub, out@));
        }
        i = i + 1;
    }
    assert(tv.subrange(0, i as int) =~= tv);
    Ok(out)
}

/// An outcome of the passes, with errors as far as the contract fixes them.
pub enum DriverErrorView {
    /// A lexer or parser error of a line, as given.
    Passed(AssemblerError),
    /// A code generation error at a line.
    CodeGen(usize, CodeErrorView),
    /// A driver error (duplicate label, size, `.ORG`) at a line, with its message.
    Driver(usize, Seq<char>),
}

pub type Labels = Map<Seq<char>, u16>;

pub open spec fn is_org(name: String) -> bool {
    upper(name@) == ".ORG"@
}

/// First pass over line `n` (from 1): labels and the address after it.
pub open spec fn line_pass1(n: usize, l: Result<ParsedLine, AssemblerError>, labels: Labels, a: int) -> Result<(Labels, int), DriverErrorView> {
    match l {
        Err(e) => Err(DriverErrorView::Passed(e)),
        Ok(ParsedLine::LabelDefinition(name)) => if labels.contains_key(name@) {
            Err(DriverErrorView::Driver(n, "Duplicate label "@ + name@))
        } else {
            Ok((labels.insert(name@, a as u16), a))
        },
        Ok(ParsedLine::Instruction(i)) => match size_in_bytes(i) {
            None => Err(DriverErrorView::Driver(n, "No encoding fits these operands"@)),
            Some(sz) => if a + sz > 0xFFFF {
                Err(DriverErrorView::Driver(n, "Address past 0xFFFF"@))
            } else {
                Ok((labels, a + sz))
            },
        },
        Ok(ParsedLine::Directive { name, args }) => if is_org(name) {
            if args@.len() != 1 {
                Err(DriverErrorView::Driver(n, ".ORG expects one even literal address"@))
            } else {
                match args@[0] {
                    Operand::Literal(v) => if v % 2 == 1 {
                        Err(DriverErrorView::Driver(n, ".ORG expects one even literal address"@))
                    } else {
                        Ok((labels, v as int))
                    },
                    _ => Err(DriverErrorView::Driver(n, ".ORG expects one even literal address"@)),
                }
            }
        } else {
            Ok((labels, a))
        },
        Ok(_) => Ok((labels, a)),
    }
}

pub open spec fn pass1_lines(pl: Seq<Result<ParsedLine, AssemblerError>>) -> Result<(Labels, int), DriverErrorView>
    decreases pl.len(),
{
    if pl.len() == 0 {
        Ok((Map::empty(), 0))
    } else {
        match pass1_lines(pl.drop_last()) {
            Err(e) => Err(e),
            Ok((labels, a)) => line_pass1(pl.len() as usize, pl.last(), labels, a),
        }
    }
}

/// Second pass over line `n`: the code so far and the address after it.
/// `.ORG` forward pads with zero words; backward, once code exists, is refused.
pub open spec fn line_pass2(n: usize, l: Result<ParsedLine, AssemblerError>, labels: Labels, code: Seq<u16>, a: int) -> Result<(Seq<u16>, int), DriverErrorView> {
    match l {
        Err(e) => Err(DriverErrorView::Passed(e)),
        Ok(ParsedLine::Instruction(i)) => match code_spec(i, labels) {
            Err(ce) => Err(DriverErrorView::CodeGen(n, ce)),
            Ok(ws) => if a + 2 * ws.len() > 0xFFFF {
                Err(DriverErrorView::Driver(n, "Address past 0xFFFF"@))
            } else {
                Ok((code + ws, a + 2 * ws.len()))
            },
        },
        Ok(ParsedLine::Directive { name, args }) => if is_org(name) {
            if args@.len() != 1 {
                Err(DriverErrorView::Driver(n, ".ORG expects one even literal address"@))
            } else {
                match args@[0] {
                    Operand::Literal(v) => if v % 2 == 1 {
                        Err(DriverErrorView::Driver(n, ".ORG expects one even literal address"@))
                    } else if v < a && code.len() > 0 {
                        Err(DriverErrorView::Driver(n, ".ORG to an earlier address"@))
                    } else if v > a {
                        Ok((code + Seq::new(((v - a) / 2) as nat, |k: int| 0u16), v as int))
                    } else {
                        Ok((code, v as int))
                    },
                    _ => Err(DriverErrorView::Driver(n, ".ORG expects one even literal address"@)),
                }
            }
        } else {
            Ok((code, a))
        },
        Ok(_) => Ok((code, a)),
    }
}

pub open spec fn pass2_lines(pl: Seq<Result<ParsedLine, AssemblerError>>, labels: Labels) -> Result<(Seq<u16>, int), DriverErrorView>
    decreases pl.len(),
{
    if pl.len() == 0 {
        Ok((Seq::empty(), 0))
    } else {
        match pass2_lines(pl.drop_last(), labels) {
            Err(e) => Err(e),
            Ok((code, a)) => line_pass2(pl.len() as usize, pl.last(), labels, code, a),
        }
    }
}

/// Both passes over the parsed lines: the code words.
pub open spec fn driver_spec(pl: Seq<Result<ParsedLine, AssemblerError>>) -> Result<Seq<u16>, DriverErrorView> {
    match pass1_lines(pl) {
        Err(e) => Err(e),
        Ok((labels, _)) => match pass2_lines(pl, labels) {
            Err(e) => Err(e),
            Ok((code, _)) => Ok(code),
        },
    }
}

pub open spec fn driver_agrees(o: Result<Seq<u16>, DriverErrorView>, r: Result<Vec<u16>, AssemblerError>) -> bool {
    match o {
        Ok(code) => r is Ok && r.unwrap()@ == code,
        Err(DriverErrorView::Passed(e)) => r == Err::<Vec<u16>, AssemblerError>(e),
        Err(DriverErrorView::Driver(n, msg)) => r is Err && r.unwrap_err() is Driver && r.unwrap_err()->Driver_line_number
            == Some(n) && r.unwrap_err()->Driver_message@ == msg,
        Err(DriverErrorView::CodeGen(n, ce)) => r is Err && r.unwrap_err() is CodeGen
            && r.unwrap_err()->CodeGen_line_number == n && code_agrees(
            Err(ce),
            Err(r.unwrap_err()->CodeGen_kind),
        ),
    }
}

proof fn lemma_pass1_lines_prefix(pl: Seq<Result<ParsedLine, AssemblerError>>, k: int)
    requires
        0 <= k <= pl.len(),
        pass1_lines(pl.subrange(0, k)) is Err,
    ensures
        pass1_lines(pl) == pass1_lines(pl.subrange(0, k)),
    decreases pl.len() - k,
{
    if k < pl.len() {
        assert(pl.subrange(0, k + 1).drop_last() =~= pl.subrange(0, k));
        lemma_pass1_lines_prefix(pl, k + 1);
    } else {
        assert(pl.subrange(0, k) =~= pl);
    }
}

proof fn lemma_pass2_lines_prefix(pl: Seq<Result<ParsedLine, AssemblerError>>, labels: Labels, k: int)
    requires
        0 <= k <= pl.len(),
        pass2_lines(pl.subrange(0, k), labels) is Err,
    ensures
        pass2_lines(pl, labels) == pass2_lines(pl.subrange(0, k), labels),
    decreases pl.len() - k,
{
    if k < pl.len() {
        assert(pl.subrange(0, k + 1).drop_last() =~= pl.subrange(0, k));
        lemma_pass2_lines_prefix(pl, labels, k + 1);
    } else {
        assert(pl.subrange(0, k) =~= pl);
    }
}

proof fn lemma_pass1_all_ok(pl: Seq<Result<ParsedLine, AssemblerError>>)
    requires
        pass1_lines(pl) is Ok,
    ensures
        forall|i: int| 0 <= i < pl.len() ==> (#[trigger] pl[i]) is Ok,
    decreases pl.len(),
{
    if pl.len() > 0 {
        lemma_pass1_all_ok(pl.drop_last());
        assert forall|i: int| 0 <= i < pl.len() implies (#[trigger] pl[i]) is Ok by {
            if i < pl.len() - 1 {
                assert(pl.drop_last()[i] == pl[i]);
            }
        }
    }
}

fn driver_error(n: usize, msg: &str) -> (r: AssemblerError)
    ensures
        r is Driver && r->Driver_line_number == Some(n) && r->Driver_message@ == msg@,
{
    AssemblerError::Driver { line_number: Some(n), message: String::from_str(msg) }
}

/// First pass over one parsed line: the error when the line fails.
fn pass1_line(l: &ParsedLine, labels: &mut SymbolTable, a: &mut usize, n: usize) -> (r: Option<AssemblerError>)
    requires
        *old(a) <= 0xFFFF,
    ensures
        *final(a) <= 0xFFFF,
        match line_pass1(n, Ok(*l), old(labels)@, *old(a) as int) {
            Ok((l2, a2)) => r is None && final(labels)@ == l2 && *final(a) as int == a2,
            Err(e) => r is Some && driver_agrees(Err(e), Err(r.unwrap())),
        },
{
    match l {
        ParsedLine::LabelDefinition(name) => {
            if labels.contains_key(name.as_str()) {
                let message = String::from_str("Duplicate label ").concat(name.as_str());
                return Some(AssemblerError::Driver { line_number: Some(n), message });
            }
            labels.insert(name.clone(), *a as u16);
            None
        },
        ParsedLine::Instruction(ins) => {
            match calculate_instruction_size(ins, labels) {
                Err(_) => Some(driver_error(n, "No encoding fits these operands")),
                Ok(sz) => {
                    if *a + sz as usize > 0xFFFF {
                        Some(driver_error(n, "Address past 0xFFFF"))
                    } else {
                        *a = *a + sz as usize;
                        None
                    }
                },
            }
        },
        ParsedLine::Directive { name, args } => {
            if eq_upper(name.as_str(), ".ORG") {
                if args.len() != 1 {
                    return Some(driver_error(n, ".ORG expects one even literal address"));
                }
                match &args[0] {
                    Operand::Literal(v) => {
                        if *v % 2 == 1 {
                            Some(driver_error(n, ".ORG expects one even literal address"))
                        } else {
                            *a = *v as usize;
                            None
                        }
                    },
                    _ => Some(driver_error(n, ".ORG expects one even literal address")),
                }
            } else {
                None
            }
        },
        _ => None,
    }
}

/// Second pass over one parsed line: appends its words, or reports the error.
fn pass2_line(l: &ParsedLine, labels: &SymbolTable, code: &mut Vec<u16>, a: &mut usize, n: usize, content: &String) -> (r: Option<AssemblerError>)
    requires
        *old(a) <= 0xFFFF,
    ensures
        *final(a) <= 0xFFFF,
        match line_pass2(n, Ok(*l), labels@, old(code)@, *old(a) as int) {
            Ok((c2, a2)) => r is None && final(code)@ == c2 && *final(a) as int == a2,
            Err(e) => r is Some && driver_agrees(Err(e), Err(r.unwrap())),
        },
{
    let ghost code0 = code@;
    match l {
        ParsedLine::Instruction(ins) => {
            match generate_instruction_code(ins, labels, *a as u16) {
                Err(e) => Some(AssemblerError::CodeGen { line_number: n, content: content.clone(), kind: e }),
                Ok(ws) => {
                    if *a + 2 * ws.len() > 0xFFFF {
                        return Some(driver_error(n, "Address past 0xFFFF"));
                    }
                    let mut k: usize = 0;
                    while k < ws.len()
                        invariant
                            k <= ws@.len(),
                            code@ == code0 + ws@.subrange(0, k as int),
                        decreases ws@.len() - k,
                    {
                        code.push(ws[k]);
                        k = k + 1;
                        assert(code@ =~= code0 + ws@.subrange(0, k as int));
                    }
                    assert(ws@.subrange(0, k as int) =~= ws@);
                    *a = *a + 2 * ws.len();
                    None
                },
            }
        },
        ParsedLine::Directive { name, args } => {
            if !eq_upper(name.as_str(), ".ORG") {
                return None;
            }
            if args.len() != 1 {
                return Some(driver_error(n, ".ORG expects one even literal address"));
            }
            match &args[0] {
                Operand::Literal(v) => {
                    let v = *v as usize;
                    if v % 2 == 1 {
                        return Some(driver_error(n, ".ORG expects one even literal address"));
                    }
                    if v < *a && code.len() > 0 {
                        return Some(driver_error(n, ".ORG to an earlier address"));
                    }
                    if v > *a {
                        let pad = (v - *a) / 2;
                        let mut k: usize = 0;
                        while k < pad
                            invariant
                                k <= pad,
                                code@ == code0 + Seq::new(k as nat, |j: int| 0u16),
                            decreases pad - k,
                        {
                            code.push(0);
                            k = k + 1;
                            assert(code@ =~= code0 + Seq::new(k as nat, |j: int| 0u16));
                        }
                    } else {
                        assert(code@ =~= code0);
                    }
                    *a = v;
                    None
                },
                _ => Some(driver_error(n, ".ORG expects one even literal address")),
            }
        },
        _ => None,
    }
}

/// First pass over the parsed lines: the labels, or the index of the line
/// where it stops.
fn lines_pass1(pl: &Vec<Result<ParsedLine, AssemblerError>>) -> (r: Result<SymbolTable, (usize, Option<AssemblerError>)>)
    requires
        pl@.len() < usize::MAX,
    ensures
        match r {
            Ok(t) => pass1_lines(pl@) is Ok && pass1_lines(pl@)->Ok_0.0 == t@,
            Err((i, oe)) => i < pl@.len() && pass1_lines(pl@) is Err && match oe {
                Some(e) => driver_agrees(Err(pass1_lines(pl@)->Err_0), Err(e)),
                None => pl@[i as int] is Err && pass1_lines(pl@) == Err::<(Labels, int), DriverErrorView>(
                    DriverErrorView::Passed(pl@[i as int]->Err_0),
                ),
            },
        },
{
    let ghost pls = pl@;
    let mut labels = SymbolTable::new();
    let mut a: usize = 0;
    let mut i: usize = 0;
    assert(pls.subrange(0, 0) =~= Seq::<Result<ParsedLine, AssemblerError>>::empty());
    while i < pl.len()
        invariant
            pl@ == pls,
            pls.len() < usize::MAX,
            i <= pls.len(),
            a <= 0xFFFF,
            pass1_lines(pls.subrange(0, i as int)) == Ok::<(Labels, int), DriverErrorView>((labels@, a as int)),
        decreases pls.len() - i,
    {
        let n = i + 1;
        let ghost sub = pls.subrange(0, i + 1);
        let ghost l0 = labels@;
        let ghost a0 = a as int;
        assert(sub.drop_last() =~= pls.subrange(0, i as int));
        assert(sub.last() == pls[i as int]);
        assert(pass1_lines(sub) == line_pass1(n, pls[i as int], l0, a0));
        let fail = match &pl[i] {
            Ok(l) => match pass1_line(l, &mut labels, &mut a, n) {
                Some(e) => Some(Some(e)),
                None => None,
            },
            Err(_) => Some(None),
        };
        match fail {
            Some(oe) => {
                proof {
                    lemma_pass1_lines_prefix(pls, i + 1);
                }
                return Err((i, oe));
            },
            None => {},
        }
        i = i + 1;
    }
    assert(pls.subrange(0, i as int) =~= pls);
    Ok(labels)
}

/// Second pass over the parsed lines, all of which parsed.
fn lines_pass2(pl: &Vec<Result<ParsedLine, AssemblerError>>, labels: &SymbolTable, lines: &Vec<String>) -> (r: Result<Vec<u16>, AssemblerError>)
    requires
        pl@.len() == lines@.len(),
        pl@.len() < usize::MAX,
        forall|j: int| 0 <= j < pl@.len() ==> (#[trigger] pl@[j]) is Ok,
    ensures
        match pass2_lines(pl@, labels@) {
            Ok((code, _)) => r is Ok && r.unwrap()@ == code,
            Err(e) => r is Err && driver_agrees(Err(e), r),
        },
{
    let ghost pls = pl@;
    let mut code: Vec<u16> = Vec::new();
    let mut a: usize = 0;
    let mut i: usize = 0;
    assert(pls.subrange(0, 0) =~= Seq::<Result<ParsedLine, AssemblerError>>::empty());
    while i < pl.len()
        invariant
            pl@ == pls,
            lines@.len() == pls.len(),
            pls.len() < usize::MAX,
            forall|j: int| 0 <= j < pls.len() ==> (#[trigger] pls[j]) is Ok,
            i <= pls.len(),
            a <= 0xFFFF,
            pass2_lines(pls.subrange(0, i as int), labels@) == Ok::<(Seq<u16>, int), DriverErrorView>(
                (code@, a as int),
            ),
        decreases pls.len() - i,
    {
        let n = i + 1;
        let ghost sub = pls.subrange(0, i + 1);
        assert(sub.drop_last() =~= pls.subrange(0, i as int));
        assert(sub.last() == pls[i as int]);
        assert(pass2_lines(sub, labels@) == line_pass2(n, pls[i as int], labels@, code@, a as int));
        assert(pls[i as int] is Ok);
        let fail = match &pl[i] {
            Ok(l) => pass2_line(l, labels, &mut code, &mut a, n, &lines[i]),
            Err(_) => None,
        };
        match fail {
            Some(e) => {
                proof {
                    lemma_pass2_lines_prefix(pls, labels@, i + 1);
                }
                return Err(e);
            },
            None => {},
        }
        i = i + 1;
    }
    assert(pls.subrange(0, i as int) =~= pls);
    Ok(code)
}

/// Both passes over lines already split into tokens and parsed; `lines`
/// holds each line's text for error reports.
pub fn assemble_lines(pl: Vec<Result<ParsedLine, AssemblerError>>, lines: &Vec<String>) -> (r: Result<Vec<u16>, AssemblerError>)
    requires
        pl@.len() == lines@.len(),
        pl@.len() < usize::MAX,
    ensures
        driver_agrees(driver_spec(pl@), r),
{
    let ghost pls = pl@;
    match lines_pass1(&pl) {
        Err((_, Some(e))) => Err(e),
        Err((i, None)) => {
            let mut pl = pl;
            let x = pl.swap_remove(i);
            assert(x == pls[i as int]);
            match x {
                Err(e) => Err(e),
                Ok(_) => Err(driver_error(i + 1, "")),
            }
        },
        Ok(labels) => {
            proof {
                lemma_pass1_all_ok(pls);
            }
            lines_pass2(&pl, &labels, lines)
        },
    }
}

/// The first newline at or after `p`, or the end.
pub open spec fn newline_from(s: Seq<char>, p: int) -> int
    decreases s.len() - p,
{
    if p < 0 || p >= s.len() {
        s.len() as int
    } else if s[p] == '\n' {
        p
    } else {
        newline_from(s, p + 1)
    }
}

/// The lines of `s` from `p`: split at each newline, a carriage return
/// before it dropped, and no empty line after a final newline.
pub open spec fn lines_spec(s: Seq<char>, p: int) -> Seq<Seq<char>>
    decreases s.len() - p,
{
    if p < 0 || p >= s.len() {
        Seq::empty()
    } else {
        let e = newline_from(s, p);
        if e < p || e > s.len() {
            Seq::empty()
        } else {
            let end = if e < s.len() && e > p && s[e - 1] == '\r' { e - 1 } else { e };
            if e >= s.len() {
                seq![s.subrange(p, end)]
            } else {
                seq![s.subrange(p, end)] + lines_spec(s, e + 1)
            }
        }
    }
}

proof fn lemma_newline_from(s: Seq<char>, p: int)
    requires
        0 <= p <= s.len(),
    ensures
        p <= newline_from(s, p) <= s.len(),
    decreases s.len() - p,
{
    if p < s.len() && s[p] != '\n' {
        lemma_newline_from(s, p + 1);
    }
}

/// There are no more lines than characters.
proof fn lemma_lines_len(s: Seq<char>, p: int)
    requires
        0 <= p <= s.len(),
    ensures
        lines_spec(s, p).len() <= s.len() - p,
    decreases s.len() - p,
{
    if p < s.len() {
        lemma_newline_from(s, p);
        let e = newline_from(s, p);
        if e < s.len() {
            lemma_lines_len(s, e + 1);
        }
    }
}

fn split_lines(src: &str) -> (r: Vec<String>)
    requires
        src@.len() < usize::MAX,
    ensures
        r@.map_values(|l: String| l@) == lines_spec(src@, 0),
{
    let n = src.unicode_len();
    let mut out: Vec<String> = Vec::new();
    let mut start: usize = 0;
    while start < n
        invariant
            n == src@.len() < usize::MAX,
            start <= n + 1,
            lines_spec(src@, 0) == out@.map_values(|l: String| l@) + lines_spec(src@, start as int),
        decreases n + 1 - start,
    {
        let mut e = start;
        while e < n && src.get_char(e) != '\n'
            invariant
                n == src@.len(),
                start <= e <= n,
                newline_from(src@, start as int) == newline_from(src@, e as int),
            decreases n - e,
        {
            e = e + 1;
        }
        proof {
            lemma_newline_from(src@, e as int);
        }
        let seg_end = if e < n && e > start && src.get_char(e - 1) == '\r' { e - 1 } else { e };
        let line = String::from_str(src.substring_char(start, seg_end));
        proof {
            let ov = out@.map_values(|l: String| l@);
            assert(out@.push(line).map_values(|l: String| l@) =~= ov.push(line@));
            assert(ov + (seq![line@] + lines_spec(src@, e + 1)) =~= ov.push(line@) + lines_spec(src@, e + 1));
            if e >= n {
                assert(ov + seq![line@] =~= ov.push(line@) + lines_spec(src@, e + 1));
            }
        }
        out.push(line);
        start = e + 1;
    }
    assert(out@.map_values(|l: String| l@) + Seq::<Seq<char>>::empty() =~= out@.map_values(|l: String| l@));
    out
}

/// What became of line `n` (from 1), whose text is `t`: parsed from the
/// tokens that lexing it gives, or refused by the lexer or the parser.
pub open spec fn line_outcome(t: Seq<char>, n: usize, res: Result<ParsedLine, AssemblerError>) -> bool {
    match res {
        Ok(p) => t.len() < usize::MAX - 3 && lex_spec(t, 0) is Ok && exists|toks: Seq<Token>|
            #[trigger] line_tokens_agree(lex_spec(t, 0)->Ok_0, toks) && crate::asm_parser::parse_line_spec(toks)
                == Ok::<crate::asm_parser::LineView, crate::asm_parser::ErrorView>(p@),
        Err(AssemblerError::Lexer { line_number, .. }) => line_number == n && t.len() < usize::MAX - 3 && !(
        lex_spec(t, 0) is Ok && (forall|i: int|
            0 <= i < lex_spec(t, 0)->Ok_0.len() ==> convertible(#[trigger] lex_spec(t, 0)->Ok_0[i]))),
        Err(AssemblerError::Parser { line_number, kind, .. }) => line_number == n && t.len() < usize::MAX - 3
            && lex_spec(t, 0) is Ok && exists|toks: Seq<Token>|
            #[trigger] line_tokens_agree(lex_spec(t, 0)->Ok_0, toks) && crate::asm_parser::parse_line_spec(toks)
                == Err::<crate::asm_parser::LineView, crate::asm_parser::ErrorView>(
                crate::asm_parser::error_view(kind),
            ),
        Err(AssemblerError::Driver { line_number, .. }) => line_number == Some(n) && t.len() >= usize::MAX - 3,
        _ => false,
    }
}

/// Assembles source text line by line into code words: each line is split
/// into tokens and parsed, then both passes run over the parsed lines; a line
/// that does not lex or parse fails the first pass when it reaches it.
pub fn assemble_source(source_code: &str) -> (r: Result<Vec<u16>, AssemblerError>)
    requires
        source_code@.len() < usize::MAX,
    ensures
        exists|pl: Seq<Result<ParsedLine, AssemblerError>>|
            pl.len() == lines_spec(source_code@, 0).len() && (forall|i: int|
                0 <= i < pl.len() ==> line_outcome(lines_spec(source_code@, 0)[i], (i + 1) as usize, #[trigger] pl[i]))
                && driver_agrees(#[trigger] driver_spec(pl), r),
{
    let lines = split_lines(source_code);
    let ghost lv = lines@.map_values(|l: String| l@);
    proof {
        lemma_lines_len(source_code@, 0);
    }
    let mut pl: Vec<Result<ParsedLine, AssemblerError>> = Vec::new();
    let mut i: usize = 0;
    while i < lines.len()
        invariant
            i <= lines@.len() < usize::MAX,
            lv == lines@.map_values(|l: String| l@),
            pl@.len() == i,
            forall|j: int| 0 <= j < i ==> line_outcome(lv[j], (j + 1) as usize, #[trigger] pl@[j]),
        decreases lines@.len() - i,
    {
        let line = lines[i].as_str();
        let ghost t = lv[i as int];
        assert(t == line@);
        let n = line.unicode_len();
        let parsed = if n >= usize::MAX - 3 {
            Err(AssemblerError::Driver { line_number: Some(i + 1), message: String::from_str("line too long") })
        } else {
            match tokenize_line(line) {
                Err(kind) => Err(AssemblerError::Lexer { line_number: i + 1, content: lines[i].clone(), kind }),
                Ok(tokens) => {
                    let res = parse_line(tokens.as_slice());
                    proof {
                        assert(line_tokens_agree(lex_spec(t, 0)->Ok_0, tokens@));
                    }
                    match res {
                        Err(kind) => Err(
                            AssemblerError::Parser { line_number: i + 1, content: lines[i].clone(), kind },
                        ),
                        Ok(p) => Ok(p),
                    }
                },
            }
        };
        assert(line_outcome(t, (i + 1) as usize, parsed));
        pl.push(parsed);
        i = i + 1;
    }
    let ghost g = pl@;
    let r = assemble_lines(pl, &lines);
    assert(driver_agrees(driver_spec(g), r));
    r
}

/// The line assembler over one source text.
pub struct CupanaAssembler {
    source: String,
}

impl CupanaAssembler {
    pub fn new(source: &str) -> (r: Self)
        ensures
            r.source_view() == source@,
    {
        CupanaAssembler { source: String::from_str(source) }
    }

    pub closed spec fn source_view(&self) -> Seq<char> {
        self.source@
    }

    /// Assembles the source into code words; see `assemble_source`.
    pub fn assemble(&self) -> (r: Result<Vec<u16>, AssemblerError>)
        requires
            self.source_view().len() < usize::MAX,
        ensures
            exists|pl: Seq<Result<ParsedLine, AssemblerError>>|
                pl.len() == lines_spec(self.source_view(), 0).len() && (forall|i: int|
                    0 <= i < pl.len() ==> line_outcome(
                        lines_spec(self.source_view(), 0)[i],
                        (i + 1) as usize,
                        #[trigger] pl[i],
                    )) && driver_agrees(#[trigger] driver_spec(pl), r),
    {
        assemble_source(self.source.as_str())
    }
}

} // verus!
