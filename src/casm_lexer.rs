use vstd::prelude::*;
use crate::error::AssembleError;
use crate::text::{eq_upper, upper};

verus! {

/// A token of assembler source.
#[derive(Debug, Clone, PartialEq, Eq)]
pub enum Token {
    /// A mnemonic of the instruction set, in any letter case.
    Mnemonic(String),
    /// `R<digits>`
    Register(u8),
    /// `R<digits>*`
    RegisterIndirect(u8),
    /// `$<digits>`
    DecimalLiteral(u16),
    /// `#<hex>` or `0x<hex>`
    HexLiteral(u16),
    /// `0b<bits>`
    BinaryLiteral(u16),
    /// `!name`
    Alias(String),
    /// `name:`
    Label(String),
    /// A bare name.
    Identifier(String),
    /// `.name`
    Directive(String),
    /// `"..."` (on one line)
    CharString(String),
    Newline,
    Comma,
    Colon,
}

/// A token with its names as character sequences.
pub enum TokenView {
    Mnemonic(Seq<char>),
    Register(u8),
    RegisterIndirect(u8),
    DecimalLiteral(u16),
    HexLiteral(u16),
    BinaryLiteral(u16),
    Alias(Seq<char>),
    Label(Seq<char>),
    Identifier(Seq<char>),
    Directive(Seq<char>),
    CharString(Seq<char>),
    Newline,
    Comma,
    Colon,
}

impl View for Token {
    type V = TokenView;

    open spec fn view(&self) -> TokenView {
        match self {
            Token::Mnemonic(s) => TokenView::Mnemonic(s@),
            Token::Register(r) => TokenView::Register(*r),
            Token::RegisterIndirect(r) => TokenView::RegisterIndirect(*r),
            Token::DecimalLiteral(v) => TokenView::DecimalLiteral(*v),
            Token::HexLiteral(v) => TokenView::HexLiteral(*v),
            Token::BinaryLiteral(v) => TokenView::BinaryLiteral(*v),
            Token::Alias(s) => TokenView::Alias(s@),
            Token::Label(s) => TokenView::Label(s@),
            Token::Identifier(s) => TokenView::Identifier(s@),
            Token::Directive(s) => TokenView::Directive(s@),
            Token::CharString(s) => TokenView::CharString(s@),
            Token::Newline => TokenView::Newline,
            Token::Comma => TokenView::Comma,
            Token::Colon => TokenView::Colon,
        }
    }
}

pub open spec fn is_alpha(c: char) -> bool {
    ('a' <= c && c <= 'z') || ('A' <= c && c <= 'Z')
}

pub open spec fn is_digit(c: char) -> bool {
    '0' <= c && c <= '9'
}

pub open spec fn is_ident_start(c: char) -> bool {
    is_alpha(c) || c == '_'
}

pub open spec fn is_ident_char(c: char) -> bool {
    is_alpha(c) || is_digit(c) || c == '_'
}

/// The value of `c` as a digit in `radix` (2, 10 or 16).
pub open spec fn digit_value(c: char, radix: nat) -> Option<nat> {
    let d: int = if is_digit(c) {
        c as int - '0' as int
    } else if 'a' <= c && c <= 'f' {
        c as int - 'a' as int + 10
    } else if 'A' <= c && c <= 'F' {
        c as int - 'A' as int + 10
    } else {
        99
    };
    if d < radix {
        Some(d as nat)
    } else {
        None
    }
}

pub open spec fn is_space(c: char) -> bool {
    c == ' ' || c == '\t' || c == '\r' || c == '\x0c'
}

/// The end of the run of `radix` digits from `p`.
pub open spec fn digits_end(s: Seq<char>, p: int, radix: nat) -> int
    decreases s.len() - p,
{
    if 0 <= p < s.len() && digit_value(s[p], radix) is Some {
        digits_end(s, p + 1, radix)
    } else {
        p
    }
}

/// The end of the run of identifier characters from `p`.
pub open spec fn ident_end(s: Seq<char>, p: int) -> int
    decreases s.len() - p,
{
    if 0 <= p < s.len() && is_ident_char(s[p]) {
        ident_end(s, p + 1)
    } else {
        p
    }
}

/// The end of the run of letters from `p`.
pub open spec fn alpha_end(s: Seq<char>, p: int) -> int
    decreases s.len() - p,
{
    if 0 <= p < s.len() && is_alpha(s[p]) {
        alpha_end(s, p + 1)
    } else {
        p
    }
}

/// The first position from `p` holding `stop` or a newline, or the end.
pub open spec fn until_end(s: Seq<char>, p: int, stop: char) -> int
    decreases s.len() - p,
{
    if 0 <= p < s.len() && s[p] != stop && s[p] != '\n' {
        until_end(s, p + 1, stop)
    } else {
        p
    }
}

/// The value of the digits in `s[a..b]`.
pub open spec fn value_of(s: Seq<char>, a: int, b: int, radix: nat) -> nat
    decreases b - a,
{
    if b <= a {
        0
    } else {
        value_of(s, a, b - 1, radix) * radix + digit_value(s[b - 1], radix).unwrap_or(0)
    }
}

/// The number of newlines before position `p`.
pub open spec fn newlines(s: Seq<char>, p: int) -> nat
    decreases p,
{
    if p <= 0 {
        0
    } else {
        newlines(s, p - 1) + if s[p - 1] == '\n' {
            1nat
        } else {
            0nat
        }
    }
}

/// The line (from 1) of position `p`.
pub open spec fn line_at(s: Seq<char>, p: int) -> usize {
    (newlines(s, p) + 1) as usize
}

pub open spec fn is_mnemonic(w: Seq<char>) -> bool {
    let u = upper(w);
    u == "NOP"@ || u == "HLT"@ || u == "MOV"@ || u == "PHR"@ || u == "PLR"@ || u == "ADD"@ || u == "SUB"@
        || u == "MUL"@ || u == "DIV"@ || u == "MOD"@ || u == "INC"@ || u == "DEC"@ || u == "AND"@ || u
        == "OR"@ || u == "XOR"@ || u == "NOT"@ || u == "CMP"@ || u == "JMP"@ || u == "JZ"@ || u == "JNZ"@ || u
        == "JN"@ || u == "JNN"@ || u == "JC"@ || u == "JNC"@ || u == "JSB"@ || u == "RSB"@ || u == "CLI"@ || u
        == "SEI"@ || u == "RSI"@
}

/// A literal after a prefix ending at `a`: at least one digit, at most 0xFFFF.
pub open spec fn literal_spec(s: Seq<char>, p: int, a: int, radix: nat) -> Result<(u16, int), AssembleError> {
    let e = digits_end(s, a, radix);
    if e == a {
        Err(AssembleError::InvalidCharacter(line_at(s, p)))
    } else if value_of(s, a, e, radix) > 0xFFFF {
        Err(AssembleError::InvalidLiteral(line_at(s, p)))
    } else {
        Ok((value_of(s, a, e, radix) as u16, e))
    }
}

pub open spec fn lit_token(r: Result<(u16, int), AssembleError>, kind: int) -> Result<(Option<TokenView>, int), AssembleError> {
    match r {
        Err(e) => Err(e),
        Ok((v, e)) => Ok(
            (
                Some(
                    if kind == 10 {
                        TokenView::DecimalLiteral(v)
                    } else if kind == 16 {
                        TokenView::HexLiteral(v)
                    } else {
                        TokenView::BinaryLiteral(v)
                    },
                ),
                e,
            ),
        ),
    }
}

/// A word that spells a register: `R` or `r`, then only digits.
pub open spec fn is_register_word(s: Seq<char>, p: int, e: int) -> bool {
    (s[p] == 'R' || s[p] == 'r') && e > p + 1 && digits_end(s, p + 1, 10) == e
}

/// The token that starts at `p` (`None` for blanks and comments), and the
/// position after it.
pub open spec fn next_token_spec(s: Seq<char>, p: int) -> Result<(Option<TokenView>, int), AssembleError> {
    let c = s[p];
    if is_space(c) {
        Ok((None, p + 1))
    } else if c == ';' {
        Ok((None, until_end(s, p + 1, '\n')))
    } else if c == '\n' {
        Ok((Some(TokenView::Newline), p + 1))
    } else if c == ',' {
        Ok((Some(TokenView::Comma), p + 1))
    } else if c == ':' {
        Ok((Some(TokenView::Colon), p + 1))
    } else if c == '$' {
        lit_token(literal_spec(s, p, p + 1, 10), 10)
    } else if c == '#' {
        lit_token(literal_spec(s, p, p + 1, 16), 16)
    } else if c == '0' && p + 1 < s.len() && s[p + 1] == 'x' {
        lit_token(literal_spec(s, p, p + 2, 16), 16)
    } else if c == '0' && p + 1 < s.len() && s[p + 1] == 'b' {
        lit_token(literal_spec(s, p, p + 2, 2), 2)
    } else if c == '!' {
        if p + 1 < s.len() && is_ident_start(s[p + 1]) {
            let e = ident_end(s, p + 1);
            Ok((Some(TokenView::Alias(s.subrange(p + 1, e))), e))
        } else {
            Err(AssembleError::InvalidCharacter(line_at(s, p)))
        }
    } else if c == '.' {
        let e = alpha_end(s, p + 1);
        if e == p + 1 {
            Err(AssembleError::InvalidCharacter(line_at(s, p)))
        } else {
            Ok((Some(TokenView::Directive(s.subrange(p + 1, e))), e))
        }
    } else if c == '"' {
        let e = until_end(s, p + 1, '"');
        if e >= s.len() || s[e] != '"' {
            Err(AssembleError::InvalidCharacter(line_at(s, p)))
        } else {
            Ok((Some(TokenView::CharString(s.subrange(p + 1, e))), e + 1))
        }
    } else if is_ident_start(c) {
        let e = ident_end(s, p);
        let w = s.subrange(p, e);
        if e < s.len() && s[e] == ':' {
            Ok((Some(TokenView::Label(w)), e + 1))
        } else if is_register_word(s, p, e) {
            let n = value_of(s, p + 1, e, 10);
            if n > 15 {
                Err(AssembleError::InvalidLiteral(line_at(s, p)))
            } else if e < s.len() && s[e] == '*' {
                Ok((Some(TokenView::RegisterIndirect(n as u8)), e + 1))
            } else {
                Ok((Some(TokenView::Register(n as u8)), e))
            }
        } else if is_mnemonic(w) {
            Ok((Some(TokenView::Mnemonic(w)), e))
        } else {
            Ok((Some(TokenView::Identifier(w)), e))
        }
    } else {
        Err(AssembleError::InvalidCharacter(line_at(s, p)))
    }
}

/// The tokens of `s` from position `p`.
pub open spec fn lex_spec(s: Seq<char>, p: int) -> Result<Seq<TokenView>, AssembleError>
    decreases s.len() - p,
{
    if p >= s.len() || p < 0 {
        Ok(Seq::empty())
    } else {
        let r = next_token_spec(s, p);
        if r is Err {
            Err(r->Err_0)
        } else {
            let t = r->Ok_0.0;
            let q = r->Ok_0.1;
            if q <= p || q > s.len() {
                Err(AssembleError::InvalidCharacter(0))
            } else {
                let rest = lex_spec(s, q);
                if rest is Err {
                    rest
                } else {
                    Ok(
                        match t {
                            Some(tok) => seq![tok] + rest->Ok_0,
                            None => rest->Ok_0,
                        },
                    )
                }
            }
        }
    }
}

/// Lexing from `p` gives at most one token per remaining character.
pub proof fn lemma_lex_len(s: Seq<char>, p: int)
    requires
        0 <= p <= s.len(),
    ensures
        lex_spec(s, p) is Ok ==> lex_spec(s, p)->Ok_0.len() <= s.len() - p,
    decreases s.len() - p,
{
    if p < s.len() {
        let r = next_token_spec(s, p);
        if r is Ok {
            let q = r->Ok_0.1;
            if p < q <= s.len() {
                lemma_lex_len(s, q);
            }
        }
    }
}

proof fn lemma_value_grows(s: Seq<char>, a: int, i: int, e: int, radix: nat)
    requires
        a <= i <= e,
        radix >= 1,
    ensures
        value_of(s, a, i, radix) <= value_of(s, a, e, radix),
    decreases e - i,
{
    if i < e {
        lemma_value_grows(s, a, i, e - 1, radix);
        assert(value_of(s, a, e - 1, radix) * radix >= value_of(s, a, e - 1, radix)) by (nonlinear_arith)
            requires
                radix >= 1,
        ;
    }
}

fn digit_value_exec(c: char, radix: u32) -> (r: Option<u32>)
    requires
        radix == 2 || radix == 10 || radix == 16,
    ensures
        r is Some <==> digit_value(c, radix as nat) is Some,
        r is Some ==> r.unwrap() == digit_value(c, radix as nat).unwrap(),
{
    let d: u32 = if '0' <= c && c <= '9' {
        (c as u32) - ('0' as u32)
    } else if 'a' <= c && c <= 'f' {
        (c as u32) - ('a' as u32) + 10
    } else if 'A' <= c && c <= 'F' {
        (c as u32) - ('A' as u32) + 10
    } else {
        99
    };
    if d < radix {
        Some(d)
    } else {
        None
    }
}

fn scan_digits(s: &Vec<char>, p: usize, radix: u32) -> (e: usize)
    requires
        p <= s@.len(),
        radix == 2 || radix == 10 || radix == 16,
    ensures
        e == digits_end(s@, p as int, radix as nat),
        p <= e <= s@.len(),
{
    let mut i = p;
    while i < s.len() && digit_value_exec(s[i], radix).is_some()
        invariant
            p <= i <= s@.len(),
            radix == 2 || radix == 10 || radix == 16,
            digits_end(s@, p as int, radix as nat) == digits_end(s@, i as int, radix as nat),
        decreases s@.len() - i,
    {
        i = i + 1;
    }
    i
}

fn scan_ident(s: &Vec<char>, p: usize) -> (e: usize)
    requires
        p <= s@.len(),
    ensures
        e == ident_end(s@, p as int),
        p <= e <= s@.len(),
{
    let mut i = p;
    while i < s.len() && (('a' <= s[i] && s[i] <= 'z') || ('A' <= s[i] && s[i] <= 'Z') || ('0' <= s[i] && s[i]
        <= '9') || s[i] == '_')
        invariant
            p <= i <= s@.len(),
            ident_end(s@, p as int) == ident_end(s@, i as int),
        decreases s@.len() - i,
    {
        i = i + 1;
    }
    i
}

fn scan_alpha(s: &Vec<char>, p: usize) -> (e: usize)
    requires
        p <= s@.len(),
    ensures
        e == alpha_end(s@, p as int),
        p <= e <= s@.len(),
{
    let mut i = p;
    while i < s.len() && (('a' <= s[i] && s[i] <= 'z') || ('A' <= s[i] && s[i] <= 'Z'))
        invariant
            p <= i <= s@.len(),
            alpha_end(s@, p as int) == alpha_end(s@, i as int),
        decreases s@.len() - i,
    {
        i = i + 1;
    }
    i
}

fn scan_until(s: &Vec<char>, p: usize, stop: char) -> (e: usize)
    requires
        p <= s@.len(),
    ensures
        e == until_end(s@, p as int, stop),
        p <= e <= s@.len(),
{
    let mut i = p;
    while i < s.len() && s[i] != stop && s[i] != '\n'
        invariant
            p <= i <= s@.len(),
            until_end(s@, p as int, stop) == until_end(s@, i as int, stop),
        decreases s@.len() - i,
    {
        i = i + 1;
    }
    i
}

/// The value of the digits `s[a..e]`, or `None` when it exceeds 0xFFFF.
fn read_value(s: &Vec<char>, a: usize, e: usize, radix: u32) -> (r: Option<u16>)
    requires
        a <= e <= s@.len(),
        radix == 2 || radix == 10 || radix == 16,
    ensures
        r is Some <==> value_of(s@, a as int, e as int, radix as nat) <= 0xFFFF,
        r is Some ==> r.unwrap() == value_of(s@, a as int, e as int, radix as nat),
{
    let mut v: u32 = 0;
    let mut i = a;
    while i < e
        invariant
            a <= i <= e <= s@.len(),
            radix == 2 || radix == 10 || radix == 16,
            v == value_of(s@, a as int, i as int, radix as nat),
            v <= 0xFFFF,
        decreases e - i,
    {
        let d = match digit_value_exec(s[i], radix) {
            Some(d) => d,
            None => 0,
        };
        assert(v * radix + d <= 0xFFFF * 16 + 99) by (nonlinear_arith)
            requires
                v <= 0xFFFF,
                radix <= 16,
                d <= 99,
        ;
        v = v * radix + d;
        i = i + 1;
        if v > 0xFFFF {
            proof {
                lemma_value_grows(s@, a as int, i as int, e as int, radix as nat);
            }
            return None;
        }
    }
    Some(v as u16)
}

fn line_of(s: &Vec<char>, p: usize) -> (r: usize)
    requires
        p <= s@.len() < usize::MAX,
    ensures
        r == line_at(s@, p as int),
{
    let mut n: usize = 0;
    let mut i: usize = 0;
    while i < p
        invariant
            i <= p <= s@.len() < usize::MAX,
            n == newlines(s@, i as int),
            n <= i,
        decreases p - i,
    {
        if s[i] == '\n' {
            n = n + 1;
        }
        i = i + 1;
    }
    n + 1
}

fn literal_exec(s: &Vec<char>, p: usize, a: usize, radix: u32) -> (r: Result<(u16, usize), AssembleError>)
    requires
        p < a <= s@.len() < usize::MAX,
        radix == 2 || radix == 10 || radix == 16,
    ensures
        match r {
            Ok((v, e)) => literal_spec(s@, p as int, a as int, radix as nat) == Ok::<(u16, int), AssembleError>(
                (v, e as int),
            ) && a < e <= s@.len(),
            Err(x) => literal_spec(s@, p as int, a as int, radix as nat) == Err::<(u16, int), AssembleError>(x),
        },
{
    let e = scan_digits(s, a, radix);
    if e == a {
        return Err(AssembleError::InvalidCharacter(line_of(s, p)));
    }
    match read_value(s, a, e, radix) {
        Some(v) => Ok((v, e)),
        None => Err(AssembleError::InvalidLiteral(line_of(s, p))),
    }
}

fn is_mnemonic_exec(w: &str) -> (r: bool)
    ensures
        r == is_mnemonic(w@),
{
    eq_upper(w, "NOP") || eq_upper(w, "HLT") || eq_upper(w, "MOV") || eq_upper(w, "PHR") || eq_upper(w, "PLR")
        || eq_upper(w, "ADD") || eq_upper(w, "SUB") || eq_upper(w, "MUL") || eq_upper(w, "DIV") || eq_upper(
        w,
        "MOD",
    ) || eq_upper(w, "INC") || eq_upper(w, "DEC") || eq_upper(w, "AND") || eq_upper(w, "OR") || eq_upper(w, "XOR")
        || eq_upper(w, "NOT") || eq_upper(w, "CMP") || eq_upper(w, "JMP") || eq_upper(w, "JZ") || eq_upper(
        w,
        "JNZ",
    ) || eq_upper(w, "JN") || eq_upper(w, "JNN") || eq_upper(w, "JC") || eq_upper(w, "JNC") || eq_upper(w, "JSB")
        || eq_upper(w, "RSB") || eq_upper(w, "CLI") || eq_upper(w, "SEI") || eq_upper(w, "RSI")
}

fn text_of(src: &str, a: usize, e: usize) -> (r: String)
    requires
        a <= e <= src@.len(),
    ensures
        r@ == src@.subrange(a as int, e as int),
{
    String::from_str(src.substring_char(a, e))
}

fn next_token(src: &str, s: &Vec<char>, p: usize) -> (r: Result<(Option<Token>, usize), AssembleError>)
    requires
        s@ == src@,
        p < s@.len() < usize::MAX,
    ensures
        match r {
            Ok((t, q)) => next_token_spec(s@, p as int) == Ok::<(Option<TokenView>, int), AssembleError>(
                (
                    match t {
                        Some(tok) => Some(tok@),
                        None => None,
                    },
                    q as int,
                ),
            ) && p < q <= s@.len(),
            Err(x) => next_token_spec(s@, p as int) == Err::<(Option<TokenView>, int), AssembleError>(x),
        },
{
    let c = s[p];
    if c == ' ' || c == '\t' || c == '\r' || c == '\x0c' {
        Ok((None, p + 1))
    } else if c == ';' {
        let e = scan_until(s, p + 1, '\n');
        Ok((None, e))
    } else if c == '\n' {
        Ok((Some(Token::Newline), p + 1))
    } else if c == ',' {
        Ok((Some(Token::Comma), p + 1))
    } else if c == ':' {
        Ok((Some(Token::Colon), p + 1))
    } else if c == '$' {
        let (v, e) = literal_exec(s, p, p + 1, 10)?;
        Ok((Some(Token::DecimalLiteral(v)), e))
    } else if c == '#' {
        let (v, e) = literal_exec(s, p, p + 1, 16)?;
        Ok((Some(Token::HexLiteral(v)), e))
    } else if c == '0' && p + 1 < s.len() && s[p + 1] == 'x' {
        let (v, e) = literal_exec(s, p, p + 2, 16)?;
        Ok((Some(Token::HexLiteral(v)), e))
    } else if c == '0' && p + 1 < s.len() && s[p + 1] == 'b' {
        let (v, e) = literal_exec(s, p, p + 2, 2)?;
        Ok((Some(Token::BinaryLiteral(v)), e))
    } else if c == '!' {
        if p + 1 < s.len() && (('a' <= s[p + 1] && s[p + 1] <= 'z') || ('A' <= s[p + 1] && s[p + 1] <= 'Z') || s[p
            + 1] == '_') {
            let e = scan_ident(s, p + 1);
            Ok((Some(Token::Alias(text_of(src, p + 1, e))), e))
        } else {
            Err(AssembleError::InvalidCharacter(line_of(s, p)))
        }
    } else if c == '.' {
        let e = scan_alpha(s, p + 1);
        if e == p + 1 {
            Err(AssembleError::InvalidCharacter(line_of(s, p)))
        } else {
            Ok((Some(Token::Directive(text_of(src, p + 1, e))), e))
        }
    } else if c == '"' {
        let e = scan_until(s, p + 1, '"');
        if e >= s.len() || s[e] != '"' {
            Err(AssembleError::InvalidCharacter(line_of(s, p)))
        } else {
            Ok((Some(Token::CharString(text_of(src, p + 1, e))), e + 1))
        }
    } else if ('a' <= c && c <= 'z') || ('A' <= c && c <= 'Z') || c == '_' {
        let e = scan_ident(s, p + 1);
        assert(ident_end(s@, p as int) == ident_end(s@, p + 1));
        if e < s.len() && s[e] == ':' {
            return Ok((Some(Token::Label(text_of(src, p, e))), e + 1));
        }
        if (c == 'R' || c == 'r') && e > p + 1 && scan_digits(s, p + 1, 10) == e {
            let n = match read_value(s, p + 1, e, 10) {
                Some(n) => n,
                None => 0xFFFF,
            };
            if n > 15 {
                return Err(AssembleError::InvalidLiteral(line_of(s, p)));
            }
            if e < s.len() && s[e] == '*' {
                return Ok((Some(Token::RegisterIndirect(n as u8)), e + 1));
            }
            return Ok((Some(Token::Register(n as u8)), e));
        }
        let w = src.substring_char(p, e);
        if is_mnemonic_exec(w) {
            Ok((Some(Token::Mnemonic(String::from_str(w))), e))
        } else {
            Ok((Some(Token::Identifier(String::from_str(w))), e))
        }
    } else {
        Err(AssembleError::InvalidCharacter(line_of(s, p)))
    }
}

/// The tokens of `src`; blanks and `;` comments are skipped, newlines kept.
pub fn tokenize(src: &str) -> (r: Result<Vec<Token>, AssembleError>)
    requires
        src@.len() < usize::MAX,
    ensures
        match r {
            Ok(v) => lex_spec(src@, 0) == Ok::<Seq<TokenView>, AssembleError>(v@.map_values(|t: Token| t@)),
            Err(x) => lex_spec(src@, 0) == Err::<Seq<TokenView>, AssembleError>(x),
        },
{
    let n = src.unicode_len();
    let mut s: Vec<char> = Vec::new();
    let mut i: usize = 0;
    while i < n
        invariant
            n == src@.len(),
            i <= n,
            s@ == src@.subrange(0, i as int),
        decreases n - i,
    {
        s.push(src.get_char(i));
        i = i + 1;
        assert(s@ =~= src@.subrange(0, i as int));
    }
    assert(s@ =~= src@);
    let mut out: Vec<Token> = Vec::new();
    let mut p: usize = 0;
    while p < n
        invariant
            n == s@.len() < usize::MAX,
            s@ == src@,
            p <= n,
            lex_spec(s@, 0) == match lex_spec(s@, p as int) {
                Ok(rest) => Ok(out@.map_values(|t: Token| t@) + rest),
                Err(x) => Err(x),
            },
        decreases n - p,
    {
        let (t, q) = next_token(src, &s, p)?;
        match t {
            Some(tok) => {
                proof {
                    let ov = out@.map_values(|t: Token| t@);
                    let ov2 = out@.push(tok).map_values(|t: Token| t@);
                    assert(ov2 =~= ov.push(tok@));
                    match lex_spec(s@, q as int) {
                        Ok(rest) => {
                            assert(ov + (seq![tok@] + rest) =~= ov2 + rest);
                        },
                        Err(_) => {},
                    }
                }
                out.push(tok);
            },
            None => {},
        }
        p = q;
    }
    assert(out@.map_values(|t: Token| t@) + Seq::<TokenView>::empty() =~= out@.map_values(|t: Token| t@));
    Ok(out)
}

} // verus!
