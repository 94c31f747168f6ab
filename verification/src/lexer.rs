use vstd::prelude::*;

use crate::strutil::{chars_to_string, str_eq};
use crate::types::Operator;

verus! {

/// A lexical token. Integer literals are held unsigned and widest and are
/// narrowed later, during type checking; floating literals keep their
/// source spelling.
#[derive(Debug, PartialEq)]
pub enum Token {
    Fn,
    Let,
    Extern,
    If,
    Else,
    For,
    Struct,
    Ident(String),
    Int(u64),
    FloatLit(String),
    CharLit(char),
    BoolLit(bool),
    Op(Operator),
    OpenParen,
    CloseParen,
    OpenBrace,
    CloseBrace,
    OpenBracket,
    CloseBracket,
    Comma,
    Semicolon,
    Colon,
}

/// What can go wrong while scanning: a malformed numeric literal, a
/// character no token can start with, or an unclosed character literal.
#[derive(Debug, PartialEq, Eq, Structural, Clone, Copy)]
pub enum LexError {
    InvalidNum,
    UnknownChar,
    UnterminatedChar,
}

/// The mathematical shape of a token.
pub enum TokenV {
    Fn,
    Let,
    Extern,
    If,
    Else,
    For,
    Struct,
    Ident(Seq<char>),
    Int(u64),
    FloatLit(Seq<char>),
    CharLit(char),
    BoolLit(bool),
    Op(Operator),
    OpenParen,
    CloseParen,
    OpenBrace,
    CloseBrace,
    OpenBracket,
    CloseBracket,
    Comma,
    Semicolon,
    Colon,
}

pub open spec fn tok_view(t: Token) -> TokenV {
    match t {
        Token::Fn => TokenV::Fn,
        Token::Let => TokenV::Let,
        Token::Extern => TokenV::Extern,
        Token::If => TokenV::If,
        Token::Else => TokenV::Else,
        Token::For => TokenV::For,
        Token::Struct => TokenV::Struct,
        Token::Ident(s) => TokenV::Ident(s@),
        Token::Int(v) => TokenV::Int(v),
        Token::FloatLit(s) => TokenV::FloatLit(s@),
        Token::CharLit(c) => TokenV::CharLit(c),
        Token::BoolLit(b) => TokenV::BoolLit(b),
        Token::Op(o) => TokenV::Op(o),
        Token::OpenParen => TokenV::OpenParen,
        Token::CloseParen => TokenV::CloseParen,
        Token::OpenBrace => TokenV::OpenBrace,
        Token::CloseBrace => TokenV::CloseBrace,
        Token::OpenBracket => TokenV::OpenBracket,
        Token::CloseBracket => TokenV::CloseBracket,
        Token::Comma => TokenV::Comma,
        Token::Semicolon => TokenV::Semicolon,
        Token::Colon => TokenV::Colon,
    }
}

impl View for Token {
    type V = TokenV;

    open spec fn view(&self) -> TokenV {
        tok_view(*self)
    }
}

pub open spec fn toks_view(s: Seq<Token>) -> Seq<TokenV> {
    Seq::new(s.len(), |i: int| tok_view(s[i]))
}

pub open spec fn is_ws(c: char) -> bool {
    c == ' ' || c == '\t' || c == '\r' || c == '\n'
}

pub open spec fn is_digit(c: char) -> bool {
    '0' <= c && c <= '9'
}

pub open spec fn is_alpha(c: char) -> bool {
    ('a' <= c && c <= 'z') || ('A' <= c && c <= 'Z') || c == '_'
}

pub open spec fn is_alnum(c: char) -> bool {
    is_alpha(c) || is_digit(c)
}

pub open spec fn digit_of(c: char) -> nat {
    (c as nat - '0' as nat) as nat
}

/// The token an identifier run spells: a reserved word, a boolean
/// literal, or a plain identifier.
pub open spec fn word_token(acc: Seq<char>) -> TokenV {
    if acc == "fn"@ {
        TokenV::Fn
    } else if acc == "let"@ {
        TokenV::Let
    } else if acc == "extern"@ {
        TokenV::Extern
    } else if acc == "if"@ {
        TokenV::If
    } else if acc == "else"@ {
        TokenV::Else
    } else if acc == "for"@ {
        TokenV::For
    } else if acc == "struct"@ {
        TokenV::Struct
    } else if acc == "true"@ {
        TokenV::BoolLit(true)
    } else if acc == "false"@ {
        TokenV::BoolLit(false)
    } else {
        TokenV::Ident(acc)
    }
}

/// The escape a backslash introduces inside a character literal.
pub open spec fn escape_of(c: char) -> Option<char> {
    if c == 'n' {
        Some('\n')
    } else if c == 't' {
        Some('\t')
    } else if c == '\\' {
        Some('\\')
    } else if c == '\'' {
        Some('\'')
    } else if c == '0' {
        Some('\0')
    } else {
        None
    }
}

/// The two-character operators, longest match first.
pub open spec fn two_char_op(a: char, b: char) -> Option<Operator> {
    if a == '&' && b == '&' {
        Some(Operator::And)
    } else if a == '|' && b == '|' {
        Some(Operator::Or)
    } else if a == '=' && b == '=' {
        Some(Operator::Eq)
    } else if a == '!' && b == '=' {
        Some(Operator::NotEq)
    } else if a == '<' && b == '=' {
        Some(Operator::LtEq)
    } else if a == '>' && b == '=' {
        Some(Operator::GtEq)
    } else if a == '+' && b == '=' {
        Some(Operator::AddEq)
    } else if a == '-' && b == '=' {
        Some(Operator::SubEq)
    } else if a == '*' && b == '=' {
        Some(Operator::MulEq)
    } else if a == '/' && b == '=' {
        Some(Operator::DivEq)
    } else if a == '*' && b == '*' {
        Some(Operator::Pow)
    } else if a == '-' && b == '>' {
        Some(Operator::RetType)
    } else if a == '+' && b == '+' {
        Some(Operator::Inc)
    } else if a == '-' && b == '-' {
        Some(Operator::Dec)
    } else {
        None
    }
}

pub open spec fn one_char_op(a: char) -> Option<Operator> {
    if a == '+' {
        Some(Operator::Add)
    } else if a == '-' {
        Some(Operator::Sub)
    } else if a == '*' {
        Some(Operator::Mul)
    } else if a == '/' {
        Some(Operator::Div)
    } else if a == '<' {
        Some(Operator::Lt)
    } else if a == '>' {
        Some(Operator::Gt)
    } else if a == '=' {
        Some(Operator::Assign)
    } else if a == '!' {
        Some(Operator::Not)
    } else if a == '&' {
        Some(Operator::BitAnd)
    } else if a == '|' {
        Some(Operator::BitOr)
    } else if a == '^' {
        Some(Operator::BitXor)
    } else {
        None
    }
}

pub open spec fn punct_token(a: char) -> Option<TokenV> {
    if a == '(' {
        Some(TokenV::OpenParen)
    } else if a == ')' {
        Some(TokenV::CloseParen)
    } else if a == '{' {
        Some(TokenV::OpenBrace)
    } else if a == '}' {
        Some(TokenV::CloseBrace)
    } else if a == '[' {
        Some(TokenV::OpenBracket)
    } else if a == ']' {
        Some(TokenV::CloseBracket)
    } else if a == ',' {
        Some(TokenV::Comma)
    } else if a == ';' {
        Some(TokenV::Semicolon)
    } else if a == ':' {
        Some(TokenV::Colon)
    } else {
        None
    }
}

/// The tokenizer, stated as a function: the tokens of `s` from position
/// `i` on, or the first failure. Whitespace and line comments are
/// consumed silently; identifier and numeric runs are scanned by the
/// helper functions that carry their accumulators.
pub open spec fn lex_from(s: Seq<char>, i: int) -> Result<Seq<TokenV>, LexError>
    decreases s.len() - i, 0nat,
{
    if i < 0 || i >= s.len() {
        Ok(Seq::empty())
    } else if is_ws(s[i]) {
        lex_from(s, i + 1)
    } else if s[i] == '/' && i + 1 < s.len() && s[i + 1] == '/' {
        lex_comment(s, i + 2)
    } else if is_alpha(s[i]) {
        lex_word(s, i + 1, seq![s[i]])
    } else if is_digit(s[i]) {
        lex_num(s, i + 1, seq![s[i]], digit_of(s[i]), false)
    } else if s[i] == '\'' {
        if i + 1 >= s.len() {
            Err(LexError::UnterminatedChar)
        } else if s[i + 1] == '\\' {
            if i + 3 >= s.len() {
                Err(LexError::UnterminatedChar)
            } else {
                match escape_of(s[i + 2]) {
                    Some(c) => {
                        if s[i + 3] == '\'' {
                            cons(TokenV::CharLit(c), lex_from(s, i + 4))
                        } else {
                            Err(LexError::UnterminatedChar)
                        }
                    },
                    None => Err(LexError::UnknownChar),
                }
            }
        } else if i + 2 >= s.len() {
            Err(LexError::UnterminatedChar)
        } else if s[i + 2] == '\'' {
            cons(TokenV::CharLit(s[i + 1]), lex_from(s, i + 3))
        } else {
            Err(LexError::UnterminatedChar)
        }
    } else if i + 1 < s.len() && two_char_op(s[i], s[i + 1]) is Some {
        cons(TokenV::Op(two_char_op(s[i], s[i + 1])->0), lex_from(s, i + 2))
    } else if one_char_op(s[i]) is Some {
        cons(TokenV::Op(one_char_op(s[i])->0), lex_from(s, i + 1))
    } else if punct_token(s[i]) is Some {
        cons(punct_token(s[i])->0, lex_from(s, i + 1))
    } else {
        Err(LexError::UnknownChar)
    }
}

pub open spec fn cons(t: TokenV, rest: Result<Seq<TokenV>, LexError>) -> Result<
    Seq<TokenV>,
    LexError,
> {
    match rest {
        Ok(ts) => Ok(seq![t] + ts),
        Err(e) => Err(e),
    }
}

/// A line comment runs to the end of the line, or of the input.
pub open spec fn lex_comment(s: Seq<char>, i: int) -> Result<Seq<TokenV>, LexError>
    decreases s.len() - i, 1nat,
{
    if i < 0 || i >= s.len() {
        Ok(Seq::empty())
    } else if s[i] == '\n' {
        lex_from(s, i + 1)
    } else {
        lex_comment(s, i + 1)
    }
}

/// An identifier run: letters, digits and underscores; the spelled word
/// becomes a keyword, a boolean literal, or an identifier.
pub open spec fn lex_word(s: Seq<char>, i: int, acc: Seq<char>) -> Result<Seq<TokenV>, LexError>
    decreases s.len() - i, 1nat,
{
    if 0 <= i < s.len() && is_alnum(s[i]) {
        lex_word(s, i + 1, acc.push(s[i]))
    } else {
        cons(word_token(acc), lex_from(s, i))
    }
}

/// A numeric run: digits, at most one point. A letter or an underscore
/// directly against the run, or a value beyond the widest unsigned width,
/// is a malformed number.
pub open spec fn lex_num(s: Seq<char>, i: int, text: Seq<char>, val: nat, isfloat: bool) -> Result<
    Seq<TokenV>,
    LexError,
>
    decreases s.len() - i, 1nat,
{
    if 0 <= i < s.len() && is_digit(s[i]) {
        lex_num(s, i + 1, text.push(s[i]), val * 10 + digit_of(s[i]), isfloat)
    } else if 0 <= i < s.len() && s[i] == '.' && !isfloat {
        lex_num(s, i + 1, text.push('.'), val, true)
    } else if 0 <= i < s.len() && is_alpha(s[i]) {
        Err(LexError::InvalidNum)
    } else if isfloat {
        cons(TokenV::FloatLit(text), lex_from(s, i))
    } else if val > u64::MAX as nat {
        Err(LexError::InvalidNum)
    } else {
        cons(TokenV::Int(val as u64), lex_from(s, i))
    }
}

} // verus!
use vstd::prelude::*;

verus! {

fn escape_exec(c: char) -> (r: Option<char>)
    ensures
        r == escape_of(c),
{
    if c == 'n' {
        Some('\n')
    } else if c == 't' {
        Some('\t')
    } else if c == '\\' {
        Some('\\')
    } else if c == '\'' {
        Some('\'')
    } else if c == '0' {
        Some('\0')
    } else {
        None
    }
}

fn two_char_op_exec(a: char, b: char) -> (r: Option<Operator>)
    ensures
        r == two_char_op(a, b),
{
    if a == '&' && b == '&' {
        Some(Operator::And)
    } else if a == '|' && b == '|' {
        Some(Operator::Or)
    } else if a == '=' && b == '=' {
        Some(Operator::Eq)
    } else if a == '!' && b == '=' {
        Some(Operator::NotEq)
    } else if a == '<' && b == '=' {
        Some(Operator::LtEq)
    } else if a == '>' && b == '=' {
        Some(Operator::GtEq)
    } else if a == '+' && b == '=' {
        Some(Operator::AddEq)
    } else if a == '-' && b == '=' {
        Some(Operator::SubEq)
    } else if a == '*' && b == '=' {
        Some(Operator::MulEq)
    } else if a == '/' && b == '=' {
        Some(Operator::DivEq)
    } else if a == '*' && b == '*' {
        Some(Operator::Pow)
    } else if a == '-' && b == '>' {
        Some(Operator::RetType)
    } else if a == '+' && b == '+' {
        Some(Operator::Inc)
    } else if a == '-' && b == '-' {
        Some(Operator::Dec)
    } else {
        None
    }
}

fn one_char_op_exec(a: char) -> (r: Option<Operator>)
    ensures
        r == one_char_op(a),
{
    if a == '+' {
        Some(Operator::Add)
    } else if a == '-' {
        Some(Operator::Sub)
    } else if a == '*' {
        Some(Operator::Mul)
    } else if a == '/' {
        Some(Operator::Div)
    } else if a == '<' {
        Some(Operator::Lt)
    } else if a == '>' {
        Some(Operator::Gt)
    } else if a == '=' {
        Some(Operator::Assign)
    } else if a == '!' {
        Some(Operator::Not)
    } else if a == '&' {
        Some(Operator::BitAnd)
    } else if a == '|' {
        Some(Operator::BitOr)
    } else if a == '^' {
        Some(Operator::BitXor)
    } else {
        None
    }
}

fn punct_exec(a: char) -> (r: Option<Token>)
    ensures
        match punct_token(a) {
            Some(tv) => r matches Some(t) && t@ == tv,
            None => r is None,
        },
{
    if a == '(' {
        Some(Token::OpenParen)
    } else if a == ')' {
        Some(Token::CloseParen)
    } else if a == '{' {
        Some(Token::OpenBrace)
    } else if a == '}' {
        Some(Token::CloseBrace)
    } else if a == '[' {
        Some(Token::OpenBracket)
    } else if a == ']' {
        Some(Token::CloseBracket)
    } else if a == ',' {
        Some(Token::Comma)
    } else if a == ';' {
        Some(Token::Semicolon)
    } else if a == ':' {
        Some(Token::Colon)
    } else {
        None
    }
}

fn is_ws_exec(c: char) -> (r: bool)
    ensures
        r == is_ws(c),
{
    c == ' ' || c == '\t' || c == '\r' || c == '\n'
}

fn is_digit_exec(c: char) -> (r: bool)
    ensures
        r == is_digit(c),
{
    '0' <= c && c <= '9'
}

fn is_alpha_exec(c: char) -> (r: bool)
    ensures
        r == is_alpha(c),
{
    ('a' <= c && c <= 'z') || ('A' <= c && c <= 'Z') || c == '_'
}

/// Prepends a token to a scanned tail, mirroring `cons`.
fn cons_exec(t: Token, rest: Vec<Token>) -> (r: Vec<Token>)
    ensures
        toks_view(r@) =~= seq![t@] + toks_view(rest@),
{
    let mut rest = rest;
    rest.insert(0, t);
    proof {
        assert forall|k: int| 0 <= k < rest@.len() implies toks_view(rest@)[k] == (seq![t@]
            + toks_view(rest@.drop_first()))[k] by {
            if k > 0 {
                assert(rest@[k] == rest@.drop_first()[k - 1]);
            }
        }
        assert(toks_view(rest@) =~= seq![t@] + toks_view(rest@.drop_first()));
    }
    rest
}

/// What scanning promises: exactly the tokenizer `lex_from`.
pub open spec fn scan_post(
    s: Seq<char>,
    i: int,
    r: Result<Vec<Token>, LexError>,
    spec_r: Result<Seq<TokenV>, LexError>,
) -> bool {
    match spec_r {
        Ok(ts) => r matches Ok(v) && toks_view(v@) == ts,
        Err(e) => r == Err::<Vec<Token>, LexError>(e),
    }
}

fn scan_from(s: &Vec<char>, i: usize) -> (r: Result<Vec<Token>, LexError>)
    requires
        i <= s@.len(),
    ensures
        scan_post(s@, i as int, r, lex_from(s@, i as int)),
    decreases s@.len() - i, 0nat,
{
    if i >= s.len() {
        let v: Vec<Token> = Vec::new();
        proof {
            assert(toks_view(v@) =~= Seq::<TokenV>::empty());
        }
        return Ok(v);
    }
    let c = s[i];
    if is_ws_exec(c) {
        scan_from(s, i + 1)
    } else if c == '/' && i + 1 < s.len() && s[i + 1] == '/' {
        scan_comment(s, i + 2)
    } else if is_alpha_exec(c) {
        let mut acc: Vec<char> = Vec::new();
        acc.push(c);
        proof {
            assert(acc@ =~= seq![s@[i as int]]);
        }
        scan_word(s, i + 1, acc)
    } else if is_digit_exec(c) {
        let d = (c as u32 - '0' as u32) as u64;
        let mut text: Vec<char> = Vec::new();
        text.push(c);
        proof {
            assert(text@ =~= seq![s@[i as int]]);
            assert(d as nat == digit_of(s@[i as int]));
        }
        scan_num(s, i + 1, text, d, false, false, Ghost(d as nat))
    } else if c == '\'' {
        if s.len() - i <= 1 {
            Err(LexError::UnterminatedChar)
        } else if s[i + 1] == '\\' {
            if s.len() - i <= 3 {
                Err(LexError::UnterminatedChar)
            } else {
                match escape_exec(s[i + 2]) {
                    Some(e) => {
                        if s[i + 3] == '\'' {
                            match scan_from(s, i + 4) {
                                Ok(rest) => Ok(cons_exec(Token::CharLit(e), rest)),
                                Err(er) => Err(er),
                            }
                        } else {
                            Err(LexError::UnterminatedChar)
                        }
                    },
                    None => Err(LexError::UnknownChar),
                }
            }
        } else if s.len() - i <= 2 {
            Err(LexError::UnterminatedChar)
        } else if s[i + 2] == '\'' {
            match scan_from(s, i + 3) {
                Ok(rest) => Ok(cons_exec(Token::CharLit(s[i + 1]), rest)),
                Err(er) => Err(er),
            }
        } else {
            Err(LexError::UnterminatedChar)
        }
    } else {
        let two = if i + 1 < s.len() {
            two_char_op_exec(c, s[i + 1])
        } else {
            None
        };
        match two {
            Some(op) => match scan_from(s, i + 2) {
                Ok(rest) => Ok(cons_exec(Token::Op(op), rest)),
                Err(er) => Err(er),
            },
            None => match one_char_op_exec(c) {
                Some(op) => match scan_from(s, i + 1) {
                    Ok(rest) => Ok(cons_exec(Token::Op(op), rest)),
                    Err(er) => Err(er),
                },
                None => match punct_exec(c) {
                    Some(t) => match scan_from(s, i + 1) {
                        Ok(rest) => Ok(cons_exec(t, rest)),
                        Err(er) => Err(er),
                    },
                    None => Err(LexError::UnknownChar),
                },
            },
        }
    }
}

fn scan_comment(s: &Vec<char>, i: usize) -> (r: Result<Vec<Token>, LexError>)
    requires
        i <= s@.len() + 2,
    ensures
        scan_post(s@, i as int, r, lex_comment(s@, i as int)),
    decreases s@.len() - i, 1nat,
{
    if i >= s.len() {
        let v: Vec<Token> = Vec::new();
        proof {
            assert(toks_view(v@) =~= Seq::<TokenV>::empty());
        }
        return Ok(v);
    }
    if s[i] == '\n' {
        scan_from(s, i + 1)
    } else {
        scan_comment(s, i + 1)
    }
}

fn scan_word(s: &Vec<char>, i: usize, acc: Vec<char>) -> (r: Result<Vec<Token>, LexError>)
    requires
        i <= s@.len(),
    ensures
        scan_post(s@, i as int, r, lex_word(s@, i as int, acc@)),
    decreases s@.len() - i, 1nat,
{
    if i < s.len() && (is_alpha_exec(s[i]) || is_digit_exec(s[i])) {
        let mut acc = acc;
        let ghost accv = acc@;
        acc.push(s[i]);
        proof {
            assert(acc@ =~= accv.push(s@[i as int]));
        }
        return scan_word(s, i + 1, acc);
    }
    let word = chars_to_string(&acc);
    let tok: Token = if str_eq(word.as_str(), "fn") {
        Token::Fn
    } else if str_eq(word.as_str(), "let") {
        Token::Let
    } else if str_eq(word.as_str(), "extern") {
        Token::Extern
    } else if str_eq(word.as_str(), "if") {
        Token::If
    } else if str_eq(word.as_str(), "else") {
        Token::Else
    } else if str_eq(word.as_str(), "for") {
        Token::For
    } else if str_eq(word.as_str(), "struct") {
        Token::Struct
    } else if str_eq(word.as_str(), "true") {
        Token::BoolLit(true)
    } else if str_eq(word.as_str(), "false") {
        Token::BoolLit(false)
    } else {
        Token::Ident(word)
    };
    proof {
        assert(tok@ == word_token(acc@));
    }
    match scan_from(s, i) {
        Ok(rest) => Ok(cons_exec(tok, rest)),
        Err(er) => Err(er),
    }
}

fn scan_num(
    s: &Vec<char>,
    i: usize,
    text: Vec<char>,
    val: u64,
    overflowed: bool,
    isfloat: bool,
    gval: Ghost<nat>,
) -> (r: Result<Vec<Token>, LexError>)
    requires
        i <= s@.len(),
        !overflowed ==> gval@ == val as nat,
        overflowed ==> gval@ > u64::MAX as nat,
    ensures
        scan_post(s@, i as int, r, lex_num(s@, i as int, text@, gval@, isfloat)),
    decreases s@.len() - i, 1nat,
{
    if i < s.len() && is_digit_exec(s[i]) {
        let d = (s[i] as u32 - '0' as u32) as u64;
        let ghost gval2 = gval@ * 10 + digit_of(s@[i as int]);
        let mut text = text;
        let ghost textv = text@;
        text.push(s[i]);
        proof {
            assert(text@ =~= textv.push(s@[i as int]));
            assert(d as nat == digit_of(s@[i as int]));
        }
        let wide: u128 = val as u128 * 10 + d as u128;
        if !overflowed && wide <= u64::MAX as u128 {
            return scan_num(s, i + 1, text, wide as u64, false, isfloat, Ghost(gval2));
        } else {
            proof {
                if overflowed {
                    assert(gval2 >= gval@) by (nonlinear_arith)
                        requires
                            gval2 == gval@ * 10 + digit_of(s@[i as int]),
                    ;
                } else {
                    assert(gval2 == wide as nat);
                }
            }
            return scan_num(s, i + 1, text, 0, true, isfloat, Ghost(gval2));
        }
    }
    if i < s.len() && s[i] == '.' && !isfloat {
        let mut text = text;
        let ghost textv = text@;
        text.push('.');
        proof {
            assert(text@ =~= textv.push('.'));
        }
        return scan_num(s, i + 1, text, val, overflowed, true, gval);
    }
    if i < s.len() && is_alpha_exec(s[i]) {
        return Err(LexError::InvalidNum);
    }
    if isfloat {
        let spelling = chars_to_string(&text);
        match scan_from(s, i) {
            Ok(rest) => Ok(cons_exec(Token::FloatLit(spelling), rest)),
            Err(er) => Err(er),
        }
    } else if overflowed {
        Err(LexError::InvalidNum)
    } else {
        match scan_from(s, i) {
            Ok(rest) => Ok(cons_exec(Token::Int(val), rest)),
            Err(er) => Err(er),
        }
    }
}

/// The lexer: turns source text into a token sequence, as the tokenizer
/// `lex_from` fixes it.
pub struct Lexer {
    chars: Vec<char>,
}

impl View for Lexer {
    type V = Seq<char>;

    closed spec fn view(&self) -> Seq<char> {
        self.chars@
    }
}

impl Lexer {
    /// A lexer over the given source text.
    pub fn new(input: &str) -> (r: Self)
        ensures
            r@ == input@,
    {
        let v = crate::strutil::str_to_chars(input);
        Lexer { chars: v }
    }

    /// Scans the whole source, producing its tokens or the first failure.
    pub fn scan(&self) -> (r: Result<Vec<Token>, LexError>)
        ensures
            match lex_from(self@, 0) {
                Ok(ts) => r matches Ok(v) && toks_view(v@) == ts,
                Err(e) => r == Err::<Vec<Token>, LexError>(e),
            },
    {
        scan_from(&self.chars, 0)
    }
}

} // verus!
