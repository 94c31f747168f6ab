use lightc::lexer::Token::{
    BoolLit, CharLit, CloseBrace, CloseParen, Comma, Else, Extern, Fn, FloatLit, Ident, If, Int,
    Let, Op, OpenBrace, OpenParen,
};
use lightc::lexer::{LexError, Lexer, Token};
use lightc::types::Operator;

#[test]
fn test_lexer_full() {
    let input = "\
extern cos(x)

fn arith(x, y) {
    let result = (x + y) * 4 / 4
    a > b
    result
}

fn main() {
    // Call arith()
    let a = arith(36, 434)
    printf(a)
}
";

    let output = [
        Extern,
        Ident("cos".to_string()),
        OpenParen,
        Ident("x".to_string()),
        CloseParen,
        Fn,
        Ident("arith".to_string()),
        OpenParen,
        Ident("x".to_string()),
        Comma,
        Ident("y".to_string()),
        CloseParen,
        OpenBrace,
        Let,
        Ident("result".to_string()),
        Op(Operator::Assign),
        OpenParen,
        Ident("x".to_string()),
        Op(Operator::Add),
        Ident("y".to_string()),
        CloseParen,
        Op(Operator::Mul),
        Int(4),
        Op(Operator::Div),
        Int(4),
        Ident("a".to_string()),
        Op(Operator::Gt),
        Ident("b".to_string()),
        Ident("result".to_string()),
        CloseBrace,
        Fn,
        Ident("main".to_string()),
        OpenParen,
        CloseParen,
        OpenBrace,
        Let,
        Ident("a".to_string()),
        Op(Operator::Assign),
        Ident("arith".to_string()),
        OpenParen,
        Int(36),
        Comma,
        Int(434),
        CloseParen,
        Ident("printf".to_string()),
        OpenParen,
        Ident("a".to_string()),
        CloseParen,
        CloseBrace,
    ];

    let lexer = Lexer::new(input);
    assert_eq!(lexer.scan().unwrap(), &output);
}

#[test]
fn test_lexer_err_num() {
    let input = "let foo = 1b4";
    assert_eq!(Lexer::new(input).scan(), Err(LexError::InvalidNum));
}

#[test]
fn test_lexer_multiline_comment() {
    let input = "\
let foo = 14
// line1
// line2
foo
";
    let output = [
        Let,
        Ident("foo".to_string()),
        Op(Operator::Assign),
        Int(14),
        Ident("foo".to_string()),
    ];
    assert_eq!(Lexer::new(input).scan().unwrap(), &output);
}

#[test]
fn test_lexer_trailing_comment() {
    let input = "\
let foo = 14
// line2";
    let output = [Let, Ident("foo".to_string()), Op(Operator::Assign), Int(14)];
    assert_eq!(Lexer::new(input).scan().unwrap(), &output);
}

#[test]
fn test_lexer_if_else() {
    let input = "\
if x > 3 {
    print(x)
} else {
    exit()
}
";
    let output = [
        If,
        Ident("x".to_string()),
        Op(Operator::Gt),
        Int(3),
        OpenBrace,
        Ident("print".to_string()),
        OpenParen,
        Ident("x".to_string()),
        CloseParen,
        CloseBrace,
        Else,
        OpenBrace,
        Ident("exit".to_string()),
        OpenParen,
        CloseParen,
        CloseBrace,
    ];
    assert_eq!(Lexer::new(input).scan().unwrap(), &output);
}

#[test]
fn test_lexer_comment_then_ident() {
    let tokens = Lexer::new("// comment\nfoo").scan().unwrap();
    assert_eq!(tokens, vec![Ident("foo".to_string())]);
}

#[test]
fn test_lexer_float_and_char() {
    let tokens = Lexer::new("3.14 'a' '\\n' true").scan().unwrap();
    assert_eq!(
        tokens,
        vec![
            FloatLit("3.14".to_string()),
            CharLit('a'),
            CharLit('\n'),
            BoolLit(true),
        ]
    );
}

#[test]
fn test_lexer_operators_longest_match() {
    let tokens = Lexer::new("a->b ** c == d != e <= >= += -= *= /= ++ --").scan().unwrap();
    let expected: Vec<Token> = vec![
        Ident("a".to_string()),
        Op(Operator::RetType),
        Ident("b".to_string()),
        Op(Operator::Pow),
        Ident("c".to_string()),
        Op(Operator::Eq),
        Ident("d".to_string()),
        Op(Operator::NotEq),
        Ident("e".to_string()),
        Op(Operator::LtEq),
        Op(Operator::GtEq),
        Op(Operator::AddEq),
        Op(Operator::SubEq),
        Op(Operator::MulEq),
        Op(Operator::DivEq),
        Op(Operator::Inc),
        Op(Operator::Dec),
    ];
    assert_eq!(tokens, expected);
}

#[test]
fn test_lexer_unknown_char() {
    assert_eq!(Lexer::new("let x = @").scan(), Err(LexError::UnknownChar));
}

#[test]
fn test_lexer_unterminated_char() {
    assert_eq!(Lexer::new("'a").scan(), Err(LexError::UnterminatedChar));
}

#[test]
fn test_lexer_int_overflow() {
    assert_eq!(
        Lexer::new("99999999999999999999999").scan(),
        Err(LexError::InvalidNum)
    );
    assert_eq!(
        Lexer::new("18446744073709551615").scan().unwrap(),
        vec![Int(18446744073709551615)]
    );
}
