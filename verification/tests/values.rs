use unlox::ast::{Ast, Expr, Lit, Stmt};
use unlox::bytecode::{Chunk, OpCode};
use unlox::error::{error, report, Error};
use unlox::interpreter::{binary_op, unary_op, Binary};
use unlox::number::{
    number_equal, number_is_nan, number_less, number_less_equal, number_negate,
};
use unlox::text::{chars_of, decimal_text, same_text, text_of, trim_bounds};
use unlox::tokens::{Token, TokenKind};
use unlox::val::{Callable, Val};

fn samples() -> Vec<f64> {
    vec![
        0.0,
        -0.0,
        1.0,
        -1.0,
        0.5,
        -0.5,
        3.14,
        -3.14,
        1e308,
        -1e308,
        5e-324,
        -5e-324,
        f64::MAX,
        f64::MIN,
        f64::MIN_POSITIVE,
        f64::INFINITY,
        f64::NEG_INFINITY,
        f64::NAN,
        -f64::NAN,
        f64::from_bits(0x7FF0_0000_0000_0001),
        f64::from_bits(0xFFFF_FFFF_FFFF_FFFF),
    ]
}

#[test]
fn numbers_compare_as_doubles() {
    for a in samples() {
        assert_eq!(number_is_nan(a.to_bits()), a.is_nan(), "is_nan {a}");
        assert_eq!(number_negate(a.to_bits()), (-a).to_bits(), "negate {a}");
        for b in samples() {
            let (x, y) = (a.to_bits(), b.to_bits());
            assert_eq!(number_equal(x, y), a == b, "{a} == {b}");
            assert_eq!(number_less(x, y), a < b, "{a} < {b}");
            assert_eq!(number_less_equal(x, y), a <= b, "{a} <= {b}");
        }
    }
}

#[test]
fn zeros_are_equal_and_nan_is_not() {
    assert!(number_equal(0.0f64.to_bits(), (-0.0f64).to_bits()));
    assert!(!number_less((-0.0f64).to_bits(), 0.0f64.to_bits()));
    assert!(!number_equal(f64::NAN.to_bits(), f64::NAN.to_bits()));
    assert_eq!(number_negate(1.5f64.to_bits()), (-1.5f64).to_bits());
}

fn token(kind: TokenKind, lexeme: &str, line: u32) -> Token {
    Token { kind, lexeme: lexeme.to_string(), line }
}

fn number(n: f64) -> Val {
    Val::Number(n.to_bits())
}

fn text(s: &str) -> Val {
    Val::String(s.to_string())
}

fn function(name: &str, params: &[&str]) -> Callable {
    let mut ast = Ast::new();
    let e = ast.push_expr(Expr::Literal(Lit::Nil));
    let body = vec![ast.push_stmt(Stmt::Print(e))];
    let mut interpreter_frames = unlox::cactus::Cactus::new();
    let closure = interpreter_frames.push(unlox::env::Env::new());
    Callable::Function {
        name: name.to_string(),
        params: params.iter().map(|p| token(TokenKind::Identifier, p, 1)).collect(),
        body,
        closure,
    }
}

#[test]
fn only_false_and_nil_are_falsey() {
    assert!(!Val::Nil.is_truthy());
    assert!(!Val::Bool(false).is_truthy());
    assert!(Val::Bool(true).is_truthy());
    assert!(number(0.0).is_truthy());
    assert!(number(f64::NAN).is_truthy());
    assert!(text("").is_truthy());
    assert!(Val::Callable(Callable::Clock).is_truthy());
    assert!(!Lit::Nil.is_truthy());
    assert!(!Lit::Bool(false).is_truthy());
    assert!(Lit::Number("0".to_string()).is_truthy());
    assert!(Lit::String(String::new()).is_truthy());
}

#[test]
fn equality_of_values() {
    let values = vec![
        number(1.0),
        number(2.0),
        text("1"),
        text(""),
        Val::Bool(true),
        Val::Bool(false),
        Val::Nil,
        Val::Callable(Callable::Clock),
        Val::Callable(function("f", &["a"])),
        Val::Callable(function("g", &["a"])),
        Val::Callable(function("f", &["a", "b"])),
    ];
    for (i, a) in values.iter().enumerate() {
        for (j, b) in values.iter().enumerate() {
            assert_eq!(a.equals(b), i == j, "{:?} == {:?}", a, b);
            assert_eq!(a.equals(b), b.equals(a));
        }
        assert!(a.equals(&a.clone()));
    }
    assert!(!number(f64::NAN).equals(&number(f64::NAN)));
    assert!(number(0.0).equals(&number(-0.0)));
    assert!(text("ab").equals(&text("ab")));
}

#[test]
fn how_values_print() {
    assert_eq!(text("a b").text(), Some("a b".to_string()));
    assert_eq!(Val::Bool(true).text(), Some("true".to_string()));
    assert_eq!(Val::Bool(false).text(), Some("false".to_string()));
    assert_eq!(Val::Nil.text(), Some("nil".to_string()));
    assert_eq!(Val::Callable(Callable::Clock).text(), Some("<native fn>".to_string()));
    assert_eq!(Val::Callable(function("add", &[])).text(), Some("<fn add>".to_string()));
    assert_eq!(number(1.0).text(), None);
}

#[test]
fn arity() {
    assert_eq!(Callable::Clock.arity(), 0);
    assert_eq!(function("f", &[]).arity(), 0);
    assert_eq!(function("f", &["a", "b", "c"]).arity(), 3);
}

fn value_of(out: Binary) -> Val {
    match out {
        Binary::Value(v) => v,
        other => panic!("no value: {:?}", other),
    }
}

#[test]
fn unary_operators() {
    let bang = token(TokenKind::Bang, "!", 1);
    let minus = token(TokenKind::Minus, "-", 7);
    assert!(unary_op(&bang, &Val::Nil).unwrap().equals(&Val::Bool(true)));
    assert!(unary_op(&bang, &number(0.0)).unwrap().equals(&Val::Bool(false)));
    assert!(unary_op(&minus, &number(2.5)).unwrap().equals(&number(-2.5)));
    match unary_op(&minus, &text("a")) {
        Err(Error::ExpectedNumber { operator }) => assert_eq!(operator, minus),
        other => panic!("{:?}", other),
    }
}

#[test]
fn binary_operators() {
    let op = |kind, lexeme| token(kind, lexeme, 3);
    assert!(value_of(binary_op(&op(TokenKind::Plus, "+"), &text("a"), &text("b")))
        .equals(&text("ab")));
    assert!(value_of(binary_op(&op(TokenKind::Less, "<"), &number(1.0), &number(2.0)))
        .equals(&Val::Bool(true)));
    assert!(value_of(binary_op(&op(TokenKind::Greater, ">"), &number(1.0), &number(2.0)))
        .equals(&Val::Bool(false)));
    assert!(value_of(binary_op(&op(TokenKind::GreaterEqual, ">="), &number(2.0), &number(2.0)))
        .equals(&Val::Bool(true)));
    assert!(value_of(binary_op(&op(TokenKind::LessEqual, "<="), &number(3.0), &number(2.0)))
        .equals(&Val::Bool(false)));
    assert!(value_of(binary_op(&op(TokenKind::EqualEqual, "=="), &text("1"), &number(1.0)))
        .equals(&Val::Bool(false)));
    assert!(value_of(binary_op(&op(TokenKind::BangEqual, "!="), &Val::Nil, &Val::Bool(false)))
        .equals(&Val::Bool(true)));
    for (kind, lexeme) in [
        (TokenKind::Plus, "+"),
        (TokenKind::Minus, "-"),
        (TokenKind::Star, "*"),
        (TokenKind::Slash, "/"),
    ] {
        match binary_op(&op(kind, lexeme), &number(6.0), &number(3.0)) {
            Binary::Arithmetic(l, r) => {
                assert_eq!((l, r), (6.0f64.to_bits(), 3.0f64.to_bits()))
            }
            other => panic!("{:?}", other),
        }
    }
    match binary_op(&op(TokenKind::Plus, "+"), &number(1.0), &text("a")) {
        Binary::Error(Error::ExpectedNumbersOrStrings { operator }) => {
            assert_eq!(operator.line, 3)
        }
        other => panic!("{:?}", other),
    }
    match binary_op(&op(TokenKind::Minus, "-"), &text("b"), &text("a")) {
        Binary::Error(Error::ExpectedNumbers { .. }) => {}
        other => panic!("{:?}", other),
    }
    match binary_op(&op(TokenKind::Less, "<"), &Val::Nil, &number(1.0)) {
        Binary::Error(Error::ExpectedNumbers { .. }) => {}
        other => panic!("{:?}", other),
    }
}

#[test]
fn the_messages_of_runtime_errors() {
    let at = |line| token(TokenKind::Identifier, "x", line);
    assert_eq!(
        Error::ExpectedNumber { operator: at(1) }.message(),
        "[Line 1]: Operand must be a number."
    );
    assert_eq!(
        Error::ExpectedNumbers { operator: at(20) }.message(),
        "[Line 20]: Operands must be numbers."
    );
    assert_eq!(
        Error::ExpectedNumbersOrStrings { operator: at(300) }.message(),
        "[Line 300]: Operands must be two numbers or two strings."
    );
    assert_eq!(
        Error::UndefinedVariable { name: "abc".to_string(), token: at(4) }.message(),
        "[Line 4]: Undefined variable abc."
    );
    assert_eq!(
        Error::BadCall { paren: at(5) }.message(),
        "[Line 5]: Can only call functions and classes."
    );
    assert_eq!(
        Error::WrongNumberOfArgs { paren: at(6), expected: 2, got: 10 }.message(),
        "[Line 6]: Expected 2 arguments but got 10."
    );
    let parsing = Error::Parsing { token: at(4294967295), err: "Expected expression.".to_string() };
    assert_eq!(
        parsing.message(),
        "[Line 4294967295]: The program terminated due to a syntax error: Expected expression."
    );
    assert_eq!(parsing.line(), 4294967295);
    assert_eq!(parsing.text(), "The program terminated due to a syntax error: Expected expression.");
}

#[test]
fn diagnostics_of_the_scanner() {
    assert_eq!(error(3, "Unexpected character."), "[line 3] Error : Unexpected character.");
    assert_eq!(report(12, "at end", "Unterminated string"), "[line 12] Error at end: Unterminated string");
}

#[test]
fn decimal_forms() {
    assert_eq!(decimal_text(0), "0");
    assert_eq!(decimal_text(7), "7");
    assert_eq!(decimal_text(10), "10");
    assert_eq!(decimal_text(1234567890), "1234567890");
    assert_eq!(decimal_text(usize::MAX), usize::MAX.to_string());
}

#[test]
fn text_and_characters() {
    assert_eq!(chars_of("aé\n"), vec!['a', 'é', '\n']);
    assert_eq!(chars_of(""), Vec::<char>::new());
    let chars = chars_of("hello");
    assert_eq!(text_of(&chars, 1, 4), "ell");
    assert_eq!(text_of(&chars, 2, 2), "");
    assert_eq!(text_of(&chars, 0, 5), "hello");
    assert_eq!(trim_bounds("\"quoted\"", 1), "quoted");
    assert_eq!(trim_bounds("abcdef", 2), "cd");
    assert_eq!(trim_bounds("ab", 1), "");
    assert_eq!(trim_bounds("ab", 0), "ab");
}

#[test]
fn texts_are_the_same_by_their_characters() {
    assert!(same_text("", ""));
    assert!(same_text("and", "and"));
    assert!(same_text("é∂", "é∂"));
    assert!(!same_text("and", "an"));
    assert!(!same_text("and", "And"));
    assert!(!same_text("", " "));
}

#[test]
fn the_text_of_a_string_token() {
    assert_eq!(token(TokenKind::String, "\"ab\"", 1).string_value(), "ab");
    assert_eq!(token(TokenKind::String, "\"\"", 1).string_value(), "");
    assert_eq!(token(TokenKind::StringUnterminated, "\"ab", 1).string_value(), "ab");
    assert_eq!(token(TokenKind::StringUnterminated, "\"", 1).string_value(), "");
    assert_eq!(TokenKind::default(), TokenKind::Eof);
}

#[test]
fn opcodes() {
    let all = [
        OpCode::Constant,
        OpCode::Add,
        OpCode::Subtract,
        OpCode::Multiply,
        OpCode::Divide,
        OpCode::Negate,
        OpCode::Return,
    ];
    for (raw, op) in all.iter().enumerate() {
        assert_eq!(OpCode::parse(raw as u8), Some(*op));
        assert_eq!(op.byte(), raw as u8);
    }
    for raw in 7..=255u8 {
        assert_eq!(OpCode::parse(raw), None);
    }
}

#[test]
fn chunks() {
    let mut chunk = Chunk::new();
    let constant = chunk.add_constant(1.2f64.to_bits()).unwrap();
    assert_eq!(constant, 0);
    chunk.write(OpCode::Constant.byte(), 123);
    chunk.write(constant, 123);
    chunk.write(OpCode::Return.byte(), 124);
    assert_eq!(chunk.code, vec![0, 0, 6]);
    assert_eq!(chunk.lines, vec![123, 123, 124]);
    assert_eq!(chunk.constants, vec![1.2f64.to_bits()]);
    for i in 1..256u64 {
        assert_eq!(chunk.add_constant(i), Some(i as u8));
    }
    assert_eq!(chunk.add_constant(0), None);
    assert_eq!(chunk.constants.len(), 256);
    assert_eq!(Chunk::default().code.len(), 0);
}

#[test]
fn arena_nodes_keep_their_index() {
    let mut ast = Ast::new();
    let one = ast.push_expr(Expr::Literal(Lit::Number("1".to_string())));
    let two = ast.push_expr(Expr::Literal(Lit::Number("2".to_string())));
    let sum = ast.push_expr(Expr::Binary(token(TokenKind::Plus, "+", 1), one, two));
    let print = ast.push_root_stmt(Stmt::Print(sum));
    let block = ast.push_stmt(Stmt::Block(vec![print]));
    let root = ast.push_root_stmt(Stmt::Block(vec![block]));
    assert_ne!(one, two);
    assert_eq!(ast.expr_count(), 3);
    assert_eq!(ast.stmt_count(), 3);
    assert_eq!(ast.roots(), &vec![print, root]);
    assert!(matches!(ast.expr(one), Expr::Literal(Lit::Number(d)) if d == "1"));
    assert!(matches!(ast.expr(two), Expr::Literal(Lit::Number(d)) if d == "2"));
    assert!(matches!(ast.expr(sum), Expr::Binary(op, l, r) if op.lexeme == "+" && *l == one && *r == two));
    assert!(matches!(ast.stmt(print), Stmt::Print(e) if *e == sum));
    assert!(matches!(ast.stmt(block), Stmt::Block(s) if s == &vec![print]));
    assert!(matches!(ast.stmt(root), Stmt::Block(s) if s == &vec![block]));
}
