use unlox::ast::Ast;
use unlox::interpreter::{Action, Interpreter, Request};
use unlox::output::{Ctx, SplitOutput};
use unlox::tokens::TokenKind;

/// Runs `code` in a new session; what went to the output sink and what
/// went to the diagnostic sink.
fn interpret(code: &str) -> (String, String) {
    let mut interpreter = Interpreter::new();
    let mut ast = Ast::new();
    let mut ctx = Ctx { src: code, out: SplitOutput::new(String::new(), String::new()) };
    interpreter.load(&mut ctx, &mut ast);
    let mut reply = None;
    loop {
        let action = interpreter.step(&ast, reply.take());
        match &action {
            Action::Done => return (ctx.out.0, ctx.out.1),
            Action::PrintNumber(bits) => {
                ctx.perform(&action, &format!("{}", f64::from_bits(*bits)));
            }
            Action::Number(Request::Parse(digits)) => {
                reply = Some(digits.parse::<f64>().unwrap().to_bits());
            }
            Action::Number(Request::Arithmetic { operator, left, right }) => {
                let (l, r) = (f64::from_bits(*left), f64::from_bits(*right));
                reply = Some(
                    (match operator {
                        TokenKind::Plus => l + r,
                        TokenKind::Minus => l - r,
                        TokenKind::Star => l * r,
                        TokenKind::Slash => l / r,
                        other => panic!("no arithmetic operator: {:?}", other),
                    })
                    .to_bits(),
                );
            }
            Action::Number(Request::Clock) => reply = Some(0.0f64.to_bits()),
            _ => ctx.perform(&action, ""),
        }
    }
}

#[test]
fn multiplication_binds_more_than_addition() {
    assert_eq!(interpret("print 2 + 2 * 2;"), ("6\n".to_string(), String::new()));
}

#[test]
fn parentheses_group() {
    assert_eq!(interpret("print (2 + 2) * 2;"), ("8\n".to_string(), String::new()));
}

#[test]
fn or_yields_an_operand() {
    assert_eq!(
        interpret("print \"hi\" or 2;\nprint nil or \"yes\";"),
        ("hi\nyes\n".to_string(), String::new())
    );
}

#[test]
fn while_counts_down() {
    assert_eq!(
        interpret("var n=3; while(n>0){print n; n=n-1;}"),
        ("3\n2\n1\n".to_string(), String::new())
    );
}

#[test]
fn for_prints_the_fibonacci_numbers() {
    assert_eq!(
        interpret("var a=0; var temp; for(var b=1; a<100; b=temp+b){print a; temp=a; a=b;}"),
        ("0\n1\n1\n2\n3\n5\n8\n13\n21\n34\n55\n89\n".to_string(), String::new())
    );
}

#[test]
fn recursion() {
    assert_eq!(
        interpret("fun fib(n){ if(n<=1) return n; return fib(n-2)+fib(n-1); } print fib(12);"),
        ("144\n".to_string(), String::new())
    );
}

#[test]
fn nested_functions_see_the_scopes_around_them() {
    assert_eq!(
        interpret(
            "var a=1; fun main(){ var b=2; fun nested(){ print a; print b; } nested(); } main();"
        ),
        ("1\n2\n".to_string(), String::new())
    );
}

#[test]
fn an_undefined_name_in_a_function_is_reported_with_its_line() {
    assert_eq!(
        interpret("fun f() {\n  print \"before\";\n  print\n    outer;\n}\nf();\nprint \"after\";"),
        ("before\n".to_string(), "[Line 4]: Undefined variable outer.\n".to_string())
    );
}

#[test]
fn literals_print_as_they_read() {
    assert_eq!(
        interpret("print 1; print \"a b\"; print true; print false; print nil; print 2.50; print \"\";"),
        ("1\na b\ntrue\nfalse\nnil\n2.5\n\n".to_string(), String::new())
    );
}

#[test]
fn a_for_loop_runs_as_its_while_loop_does() {
    let with_for = "for (var i = 0; i < 3; i = i + 1) { print i; }";
    let with_while = "{ var i = 0; while (i < 3) { { print i; } i = i + 1; } }";
    assert_eq!(interpret(with_for), interpret(with_while));
    assert_eq!(interpret(with_for).0, "0\n1\n2\n");
    let scoped = "var i = \"outer\"; for (var i = 0; i < 1; i = i + 1) {} print i;";
    assert_eq!(interpret(scoped).0, "outer\n");
}

#[test]
fn output_before_an_error_stays() {
    assert_eq!(
        interpret("print 1; print 2; print 1 + nil; print 3;"),
        ("1\n2\n".to_string(), "[Line 1]: Operands must be two numbers or two strings.\n".to_string())
    );
}

#[test]
fn a_for_loop_without_an_initializer_has_its_own_scope() {
    let with_for = "var i = 0; for (; i < 2; i = i + 1) { var i = \"inner\"; print i; } print i;";
    let with_while =
        "var i = 0; { while (i < 2) { { var i = \"inner\"; print i; } i = i + 1; } } print i;";
    assert_eq!(interpret(with_for), ("inner\ninner\n2\n".to_string(), String::new()));
    assert_eq!(interpret(with_for), interpret(with_while));
    assert_eq!(
        interpret("for (;;) { print 1; return; } print 2;"),
        ("1\n2\n".to_string(), String::new())
    );
}

#[test]
fn what_was_printed_before_an_error_stays_and_nothing_follows() {
    assert_eq!(
        interpret("print 1; fun f() { print y; } f(); print 2;"),
        ("1\n".to_string(), "[Line 1]: Undefined variable y.\n".to_string())
    );
    assert_eq!(
        interpret("fun f() {\n  print y;\n}\nf();"),
        (String::new(), "[Line 2]: Undefined variable y.\n".to_string())
    );
}
