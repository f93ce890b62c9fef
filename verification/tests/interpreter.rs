use unlox::interpreter::{Action, Interpreter, Request};
use unlox::lexer::Lexer;
use unlox::parse::parse;
use unlox::tokens::TokenKind;

fn arithmetic(operator: TokenKind, left: u64, right: u64) -> u64 {
    let (l, r) = (f64::from_bits(left), f64::from_bits(right));
    let result = match operator {
        TokenKind::Plus => l + r,
        TokenKind::Minus => l - r,
        TokenKind::Star => l * r,
        TokenKind::Slash => l / r,
        other => panic!("no arithmetic operator: {:?}", other),
    };
    result.to_bits()
}

fn run(interpreter: &mut Interpreter, code: &str, clock: f64) -> (String, String) {
    let mut out = String::new();
    let mut err = String::new();
    let ast = parse(Lexer::new(code), &mut err);
    interpreter.interpret(&ast);
    let mut reply = None;
    loop {
        match interpreter.step(&ast, reply.take()) {
            Action::Continue => {}
            Action::Done => return (out, err),
            Action::Print(text) => {
                out.push_str(&text);
                out.push('\n');
            }
            Action::PrintNumber(bits) => {
                out.push_str(&format!("{}\n", f64::from_bits(bits)));
            }
            Action::Number(Request::Parse(digits)) => {
                reply = Some(digits.parse::<f64>().unwrap().to_bits());
            }
            Action::Number(Request::Arithmetic { operator, left, right }) => {
                reply = Some(arithmetic(operator, left, right));
            }
            Action::Number(Request::Clock) => {
                reply = Some(clock.to_bits());
            }
            Action::Fail(error) => {
                err.push_str(&error.message());
                err.push('\n');
            }
        }
    }
}

fn interpret(code: &str) -> (String, String) {
    run(&mut Interpreter::new(), code, 0.0)
}

#[test]
fn empty() {
    assert_eq!(interpret("").0, "");
}

#[test]
fn math_expressions() {
    assert_eq!(interpret("print 2 + 2 * 2;").0, "6\n");
    assert_eq!(interpret("print (2 + 2) * 2;").0, "8\n");
}

#[test]
fn boolean_logic() {
    let code = r#"
        print "hi" or 2;
        print nil or "yes";
    "#;
    assert_eq!(interpret(code).0, "hi\nyes\n");
}

#[test]
fn if_statements() {
    let code = r#"
        if (true) {
            print true;
        } else {
            print false;
        }

        if (true) print true; else print false;
        
        if (false) {
            print true;
        } else {
            print false;
        }

        if (false) print true; else print false;
    "#;
    assert_eq!(interpret(code).0, "true\ntrue\nfalse\nfalse\n");
}

#[test]
fn while_statements() {
    let code = r#"
        var n = 3;
        while (n > 0) {
            print n;
            n = n - 1;
        }
    "#;
    assert_eq!(interpret(code).0, "3\n2\n1\n");
}

#[test]
fn for_statements() {
    let code = r#"
        var a = 0;
        var temp;

        for (var b = 1; a < 100; b = temp + b) {
            print a;
            temp = a;
            a = b;
        }
    "#;
    assert_eq!(
        interpret(code).0,
        "0\n1\n1\n2\n3\n5\n8\n13\n21\n34\n55\n89\n"
    );
}

#[test]
fn functions() {
    let code = r#"
        fun sayHi(first, last) {
            print "Hi, " + first + " " + last + "!";
        }

        sayHi("Dear", "Reader");
    "#;
    assert_eq!(interpret(code).0, "Hi, Dear Reader!\n");

    let code = r#"
        fun fibonacci(n) {
            var a = 0;
            var b = 1;

            for (var i = 0; i < n; i = i + 1) {
                var temp = a;
                a = b;
                b = temp + b;
            }
            return a;
        }

        print fibonacci(12);
    "#;
    assert_eq!(interpret(code).0, "144\n");

    let code = r#"
        fun fibonacci(n) {
            if (n <= 1) return n;
            return fibonacci(n - 2) + fibonacci(n - 1);
        }

        print fibonacci(12);
    "#;
    assert_eq!(interpret(code).0, "144\n");

    let code = r#"
        var a = 1;

        fun main() {
            var b = 2;

            fun nested() {
                print a;
                print b;
            }

            nested();
        }
        main();
    "#;
    assert_eq!(interpret(code), ("1\n2\n".to_string(), String::new()));
}

#[test]
fn closure_scoping() {
    let code = "var a=1; fun main(){ var b=2; fun nested(){ print a; print b; } nested(); } main();";
    assert_eq!(interpret(code).0, "1\n2\n");
}

#[test]
fn free_variables_resolve_where_the_function_was_defined() {
    let code = r#"
        var x = "defined";
        fun f() { print x; }
        fun g() { var x = "calling"; f(); }
        g();
        { var x = "block"; f(); }
    "#;
    assert_eq!(interpret(code), ("defined\ndefined\n".to_string(), String::new()));
}

#[test]
fn closures_keep_their_frame() {
    let code = r#"
        fun counter() {
            var n = 0;
            fun next() { n = n + 1; return n; }
            return next;
        }
        var c = counter();
        print c();
        print c();
        var d = counter();
        print d();
    "#;
    assert_eq!(interpret(code).0, "1\n2\n1\n");
}

#[test]
fn undefined_variable_in_a_function_halts() {
    let code = "fun f() {\n  print 1;\n  print missing;\n  print 2;\n}\nf();\nprint 3;";
    assert_eq!(
        interpret(code),
        ("1\n".to_string(), "[Line 3]: Undefined variable missing.\n".to_string())
    );
}

#[test]
fn short_circuit_does_not_evaluate_the_right_operand() {
    let code = r#"
        fun noisy() { print "evaluated"; return true; }
        print false and noisy();
        print nil and missing;
        print true or noisy();
        print 1 or missing;
        print true and noisy();
        print false or noisy();
    "#;
    assert_eq!(
        interpret(code),
        ("false\nnil\ntrue\n1\nevaluated\ntrue\nevaluated\ntrue\n".to_string(), String::new())
    );
}

#[test]
fn assignment_is_an_expression() {
    assert_eq!(interpret("var x; print x = 3; print x;").0, "3\n3\n");
    assert_eq!(interpret("var x; var y; x = y = \"v\"; print x; print y;").0, "v\nv\n");
}

#[test]
fn assignment_does_not_declare() {
    assert_eq!(
        interpret("x = 1;"),
        (String::new(), "[Line 1]: Undefined variable x.\n".to_string())
    );
}

#[test]
fn assignment_reaches_the_defining_frame() {
    assert_eq!(interpret("var x = 1; { x = 2; var x = 3; x = 4; print x; } print x;").0, "4\n2\n");
}

#[test]
fn equality() {
    let code = r#"
        print 1 == 1;
        print 1 == 2;
        print "a" == "a";
        print "a" != "b";
        print nil == nil;
        print nil == false;
        print 0 == false;
        print "1" == 1;
        print 0/0 == 0/0;
        print 0/0 != 0/0;
        print clock == clock;
    "#;
    assert_eq!(
        interpret(code).0,
        "true\nfalse\ntrue\ntrue\ntrue\nfalse\nfalse\nfalse\nfalse\ntrue\ntrue\n"
    );
}

#[test]
fn truthiness() {
    let code = r#"
        if (0) print "zero";
        if ("") print "empty";
        if (nil) print "nil";
        if (false) print "false";
        if (clock) print "callable";
        print !0;
        print !nil;
    "#;
    assert_eq!(interpret(code).0, "zero\nempty\ncallable\nfalse\ntrue\n");
}

#[test]
fn numbers_print_in_their_shortest_form() {
    assert_eq!(interpret("print 3; print 3.14; print -0; print 1/0; print -1/0; print 0.1 + 0.2;").0,
        "3\n3.14\n-0\ninf\n-inf\n0.30000000000000004\n");
}

#[test]
fn comparison() {
    assert_eq!(
        interpret("print 1 < 2; print 2 <= 2; print 1 > 2; print 2 >= 3; print -1 < 0; print -2 < -1; print 0 < -0;").0,
        "true\ntrue\nfalse\nfalse\ntrue\ntrue\nfalse\n"
    );
}

#[test]
fn callables_print_their_name() {
    assert_eq!(interpret("fun f() {} print f; print clock;").0, "<fn f>\n<native fn>\n");
}

#[test]
fn clock_is_the_embedders() {
    assert_eq!(run(&mut Interpreter::new(), "print clock();", 12.5).0, "12.5\n");
}

#[test]
fn a_function_without_return_yields_nil() {
    assert_eq!(interpret("fun f() { 1; } print f();").0, "nil\n");
    assert_eq!(interpret("fun f() { return; } print f();").0, "nil\n");
}

#[test]
fn return_leaves_loops_and_blocks() {
    let code = r#"
        fun find() {
            var i = 0;
            while (true) {
                { if (i == 3) return i; }
                i = i + 1;
            }
        }
        print find();
        var after = "root scope";
        print after;
    "#;
    assert_eq!(interpret(code), ("3\nroot scope\n".to_string(), String::new()));
}

#[test]
fn expected_number() {
    assert_eq!(interpret("print -\"a\";").1, "[Line 1]: Operand must be a number.\n");
}

#[test]
fn expected_numbers() {
    assert_eq!(interpret("\nprint 1 - \"a\";").1, "[Line 2]: Operands must be numbers.\n");
    assert_eq!(interpret("print \"a\" < \"b\";").1, "[Line 1]: Operands must be numbers.\n");
    assert_eq!(interpret("print nil * 2;").1, "[Line 1]: Operands must be numbers.\n");
}

#[test]
fn expected_numbers_or_strings() {
    assert_eq!(
        interpret("print 1 + \"a\";").1,
        "[Line 1]: Operands must be two numbers or two strings.\n"
    );
    assert_eq!(
        interpret("print nil + nil;").1,
        "[Line 1]: Operands must be two numbers or two strings.\n"
    );
}

#[test]
fn bad_call() {
    assert_eq!(interpret("\"text\"();").1, "[Line 1]: Can only call functions and classes.\n");
}

#[test]
fn wrong_number_of_args() {
    assert_eq!(
        interpret("fun f(a, b) {}\nf(1);").1,
        "[Line 2]: Expected 2 arguments but got 1.\n"
    );
    assert_eq!(interpret("clock(1);").1, "[Line 1]: Expected 0 arguments but got 1.\n");
}

#[test]
fn arity_is_checked_before_arguments_are_evaluated() {
    let code = "fun noisy() { print \"evaluated\"; } fun f() {} f(noisy());";
    assert_eq!(
        interpret(code),
        (String::new(), "[Line 1]: Expected 0 arguments but got 1.\n".to_string())
    );
}

#[test]
fn arguments_are_evaluated_left_to_right() {
    let code = "fun show(x) { print x; return x; } fun f(a, b, c) {} f(show(1), show(2), show(3));";
    assert_eq!(interpret(code).0, "1\n2\n3\n");
}

#[test]
fn a_syntax_error_halts_when_it_is_reached() {
    let code = "print 1;\nprint ;\nprint 2;";
    assert_eq!(
        interpret(code),
        (
            "1\n".to_string(),
            "Expected expression.\n[Line 2]: The program terminated due to a syntax error: Expected expression.\n"
                .to_string()
        )
    );
}

#[test]
fn an_error_leaves_the_session_usable() {
    let mut interpreter = Interpreter::new();
    assert_eq!(
        run(&mut interpreter, "var kept = 1; { var inner = 2; print missing; }", 0.0).1,
        "[Line 1]: Undefined variable missing.\n"
    );
    assert_eq!(
        run(&mut interpreter, "print kept; print inner;", 0.0),
        ("1\n".to_string(), "[Line 1]: Undefined variable inner.\n".to_string())
    );
}

#[test]
fn globals_can_be_shadowed() {
    assert_eq!(interpret("var clock = 1; print clock;").0, "1\n");
}

#[test]
fn deep_recursion_does_not_grow_the_host_stack() {
    let code = "fun down(n) { if (n == 0) return 0; return down(n - 1); } print down(20000);";
    assert_eq!(interpret(code).0, "0\n");
}

#[test]
fn top_level_return_gives_up_the_statement() {
    assert_eq!(interpret("{ print 1; return; print 2; } print 3;").0, "1\n3\n");
}
