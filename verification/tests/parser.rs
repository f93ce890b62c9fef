use unlox::ast::{Ast, Expr, ExprIdx, Lit, Stmt, StmtIdx};
use unlox::lexer::Lexer;
use unlox::parse::{parse, parse_into};
use unlox::tokens::TokenKind;

fn parsed(code: &str) -> (Ast, String) {
    let mut err = String::new();
    let ast = parse(Lexer::new(code), &mut err);
    (ast, err)
}

/// The expression in prefix form, operators by their lexemes.
fn show_expr(ast: &Ast, idx: ExprIdx) -> String {
    show(ast, ast.expr(idx))
}

fn show(ast: &Ast, expr: &Expr) -> String {
    match expr {
        Expr::Binary(op, l, r) | Expr::Logical(op, l, r) => {
            format!("({} {} {})", op.lexeme, show_expr(ast, *l), show_expr(ast, *r))
        }
        Expr::Grouping(e) => format!("(group {})", show_expr(ast, *e)),
        Expr::Literal(Lit::String(s)) => format!("{:?}", s),
        Expr::Literal(Lit::Number(digits)) => digits.clone(),
        Expr::Literal(Lit::Bool(b)) => format!("{}", b),
        Expr::Literal(Lit::Nil) => "nil".to_string(),
        Expr::Unary(op, e) => format!("({} {})", op.lexeme, show_expr(ast, *e)),
        Expr::Variable(name) => name.lexeme.clone(),
        Expr::Assign { var, value } => format!("(= {} {})", var.lexeme, show_expr(ast, *value)),
        Expr::Call { callee, args, .. } => {
            let mut text = format!("(call {}", show_expr(ast, *callee));
            for arg in args {
                text.push(' ');
                text.push_str(&show_expr(ast, *arg));
            }
            text.push(')');
            text
        }
    }
}

fn show_stmt(ast: &Ast, idx: StmtIdx) -> String {
    match ast.stmt(idx) {
        Stmt::If { cond, then_branch, else_branch } => match else_branch {
            Some(e) => format!(
                "(if {} {} {})",
                show_expr(ast, *cond),
                show_stmt(ast, *then_branch),
                show_stmt(ast, *e)
            ),
            None => format!("(if {} {})", show_expr(ast, *cond), show_stmt(ast, *then_branch)),
        },
        Stmt::While { cond, body } => {
            format!("(while {} {})", show_expr(ast, *cond), show_stmt(ast, *body))
        }
        Stmt::Print(e) => format!("(print {})", show_expr(ast, *e)),
        Stmt::Return(_, Some(e)) => format!("(return {})", show_expr(ast, *e)),
        Stmt::Return(_, None) => "(return)".to_string(),
        Stmt::VarDecl { name, init: Some(e) } => {
            format!("(var {} {})", name.lexeme, show_expr(ast, *e))
        }
        Stmt::VarDecl { name, init: None } => format!("(var {})", name.lexeme),
        Stmt::Expression(e) => format!("(expr {})", show_expr(ast, *e)),
        Stmt::Block(stmts) => {
            let mut text = "(block".to_string();
            for s in stmts {
                text.push(' ');
                text.push_str(&show_stmt(ast, *s));
            }
            text.push(')');
            text
        }
        Stmt::Function { name, params, body } => {
            let mut text = format!("(fun {} (", name.lexeme);
            for (i, p) in params.iter().enumerate() {
                if i > 0 {
                    text.push(' ');
                }
                text.push_str(&p.lexeme);
            }
            text.push(')');
            for s in body {
                text.push(' ');
                text.push_str(&show_stmt(ast, *s));
            }
            text.push(')');
            text
        }
        Stmt::ParseErr(token, message) => format!("(error {:?} {:?})", token.lexeme, message),
    }
}

fn program(code: &str) -> (Vec<String>, String) {
    let (ast, err) = parsed(code);
    (ast.roots().iter().map(|r| show_stmt(&ast, *r)).collect(), err)
}

fn one(code: &str) -> String {
    let (roots, err) = program(code);
    assert_eq!(err, "");
    assert_eq!(roots.len(), 1);
    roots[0].clone()
}

fn error_of(code: &str) -> String {
    program(code).1
}

/// The first diagnostic, with its line feed.
fn first_error(code: &str) -> String {
    let all = error_of(code);
    match all.find('\n') {
        Some(at) => all[..at + 1].to_string(),
        None => all,
    }
}

#[test]
fn empty_program() {
    let (ast, err) = parsed("");
    assert_eq!(ast.roots().len(), 0);
    assert_eq!(ast.stmt_count(), 0);
    assert_eq!(ast.expr_count(), 0);
    assert_eq!(err, "");
}

#[test]
fn precedence_and_associativity() {
    assert_eq!(one("1 + 2 * 3;"), "(expr (+ 1 (* 2 3)))");
    assert_eq!(one("1 - 2 - 3;"), "(expr (- (- 1 2) 3))");
    assert_eq!(one("1 / 2 * 3;"), "(expr (* (/ 1 2) 3))");
    assert_eq!(one("(1 + 2) * 3;"), "(expr (* (group (+ 1 2)) 3))");
    assert_eq!(one("1 < 2 == 3 >= 4;"), "(expr (== (< 1 2) (>= 3 4)))");
    assert_eq!(one("a or b and c == d;"), "(expr (or a (and b (== c d))))");
    assert_eq!(one("a or b or c;"), "(expr (or (or a b) c))");
    assert_eq!(one("!-x;"), "(expr (! (- x)))");
    assert_eq!(one("-a * b;"), "(expr (* (- a) b))");
    assert_eq!(one("a = b = c + 1;"), "(expr (= a (= b (+ c 1))))");
}

#[test]
fn literals() {
    assert_eq!(one("print 12.5;"), "(print 12.5)");
    assert_eq!(one("print \"a b\";"), "(print \"a b\")");
    assert_eq!(one("print \"\";"), "(print \"\")");
    assert_eq!(one("print true;"), "(print true)");
    assert_eq!(one("print false;"), "(print false)");
    assert_eq!(one("print nil;"), "(print nil)");
}

#[test]
fn calls() {
    assert_eq!(one("f();"), "(expr (call f))");
    assert_eq!(one("f(1, a + 2)(3);"), "(expr (call (call f 1 (+ a 2)) 3))");
    assert_eq!(one("-f(1);"), "(expr (- (call f 1)))");
}

#[test]
fn statements() {
    assert_eq!(one("var a;"), "(var a)");
    assert_eq!(one("var a = 1 + 2;"), "(var a (+ 1 2))");
    assert_eq!(one("{ var a; print a; }"), "(block (var a) (print a))");
    assert_eq!(one("{}"), "(block)");
    assert_eq!(one("if (a) print 1;"), "(if a (print 1))");
    assert_eq!(one("if (a) print 1; else { print 2; }"), "(if a (print 1) (block (print 2)))");
    assert_eq!(one("if (a) if (b) 1; else 2;"), "(if a (if b (expr 1) (expr 2)))");
    assert_eq!(one("while (a < 3) a = a + 1;"), "(while (< a 3) (expr (= a (+ a 1))))");
    assert_eq!(one("return;"), "(return)");
    assert_eq!(one("return a;"), "(return a)");
    assert_eq!(
        one("fun add(a, b) { return a + b; }"),
        "(fun add (a b) (return (+ a b)))"
    );
    assert_eq!(one("fun f() {}"), "(fun f ())");
}

#[test]
fn for_loops_are_while_loops() {
    assert_eq!(
        one("for (var i = 0; i < 3; i = i + 1) print i;"),
        "(block (var i 0) (while (< i 3) (block (print i) (expr (= i (+ i 1))))))"
    );
    assert_eq!(one("for (;;) print 1;"), "(block (while true (print 1)))");
    assert_eq!(one("for (; a;) print 1;"), "(block (while a (print 1)))");
    assert_eq!(one("for (i = 0;;) {}"), "(block (expr (= i 0)) (while true (block)))");
    assert_eq!(
        one("for (;; i = i + 1) print i;"),
        "(block (while true (block (print i) (expr (= i (+ i 1))))))"
    );
    assert_eq!(
        one("for (; i < 3; i = i + 1) print i;"),
        "(block (while (< i 3) (block (print i) (expr (= i (+ i 1))))))"
    );
    assert_eq!(
        one("for (var i = 0; i < 3;) print i;"),
        "(block (var i 0) (while (< i 3) (print i)))"
    );
}

#[test]
fn roots_are_in_source_order() {
    let (roots, err) = program("var a = 1; print a; { a = 2; }");
    assert_eq!(err, "");
    assert_eq!(roots, vec!["(var a 1)", "(print a)", "(block (expr (= a 2)))"]);
}

#[test]
fn parse_into_appends_to_the_arena() {
    let mut err = String::new();
    let mut ast = parse(Lexer::new("var a = 1;"), &mut err);
    let first = ast.roots()[0];
    let before = show_stmt(&ast, first);
    let (stmts, exprs) = (ast.stmt_count(), ast.expr_count());
    parse_into(Lexer::new("print a + 1;"), &mut ast, &mut err);
    assert_eq!(err, "");
    assert_eq!(ast.roots().len(), 2);
    assert_eq!(ast.roots()[0], first);
    assert_eq!(show_stmt(&ast, first), before);
    assert_eq!(show_stmt(&ast, ast.roots()[1]), "(print (+ a 1))");
    assert!(ast.stmt_count() > stmts && ast.expr_count() > exprs);
}

#[test]
fn invalid_assignment_target() {
    let (roots, err) = program("1 = 2;");
    assert_eq!(err, "Invalid assignment target.\n");
    assert_eq!(roots, vec!["(error \"=\" \"Invalid assignment target.\")"]);
    assert_eq!(error_of("a + b = c;"), "Invalid assignment target.\n");
    assert_eq!(error_of("(a) = 1;"), "Invalid assignment target.\n");
}

#[test]
fn recovery_goes_on_behind_the_semicolon() {
    let (roots, err) = program("print ; print 1;\nvar = 2; print 3;");
    assert_eq!(err, "Expected expression.\nExpected variable name.\n");
    assert_eq!(
        roots,
        vec![
            "(error \";\" \"Expected expression.\")",
            "(print 1)",
            "(error \"=\" \"Expected variable name.\")",
            "(print 3)"
        ]
    );
}

#[test]
fn recovery_stops_before_a_statement() {
    let (roots, err) = program("print 1 2 3 var a; print a;");
    assert_eq!(err, "Expected ';' after value.\n");
    assert_eq!(
        roots,
        vec!["(error \"2\" \"Expected ';' after value.\")", "(var a)", "(print a)"]
    );
}

#[test]
fn recovery_inside_a_block() {
    let (roots, err) = program("{ print ; print 1; } print 2;");
    assert_eq!(err, "Expected expression.\n");
    assert_eq!(
        roots,
        vec!["(block (error \";\" \"Expected expression.\") (print 1))", "(print 2)"]
    );
}

#[test]
fn the_messages_of_syntax_errors() {
    assert_eq!(first_error("\"abc"), "Unterminated string.\n");
    assert_eq!(first_error("print"), "Unexpected end of file.\n");
    assert_eq!(first_error("print +;"), "Expected expression.\n");
    assert_eq!(first_error("(1;"), "Expected \")\" after expression.\n");
    assert_eq!(first_error("f(1;"), "Expect ')' after arguments.\n");
    assert_eq!(first_error("1"), "Expected ';' after expression.\n");
    assert_eq!(first_error("print 1"), "Expected ';' after value.\n");
    assert_eq!(first_error("return 1 }"), "Expected ';' after return value.\n");
    assert_eq!(first_error("var 1;"), "Expected variable name.\n");
    assert_eq!(first_error("var a = 1"), "Expected ';' after variable declaration.\n");
    assert_eq!(first_error("var a 1;"), "Expected ';' after variable declaration.\n");
    assert_eq!(first_error("{ print 1;"), "Expect '}' after block.\n");
    assert_eq!(first_error("if a) 1;"), "Expected '(' after 'if'.\n");
    assert_eq!(first_error("if (a 1;"), "Expected ')' after if condition.\n");
    assert_eq!(first_error("while a) 1;"), "Expected '(' after 'while'.\n");
    assert_eq!(first_error("while (a 1;"), "Expected ')' after condition.\n");
    assert_eq!(first_error("for a;;) 1;"), "Expected '(' after 'for'.\n");
    assert_eq!(first_error("for (;a b;) 1;"), "Expected ';' after loop condition.\n");
    assert_eq!(first_error("for (;;a b) 1;"), "Expected ')' after for clauses.\n");
    assert_eq!(first_error("fun 1() {}"), "Expected function name.\n");
    assert_eq!(first_error("fun f {}"), "Expected '(' after function name.\n");
    assert_eq!(first_error("fun f(1) {}"), "Expected parameter name.\n");
    assert_eq!(first_error("fun f(a b) {}"), "Expected ')' after parameters.\n");
    assert_eq!(first_error("fun f() 1;"), "Expected '{' before function body.\n");
    assert_eq!(first_error("fun f() { 1;"), "Expect '}' after block.\n");
}

#[test]
fn the_token_of_a_syntax_error() {
    let (ast, _) = parsed("print 1;\n\nprint (2;");
    match ast.stmt(ast.roots()[1]) {
        Stmt::ParseErr(token, message) => {
            assert_eq!(token.kind, TokenKind::Semicolon);
            assert_eq!(token.line, 3);
            assert_eq!(message, "Expected \")\" after expression.");
        }
        other => panic!("no place holder: {:?}", other),
    }
    let (ast, _) = parsed("print");
    match ast.stmt(ast.roots()[0]) {
        Stmt::ParseErr(token, _) => assert_eq!(token.kind, TokenKind::Eof),
        other => panic!("no place holder: {:?}", other),
    }
}

fn call_with(count: usize) -> String {
    let mut code = "f(".to_string();
    for i in 0..count {
        if i > 0 {
            code.push_str(", ");
        }
        code.push_str("1");
    }
    code.push_str(");");
    code
}

#[test]
fn a_call_takes_255_arguments() {
    let (ast, err) = parsed(&call_with(255));
    assert_eq!(err, "");
    match ast.stmt(ast.roots()[0]) {
        Stmt::Expression(e) => match ast.expr(*e) {
            Expr::Call { args, .. } => assert_eq!(args.len(), 255),
            other => panic!("no call: {:?}", other),
        },
        other => panic!("no expression statement: {:?}", other),
    }
}

#[test]
fn a_call_takes_no_256th_argument() {
    assert_eq!(error_of(&call_with(256)), "Can't have more than 255 arguments.\n");
}

#[test]
fn a_function_takes_no_256th_parameter() {
    let mut code = "fun f(".to_string();
    for i in 0..256 {
        if i > 0 {
            code.push_str(", ");
        }
        code.push_str("p");
    }
    code.push_str(") {}");
    assert_eq!(error_of(&code), "Can't have more than 255 parameters.\n");
}

#[test]
fn a_node_is_stored_after_the_nodes_that_it_names() {
    let (ast, _) = parsed("fun f(a) { if (a) { return f(a - 1) + 1; } print a; } f(3);");
    for root in ast.roots() {
        assert!(show_stmt(&ast, *root).len() > 0);
    }
    assert_eq!(ast.roots().len(), 2);
}
