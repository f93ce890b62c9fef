use unlox::ast::Ast;
use unlox::cactus::Cactus;
use unlox::cursor::Cursor;
use unlox::env::{Env, EnvCactus};
use unlox::interpreter::{Action, Interpreter, Request};
use unlox::output::{Ctx, Output, SingleOutput, SplitOutput};
use unlox::selection::Selection;
use unlox::tokens::TokenKind;
use unlox::val::Val;

fn number(n: f64) -> Val {
    Val::Number(n.to_bits())
}

fn env_with(vars: &[(&str, f64)]) -> Env {
    let mut env = Env::new();
    for (name, value) in vars {
        env.define_var(name.to_string(), number(*value));
    }
    env
}

fn is_number(v: Option<&Val>, n: f64) -> bool {
    match v {
        Some(v) => v.equals(&number(n)),
        None => false,
    }
}

#[test]
fn selection_advances_over_the_text() {
    let mut s = Selection::new("ab\ncd");
    assert_eq!(s.line(), 1);
    assert!(!s.eof());
    assert_eq!(s.peek(), Some('a'));
    assert_eq!(s.peek_second(), Some('b'));
    assert_eq!(s.advance(), Some('a'));
    assert_eq!(s.str(), "a");
    assert!(!s.advance_match('x'));
    assert!(s.advance_match('b'));
    assert_eq!(s.str(), "ab");
    s.clear();
    assert_eq!(s.str(), "");
    assert_eq!(s.advance(), Some('\n'));
    assert_eq!(s.line(), 2);
    s.clear();
    s.advance_while(|c| c != 'd');
    assert_eq!(s.str(), "c");
    assert_eq!(s.peek(), Some('d'));
    assert_eq!(s.peek_second(), None);
    s.advance_while(|_| true);
    assert_eq!(s.str(), "cd");
    assert!(s.eof());
    assert_eq!(s.peek(), None);
    assert_eq!(s.advance(), None);
    assert!(!s.advance_match('d'));
    assert_eq!(s.str(), "cd");
    assert_eq!(s.line(), 2);
}

#[test]
fn selection_of_the_empty_text() {
    let mut s = Selection::new("");
    assert!(s.eof());
    assert_eq!(s.peek(), None);
    assert_eq!(s.peek_second(), None);
    assert_eq!(s.advance(), None);
    s.advance_while(|_| true);
    assert_eq!(s.str(), "");
    assert_eq!(s.line(), 1);
}

#[test]
fn selection_counts_every_line_feed() {
    let mut s = Selection::new("\n\n\né\n");
    s.advance_while(|_| true);
    assert_eq!(s.line(), 5);
    let mut s = Selection::new("a\nb");
    s.advance();
    assert!(s.advance_match('\n'));
    assert_eq!(s.line(), 2);
}

#[test]
fn selection_takes_characters_not_bytes() {
    let mut s = Selection::new("éß∂x");
    assert_eq!(s.advance(), Some('é'));
    assert_eq!(s.peek(), Some('ß'));
    assert_eq!(s.peek_second(), Some('∂'));
    s.advance_while(|c| c != 'x');
    assert_eq!(s.str(), "éß∂");
    assert!(!s.eof());
}

#[test]
fn cursor_reads_the_text() {
    let mut c = Cursor::new("if (x)\n  y;");
    assert_eq!(c.line(), 1);
    assert!(!c.is_at_end());
    c.advance_while(|ch| ch.is_ascii_alphabetic());
    assert_eq!(c.current_str(), "if");
    c.reset_position();
    assert_eq!(c.current_str(), "");
    assert_eq!(c.peek(), Some(' '));
    assert_eq!(c.peek_next(), Some('('));
    assert_eq!(c.advance(), Some(' '));
    assert!(c.match_current('('));
    assert!(!c.match_current('('));
    assert_eq!(c.current_str(), " (");
    c.advance_while(|ch| ch != 'y');
    assert_eq!(c.line(), 2);
    c.reset_position();
    c.advance_while(|_| true);
    assert_eq!(c.current_str(), "y;");
    assert!(c.is_at_end());
    assert_eq!(c.peek(), None);
    assert_eq!(c.peek_next(), None);
    assert_eq!(c.advance(), None);
}

#[test]
fn env_defines_and_redefines() {
    let mut env = Env::new();
    assert!(env.var("a").is_none());
    assert!(!env.has_var("a"));
    env.define_var("a".to_string(), number(1.0));
    env.define_var("b".to_string(), number(2.0));
    assert!(is_number(env.var("a"), 1.0));
    assert!(is_number(env.var("b"), 2.0));
    env.define_var("a".to_string(), number(3.0));
    assert!(is_number(env.var("a"), 3.0));
    assert!(is_number(env.var("b"), 2.0));
    assert!(env.var("ab").is_none());
    *env.var_mut("b").unwrap() = number(4.0);
    assert!(is_number(env.var("b"), 4.0));
    assert!(env.var_mut("c").is_none());
    assert!(Env::default().var("a").is_none());
}

#[test]
fn cactus_keeps_every_frame() {
    let mut cactus = Cactus::new();
    assert!(cactus.is_empty());
    assert_eq!(cactus.len(), 0);
    assert_eq!(cactus.current(), None);
    assert_eq!(cactus.pop(), None);
    let root = cactus.push(env_with(&[("r", 0.0)]));
    let a = cactus.push(env_with(&[("a", 1.0)]));
    let b = cactus.push_at(root, env_with(&[("b", 2.0)]));
    assert_ne!(a, b);
    assert_ne!(a.as_usize(), b.as_usize());
    assert_eq!(cactus.len(), 3);
    assert!(!cactus.is_empty());
    assert_eq!(cactus.active(), 3);
    assert_eq!(cactus.current(), Some(b));
    assert_eq!(cactus.parent(root), None);
    assert_eq!(cactus.parent(a), Some(root));
    assert_eq!(cactus.parent(b), Some(root));
    assert_eq!(cactus.pop(), Some(b));
    assert_eq!(cactus.current(), Some(a));
    assert_eq!(cactus.len(), 3);
    assert!(cactus.contains(b));
    assert!(is_number(cactus.node_data(b).unwrap().var("b"), 2.0));
    assert!(is_number(cactus.node_data(a).unwrap().var("a"), 1.0));
    cactus.node_data_mut(a).unwrap().define_var("x".to_string(), number(9.0));
    assert!(is_number(cactus.node_data(a).unwrap().var("x"), 9.0));
    assert!(cactus.node_data(root).unwrap().var("x").is_none());
    let c = cactus.push_at(b, Env::new());
    assert_eq!(cactus.parent(c), Some(b));
    assert_eq!(cactus.pop(), Some(c));
    assert_eq!(cactus.pop(), Some(a));
    assert_eq!(cactus.pop(), Some(root));
    assert_eq!(cactus.pop(), None);
    assert_eq!(cactus.len(), 4);
}

#[test]
fn the_root_frame_is_never_popped() {
    let mut envs = EnvCactus::with_global(env_with(&[("g", 1.0)]));
    let global = envs.global();
    assert_eq!(envs.current(), global);
    assert_eq!(envs.pop(), None);
    assert_eq!(envs.current(), global);
    let inner = envs.push(Env::new());
    assert_eq!(envs.current(), inner);
    assert_eq!(envs.global(), global);
    assert_eq!(envs.pop(), Some(inner));
    assert_eq!(envs.pop(), None);
    assert_eq!(envs.pop(), None);
    assert_eq!(envs.current(), global);
    assert_eq!(envs.global(), global);
    assert!(is_number(envs.var("g"), 1.0));
}

#[test]
fn names_resolve_from_the_active_frame_to_the_root() {
    let mut envs = EnvCactus::with_global(env_with(&[("a", 1.0), ("b", 2.0)]));
    let global = envs.global();
    let outer = envs.push(env_with(&[("b", 20.0), ("c", 30.0)]));
    envs.push(env_with(&[("c", 300.0)]));
    assert!(is_number(envs.var("a"), 1.0));
    assert!(is_number(envs.var("b"), 20.0));
    assert!(is_number(envs.var("c"), 300.0));
    assert!(envs.var("d").is_none());
    envs.pop();
    assert!(is_number(envs.var("c"), 30.0));
    let side = envs.push_at(global, env_with(&[("s", 5.0)]));
    assert_eq!(envs.current(), side);
    assert!(is_number(envs.var("b"), 2.0));
    assert!(envs.var("c").is_none());
    assert!(is_number(envs.var("s"), 5.0));
    envs.pop();
    assert_eq!(envs.current(), outer);
}

#[test]
fn assignment_finds_the_defining_frame() {
    let mut envs = EnvCactus::with_global(env_with(&[("a", 1.0)]));
    envs.push(env_with(&[("b", 2.0)]));
    assert!(envs.assign_var("a", number(10.0)));
    assert!(envs.assign_var("b", number(20.0)));
    assert!(!envs.assign_var("c", number(30.0)));
    assert!(envs.var("c").is_none());
    envs.define_var("a".to_string(), number(100.0));
    assert!(is_number(envs.var("a"), 100.0));
    *envs.var_mut("a").unwrap() = number(101.0);
    assert!(envs.var_mut("zz").is_none());
    envs.current_env_mut().define_var("e".to_string(), number(7.0));
    assert!(is_number(envs.var("e"), 7.0));
    assert!(is_number(envs.var("a"), 101.0));
    assert!(is_number(envs.var("b"), 20.0));
    envs.pop();
    assert!(is_number(envs.var("a"), 10.0));
    assert!(envs.var("b").is_none());
    assert!(envs.var("e").is_none());
}

#[test]
fn sinks() {
    let mut single = SingleOutput::new("> ".to_string());
    single.out("a");
    single.err("b");
    single.out("c");
    assert_eq!(single.0, "> abc");
    let mut split = SplitOutput::new(String::new(), "! ".to_string());
    split.out("a");
    split.err("b");
    split.out("c");
    assert_eq!(split.0, "ac");
    assert_eq!(split.1, "! b");
}

fn arithmetic(operator: TokenKind, left: u64, right: u64) -> u64 {
    let (l, r) = (f64::from_bits(left), f64::from_bits(right));
    (match operator {
        TokenKind::Plus => l + r,
        TokenKind::Minus => l - r,
        TokenKind::Star => l * r,
        _ => l / r,
    })
    .to_bits()
}

fn session(interpreter: &mut Interpreter, ast: &mut Ast, code: &str) -> (String, String) {
    let mut ctx = Ctx { src: code, out: SplitOutput::new(String::new(), String::new()) };
    interpreter.load(&mut ctx, ast);
    let mut reply = None;
    loop {
        let action = interpreter.step(ast, reply.take());
        match &action {
            Action::Done => return (ctx.out.0, ctx.out.1),
            Action::PrintNumber(bits) => {
                ctx.perform(&action, &format!("{}", f64::from_bits(*bits)));
            }
            Action::Number(Request::Parse(digits)) => {
                reply = Some(digits.parse::<f64>().unwrap().to_bits());
            }
            Action::Number(Request::Arithmetic { operator, left, right }) => {
                reply = Some(arithmetic(*operator, *left, *right));
            }
            Action::Number(Request::Clock) => reply = Some(1.0f64.to_bits()),
            _ => ctx.perform(&action, ""),
        }
    }
}

#[test]
fn a_session_keeps_what_was_defined() {
    let mut interpreter = Interpreter::new();
    let mut ast = Ast::new();
    assert_eq!(
        session(&mut interpreter, &mut ast, "var n = 2; fun twice(x) { return x * n; }"),
        (String::new(), String::new())
    );
    assert_eq!(
        session(&mut interpreter, &mut ast, "print twice(4); n = 3;"),
        ("8\n".to_string(), String::new())
    );
    assert_eq!(
        session(&mut interpreter, &mut ast, "print twice(4); print \"a\" + \"b\";"),
        ("12\nab\n".to_string(), String::new())
    );
    assert_eq!(ast.roots().len(), 6);
}

#[test]
fn a_session_reports_to_the_diagnostic_sink() {
    let mut interpreter = Interpreter::new();
    let mut ast = Ast::new();
    assert_eq!(
        session(&mut interpreter, &mut ast, "print 1;\nprint (2;\nprint 3;"),
        (
            "1\n".to_string(),
            "Expected \")\" after expression.\n[Line 2]: The program terminated due to a syntax error: Expected \")\" after expression.\n"
                .to_string()
        )
    );
    assert_eq!(
        session(&mut interpreter, &mut ast, "print nope;"),
        (String::new(), "[Line 1]: Undefined variable nope.\n".to_string())
    );
    assert_eq!(session(&mut interpreter, &mut ast, "print 4;"), ("4\n".to_string(), String::new()));
}

#[test]
fn one_sink_takes_both() {
    let mut interpreter = Interpreter::new();
    let mut ast = Ast::new();
    let mut ctx = Ctx { src: "print \"out\"; print missing;", out: SingleOutput::new(String::new()) };
    interpreter.load(&mut ctx, &mut ast);
    loop {
        let action = interpreter.step(&ast, None);
        if let Action::Done = action {
            break;
        }
        ctx.perform(&action, "");
    }
    assert_eq!(ctx.out.0, "out\n[Line 1]: Undefined variable missing.\n");
    assert_eq!(ctx.src, "print \"out\"; print missing;");
}

#[test]
fn an_unasked_number_is_ignored() {
    let mut interpreter = Interpreter::new();
    let mut ast = Ast::new();
    let mut ctx = Ctx { src: "print \"a\";", out: SingleOutput::new(String::new()) };
    interpreter.load(&mut ctx, &mut ast);
    loop {
        let action = interpreter.step(&ast, Some(7.0f64.to_bits()));
        if let Action::Done = action {
            break;
        }
        ctx.perform(&action, "");
    }
    assert_eq!(ctx.out.0, "a\n");
}

#[test]
fn a_number_that_is_asked_for_is_asked_for_again() {
    let mut interpreter = Interpreter::new();
    let mut ast = Ast::new();
    let mut ctx = Ctx { src: "print 1 + 2;", out: SingleOutput::new(String::new()) };
    interpreter.load(&mut ctx, &mut ast);
    let mut asked = 0;
    let mut pending = false;
    loop {
        let reply = if pending && asked % 2 == 0 { Some(5.0f64.to_bits()) } else { None };
        let action = interpreter.step(&ast, reply);
        match &action {
            Action::Done => break,
            Action::Number(_) => {
                asked += 1;
                pending = true;
            }
            Action::PrintNumber(bits) => {
                pending = false;
                ctx.perform(&action, &format!("{}", f64::from_bits(*bits)));
            }
            _ => pending = false,
        }
    }
    assert_eq!(ctx.out.0, "5\n");
    assert!(asked >= 6);
}
