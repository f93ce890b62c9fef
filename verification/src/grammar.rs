//! The grammar, as mathematics: what the parser makes of a sequence of
//! tokens.
//!
//! ```text
//! program     → declaration* EOF
//! declaration → fun_decl | var_decl | statement
//! fun_decl    → "fun" IDENT "(" params? ")" block
//! params      → IDENT ("," IDENT)*
//! var_decl    → "var" IDENT ("=" expression)? ";"
//! statement   → expr_stmt | for_stmt | if_stmt | print_stmt | return_stmt
//!             | while_stmt | block
//! for_stmt    → "for" "(" (var_decl | expr_stmt | ";")
//!               expression? ";" expression? ")" statement
//! if_stmt     → "if" "(" expression ")" statement ("else" statement)?
//! print_stmt  → "print" expression ";"
//! return_stmt → "return" expression? ";"
//! while_stmt  → "while" "(" expression ")" statement
//! block       → "{" declaration* "}"
//! expression  → assignment
//! assignment  → IDENT "=" assignment | logic_or
//! logic_or    → logic_and ("or" logic_and)*
//! logic_and   → equality ("and" equality)*
//! equality    → comparison (("!="|"==") comparison)*
//! comparison  → term ((">"|">="|"<"|"<=") term)*
//! term        → factor (("-"|"+") factor)*
//! factor      → unary (("/"|"*") unary)*
//! unary       → ("!"|"-") unary | call
//! call        → primary ("(" args? ")")*
//! args        → expression ("," expression)*
//! primary     → NUMBER | STRING | "true" | "false" | "nil"
//!             | "(" expression ")" | IDENT
//! ```
//!
//! Each function here takes the tokens that are left, the last of which
//! is the end-of-input token, and the arena as it stands, and says what
//! the rule yields, which tokens are left after it, and what the arena
//! holds then. Nodes go into the arena in the order in which the rules
//! finish them, so that a node is stored after the nodes that it names.

use crate::ast::{AstView, ExprIdx, ExprView, LitView, StmtIdx, StmtView};
use crate::tokens::{after_next, Token, TokenKind, TokenView};
use vstd::prelude::*;

verus! {

/// The greatest number of arguments of a call, and of parameters of a
/// function.
pub const MAX_ARITY: usize = 255;

/// A syntax error: the offending token and what was expected of it.
pub struct ParseErrorView {
    pub token: TokenView,
    pub message: Seq<char>,
}

/// What a rule of expressions yields.
pub struct Parsed<T> {
    pub out: Result<T, ParseErrorView>,
    /// The tokens that are left.
    pub rest: Seq<TokenView>,
    pub ast: AstView,
}

/// What a rule of statements yields.
pub struct Declared<T> {
    pub out: Result<T, ParseErrorView>,
    /// The tokens that are left.
    pub rest: Seq<TokenView>,
    pub ast: AstView,
    /// The diagnostics written so far, each followed by a line feed.
    pub diag: Seq<char>,
}

pub open spec fn accept<T>(value: T, rest: Seq<TokenView>, ast: AstView) -> Parsed<T> {
    Parsed { out: Ok(value), rest, ast }
}

pub open spec fn reject<T>(token: TokenView, message: Seq<char>, rest: Seq<TokenView>, ast: AstView)
    -> Parsed<T> {
    Parsed { out: Err(ParseErrorView { token, message }), rest, ast }
}

/// The outcome of a rule of expressions that failed, as the outcome of
/// the rule that called it.
pub open spec fn carry<T, U>(p: Parsed<T>) -> Parsed<U> {
    Parsed { out: Err(p.out->Err_0), rest: p.rest, ast: p.ast }
}

/// A rule of expressions as a rule of statements: it writes no diagnostic.
pub open spec fn lift<T>(p: Parsed<T>, diag: Seq<char>) -> Declared<T> {
    Declared { out: p.out, rest: p.rest, ast: p.ast, diag }
}

pub open spec fn refuse<T>(
    token: TokenView,
    message: Seq<char>,
    rest: Seq<TokenView>,
    ast: AstView,
    diag: Seq<char>,
) -> Declared<T> {
    Declared { out: Err(ParseErrorView { token, message }), rest, ast, diag }
}

pub open spec fn pass<T, U>(d: Declared<T>) -> Declared<U> {
    Declared { out: Err(d.out->Err_0), rest: d.rest, ast: d.ast, diag: d.diag }
}

/// `primary → NUMBER | STRING | "true" | "false" | "nil" | "(" expression ")" | IDENT`
pub open spec fn primary(ts: Seq<TokenView>, a: AstView) -> Parsed<ExprView>
    decreases ts.len(), 0nat,
{
    let t = ts[0];
    if t.kind == TokenKind::False {
        accept(ExprView::Literal(LitView::Bool(false)), after_next(ts), a)
    } else if t.kind == TokenKind::True {
        accept(ExprView::Literal(LitView::Bool(true)), after_next(ts), a)
    } else if t.kind == TokenKind::Nil {
        accept(ExprView::Literal(LitView::Nil), after_next(ts), a)
    } else if t.kind == TokenKind::Number {
        accept(ExprView::Literal(LitView::Number(t.lexeme)), after_next(ts), a)
    } else if t.kind == TokenKind::String {
        accept(
            ExprView::Literal(LitView::String(Token::spec_string_value(t))),
            after_next(ts),
            a,
        )
    } else if t.kind == TokenKind::StringUnterminated {
        reject(t, "Unterminated string."@, ts, a)
    } else if t.kind == TokenKind::LeftParen && ts.len() > 1 {
        let inner = expression(ts.skip(1), a);
        match inner.out {
            Err(_) => carry(inner),
            Ok(e) => if inner.rest[0].kind == TokenKind::RightParen {
                accept(
                    ExprView::Grouping(inner.ast.next_expr()),
                    after_next(inner.rest),
                    inner.ast.with_expr(e),
                )
            } else {
                reject(inner.rest[0], "Expected \")\" after expression."@, inner.rest, inner.ast)
            },
        }
    } else if t.kind == TokenKind::Identifier {
        accept(ExprView::Variable(t), after_next(ts), a)
    } else if t.kind == TokenKind::Eof {
        reject(t, "Unexpected end of file."@, ts, a)
    } else {
        reject(t, "Expected expression."@, ts, a)
    }
}

/// What follows a callee: any number of argument lists. The callee is
/// stored before its arguments are parsed.
pub open spec fn call_loop(callee: ExprView, ts: Seq<TokenView>, a: AstView) -> Parsed<ExprView>
    decreases ts.len(), 1nat,
{
    if ts[0].kind == TokenKind::LeftParen && ts.len() > 1 {
        let ts1 = ts.skip(1);
        let stored = a.with_expr(callee);
        let args = if ts1[0].kind != TokenKind::RightParen {
            arguments(Seq::empty(), ts1, stored)
        } else {
            accept(Seq::empty(), ts1, stored)
        };
        match args.out {
            Err(_) => carry(args),
            Ok(list) => if args.rest[0].kind == TokenKind::RightParen {
                let node = ExprView::Call { callee: a.next_expr(), paren: args.rest[0], args: list };
                if args.rest.len() <= ts1.len() {
                    call_loop(node, after_next(args.rest), args.ast)
                } else {
                    accept(node, after_next(args.rest), args.ast)
                }
            } else {
                reject(args.rest[0], "Expect ')' after arguments."@, args.rest, args.ast)
            },
        }
    } else {
        accept(callee, ts, a)
    }
}

/// `call → primary ("(" args? ")")*`
pub open spec fn call(ts: Seq<TokenView>, a: AstView) -> Parsed<ExprView>
    decreases ts.len(), 2nat,
{
    let p = primary(ts, a);
    match p.out {
        Err(_) => p,
        Ok(callee) => if p.rest.len() <= ts.len() {
            call_loop(callee, p.rest, p.ast)
        } else {
            p
        },
    }
}

/// `unary → ("!"|"-") unary | call`
pub open spec fn unary(ts: Seq<TokenView>, a: AstView) -> Parsed<ExprView>
    decreases ts.len(), 3nat,
{
    if (ts[0].kind == TokenKind::Bang || ts[0].kind == TokenKind::Minus) && ts.len() > 1 {
        let r = unary(ts.skip(1), a);
        match r.out {
            Err(_) => r,
            Ok(x) => accept(ExprView::Unary(ts[0], r.ast.next_expr()), r.rest, r.ast.with_expr(x)),
        }
    } else {
        call(ts, a)
    }
}

/// The operators of a level of binary expressions, from the one that
/// binds most: 0 `/ *`, 1 `- +`, 2 `> >= < <=`, 3 `!= ==`, 4 `and`,
/// 5 `or`.
pub open spec fn is_operator(level: nat, kind: TokenKind) -> bool {
    if level == 0 {
        kind == TokenKind::Slash || kind == TokenKind::Star
    } else if level == 1 {
        kind == TokenKind::Minus || kind == TokenKind::Plus
    } else if level == 2 {
        kind == TokenKind::Greater || kind == TokenKind::GreaterEqual || kind == TokenKind::Less
            || kind == TokenKind::LessEqual
    } else if level == 3 {
        kind == TokenKind::BangEqual || kind == TokenKind::EqualEqual
    } else if level == 4 {
        kind == TokenKind::And
    } else {
        kind == TokenKind::Or
    }
}

/// An operand of a level: an expression of the level that binds more.
pub open spec fn operand(level: nat, ts: Seq<TokenView>, a: AstView) -> Parsed<ExprView>
    decreases ts.len(), 3 * level + 4,
{
    if level == 0 {
        unary(ts, a)
    } else {
        binary((level - 1) as nat, ts, a)
    }
}

/// What follows the left operand of a level: any number of operators,
/// each with its right operand. The operators associate to the left.
pub open spec fn binary_loop(level: nat, left: ExprView, ts: Seq<TokenView>, a: AstView) -> Parsed<
    ExprView,
>
    decreases ts.len(), 3 * level + 5,
{
    if is_operator(level, ts[0].kind) && ts.len() > 1 {
        let r = operand(level, ts.skip(1), a);
        match r.out {
            Err(_) => r,
            Ok(right) => {
                let with_left = r.ast.with_expr(left);
                let node = if level >= 4 {
                    ExprView::Logical(ts[0], r.ast.next_expr(), with_left.next_expr())
                } else {
                    ExprView::Binary(ts[0], r.ast.next_expr(), with_left.next_expr())
                };
                let stored = with_left.with_expr(right);
                if r.rest.len() < ts.len() {
                    binary_loop(level, node, r.rest, stored)
                } else {
                    accept(node, r.rest, stored)
                }
            },
        }
    } else {
        accept(left, ts, a)
    }
}

/// An expression of a level of binary operators.
pub open spec fn binary(level: nat, ts: Seq<TokenView>, a: AstView) -> Parsed<ExprView>
    decreases ts.len(), 3 * level + 6,
{
    let l = operand(level, ts, a);
    match l.out {
        Err(_) => l,
        Ok(left) => if l.rest.len() <= ts.len() {
            binary_loop(level, left, l.rest, l.ast)
        } else {
            l
        },
    }
}

/// `assignment → IDENT "=" assignment | logic_or`
///
/// The left side is parsed as an expression. If `=` follows, the left
/// side must be a variable, and nothing else.
pub open spec fn assignment(ts: Seq<TokenView>, a: AstView) -> Parsed<ExprView>
    decreases ts.len(), 30nat,
{
    let l = binary(5, ts, a);
    match l.out {
        Err(_) => l,
        Ok(left) => if l.rest[0].kind == TokenKind::Equal && 1 < l.rest.len() <= ts.len() {
            let v = assignment(l.rest.skip(1), l.ast);
            match v.out {
                Err(_) => v,
                Ok(value) => match left {
                    ExprView::Variable(name) => accept(
                        ExprView::Assign { var: name, value: v.ast.next_expr() },
                        v.rest,
                        v.ast.with_expr(value),
                    ),
                    _ => reject(l.rest[0], "Invalid assignment target."@, v.rest, v.ast),
                },
            }
        } else {
            l
        },
    }
}

/// `expression → assignment`
pub open spec fn expression(ts: Seq<TokenView>, a: AstView) -> Parsed<ExprView>
    decreases ts.len(), 31nat,
{
    assignment(ts, a)
}

/// `args → expression ("," expression)*`, after the arguments `acc`.
/// Each argument is stored when it is parsed.
pub open spec fn arguments(acc: Seq<ExprIdx>, ts: Seq<TokenView>, a: AstView) -> Parsed<
    Seq<ExprIdx>,
>
    decreases ts.len(), 32nat,
{
    if acc.len() >= MAX_ARITY {
        reject(ts[0], "Can't have more than 255 arguments."@, after_next(ts), a)
    } else {
        let e = expression(ts, a);
        match e.out {
            Err(_) => carry(e),
            Ok(x) => {
                let list = acc.push(e.ast.next_expr());
                let stored = e.ast.with_expr(x);
                if e.rest[0].kind == TokenKind::Comma && 1 < e.rest.len() <= ts.len() {
                    arguments(list, e.rest.skip(1), stored)
                } else {
                    accept(list, e.rest, stored)
                }
            },
        }
    }
}

/// An expression, a semicolon, and the statement made of the expression.
pub open spec fn terminated(
    p: Parsed<ExprView>,
    make: spec_fn(ExprIdx) -> StmtView,
    message: Seq<char>,
) -> Parsed<StmtView> {
    match p.out {
        Err(_) => carry(p),
        Ok(x) => if p.rest[0].kind == TokenKind::Semicolon {
            accept(make(p.ast.next_expr()), after_next(p.rest), p.ast.with_expr(x))
        } else {
            reject(p.rest[0], message, p.rest, p.ast)
        },
    }
}

/// `expr_stmt → expression ";"`
pub open spec fn expression_statement(ts: Seq<TokenView>, a: AstView) -> Parsed<StmtView> {
    terminated(
        expression(ts, a),
        |e: ExprIdx| StmtView::Expression(e),
        "Expected ';' after expression."@,
    )
}

/// `print_stmt → "print" expression ";"`, after `print`.
pub open spec fn print_statement(ts: Seq<TokenView>, a: AstView) -> Parsed<StmtView> {
    terminated(expression(ts, a), |e: ExprIdx| StmtView::Print(e), "Expected ';' after value."@)
}

/// `return_stmt → "return" expression? ";"`, after `return`.
pub open spec fn return_statement(keyword: TokenView, ts: Seq<TokenView>, a: AstView) -> Parsed<
    StmtView,
> {
    if ts[0].kind == TokenKind::Semicolon {
        accept(StmtView::Return(keyword, None), after_next(ts), a)
    } else {
        terminated(
            expression(ts, a),
            |e: ExprIdx| StmtView::Return(keyword, Some(e)),
            "Expected ';' after return value."@,
        )
    }
}

/// `var_decl → "var" IDENT ("=" expression)? ";"`, after `var`.
pub open spec fn var_decl(ts: Seq<TokenView>, a: AstView) -> Parsed<StmtView> {
    if ts[0].kind != TokenKind::Identifier {
        reject(ts[0], "Expected variable name."@, ts, a)
    } else {
        let name = ts[0];
        let ts1 = after_next(ts);
        if ts1[0].kind == TokenKind::Equal {
            terminated(
                expression(after_next(ts1), a),
                |e: ExprIdx| StmtView::VarDecl { name, init: Some(e) },
                "Expected ';' after variable declaration."@,
            )
        } else if ts1[0].kind == TokenKind::Semicolon {
            accept(StmtView::VarDecl { name, init: None }, after_next(ts1), a)
        } else {
            reject(ts1[0], "Expected ';' after variable declaration."@, ts1, a)
        }
    }
}

/// Whether a statement can begin with `kind`, or the input ends there.
pub open spec fn begins_statement(kind: TokenKind) -> bool {
    kind == TokenKind::Eof || kind == TokenKind::Class || kind == TokenKind::Fun || kind
        == TokenKind::Var || kind == TokenKind::For || kind == TokenKind::If || kind
        == TokenKind::While || kind == TokenKind::Print || kind == TokenKind::Return
}

/// The tokens left after the parser, having met an error and taken the
/// token `current`, has found its feet again: it goes on taking tokens
/// until the one taken last is a semicolon, or the next one begins a
/// statement or ends the input.
pub open spec fn resynchronized(current: TokenView, ts: Seq<TokenView>) -> Seq<TokenView>
    decreases ts.len(),
{
    if current.kind == TokenKind::Semicolon || begins_statement(ts[0].kind) || ts.len() <= 1 {
        ts
    } else {
        resynchronized(ts[0], ts.skip(1))
    }
}

/// The tokens left after recovery from an error.
pub open spec fn synchronized(ts: Seq<TokenView>) -> Seq<TokenView> {
    resynchronized(ts[0], after_next(ts))
}

/// `params → IDENT ("," IDENT)*`, after the parameters `acc`.
pub open spec fn parameters(acc: Seq<TokenView>, ts: Seq<TokenView>) -> (
    Result<Seq<TokenView>, ParseErrorView>,
    Seq<TokenView>,
)
    decreases ts.len(),
{
    if acc.len() >= MAX_ARITY {
        (
            Err(
                ParseErrorView {
                    token: ts[0],
                    message: "Can't have more than 255 parameters."@,
                },
            ),
            ts,
        )
    } else if ts[0].kind != TokenKind::Identifier {
        (Err(ParseErrorView { token: ts[0], message: "Expected parameter name."@ }), ts)
    } else {
        let ts1 = after_next(ts);
        if ts1[0].kind == TokenKind::Comma && ts1.len() > 1 && ts1.len() < ts.len() {
            parameters(acc.push(ts[0]), ts1.skip(1))
        } else {
            (Ok(acc.push(ts[0])), ts1)
        }
    }
}

/// The statement that a `for` loop stands for: a block of the
/// initializer, if there is one, and a `while` loop. The block is there
/// without an initializer too, and then holds the `while` loop alone. The
/// loop's body is a block of the body and the increment, if there is an
/// increment, and the body itself if not; a condition that is left out
/// is `true`.
pub open spec fn desugared(
    init: Option<StmtView>,
    cond: Option<ExprView>,
    inc: Option<ExprView>,
    body: StmtView,
    a: AstView,
) -> (StmtView, AstView) {
    let (looped, a1) = match inc {
        Some(i) => {
            let with_inc = a.with_expr(i);
            let with_body = with_inc.with_stmt(body);
            (
                StmtView::Block(seq![with_inc.next_stmt(), with_body.next_stmt()]),
                with_body.with_stmt(StmtView::Expression(a.next_expr())),
            )
        },
        None => (body, a),
    };
    let test = match cond {
        Some(c) => c,
        None => ExprView::Literal(LitView::Bool(true)),
    };
    let a2 = a1.with_expr(test);
    let a3 = a2.with_stmt(looped);
    let repeat = StmtView::While { cond: a1.next_expr(), body: a2.next_stmt() };
    match init {
        Some(s) => {
            let a4 = a3.with_stmt(s);
            (StmtView::Block(seq![a3.next_stmt(), a4.next_stmt()]), a4.with_stmt(repeat))
        },
        None => (StmtView::Block(seq![a3.next_stmt()]), a3.with_stmt(repeat)),
    }
}

/// The first clause of a `for` loop: a declaration of a variable, an
/// expression statement, or nothing but a semicolon.
pub open spec fn for_initializer(ts: Seq<TokenView>, a: AstView) -> Parsed<Option<StmtView>> {
    if ts[0].kind == TokenKind::Semicolon {
        accept(None, after_next(ts), a)
    } else {
        let s = if ts[0].kind == TokenKind::Var {
            var_decl(after_next(ts), a)
        } else {
            expression_statement(ts, a)
        };
        match s.out {
            Err(_) => carry(s),
            Ok(x) => accept(Some(x), s.rest, s.ast),
        }
    }
}

/// An expression, unless the next token is of the kind `stop`.
pub open spec fn optional_expression(stop: TokenKind, ts: Seq<TokenView>, a: AstView) -> Parsed<
    Option<ExprView>,
> {
    if ts[0].kind != stop {
        let e = expression(ts, a);
        match e.out {
            Err(_) => carry(e),
            Ok(x) => accept(Some(x), e.rest, e.ast),
        }
    } else {
        accept(None, ts, a)
    }
}

/// The clauses of a `for` loop: initializer, condition and increment,
/// from after the opening parenthesis to after the closing one.
pub open spec fn for_clauses(ts: Seq<TokenView>, a: AstView) -> Parsed<
    (Option<StmtView>, Option<ExprView>, Option<ExprView>),
> {
    let init = for_initializer(ts, a);
    match init.out {
        Err(_) => carry(init),
        Ok(first) => {
            let cond = optional_expression(TokenKind::Semicolon, init.rest, init.ast);
            match cond.out {
                Err(_) => carry(cond),
                Ok(test) => if cond.rest[0].kind != TokenKind::Semicolon {
                    reject(cond.rest[0], "Expected ';' after loop condition."@, cond.rest, cond.ast)
                } else {
                    let inc = optional_expression(
                        TokenKind::RightParen,
                        after_next(cond.rest),
                        cond.ast,
                    );
                    match inc.out {
                        Err(_) => carry(inc),
                        Ok(step) => if inc.rest[0].kind != TokenKind::RightParen {
                            reject(
                                inc.rest[0],
                                "Expected ')' after for clauses."@,
                                inc.rest,
                                inc.ast,
                            )
                        } else {
                            accept((first, test, step), after_next(inc.rest), inc.ast)
                        },
                    }
                },
            }
        },
    }
}

/// `for_stmt`, after `for`.
pub open spec fn for_statement(ts: Seq<TokenView>, a: AstView, d: Seq<char>) -> Declared<StmtView>
    decreases ts.len(), 45nat,
{
    if ts[0].kind != TokenKind::LeftParen {
        refuse(ts[0], "Expected '(' after 'for'."@, ts, a, d)
    } else {
        let clauses = for_clauses(after_next(ts), a);
        match clauses.out {
            Err(_) => lift(carry(clauses), d),
            Ok(c) => if clauses.rest.len() < ts.len() {
                let body = statement(clauses.rest, clauses.ast, d);
                match body.out {
                    Err(_) => body,
                    Ok(b) => {
                        let (stmt, ast) = desugared(c.0, c.1, c.2, b, body.ast);
                        Declared { out: Ok(stmt), rest: body.rest, ast, diag: body.diag }
                    },
                }
            } else {
                lift(reject(clauses.rest[0], "Expected expression."@, clauses.rest, clauses.ast), d)
            },
        }
    }
}

/// The condition of an `if` or a `while`, in its parentheses.
pub open spec fn condition(
    ts: Seq<TokenView>,
    a: AstView,
    open: Seq<char>,
    close: Seq<char>,
) -> Parsed<ExprView> {
    if ts[0].kind != TokenKind::LeftParen {
        reject(ts[0], open, ts, a)
    } else {
        let c = expression(after_next(ts), a);
        match c.out {
            Err(_) => c,
            Ok(cond) => if c.rest[0].kind != TokenKind::RightParen {
                reject(c.rest[0], close, c.rest, c.ast)
            } else {
                accept(cond, after_next(c.rest), c.ast)
            },
        }
    }
}

/// `if_stmt`, after `if`.
pub open spec fn if_statement(ts: Seq<TokenView>, a: AstView, d: Seq<char>) -> Declared<StmtView>
    decreases ts.len(), 45nat,
{
    let c = condition(ts, a, "Expected '(' after 'if'."@, "Expected ')' after if condition."@);
    match c.out {
        Err(_) => lift(carry(c), d),
        Ok(cond) => if c.rest.len() < ts.len() {
            let t = statement(c.rest, c.ast, d);
            match t.out {
                Err(_) => t,
                Ok(then_branch) => if t.rest[0].kind == TokenKind::Else && 1 < t.rest.len()
                    <= c.rest.len() {
                    let e = statement(t.rest.skip(1), t.ast, t.diag);
                    match e.out {
                        Err(_) => e,
                        Ok(else_branch) => {
                            let a1 = e.ast.with_expr(cond);
                            let a2 = a1.with_stmt(then_branch);
                            Declared {
                                out: Ok(
                                    StmtView::If {
                                        cond: e.ast.next_expr(),
                                        then_branch: a1.next_stmt(),
                                        else_branch: Some(a2.next_stmt()),
                                    },
                                ),
                                rest: e.rest,
                                ast: a2.with_stmt(else_branch),
                                diag: e.diag,
                            }
                        },
                    }
                } else {
                    let a1 = t.ast.with_expr(cond);
                    Declared {
                        out: Ok(
                            StmtView::If {
                                cond: t.ast.next_expr(),
                                then_branch: a1.next_stmt(),
                                else_branch: None,
                            },
                        ),
                        rest: t.rest,
                        ast: a1.with_stmt(then_branch),
                        diag: t.diag,
                    }
                },
            }
        } else {
            lift(reject(c.rest[0], "Expected expression."@, c.rest, c.ast), d)
        },
    }
}

/// `while_stmt`, after `while`.
pub open spec fn while_statement(ts: Seq<TokenView>, a: AstView, d: Seq<char>) -> Declared<
    StmtView,
>
    decreases ts.len(), 45nat,
{
    let c = condition(ts, a, "Expected '(' after 'while'."@, "Expected ')' after condition."@);
    match c.out {
        Err(_) => lift(carry(c), d),
        Ok(cond) => if c.rest.len() < ts.len() {
            let b = statement(c.rest, c.ast, d);
            match b.out {
                Err(_) => b,
                Ok(body) => {
                    let a1 = b.ast.with_expr(cond);
                    Declared {
                        out: Ok(StmtView::While { cond: b.ast.next_expr(), body: a1.next_stmt() }),
                        rest: b.rest,
                        ast: a1.with_stmt(body),
                        diag: b.diag,
                    }
                },
            }
        } else {
            lift(reject(c.rest[0], "Expected expression."@, c.rest, c.ast), d)
        },
    }
}

/// `statement`
pub open spec fn statement(ts: Seq<TokenView>, a: AstView, d: Seq<char>) -> Declared<StmtView>
    decreases ts.len(), 50nat,
{
    let kind = ts[0].kind;
    if kind == TokenKind::For && ts.len() > 1 {
        for_statement(ts.skip(1), a, d)
    } else if kind == TokenKind::If && ts.len() > 1 {
        if_statement(ts.skip(1), a, d)
    } else if kind == TokenKind::Print && ts.len() > 1 {
        lift(print_statement(ts.skip(1), a), d)
    } else if kind == TokenKind::Return && ts.len() > 1 {
        lift(return_statement(ts[0], ts.skip(1), a), d)
    } else if kind == TokenKind::While && ts.len() > 1 {
        while_statement(ts.skip(1), a, d)
    } else if kind == TokenKind::LeftBrace && ts.len() > 1 {
        let b = block(ts.skip(1), a, d);
        match b.out {
            Err(_) => pass(b),
            Ok(list) => Declared {
                out: Ok(StmtView::Block(list)),
                rest: b.rest,
                ast: b.ast,
                diag: b.diag,
            },
        }
    } else {
        lift(expression_statement(ts, a), d)
    }
}

/// The head of a function declaration: its name and its parameters, from
/// after `fun` to after the brace that opens the body.
pub open spec fn signature(ts: Seq<TokenView>) -> (
    Result<(TokenView, Seq<TokenView>), ParseErrorView>,
    Seq<TokenView>,
) {
    if ts[0].kind != TokenKind::Identifier {
        (Err(ParseErrorView { token: ts[0], message: "Expected function name."@ }), ts)
    } else {
        let name = ts[0];
        let ts1 = after_next(ts);
        if ts1[0].kind != TokenKind::LeftParen {
            (
                Err(ParseErrorView { token: ts1[0], message: "Expected '(' after function name."@ }),
                ts1,
            )
        } else {
            let ts2 = after_next(ts1);
            let (params, ts3) = if ts2[0].kind != TokenKind::RightParen {
                parameters(Seq::empty(), ts2)
            } else {
                (Ok(Seq::empty()), ts2)
            };
            match params {
                Err(e) => (Err(e), ts3),
                Ok(list) => if ts3[0].kind != TokenKind::RightParen {
                    (
                        Err(
                            ParseErrorView {
                                token: ts3[0],
                                message: "Expected ')' after parameters."@,
                            },
                        ),
                        ts3,
                    )
                } else {
                    let ts4 = after_next(ts3);
                    if ts4[0].kind != TokenKind::LeftBrace {
                        (
                            Err(
                                ParseErrorView {
                                    token: ts4[0],
                                    message: "Expected '{' before function body."@,
                                },
                            ),
                            ts4,
                        )
                    } else {
                        (Ok((name, list)), after_next(ts4))
                    }
                },
            }
        }
    }
}

/// `fun_decl`, after `fun`.
pub open spec fn fun_decl(ts: Seq<TokenView>, a: AstView, d: Seq<char>) -> Declared<StmtView>
    decreases ts.len(), 45nat,
{
    let (head, rest) = signature(ts);
    match head {
        Err(e) => Declared { out: Err(e), rest, ast: a, diag: d },
        Ok((name, params)) => if rest.len() < ts.len() {
            let b = block(rest, a, d);
            match b.out {
                Err(_) => pass(b),
                Ok(body) => Declared {
                    out: Ok(StmtView::Function { name, params, body }),
                    rest: b.rest,
                    ast: b.ast,
                    diag: b.diag,
                },
            }
        } else {
            refuse(rest[0], "Expected '{' before function body."@, rest, a, d)
        },
    }
}

/// `declaration → fun_decl | var_decl | statement`
///
/// A declaration that cannot be parsed yields a place holder with the
/// error's token and message; the message goes to the diagnostics, and
/// the parser takes up again where `synchronized` says.
pub open spec fn declaration(ts: Seq<TokenView>, a: AstView, d: Seq<char>) -> Declared<StmtView>
    decreases ts.len(), 55nat,
{
    let r = if ts[0].kind == TokenKind::Fun && ts.len() > 1 {
        fun_decl(ts.skip(1), a, d)
    } else if ts[0].kind == TokenKind::Var && ts.len() > 1 {
        lift(var_decl(ts.skip(1), a), d)
    } else {
        statement(ts, a, d)
    };
    match r.out {
        Ok(_) => r,
        Err(e) => Declared {
            out: Ok(StmtView::ParseErr(e.token, e.message)),
            rest: synchronized(r.rest),
            ast: r.ast,
            diag: r.diag + e.message + seq!['\n'],
        },
    }
}

/// The declarations of a block, after the declarations `acc`. Each is
/// stored when it is parsed.
pub open spec fn block_loop(acc: Seq<StmtIdx>, ts: Seq<TokenView>, a: AstView, d: Seq<char>)
    -> Declared<Seq<StmtIdx>>
    decreases ts.len(), 59nat,
{
    if ts[0].kind != TokenKind::RightBrace && ts[0].kind != TokenKind::Eof && ts.len() > 1 {
        let s = declaration(ts, a, d);
        match s.out {
            Err(_) => pass(s),
            Ok(stmt) => {
                let list = acc.push(s.ast.next_stmt());
                let stored = s.ast.with_stmt(stmt);
                if s.rest.len() < ts.len() {
                    block_loop(list, s.rest, stored, s.diag)
                } else {
                    Declared { out: Ok(list), rest: s.rest, ast: stored, diag: s.diag }
                }
            },
        }
    } else {
        Declared { out: Ok(acc), rest: ts, ast: a, diag: d }
    }
}

/// `block → "{" declaration* "}"`, after `{`.
pub open spec fn block(ts: Seq<TokenView>, a: AstView, d: Seq<char>) -> Declared<Seq<StmtIdx>>
    decreases ts.len(), 60nat,
{
    let r = block_loop(Seq::empty(), ts, a, d);
    match r.out {
        Err(_) => r,
        Ok(list) => if r.rest[0].kind == TokenKind::RightBrace {
            Declared { rest: after_next(r.rest), ..r }
        } else {
            refuse(r.rest[0], "Expect '}' after block."@, r.rest, r.ast, r.diag)
        },
    }
}

/// `program → declaration* EOF`: every declaration becomes a root of the
/// arena, in source order.
pub open spec fn program(ts: Seq<TokenView>, a: AstView, d: Seq<char>) -> (AstView, Seq<char>)
    decreases ts.len(), 70nat,
{
    if ts[0].kind != TokenKind::Eof && ts.len() > 1 {
        let s = declaration(ts, a, d);
        match s.out {
            Err(_) => (s.ast, s.diag),
            Ok(stmt) => if s.rest.len() < ts.len() {
                program(s.rest, s.ast.with_root(stmt), s.diag)
            } else {
                (s.ast.with_root(stmt), s.diag)
            },
        }
    } else {
        (a, d)
    }
}

/// For desugaring: a `for` loop is stored as a block that holds a `while`
/// loop, behind the initializer where the loop has one. The `while`
/// loop's condition is the loop's own, or `true` where it has none; its
/// body is the loop's own, or a block of that body and then the increment
/// as a statement where it has an increment.
pub proof fn for_is_a_while_in_blocks(
    init: Option<StmtView>,
    cond: Option<ExprView>,
    inc: Option<ExprView>,
    body: StmtView,
    a: AstView,
)
    requires
        a.stmts.len() + 5 <= usize::MAX,
        a.exprs.len() + 2 <= usize::MAX,
    ensures
        ({
            let (stmt, ast) = desugared(init, cond, inc, body, a);
            let repeat = ast.stmts.last();
            &&& ast.extends(a)
            &&& repeat is While
            &&& ast.exprs[repeat->While_cond.pos() as int] == match cond {
                Some(c) => c,
                None => ExprView::Literal(LitView::Bool(true)),
            }
            &&& match inc {
                Some(i) => {
                    let looped = ast.stmts[repeat->While_body.pos() as int];
                    &&& looped is Block
                    &&& looped->Block_0.len() == 2
                    &&& ast.stmts[looped->Block_0[0].pos() as int] == body
                    &&& ast.stmts[looped->Block_0[1].pos() as int] is Expression
                    &&& ast.exprs[ast.stmts[looped->Block_0[1].pos() as int]->Expression_0.pos() as int]
                        == i
                },
                None => ast.stmts[repeat->While_body.pos() as int] == body,
            }
            &&& stmt is Block
            &&& match init {
                Some(s) => {
                    &&& stmt->Block_0.len() == 2
                    &&& ast.stmts[stmt->Block_0[0].pos() as int] == s
                    &&& ast.stmts[stmt->Block_0[1].pos() as int] == repeat
                },
                None => {
                    &&& stmt->Block_0.len() == 1
                    &&& ast.stmts[stmt->Block_0[0].pos() as int] == repeat
                },
            }
        }),
{
    StmtIdx::pos_at(a.stmts.len());
    StmtIdx::pos_at(a.stmts.len() + 1);
    StmtIdx::pos_at(a.stmts.len() + 2);
    StmtIdx::pos_at(a.stmts.len() + 3);
    StmtIdx::pos_at(a.stmts.len() + 4);
    ExprIdx::pos_at(a.exprs.len());
    ExprIdx::pos_at(a.exprs.len() + 1);
}

/// Whether a token of this kind is a literal on its own.
pub open spec fn is_literal(kind: TokenKind) -> bool {
    kind == TokenKind::False || kind == TokenKind::True || kind == TokenKind::Nil || kind
        == TokenKind::Number || kind == TokenKind::String
}

/// The literal that a literal token spells.
pub open spec fn literal_of(t: TokenView) -> LitView {
    if t.kind == TokenKind::False {
        LitView::Bool(false)
    } else if t.kind == TokenKind::True {
        LitView::Bool(true)
    } else if t.kind == TokenKind::Nil {
        LitView::Nil
    } else if t.kind == TokenKind::Number {
        LitView::Number(t.lexeme)
    } else {
        LitView::String(Token::spec_string_value(t))
    }
}

/// A literal before a semicolon is an expression of every level.
proof fn binary_of_a_literal(level: nat, ts: Seq<TokenView>, a: AstView)
    requires
        ts.len() > 2,
        is_literal(ts[0].kind),
        ts[1].kind == TokenKind::Semicolon,
    ensures
        binary(level, ts, a) == accept(ExprView::Literal(literal_of(ts[0])), ts.skip(1), a),
    decreases level,
{
    let atom = accept(ExprView::Literal(literal_of(ts[0])), ts.skip(1), a);
    assert(primary(ts, a) == atom);
    assert(call_loop(ExprView::Literal(literal_of(ts[0])), ts.skip(1), a) == atom);
    assert(call(ts, a) == atom);
    assert(unary(ts, a) == atom);
    if level > 0 {
        binary_of_a_literal((level - 1) as nat, ts, a);
    }
    assert(operand(level, ts, a) == atom);
    assert(binary_loop(level, ExprView::Literal(literal_of(ts[0])), ts.skip(1), a) == atom);
}

/// `print LITERAL;` is parsed to a print statement of the literal: the
/// literal is stored as the next expression, and the statement names it.
pub proof fn print_of_a_literal_parses(ts: Seq<TokenView>, a: AstView)
    requires
        ts.len() > 2,
        is_literal(ts[0].kind),
        ts[1].kind == TokenKind::Semicolon,
    ensures
        print_statement(ts, a) == accept(
            StmtView::Print(a.next_expr()),
            ts.skip(2),
            a.with_expr(ExprView::Literal(literal_of(ts[0]))),
        ),
{
    binary_of_a_literal(5, ts, a);
    assert(ts.skip(1).skip(1) =~= ts.skip(2));
    assert(assignment(ts, a) == binary(5, ts, a));
}


/// Whether `ts` is a program of `n` statements `print LITERAL;` and
/// nothing else.
pub open spec fn prints_literals(ts: Seq<TokenView>, n: nat) -> bool {
    &&& ts.len() == 3 * n + 1
    &&& ts[3 * n as int].kind == TokenKind::Eof
    &&& forall|i: int|
        0 <= i < n ==> {
            &&& (#[trigger] ts[3 * i]).kind == TokenKind::Print
            &&& is_literal(ts[3 * i + 1].kind)
            &&& ts[3 * i + 2].kind == TokenKind::Semicolon
        }
}

/// The literals of a program of `n` statements `print LITERAL;`.
pub open spec fn literals_of(ts: Seq<TokenView>, n: nat) -> Seq<LitView> {
    Seq::new(n, |i: int| literal_of(ts[3 * i + 1]))
}

/// The arena `a` with a statement behind it for each of the literals,
/// which prints the literal and is a root.
pub open spec fn printing(a: AstView, lits: Seq<LitView>) -> AstView
    decreases lits.len(),
{
    if lits.len() == 0 {
        a
    } else {
        printing(
            a.with_expr(ExprView::Literal(lits[0])).with_root(StmtView::Print(a.next_expr())),
            lits.skip(1),
        )
    }
}

/// The first statement of a program of statements `print LITERAL;` is
/// parsed to a print statement of its literal.
proof fn first_print_parses(ts: Seq<TokenView>, n: nat, a: AstView, d: Seq<char>)
    requires
        prints_literals(ts, n),
        n > 0,
    ensures
        declaration(ts, a, d) == (Declared {
            out: Ok(StmtView::Print(a.next_expr())),
            rest: ts.skip(3),
            ast: a.with_expr(ExprView::Literal(literal_of(ts[1]))),
            diag: d,
        }),
{
    assert(ts[3 * 0int].kind == TokenKind::Print);
    let ts1 = ts.skip(1);
    assert(ts1[0] == ts[3 * 0int + 1]);
    assert(ts1[1] == ts[3 * 0int + 2]);
    print_of_a_literal_parses(ts1, a);
    assert(ts1.skip(2) =~= ts.skip(3));
    assert(statement(ts, a, d) == lift(print_statement(ts1, a), d));
}

/// Behind the first statement of a program of statements
/// `print LITERAL;` stands such a program, of the other literals.
proof fn other_prints(ts: Seq<TokenView>, n: nat)
    requires
        prints_literals(ts, n),
        n > 0,
    ensures
        prints_literals(ts.skip(3), (n - 1) as nat),
        literals_of(ts.skip(3), (n - 1) as nat) == literals_of(ts, n).skip(1),
        literals_of(ts, n)[0] == literal_of(ts[1]),
{
    let rest = ts.skip(3);
    let fewer = (n - 1) as nat;
    assert(rest[3 * fewer as int] == ts[3 * n as int]);
    assert forall|i: int| 0 <= i < fewer implies {
        &&& (#[trigger] rest[3 * i]).kind == TokenKind::Print
        &&& is_literal(rest[3 * i + 1].kind)
        &&& rest[3 * i + 2].kind == TokenKind::Semicolon
    } by {
        assert(rest[3 * i] == ts[3 * (i + 1)]);
        assert(rest[3 * i + 1] == ts[3 * (i + 1) + 1]);
        assert(rest[3 * i + 2] == ts[3 * (i + 1) + 2]);
    }
    assert(literals_of(rest, fewer) =~= literals_of(ts, n).skip(1)) by {
        assert forall|i: int| 0 <= i < fewer implies literals_of(rest, fewer)[i] == literals_of(
            ts,
            n,
        ).skip(1)[i] by {
            assert(rest[3 * i + 1] == ts[3 * (i + 1) + 1]);
        }
    }
}

/// A program of statements `print LITERAL;` is parsed without a
/// diagnostic, to one root for each statement, in source order.
pub proof fn prints_parse(ts: Seq<TokenView>, n: nat, a: AstView, d: Seq<char>)
    requires
        prints_literals(ts, n),
    ensures
        program(ts, a, d) == (printing(a, literals_of(ts, n)), d),
    decreases n,
{
    if n == 0 {
        assert(literals_of(ts, n) =~= Seq::<LitView>::empty());
    } else {
        first_print_parses(ts, n, a, d);
        other_prints(ts, n);
        assert(ts[3 * 0int].kind == TokenKind::Print);
        let stored = a.with_expr(ExprView::Literal(literal_of(ts[1]))).with_root(
            StmtView::Print(a.next_expr()),
        );
        prints_parse(ts.skip(3), (n - 1) as nat, stored, d);
        assert(program(ts, a, d) == program(ts.skip(3), stored, d));
    }
}

/// Whether the statement `root` of the arena prints the literal `lit`.
pub open spec fn prints_at(ast: AstView, root: StmtIdx, lit: LitView) -> bool {
    &&& root.pos() < ast.stmts.len()
    &&& ast.stmts[root.pos() as int] is Print
    &&& ast.stmts[root.pos() as int]->Print_0.pos() < ast.exprs.len()
    &&& ast.exprs[ast.stmts[root.pos() as int]->Print_0.pos() as int] == ExprView::Literal(lit)
}

/// What the arena of `printing` holds: every node of `a`, and behind the
/// roots of `a` a root for each literal, which prints that literal.
pub proof fn printing_prints(a: AstView, lits: Seq<LitView>)
    requires
        a.stmts.len() + lits.len() <= usize::MAX,
        a.exprs.len() + lits.len() <= usize::MAX,
    ensures
        printing(a, lits).extends(a),
        printing(a, lits).roots.len() == a.roots.len() + lits.len(),
        forall|i: int|
            0 <= i < lits.len() ==> prints_at(
                printing(a, lits),
                #[trigger] printing(a, lits).roots[a.roots.len() + i],
                lits[i],
            ),
    decreases lits.len(),
{
    if lits.len() > 0 {
        let stored = a.with_expr(ExprView::Literal(lits[0])).with_root(
            StmtView::Print(a.next_expr()),
        );
        let r = printing(a, lits);
        printing_prints(stored, lits.skip(1));
        StmtIdx::pos_at(a.stmts.len());
        ExprIdx::pos_at(a.exprs.len());
        assert(r == printing(stored, lits.skip(1)));
        assert(stored.extends(a));
        assert forall|i: int| 0 <= i < lits.len() implies prints_at(
            r,
            #[trigger] r.roots[a.roots.len() + i],
            lits[i],
        ) by {
            if i == 0 {
                assert(r.roots[a.roots.len() as int] == stored.roots[a.roots.len() as int]);
                assert(r.stmts[a.stmts.len() as int] == stored.stmts[a.stmts.len() as int]);
                assert(r.exprs[a.exprs.len() as int] == stored.exprs[a.exprs.len() as int]);
            } else {
                assert(prints_at(r, r.roots[stored.roots.len() + (i - 1)], lits.skip(1)[i - 1]));
                assert(r.roots[stored.roots.len() + (i - 1)] == r.roots[a.roots.len() + i]);
                assert(lits.skip(1)[i - 1] == lits[i]);
            }
        }
    }
}

} // verus!
