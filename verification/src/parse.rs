//! The parser: recursive descent over a stream of tokens. Nodes go into
//! the arena; a declaration that cannot be parsed leaves a place holder
//! there, and the parser goes on behind it.
//!
//! What each function yields is what the rule of the same name in
//! [`crate::grammar`] yields on the tokens that the stream has yet to
//! deliver.

use crate::ast::{token_views, Ast, Expr, ExprIdx, ExprView, Lit, Stmt, StmtIdx, StmtView};
use crate::text::push_char;
use crate::grammar;
use crate::grammar::{Declared, ParseErrorView, Parsed, MAX_ARITY};
use crate::tokens::{Token, TokenKind, TokenStream};
use vstd::prelude::*;
use vstd::string::StringExecFns;

verus! {

/// A syntax error: the offending token and what was expected of it.
#[derive(Debug)]
pub struct Error {
    pub token: Token,
    pub message: String,
}

impl View for Error {
    type V = ParseErrorView;

    open spec fn view(&self) -> ParseErrorView {
        ParseErrorView { token: self.token@, message: self.message@ }
    }
}

impl Error {
    fn new(token: Token, message: &str) -> (e: Error)
        ensures
            e@ == (ParseErrorView { token: token@, message: message@ }),
    {
        Error { token, message: message.to_owned() }
    }
}

/// What a function that parses an expression has done, put together:
/// its result, the tokens that are left, and the arena.
pub open spec fn expr_outcome<S: TokenStream>(r: Result<Expr, Error>, stream: &S, ast: &Ast)
    -> Parsed<ExprView> {
    Parsed {
        out: match r {
            Ok(e) => Ok(e@),
            Err(e) => Err(e@),
        },
        rest: stream.remaining(),
        ast: ast@,
    }
}

/// What a function that parses a list of arguments has done.
pub open spec fn args_outcome<S: TokenStream>(r: Result<Vec<ExprIdx>, Error>, stream: &S, ast: &Ast)
    -> Parsed<Seq<ExprIdx>> {
    Parsed {
        out: match r {
            Ok(list) => Ok(list@),
            Err(e) => Err(e@),
        },
        rest: stream.remaining(),
        ast: ast@,
    }
}

/// What every function of the parser keeps: the stream and the arena stay
/// well formed, the arena only grows, and no token comes back.
pub open spec fn advanced<S: TokenStream>(before: &S, after: &S, was: &Ast, is: &Ast) -> bool {
    &&& after.wf()
    &&& is.wf()
    &&& is@.extends(was@)
    &&& after.remaining().len() <= before.remaining().len()
}

fn is_operator_kind(level: u8, kind: TokenKind) -> (r: bool)
    ensures
        r == grammar::is_operator(level as nat, kind),
{
    if level == 0 {
        kind == TokenKind::Slash || kind == TokenKind::Star
    } else if level == 1 {
        kind == TokenKind::Minus || kind == TokenKind::Plus
    } else if level == 2 {
        kind == TokenKind::Greater || kind == TokenKind::GreaterEqual || kind == TokenKind::Less
            || kind == TokenKind::LessEqual
    } else if level == 3 {
        kind == TokenKind::BangEqual || kind == TokenKind::EqualEqual
    } else if level == 4 {
        kind == TokenKind::And
    } else {
        kind == TokenKind::Or
    }
}

fn primary<S: TokenStream>(stream: &mut S, ast: &mut Ast) -> (r: Result<Expr, Error>)
    requires
        old(stream).wf(),
        old(ast).wf(),
    ensures
        advanced(old(stream), final(stream), old(ast), final(ast)),
        r is Ok ==> final(stream).remaining().len() < old(stream).remaining().len(),
        r matches Ok(e) ==> e@.below(final(ast)@.exprs.len() as int),
        expr_outcome(r, final(stream), final(ast)) == grammar::primary(
            old(stream).remaining(),
            old(ast)@,
        ),
    decreases old(stream).remaining().len(), 0nat,
{
    proof {
        stream.remaining_ends_with_eof();
    }
    let token = stream.peek();
    match token.kind {
        TokenKind::False => {
            stream.next();
            Ok(Expr::Literal(Lit::Bool(false)))
        },
        TokenKind::True => {
            stream.next();
            Ok(Expr::Literal(Lit::Bool(true)))
        },
        TokenKind::Nil => {
            stream.next();
            Ok(Expr::Literal(Lit::Nil))
        },
        TokenKind::Number => {
            stream.next();
            Ok(Expr::Literal(Lit::Number(token.lexeme)))
        },
        TokenKind::String => {
            stream.next();
            Ok(Expr::Literal(Lit::String(token.string_value())))
        },
        TokenKind::StringUnterminated => Err(Error::new(token, "Unterminated string.")),
        TokenKind::LeftParen => {
            stream.next();
            match expression(stream, ast) {
                Err(e) => Err(e),
                Ok(inner) => {
                    proof {
                        stream.remaining_ends_with_eof();
                    }
                    let close = stream.peek();
                    if close.kind == TokenKind::RightParen {
                        stream.next();
                        Ok(Expr::Grouping(ast.push_expr(inner)))
                    } else {
                        Err(Error::new(close, "Expected \")\" after expression."))
                    }
                },
            }
        },
        TokenKind::Identifier => {
            stream.next();
            Ok(Expr::Variable(token))
        },
        TokenKind::Eof => Err(Error::new(token, "Unexpected end of file.")),
        _ => Err(Error::new(token, "Expected expression.")),
    }
}

fn arguments<S: TokenStream>(stream: &mut S, ast: &mut Ast) -> (r: Result<Vec<ExprIdx>, Error>)
    requires
        old(stream).wf(),
        old(ast).wf(),
    ensures
        advanced(old(stream), final(stream), old(ast), final(ast)),
        r matches Ok(list) ==> forall|i: int|
            0 <= i < list@.len() ==> (#[trigger] list@[i]).pos() < final(ast)@.exprs.len(),
        args_outcome(r, final(stream), final(ast)) == grammar::arguments(
            Seq::empty(),
            old(stream).remaining(),
            old(ast)@,
        ),
    decreases old(stream).remaining().len(), 32nat,
{
    let mut args: Vec<ExprIdx> = Vec::new();
    loop
        invariant
            advanced(old(stream), stream, old(ast), ast),
            forall|i: int| 0 <= i < args@.len() ==> (#[trigger] args@[i]).pos() < ast@.exprs.len(),
            grammar::arguments(args@, stream.remaining(), ast@) == grammar::arguments(
                Seq::empty(),
                old(stream).remaining(),
                old(ast)@,
            ),
        decreases stream.remaining().len(),
    {
        if args.len() >= MAX_ARITY {
            let token = stream.next();
            return Err(Error::new(token, "Can't have more than 255 arguments."));
        }
        let arg = match expression(stream, ast) {
            Err(e) => {
                return Err(e);
            },
            Ok(x) => x,
        };
        let idx = ast.push_expr(arg);
        args.push(idx);
        proof {
            stream.remaining_ends_with_eof();
        }
        let token = stream.peek();
        if token.kind == TokenKind::Comma {
            stream.next();
        } else {
            return Ok(args);
        }
    }
}

fn call<S: TokenStream>(stream: &mut S, ast: &mut Ast) -> (r: Result<Expr, Error>)
    requires
        old(stream).wf(),
        old(ast).wf(),
    ensures
        advanced(old(stream), final(stream), old(ast), final(ast)),
        r is Ok ==> final(stream).remaining().len() < old(stream).remaining().len(),
        r matches Ok(e) ==> e@.below(final(ast)@.exprs.len() as int),
        expr_outcome(r, final(stream), final(ast)) == grammar::call(
            old(stream).remaining(),
            old(ast)@,
        ),
    decreases old(stream).remaining().len(), 2nat,
{
    let mut expr = match primary(stream, ast) {
        Err(e) => {
            return Err(e);
        },
        Ok(x) => x,
    };
    loop
        invariant
            advanced(old(stream), stream, old(ast), ast),
            stream.remaining().len() < old(stream).remaining().len(),
            expr@.below(ast@.exprs.len() as int),
            grammar::call_loop(expr@, stream.remaining(), ast@) == grammar::call(
                old(stream).remaining(),
                old(ast)@,
            ),
        decreases stream.remaining().len(),
    {
        proof {
            stream.remaining_ends_with_eof();
        }
        let token = stream.peek();
        if token.kind != TokenKind::LeftParen {
            return Ok(expr);
        }
        stream.next();
        let callee = ast.push_expr(expr);
        proof {
            stream.remaining_ends_with_eof();
        }
        let first = stream.peek();
        let args = if first.kind != TokenKind::RightParen {
            match arguments(stream, ast) {
                Err(e) => {
                    return Err(e);
                },
                Ok(list) => list,
            }
        } else {
            Vec::new()
        };
        proof {
            stream.remaining_ends_with_eof();
        }
        let close = stream.peek();
        if close.kind != TokenKind::RightParen {
            return Err(Error::new(close, "Expect ')' after arguments."));
        }
        let paren = stream.next();
        expr = Expr::Call { callee, paren, args };
    }
}

fn unary<S: TokenStream>(stream: &mut S, ast: &mut Ast) -> (r: Result<Expr, Error>)
    requires
        old(stream).wf(),
        old(ast).wf(),
    ensures
        advanced(old(stream), final(stream), old(ast), final(ast)),
        r is Ok ==> final(stream).remaining().len() < old(stream).remaining().len(),
        r matches Ok(e) ==> e@.below(final(ast)@.exprs.len() as int),
        expr_outcome(r, final(stream), final(ast)) == grammar::unary(
            old(stream).remaining(),
            old(ast)@,
        ),
    decreases old(stream).remaining().len(), 3nat,
{
    proof {
        stream.remaining_ends_with_eof();
    }
    let token = stream.peek();
    if token.kind == TokenKind::Bang || token.kind == TokenKind::Minus {
        let operator = stream.next();
        match unary(stream, ast) {
            Err(e) => Err(e),
            Ok(right) => Ok(Expr::Unary(operator, ast.push_expr(right))),
        }
    } else {
        call(stream, ast)
    }
}

/// An expression of a level of binary operators: `factor` is level 0,
/// `term` 1, `comparison` 2, `equality` 3, `logic_and` 4, `logic_or` 5.
fn binary<S: TokenStream>(stream: &mut S, ast: &mut Ast, level: u8) -> (r: Result<Expr, Error>)
    requires
        old(stream).wf(),
        old(ast).wf(),
        level <= 5,
    ensures
        advanced(old(stream), final(stream), old(ast), final(ast)),
        r is Ok ==> final(stream).remaining().len() < old(stream).remaining().len(),
        r matches Ok(e) ==> e@.below(final(ast)@.exprs.len() as int),
        expr_outcome(r, final(stream), final(ast)) == grammar::binary(
            level as nat,
            old(stream).remaining(),
            old(ast)@,
        ),
    decreases old(stream).remaining().len(), 3 * level + 6,
{
    let first = if level == 0 {
        unary(stream, ast)
    } else {
        binary(stream, ast, level - 1)
    };
    let mut left = match first {
        Err(e) => {
            return Err(e);
        },
        Ok(x) => x,
    };
    loop
        invariant
            level <= 5,
            advanced(old(stream), stream, old(ast), ast),
            stream.remaining().len() < old(stream).remaining().len(),
            left@.below(ast@.exprs.len() as int),
            grammar::binary_loop(level as nat, left@, stream.remaining(), ast@) == grammar::binary(
                level as nat,
                old(stream).remaining(),
                old(ast)@,
            ),
        decreases stream.remaining().len(),
    {
        proof {
            stream.remaining_ends_with_eof();
        }
        let token = stream.peek();
        if !is_operator_kind(level, token.kind) {
            return Ok(left);
        }
        let ghost ts = stream.remaining();
        let ghost before = ast@;
        let operator = stream.next();
        assert(ts.len() > 1);
        assert(stream.remaining() == ts.skip(1));
        let second = if level == 0 {
            unary(stream, ast)
        } else {
            binary(stream, ast, level - 1)
        };
        assert(expr_outcome(second, stream, ast) == grammar::operand(
            level as nat,
            ts.skip(1),
            before,
        ));
        let right = match second {
            Err(e) => {
                return Err(e);
            },
            Ok(x) => x,
        };
        let l = ast.push_expr(left);
        let r = ast.push_expr(right);
        left = if level >= 4 {
            Expr::Logical(operator, l, r)
        } else {
            Expr::Binary(operator, l, r)
        };
    }
}

fn assignment<S: TokenStream>(stream: &mut S, ast: &mut Ast) -> (r: Result<Expr, Error>)
    requires
        old(stream).wf(),
        old(ast).wf(),
    ensures
        advanced(old(stream), final(stream), old(ast), final(ast)),
        r is Ok ==> final(stream).remaining().len() < old(stream).remaining().len(),
        r matches Ok(e) ==> e@.below(final(ast)@.exprs.len() as int),
        expr_outcome(r, final(stream), final(ast)) == grammar::assignment(
            old(stream).remaining(),
            old(ast)@,
        ),
    decreases old(stream).remaining().len(), 30nat,
{
    let left = match binary(stream, ast, 5) {
        Err(e) => {
            return Err(e);
        },
        Ok(x) => x,
    };
    proof {
        stream.remaining_ends_with_eof();
    }
    let token = stream.peek();
    if token.kind != TokenKind::Equal {
        return Ok(left);
    }
    let equals = stream.next();
    let value = match assignment(stream, ast) {
        Err(e) => {
            return Err(e);
        },
        Ok(x) => x,
    };
    match left {
        Expr::Variable(name) => Ok(Expr::Assign { var: name, value: ast.push_expr(value) }),
        _ => Err(Error::new(equals, "Invalid assignment target.")),
    }
}

fn expression<S: TokenStream>(stream: &mut S, ast: &mut Ast) -> (r: Result<Expr, Error>)
    requires
        old(stream).wf(),
        old(ast).wf(),
    ensures
        advanced(old(stream), final(stream), old(ast), final(ast)),
        r is Ok ==> final(stream).remaining().len() < old(stream).remaining().len(),
        r matches Ok(e) ==> e@.below(final(ast)@.exprs.len() as int),
        expr_outcome(r, final(stream), final(ast)) == grammar::expression(
            old(stream).remaining(),
            old(ast)@,
        ),
    decreases old(stream).remaining().len(), 31nat,
{
    assignment(stream, ast)
}

/// What a function that parses a statement has done, put together.
pub open spec fn stmt_parsed<S: TokenStream>(r: Result<Stmt, Error>, stream: &S, ast: &Ast)
    -> Parsed<StmtView> {
    Parsed {
        out: match r {
            Ok(s) => Ok(s@),
            Err(e) => Err(e@),
        },
        rest: stream.remaining(),
        ast: ast@,
    }
}

/// What a function that parses a statement, and may write diagnostics,
/// has done.
pub open spec fn stmt_outcome<S: TokenStream>(
    r: Result<Stmt, Error>,
    stream: &S,
    ast: &Ast,
    err: &String,
) -> Declared<StmtView> {
    Declared {
        out: match r {
            Ok(s) => Ok(s@),
            Err(e) => Err(e@),
        },
        rest: stream.remaining(),
        ast: ast@,
        diag: err@,
    }
}

/// What a function that parses a block has done.
pub open spec fn block_outcome<S: TokenStream>(
    r: Result<Vec<StmtIdx>, Error>,
    stream: &S,
    ast: &Ast,
    err: &String,
) -> Declared<Seq<StmtIdx>> {
    Declared {
        out: match r {
            Ok(list) => Ok(list@),
            Err(e) => Err(e@),
        },
        rest: stream.remaining(),
        ast: ast@,
        diag: err@,
    }
}

/// Whether a statement can be stored in the arena as it stands.
pub open spec fn storable(stmt: Stmt, ast: &Ast) -> bool {
    stmt@.below(ast@.stmts.len() as int, ast@.exprs.len() as int)
}

fn expression_statement<S: TokenStream>(stream: &mut S, ast: &mut Ast) -> (r: Result<Stmt, Error>)
    requires
        old(stream).wf(),
        old(ast).wf(),
    ensures
        advanced(old(stream), final(stream), old(ast), final(ast)),
        r is Ok ==> final(stream).remaining().len() < old(stream).remaining().len(),
        r matches Ok(s) ==> storable(s, final(ast)),
        stmt_parsed(r, final(stream), final(ast)) == grammar::expression_statement(
            old(stream).remaining(),
            old(ast)@,
        ),
{
    let expr = match expression(stream, ast) {
        Err(e) => {
            return Err(e);
        },
        Ok(x) => x,
    };
    proof {
        stream.remaining_ends_with_eof();
    }
    let token = stream.peek();
    if token.kind == TokenKind::Semicolon {
        stream.next();
        Ok(Stmt::Expression(ast.push_expr(expr)))
    } else {
        Err(Error::new(token, "Expected ';' after expression."))
    }
}

fn print_statement<S: TokenStream>(stream: &mut S, ast: &mut Ast) -> (r: Result<Stmt, Error>)
    requires
        old(stream).wf(),
        old(ast).wf(),
    ensures
        advanced(old(stream), final(stream), old(ast), final(ast)),
        r matches Ok(s) ==> storable(s, final(ast)),
        stmt_parsed(r, final(stream), final(ast)) == grammar::print_statement(
            old(stream).remaining(),
            old(ast)@,
        ),
{
    let expr = match expression(stream, ast) {
        Err(e) => {
            return Err(e);
        },
        Ok(x) => x,
    };
    proof {
        stream.remaining_ends_with_eof();
    }
    let token = stream.peek();
    if token.kind == TokenKind::Semicolon {
        stream.next();
        Ok(Stmt::Print(ast.push_expr(expr)))
    } else {
        Err(Error::new(token, "Expected ';' after value."))
    }
}

fn return_statement<S: TokenStream>(keyword: Token, stream: &mut S, ast: &mut Ast) -> (r: Result<
    Stmt,
    Error,
>)
    requires
        old(stream).wf(),
        old(ast).wf(),
    ensures
        advanced(old(stream), final(stream), old(ast), final(ast)),
        r matches Ok(s) ==> storable(s, final(ast)),
        stmt_parsed(r, final(stream), final(ast)) == grammar::return_statement(
            keyword@,
            old(stream).remaining(),
            old(ast)@,
        ),
{
    proof {
        stream.remaining_ends_with_eof();
    }
    let first = stream.peek();
    if first.kind == TokenKind::Semicolon {
        stream.next();
        return Ok(Stmt::Return(keyword, None));
    }
    let expr = match expression(stream, ast) {
        Err(e) => {
            return Err(e);
        },
        Ok(x) => x,
    };
    proof {
        stream.remaining_ends_with_eof();
    }
    let token = stream.peek();
    if token.kind == TokenKind::Semicolon {
        stream.next();
        Ok(Stmt::Return(keyword, Some(ast.push_expr(expr))))
    } else {
        Err(Error::new(token, "Expected ';' after return value."))
    }
}

fn var_decl<S: TokenStream>(stream: &mut S, ast: &mut Ast) -> (r: Result<Stmt, Error>)
    requires
        old(stream).wf(),
        old(ast).wf(),
    ensures
        advanced(old(stream), final(stream), old(ast), final(ast)),
        r is Ok ==> final(stream).remaining().len() < old(stream).remaining().len(),
        r matches Ok(s) ==> storable(s, final(ast)),
        stmt_parsed(r, final(stream), final(ast)) == grammar::var_decl(
            old(stream).remaining(),
            old(ast)@,
        ),
{
    proof {
        stream.remaining_ends_with_eof();
    }
    let token = stream.peek();
    if token.kind != TokenKind::Identifier {
        return Err(Error::new(token, "Expected variable name."));
    }
    let name = stream.next();
    proof {
        stream.remaining_ends_with_eof();
    }
    let next = stream.peek();
    if next.kind == TokenKind::Equal {
        stream.next();
        let init = match expression(stream, ast) {
            Err(e) => {
                return Err(e);
            },
            Ok(x) => x,
        };
        proof {
            stream.remaining_ends_with_eof();
        }
        let last = stream.peek();
        if last.kind == TokenKind::Semicolon {
            stream.next();
            Ok(Stmt::VarDecl { name, init: Some(ast.push_expr(init)) })
        } else {
            Err(Error::new(last, "Expected ';' after variable declaration."))
        }
    } else if next.kind == TokenKind::Semicolon {
        stream.next();
        Ok(Stmt::VarDecl { name, init: None })
    } else {
        Err(Error::new(next, "Expected ';' after variable declaration."))
    }
}

fn begins_statement_kind(kind: TokenKind) -> (r: bool)
    ensures
        r == grammar::begins_statement(kind),
{
    kind == TokenKind::Eof || kind == TokenKind::Class || kind == TokenKind::Fun || kind
        == TokenKind::Var || kind == TokenKind::For || kind == TokenKind::If || kind
        == TokenKind::While || kind == TokenKind::Print || kind == TokenKind::Return
}

/// Finds the parser's feet again after an error: takes tokens until the
/// one taken last is a semicolon, or the next one begins a statement or
/// ends the input.
fn synchronize<S: TokenStream>(stream: &mut S)
    requires
        old(stream).wf(),
    ensures
        final(stream).wf(),
        final(stream).remaining() == grammar::synchronized(old(stream).remaining()),
        final(stream).remaining().len() <= old(stream).remaining().len(),
        old(stream).remaining().len() > 1 ==> final(stream).remaining().len() < old(
            stream,
        ).remaining().len(),
{
    let mut current = stream.next();
    loop
        invariant
            stream.wf(),
            stream.remaining().len() <= old(stream).remaining().len(),
            old(stream).remaining().len() > 1 ==> stream.remaining().len() < old(
                stream,
            ).remaining().len(),
            grammar::resynchronized(current@, stream.remaining()) == grammar::synchronized(
                old(stream).remaining(),
            ),
        decreases stream.remaining().len(),
    {
        proof {
            stream.remaining_ends_with_eof();
        }
        if current.kind == TokenKind::Semicolon {
            return ;
        }
        let next = stream.peek();
        if begins_statement_kind(next.kind) {
            return ;
        }
        current = stream.next();
    }
}

/// The statement that a `for` loop stands for, stored but for its
/// outermost node.
fn desugar(
    init: Option<Stmt>,
    cond: Option<Expr>,
    inc: Option<Expr>,
    body: Stmt,
    ast: &mut Ast,
) -> (stmt: Stmt)
    requires
        old(ast).wf(),
        storable(body, old(ast)),
        init matches Some(s) ==> storable(s, old(ast)),
        cond matches Some(e) ==> e@.below(old(ast)@.exprs.len() as int),
        inc matches Some(e) ==> e@.below(old(ast)@.exprs.len() as int),
    ensures
        final(ast).wf(),
        final(ast)@.extends(old(ast)@),
        storable(stmt, final(ast)),
        (stmt@, final(ast)@) == grammar::desugared(
            match init {
                Some(s) => Some(s@),
                None => None,
            },
            match cond {
                Some(e) => Some(e@),
                None => None,
            },
            match inc {
                Some(e) => Some(e@),
                None => None,
            },
            body@,
            old(ast)@,
        ),
{
    let looped = match inc {
        Some(i) => {
            let step = ast.push_expr(i);
            let mut both: Vec<StmtIdx> = Vec::new();
            both.push(ast.push_stmt(body));
            both.push(ast.push_stmt(Stmt::Expression(step)));
            assert(both@ =~= seq![both@[0], both@[1]]);
            Stmt::Block(both)
        },
        None => body,
    };
    let test = match cond {
        Some(c) => c,
        None => Expr::Literal(Lit::Bool(true)),
    };
    let cond_idx = ast.push_expr(test);
    let body_idx = ast.push_stmt(looped);
    let repeat = Stmt::While { cond: cond_idx, body: body_idx };
    match init {
        Some(s) => {
            let mut both: Vec<StmtIdx> = Vec::new();
            both.push(ast.push_stmt(s));
            both.push(ast.push_stmt(repeat));
            assert(both@ =~= seq![both@[0], both@[1]]);
            Stmt::Block(both)
        },
        None => {
            let mut only: Vec<StmtIdx> = Vec::new();
            only.push(ast.push_stmt(repeat));
            assert(only@ =~= seq![only@[0]]);
            Stmt::Block(only)
        },
    }
}

fn for_initializer<S: TokenStream>(stream: &mut S, ast: &mut Ast) -> (r: Result<
    Option<Stmt>,
    Error,
>)
    requires
        old(stream).wf(),
        old(ast).wf(),
    ensures
        advanced(old(stream), final(stream), old(ast), final(ast)),
        r matches Ok(Some(s)) ==> storable(s, final(ast)),
        (Parsed {
            out: match r {
                Ok(Some(s)) => Ok(Some(s@)),
                Ok(None) => Ok(None),
                Err(e) => Err(e@),
            },
            rest: final(stream).remaining(),
            ast: final(ast)@,
        }) == grammar::for_initializer(old(stream).remaining(), old(ast)@),
{
    proof {
        stream.remaining_ends_with_eof();
    }
    let first = stream.peek();
    if first.kind == TokenKind::Semicolon {
        stream.next();
        return Ok(None);
    }
    let parsed = if first.kind == TokenKind::Var {
        stream.next();
        var_decl(stream, ast)
    } else {
        expression_statement(stream, ast)
    };
    match parsed {
        Err(e) => Err(e),
        Ok(s) => Ok(Some(s)),
    }
}

fn optional_expression<S: TokenStream>(stop: TokenKind, stream: &mut S, ast: &mut Ast) -> (r:
    Result<Option<Expr>, Error>)
    requires
        old(stream).wf(),
        old(ast).wf(),
    ensures
        advanced(old(stream), final(stream), old(ast), final(ast)),
        r matches Ok(Some(e)) ==> e@.below(final(ast)@.exprs.len() as int),
        (Parsed {
            out: match r {
                Ok(Some(e)) => Ok(Some(e@)),
                Ok(None) => Ok(None),
                Err(e) => Err(e@),
            },
            rest: final(stream).remaining(),
            ast: final(ast)@,
        }) == grammar::optional_expression(stop, old(stream).remaining(), old(ast)@),
{
    proof {
        stream.remaining_ends_with_eof();
    }
    let token = stream.peek();
    if token.kind != stop {
        match expression(stream, ast) {
            Err(e) => Err(e),
            Ok(x) => Ok(Some(x)),
        }
    } else {
        Ok(None)
    }
}

/// The three clauses of a `for` loop.
struct Clauses {
    init: Option<Stmt>,
    cond: Option<Expr>,
    inc: Option<Expr>,
}

impl Clauses {
    spec fn view(&self) -> (Option<StmtView>, Option<ExprView>, Option<ExprView>) {
        (
            match self.init {
                Some(s) => Some(s@),
                None => None,
            },
            match self.cond {
                Some(e) => Some(e@),
                None => None,
            },
            match self.inc {
                Some(e) => Some(e@),
                None => None,
            },
        )
    }

    spec fn storable(&self, ast: &Ast) -> bool {
        &&& self.init matches Some(s) ==> storable(s, ast)
        &&& self.cond matches Some(e) ==> e@.below(ast@.exprs.len() as int)
        &&& self.inc matches Some(e) ==> e@.below(ast@.exprs.len() as int)
    }
}

fn for_clauses<S: TokenStream>(stream: &mut S, ast: &mut Ast) -> (r: Result<Clauses, Error>)
    requires
        old(stream).wf(),
        old(ast).wf(),
    ensures
        advanced(old(stream), final(stream), old(ast), final(ast)),
        r matches Ok(c) ==> c.storable(final(ast)),
        (Parsed {
            out: match r {
                Ok(c) => Ok(c.view()),
                Err(e) => Err(e@),
            },
            rest: final(stream).remaining(),
            ast: final(ast)@,
        }) == grammar::for_clauses(old(stream).remaining(), old(ast)@),
{
    let init = match for_initializer(stream, ast) {
        Err(e) => {
            return Err(e);
        },
        Ok(x) => x,
    };
    let cond = match optional_expression(TokenKind::Semicolon, stream, ast) {
        Err(e) => {
            return Err(e);
        },
        Ok(x) => x,
    };
    proof {
        stream.remaining_ends_with_eof();
    }
    let semicolon = stream.peek();
    if semicolon.kind != TokenKind::Semicolon {
        return Err(Error::new(semicolon, "Expected ';' after loop condition."));
    }
    stream.next();
    let inc = match optional_expression(TokenKind::RightParen, stream, ast) {
        Err(e) => {
            return Err(e);
        },
        Ok(x) => x,
    };
    proof {
        stream.remaining_ends_with_eof();
    }
    let close = stream.peek();
    if close.kind != TokenKind::RightParen {
        return Err(Error::new(close, "Expected ')' after for clauses."));
    }
    stream.next();
    Ok(Clauses { init, cond, inc })
}

#[verifier::rlimit(60)]
fn for_statement<S: TokenStream>(stream: &mut S, ast: &mut Ast, err: &mut String) -> (r: Result<
    Stmt,
    Error,
>)
    requires
        old(stream).wf(),
        old(ast).wf(),
    ensures
        advanced(old(stream), final(stream), old(ast), final(ast)),
        r matches Ok(s) ==> storable(s, final(ast)),
        stmt_outcome(r, final(stream), final(ast), final(err)) == grammar::for_statement(
            old(stream).remaining(),
            old(ast)@,
            old(err)@,
        ),
    decreases old(stream).remaining().len(), 45nat,
{
    proof {
        stream.remaining_ends_with_eof();
    }
    let open = stream.peek();
    if open.kind != TokenKind::LeftParen {
        return Err(Error::new(open, "Expected '(' after 'for'."));
    }
    stream.next();
    let clauses = match for_clauses(stream, ast) {
        Err(e) => {
            return Err(e);
        },
        Ok(c) => c,
    };
    let body = match statement(stream, ast, err) {
        Err(e) => {
            return Err(e);
        },
        Ok(s) => s,
    };
    Ok(desugar(clauses.init, clauses.cond, clauses.inc, body, ast))
}

/// The condition of an `if` or a `while`, in its parentheses.
fn condition<S: TokenStream>(stream: &mut S, ast: &mut Ast, open: &str, close: &str) -> (r: Result<
    Expr,
    Error,
>)
    requires
        old(stream).wf(),
        old(ast).wf(),
    ensures
        advanced(old(stream), final(stream), old(ast), final(ast)),
        r is Ok ==> final(stream).remaining().len() < old(stream).remaining().len(),
        r matches Ok(e) ==> e@.below(final(ast)@.exprs.len() as int),
        expr_outcome(r, final(stream), final(ast)) == grammar::condition(
            old(stream).remaining(),
            old(ast)@,
            open@,
            close@,
        ),
{
    proof {
        stream.remaining_ends_with_eof();
    }
    let first = stream.peek();
    if first.kind != TokenKind::LeftParen {
        return Err(Error::new(first, open));
    }
    stream.next();
    let cond = match expression(stream, ast) {
        Err(e) => {
            return Err(e);
        },
        Ok(x) => x,
    };
    proof {
        stream.remaining_ends_with_eof();
    }
    let last = stream.peek();
    if last.kind != TokenKind::RightParen {
        return Err(Error::new(last, close));
    }
    stream.next();
    Ok(cond)
}

#[verifier::rlimit(60)]
fn if_statement<S: TokenStream>(stream: &mut S, ast: &mut Ast, err: &mut String) -> (r: Result<
    Stmt,
    Error,
>)
    requires
        old(stream).wf(),
        old(ast).wf(),
    ensures
        advanced(old(stream), final(stream), old(ast), final(ast)),
        r matches Ok(s) ==> storable(s, final(ast)),
        stmt_outcome(r, final(stream), final(ast), final(err)) == grammar::if_statement(
            old(stream).remaining(),
            old(ast)@,
            old(err)@,
        ),
    decreases old(stream).remaining().len(), 45nat,
{
    let cond = match condition(
        stream,
        ast,
        "Expected '(' after 'if'.",
        "Expected ')' after if condition.",
    ) {
        Err(e) => {
            return Err(e);
        },
        Ok(x) => x,
    };
    let then_branch = match statement(stream, ast, err) {
        Err(e) => {
            return Err(e);
        },
        Ok(s) => s,
    };
    proof {
        stream.remaining_ends_with_eof();
    }
    let next = stream.peek();
    let else_branch = if next.kind == TokenKind::Else {
        stream.next();
        match statement(stream, ast, err) {
            Err(e) => {
                return Err(e);
            },
            Ok(s) => Some(s),
        }
    } else {
        None
    };
    let cond = ast.push_expr(cond);
    let then_branch = ast.push_stmt(then_branch);
    let else_branch = match else_branch {
        Some(s) => Some(ast.push_stmt(s)),
        None => None,
    };
    Ok(Stmt::If { cond, then_branch, else_branch })
}

#[verifier::rlimit(60)]
fn while_statement<S: TokenStream>(stream: &mut S, ast: &mut Ast, err: &mut String) -> (r: Result<
    Stmt,
    Error,
>)
    requires
        old(stream).wf(),
        old(ast).wf(),
    ensures
        advanced(old(stream), final(stream), old(ast), final(ast)),
        r matches Ok(s) ==> storable(s, final(ast)),
        stmt_outcome(r, final(stream), final(ast), final(err)) == grammar::while_statement(
            old(stream).remaining(),
            old(ast)@,
            old(err)@,
        ),
    decreases old(stream).remaining().len(), 45nat,
{
    let cond = match condition(
        stream,
        ast,
        "Expected '(' after 'while'.",
        "Expected ')' after condition.",
    ) {
        Err(e) => {
            return Err(e);
        },
        Ok(x) => x,
    };
    let body = match statement(stream, ast, err) {
        Err(e) => {
            return Err(e);
        },
        Ok(s) => s,
    };
    let cond = ast.push_expr(cond);
    let body = ast.push_stmt(body);
    Ok(Stmt::While { cond, body })
}

#[verifier::rlimit(60)]
fn statement<S: TokenStream>(stream: &mut S, ast: &mut Ast, err: &mut String) -> (r: Result<
    Stmt,
    Error,
>)
    requires
        old(stream).wf(),
        old(ast).wf(),
    ensures
        advanced(old(stream), final(stream), old(ast), final(ast)),
        r is Ok ==> final(stream).remaining().len() < old(stream).remaining().len(),
        r matches Ok(s) ==> storable(s, final(ast)),
        stmt_outcome(r, final(stream), final(ast), final(err)) == grammar::statement(
            old(stream).remaining(),
            old(ast)@,
            old(err)@,
        ),
    decreases old(stream).remaining().len(), 50nat,
{
    proof {
        stream.remaining_ends_with_eof();
    }
    let token = stream.peek();
    match token.kind {
        TokenKind::For => {
            stream.next();
            for_statement(stream, ast, err)
        },
        TokenKind::If => {
            stream.next();
            if_statement(stream, ast, err)
        },
        TokenKind::Print => {
            stream.next();
            print_statement(stream, ast)
        },
        TokenKind::Return => {
            let keyword = stream.next();
            return_statement(keyword, stream, ast)
        },
        TokenKind::While => {
            stream.next();
            while_statement(stream, ast, err)
        },
        TokenKind::LeftBrace => {
            stream.next();
            match block(stream, ast, err) {
                Err(e) => Err(e),
                Ok(list) => Ok(Stmt::Block(list)),
            }
        },
        _ => expression_statement(stream, ast),
    }
}

/// The parameters of a function, from the first one on.
fn parameters<S: TokenStream>(stream: &mut S) -> (r: Result<Vec<Token>, Error>)
    requires
        old(stream).wf(),
    ensures
        final(stream).wf(),
        final(stream).remaining().len() <= old(stream).remaining().len(),
        (
            match r {
                Ok(list) => Ok(token_views(list@)),
                Err(e) => Err(e@),
            },
            final(stream).remaining(),
        ) == grammar::parameters(Seq::empty(), old(stream).remaining()),
{
    let mut params: Vec<Token> = Vec::new();
    assert(token_views(params@) =~= Seq::empty());
    loop
        invariant
            stream.wf(),
            stream.remaining().len() <= old(stream).remaining().len(),
            grammar::parameters(token_views(params@), stream.remaining()) == grammar::parameters(
                Seq::empty(),
                old(stream).remaining(),
            ),
        decreases stream.remaining().len(),
    {
        proof {
            stream.remaining_ends_with_eof();
        }
        let param = stream.peek();
        if params.len() >= MAX_ARITY {
            return Err(Error::new(param, "Can't have more than 255 parameters."));
        }
        if param.kind != TokenKind::Identifier {
            return Err(Error::new(param, "Expected parameter name."));
        }
        let ghost before = token_views(params@);
        let taken = stream.next();
        params.push(taken);
        assert(token_views(params@) =~= before.push(param@));
        proof {
            stream.remaining_ends_with_eof();
        }
        let comma = stream.peek();
        if comma.kind == TokenKind::Comma {
            stream.next();
        } else {
            return Ok(params);
        }
    }
}

/// The head of a function declaration: its name and its parameters.
fn signature<S: TokenStream>(stream: &mut S) -> (r: Result<(Token, Vec<Token>), Error>)
    requires
        old(stream).wf(),
    ensures
        final(stream).wf(),
        final(stream).remaining().len() <= old(stream).remaining().len(),
        r is Ok ==> final(stream).remaining().len() < old(stream).remaining().len(),
        (
            match r {
                Ok((name, params)) => Ok((name@, token_views(params@))),
                Err(e) => Err(e@),
            },
            final(stream).remaining(),
        ) == grammar::signature(old(stream).remaining()),
{
    proof {
        stream.remaining_ends_with_eof();
    }
    let token = stream.peek();
    if token.kind != TokenKind::Identifier {
        return Err(Error::new(token, "Expected function name."));
    }
    let name = stream.next();
    proof {
        stream.remaining_ends_with_eof();
    }
    let open = stream.peek();
    if open.kind != TokenKind::LeftParen {
        return Err(Error::new(open, "Expected '(' after function name."));
    }
    stream.next();
    proof {
        stream.remaining_ends_with_eof();
    }
    let first = stream.peek();
    let params = if first.kind != TokenKind::RightParen {
        match parameters(stream) {
            Err(e) => {
                return Err(e);
            },
            Ok(list) => list,
        }
    } else {
        let none: Vec<Token> = Vec::new();
        assert(token_views(none@) =~= Seq::empty());
        none
    };
    proof {
        stream.remaining_ends_with_eof();
    }
    let close = stream.peek();
    if close.kind != TokenKind::RightParen {
        return Err(Error::new(close, "Expected ')' after parameters."));
    }
    stream.next();
    proof {
        stream.remaining_ends_with_eof();
    }
    let brace = stream.peek();
    if brace.kind != TokenKind::LeftBrace {
        return Err(Error::new(brace, "Expected '{' before function body."));
    }
    stream.next();
    Ok((name, params))
}

#[verifier::rlimit(60)]
fn fun_decl<S: TokenStream>(stream: &mut S, ast: &mut Ast, err: &mut String) -> (r: Result<
    Stmt,
    Error,
>)
    requires
        old(stream).wf(),
        old(ast).wf(),
    ensures
        advanced(old(stream), final(stream), old(ast), final(ast)),
        r matches Ok(s) ==> storable(s, final(ast)),
        stmt_outcome(r, final(stream), final(ast), final(err)) == grammar::fun_decl(
            old(stream).remaining(),
            old(ast)@,
            old(err)@,
        ),
    decreases old(stream).remaining().len(), 45nat,
{
    let (name, params) = match signature(stream) {
        Err(e) => {
            return Err(e);
        },
        Ok(head) => head,
    };
    match block(stream, ast, err) {
        Err(e) => Err(e),
        Ok(body) => Ok(Stmt::Function { name, params, body }),
    }
}

/// Parses one declaration. A declaration that cannot be parsed yields a
/// place holder; its message is written to `err`, followed by a line
/// feed, and the stream is moved on to where parsing can take up again.
#[verifier::rlimit(60)]
fn declaration<S: TokenStream>(stream: &mut S, ast: &mut Ast, err: &mut String) -> (stmt: Stmt)
    requires
        old(stream).wf(),
        old(ast).wf(),
    ensures
        advanced(old(stream), final(stream), old(ast), final(ast)),
        old(stream).remaining().len() > 1 ==> final(stream).remaining().len() < old(
            stream,
        ).remaining().len(),
        storable(stmt, final(ast)),
        stmt_outcome(Ok(stmt), final(stream), final(ast), final(err)) == grammar::declaration(
            old(stream).remaining(),
            old(ast)@,
            old(err)@,
        ),
    decreases old(stream).remaining().len(), 55nat,
{
    proof {
        stream.remaining_ends_with_eof();
    }
    let token = stream.peek();
    let parsed = match token.kind {
        TokenKind::Fun => {
            stream.next();
            fun_decl(stream, ast, err)
        },
        TokenKind::Var => {
            stream.next();
            var_decl(stream, ast)
        },
        _ => statement(stream, ast, err),
    };
    match parsed {
        Ok(stmt) => stmt,
        Err(e) => {
            let ghost before = err@;
            err.append(e.message.as_str());
            push_char(err, '\n');
            assert(err@ =~= before + e.message@ + seq!['\n']);
            synchronize(stream);
            Stmt::ParseErr(e.token, e.message)
        },
    }
}

#[verifier::rlimit(60)]
fn block<S: TokenStream>(stream: &mut S, ast: &mut Ast, err: &mut String) -> (r: Result<
    Vec<StmtIdx>,
    Error,
>)
    requires
        old(stream).wf(),
        old(ast).wf(),
    ensures
        advanced(old(stream), final(stream), old(ast), final(ast)),
        r matches Ok(list) ==> crate::ast::stmts_below(list@, final(ast)@.stmts.len() as int),
        block_outcome(r, final(stream), final(ast), final(err)) == grammar::block(
            old(stream).remaining(),
            old(ast)@,
            old(err)@,
        ),
    decreases old(stream).remaining().len(), 60nat,
{
    let mut stmts: Vec<StmtIdx> = Vec::new();
    loop
        invariant
            advanced(old(stream), stream, old(ast), ast),
            crate::ast::stmts_below(stmts@, ast@.stmts.len() as int),
            grammar::block_loop(stmts@, stream.remaining(), ast@, err@) == grammar::block_loop(
                Seq::empty(),
                old(stream).remaining(),
                old(ast)@,
                old(err)@,
            ),
        ensures
            grammar::block_loop(Seq::empty(), old(stream).remaining(), old(ast)@, old(err)@) == (
            Declared {
                out: Ok::<Seq<StmtIdx>, ParseErrorView>(stmts@),
                rest: stream.remaining(),
                ast: ast@,
                diag: err@,
            }),
        decreases stream.remaining().len(),
    {
        proof {
            stream.remaining_ends_with_eof();
        }
        let token = stream.peek();
        if token.kind == TokenKind::RightBrace || token.kind == TokenKind::Eof {
            break ;
        }
        let stmt = declaration(stream, ast, err);
        let idx = ast.push_stmt(stmt);
        stmts.push(idx);
    }
    proof {
        stream.remaining_ends_with_eof();
    }
    let close = stream.peek();
    if close.kind == TokenKind::RightBrace {
        stream.next();
        Ok(stmts)
    } else {
        Err(Error::new(close, "Expect '}' after block."))
    }
}

/// Parses the tokens of `stream` to the end of the input, into `ast`:
/// every declaration becomes a root of the arena, in source order, after
/// the roots that the arena has. Syntax errors are written to `err`, one
/// line each; where a declaration could not be parsed stands a place
/// holder.
pub fn parse_into<S: TokenStream>(stream: S, ast: &mut Ast, err: &mut String)
    requires
        stream.wf(),
        old(ast).wf(),
    ensures
        final(ast).wf(),
        final(ast)@.extends(old(ast)@),
        (final(ast)@, final(err)@) == grammar::program(stream.remaining(), old(ast)@, old(err)@),
{
    let mut stream = stream;
    let ghost start = stream.remaining();
    loop
        invariant
            stream.wf(),
            ast.wf(),
            ast@.extends(old(ast)@),
            grammar::program(stream.remaining(), ast@, err@) == grammar::program(
                start,
                old(ast)@,
                old(err)@,
            ),
        ensures
            (ast@, err@) == grammar::program(start, old(ast)@, old(err)@),
        decreases stream.remaining().len(),
    {
        proof {
            stream.remaining_ends_with_eof();
        }
        let token = stream.peek();
        if token.kind == TokenKind::Eof {
            break ;
        }
        let stmt = declaration(&mut stream, ast, err);
        ast.push_root_stmt(stmt);
    }
}

/// Parses a program: the arena of [`parse_into`], begun empty.
pub fn parse<S: TokenStream>(stream: S, err: &mut String) -> (ast: Ast)
    requires
        stream.wf(),
    ensures
        ast.wf(),
        (ast@, final(err)@) == grammar::program(stream.remaining(), Ast::new_view(), old(err)@),
{
    let mut ast = Ast::new();
    parse_into(stream, &mut ast, err);
    ast
}


} // verus!
