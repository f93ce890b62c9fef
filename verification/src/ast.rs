//! The syntax tree, stored in an arena: two append-only pools of statements
//! and expressions, addressed by index, and the list of top-level
//! statements in source order.

use crate::tokens::{Token, TokenKind, TokenView};
use vstd::prelude::*;

verus! {

/// The index of a statement in its arena.
#[derive(Debug, Clone, Copy, PartialEq, Eq, Structural)]
pub struct StmtIdx(usize);

/// The index of an expression in its arena.
#[derive(Debug, Clone, Copy, PartialEq, Eq, Structural)]
pub struct ExprIdx(usize);

impl StmtIdx {
    /// The position in the statement pool that the index names.
    pub closed spec fn pos(self) -> nat {
        self.0 as nat
    }

    /// The index that names position `n`.
    pub closed spec fn at(n: nat) -> StmtIdx {
        StmtIdx(n as usize)
    }

    /// An index is known by its position.
    pub proof fn at_pos(self)
        ensures
            StmtIdx::at(self.pos()) == self,
            self.pos() <= usize::MAX,
    {
    }

    /// The index that names a position names that position.
    pub proof fn pos_at(n: nat)
        requires
            n <= usize::MAX,
        ensures
            StmtIdx::at(n).pos() == n,
    {
    }
}

impl ExprIdx {
    /// The position in the expression pool that the index names.
    pub closed spec fn pos(self) -> nat {
        self.0 as nat
    }

    /// The index that names position `n`.
    pub closed spec fn at(n: nat) -> ExprIdx {
        ExprIdx(n as usize)
    }

    /// An index is known by its position.
    pub proof fn at_pos(self)
        ensures
            ExprIdx::at(self.pos()) == self,
            self.pos() <= usize::MAX,
    {
    }

    /// The index that names a position names that position.
    pub proof fn pos_at(n: nat)
        requires
            n <= usize::MAX,
        ensures
            ExprIdx::at(n).pos() == n,
    {
    }
}

/// A literal value as it stands in the source.
#[derive(Debug)]
pub enum Lit {
    String(String),
    /// A number, by its decimal digits.
    Number(String),
    Bool(bool),
    Nil,
}

pub enum LitView {
    String(Seq<char>),
    Number(Seq<char>),
    Bool(bool),
    Nil,
}

impl View for Lit {
    type V = LitView;

    open spec fn view(&self) -> LitView {
        match self {
            Lit::String(s) => LitView::String(s@),
            Lit::Number(s) => LitView::Number(s@),
            Lit::Bool(b) => LitView::Bool(*b),
            Lit::Nil => LitView::Nil,
        }
    }
}

impl Clone for Lit {
    fn clone(&self) -> (r: Lit)
        ensures
            r@ == self@,
    {
        match self {
            Lit::String(s) => Lit::String(s.clone()),
            Lit::Number(s) => Lit::Number(s.clone()),
            Lit::Bool(b) => Lit::Bool(*b),
            Lit::Nil => Lit::Nil,
        }
    }
}

impl Lit {
    /// Only `false` and `nil` are falsey.
    pub fn is_truthy(&self) -> (r: bool)
        ensures
            r == !(self@ == LitView::Nil || self@ == LitView::Bool(false)),
    {
        match self {
            Lit::Nil => false,
            Lit::Bool(b) => *b,
            _ => true,
        }
    }
}

/// The values of the tokens of `tokens`.
pub open spec fn token_views(tokens: Seq<Token>) -> Seq<TokenView> {
    tokens.map_values(|t: Token| t@)
}

/// A copy of `tokens`.
pub fn clone_tokens(tokens: &Vec<Token>) -> (r: Vec<Token>)
    ensures
        token_views(r@) == token_views(tokens@),
{
    let mut r: Vec<Token> = Vec::new();
    let mut i: usize = 0;
    while i < tokens.len()
        invariant
            i <= tokens@.len(),
            r@.len() == i,
            forall|j: int| 0 <= j < i ==> (#[trigger] r@[j])@ == tokens@[j]@,
        decreases tokens@.len() - i,
    {
        r.push(tokens[i].clone());
        i += 1;
    }
    assert(token_views(r@) =~= token_views(tokens@));
    r
}

/// An expression node. Its operands are indices into the arena.
#[derive(Debug)]
pub enum Expr {
    Binary(Token, ExprIdx, ExprIdx),
    Grouping(ExprIdx),
    Literal(Lit),
    Unary(Token, ExprIdx),
    Variable(Token),
    Assign { var: Token, value: ExprIdx },
    Logical(Token, ExprIdx, ExprIdx),
    Call { callee: ExprIdx, paren: Token, args: Vec<ExprIdx> },
}

pub enum ExprView {
    Binary(TokenView, ExprIdx, ExprIdx),
    Grouping(ExprIdx),
    Literal(LitView),
    Unary(TokenView, ExprIdx),
    Variable(TokenView),
    Assign { var: TokenView, value: ExprIdx },
    Logical(TokenView, ExprIdx, ExprIdx),
    Call { callee: ExprIdx, paren: TokenView, args: Seq<ExprIdx> },
}

impl View for Expr {
    type V = ExprView;

    open spec fn view(&self) -> ExprView {
        match self {
            Expr::Binary(op, l, r) => ExprView::Binary(op@, *l, *r),
            Expr::Grouping(e) => ExprView::Grouping(*e),
            Expr::Literal(l) => ExprView::Literal(l@),
            Expr::Unary(op, e) => ExprView::Unary(op@, *e),
            Expr::Variable(t) => ExprView::Variable(t@),
            Expr::Assign { var, value } => ExprView::Assign { var: var@, value: *value },
            Expr::Logical(op, l, r) => ExprView::Logical(op@, *l, *r),
            Expr::Call { callee, paren, args } => ExprView::Call {
                callee: *callee,
                paren: paren@,
                args: args@,
            },
        }
    }
}

/// Whether `kind` is an operator of one operand: `!` or `-`.
pub open spec fn is_unary_operator(kind: TokenKind) -> bool {
    kind == TokenKind::Bang || kind == TokenKind::Minus
}

/// Whether `kind` is an operator of arithmetic.
pub open spec fn is_arithmetic_operator(kind: TokenKind) -> bool {
    kind == TokenKind::Minus || kind == TokenKind::Plus || kind == TokenKind::Slash || kind
        == TokenKind::Star
}

/// Whether `kind` is an operator of order.
pub open spec fn is_order_operator(kind: TokenKind) -> bool {
    kind == TokenKind::Greater || kind == TokenKind::GreaterEqual || kind == TokenKind::Less || kind
        == TokenKind::LessEqual
}

/// Whether `kind` is `==` or `!=`.
pub open spec fn is_equality_operator(kind: TokenKind) -> bool {
    kind == TokenKind::BangEqual || kind == TokenKind::EqualEqual
}

/// Whether `kind` is an operator of two operands, both of which are
/// always evaluated.
pub open spec fn is_binary_operator(kind: TokenKind) -> bool {
    is_arithmetic_operator(kind) || is_order_operator(kind) || is_equality_operator(kind)
}

impl ExprView {
    /// Whether every expression that the node names lies below `bound`,
    /// and the node's operator, if it has one, is of its kind.
    pub open spec fn below(self, bound: int) -> bool {
        match self {
            ExprView::Binary(op, l, r) => l.pos() < bound && r.pos() < bound
                && is_binary_operator(op.kind),
            ExprView::Grouping(e) => e.pos() < bound,
            ExprView::Literal(_) => true,
            ExprView::Unary(op, e) => e.pos() < bound && is_unary_operator(op.kind),
            ExprView::Variable(_) => true,
            ExprView::Assign { var, value } => value.pos() < bound,
            ExprView::Logical(_, l, r) => l.pos() < bound && r.pos() < bound,
            ExprView::Call { callee, paren, args } => callee.pos() < bound && forall|i: int|
                0 <= i < args.len() ==> (#[trigger] args[i]).pos() < bound,
        }
    }
}

/// A statement node. Its parts are indices into the arena.
#[derive(Debug)]
#[allow(inconsistent_fields)]
pub enum Stmt {
    If { cond: ExprIdx, then_branch: StmtIdx, else_branch: Option<StmtIdx> },
    While { cond: ExprIdx, body: StmtIdx },
    Print(ExprIdx),
    Return(Token, Option<ExprIdx>),
    VarDecl { name: Token, init: Option<ExprIdx> },
    Expression(ExprIdx),
    Block(Vec<StmtIdx>),
    Function { name: Token, params: Vec<Token>, body: Vec<StmtIdx> },
    /// Stands where a declaration could not be parsed: the offending token
    /// and the parser's message.
    ParseErr(Token, String),
}

#[allow(inconsistent_fields)]
pub enum StmtView {
    If { cond: ExprIdx, then_branch: StmtIdx, else_branch: Option<StmtIdx> },
    While { cond: ExprIdx, body: StmtIdx },
    Print(ExprIdx),
    Return(TokenView, Option<ExprIdx>),
    VarDecl { name: TokenView, init: Option<ExprIdx> },
    Expression(ExprIdx),
    Block(Seq<StmtIdx>),
    Function { name: TokenView, params: Seq<TokenView>, body: Seq<StmtIdx> },
    ParseErr(TokenView, Seq<char>),
}

impl View for Stmt {
    type V = StmtView;

    open spec fn view(&self) -> StmtView {
        match self {
            Stmt::If { cond, then_branch, else_branch } => StmtView::If {
                cond: *cond,
                then_branch: *then_branch,
                else_branch: *else_branch,
            },
            Stmt::While { cond, body } => StmtView::While { cond: *cond, body: *body },
            Stmt::Print(e) => StmtView::Print(*e),
            Stmt::Return(t, e) => StmtView::Return(t@, *e),
            Stmt::VarDecl { name, init } => StmtView::VarDecl { name: name@, init: *init },
            Stmt::Expression(e) => StmtView::Expression(*e),
            Stmt::Block(stmts) => StmtView::Block(stmts@),
            Stmt::Function { name, params, body } => StmtView::Function {
                name: name@,
                params: token_views(params@),
                body: body@,
            },
            Stmt::ParseErr(t, message) => StmtView::ParseErr(t@, message@),
        }
    }
}

/// Whether every statement of `stmts` lies below `bound`.
pub open spec fn stmts_below(stmts: Seq<StmtIdx>, bound: int) -> bool {
    forall|i: int| 0 <= i < stmts.len() ==> (#[trigger] stmts[i]).pos() < bound
}

impl StmtView {
    /// Whether every statement that the node names lies below `stmts`, and
    /// every expression below `exprs`.
    pub open spec fn below(self, stmts: int, exprs: int) -> bool {
        match self {
            StmtView::If { cond, then_branch, else_branch } => {
                &&& cond.pos() < exprs
                &&& then_branch.pos() < stmts
                &&& else_branch matches Some(e) ==> e.pos() < stmts
            },
            StmtView::While { cond, body } => cond.pos() < exprs && body.pos() < stmts,
            StmtView::Print(e) => e.pos() < exprs,
            StmtView::Return(_, e) => e matches Some(e) ==> e.pos() < exprs,
            StmtView::VarDecl { name, init } => init matches Some(e) ==> e.pos() < exprs,
            StmtView::Expression(e) => e.pos() < exprs,
            StmtView::Block(body) => stmts_below(body, stmts),
            StmtView::Function { name, params, body } => stmts_below(body, stmts),
            StmtView::ParseErr(_, _) => true,
        }
    }
}

/// The mathematical value of an [`Ast`].
pub struct AstView {
    pub stmts: Seq<StmtView>,
    pub exprs: Seq<ExprView>,
    pub roots: Seq<StmtIdx>,
}

impl AstView {
    /// Every index that the arena holds names a node that was stored
    /// before the node that holds it: each resolves, and there are no cycles.
    pub open spec fn wf(self) -> bool {
        &&& forall|i: int| 0 <= i < self.exprs.len() ==> (#[trigger] self.exprs[i]).below(i)
        &&& forall|i: int|
            0 <= i < self.stmts.len() ==> (#[trigger] self.stmts[i]).below(
                i,
                self.exprs.len() as int,
            )
        &&& stmts_below(self.roots, self.stmts.len() as int)
    }

    /// The arena with one more expression.
    pub open spec fn with_expr(self, expr: ExprView) -> AstView {
        AstView { exprs: self.exprs.push(expr), ..self }
    }

    /// The arena with one more statement.
    pub open spec fn with_stmt(self, stmt: StmtView) -> AstView {
        AstView { stmts: self.stmts.push(stmt), ..self }
    }

    /// The arena with one more statement, which is a root.
    pub open spec fn with_root(self, stmt: StmtView) -> AstView {
        AstView {
            stmts: self.stmts.push(stmt),
            roots: self.roots.push(StmtIdx::at(self.stmts.len())),
            ..self
        }
    }

    /// The index of the expression that is stored next.
    pub open spec fn next_expr(self) -> ExprIdx {
        ExprIdx::at(self.exprs.len())
    }

    /// The index of the statement that is stored next.
    pub open spec fn next_stmt(self) -> StmtIdx {
        StmtIdx::at(self.stmts.len())
    }

    /// Whether `self` holds every node of `earlier` under the same index,
    /// and its roots in the same order first.
    pub open spec fn extends(self, earlier: AstView) -> bool {
        &&& earlier.stmts.len() <= self.stmts.len()
        &&& earlier.exprs.len() <= self.exprs.len()
        &&& earlier.roots.len() <= self.roots.len()
        &&& forall|i: int| 0 <= i < earlier.stmts.len() ==> self.stmts[i] == earlier.stmts[i]
        &&& forall|i: int| 0 <= i < earlier.exprs.len() ==> self.exprs[i] == earlier.exprs[i]
        &&& forall|i: int| 0 <= i < earlier.roots.len() ==> self.roots[i] == earlier.roots[i]
    }
}

/// The arena that owns every node of a program.
#[derive(Debug)]
pub struct Ast {
    stmts: Vec<Stmt>,
    exprs: Vec<Expr>,
    roots: Vec<StmtIdx>,
}

impl View for Ast {
    type V = AstView;

    closed spec fn view(&self) -> AstView {
        AstView {
            stmts: self.stmts@.map_values(|s: Stmt| s@),
            exprs: self.exprs@.map_values(|e: Expr| e@),
            roots: self.roots@,
        }
    }
}

impl Ast {
    /// The arena's invariant.
    pub open spec fn wf(&self) -> bool {
        self@.wf()
    }

    /// The arena that holds nothing.
    pub open spec fn new_view() -> AstView {
        AstView { stmts: Seq::empty(), exprs: Seq::empty(), roots: Seq::empty() }
    }

    /// An empty arena.
    pub fn new() -> (ast: Ast)
        ensures
            ast.wf(),
            ast@ == Ast::new_view(),
    {
        let ast = Ast { stmts: Vec::new(), exprs: Vec::new(), roots: Vec::new() };
        assert(ast@.stmts =~= Seq::empty());
        assert(ast@.exprs =~= Seq::empty());
        ast
    }

    /// Stores a top-level statement: as `push_stmt`, and the new index is
    /// appended to the roots.
    pub fn push_root_stmt(&mut self, stmt: Stmt) -> (idx: StmtIdx)
        requires
            old(self).wf(),
            stmt@.below(old(self)@.stmts.len() as int, old(self)@.exprs.len() as int),
        ensures
            final(self).wf(),
            idx.pos() == old(self)@.stmts.len(),
            idx == old(self)@.next_stmt(),
            final(self)@ == old(self)@.with_root(stmt@),
            final(self)@.extends(old(self)@),
    {
        let idx = self.push_stmt(stmt);
        self.roots.push(idx);
        idx
    }

    /// Stores a statement and hands out its index. Every node stored
    /// before keeps its index and its value.
    pub fn push_stmt(&mut self, stmt: Stmt) -> (idx: StmtIdx)
        requires
            old(self).wf(),
            stmt@.below(old(self)@.stmts.len() as int, old(self)@.exprs.len() as int),
        ensures
            final(self).wf(),
            idx.pos() == old(self)@.stmts.len(),
            idx == old(self)@.next_stmt(),
            final(self)@ == old(self)@.with_stmt(stmt@),
            final(self)@.extends(old(self)@),
    {
        let len = self.stmts.len();
        self.stmts.push(stmt);
        assert(self.stmts@.map_values(|s: Stmt| s@) =~= old(self).stmts@.map_values(|s: Stmt| s@).push(
            stmt@,
        ));
        StmtIdx(len)
    }

    /// The statement that `idx` names.
    pub fn stmt(&self, idx: StmtIdx) -> (stmt: &Stmt)
        requires
            idx.pos() < self@.stmts.len(),
        ensures
            stmt@ == self@.stmts[idx.pos() as int],
    {
        &self.stmts[idx.0]
    }

    /// Stores an expression and hands out its index. Every node stored
    /// before keeps its index and its value.
    pub fn push_expr(&mut self, expr: Expr) -> (idx: ExprIdx)
        requires
            old(self).wf(),
            expr@.below(old(self)@.exprs.len() as int),
        ensures
            final(self).wf(),
            idx.pos() == old(self)@.exprs.len(),
            idx == old(self)@.next_expr(),
            final(self)@ == old(self)@.with_expr(expr@),
            final(self)@.extends(old(self)@),
    {
        let len = self.exprs.len();
        self.exprs.push(expr);
        assert(self.exprs@.map_values(|e: Expr| e@) =~= old(self).exprs@.map_values(|e: Expr| e@).push(
            expr@,
        ));
        ExprIdx(len)
    }

    /// The expression that `idx` names.
    pub fn expr(&self, idx: ExprIdx) -> (expr: &Expr)
        requires
            idx.pos() < self@.exprs.len(),
        ensures
            expr@ == self@.exprs[idx.pos() as int],
    {
        &self.exprs[idx.0]
    }

    /// The top-level statements, in source order.
    pub fn roots(&self) -> (roots: &Vec<StmtIdx>)
        ensures
            roots@ == self@.roots,
    {
        &self.roots
    }

    /// How many statements the arena holds.
    pub fn stmt_count(&self) -> (n: usize)
        ensures
            n == self@.stmts.len(),
    {
        self.stmts.len()
    }

    /// How many expressions the arena holds.
    pub fn expr_count(&self) -> (n: usize)
        ensures
            n == self@.exprs.len(),
    {
        self.exprs.len()
    }
}

/// Arena monotonicity: an arena that grew from `a` by way of `b` to `c`
/// still holds every node of `a` under its index.
pub proof fn extends_is_transitive(a: AstView, b: AstView, c: AstView)
    requires
        b.extends(a),
        c.extends(b),
    ensures
        c.extends(a),
{
}

/// A node that fits an arena fits every arena that grew from it.
pub proof fn below_is_monotone(stmt: StmtView, a: AstView, b: AstView)
    requires
        b.extends(a),
        stmt.below(a.stmts.len() as int, a.exprs.len() as int),
    ensures
        stmt.below(b.stmts.len() as int, b.exprs.len() as int),
{
}

/// In a well-formed arena every index that a stored node holds resolves.
pub proof fn nodes_resolve(ast: AstView)
    requires
        ast.wf(),
    ensures
        forall|i: int|
            0 <= i < ast.stmts.len() ==> (#[trigger] ast.stmts[i]).below(
                ast.stmts.len() as int,
                ast.exprs.len() as int,
            ),
        forall|i: int|
            0 <= i < ast.exprs.len() ==> (#[trigger] ast.exprs[i]).below(ast.exprs.len() as int),
{
    assert forall|i: int| 0 <= i < ast.stmts.len() implies (#[trigger] ast.stmts[i]).below(
        ast.stmts.len() as int,
        ast.exprs.len() as int,
    ) by {
        assert(ast.stmts[i].below(i, ast.exprs.len() as int));
    }
    assert forall|i: int| 0 <= i < ast.exprs.len() implies (#[trigger] ast.exprs[i]).below(
        ast.exprs.len() as int,
    ) by {
        assert(ast.exprs[i].below(i));
    }
}

} // verus!
