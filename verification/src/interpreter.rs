//! The evaluator: an abstract machine that runs a program step by step.
//!
//! A step never loops over the program and never waits. What only the
//! embedder can do, the step returns as an [`Action`]: to write a line of
//! output, to report the error that halted the program, or to supply a
//! number (a sum or product of doubles, the double that a literal spells,
//! the time). The embedder does it and takes the next step.

use crate::ast::{Ast, Expr, ExprIdx, Lit, Stmt, StmtIdx};
use crate::ast::{clone_tokens, token_views};
use crate::cactus::{CactusView, FrameView, Index};
use crate::env::{Env, EnvCactus, EnvCactusView};
use crate::error::Error;
use crate::machine::{
    balanced, balanced_push, binary, bound, evals, execs, frames_ok, inv_halted,
    step_keeps_inv, tasks_ok, unary, val_ok, ActionView, BinaryView, MachineView, RequestView,
    TaskView,
};
use crate::ast::{stmts_below, AstView};
use crate::grammar;
use crate::lexer::{tokens_of, Lexer};
use crate::machine::sound_under_growth;
use crate::number::{number_less, number_less_equal, number_negate};
use crate::output::{wrote_err, Ctx, Output};
use crate::parse::parse_into;
use crate::tokens::{Token, TokenKind};
use crate::val::{clone_indices, Callable, CallableView, Val, ValView};
use vstd::prelude::*;
use vstd::string::StringExecFns;

verus! {

/// A number that only the embedder can supply.
#[derive(Debug)]
pub enum Request {
    /// The double that the decimal digits spell.
    Parse(String),
    /// The result of `left operator right` on doubles.
    Arithmetic { operator: TokenKind, left: u64, right: u64 },
    /// The seconds since the Unix epoch.
    Clock,
}

impl View for Request {
    type V = RequestView;

    open spec fn view(&self) -> RequestView {
        match self {
            Request::Parse(digits) => RequestView::Parse(digits@),
            Request::Arithmetic { operator, left, right } => RequestView::Arithmetic {
                operator: *operator,
                left: *left,
                right: *right,
            },
            Request::Clock => RequestView::Clock,
        }
    }
}

/// What a step asks of the embedder.
#[derive(Debug)]
pub enum Action {
    /// Nothing: take the next step.
    Continue,
    /// Nothing: no task is left.
    Done,
    /// Write the text and a line terminator to the output sink.
    Print(String),
    /// Write the decimal form of the double and a line terminator to the
    /// output sink.
    PrintNumber(u64),
    /// Supply the number with the next step.
    Number(Request),
    /// Write the error's message and a line terminator to the diagnostic
    /// sink. The program has halted.
    Fail(Error),
}

impl View for Action {
    type V = ActionView;

    open spec fn view(&self) -> ActionView {
        match self {
            Action::Continue => ActionView::Continue,
            Action::Done => ActionView::Done,
            Action::Print(text) => ActionView::Print(text@),
            Action::PrintNumber(bits) => ActionView::PrintNumber(*bits),
            Action::Number(request) => ActionView::Number(request@),
            Action::Fail(error) => ActionView::Fail(error@),
        }
    }
}

/// What a binary operator comes to.
#[derive(Debug)]
pub enum Binary {
    /// The result.
    Value(Val),
    /// The result is the embedder's to compute, from two doubles.
    Arithmetic(u64, u64),
    /// The operands do not fit the operator.
    Error(Error),
}

impl View for Binary {
    type V = BinaryView;

    open spec fn view(&self) -> BinaryView {
        match self {
            Binary::Value(v) => BinaryView::Value(v@),
            Binary::Arithmetic(a, b) => BinaryView::Arithmetic(*a, *b),
            Binary::Error(e) => BinaryView::Error(e@),
        }
    }
}

/// The result of a unary operator: `!` negates the truthiness of any
/// value; `-` negates a number and fits nothing else.
pub fn unary_op(operator: &Token, v: &Val) -> (out: Result<Val, Error>)
    ensures
        match out {
            Ok(w) => unary(operator@, v@) == Ok::<ValView, crate::error::ErrorView>(w@),
            Err(e) => unary(operator@, v@) == Err::<ValView, crate::error::ErrorView>(e@),
        },
{
    if operator.kind == TokenKind::Bang {
        Ok(Val::Bool(!v.is_truthy()))
    } else {
        match v {
            Val::Number(n) => Ok(Val::Number(number_negate(*n))),
            _ => Err(Error::ExpectedNumber { operator: operator.clone() }),
        }
    }
}

/// What a binary operator comes to on two values: equality compares any
/// two values; order and arithmetic are for two numbers, `+` for two
/// strings as well.
pub fn binary_op(operator: &Token, l: &Val, r: &Val) -> (out: Binary)
    ensures
        out@ == binary(operator@, l@, r@),
{
    let kind = operator.kind;
    if kind == TokenKind::EqualEqual {
        Binary::Value(Val::Bool(l.equals(r)))
    } else if kind == TokenKind::BangEqual {
        Binary::Value(Val::Bool(!l.equals(r)))
    } else {
        match (l, r) {
            (Val::Number(a), Val::Number(b)) => {
                if kind == TokenKind::Greater {
                    Binary::Value(Val::Bool(number_less(*b, *a)))
                } else if kind == TokenKind::GreaterEqual {
                    Binary::Value(Val::Bool(number_less_equal(*b, *a)))
                } else if kind == TokenKind::Less {
                    Binary::Value(Val::Bool(number_less(*a, *b)))
                } else if kind == TokenKind::LessEqual {
                    Binary::Value(Val::Bool(number_less_equal(*a, *b)))
                } else {
                    Binary::Arithmetic(*a, *b)
                }
            },
            (Val::String(a), Val::String(b)) => {
                if kind == TokenKind::Plus {
                    let mut s = a.clone();
                    s.append(b.as_str());
                    Binary::Value(Val::String(s))
                } else {
                    Binary::Error(Error::ExpectedNumbers { operator: operator.clone() })
                }
            },
            _ => {
                if kind == TokenKind::Plus {
                    Binary::Error(Error::ExpectedNumbersOrStrings { operator: operator.clone() })
                } else {
                    Binary::Error(Error::ExpectedNumbers { operator: operator.clone() })
                }
            },
        }
    }
}

/// The values of `vals`.
pub open spec fn val_views(vals: Seq<Val>) -> Seq<ValView> {
    vals.map_values(|v: Val| v@)
}

/// Something the evaluator has yet to do. What each task does is told
/// at [`TaskView`].
pub enum Task {
    Exec(StmtIdx),
    Eval(ExprIdx),
    Print,
    Discard,
    Define(String),
    Branch(StmtIdx, Option<StmtIdx>),
    Loop(ExprIdx, StmtIdx),
    Leave,
    Return,
    CallEnd(Vec<Val>),
    Top,
    Unary(Token),
    Binary(Token),
    Logical(Token, ExprIdx),
    Assign(Token),
    Callee(Token, Vec<ExprIdx>),
    Call(Token, usize),
}

impl View for Task {
    type V = TaskView;

    open spec fn view(&self) -> TaskView {
        match self {
            Task::Exec(s) => TaskView::Exec(*s),
            Task::Eval(e) => TaskView::Eval(*e),
            Task::Print => TaskView::Print,
            Task::Discard => TaskView::Discard,
            Task::Define(name) => TaskView::Define(name@),
            Task::Branch(a, b) => TaskView::Branch(*a, *b),
            Task::Loop(c, b) => TaskView::Loop(*c, *b),
            Task::Leave => TaskView::Leave,
            Task::Return => TaskView::Return,
            Task::CallEnd(saved) => TaskView::CallEnd(val_views(saved@)),
            Task::Top => TaskView::Top,
            Task::Unary(op) => TaskView::Unary(op@),
            Task::Binary(op) => TaskView::Binary(op@),
            Task::Logical(op, r) => TaskView::Logical(op@, *r),
            Task::Assign(var) => TaskView::Assign(var@),
            Task::Callee(paren, args) => TaskView::Callee(paren@, args@),
            Task::Call(paren, argc) => TaskView::Call(paren@, *argc as nat),
        }
    }
}

/// The values of `tasks`.
pub open spec fn task_views(tasks: Seq<Task>) -> Seq<TaskView> {
    tasks.map_values(|t: Task| t@)
}

/// The tasks that run the top-level statements `roots` in order.
pub open spec fn program(roots: Seq<StmtIdx>) -> Seq<TaskView>
    decreases roots.len(),
{
    if roots.len() == 0 {
        Seq::empty()
    } else {
        program(roots.skip(1)).push(TaskView::Top).push(TaskView::Exec(roots[0]))
    }
}

/// The evaluator.
pub struct Interpreter {
    env_tree: EnvCactus,
    tasks: Vec<Task>,
    vals: Vec<Val>,
}

impl View for Interpreter {
    type V = MachineView;

    closed spec fn view(&self) -> MachineView {
        MachineView {
            envs: self.env_tree@,
            tasks: task_views(self.tasks@),
            vals: val_views(self.vals@),
        }
    }
}

impl Interpreter {
    fn push_task(&mut self, task: Task)
        ensures
            final(self)@ == old(self)@.schedule(task@),
    {
        self.tasks.push(task);
        assert(task_views(self.tasks@) =~= task_views(old(self).tasks@).push(task@));
    }

    fn pop_task(&mut self) -> (task: Task)
        requires
            old(self)@.tasks.len() > 0,
        ensures
            task@ == old(self)@.tasks.last(),
            final(self)@ == old(self)@.rest(),
    {
        let task = self.tasks.pop().unwrap();
        assert(task_views(self.tasks@) =~= task_views(old(self).tasks@).drop_last());
        task
    }

    fn push_val(&mut self, v: Val)
        ensures
            final(self)@ == old(self)@.give(v@),
    {
        self.vals.push(v);
        assert(val_views(self.vals@) =~= val_views(old(self).vals@).push(v@));
    }

    fn pop_val(&mut self) -> (v: Val)
        requires
            old(self)@.vals.len() > 0,
        ensures
            v@ == old(self)@.vals.last(),
            final(self)@ == old(self)@.take(),
    {
        let v = self.vals.pop().unwrap();
        assert(val_views(self.vals@) =~= val_views(old(self).vals@).drop_last());
        v
    }

    /// Schedules the statements, the first one on top.
    fn schedule_execs(&mut self, stmts: &Vec<StmtIdx>)
        ensures
            final(self)@ == old(self)@.schedule_all(execs(stmts@)),
    {
        let n = stmts.len();
        let mut k: usize = 0;
        while k < n
            invariant
                n == stmts@.len(),
                k <= n,
                self@ == old(self)@.schedule_all(execs(stmts@).take(k as int)),
            decreases n - k,
        {
            self.push_task(Task::Exec(stmts[n - 1 - k]));
            k += 1;
            assert(old(self)@.tasks + execs(stmts@).take(k as int) =~= (old(self)@.tasks + execs(
                stmts@,
            ).take(k - 1)).push(TaskView::Exec(stmts@[n - k])));
        }
        assert(execs(stmts@).take(n as int) =~= execs(stmts@));
    }

    /// Schedules the evaluation of the expressions, the first one on top.
    fn schedule_evals(&mut self, exprs: &Vec<ExprIdx>)
        ensures
            final(self)@ == old(self)@.schedule_all(evals(exprs@)),
    {
        let n = exprs.len();
        let mut k: usize = 0;
        while k < n
            invariant
                n == exprs@.len(),
                k <= n,
                self@ == old(self)@.schedule_all(evals(exprs@).take(k as int)),
            decreases n - k,
        {
            self.push_task(Task::Eval(exprs[n - 1 - k]));
            k += 1;
            assert(old(self)@.tasks + evals(exprs@).take(k as int) =~= (old(self)@.tasks + evals(
                exprs@,
            ).take(k - 1)).push(TaskView::Eval(exprs@[n - k])));
        }
        assert(evals(exprs@).take(n as int) =~= evals(exprs@));
    }

    /// Halts: gives up every task and value, and leaves every frame but
    /// the root.
    fn halt(&mut self)
        requires
            old(self)@.envs.wf(),
        ensures
            final(self)@ == old(self)@.halted(),
    {
        self.tasks.clear();
        self.vals.clear();
        loop
            invariant
                self.env_tree.wf(),
                self.tasks@.len() == 0,
                self.vals@.len() == 0,
                self@.envs.global == old(self)@.envs.global,
                self@.envs.cactus.frames == old(self)@.envs.cactus.frames,
                0 < self@.envs.cactus.stack.len() <= old(self)@.envs.cactus.stack.len(),
                self@.envs.cactus.stack == old(self)@.envs.cactus.stack.take(
                    self@.envs.cactus.stack.len() as int,
                ),
            ensures
                self@.envs.cactus.stack.len() == 1,
            decreases self@.envs.cactus.stack.len(),
        {
            match self.env_tree.pop() {
                Some(_) => {},
                None => {
                    break ;
                },
            }
        }
        assert(self@.tasks =~= Seq::<TaskView>::empty());
        assert(self@.vals =~= Seq::<ValView>::empty());
    }

    /// A runtime error: the program halts.
    fn fail(&mut self, error: Error) -> (action: Action)
        requires
            old(self)@.envs.wf(),
        ensures
            (final(self)@, action@) == old(self)@.fail(error@),
    {
        self.halt();
        Action::Fail(error)
    }

    /// Returns `v` from the function that is running.
    fn unwind(&mut self, v: Val)
        requires
            old(self)@.envs.wf(),
        ensures
            final(self)@ == old(self)@.returned(v@),
    {
        loop
            invariant
                self.env_tree.wf(),
                self@.returned(v@) == old(self)@.returned(v@),
            decreases self@.tasks.len(),
        {
            if self.tasks.len() == 0 {
                self.vals.clear();
                assert(self@.vals =~= Seq::<ValView>::empty());
                return ;
            }
            let task = self.pop_task();
            match task {
                Task::CallEnd(saved) => {
                    self.env_tree.pop();
                    self.vals = saved;
                    self.push_val(v);
                    return ;
                },
                Task::Top => {
                    self.vals.clear();
                    assert(self@.vals =~= Seq::<ValView>::empty());
                    return ;
                },
                Task::Leave => {
                    self.env_tree.pop();
                },
                _ => {},
            }
        }
    }
}

/// The tasks of a program find the values that they take, which are none.
pub proof fn program_is_balanced(roots: Seq<StmtIdx>)
    ensures
        balanced(program(roots), 0),
    decreases roots.len(),
{
    if roots.len() > 0 {
        let rest = program(roots.skip(1));
        program_is_balanced(roots.skip(1));
        balanced_push(rest, TaskView::Top, 0);
        balanced_push(rest.push(TaskView::Top), TaskView::Exec(roots[0]), 0);
    }
}

/// The tasks of a program name statements of the arena that holds its roots.
pub proof fn program_is_sound(roots: Seq<StmtIdx>, m: MachineView, ast: AstView)
    requires
        stmts_below(roots, ast.stmts.len() as int),
    ensures
        tasks_ok(program(roots), m.envs, ast),
    decreases roots.len(),
{
    if roots.len() > 0 {
        let fewer = roots.skip(1);
        assert forall|i: int| 0 <= i < fewer.len() implies (#[trigger] fewer[i]).pos()
            < ast.stmts.len() by {
            assert(fewer[i] == roots[i + 1]);
        }
        program_is_sound(fewer, m, ast);
        let all = program(roots);
        assert forall|i: int| 0 <= i < all.len() implies crate::machine::task_ok(
            #[trigger] all[i],
            m.envs,
            ast,
        ) by {
            if i < program(fewer).len() {
                assert(all[i] == program(fewer)[i]);
            }
        }
    }
}

impl MachineView {
    /// The state in which the top-level statements `roots` are about to
    /// run: whatever ran before is given up.
    pub open spec fn loaded(self, roots: Seq<StmtIdx>) -> MachineView {
        MachineView { tasks: program(roots), ..self.halted() }
    }
}

/// The variables that a session begins with: `clock`, the builtin clock,
/// and nothing else.
pub open spec fn globals() -> Map<Seq<char>, ValView> {
    Map::<Seq<char>, ValView>::empty().insert("clock"@, ValView::Callable(CallableView::Clock))
}

/// The state in which a session begins: one frame, the root, which has no
/// parent, is active and holds the globals; nothing to do and no value.
pub open spec fn initial(global: Index) -> MachineView {
    MachineView {
        envs: EnvCactusView {
            cactus: CactusView {
                frames: Map::<usize, FrameView>::empty().insert(
                    global.key(),
                    FrameView { vars: globals(), parent: None, depth: 0 },
                ),
                stack: seq![global],
            },
            global,
        },
        tasks: Seq::empty(),
        vals: Seq::empty(),
    }
}

/// Where a session begins, a name is defined exactly if it is `clock`.
pub proof fn a_new_session_defines_only_the_clock(global: Index, name: Seq<char>)
    ensures
        initial(global).envs.lookup(name) == if name == "clock"@ {
            Some(ValView::Callable(CallableView::Clock))
        } else {
            None
        },
{
    let e = initial(global).envs;
    assert(e.current() == global);
    assert(e.contains(global));
    assert(e.cactus.frame(global).parent is None);
}

impl Interpreter {
    /// An evaluator with nothing to do, in the state in which a session
    /// begins.
    pub fn new() -> (interpreter: Interpreter)
        ensures
            interpreter@ == initial(interpreter@.envs.global),
            forall|ast: AstView| #[trigger] ast.wf() ==> interpreter@.inv(ast),
    {
        let mut global = Env::new();
        global.define_var("clock".to_owned(), Val::Callable(Callable::Clock));
        let interpreter = Interpreter {
            env_tree: EnvCactus::with_global(global),
            tasks: Vec::new(),
            vals: Vec::new(),
        };
        assert(interpreter@.tasks =~= Seq::<TaskView>::empty());
        assert(interpreter@.vals =~= Seq::<ValView>::empty());
        assert forall|ast: AstView| #[trigger] ast.wf() implies interpreter@.inv(ast) by {
            assert(frames_ok(interpreter@.envs, ast));
        }
        interpreter
    }

    /// Gets ready to run the top-level statements of `ast` from the
    /// `from`-th on. Whatever ran before is given up; what it defined
    /// stays defined.
    pub fn interpret_from(&mut self, ast: &Ast, from: usize)
        requires
            old(self)@.sound(ast@),
        ensures
            final(self)@.inv(ast@),
            final(self)@ == old(self)@.loaded(
                ast@.roots.skip(
                    if from <= ast@.roots.len() {
                        from as int
                    } else {
                        ast@.roots.len() as int
                    },
                ),
            ),
    {
        let roots = ast.roots();
        let n = roots.len();
        let first = if from <= n {
            from
        } else {
            n
        };
        self.halt();
        proof {
            inv_halted(old(self)@, ast@);
            assert(roots@.subrange(n as int, n as int) =~= Seq::<StmtIdx>::empty());
        }
        let mut i: usize = n;
        while i > first
            invariant
                first <= i <= n,
                n == roots@.len(),
                self@ == (MachineView {
                    tasks: program(roots@.subrange(i as int, n as int)),
                    ..old(self)@.halted()
                }),
            decreases i,
        {
            i -= 1;
            self.push_task(Task::Top);
            self.push_task(Task::Exec(roots[i]));
            assert(roots@.subrange(i as int, n as int).skip(1) =~= roots@.subrange(
                i + 1,
                n as int,
            ));
        }
        proof {
            let rest = roots@.skip(first as int);
            assert(roots@.subrange(first as int, n as int) =~= rest);
            program_is_balanced(rest);
            assert forall|j: int| 0 <= j < rest.len() implies (#[trigger] rest[j]).pos()
                < ast@.stmts.len() by {
                assert(rest[j] == roots@[j + first]);
            }
            program_is_sound(rest, old(self)@.halted(), ast@);
        }
    }

    /// Reads the source text of `ctx` into the session: parses it into
    /// `ast`, behind what the arena holds, writes the syntax errors to
    /// the diagnostic sink and nothing else to either sink, and gets
    /// ready to run the declarations that were parsed.
    pub fn load<'a, Out: Output>(&mut self, ctx: &mut Ctx<'a, Out>, ast: &mut Ast)
        requires
            old(self)@.sound(old(ast)@),
        ensures
            final(self)@.inv(final(ast)@),
            final(ast)@.extends(old(ast)@),
            final(ctx).src == old(ctx).src,
            ({
                let (grown, diag) = grammar::program(
                    tokens_of(old(ctx).src@),
                    old(ast)@,
                    Seq::empty(),
                );
                &&& final(ast)@ == grown
                &&& wrote_err(&old(ctx).out, &final(ctx).out, diag)
                &&& final(self)@ == old(self)@.loaded(
                    grown.roots.skip(old(ast)@.roots.len() as int),
                )
            }),
    {
        let first = ast.roots().len();
        let mut diag = String::new();
        parse_into(Lexer::new(ctx.src), ast, &mut diag);
        ctx.out.err(diag.as_str());
        proof {
            sound_under_growth(self@, old(ast)@, ast@);
        }
        self.interpret_from(ast, first);
    }

    /// Gets ready to run the program: every top-level statement of `ast`,
    /// in source order.
    pub fn interpret(&mut self, ast: &Ast)
        requires
            old(self)@.sound(ast@),
        ensures
            final(self)@.inv(ast@),
            final(self)@ == old(self)@.loaded(ast@.roots),
    {
        self.interpret_from(ast, 0);
        assert(ast@.roots.skip(0) =~= ast@.roots);
    }

    /// Executes the statement `s`. The task that named it is taken off
    /// already.
    fn exec_stmt(&mut self, ast: &Ast, s: StmtIdx) -> (action: Action)
        requires
            old(self)@.envs.wf(),
            s.pos() < ast@.stmts.len(),
        ensures
            (final(self)@, action@) == old(self)@.exec_stmt(
                ast@.stmts[s.pos() as int],
                final(self)@.envs.current(),
            ),
            ast@.stmts[s.pos() as int] is Block ==> !old(self)@.envs.contains(
                final(self)@.envs.current(),
            ),
    {
        match ast.stmt(s) {
            Stmt::Print(e) => {
                self.push_task(Task::Print);
                self.push_task(Task::Eval(*e));
                Action::Continue
            },
            Stmt::Expression(e) => {
                self.push_task(Task::Discard);
                self.push_task(Task::Eval(*e));
                Action::Continue
            },
            Stmt::VarDecl { name, init } => match init {
                Some(e) => {
                    self.push_task(Task::Define(name.lexeme.clone()));
                    self.push_task(Task::Eval(*e));
                    Action::Continue
                },
                None => {
                    self.env_tree.define_var(name.lexeme.clone(), Val::Nil);
                    Action::Continue
                },
            },
            Stmt::Block(stmts) => {
                let idx = self.env_tree.push(Env::new());
                self.push_task(Task::Leave);
                self.schedule_execs(stmts);
                assert(self@.envs.current() == idx);
                Action::Continue
            },
            Stmt::If { cond, then_branch, else_branch } => {
                self.push_task(Task::Branch(*then_branch, *else_branch));
                self.push_task(Task::Eval(*cond));
                Action::Continue
            },
            Stmt::While { cond, body } => {
                self.push_task(Task::Loop(*cond, *body));
                self.push_task(Task::Eval(*cond));
                Action::Continue
            },
            Stmt::Function { name, params, body } => {
                let function = Callable::Function {
                    name: name.lexeme.clone(),
                    params: clone_tokens(params),
                    body: clone_indices(body),
                    closure: self.env_tree.current(),
                };
                self.env_tree.define_var(name.lexeme.clone(), Val::Callable(function));
                Action::Continue
            },
            Stmt::Return(_, value) => match value {
                Some(e) => {
                    self.push_task(Task::Return);
                    self.push_task(Task::Eval(*e));
                    Action::Continue
                },
                None => {
                    self.unwind(Val::Nil);
                    Action::Continue
                },
            },
            Stmt::ParseErr(token, err) => self.fail(
                Error::Parsing { token: token.clone(), err: err.clone() },
            ),
        }
    }

    /// Evaluates the expression `e`. The task that named it is taken off
    /// already.
    fn eval_expr(&mut self, ast: &Ast, e: ExprIdx, reply: Option<u64>) -> (action: Action)
        requires
            old(self)@.envs.wf(),
            e.pos() < ast@.exprs.len(),
        ensures
            (final(self)@, action@) == old(self)@.schedule(TaskView::Eval(e)).eval_expr(
                ast@.exprs[e.pos() as int],
                reply,
            ),
    {
        proof {
            assert(old(self)@.schedule(TaskView::Eval(e)).rest() == old(self)@) by {
                assert(old(self)@.tasks.push(TaskView::Eval(e)).drop_last() =~= old(self)@.tasks);
            }
        }
        match ast.expr(e) {
            Expr::Literal(lit) => match lit {
                Lit::String(text) => {
                    self.push_val(Val::String(text.clone()));
                    Action::Continue
                },
                Lit::Bool(b) => {
                    self.push_val(Val::Bool(*b));
                    Action::Continue
                },
                Lit::Nil => {
                    self.push_val(Val::Nil);
                    Action::Continue
                },
                Lit::Number(digits) => match reply {
                    Some(bits) => {
                        self.push_val(Val::Number(bits));
                        Action::Continue
                    },
                    None => {
                        self.push_task(Task::Eval(e));
                        Action::Number(Request::Parse(digits.clone()))
                    },
                },
            },
            Expr::Grouping(inner) => {
                self.push_task(Task::Eval(*inner));
                Action::Continue
            },
            Expr::Unary(op, right) => {
                self.push_task(Task::Unary(op.clone()));
                self.push_task(Task::Eval(*right));
                Action::Continue
            },
            Expr::Binary(op, left, right) => {
                self.push_task(Task::Binary(op.clone()));
                self.push_task(Task::Eval(*right));
                self.push_task(Task::Eval(*left));
                Action::Continue
            },
            Expr::Variable(token) => {
                let found = match self.env_tree.var(token.lexeme.as_str()) {
                    Some(v) => Some(v.clone()),
                    None => None,
                };
                match found {
                    Some(v) => {
                        self.push_val(v);
                        Action::Continue
                    },
                    None => self.fail(
                        Error::UndefinedVariable {
                            name: token.lexeme.clone(),
                            token: token.clone(),
                        },
                    ),
                }
            },
            Expr::Assign { var, value } => {
                self.push_task(Task::Assign(var.clone()));
                self.push_task(Task::Eval(*value));
                Action::Continue
            },
            Expr::Logical(op, left, right) => {
                self.push_task(Task::Logical(op.clone(), *right));
                self.push_task(Task::Eval(*left));
                Action::Continue
            },
            Expr::Call { callee, paren, args } => {
                let mut copy: Vec<ExprIdx> = Vec::new();
                let mut i: usize = 0;
                while i < args.len()
                    invariant
                        i <= args@.len(),
                        copy@ == args@.take(i as int),
                    decreases args@.len() - i,
                {
                    copy.push(args[i]);
                    i += 1;
                    assert(args@.take(i as int) =~= args@.take(i - 1).push(args@[i - 1]));
                }
                assert(args@.take(i as int) =~= args@);
                self.push_task(Task::Callee(paren.clone(), copy));
                self.push_task(Task::Eval(*callee));
                Action::Continue
            },
        }
    }
}


impl Interpreter {
    /// Calls what stands below the topmost `argc` values, with those
    /// values as arguments. The task is taken off already.
    fn call(&mut self, paren: Token, argc: usize, reply: Option<u64>, ast: &Ast) -> (action:
        Action)
        requires
            old(self)@.schedule(TaskView::Call(paren@, argc as nat)).inv(ast@),
        ensures
            (final(self)@, action@) == old(self)@.schedule(
                TaskView::Call(paren@, argc as nat),
            ).call(paren@, argc as int, reply, final(self)@.envs.current()),
            old(self)@.calls_function(argc as int) ==> !old(self)@.envs.contains(
                final(self)@.envs.current(),
            ),
    {
        let ghost task = TaskView::Call(paren@, argc as nat);
        let ghost pre = old(self)@.schedule(task);
        proof {
            assert(pre.tasks.drop_last() =~= old(self)@.tasks);
            assert(pre.rest() == old(self)@);
            assert(pre.tasks.last() == task);
            assert(argc + 1 <= pre.vals.len());
        }
        let n = self.vals.len();
        let waits = match &self.vals[n - 1 - argc] {
            Val::Callable(Callable::Clock) => reply.is_none(),
            _ => false,
        };
        if waits {
            self.push_task(Task::Call(paren, argc));
            return Action::Number(Request::Clock);
        }
        let ghost all = self@.vals;
        let args = self.vals.split_off(n - argc);
        let callee = self.vals.pop().unwrap();
        proof {
            assert(val_views(args@) =~= all.subrange(n - argc, n as int));
            assert(val_views(self.vals@) =~= all.take(n - 1 - argc));
            assert(callee@ == all[n - 1 - argc]);
            assert(val_ok(all[n - 1 - argc], pre.envs, ast@));
        }
        match callee {
            Val::Callable(Callable::Clock) => {
                match reply {
                    Some(bits) => {
                        self.push_val(Val::Number(bits));
                    },
                    None => {},
                }
                Action::Continue
            },
            Val::Callable(Callable::Function { name, params, body, closure }) => {
                let mut env = Env::new();
                let count = if params.len() <= args.len() {
                    params.len()
                } else {
                    args.len()
                };
                let mut i: usize = 0;
                while i < count
                    invariant
                        i <= count,
                        count <= params@.len(),
                        count <= args@.len(),
                        env@ == bound(token_views(params@), val_views(args@), i as int),
                    decreases count - i,
                {
                    env.define_var(params[i].lexeme.clone(), args[i].clone());
                    i += 1;
                }
                let mut base: Vec<Val> = Vec::new();
                core::mem::swap(&mut base, &mut self.vals);
                let idx = self.env_tree.push_at(closure, env);
                self.push_task(Task::CallEnd(base));
                self.schedule_execs(&body);
                proof {
                    assert(self@.vals =~= Seq::<ValView>::empty());
                    assert(self@.envs.current() == idx);
                }
                Action::Continue
            },
            _ => self.fail(Error::BadCall { paren }),
        }
    }

    /// Goes on with a task that works on values. The task is taken off
    /// already.
    fn resume(&mut self, task: Task, reply: Option<u64>, ast: &Ast) -> (action: Action)
        requires
            old(self)@.schedule(task@).inv(ast@),
            !(task@ is Exec),
            !(task@ is Eval),
        ensures
            (final(self)@, action@) == old(self)@.schedule(task@).resume(
                task@,
                reply,
                final(self)@.envs.current(),
            ),
            old(self)@.schedule(task@).enters(ast@) ==> !old(self)@.envs.contains(
                final(self)@.envs.current(),
            ),
    {
        let ghost pre = old(self)@.schedule(task@);
        proof {
            assert(pre.tasks.drop_last() =~= old(self)@.tasks);
            assert(pre.rest() == old(self)@);
            assert(pre.tasks.last() == task@);
            assert(task@.demand() <= pre.vals.len());
        }
        let n = self.vals.len();
        match task {
            Task::Print => {
                let v = self.pop_val();
                match v {
                    Val::Number(bits) => Action::PrintNumber(bits),
                    _ => match v.text() {
                        Some(text) => Action::Print(text),
                        None => Action::Continue,
                    },
                }
            },
            Task::Discard => {
                self.pop_val();
                Action::Continue
            },
            Task::Define(name) => {
                let v = self.pop_val();
                self.env_tree.define_var(name, v);
                Action::Continue
            },
            Task::Branch(then_branch, else_branch) => {
                let v = self.pop_val();
                if v.is_truthy() {
                    self.push_task(Task::Exec(then_branch));
                } else {
                    match else_branch {
                        Some(e) => {
                            self.push_task(Task::Exec(e));
                        },
                        None => {},
                    }
                }
                Action::Continue
            },
            Task::Loop(cond, body) => {
                let v = self.pop_val();
                if v.is_truthy() {
                    self.push_task(Task::Loop(cond, body));
                    self.push_task(Task::Eval(cond));
                    self.push_task(Task::Exec(body));
                }
                Action::Continue
            },
            Task::Leave => {
                self.env_tree.pop();
                Action::Continue
            },
            Task::Return => {
                let v = self.pop_val();
                self.unwind(v);
                Action::Continue
            },
            Task::CallEnd(saved) => {
                self.env_tree.pop();
                self.vals = saved;
                self.push_val(Val::Nil);
                Action::Continue
            },
            Task::Top => {
                self.vals.clear();
                assert(self@.vals =~= Seq::<ValView>::empty());
                Action::Continue
            },
            Task::Unary(op) => {
                let v = self.pop_val();
                match unary_op(&op, &v) {
                    Ok(w) => {
                        self.push_val(w);
                        Action::Continue
                    },
                    Err(e) => self.fail(e),
                }
            },
            Task::Binary(op) => {
                match binary_op(&op, &self.vals[n - 2], &self.vals[n - 1]) {
                    Binary::Value(w) => {
                        self.pop_val();
                        self.pop_val();
                        self.push_val(w);
                        Action::Continue
                    },
                    Binary::Arithmetic(a, b) => match reply {
                        Some(bits) => {
                            self.pop_val();
                            self.pop_val();
                            self.push_val(Val::Number(bits));
                            Action::Continue
                        },
                        None => {
                            let operator = op.kind;
                            self.push_task(Task::Binary(op));
                            Action::Number(Request::Arithmetic { operator, left: a, right: b })
                        },
                    },
                    Binary::Error(e) => self.fail(e),
                }
            },
            Task::Logical(op, right) => {
                let truthy = self.vals[n - 1].is_truthy();
                if (op.kind == TokenKind::Or) == truthy {
                } else {
                    self.pop_val();
                    self.push_task(Task::Eval(right));
                }
                Action::Continue
            },
            Task::Assign(var) => {
                let v = self.vals[n - 1].clone();
                if self.env_tree.assign_var(var.lexeme.as_str(), v) {
                    Action::Continue
                } else {
                    self.fail(Error::UndefinedVariable { name: var.lexeme.clone(), token: var })
                }
            },
            Task::Callee(paren, args) => {
                let arity = match &self.vals[n - 1] {
                    Val::Callable(c) => Some(c.arity()),
                    _ => None,
                };
                match arity {
                    Some(expected) => {
                        let got = args.len();
                        if expected == got {
                            self.push_task(Task::Call(paren, got));
                            self.schedule_evals(&args);
                            Action::Continue
                        } else {
                            self.fail(Error::WrongNumberOfArgs { paren, expected, got })
                        }
                    },
                    None => self.fail(Error::BadCall { paren }),
                }
            },
            Task::Call(paren, argc) => self.call(paren, argc, reply, ast),
            Task::Exec(_) => Action::Continue,
            Task::Eval(_) => Action::Continue,
        }
    }

    /// Takes one step: does the topmost task.
    ///
    /// `reply` is the number that the step before asked for, if it asked
    /// for one; a number that was not asked for is ignored. The state
    /// after the step and the action returned are those of
    /// [`MachineView::step`]; the frame that the step entered, if it
    /// entered one, is new.
    pub fn step(&mut self, ast: &Ast, reply: Option<u64>) -> (action: Action)
        requires
            old(self)@.inv(ast@),
        ensures
            final(self)@.inv(ast@),
            (final(self)@, action@) == old(self)@.step(ast@, reply, final(self)@.envs.current()),
            old(self)@.enters(ast@) ==> !old(self)@.envs.contains(final(self)@.envs.current()),
            final(self)@.envs.global == old(self)@.envs.global,
    {
        if self.tasks.len() == 0 {
            proof {
                step_keeps_inv(self@, ast@, reply, self@.envs.current());
            }
            return Action::Done;
        }
        let ghost m = self@;
        let task = self.pop_task();
        proof {
            assert(m.rest().tasks.push(task@) =~= m.tasks);
            assert(m.rest().schedule(task@) == m);
            assert(crate::machine::task_ok(m.tasks[m.tasks.len() - 1], m.envs, ast@));
        }
        let action = match task {
            Task::Exec(s) => self.exec_stmt(ast, s),
            Task::Eval(e) => self.eval_expr(ast, e, reply),
            task => self.resume(task, reply, ast),
        };
        proof {
            step_keeps_inv(m, ast@, reply, self@.envs.current());
        }
        action
    }
}


} // verus!
