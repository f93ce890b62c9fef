//! What the evaluator does, as mathematics: the state of the evaluator, and
//! the step that leads from one state to the next.
//!
//! The evaluator is an abstract machine. Its state is the cactus of
//! environments, a stack of tasks still to do and a stack of values that
//! tasks have left for others. One step takes the topmost task and does
//! it. Nothing in a step loops over the program or waits: what only the
//! embedder can do (write output, compute with doubles, read the clock)
//! the step hands out as an action.

use crate::ast::{nodes_resolve, AstView, ExprIdx, ExprView, LitView, StmtIdx, StmtView};
use crate::ast::{is_arithmetic_operator, is_binary_operator, stmts_below};
use crate::cactus::{CactusView, Index};
use crate::env::{
    assigned_then_lookup, defining_is_sound, entered_lookup, with_vars_keeps_wf, EnvCactusView,
};
use crate::error::ErrorView;
use crate::number;
use crate::tokens::{TokenKind, TokenView};
use crate::val::{CallableView, ValView};
use vstd::prelude::*;

verus! {

/// A number that only the embedder can supply.
pub enum RequestView {
    /// The double that the decimal digits spell.
    Parse(Seq<char>),
    /// The result of `left operator right` on doubles; the operator is one
    /// of `+ - * /`.
    Arithmetic { operator: TokenKind, left: u64, right: u64 },
    /// The seconds since the Unix epoch.
    Clock,
}

/// What a step asks of the embedder.
pub enum ActionView {
    /// Nothing: take the next step.
    Continue,
    /// Nothing: no task is left.
    Done,
    /// Write the text and a line terminator to the output sink.
    Print(Seq<char>),
    /// Write the decimal form of the double and a line terminator to the
    /// output sink.
    PrintNumber(u64),
    /// Supply the number with the next step.
    Number(RequestView),
    /// Write the error's message and a line terminator to the diagnostic
    /// sink. The program has halted.
    Fail(ErrorView),
}

/// Something the evaluator has yet to do.
pub enum TaskView {
    /// Execute a statement.
    Exec(StmtIdx),
    /// Evaluate an expression; its value goes on top of the values.
    Eval(ExprIdx),
    /// Print the topmost value.
    Print,
    /// Drop the topmost value.
    Discard,
    /// Define the name in the active frame, with the topmost value.
    Define(Seq<char>),
    /// Go on with the first statement if the topmost value is truthy, else
    /// with the second, if there is one.
    Branch(StmtIdx, Option<StmtIdx>),
    /// If the topmost value is truthy, execute the body and test the
    /// condition again.
    Loop(ExprIdx, StmtIdx),
    /// Leave the active frame.
    Leave,
    /// Return the topmost value from the function that is running.
    Return,
    /// The end of a function's body; holds the values of the caller.
    CallEnd(Seq<ValView>),
    /// The end of a top-level statement.
    Top,
    /// Apply the operator to the topmost value.
    Unary(TokenView),
    /// Apply the operator to the two topmost values.
    Binary(TokenView),
    /// The topmost value is the left operand of `and` or `or`; the
    /// expression is the right one.
    Logical(TokenView, ExprIdx),
    /// Assign the topmost value to the variable.
    Assign(TokenView),
    /// The topmost value is what a call calls; the expressions are its
    /// arguments.
    Callee(TokenView, Seq<ExprIdx>),
    /// Call with that many arguments: they are the topmost values, above
    /// what is called.
    Call(TokenView, nat),
}

impl TaskView {
    /// How many values the task finds on the stack of values.
    pub open spec fn demand(self) -> int {
        match self {
            TaskView::Exec(_) | TaskView::Eval(_) | TaskView::Leave | TaskView::Top
            | TaskView::CallEnd(_) => 0,
            TaskView::Binary(_) => 2,
            TaskView::Call(_, argc) => argc as int + 1,
            _ => 1,
        }
    }

    /// How many values stand on the stack when the task, and all that it
    /// leads to, is done, if `height` values stood there before.
    pub open spec fn leaves(self, height: int) -> int {
        match self {
            TaskView::Exec(_) | TaskView::Leave => height,
            TaskView::Eval(_) => height + 1,
            TaskView::Print | TaskView::Discard | TaskView::Define(_) | TaskView::Branch(_, _)
            | TaskView::Loop(_, _) | TaskView::Return | TaskView::Binary(_) => height - 1,
            TaskView::Unary(_) | TaskView::Logical(_, _) | TaskView::Assign(_) | TaskView::Callee(
                _,
                _,
            ) => height,
            TaskView::Call(_, argc) => height - argc,
            TaskView::CallEnd(saved) => saved.len() as int + 1,
            TaskView::Top => 0,
        }
    }
}

/// The tasks that execute `stmts` in order: the first statement is the
/// topmost task.
pub open spec fn execs(stmts: Seq<StmtIdx>) -> Seq<TaskView> {
    Seq::new(stmts.len(), |i: int| TaskView::Exec(stmts[stmts.len() - 1 - i]))
}

/// The tasks that evaluate `exprs` in order: the first expression is the
/// topmost task.
pub open spec fn evals(exprs: Seq<ExprIdx>) -> Seq<TaskView> {
    Seq::new(exprs.len(), |i: int| TaskView::Eval(exprs[exprs.len() - 1 - i]))
}

/// The variables of a call's frame: the first `n` parameters, each bound
/// to the argument at its place. Of two parameters of one name the later
/// one counts.
pub open spec fn bound(params: Seq<TokenView>, args: Seq<ValView>, n: int) -> Map<
    Seq<char>,
    ValView,
>
    decreases n,
{
    if n <= 0 || n > params.len() || n > args.len() {
        Map::empty()
    } else {
        bound(params, args, n - 1).insert(params[n - 1].lexeme, args[n - 1])
    }
}

/// How many parameters get an argument.
pub open spec fn pairs(params: Seq<TokenView>, args: Seq<ValView>) -> int {
    if params.len() <= args.len() {
        params.len() as int
    } else {
        args.len() as int
    }
}

/// The result of a unary operator.
pub open spec fn unary(operator: TokenView, v: ValView) -> Result<ValView, ErrorView> {
    if operator.kind == TokenKind::Bang {
        Ok(ValView::Bool(!v.is_truthy()))
    } else {
        match v {
            ValView::Number(n) => Ok(ValView::Number(number::negated(n))),
            _ => Err(ErrorView::ExpectedNumber { operator }),
        }
    }
}

/// What a binary operator comes to.
pub enum BinaryView {
    /// The result.
    Value(ValView),
    /// The result is the embedder's to compute, from two doubles.
    Arithmetic(u64, u64),
    /// The operands do not fit the operator.
    Error(ErrorView),
}

/// What a binary operator comes to on two values.
pub open spec fn binary(operator: TokenView, l: ValView, r: ValView) -> BinaryView {
    let kind = operator.kind;
    if kind == TokenKind::EqualEqual {
        BinaryView::Value(ValView::Bool(l.equals(r)))
    } else if kind == TokenKind::BangEqual {
        BinaryView::Value(ValView::Bool(!l.equals(r)))
    } else {
        match (l, r) {
            (ValView::Number(a), ValView::Number(b)) => if kind == TokenKind::Greater {
                BinaryView::Value(ValView::Bool(number::less(b, a)))
            } else if kind == TokenKind::GreaterEqual {
                BinaryView::Value(ValView::Bool(number::less_equal(b, a)))
            } else if kind == TokenKind::Less {
                BinaryView::Value(ValView::Bool(number::less(a, b)))
            } else if kind == TokenKind::LessEqual {
                BinaryView::Value(ValView::Bool(number::less_equal(a, b)))
            } else {
                BinaryView::Arithmetic(a, b)
            },
            (ValView::String(a), ValView::String(b)) => if kind == TokenKind::Plus {
                BinaryView::Value(ValView::String(a + b))
            } else {
                BinaryView::Error(ErrorView::ExpectedNumbers { operator })
            },
            _ => if kind == TokenKind::Plus {
                BinaryView::Error(ErrorView::ExpectedNumbersOrStrings { operator })
            } else {
                BinaryView::Error(ErrorView::ExpectedNumbers { operator })
            },
        }
    }
}

/// The state of the evaluator.
pub struct MachineView {
    pub envs: EnvCactusView,
    /// The tasks, the next one last.
    pub tasks: Seq<TaskView>,
    /// The values, the topmost one last.
    pub vals: Seq<ValView>,
}

impl MachineView {
    /// The state with its topmost task taken off.
    pub open spec fn rest(self) -> MachineView {
        MachineView { tasks: self.tasks.drop_last(), ..self }
    }

    /// The state with `task` put on top of the tasks.
    pub open spec fn schedule(self, task: TaskView) -> MachineView {
        MachineView { tasks: self.tasks.push(task), ..self }
    }

    /// The state with `tasks` put on top of the tasks.
    pub open spec fn schedule_all(self, tasks: Seq<TaskView>) -> MachineView {
        MachineView { tasks: self.tasks + tasks, ..self }
    }

    /// The state with `v` put on top of the values.
    pub open spec fn give(self, v: ValView) -> MachineView {
        MachineView { vals: self.vals.push(v), ..self }
    }

    /// The state with its topmost value taken off.
    pub open spec fn take(self) -> MachineView {
        MachineView { vals: self.vals.drop_last(), ..self }
    }

    /// The state with other environments.
    pub open spec fn with_envs(self, envs: EnvCactusView) -> MachineView {
        MachineView { envs, ..self }
    }

    /// The state after a halt: nothing is left to do, no value is kept,
    /// and only the root frame is active.
    pub open spec fn halted(self) -> MachineView {
        MachineView {
            envs: EnvCactusView {
                cactus: CactusView { stack: self.envs.cactus.stack.take(1), ..self.envs.cactus },
                ..self.envs
            },
            tasks: Seq::empty(),
            vals: Seq::empty(),
        }
    }

    /// A runtime error: the program halts.
    pub open spec fn fail(self, error: ErrorView) -> (MachineView, ActionView) {
        (self.halted(), ActionView::Fail(error))
    }

    /// The state after `v` was returned: the tasks down to the end of the
    /// function that is running are given up, each frame that they would
    /// have left is left, and the caller has its values back with `v` on
    /// top. A return outside of any function gives up the rest of the
    /// top-level statement.
    pub open spec fn returned(self, v: ValView) -> MachineView
        decreases self.tasks.len(),
    {
        if self.tasks.len() == 0 {
            MachineView { vals: Seq::empty(), ..self }
        } else {
            match self.tasks.last() {
                TaskView::CallEnd(saved) => MachineView {
                    envs: self.envs.left(),
                    tasks: self.tasks.drop_last(),
                    vals: saved.push(v),
                },
                TaskView::Top => MachineView {
                    tasks: self.tasks.drop_last(),
                    vals: Seq::empty(),
                    ..self
                },
                TaskView::Leave => self.rest().with_envs(self.envs.left()).returned(v),
                _ => self.rest().returned(v),
            }
        }
    }

    /// What executing the statement does. The task that named the
    /// statement is taken off already.
    pub open spec fn exec_stmt(self, stmt: StmtView, fresh: Index) -> (MachineView, ActionView) {
        match stmt {
            StmtView::Print(e) => (
                self.schedule(TaskView::Print).schedule(TaskView::Eval(e)),
                ActionView::Continue,
            ),
            StmtView::Expression(e) => (
                self.schedule(TaskView::Discard).schedule(TaskView::Eval(e)),
                ActionView::Continue,
            ),
            StmtView::VarDecl { name, init } => match init {
                Some(e) => (
                    self.schedule(TaskView::Define(name.lexeme)).schedule(TaskView::Eval(e)),
                    ActionView::Continue,
                ),
                None => (
                    self.with_envs(self.envs.defined(name.lexeme, ValView::Nil)),
                    ActionView::Continue,
                ),
            },
            StmtView::Block(stmts) => (
                self.with_envs(
                    self.envs.entered(fresh, Map::empty(), self.envs.current()),
                ).schedule(TaskView::Leave).schedule_all(execs(stmts)),
                ActionView::Continue,
            ),
            StmtView::If { cond, then_branch, else_branch } => (
                self.schedule(TaskView::Branch(then_branch, else_branch)).schedule(
                    TaskView::Eval(cond),
                ),
                ActionView::Continue,
            ),
            StmtView::While { cond, body } => (
                self.schedule(TaskView::Loop(cond, body)).schedule(TaskView::Eval(cond)),
                ActionView::Continue,
            ),
            StmtView::Function { name, params, body } => (
                self.with_envs(
                    self.envs.defined(
                        name.lexeme,
                        ValView::Callable(
                            CallableView::Function {
                                name: name.lexeme,
                                params,
                                body,
                                closure: self.envs.current(),
                            },
                        ),
                    ),
                ),
                ActionView::Continue,
            ),
            StmtView::Return(_, value) => match value {
                Some(e) => (
                    self.schedule(TaskView::Return).schedule(TaskView::Eval(e)),
                    ActionView::Continue,
                ),
                None => (self.returned(ValView::Nil), ActionView::Continue),
            },
            StmtView::ParseErr(token, err) => self.fail(ErrorView::Parsing { token, err }),
        }
    }

    /// What evaluating the expression does. The task that named the
    /// expression is the topmost one still.
    pub open spec fn eval_expr(self, expr: ExprView, reply: Option<u64>) -> (
        MachineView,
        ActionView,
    ) {
        let rest = self.rest();
        match expr {
            ExprView::Literal(lit) => match lit {
                LitView::String(s) => (rest.give(ValView::String(s)), ActionView::Continue),
                LitView::Bool(b) => (rest.give(ValView::Bool(b)), ActionView::Continue),
                LitView::Nil => (rest.give(ValView::Nil), ActionView::Continue),
                LitView::Number(digits) => match reply {
                    Some(bits) => (rest.give(ValView::Number(bits)), ActionView::Continue),
                    None => (self, ActionView::Number(RequestView::Parse(digits))),
                },
            },
            ExprView::Grouping(e) => (rest.schedule(TaskView::Eval(e)), ActionView::Continue),
            ExprView::Unary(op, e) => (
                rest.schedule(TaskView::Unary(op)).schedule(TaskView::Eval(e)),
                ActionView::Continue,
            ),
            ExprView::Binary(op, l, r) => (
                rest.schedule(TaskView::Binary(op)).schedule(TaskView::Eval(r)).schedule(
                    TaskView::Eval(l),
                ),
                ActionView::Continue,
            ),
            ExprView::Variable(token) => match self.envs.lookup(token.lexeme) {
                Some(v) => (rest.give(v), ActionView::Continue),
                None => rest.fail(ErrorView::UndefinedVariable { name: token.lexeme, token }),
            },
            ExprView::Assign { var, value } => (
                rest.schedule(TaskView::Assign(var)).schedule(TaskView::Eval(value)),
                ActionView::Continue,
            ),
            ExprView::Logical(op, l, r) => (
                rest.schedule(TaskView::Logical(op, r)).schedule(TaskView::Eval(l)),
                ActionView::Continue,
            ),
            ExprView::Call { callee, paren, args } => (
                rest.schedule(TaskView::Callee(paren, args)).schedule(TaskView::Eval(callee)),
                ActionView::Continue,
            ),
        }
    }

    /// What a call does: the topmost `argc` values are the arguments, the
    /// value below them is what is called. The task is the topmost one
    /// still.
    pub open spec fn call(self, paren: TokenView, argc: int, reply: Option<u64>, fresh: Index) -> (
        MachineView,
        ActionView,
    ) {
        let rest = self.rest();
        let n = self.vals.len() as int;
        let base = self.vals.take(n - 1 - argc);
        let args = self.vals.subrange(n - argc, n);
        match self.vals[n - 1 - argc] {
            ValView::Callable(CallableView::Clock) => match reply {
                Some(bits) => (
                    MachineView { vals: base.push(ValView::Number(bits)), ..rest },
                    ActionView::Continue,
                ),
                None => (self, ActionView::Number(RequestView::Clock)),
            },
            ValView::Callable(CallableView::Function { name, params, body, closure }) => (
                MachineView {
                    envs: self.envs.entered(fresh, bound(params, args, pairs(params, args)), closure),
                    tasks: rest.tasks.push(TaskView::CallEnd(base)) + execs(body),
                    vals: Seq::empty(),
                },
                ActionView::Continue,
            ),
            _ => rest.fail(ErrorView::BadCall { paren }),
        }
    }

    /// What the topmost task, which is neither to execute a statement nor
    /// to evaluate an expression, does.
    pub open spec fn resume(self, task: TaskView, reply: Option<u64>, fresh: Index) -> (
        MachineView,
        ActionView,
    ) {
        let rest = self.rest();
        let v = self.vals.last();
        let popped = rest.take();
        match task {
            TaskView::Print => match v {
                ValView::Number(bits) => (popped, ActionView::PrintNumber(bits)),
                _ => (popped, ActionView::Print(v.text().unwrap())),
            },
            TaskView::Discard => (popped, ActionView::Continue),
            TaskView::Define(name) => (
                popped.with_envs(self.envs.defined(name, v)),
                ActionView::Continue,
            ),
            TaskView::Branch(then_branch, else_branch) => if v.is_truthy() {
                (popped.schedule(TaskView::Exec(then_branch)), ActionView::Continue)
            } else {
                match else_branch {
                    Some(e) => (popped.schedule(TaskView::Exec(e)), ActionView::Continue),
                    None => (popped, ActionView::Continue),
                }
            },
            TaskView::Loop(cond, body) => if v.is_truthy() {
                (
                    popped.schedule(TaskView::Loop(cond, body)).schedule(
                        TaskView::Eval(cond),
                    ).schedule(TaskView::Exec(body)),
                    ActionView::Continue,
                )
            } else {
                (popped, ActionView::Continue)
            },
            TaskView::Leave => (rest.with_envs(self.envs.left()), ActionView::Continue),
            TaskView::Return => (popped.returned(v), ActionView::Continue),
            TaskView::CallEnd(saved) => (
                MachineView {
                    envs: self.envs.left(),
                    tasks: rest.tasks,
                    vals: saved.push(ValView::Nil),
                },
                ActionView::Continue,
            ),
            TaskView::Top => (MachineView { vals: Seq::empty(), ..rest }, ActionView::Continue),
            TaskView::Unary(op) => match unary(op, v) {
                Ok(w) => (popped.give(w), ActionView::Continue),
                Err(e) => rest.fail(e),
            },
            TaskView::Binary(op) => {
                let l = self.vals[self.vals.len() - 2];
                match binary(op, l, v) {
                    BinaryView::Value(w) => (popped.take().give(w), ActionView::Continue),
                    BinaryView::Arithmetic(a, b) => match reply {
                        Some(bits) => (
                            popped.take().give(ValView::Number(bits)),
                            ActionView::Continue,
                        ),
                        None => (
                            self,
                            ActionView::Number(
                                RequestView::Arithmetic { operator: op.kind, left: a, right: b },
                            ),
                        ),
                    },
                    BinaryView::Error(e) => rest.fail(e),
                }
            },
            TaskView::Logical(op, right) => if (op.kind == TokenKind::Or) == v.is_truthy() {
                (rest, ActionView::Continue)
            } else {
                (popped.schedule(TaskView::Eval(right)), ActionView::Continue)
            },
            TaskView::Assign(var) => if self.envs.lookup(var.lexeme) is Some {
                (rest.with_envs(self.envs.assigned(var.lexeme, v)), ActionView::Continue)
            } else {
                rest.fail(ErrorView::UndefinedVariable { name: var.lexeme, token: var })
            },
            TaskView::Callee(paren, args) => match v {
                ValView::Callable(c) => if c.arity() == args.len() {
                    (
                        rest.schedule(TaskView::Call(paren, args.len())).schedule_all(
                            evals(args),
                        ),
                        ActionView::Continue,
                    )
                } else {
                    rest.fail(
                        ErrorView::WrongNumberOfArgs {
                            paren,
                            expected: c.arity(),
                            got: args.len(),
                        },
                    )
                },
                _ => rest.fail(ErrorView::BadCall { paren }),
            },
            TaskView::Call(paren, argc) => self.call(paren, argc as int, reply, fresh),
            TaskView::Exec(_) | TaskView::Eval(_) => (self, ActionView::Continue),
        }
    }

    /// Whether the topmost task is a call of a function of the program
    /// with `argc` arguments.
    pub open spec fn calls_function(self, argc: int) -> bool {
        self.vals[self.vals.len() - 1 - argc] is Callable && self.vals[self.vals.len() - 1
            - argc]->Callable_0 is Function
    }

    /// Whether the next step enters a new frame: it executes a block or
    /// calls a function of the program.
    pub open spec fn enters(self, ast: AstView) -> bool {
        self.tasks.len() > 0 && match self.tasks.last() {
            TaskView::Exec(s) => ast.stmts[s.pos() as int] is Block,
            TaskView::Call(_, argc) => self.calls_function(argc as int),
            _ => false,
        }
    }

    /// One step of the evaluator: the state that follows, and what the
    /// embedder is to do.
    ///
    /// `reply` is the number that the step before asked for, if it asked
    /// for one. `fresh` is the index under which a frame is stored, if the
    /// step enters one.
    pub open spec fn step(self, ast: AstView, reply: Option<u64>, fresh: Index) -> (
        MachineView,
        ActionView,
    ) {
        if self.tasks.len() == 0 {
            (self, ActionView::Done)
        } else {
            match self.tasks.last() {
                TaskView::Exec(s) => self.rest().exec_stmt(ast.stmts[s.pos() as int], fresh),
                TaskView::Eval(e) => self.eval_expr(ast.exprs[e.pos() as int], reply),
                task => self.resume(task, reply, fresh),
            }
        }
    }
}

/// Whether what the value names exists: the frame in which a function was
/// declared, and the statements of its body.
pub open spec fn val_ok(v: ValView, envs: EnvCactusView, ast: AstView) -> bool {
    match v {
        ValView::Callable(CallableView::Function { name, params, body, closure }) => envs.contains(
            closure,
        ) && stmts_below(body, ast.stmts.len() as int),
        _ => true,
    }
}

pub open spec fn vals_ok(vals: Seq<ValView>, envs: EnvCactusView, ast: AstView) -> bool {
    forall|i: int| 0 <= i < vals.len() ==> val_ok(#[trigger] vals[i], envs, ast)
}

/// Whether what the task names exists, and its operator is of its kind.
pub open spec fn task_ok(task: TaskView, envs: EnvCactusView, ast: AstView) -> bool {
    match task {
        TaskView::Exec(s) => s.pos() < ast.stmts.len(),
        TaskView::Eval(e) => e.pos() < ast.exprs.len(),
        TaskView::Branch(a, b) => a.pos() < ast.stmts.len() && (b matches Some(x) ==> x.pos()
            < ast.stmts.len()),
        TaskView::Loop(c, b) => c.pos() < ast.exprs.len() && b.pos() < ast.stmts.len(),
        TaskView::Logical(_, r) => r.pos() < ast.exprs.len(),
        TaskView::Callee(_, args) => forall|i: int|
            0 <= i < args.len() ==> (#[trigger] args[i]).pos() < ast.exprs.len(),
        TaskView::CallEnd(saved) => vals_ok(saved, envs, ast),
        TaskView::Binary(op) => is_binary_operator(op.kind),
        _ => true,
    }
}

pub open spec fn tasks_ok(tasks: Seq<TaskView>, envs: EnvCactusView, ast: AstView) -> bool {
    forall|i: int| 0 <= i < tasks.len() ==> task_ok(#[trigger] tasks[i], envs, ast)
}

/// Whether every value that a variable holds is sound.
pub open spec fn frames_ok(envs: EnvCactusView, ast: AstView) -> bool {
    forall|k: usize, name: Seq<char>|
        #![trigger envs.cactus.frames[k].vars[name]]
        envs.cactus.frames.contains_key(k) && envs.cactus.frames[k].vars.contains_key(name)
            ==> val_ok(envs.cactus.frames[k].vars[name], envs, ast)
}

/// Whether each task, when its turn comes, finds the values that it
/// takes, if `height` values stand on the stack now.
pub open spec fn balanced(tasks: Seq<TaskView>, height: int) -> bool
    decreases tasks.len(),
{
    if tasks.len() == 0 {
        true
    } else {
        tasks.last().demand() <= height && balanced(
            tasks.drop_last(),
            tasks.last().leaves(height),
        )
    }
}

/// Whether `later` has every frame that `earlier` has.
pub open spec fn covers(later: EnvCactusView, earlier: EnvCactusView) -> bool {
    forall|idx: Index| earlier.contains(idx) ==> #[trigger] later.contains(idx)
}

impl MachineView {
    /// Every index, of a frame or of a node, that the state holds names
    /// something that exists.
    pub open spec fn sound(self, ast: AstView) -> bool {
        &&& ast.wf()
        &&& self.envs.wf()
        &&& frames_ok(self.envs, ast)
        &&& tasks_ok(self.tasks, self.envs, ast)
        &&& vals_ok(self.vals, self.envs, ast)
    }

    /// The invariant of the evaluator.
    pub open spec fn inv(self, ast: AstView) -> bool {
        self.sound(ast) && balanced(self.tasks, self.vals.len() as int)
    }
}

/// Values and tasks that are sound stay so when frames are added.
pub proof fn sound_is_monotone(
    vals: Seq<ValView>,
    tasks: Seq<TaskView>,
    earlier: EnvCactusView,
    later: EnvCactusView,
    ast: AstView,
)
    requires
        covers(later, earlier),
    ensures
        vals_ok(vals, earlier, ast) ==> vals_ok(vals, later, ast),
        tasks_ok(tasks, earlier, ast) ==> tasks_ok(tasks, later, ast),
{
    if vals_ok(vals, earlier, ast) {
        assert forall|i: int| 0 <= i < vals.len() implies val_ok(#[trigger] vals[i], later, ast) by {
            assert(val_ok(vals[i], earlier, ast));
        }
    }
    if tasks_ok(tasks, earlier, ast) {
        assert forall|i: int| 0 <= i < tasks.len() implies task_ok(
            #[trigger] tasks[i],
            later,
            ast,
        ) by {
            assert(task_ok(tasks[i], earlier, ast));
            match tasks[i] {
                TaskView::CallEnd(saved) => {
                    assert forall|j: int| 0 <= j < saved.len() implies val_ok(
                        #[trigger] saved[j],
                        later,
                        ast,
                    ) by {
                        assert(val_ok(saved[j], earlier, ast));
                    }
                },
                _ => {},
            }
        }
    }
}

/// A sound state stays sound under other environments that are well
/// formed, have every frame of the old ones, and hold sound values.
pub proof fn sound_with_envs(m: MachineView, envs: EnvCactusView, ast: AstView)
    requires
        m.sound(ast),
        envs.wf(),
        covers(envs, m.envs),
        frames_ok(envs, ast),
    ensures
        m.with_envs(envs).sound(ast),
{
    sound_is_monotone(m.vals, m.tasks, m.envs, envs, ast);
}

/// Leaving a frame keeps the state sound.
pub proof fn sound_left(m: MachineView, ast: AstView)
    requires
        m.sound(ast),
    ensures
        m.with_envs(m.envs.left()).sound(ast),
        covers(m.envs.left(), m.envs),
{
    let envs = m.envs.left();
    assert(envs.cactus.frames == m.envs.cactus.frames);
    if m.envs.cactus.stack.len() > 1 {
        assert forall|i: int| 0 <= i < envs.cactus.stack.len() implies envs.cactus.contains(
            #[trigger] envs.cactus.stack[i],
        ) by {
            assert(m.envs.cactus.contains(m.envs.cactus.stack[i]));
        }
    }
    assert(frames_ok(envs, ast)) by {
        assert forall|k: usize, name: Seq<char>|
            #![trigger envs.cactus.frames[k].vars[name]]
            envs.cactus.frames.contains_key(k) && envs.cactus.frames[k].vars.contains_key(
                name,
            ) implies val_ok(envs.cactus.frames[k].vars[name], envs, ast) by {
            assert(val_ok(m.envs.cactus.frames[k].vars[name], m.envs, ast));
        }
    }
    sound_with_envs(m, envs, ast);
}

/// A halt keeps the state sound and balanced.
pub proof fn inv_halted(m: MachineView, ast: AstView)
    requires
        m.sound(ast),
    ensures
        m.halted().inv(ast),
        m.halted().envs.global == m.envs.global,
        covers(m.halted().envs, m.envs),
{
    let envs = m.halted().envs;
    assert(envs.cactus.stack =~= seq![m.envs.global]);
    assert(envs.cactus.contains(m.envs.cactus.stack[0]));
    assert(frames_ok(envs, ast)) by {
        assert forall|k: usize, name: Seq<char>|
            #![trigger envs.cactus.frames[k].vars[name]]
            envs.cactus.frames.contains_key(k) && envs.cactus.frames[k].vars.contains_key(
                name,
            ) implies val_ok(envs.cactus.frames[k].vars[name], envs, ast) by {
            assert(val_ok(m.envs.cactus.frames[k].vars[name], m.envs, ast));
        }
    }
}

/// Defining a sound value in a frame keeps the state sound.
pub proof fn sound_defined(m: MachineView, idx: Index, name: Seq<char>, v: ValView, ast: AstView)
    requires
        m.sound(ast),
        m.envs.contains(idx),
        val_ok(v, m.envs, ast),
    ensures
        m.with_envs(m.envs.defined_at(idx, name, v)).sound(ast),
        covers(m.envs.defined_at(idx, name, v), m.envs),
{
    let envs = m.envs.defined_at(idx, name, v);
    with_vars_keeps_wf(m.envs.cactus, idx, m.envs.vars(idx).insert(name, v));
    assert(covers(envs, m.envs));
    assert(frames_ok(envs, ast)) by {
        assert forall|k: usize, n: Seq<char>|
            #![trigger envs.cactus.frames[k].vars[n]]
            envs.cactus.frames.contains_key(k) && envs.cactus.frames[k].vars.contains_key(
                n,
            ) implies val_ok(envs.cactus.frames[k].vars[n], envs, ast) by {
            if k == idx.key() && n == name {
            } else {
                assert(m.envs.cactus.frames.contains_key(k));
                assert(m.envs.cactus.frames[k].vars.contains_key(n));
                assert(val_ok(m.envs.cactus.frames[k].vars[n], m.envs, ast));
            }
        }
    }
    sound_with_envs(m, envs, ast);
}

/// Entering a new frame of sound values keeps the state sound.
pub proof fn sound_entered(
    m: MachineView,
    fresh: Index,
    vars: Map<Seq<char>, ValView>,
    parent: Index,
    ast: AstView,
)
    requires
        m.sound(ast),
        m.envs.contains(parent),
        !m.envs.contains(fresh),
        forall|n: Seq<char>| vars.contains_key(n) ==> val_ok(#[trigger] vars[n], m.envs, ast),
    ensures
        m.with_envs(m.envs.entered(fresh, vars, parent)).sound(ast),
        covers(m.envs.entered(fresh, vars, parent), m.envs),
{
    let envs = m.envs.entered(fresh, vars, parent);
    let c = m.envs.cactus;
    let d = envs.cactus;
    assert forall|i: int| 0 <= i < d.stack.len() implies d.contains(#[trigger] d.stack[i]) by {
        if i < c.stack.len() {
            assert(c.contains(c.stack[i]));
        }
    }
    assert forall|k: usize| #[trigger] d.frames.contains_key(k) implies (
    d.frames[k].parent matches Some(p) ==> d.contains(p) && d.frame(p).depth
        < d.frames[k].depth) by {
        if k != fresh.key() {
            assert(c.frames.contains_key(k));
        }
    }
    assert(d.stack[0] == c.stack[0]);
    assert(covers(envs, m.envs));
    assert(frames_ok(envs, ast)) by {
        assert forall|k: usize, n: Seq<char>|
            #![trigger envs.cactus.frames[k].vars[n]]
            envs.cactus.frames.contains_key(k) && envs.cactus.frames[k].vars.contains_key(
                n,
            ) implies val_ok(envs.cactus.frames[k].vars[n], envs, ast) by {
            if k == fresh.key() {
                assert(val_ok(vars[n], m.envs, ast));
            } else {
                assert(m.envs.cactus.frames.contains_key(k));
                assert(val_ok(m.envs.cactus.frames[k].vars[n], m.envs, ast));
            }
        }
    }
    sound_with_envs(m, envs, ast);
}

/// The value that a name resolves to is sound.
pub proof fn lookup_is_sound(m: MachineView, name: Seq<char>, ast: AstView)
    requires
        m.sound(ast),
    ensures
        m.envs.lookup(name) matches Some(v) ==> val_ok(v, m.envs, ast),
        m.envs.defining(m.envs.current(), name) matches Some(idx) ==> m.envs.contains(idx),
{
    defining_is_sound(m.envs, m.envs.current(), name);
    match m.envs.defining(m.envs.current(), name) {
        Some(idx) => {
            assert(m.envs.cactus.frames.contains_key(idx.key()));
            assert(val_ok(m.envs.cactus.frames[idx.key()].vars[name], m.envs, ast));
        },
        None => {},
    }
}

/// Statements to execute find what they take wherever other tasks do.
pub proof fn balanced_execs(tasks: Seq<TaskView>, stmts: Seq<StmtIdx>, height: int)
    requires
        height >= 0,
    ensures
        balanced(tasks + execs(stmts), height) == balanced(tasks, height),
    decreases stmts.len(),
{
    if stmts.len() == 0 {
        assert(tasks + execs(stmts) =~= tasks);
    } else {
        let all = tasks + execs(stmts);
        let fewer = stmts.skip(1);
        assert(all.last() == TaskView::Exec(stmts[0]));
        assert(all.drop_last() =~= tasks + execs(fewer));
        balanced_execs(tasks, fewer, height);
    }
}

/// A call and the evaluation of its arguments find what they take if what
/// is called stands on the stack.
pub proof fn balanced_call(
    tasks: Seq<TaskView>,
    paren: TokenView,
    n: nat,
    args: Seq<ExprIdx>,
    height: int,
)
    requires
        args.len() <= n,
        height >= 1 + (n - args.len()),
    ensures
        balanced(tasks.push(TaskView::Call(paren, n)) + evals(args), height) == balanced(
            tasks,
            height + args.len() - n,
        ),
    decreases args.len(),
{
    let call = tasks.push(TaskView::Call(paren, n));
    if args.len() == 0 {
        assert(call + evals(args) =~= call);
        assert(call.drop_last() =~= tasks);
    } else {
        let all = call + evals(args);
        let fewer = args.skip(1);
        assert(all.last() == TaskView::Eval(args[0]));
        assert(all.drop_last() =~= call + evals(fewer));
        balanced_call(tasks, paren, n, fewer, height + 1);
    }
}

/// The tasks after a return find what they take, and the state stays
/// sound.
pub proof fn inv_returned(m: MachineView, v: ValView, height: int, ast: AstView)
    requires
        m.sound(ast),
        val_ok(v, m.envs, ast),
        balanced(m.tasks, height),
    ensures
        m.returned(v).inv(ast),
        m.returned(v).envs.global == m.envs.global,
        covers(m.returned(v).envs, m.envs),
    decreases m.tasks.len(),
{
    if m.tasks.len() == 0 {
    } else {
        let rest = m.rest();
        assert(tasks_ok(rest.tasks, m.envs, ast)) by {
            assert forall|i: int| 0 <= i < rest.tasks.len() implies task_ok(
                #[trigger] rest.tasks[i],
                m.envs,
                ast,
            ) by {
                assert(rest.tasks[i] == m.tasks[i]);
            }
        }
        match m.tasks.last() {
            TaskView::CallEnd(saved) => {
                sound_left(rest, ast);
                let after = m.returned(v);
                assert(task_ok(m.tasks[m.tasks.len() - 1], m.envs, ast));
                sound_is_monotone(saved.push(v), rest.tasks, m.envs, after.envs, ast);
                assert(vals_ok(saved.push(v), m.envs, ast)) by {
                    assert forall|i: int| 0 <= i < saved.push(v).len() implies val_ok(
                        #[trigger] saved.push(v)[i],
                        m.envs,
                        ast,
                    ) by {
                        if i < saved.len() {
                            assert(val_ok(saved[i], m.envs, ast));
                        }
                    }
                }
            },
            TaskView::Top => {},
            TaskView::Leave => {
                sound_left(rest, ast);
                let next = rest.with_envs(m.envs.left());
                sound_is_monotone(seq![v], Seq::empty(), m.envs, next.envs, ast);
                assert(seq![v][0] == v);
                inv_returned(next, v, height, ast);
            },
            _ => {
                inv_returned(rest, v, m.tasks.last().leaves(height), ast);
            },
        }
    }
}

/// Every variable of a call's frame holds one of the arguments.
pub proof fn bound_holds_arguments(params: Seq<TokenView>, args: Seq<ValView>, n: int)
    ensures
        forall|name: Seq<char>|
            bound(params, args, n).contains_key(name) ==> exists|i: int|
                0 <= i < args.len() && #[trigger] args[i] == bound(params, args, n)[name],
    decreases n,
{
    if n <= 0 || n > params.len() || n > args.len() {
    } else {
        bound_holds_arguments(params, args, n - 1);
        assert forall|name: Seq<char>| bound(params, args, n).contains_key(name) implies exists|
            i: int,
        |
            0 <= i < args.len() && #[trigger] args[i] == bound(params, args, n)[name] by {
            if name == params[n - 1].lexeme {
                assert(args[n - 1] == bound(params, args, n)[name]);
            } else {
                let i = choose|i: int|
                    0 <= i < args.len() && #[trigger] args[i] == bound(params, args, n - 1)[name];
                assert(args[i] == bound(params, args, n)[name]);
            }
        }
    }
}


/// The tasks with one more on top find what they take exactly when the
/// new one does and the others do after it.
pub proof fn balanced_push(tasks: Seq<TaskView>, task: TaskView, height: int)
    ensures
        balanced(tasks.push(task), height) == (task.demand() <= height && balanced(
            tasks,
            task.leaves(height),
        )),
{
    assert(tasks.push(task).drop_last() =~= tasks);
}

proof fn tasks_ok_push(tasks: Seq<TaskView>, task: TaskView, envs: EnvCactusView, ast: AstView)
    requires
        tasks_ok(tasks, envs, ast),
        task_ok(task, envs, ast),
    ensures
        tasks_ok(tasks.push(task), envs, ast),
{
    assert forall|i: int| 0 <= i < tasks.push(task).len() implies task_ok(
        #[trigger] tasks.push(task)[i],
        envs,
        ast,
    ) by {
        if i < tasks.len() {
            assert(task_ok(tasks[i], envs, ast));
        }
    }
}

proof fn tasks_ok_rest(tasks: Seq<TaskView>, envs: EnvCactusView, ast: AstView)
    requires
        tasks_ok(tasks, envs, ast),
        tasks.len() > 0,
    ensures
        tasks_ok(tasks.drop_last(), envs, ast),
        task_ok(tasks.last(), envs, ast),
{
    assert forall|i: int| 0 <= i < tasks.drop_last().len() implies task_ok(
        #[trigger] tasks.drop_last()[i],
        envs,
        ast,
    ) by {
        assert(task_ok(tasks[i], envs, ast));
    }
    assert(task_ok(tasks[tasks.len() - 1], envs, ast));
}

proof fn tasks_ok_append(
    tasks: Seq<TaskView>,
    more: Seq<TaskView>,
    envs: EnvCactusView,
    ast: AstView,
)
    requires
        tasks_ok(tasks, envs, ast),
        tasks_ok(more, envs, ast),
    ensures
        tasks_ok(tasks + more, envs, ast),
{
    assert forall|i: int| 0 <= i < (tasks + more).len() implies task_ok(
        #[trigger] (tasks + more)[i],
        envs,
        ast,
    ) by {
        if i < tasks.len() {
            assert(task_ok(tasks[i], envs, ast));
        } else {
            assert(task_ok(more[i - tasks.len()], envs, ast));
        }
    }
}

proof fn vals_ok_push(vals: Seq<ValView>, v: ValView, envs: EnvCactusView, ast: AstView)
    requires
        vals_ok(vals, envs, ast),
        val_ok(v, envs, ast),
    ensures
        vals_ok(vals.push(v), envs, ast),
{
    assert forall|i: int| 0 <= i < vals.push(v).len() implies val_ok(
        #[trigger] vals.push(v)[i],
        envs,
        ast,
    ) by {
        if i < vals.len() {
            assert(val_ok(vals[i], envs, ast));
        }
    }
}

proof fn vals_ok_part(vals: Seq<ValView>, from: int, to: int, envs: EnvCactusView, ast: AstView)
    requires
        vals_ok(vals, envs, ast),
        0 <= from <= to <= vals.len(),
    ensures
        vals_ok(vals.subrange(from, to), envs, ast),
{
    assert forall|i: int| 0 <= i < vals.subrange(from, to).len() implies val_ok(
        #[trigger] vals.subrange(from, to)[i],
        envs,
        ast,
    ) by {
        assert(val_ok(vals[from + i], envs, ast));
    }
}

/// Executing a statement keeps the invariant.
pub proof fn exec_stmt_keeps_inv(r: MachineView, stmt: StmtView, fresh: Index, ast: AstView)
    requires
        r.inv(ast),
        stmt.below(ast.stmts.len() as int, ast.exprs.len() as int),
        stmt is Block ==> !r.envs.contains(fresh),
    ensures
        r.exec_stmt(stmt, fresh).0.inv(ast),
        r.exec_stmt(stmt, fresh).0.envs.global == r.envs.global,
        covers(r.exec_stmt(stmt, fresh).0.envs, r.envs),
{
    let h = r.vals.len() as int;
    let after = r.exec_stmt(stmt, fresh).0;
    match stmt {
        StmtView::Print(e) => {
            let first = r.tasks.push(TaskView::Print);
            tasks_ok_push(r.tasks, TaskView::Print, r.envs, ast);
            tasks_ok_push(first, TaskView::Eval(e), r.envs, ast);
            balanced_push(r.tasks, TaskView::Print, h + 1);
            balanced_push(first, TaskView::Eval(e), h);
        },
        StmtView::Expression(e) => {
            let first = r.tasks.push(TaskView::Discard);
            tasks_ok_push(r.tasks, TaskView::Discard, r.envs, ast);
            tasks_ok_push(first, TaskView::Eval(e), r.envs, ast);
            balanced_push(r.tasks, TaskView::Discard, h + 1);
            balanced_push(first, TaskView::Eval(e), h);
        },
        StmtView::VarDecl { name, init } => match init {
            Some(e) => {
                let first = r.tasks.push(TaskView::Define(name.lexeme));
                tasks_ok_push(r.tasks, TaskView::Define(name.lexeme), r.envs, ast);
                tasks_ok_push(first, TaskView::Eval(e), r.envs, ast);
                balanced_push(r.tasks, TaskView::Define(name.lexeme), h + 1);
                balanced_push(first, TaskView::Eval(e), h);
            },
            None => {
                assert(r.envs.contains(r.envs.cactus.stack[r.envs.cactus.stack.len() - 1]));
                sound_defined(r, r.envs.current(), name.lexeme, ValView::Nil, ast);
            },
        },
        StmtView::Block(stmts) => {
            assert(r.envs.contains(r.envs.cactus.stack[r.envs.cactus.stack.len() - 1]));
            sound_entered(r, fresh, Map::empty(), r.envs.current(), ast);
            let entered = r.with_envs(r.envs.entered(fresh, Map::empty(), r.envs.current()));
            let first = r.tasks.push(TaskView::Leave);
            tasks_ok_push(r.tasks, TaskView::Leave, entered.envs, ast);
            assert(tasks_ok(execs(stmts), entered.envs, ast));
            tasks_ok_append(first, execs(stmts), entered.envs, ast);
            balanced_execs(first, stmts, h);
            balanced_push(r.tasks, TaskView::Leave, h);
        },
        StmtView::If { cond, then_branch, else_branch } => {
            let t = TaskView::Branch(then_branch, else_branch);
            let first = r.tasks.push(t);
            tasks_ok_push(r.tasks, t, r.envs, ast);
            tasks_ok_push(first, TaskView::Eval(cond), r.envs, ast);
            balanced_push(r.tasks, t, h + 1);
            balanced_push(first, TaskView::Eval(cond), h);
        },
        StmtView::While { cond, body } => {
            let t = TaskView::Loop(cond, body);
            let first = r.tasks.push(t);
            tasks_ok_push(r.tasks, t, r.envs, ast);
            tasks_ok_push(first, TaskView::Eval(cond), r.envs, ast);
            balanced_push(r.tasks, t, h + 1);
            balanced_push(first, TaskView::Eval(cond), h);
        },
        StmtView::Function { name, params, body } => {
            assert(r.envs.contains(r.envs.cactus.stack[r.envs.cactus.stack.len() - 1]));
            let f = ValView::Callable(
                CallableView::Function {
                    name: name.lexeme,
                    params,
                    body,
                    closure: r.envs.current(),
                },
            );
            sound_defined(r, r.envs.current(), name.lexeme, f, ast);
        },
        StmtView::Return(_, value) => match value {
            Some(e) => {
                let first = r.tasks.push(TaskView::Return);
                tasks_ok_push(r.tasks, TaskView::Return, r.envs, ast);
                tasks_ok_push(first, TaskView::Eval(e), r.envs, ast);
                balanced_push(r.tasks, TaskView::Return, h + 1);
                balanced_push(first, TaskView::Eval(e), h);
            },
            None => {
                inv_returned(r, ValView::Nil, h, ast);
            },
        },
        StmtView::ParseErr(token, err) => {
            inv_halted(r, ast);
        },
    }
}

/// Evaluating an expression keeps the invariant.
pub proof fn eval_expr_keeps_inv(m: MachineView, expr: ExprView, reply: Option<u64>, ast: AstView)
    requires
        m.inv(ast),
        m.tasks.len() > 0,
        m.tasks.last() is Eval,
        expr.below(ast.exprs.len() as int),
    ensures
        m.eval_expr(expr, reply).0.inv(ast),
        m.eval_expr(expr, reply).0.envs.global == m.envs.global,
        covers(m.eval_expr(expr, reply).0.envs, m.envs),
{
    let h = m.vals.len() as int;
    let r = m.rest();
    tasks_ok_rest(m.tasks, m.envs, ast);
    assert(balanced(r.tasks, h + 1));
    match expr {
        ExprView::Literal(lit) => match lit {
            LitView::String(s) => {
                vals_ok_push(m.vals, ValView::String(s), m.envs, ast);
            },
            LitView::Bool(b) => {
                vals_ok_push(m.vals, ValView::Bool(b), m.envs, ast);
            },
            LitView::Nil => {
                vals_ok_push(m.vals, ValView::Nil, m.envs, ast);
            },
            LitView::Number(digits) => match reply {
                Some(bits) => {
                    vals_ok_push(m.vals, ValView::Number(bits), m.envs, ast);
                },
                None => {},
            },
        },
        ExprView::Grouping(e) => {
            tasks_ok_push(r.tasks, TaskView::Eval(e), m.envs, ast);
            balanced_push(r.tasks, TaskView::Eval(e), h);
        },
        ExprView::Unary(op, e) => {
            let first = r.tasks.push(TaskView::Unary(op));
            tasks_ok_push(r.tasks, TaskView::Unary(op), m.envs, ast);
            tasks_ok_push(first, TaskView::Eval(e), m.envs, ast);
            balanced_push(r.tasks, TaskView::Unary(op), h + 1);
            balanced_push(first, TaskView::Eval(e), h);
        },
        ExprView::Binary(op, l, rr) => {
            let first = r.tasks.push(TaskView::Binary(op));
            let second = first.push(TaskView::Eval(rr));
            tasks_ok_push(r.tasks, TaskView::Binary(op), m.envs, ast);
            tasks_ok_push(first, TaskView::Eval(rr), m.envs, ast);
            tasks_ok_push(second, TaskView::Eval(l), m.envs, ast);
            balanced_push(r.tasks, TaskView::Binary(op), h + 2);
            balanced_push(first, TaskView::Eval(rr), h + 1);
            balanced_push(second, TaskView::Eval(l), h);
        },
        ExprView::Variable(token) => {
            lookup_is_sound(m, token.lexeme, ast);
            match m.envs.lookup(token.lexeme) {
                Some(v) => {
                    vals_ok_push(m.vals, v, m.envs, ast);
                },
                None => {
                    inv_halted(r, ast);
                },
            }
        },
        ExprView::Assign { var, value } => {
            let first = r.tasks.push(TaskView::Assign(var));
            tasks_ok_push(r.tasks, TaskView::Assign(var), m.envs, ast);
            tasks_ok_push(first, TaskView::Eval(value), m.envs, ast);
            balanced_push(r.tasks, TaskView::Assign(var), h + 1);
            balanced_push(first, TaskView::Eval(value), h);
        },
        ExprView::Logical(op, l, rr) => {
            let first = r.tasks.push(TaskView::Logical(op, rr));
            tasks_ok_push(r.tasks, TaskView::Logical(op, rr), m.envs, ast);
            tasks_ok_push(first, TaskView::Eval(l), m.envs, ast);
            balanced_push(r.tasks, TaskView::Logical(op, rr), h + 1);
            balanced_push(first, TaskView::Eval(l), h);
        },
        ExprView::Call { callee, paren, args } => {
            let first = r.tasks.push(TaskView::Callee(paren, args));
            tasks_ok_push(r.tasks, TaskView::Callee(paren, args), m.envs, ast);
            tasks_ok_push(first, TaskView::Eval(callee), m.envs, ast);
            balanced_push(r.tasks, TaskView::Callee(paren, args), h + 1);
            balanced_push(first, TaskView::Eval(callee), h);
        },
    }
}

/// A call keeps the invariant.
pub proof fn call_keeps_inv(
    m: MachineView,
    paren: TokenView,
    argc: nat,
    reply: Option<u64>,
    fresh: Index,
    ast: AstView,
)
    requires
        m.inv(ast),
        m.tasks.len() > 0,
        m.tasks.last() == TaskView::Call(paren, argc),
        m.calls_function(argc as int) ==> !m.envs.contains(fresh),
    ensures
        m.call(paren, argc as int, reply, fresh).0.inv(ast),
        m.call(paren, argc as int, reply, fresh).0.envs.global == m.envs.global,
        covers(m.call(paren, argc as int, reply, fresh).0.envs, m.envs),
{
    let h = m.vals.len() as int;
    let r = m.rest();
    tasks_ok_rest(m.tasks, m.envs, ast);
    let base = m.vals.take(h - 1 - argc);
    let args = m.vals.subrange(h - argc, h);
    vals_ok_part(m.vals, 0, h - 1 - argc, m.envs, ast);
    vals_ok_part(m.vals, h - argc, h, m.envs, ast);
    assert(m.vals.take(h - 1 - argc) == m.vals.subrange(0, h - 1 - argc));
    let callee = m.vals[h - 1 - argc];
    assert(val_ok(callee, m.envs, ast));
    match callee {
        ValView::Callable(CallableView::Clock) => match reply {
            Some(bits) => {
                vals_ok_push(base, ValView::Number(bits), m.envs, ast);
            },
            None => {},
        },
        ValView::Callable(CallableView::Function { name, params, body, closure }) => {
            let vars = bound(params, args, pairs(params, args));
            bound_holds_arguments(params, args, pairs(params, args));
            assert forall|n: Seq<char>| vars.contains_key(n) implies val_ok(
                #[trigger] vars[n],
                m.envs,
                ast,
            ) by {
                let i = choose|i: int| 0 <= i < args.len() && #[trigger] args[i] == vars[n];
                assert(val_ok(args[i], m.envs, ast));
            }
            sound_entered(r, fresh, vars, closure, ast);
            let envs = m.envs.entered(fresh, vars, closure);
            let end = TaskView::CallEnd(base);
            sound_is_monotone(base, r.tasks, m.envs, envs, ast);
            tasks_ok_push(r.tasks, end, envs, ast);
            assert(tasks_ok(execs(body), envs, ast));
            tasks_ok_append(r.tasks.push(end), execs(body), envs, ast);
            balanced_execs(r.tasks.push(end), body, 0);
            balanced_push(r.tasks, end, 0);
        },
        _ => {
            inv_halted(r, ast);
        },
    }
}

/// A task that goes on from values keeps the invariant.
pub proof fn resume_keeps_inv(
    m: MachineView,
    task: TaskView,
    reply: Option<u64>,
    fresh: Index,
    ast: AstView,
)
    requires
        m.inv(ast),
        m.tasks.len() > 0,
        m.tasks.last() == task,
        !(task is Exec),
        !(task is Eval),
        m.enters(ast) ==> !m.envs.contains(fresh),
    ensures
        m.resume(task, reply, fresh).0.inv(ast),
        m.resume(task, reply, fresh).0.envs.global == m.envs.global,
        covers(m.resume(task, reply, fresh).0.envs, m.envs),
{
    let h = m.vals.len() as int;
    let r = m.rest();
    tasks_ok_rest(m.tasks, m.envs, ast);
    assert(task.demand() <= h);
    assert(balanced(r.tasks, task.leaves(h)));
    if task.demand() >= 1 {
        vals_ok_part(m.vals, 0, h - 1, m.envs, ast);
        assert(m.vals.drop_last() == m.vals.subrange(0, h - 1));
        assert(val_ok(m.vals[h - 1], m.envs, ast));
    }
    let v = m.vals.last();
    let popped = r.take();
    match task {
        TaskView::Print => {},
        TaskView::Discard => {},
        TaskView::Define(name) => {
            assert(m.envs.contains(m.envs.cactus.stack[m.envs.cactus.stack.len() - 1]));
            sound_defined(popped, m.envs.current(), name, v, ast);
        },
        TaskView::Branch(then_branch, else_branch) => {
            if v.is_truthy() {
                tasks_ok_push(r.tasks, TaskView::Exec(then_branch), m.envs, ast);
                balanced_push(r.tasks, TaskView::Exec(then_branch), h - 1);
            } else {
                match else_branch {
                    Some(e) => {
                        tasks_ok_push(r.tasks, TaskView::Exec(e), m.envs, ast);
                        balanced_push(r.tasks, TaskView::Exec(e), h - 1);
                    },
                    None => {},
                }
            }
        },
        TaskView::Loop(cond, body) => {
            if v.is_truthy() {
                let first = r.tasks.push(task);
                let second = first.push(TaskView::Eval(cond));
                tasks_ok_push(r.tasks, task, m.envs, ast);
                tasks_ok_push(first, TaskView::Eval(cond), m.envs, ast);
                tasks_ok_push(second, TaskView::Exec(body), m.envs, ast);
                balanced_push(r.tasks, task, h);
                balanced_push(first, TaskView::Eval(cond), h - 1);
                balanced_push(second, TaskView::Exec(body), h - 1);
            }
        },
        TaskView::Leave => {
            sound_left(r, ast);
        },
        TaskView::Return => {
            inv_returned(popped, v, h - 1, ast);
        },
        TaskView::CallEnd(saved) => {
            sound_left(r, ast);
            vals_ok_push(saved, ValView::Nil, m.envs, ast);
            sound_is_monotone(saved.push(ValView::Nil), r.tasks, m.envs, m.envs.left(), ast);
        },
        TaskView::Top => {},
        TaskView::Unary(op) => {
            match unary(op, v) {
                Ok(w) => {
                    vals_ok_push(popped.vals, w, m.envs, ast);
                },
                Err(e) => {
                    inv_halted(r, ast);
                },
            }
        },
        TaskView::Binary(op) => {
            let l = m.vals[h - 2];
            vals_ok_part(m.vals, 0, h - 2, m.envs, ast);
            assert(m.vals.drop_last().drop_last() == m.vals.subrange(0, h - 2));
            match binary(op, l, v) {
                BinaryView::Value(w) => {
                    vals_ok_push(popped.take().vals, w, m.envs, ast);
                },
                BinaryView::Arithmetic(a, b) => match reply {
                    Some(bits) => {
                        vals_ok_push(popped.take().vals, ValView::Number(bits), m.envs, ast);
                    },
                    None => {},
                },
                BinaryView::Error(e) => {
                    inv_halted(r, ast);
                },
            }
        },
        TaskView::Logical(op, right) => {
            if (op.kind == TokenKind::Or) == v.is_truthy() {
            } else {
                tasks_ok_push(r.tasks, TaskView::Eval(right), m.envs, ast);
                balanced_push(r.tasks, TaskView::Eval(right), h - 1);
            }
        },
        TaskView::Assign(var) => {
            lookup_is_sound(m, var.lexeme, ast);
            match m.envs.defining(m.envs.current(), var.lexeme) {
                Some(idx) => {
                    sound_defined(r, idx, var.lexeme, v, ast);
                },
                None => {
                    inv_halted(r, ast);
                },
            }
        },
        TaskView::Callee(paren, args) => {
            match v {
                ValView::Callable(c) => {
                    if c.arity() == args.len() {
                        let call = TaskView::Call(paren, args.len());
                        tasks_ok_push(r.tasks, call, m.envs, ast);
                        assert(tasks_ok(evals(args), m.envs, ast));
                        tasks_ok_append(r.tasks.push(call), evals(args), m.envs, ast);
                        balanced_call(r.tasks, paren, args.len(), args, h);
                    } else {
                        inv_halted(r, ast);
                    }
                },
                _ => {
                    inv_halted(r, ast);
                },
            }
        },
        TaskView::Call(paren, argc) => {
            call_keeps_inv(m, paren, argc, reply, fresh, ast);
        },
        TaskView::Exec(_) | TaskView::Eval(_) => {},
    }
}

/// Every step keeps the invariant of the evaluator: whatever index the
/// state holds after the step names something that exists, each task will
/// find the values that it takes, and the root frame is active still.
pub proof fn step_keeps_inv(m: MachineView, ast: AstView, reply: Option<u64>, fresh: Index)
    requires
        m.inv(ast),
        m.enters(ast) ==> !m.envs.contains(fresh),
    ensures
        m.step(ast, reply, fresh).0.inv(ast),
        m.step(ast, reply, fresh).0.envs.global == m.envs.global,
        covers(m.step(ast, reply, fresh).0.envs, m.envs),
{
    if m.tasks.len() > 0 {
        tasks_ok_rest(m.tasks, m.envs, ast);
        nodes_resolve(ast);
        match m.tasks.last() {
            TaskView::Exec(s) => {
                exec_stmt_keeps_inv(m.rest(), ast.stmts[s.pos() as int], fresh, ast);
            },
            TaskView::Eval(e) => {
                eval_expr_keeps_inv(m, ast.exprs[e.pos() as int], reply, ast);
            },
            task => {
                resume_keeps_inv(m, task, reply, fresh, ast);
            },
        }
    }
}


/// A state that is sound for an arena is sound for every arena that grew
/// from it.
pub proof fn sound_under_growth(m: MachineView, was: AstView, is: AstView)
    requires
        m.sound(was),
        is.wf(),
        is.extends(was),
    ensures
        m.sound(is),
        balanced(m.tasks, m.vals.len() as int) ==> m.inv(is),
{
    assert forall|k: usize, name: Seq<char>|
        #![trigger m.envs.cactus.frames[k].vars[name]]
        m.envs.cactus.frames.contains_key(k) && m.envs.cactus.frames[k].vars.contains_key(
            name,
        ) implies val_ok(m.envs.cactus.frames[k].vars[name], m.envs, is) by {
        assert(val_ok(m.envs.cactus.frames[k].vars[name], m.envs, was));
    }
    assert forall|i: int| 0 <= i < m.vals.len() implies val_ok(#[trigger] m.vals[i], m.envs, is) by {
        assert(val_ok(m.vals[i], m.envs, was));
    }
    assert forall|i: int| 0 <= i < m.tasks.len() implies task_ok(
        #[trigger] m.tasks[i],
        m.envs,
        is,
    ) by {
        assert(task_ok(m.tasks[i], m.envs, was));
        match m.tasks[i] {
            TaskView::CallEnd(saved) => {
                assert forall|j: int| 0 <= j < saved.len() implies val_ok(
                    #[trigger] saved[j],
                    m.envs,
                    is,
                ) by {
                    assert(val_ok(saved[j], m.envs, was));
                }
            },
            _ => {},
        }
    }
}

/// Lexical scoping, at the declaration: a function holds the frame that
/// is active where it is declared.
pub proof fn function_captures_its_frame(
    m: MachineView,
    name: TokenView,
    params: Seq<TokenView>,
    body: Seq<StmtIdx>,
    fresh: Index,
)
    requires
        m.envs.wf(),
    ensures
        m.exec_stmt(StmtView::Function { name, params, body }, fresh).1 == ActionView::Continue,
        m.exec_stmt(StmtView::Function { name, params, body }, fresh).0.envs.lookup(name.lexeme)
            == Some(
            ValView::Callable(
                CallableView::Function {
                    name: name.lexeme,
                    params,
                    body,
                    closure: m.envs.current(),
                },
            ),
        ),
{
    crate::env::defined_then_lookup(
        m.envs,
        name.lexeme,
        ValView::Callable(
            CallableView::Function { name: name.lexeme, params, body, closure: m.envs.current() },
        ),
    );
}

/// Lexical scoping, at the call: the body of a function runs in a new
/// frame whose parent is the frame that the function holds, whatever
/// frame is active where it is called. A name that is no parameter is
/// what it is seen to be from the function's frame.
pub proof fn call_resolves_in_closure(
    m: MachineView,
    paren: TokenView,
    argc: nat,
    reply: Option<u64>,
    fresh: Index,
    name: Seq<char>,
)
    requires
        m.envs.wf(),
        m.tasks.len() > 0,
        m.tasks.last() == TaskView::Call(paren, argc),
        argc < m.vals.len(),
        m.calls_function(argc as int),
        m.envs.contains(m.vals[m.vals.len() - 1 - argc]->Callable_0->Function_closure),
        !m.envs.contains(fresh),
    ensures
        ({
            let callee = m.vals[m.vals.len() - 1 - argc]->Callable_0;
            let args = m.vals.subrange(m.vals.len() - argc, m.vals.len() as int);
            let params = callee->Function_params;
            let vars = bound(params, args, pairs(params, args));
            let after = m.call(paren, argc as int, reply, fresh).0;
            &&& after.envs.current() == fresh
            &&& after.envs.cactus.frame(fresh).parent == Some(callee->Function_closure)
            &&& after.envs.lookup(name) == if vars.contains_key(name) {
                Some(vars[name])
            } else {
                m.envs.lookup_from(callee->Function_closure, name)
            }
        }),
{
    let callee = m.vals[m.vals.len() - 1 - argc]->Callable_0;
    let args = m.vals.subrange(m.vals.len() - argc, m.vals.len() as int);
    let params = callee->Function_params;
    let vars = bound(params, args, pairs(params, args));
    entered_lookup(m.envs, fresh, vars, callee->Function_closure, name);
}

/// Short-circuit: where the left operand of `and` is falsey, or that of
/// `or` truthy, the step leaves that operand's value as the value of the
/// whole and schedules nothing: the right operand is never evaluated.
pub proof fn logical_short_circuits(
    m: MachineView,
    ast: AstView,
    reply: Option<u64>,
    fresh: Index,
    operator: TokenView,
    right: ExprIdx,
)
    requires
        m.tasks.len() > 0,
        m.tasks.last() == TaskView::Logical(operator, right),
        m.vals.len() > 0,
        if operator.kind == TokenKind::Or {
            m.vals.last().is_truthy()
        } else {
            !m.vals.last().is_truthy()
        },
    ensures
        m.step(ast, reply, fresh) == (m.rest(), ActionView::Continue),
        m.step(ast, reply, fresh).0.vals == m.vals,
        m.step(ast, reply, fresh).0.envs == m.envs,
{
}

/// Where the left operand does not settle the result, it is dropped and
/// the right operand is evaluated in its place.
pub proof fn logical_goes_on(
    m: MachineView,
    ast: AstView,
    reply: Option<u64>,
    fresh: Index,
    operator: TokenView,
    right: ExprIdx,
)
    requires
        m.tasks.len() > 0,
        m.tasks.last() == TaskView::Logical(operator, right),
        m.vals.len() > 0,
        if operator.kind == TokenKind::Or {
            !m.vals.last().is_truthy()
        } else {
            m.vals.last().is_truthy()
        },
    ensures
        m.step(ast, reply, fresh) == (
            m.rest().take().schedule(TaskView::Eval(right)),
            ActionView::Continue,
        ),
{
}

/// Assignment returns: the value assigned stays on top of the values as
/// the value of the assignment, and the variable holds it.
pub proof fn assignment_yields_its_value(
    m: MachineView,
    ast: AstView,
    reply: Option<u64>,
    fresh: Index,
    var: TokenView,
)
    requires
        m.envs.wf(),
        m.tasks.len() > 0,
        m.tasks.last() == TaskView::Assign(var),
        m.vals.len() > 0,
        m.envs.lookup(var.lexeme) is Some,
    ensures
        m.step(ast, reply, fresh).1 == ActionView::Continue,
        m.step(ast, reply, fresh).0.vals == m.vals,
        m.step(ast, reply, fresh).0.tasks == m.tasks.drop_last(),
        m.step(ast, reply, fresh).0.envs.lookup(var.lexeme) == Some(m.vals.last()),
{
    assigned_then_lookup(m.envs, var.lexeme, m.vals.last());
}

/// Printing a literal prints the literal: from the statement
/// `print LITERAL;` three steps lead back to the state without the
/// statement, and the third writes the literal's text. A number is
/// printed as the double that the embedder made of its digits.
pub proof fn print_of_a_literal(
    m: MachineView,
    ast: AstView,
    s: StmtIdx,
    e: ExprIdx,
    lit: LitView,
    bits: u64,
    fresh: Index,
)
    requires
        m.tasks.len() > 0,
        m.tasks.last() == TaskView::Exec(s),
        ast.stmts[s.pos() as int] == StmtView::Print(e),
        ast.exprs[e.pos() as int] == ExprView::Literal(lit),
    ensures
        ({
            let (m1, a1) = m.step(ast, None, fresh);
            let (m2, a2) = m1.step(ast, None, fresh);
            let (m3, a3) = m2.step(ast, Some(bits), fresh);
            let (m4, a4) = m3.step(ast, None, fresh);
            &&& a1 == ActionView::Continue
            &&& match lit {
                LitView::Number(digits) => {
                    &&& m2 == m1
                    &&& a2 == ActionView::Number(RequestView::Parse(digits))
                    &&& a3 == ActionView::Continue
                    &&& a4 == ActionView::PrintNumber(bits)
                    &&& m4 == m.rest()
                },
                LitView::String(text) => a2 == ActionView::Continue && a3 == ActionView::Print(text)
                    && m3 == m.rest(),
                LitView::Bool(b) => a2 == ActionView::Continue && a3 == ActionView::Print(
                    if b {
                        "true"@
                    } else {
                        "false"@
                    },
                ) && m3 == m.rest(),
                LitView::Nil => a2 == ActionView::Continue && a3 == ActionView::Print("nil"@) && m3
                    == m.rest(),
            }
        }),
{
    let r = m.rest();
    let t1 = r.tasks.push(TaskView::Print);
    let t2 = t1.push(TaskView::Eval(e));
    let (m1, a1) = m.step(ast, None, fresh);
    assert(m1.tasks == t2);
    assert(t2.drop_last() =~= t1);
    assert(t1.drop_last() =~= r.tasks);
    let (m2, a2) = m1.step(ast, None, fresh);
    let (m3, a3) = m2.step(ast, Some(bits), fresh);
    match lit {
        LitView::Number(digits) => {
            assert(m2 == m1);
            assert(m3.tasks == t1);
            assert(m3.vals == m.vals.push(ValView::Number(bits)));
            assert(m3.vals.drop_last() =~= m.vals);
        },
        _ => {
            assert(m2.tasks == t1);
            assert(m2.vals.drop_last() =~= m.vals);
        },
    }
}


/// The numbers that a step asks for are those that the embedder can
/// supply: where it asks for arithmetic, the operator is one of `+ - * /`.
pub proof fn arithmetic_is_asked_of_arithmetic_operators(
    m: MachineView,
    ast: AstView,
    reply: Option<u64>,
    fresh: Index,
)
    requires
        m.inv(ast),
    ensures
        m.step(ast, reply, fresh).1 matches ActionView::Number(
            RequestView::Arithmetic { operator, left, right },
        ) ==> is_arithmetic_operator(operator),
{
    if m.tasks.len() > 0 {
        tasks_ok_rest(m.tasks, m.envs, ast);
    }
}

/// A run that was halted is over: the next step finds nothing to do, and
/// changes nothing.
pub proof fn a_halted_run_is_over(m: MachineView, ast: AstView, reply: Option<u64>, fresh: Index)
    ensures
        m.halted().step(ast, reply, fresh) == (m.halted(), ActionView::Done),
{
}

/// A statement that could not be parsed halts the run when it is reached,
/// with the parser's message.
pub proof fn a_place_holder_halts(
    m: MachineView,
    ast: AstView,
    reply: Option<u64>,
    fresh: Index,
    s: StmtIdx,
    token: TokenView,
    err: Seq<char>,
)
    requires
        m.tasks.len() > 0,
        m.tasks.last() == TaskView::Exec(s),
        ast.stmts[s.pos() as int] == StmtView::ParseErr(token, err),
    ensures
        m.step(ast, reply, fresh) == (
            m.halted(),
            ActionView::Fail(ErrorView::Parsing { token, err }),
        ),
{
}

} // verus!
