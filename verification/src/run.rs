//! A run, as mathematics: what the evaluator writes when an embedder
//! takes its steps one after the other and supplies what they ask for.

use crate::ast::{AstView, ExprIdx, ExprView, LitView, StmtIdx, StmtView};
use crate::cactus::Index;
use crate::env::EnvCactusView;
use crate::grammar;
use crate::interpreter::{initial, program};
use crate::machine::{ActionView, MachineView, RequestView, TaskView};
use crate::output::{printed, reported};
use crate::val::ValView;
use vstd::prelude::*;

verus! {

/// What an embedder supplies.
pub struct Host {
    /// The double that digits spell, and the results of arithmetic.
    pub number: spec_fn(RequestView) -> u64,
    /// The time at each round of a run.
    pub clock: spec_fn(nat) -> u64,
    /// The decimal form of a double.
    pub text: spec_fn(u64) -> Seq<char>,
    /// The index under which the next frame is stored.
    pub fresh: spec_fn(EnvCactusView) -> Index,
}

impl Host {
    /// The number that the embedder supplies for a request.
    pub open spec fn supply(self, request: RequestView, round: nat) -> u64 {
        match request {
            RequestView::Clock => (self.clock)(round),
            _ => (self.number)(request),
        }
    }

    /// What an action writes to the output sink.
    pub open spec fn out_line(self, action: ActionView) -> Seq<char> {
        let number = match action {
            ActionView::PrintNumber(bits) => (self.text)(bits),
            _ => Seq::empty(),
        };
        match printed(action, number) {
            Some(line) => line,
            None => Seq::empty(),
        }
    }

    /// How a literal reads when it is printed.
    pub open spec fn rendering(self, lit: LitView) -> Seq<char> {
        match lit {
            LitView::Number(digits) => (self.text)((self.number)(RequestView::Parse(digits))),
            LitView::String(text) => text,
            LitView::Bool(b) => if b {
                "true"@
            } else {
                "false"@
            },
            LitView::Nil => "nil"@,
        }
    }

    /// The literals as they read when each is printed on a line of its own.
    pub open spec fn renderings(self, lits: Seq<LitView>) -> Seq<char>
        decreases lits.len(),
    {
        if lits.len() == 0 {
            Seq::empty()
        } else {
            self.rendering(lits[0]).push('\n') + self.renderings(lits.skip(1))
        }
    }
}

/// What an action writes to the diagnostic sink.
pub open spec fn err_line(action: ActionView) -> Seq<char> {
    match reported(action) {
        Some(line) => line,
        None => Seq::empty(),
    }
}

/// One round of a run: a step, and where the step asks for a number, the
/// same step again with the number.
pub open spec fn round(m: MachineView, ast: AstView, host: Host, k: nat) -> (
    MachineView,
    ActionView,
) {
    let first = m.step(ast, None, (host.fresh)(m.envs));
    match first.1 {
        ActionView::Number(request) => first.0.step(
            ast,
            Some(host.supply(request, k)),
            (host.fresh)(first.0.envs),
        ),
        _ => first,
    }
}

/// Where a run stands, and what it has written to the two sinks.
pub struct Run {
    pub state: MachineView,
    pub out: Seq<char>,
    pub err: Seq<char>,
}

/// The run of `rounds` rounds from the state `m`.
pub open spec fn run(m: MachineView, ast: AstView, host: Host, rounds: nat) -> Run
    decreases rounds,
{
    if rounds == 0 {
        Run { state: m, out: Seq::empty(), err: Seq::empty() }
    } else {
        let (next, action) = round(m, ast, host, rounds);
        let rest = run(next, ast, host, (rounds - 1) as nat);
        Run {
            state: rest.state,
            out: host.out_line(action) + rest.out,
            err: err_line(action) + rest.err,
        }
    }
}

/// Whether the statements `roots` each print the literal at their place
/// in `lits`.
pub open spec fn print_literals(ast: AstView, roots: Seq<StmtIdx>, lits: Seq<LitView>) -> bool {
    &&& roots.len() == lits.len()
    &&& forall|i: int|
        0 <= i < roots.len() ==> {
            &&& (#[trigger] ast.stmts[roots[i].pos() as int]) is Print
            &&& ast.exprs[ast.stmts[roots[i].pos() as int]->Print_0.pos() as int]
                == ExprView::Literal(lits[i])
        }
}

/// The statement `print LITERAL;` at the top level takes four rounds and
/// writes the literal and a line feed to the output sink; the run goes on
/// behind it as if it had not been there.
proof fn a_print_takes_four_rounds(
    m: MachineView,
    ast: AstView,
    host: Host,
    s: StmtIdx,
    lit: LitView,
    k: nat,
)
    requires
        m.vals.len() == 0,
        m.tasks.len() >= 2,
        m.tasks.last() == TaskView::Exec(s),
        m.tasks[m.tasks.len() - 2] == TaskView::Top,
        ast.stmts[s.pos() as int] is Print,
        ast.exprs[ast.stmts[s.pos() as int]->Print_0.pos() as int] == ExprView::Literal(lit),
    ensures
        ({
            let behind = MachineView { tasks: m.tasks.take(m.tasks.len() - 2), ..m };
            let rest = run(behind, ast, host, k);
            let all = run(m, ast, host, k + 4);
            &&& all.state == rest.state
            &&& all.out =~= host.rendering(lit).push('\n') + rest.out
            &&& all.err =~= rest.err
        }),
{
    let e = ast.stmts[s.pos() as int]->Print_0;
    let t0 = m.tasks.take(m.tasks.len() - 2);
    let t1 = t0.push(TaskView::Top);
    let t2 = t1.push(TaskView::Print);
    let t3 = t2.push(TaskView::Eval(e));
    assert(m.tasks.drop_last() =~= t1);
    assert(t3.drop_last() =~= t2);
    assert(t2.drop_last() =~= t1);
    assert(t1.drop_last() =~= t0);
    let (m1, a1) = round(m, ast, host, k + 4);
    assert(a1 == ActionView::Continue);
    assert(m1 == MachineView { tasks: t3, ..m });
    let (m2, a2) = round(m1, ast, host, (k + 3) as nat);
    let v = match lit {
        LitView::Number(digits) => ValView::Number((host.number)(RequestView::Parse(digits))),
        LitView::String(text) => ValView::String(text),
        LitView::Bool(b) => ValView::Bool(b),
        LitView::Nil => ValView::Nil,
    };
    assert(a2 == ActionView::Continue);
    assert(m2 == MachineView { tasks: t2, vals: m.vals.push(v), ..m });
    let (m3, a3) = round(m2, ast, host, (k + 2) as nat);
    assert(m2.vals.drop_last() =~= m.vals);
    assert(m3 == MachineView { tasks: t1, ..m });
    assert(host.out_line(a3) == host.rendering(lit).push('\n'));
    assert(err_line(a3) == Seq::<char>::empty());
    let (m4, a4) = round(m3, ast, host, (k + 1) as nat);
    assert(a4 == ActionView::Continue);
    assert(m.vals =~= Seq::<ValView>::empty());
    assert(m4 == MachineView { tasks: t0, ..m });
    let r4 = run(m4, ast, host, k);
    let r3 = run(m3, ast, host, (k + 1) as nat);
    let r2 = run(m2, ast, host, (k + 2) as nat);
    let r1 = run(m1, ast, host, (k + 3) as nat);
    let r0 = run(m, ast, host, k + 4);
    assert(r3.state == r4.state && r3.out =~= r4.out && r3.err =~= r4.err);
    assert(r2.state == r4.state && r2.out =~= host.rendering(lit).push('\n') + r4.out && r2.err
        =~= r4.err);
    assert(r1.state == r4.state && r1.out =~= r2.out && r1.err =~= r2.err);
    assert(r0.state == r4.state && r0.out =~= r1.out && r0.err =~= r1.err);
}

/// A program of nothing but `print LITERAL;` statements writes the
/// literals as they read, each on a line of its own and in source order,
/// to the output sink, and nothing to the diagnostic sink; after four
/// rounds for each statement nothing is left to do.
pub proof fn prints_write_their_literals(
    m: MachineView,
    ast: AstView,
    host: Host,
    roots: Seq<StmtIdx>,
    lits: Seq<LitView>,
)
    requires
        print_literals(ast, roots, lits),
        m.tasks == program(roots),
        m.vals.len() == 0,
    ensures
        run(m, ast, host, 4 * roots.len()).state == (MachineView { tasks: Seq::empty(), ..m }),
        run(m, ast, host, 4 * roots.len()).out == host.renderings(lits),
        run(m, ast, host, 4 * roots.len()).err == Seq::<char>::empty(),
    decreases roots.len(),
{
    if roots.len() == 0 {
        assert(m.tasks =~= Seq::<TaskView>::empty());
        assert(m == MachineView { tasks: Seq::empty(), ..m });
    } else {
        let fewer = roots.skip(1);
        let behind = MachineView { tasks: program(fewer), ..m };
        assert(m.tasks.take(m.tasks.len() - 2) =~= program(fewer));
        assert(print_literals(ast, fewer, lits.skip(1))) by {
            assert forall|i: int| 0 <= i < fewer.len() implies {
                &&& (#[trigger] ast.stmts[fewer[i].pos() as int]) is Print
                &&& ast.exprs[ast.stmts[fewer[i].pos() as int]->Print_0.pos() as int]
                    == ExprView::Literal(lits.skip(1)[i])
            } by {
                assert(fewer[i] == roots[i + 1]);
                assert(ast.stmts[roots[i + 1].pos() as int] is Print);
            }
        }
        assert(ast.stmts[roots[0].pos() as int] is Print);
        a_print_takes_four_rounds(m, ast, host, roots[0], lits[0], (4 * fewer.len()) as nat);
        prints_write_their_literals(behind, ast, host, fewer, lits.skip(1));
        assert(4 * fewer.len() + 4 == 4 * roots.len());
        assert(host.renderings(lits) =~= host.rendering(lits[0]).push('\n') + host.renderings(
            lits.skip(1),
        ));
    }
}

/// Parsing and then running a program of nothing but `print LITERAL;`
/// statements, in a new session, writes exactly the literals as they
/// read: each on a line of its own, in source order, to the output sink.
/// Nothing goes to the diagnostic sink, from the parser or from the run,
/// and the run is over after four rounds for each statement.
pub proof fn printing_literals_round_trips(
    ts: Seq<crate::tokens::TokenView>,
    n: nat,
    global: Index,
    host: Host,
)
    requires
        grammar::prints_literals(ts, n),
        n <= usize::MAX,
    ensures
        ({
            let (ast, diag) = grammar::program(ts, crate::ast::Ast::new_view(), Seq::empty());
            let r = run(initial(global).loaded(ast.roots), ast, host, 4 * n);
            &&& diag == Seq::<char>::empty()
            &&& r.out == host.renderings(grammar::literals_of(ts, n))
            &&& r.err == Seq::<char>::empty()
            &&& r.state.tasks.len() == 0
        }),
{
    let empty = crate::ast::Ast::new_view();
    let lits = grammar::literals_of(ts, n);
    grammar::prints_parse(ts, n, empty, Seq::empty());
    let ast = grammar::printing(empty, lits);
    grammar::printing_prints(empty, lits);
    let start = initial(global).loaded(ast.roots);
    assert(print_literals(ast, ast.roots, lits)) by {
        assert forall|i: int| 0 <= i < ast.roots.len() implies {
            &&& (#[trigger] ast.stmts[ast.roots[i].pos() as int]) is Print
            &&& ast.exprs[ast.stmts[ast.roots[i].pos() as int]->Print_0.pos() as int]
                == ExprView::Literal(lits[i])
        } by {
            assert(grammar::prints_at(ast, ast.roots[empty.roots.len() + i], lits[i]));
        }
    }
    prints_write_their_literals(start, ast, host, ast.roots, lits);
}

/// A run that was halted writes nothing more, however long the embedder
/// goes on: what was written before the error stays as it is, and no
/// statement behind the error runs.
pub proof fn a_halted_run_writes_nothing(m: MachineView, ast: AstView, host: Host, rounds: nat)
    ensures
        run(m.halted(), ast, host, rounds) == (Run {
            state: m.halted(),
            out: Seq::empty(),
            err: Seq::empty(),
        }),
    decreases rounds,
{
    if rounds > 0 {
        let h = m.halted();
        assert(round(h, ast, host, rounds) == (h, ActionView::Done));
        a_halted_run_writes_nothing(m, ast, host, (rounds - 1) as nat);
        let rest = run(h, ast, host, (rounds - 1) as nat);
        assert(host.out_line(ActionView::Done) + rest.out =~= Seq::<char>::empty());
        assert(err_line(ActionView::Done) + rest.err =~= Seq::<char>::empty());
    }
}

/// A round that fails writes the error's line to the diagnostic sink, and
/// nothing to the output sink; the run behind it writes nothing.
pub proof fn a_failure_is_the_last_line(
    m: MachineView,
    ast: AstView,
    host: Host,
    rounds: nat,
    error: crate::error::ErrorView,
)
    requires
        rounds > 0,
        round(m, ast, host, rounds) == m.fail(error),
    ensures
        run(m, ast, host, rounds).out == Seq::<char>::empty(),
        run(m, ast, host, rounds).err == error.message().push('\n'),
        run(m, ast, host, rounds).state == m.halted(),
{
    a_halted_run_writes_nothing(m, ast, host, (rounds - 1) as nat);
    let r = run(m, ast, host, rounds);
    assert(r.out =~= Seq::<char>::empty());
    assert(r.err =~= error.message().push('\n'));
}

} // verus!
