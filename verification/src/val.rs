//! Runtime values.

use crate::ast::{clone_tokens, token_views, StmtIdx};
use crate::cactus::Index;
use crate::number;
use crate::tokens::{Token, TokenView};
use vstd::prelude::*;
use vstd::string::StringExecFns;

verus! {

/// Something that can be called.
#[derive(Debug)]
pub enum Callable {
    /// The builtin clock, of no parameters.
    Clock,
    /// A function of the program: its name, its parameters, the statements
    /// of its body, and the frame in which it was declared.
    Function { name: String, params: Vec<Token>, body: Vec<StmtIdx>, closure: Index },
}

pub enum CallableView {
    Clock,
    Function { name: Seq<char>, params: Seq<TokenView>, body: Seq<StmtIdx>, closure: Index },
}

impl CallableView {
    /// The number of arguments that a call must supply.
    pub open spec fn arity(self) -> nat {
        match self {
            CallableView::Clock => 0,
            CallableView::Function { params, .. } => params.len(),
        }
    }

    /// How the callable is printed.
    pub open spec fn text(self) -> Seq<char> {
        match self {
            CallableView::Clock => "<native fn>"@,
            CallableView::Function { name, .. } => "<fn "@ + name + ">"@,
        }
    }
}

impl View for Callable {
    type V = CallableView;

    open spec fn view(&self) -> CallableView {
        match self {
            Callable::Clock => CallableView::Clock,
            Callable::Function { name, params, body, closure } => CallableView::Function {
                name: name@,
                params: token_views(params@),
                body: body@,
                closure: *closure,
            },
        }
    }
}

/// A copy of `indices`.
pub fn clone_indices(indices: &Vec<StmtIdx>) -> (r: Vec<StmtIdx>)
    ensures
        r@ == indices@,
{
    let mut r: Vec<StmtIdx> = Vec::new();
    let mut i: usize = 0;
    while i < indices.len()
        invariant
            i <= indices@.len(),
            r@ == indices@.take(i as int),
        decreases indices@.len() - i,
    {
        r.push(indices[i]);
        i += 1;
        assert(indices@.take(i as int) =~= indices@.take(i - 1).push(indices@[i - 1]));
    }
    assert(indices@.take(i as int) =~= indices@);
    r
}

/// Whether `a` and `b` hold the same statement indices in the same order.
fn same_indices(a: &Vec<StmtIdx>, b: &Vec<StmtIdx>) -> (r: bool)
    ensures
        r == (a@ == b@),
{
    if a.len() != b.len() {
        return false;
    }
    let mut i: usize = 0;
    while i < a.len()
        invariant
            i <= a@.len(),
            a@.len() == b@.len(),
            forall|j: int| 0 <= j < i ==> a@[j] == b@[j],
        decreases a@.len() - i,
    {
        if a[i] != b[i] {
            return false;
        }
        i += 1;
    }
    assert(a@ =~= b@);
    true
}

/// Whether `a` and `b` hold equal tokens in the same order.
fn same_tokens(a: &Vec<Token>, b: &Vec<Token>) -> (r: bool)
    ensures
        r == (token_views(a@) == token_views(b@)),
{
    if a.len() != b.len() {
        assert(token_views(a@).len() != token_views(b@).len());
        return false;
    }
    let mut i: usize = 0;
    while i < a.len()
        invariant
            i <= a@.len(),
            a@.len() == b@.len(),
            forall|j: int| 0 <= j < i ==> a@[j]@ == b@[j]@,
        decreases a@.len() - i,
    {
        if a[i] != b[i] {
            assert(token_views(a@)[i as int] != token_views(b@)[i as int]);
            return false;
        }
        i += 1;
    }
    assert(token_views(a@) =~= token_views(b@));
    true
}

impl Clone for Callable {
    fn clone(&self) -> (r: Callable)
        ensures
            r@ == self@,
    {
        match self {
            Callable::Clock => Callable::Clock,
            Callable::Function { name, params, body, closure } => Callable::Function {
                name: name.clone(),
                params: clone_tokens(params),
                body: clone_indices(body),
                closure: *closure,
            },
        }
    }
}

impl Callable {
    /// The number of arguments that a call must supply.
    pub fn arity(&self) -> (n: usize)
        ensures
            n == self@.arity(),
    {
        match self {
            Callable::Clock => 0,
            Callable::Function { params, .. } => params.len(),
        }
    }

    /// How the callable is printed: `<native fn>` for the clock, `<fn NAME>`
    /// for a function of the program.
    pub fn text(&self) -> (s: String)
        ensures
            s@ == self@.text(),
    {
        match self {
            Callable::Clock => "<native fn>".to_owned(),
            Callable::Function { name, .. } => {
                let mut s = "<fn ".to_owned();
                s.append(name.as_str());
                s.append(">");
                s
            },
        }
    }

    /// Whether two callables are the same: both the clock, or functions
    /// equal in every part.
    pub fn equals(&self, other: &Callable) -> (r: bool)
        ensures
            r == (self@ == other@),
    {
        match (self, other) {
            (Callable::Clock, Callable::Clock) => true,
            (
                Callable::Function { name, params, body, closure },
                Callable::Function { name: name2, params: params2, body: body2, closure: closure2 },
            ) => {
                *name == *name2 && same_tokens(params, params2) && same_indices(body, body2)
                    && *closure == *closure2
            },
            _ => false,
        }
    }
}

/// A runtime value. A number is an IEEE-754 double, held by its bits.
#[derive(Debug)]
pub enum Val {
    Number(u64),
    String(String),
    Bool(bool),
    Nil,
    Callable(Callable),
}

pub enum ValView {
    Number(u64),
    String(Seq<char>),
    Bool(bool),
    Nil,
    Callable(CallableView),
}

impl ValView {
    /// Only `false` and `nil` are falsey.
    pub open spec fn is_truthy(self) -> bool {
        !(self == ValView::Nil || self == ValView::Bool(false))
    }

    /// What `==` of the language answers: values of different variants are
    /// never equal; numbers compare as doubles, strings by content.
    pub open spec fn equals(self, other: ValView) -> bool {
        match (self, other) {
            (ValView::Number(a), ValView::Number(b)) => number::equal(a, b),
            (ValView::String(a), ValView::String(b)) => a == b,
            (ValView::Bool(a), ValView::Bool(b)) => a == b,
            (ValView::Nil, ValView::Nil) => true,
            (ValView::Callable(a), ValView::Callable(b)) => a == b,
            _ => false,
        }
    }

    /// How the value is printed, where that is the library's to say: a
    /// number's decimal form is the embedder's.
    pub open spec fn text(self) -> Option<Seq<char>> {
        match self {
            ValView::Number(_) => None,
            ValView::String(s) => Some(s),
            ValView::Bool(b) => Some(
                if b {
                    "true"@
                } else {
                    "false"@
                },
            ),
            ValView::Nil => Some("nil"@),
            ValView::Callable(c) => Some(c.text()),
        }
    }
}

impl View for Val {
    type V = ValView;

    open spec fn view(&self) -> ValView {
        match self {
            Val::Number(n) => ValView::Number(*n),
            Val::String(s) => ValView::String(s@),
            Val::Bool(b) => ValView::Bool(*b),
            Val::Nil => ValView::Nil,
            Val::Callable(c) => ValView::Callable(c@),
        }
    }
}

impl Clone for Val {
    fn clone(&self) -> (r: Val)
        ensures
            r@ == self@,
    {
        match self {
            Val::Number(n) => Val::Number(*n),
            Val::String(s) => Val::String(s.clone()),
            Val::Bool(b) => Val::Bool(*b),
            Val::Nil => Val::Nil,
            Val::Callable(c) => Val::Callable(c.clone()),
        }
    }
}

impl Val {
    /// Only `false` and `nil` are falsey.
    pub fn is_truthy(&self) -> (r: bool)
        ensures
            r == self@.is_truthy(),
    {
        match self {
            Val::Nil => false,
            Val::Bool(b) => *b,
            _ => true,
        }
    }

    /// What `==` of the language answers.
    pub fn equals(&self, other: &Val) -> (r: bool)
        ensures
            r == self@.equals(other@),
    {
        match (self, other) {
            (Val::Number(a), Val::Number(b)) => number::number_equal(*a, *b),
            (Val::String(a), Val::String(b)) => *a == *b,
            (Val::Bool(a), Val::Bool(b)) => *a == *b,
            (Val::Nil, Val::Nil) => true,
            (Val::Callable(a), Val::Callable(b)) => a.equals(b),
            _ => false,
        }
    }

    /// How the value is printed; `None` for a number, whose decimal form is
    /// the embedder's to give.
    pub fn text(&self) -> (s: Option<String>)
        ensures
            match s {
                Some(s) => self@.text() == Some(s@),
                None => self@.text() is None,
            },
    {
        match self {
            Val::Number(_) => None,
            Val::String(s) => Some(s.clone()),
            Val::Bool(b) => Some(
                if *b {
                    "true".to_owned()
                } else {
                    "false".to_owned()
                },
            ),
            Val::Nil => Some("nil".to_owned()),
            Val::Callable(c) => Some(c.text()),
        }
    }
}

/// Equality of values is symmetric; it is reflexive on every value but a
/// NaN; and it is false across distinct variants.
pub proof fn equality_laws(a: ValView, b: ValView)
    ensures
        a.equals(b) == b.equals(a),
        a.equals(a) == !(a matches ValView::Number(n) && number::is_nan(n)),
        a.equals(b) ==> (a is Number <==> b is Number) && (a is String <==> b is String) && (a is Bool
            <==> b is Bool) && (a is Nil <==> b is Nil) && (a is Callable <==> b is Callable),
{
}

/// Only `false` and `nil` are falsey: numbers (zero too), strings (the
/// empty one too) and callables are truthy.
pub proof fn truthiness_laws(v: ValView)
    ensures
        v is Number || v is String || v is Callable ==> v.is_truthy(),
        !ValView::Nil.is_truthy(),
        !ValView::Bool(false).is_truthy(),
        ValView::Bool(true).is_truthy(),
        !v.is_truthy() <==> v == ValView::Nil || v == ValView::Bool(false),
{
}

} // verus!
