//! Environments: the variables of one scope, and the cactus of scopes
//! through which names are resolved.

use crate::cactus::{Cactus, CactusView, FrameView, Index};
use crate::val::{Val, ValView};
use vstd::prelude::*;

verus! {

/// The map that a list of bindings stands for: a later binding of a name
/// replaces an earlier one.
pub open spec fn bindings(vars: Seq<(String, Val)>) -> Map<Seq<char>, ValView>
    decreases vars.len(),
{
    if vars.len() == 0 {
        Map::empty()
    } else {
        bindings(vars.drop_last()).insert(vars.last().0@, vars.last().1@)
    }
}

/// A name that the list does not hold is not bound.
proof fn bindings_absent(vars: Seq<(String, Val)>, name: Seq<char>)
    requires
        forall|j: int| 0 <= j < vars.len() ==> (#[trigger] vars[j]).0@ != name,
    ensures
        !bindings(vars).contains_key(name),
    decreases vars.len(),
{
    if vars.len() > 0 {
        let front = vars.drop_last();
        assert forall|j: int| 0 <= j < front.len() implies (#[trigger] front[j]).0@ != name by {
            assert(front[j] == vars[j]);
        }
        bindings_absent(front, name);
        assert(vars[vars.len() - 1].0@ != name);
    }
}

/// A name that the list holds is bound to the value of its last occurrence.
proof fn bindings_present(vars: Seq<(String, Val)>, name: Seq<char>, i: int)
    requires
        0 <= i < vars.len(),
        vars[i].0@ == name,
        forall|j: int| i < j < vars.len() ==> (#[trigger] vars[j]).0@ != name,
    ensures
        bindings(vars).contains_key(name),
        bindings(vars)[name] == vars[i].1@,
    decreases vars.len(),
{
    if i < vars.len() - 1 {
        let front = vars.drop_last();
        assert(front[i] == vars[i]);
        assert forall|j: int| i < j < front.len() implies (#[trigger] front[j]).0@ != name by {
            assert(front[j] == vars[j]);
        }
        bindings_present(front, name, i);
        assert(vars[vars.len() - 1].0@ != name);
    }
}

/// Replacing the value at the last occurrence of a name rebinds the name.
proof fn bindings_update(vars: Seq<(String, Val)>, i: int, entry: (String, Val))
    requires
        0 <= i < vars.len(),
        vars[i].0@ == entry.0@,
        forall|j: int| i < j < vars.len() ==> (#[trigger] vars[j]).0@ != entry.0@,
    ensures
        bindings(vars.update(i, entry)) == bindings(vars).insert(entry.0@, entry.1@),
    decreases vars.len(),
{
    let after = vars.update(i, entry);
    if i == vars.len() - 1 {
        assert(after.drop_last() =~= vars.drop_last());
        assert(bindings(after) =~= bindings(vars).insert(entry.0@, entry.1@));
    } else {
        bindings_update(vars.drop_last(), i, entry);
        assert(after.drop_last() =~= vars.drop_last().update(i, entry));
        assert(after.last() == vars.last());
        assert(vars[vars.len() - 1].0@ != entry.0@);
        assert(bindings(after) =~= bindings(vars).insert(entry.0@, entry.1@));
    }
}

/// The variables of one scope.
#[derive(Debug)]
pub struct Env {
    vars: Vec<(String, Val)>,
}

impl View for Env {
    type V = Map<Seq<char>, ValView>;

    closed spec fn view(&self) -> Map<Seq<char>, ValView> {
        bindings(self.vars@)
    }
}

impl Default for Env {
    fn default() -> (env: Env)
        ensures
            env@ == Map::<Seq<char>, ValView>::empty(),
    {
        Env::new()
    }
}

impl Env {
    /// Creates a new empty environment.
    pub fn new() -> (env: Env)
        ensures
            env@ == Map::<Seq<char>, ValView>::empty(),
    {
        Env { vars: Vec::new() }
    }

    /// Where the binding of `name` stands, if there is one.
    fn position(&self, name: &str) -> (r: Option<usize>)
        ensures
            match r {
                Some(i) => {
                    &&& i < self.vars@.len()
                    &&& self.vars@[i as int].0@ == name@
                    &&& forall|j: int|
                        i < j < self.vars@.len() ==> (#[trigger] self.vars@[j]).0@ != name@
                },
                None => forall|j: int|
                    0 <= j < self.vars@.len() ==> (#[trigger] self.vars@[j]).0@ != name@,
            },
    {
        let wanted = name.to_owned();
        let mut i: usize = self.vars.len();
        while i > 0
            invariant
                i <= self.vars@.len(),
                wanted@ == name@,
                forall|j: int| i <= j < self.vars@.len() ==> (#[trigger] self.vars@[j]).0@ != name@,
            decreases i,
        {
            i -= 1;
            if self.vars[i].0 == wanted {
                return Some(i);
            }
        }
        None
    }

    /// Defines a variable. A variable of that name that the scope already
    /// has is replaced.
    pub fn define_var(&mut self, name: String, value: Val)
        ensures
            final(self)@ == old(self)@.insert(name@, value@),
    {
        match self.position(name.as_str()) {
            Some(i) => {
                proof {
                    bindings_update(self.vars@, i as int, (name, value));
                }
                self.vars.set(i, (name, value));
            },
            None => {
                self.vars.push((name, value));
                assert(self.vars@.drop_last() =~= old(self).vars@);
            },
        }
    }

    /// The value of the variable `name` of this scope, if it has one.
    pub fn var(&self, name: &str) -> (r: Option<&Val>)
        ensures
            match r {
                Some(v) => self@.contains_key(name@) && v@ == self@[name@],
                None => !self@.contains_key(name@),
            },
    {
        match self.position(name) {
            Some(i) => {
                proof {
                    bindings_present(self.vars@, name@, i as int);
                }
                Some(&self.vars[i].1)
            },
            None => {
                proof {
                    bindings_absent(self.vars@, name@);
                }
                None
            },
        }
    }

    /// The value of the variable `name` of this scope, to be changed in
    /// place, if the scope has that variable.
    pub fn var_mut(&mut self, name: &str) -> (r: Option<&mut Val>)
        ensures
            match r {
                Some(v) => {
                    &&& old(self)@.contains_key(name@)
                    &&& v@ == old(self)@[name@]
                    &&& final(self)@ == old(self)@.insert(name@, final(v)@)
                },
                None => !old(self)@.contains_key(name@) && final(self)@ == old(self)@,
            },
    {
        match self.position(name) {
            Some(i) => {
                proof {
                    bindings_present(self.vars@, name@, i as int);
                }
                let entry = &mut self.vars[i];
                let value = &mut entry.1;
                proof {
                    bindings_update(
                        old(self).vars@,
                        i as int,
                        (old(self).vars@[i as int].0, *final(value)),
                    );
                }
                Some(value)
            },
            None => {
                proof {
                    bindings_absent(self.vars@, name@);
                }
                None
            },
        }
    }

    /// Whether this scope has a variable `name`.
    pub fn has_var(&self, name: &str) -> (r: bool)
        ensures
            r == self@.contains_key(name@),
    {
        self.var(name).is_some()
    }
}

/// The index of an environment in the cactus of environments.
pub type EnvIndex = Index;

/// Replacing a frame's variables keeps the cactus well formed.
pub proof fn with_vars_keeps_wf(c: CactusView, idx: Index, vars: Map<Seq<char>, ValView>)
    requires
        c.wf(),
        c.contains(idx),
    ensures
        c.with_vars(idx, vars).wf(),
{
    let d = c.with_vars(idx, vars);
    assert forall|i: int| 0 <= i < d.stack.len() implies d.contains(#[trigger] d.stack[i]) by {
        assert(c.contains(c.stack[i]));
    }
    assert forall|k: usize| #[trigger] d.frames.contains_key(k) implies (
    d.frames[k].parent matches Some(p) ==> d.contains(p) && d.frame(p).depth
        < d.frames[k].depth) by {
        if k != idx.key() {
            assert(c.frames.contains_key(k));
        } else {
            assert(c.frames.contains_key(idx.key()));
        }
    }
}

/// The mathematical value of an [`EnvCactus`].
pub struct EnvCactusView {
    pub cactus: CactusView,
    /// The root frame.
    pub global: Index,
}

impl EnvCactusView {
    /// The cactus holds its root frame, which is the first of the active
    /// frames: the active stack is never empty.
    pub open spec fn wf(self) -> bool {
        &&& self.cactus.wf()
        &&& self.cactus.stack.len() > 0
        &&& self.cactus.stack[0] == self.global
    }

    /// The active frame.
    pub open spec fn current(self) -> Index {
        self.cactus.stack.last()
    }

    pub open spec fn contains(self, idx: Index) -> bool {
        self.cactus.contains(idx)
    }

    /// The variables of frame `idx`.
    pub open spec fn vars(self, idx: Index) -> Map<Seq<char>, ValView> {
        self.cactus.frame(idx).vars
    }

    /// The first frame on the way from `from` to the root that defines
    /// `name`.
    pub open spec fn defining(self, from: Index, name: Seq<char>) -> Option<Index>
        decreases self.cactus.frame(from).depth,
    {
        if !self.contains(from) {
            None
        } else if self.vars(from).contains_key(name) {
            Some(from)
        } else {
            match self.cactus.frame(from).parent {
                Some(p) => if self.cactus.frame(p).depth < self.cactus.frame(from).depth {
                    self.defining(p, name)
                } else {
                    None
                },
                None => None,
            }
        }
    }

    /// The value of the variable `name` as seen from the frame `from`.
    pub open spec fn lookup_from(self, from: Index, name: Seq<char>) -> Option<ValView> {
        match self.defining(from, name) {
            Some(idx) => Some(self.vars(idx)[name]),
            None => None,
        }
    }

    /// The value of the variable `name` as seen from the active frame.
    pub open spec fn lookup(self, name: Seq<char>) -> Option<ValView> {
        self.lookup_from(self.current(), name)
    }

    /// The environments after `name` was defined in frame `idx`.
    pub open spec fn defined_at(self, idx: Index, name: Seq<char>, value: ValView)
        -> EnvCactusView {
        EnvCactusView {
            cactus: self.cactus.with_vars(idx, self.vars(idx).insert(name, value)),
            ..self
        }
    }

    /// The environments after `name` was defined in the active frame.
    pub open spec fn defined(self, name: Seq<char>, value: ValView) -> EnvCactusView {
        self.defined_at(self.current(), name, value)
    }

    /// The environments after `value` was assigned to `name`: the frame
    /// that defines the name holds the new value; without such a frame
    /// nothing changes.
    pub open spec fn assigned(self, name: Seq<char>, value: ValView) -> EnvCactusView {
        match self.defining(self.current(), name) {
            Some(idx) => self.defined_at(idx, name, value),
            None => self,
        }
    }

    /// The environments after a frame was stored under `idx` and entered.
    pub open spec fn entered(self, idx: Index, vars: Map<Seq<char>, ValView>, parent: Index)
        -> EnvCactusView {
        EnvCactusView { cactus: self.cactus.pushed(idx, vars, Some(parent)), ..self }
    }

    /// The environments after the active frame was left. The root frame is
    /// never left.
    pub open spec fn left(self) -> EnvCactusView {
        if self.cactus.stack.len() > 1 {
            EnvCactusView {
                cactus: CactusView { stack: self.cactus.stack.drop_last(), ..self.cactus },
                ..self
            }
        } else {
            self
        }
    }
}

/// The frame that defines a name is a frame of the cactus and holds the name.
pub proof fn defining_is_sound(e: EnvCactusView, from: Index, name: Seq<char>)
    requires
        e.wf(),
    ensures
        e.defining(from, name) matches Some(idx) ==> e.contains(idx) && e.vars(idx).contains_key(
            name,
        ),
    decreases e.cactus.frame(from).depth,
{
    if e.contains(from) && !e.vars(from).contains_key(name) {
        match e.cactus.frame(from).parent {
            Some(p) => {
                if e.cactus.frame(p).depth < e.cactus.frame(from).depth {
                    defining_is_sound(e, p, name);
                }
            },
            None => {},
        }
    }
}

/// The cactus of environments: the global environment at its root.
pub struct EnvCactus {
    cactus: Cactus,
    global: EnvIndex,
}

impl View for EnvCactus {
    type V = EnvCactusView;

    closed spec fn view(&self) -> EnvCactusView {
        EnvCactusView { cactus: self.cactus@, global: self.global }
    }
}

impl EnvCactus {
    pub open spec fn wf(&self) -> bool {
        self@.wf()
    }

    /// Creates a new environment cactus stack with the `global` env used for its root.
    pub fn with_global(global: Env) -> (envs: EnvCactus)
        ensures
            envs.wf(),
            envs@.cactus.stack == seq![envs@.global],
            envs@.cactus.frames == Map::<usize, FrameView>::empty().insert(
                envs@.global.key(),
                FrameView { vars: global@, parent: None, depth: 0 },
            ),
    {
        let mut cactus = Cactus::new();
        let global = cactus.push(global);
        assert(cactus@.stack =~= seq![global]);
        EnvCactus { cactus, global }
    }

    /// The root frame. It is the same throughout.
    pub fn global(&self) -> (idx: EnvIndex)
        ensures
            idx == self@.global,
    {
        self.global
    }

    /// Pushes a new environment onto the current one.
    pub fn push(&mut self, env: Env) -> (idx: EnvIndex)
        requires
            old(self).wf(),
        ensures
            final(self).wf(),
            !old(self)@.contains(idx),
            final(self)@ == old(self)@.entered(idx, env@, old(self)@.current()),
    {
        self.cactus.push(env)
    }

    /// Stores a new environment whose parent is `parent`, and enters it.
    pub fn push_at(&mut self, parent: EnvIndex, env: Env) -> (idx: EnvIndex)
        requires
            old(self).wf(),
            old(self)@.contains(parent),
        ensures
            final(self).wf(),
            !old(self)@.contains(idx),
            final(self)@ == old(self)@.entered(idx, env@, parent),
    {
        self.cactus.push_at(parent, env)
    }

    /// Pops current environment.
    ///
    /// Returns `None` on an attempt to pop the global environment, which
    /// stays active.
    pub fn pop(&mut self) -> (idx: Option<EnvIndex>)
        requires
            old(self).wf(),
        ensures
            final(self).wf(),
            final(self)@ == old(self)@.left(),
            idx == if old(self)@.cactus.stack.len() > 1 {
                Some(old(self)@.current())
            } else {
                None
            },
    {
        if self.cactus.active() <= 1 {
            return None;
        }
        let idx = self.cactus.pop();
        assert(self@.cactus.stack[0] == old(self)@.cactus.stack[0]);
        idx
    }

    /// The active environment.
    pub fn current(&self) -> (idx: EnvIndex)
        requires
            self.wf(),
        ensures
            idx == self@.current(),
            self@.contains(idx),
    {
        match self.cactus.current() {
            Some(idx) => idx,
            None => self.global,
        }
    }

    /// The active environment, to be changed in place.
    pub fn current_env_mut(&mut self) -> (env: &mut Env)
        requires
            old(self).wf(),
        ensures
            env@ == old(self)@.vars(old(self)@.current()),
            final(self)@.global == old(self)@.global,
            final(self)@.cactus.stack == old(self)@.cactus.stack,
            final(self)@.cactus.frames =~= old(self)@.cactus.with_vars(
                old(self)@.current(),
                final(env)@,
            ).frames,
    {
        let idx = self.current();
        self.cactus.node_data_mut(idx).unwrap()
    }

    /// Returns a mutable reference to the value of a variable from the
    /// current environment.
    pub fn var_mut(&mut self, name: &str) -> (r: Option<&mut Val>)
        requires
            old(self).wf(),
        ensures
            match r {
                Some(v) => {
                    &&& old(self)@.lookup(name@) == Some(v@)
                    &&& final(self)@ == old(self)@.assigned(name@, final(v)@)
                },
                None => old(self)@.lookup(name@) is None && final(self)@ == old(self)@,
            },
    {
        proof {
            defining_is_sound(self@, self@.current(), name@);
        }
        match self.resolve(name) {
            Some(idx) => match self.cactus.node_data_mut(idx) {
                Some(env) => env.var_mut(name),
                None => None,
            },
            None => None,
        }
    }

    /// Defines a variable in the active environment.
    pub fn define_var(&mut self, name: String, value: Val)
        requires
            old(self).wf(),
        ensures
            final(self).wf(),
            final(self)@ == old(self)@.defined(name@, value@),
    {
        let idx = self.current();
        proof {
            with_vars_keeps_wf(self@.cactus, idx, self@.vars(idx).insert(name@, value@));
        }
        match self.cactus.node_data_mut(idx) {
            Some(env) => {
                env.define_var(name, value);
            },
            None => {},
        }
    }

    /// The first environment on the way from the active one to the root
    /// that defines `name`.
    fn resolve(&self, name: &str) -> (r: Option<EnvIndex>)
        requires
            self.wf(),
        ensures
            r == self@.defining(self@.current(), name@),
    {
        let mut idx = self.current();
        loop
            invariant
                self.wf(),
                self@.contains(idx),
                self@.defining(idx, name@) == self@.defining(self@.current(), name@),
            decreases self@.cactus.frame(idx).depth,
        {
            let defined = match self.cactus.node_data(idx) {
                Some(env) => env.has_var(name),
                None => false,
            };
            if defined {
                return Some(idx);
            }
            assert(self@.cactus.frames.contains_key(idx.key()));
            match self.cactus.parent(idx) {
                Some(parent) => {
                    idx = parent;
                },
                None => {
                    return None;
                },
            }
        }
    }

    /// Assigns value to variable: the nearest environment that defines
    /// `name` gets the new value. Returns whether there is one; if not,
    /// nothing changes.
    pub fn assign_var(&mut self, name: &str, value: Val) -> (assigned: bool)
        requires
            old(self).wf(),
        ensures
            final(self).wf(),
            assigned == old(self)@.lookup(name@).is_some(),
            final(self)@ == old(self)@.assigned(name@, value@),
    {
        proof {
            defining_is_sound(self@, self@.current(), name@);
        }
        match self.resolve(name) {
            Some(idx) => {
                proof {
                    with_vars_keeps_wf(self@.cactus, idx, self@.vars(idx).insert(name@, value@));
                }
                match self.cactus.node_data_mut(idx) {
                    Some(env) => {
                        env.define_var(name.to_owned(), value);
                    },
                    None => {},
                }
                true
            },
            None => false,
        }
    }

    /// Returns a reference to the value of a variable from the current environment.
    pub fn var(&self, name: &str) -> (r: Option<&Val>)
        requires
            self.wf(),
        ensures
            match r {
                Some(v) => self@.lookup(name@) == Some(v@),
                None => self@.lookup(name@) is None,
            },
    {
        proof {
            defining_is_sound(self@, self@.current(), name@);
        }
        match self.resolve(name) {
            Some(idx) => match self.cactus.node_data(idx) {
                Some(env) => env.var(name),
                None => None,
            },
            None => None,
        }
    }
}


/// Root frame permanence: leaving a frame never leaves the root frame. The
/// root stays the first of the active frames, no frame is removed, and
/// the root is the same afterwards.
pub proof fn root_frame_is_permanent(e: EnvCactusView)
    requires
        e.wf(),
    ensures
        e.left().wf(),
        e.left().global == e.global,
        e.left().cactus.stack[0] == e.global,
        e.left().cactus.frames == e.cactus.frames,
        e.cactus.stack.len() == 1 ==> e.left() == e,
{
    let l = e.left();
    if e.cactus.stack.len() > 1 {
        assert forall|i: int| 0 <= i < l.cactus.stack.len() implies l.cactus.contains(
            #[trigger] l.cactus.stack[i],
        ) by {
            assert(e.cactus.contains(e.cactus.stack[i]));
        }
    }
}

/// A variable that was just defined is what its name resolves to.
pub proof fn defined_then_lookup(e: EnvCactusView, name: Seq<char>, value: ValView)
    requires
        e.wf(),
    ensures
        e.defined(name, value).lookup(name) == Some(value),
{
    assert(e.contains(e.cactus.stack[e.cactus.stack.len() - 1]));
}

/// Where names are found does not change when a variable that was
/// defined already gets a new value.
pub proof fn redefined_keeps_defining(
    e: EnvCactusView,
    idx: Index,
    name: Seq<char>,
    value: ValView,
    from: Index,
    n: Seq<char>,
)
    requires
        e.wf(),
        e.contains(idx),
        e.vars(idx).contains_key(name),
    ensures
        e.defined_at(idx, name, value).defining(from, n) == e.defining(from, n),
    decreases e.cactus.frame(from).depth,
{
    let d = e.defined_at(idx, name, value);
    if e.contains(from) {
        idx.key_is_one_to_one(from);
        assert(e.cactus.frames.contains_key(from.key()));
        assert(d.vars(from).contains_key(n) == e.vars(from).contains_key(n)) by {
            if from == idx {
                if n != name {
                } else {
                }
            }
        }
        assert(d.cactus.frame(from).parent == e.cactus.frame(from).parent);
        assert(d.cactus.frame(from).depth == e.cactus.frame(from).depth);
        if !e.vars(from).contains_key(n) {
            match e.cactus.frame(from).parent {
                Some(p) => {
                    idx.key_is_one_to_one(p);
                    assert(d.cactus.frame(p).depth == e.cactus.frame(p).depth);
                    if e.cactus.frame(p).depth < e.cactus.frame(from).depth {
                        redefined_keeps_defining(e, idx, name, value, p, n);
                    }
                },
                None => {},
            }
        }
    }
}

/// A variable that was just assigned holds the value assigned.
pub proof fn assigned_then_lookup(e: EnvCactusView, name: Seq<char>, value: ValView)
    requires
        e.wf(),
        e.lookup(name) is Some,
    ensures
        e.assigned(name, value).lookup(name) == Some(value),
{
    defining_is_sound(e, e.current(), name);
    let idx = e.defining(e.current(), name)->Some_0;
    redefined_keeps_defining(e, idx, name, value, e.current(), name);
}


/// A frame that was just entered changes nothing of what is seen from a
/// frame that was there before.
pub proof fn entered_keeps_lookup(
    e: EnvCactusView,
    fresh: Index,
    vars: Map<Seq<char>, ValView>,
    parent: Index,
    from: Index,
    name: Seq<char>,
)
    requires
        e.wf(),
        !e.contains(fresh),
        e.contains(from),
    ensures
        e.entered(fresh, vars, parent).defining(from, name) == e.defining(from, name),
        e.entered(fresh, vars, parent).lookup_from(from, name) == e.lookup_from(from, name),
    decreases e.cactus.frame(from).depth,
{
    let d = e.entered(fresh, vars, parent);
    fresh.key_is_one_to_one(from);
    assert(e.cactus.frames.contains_key(from.key()));
    assert(d.cactus.frame(from) == e.cactus.frame(from));
    if !e.vars(from).contains_key(name) {
        match e.cactus.frame(from).parent {
            Some(p) => {
                fresh.key_is_one_to_one(p);
                assert(d.cactus.frame(p) == e.cactus.frame(p));
                entered_keeps_lookup(e, fresh, vars, parent, p, name);
            },
            None => {},
        }
    }
    defining_is_sound(e, from, name);
    match e.defining(from, name) {
        Some(idx) => {
            fresh.key_is_one_to_one(idx);
        },
        None => {},
    }
}

/// What is seen from a frame that was just entered: its own variables,
/// and behind them what is seen from its parent.
pub proof fn entered_lookup(
    e: EnvCactusView,
    fresh: Index,
    vars: Map<Seq<char>, ValView>,
    parent: Index,
    name: Seq<char>,
)
    requires
        e.wf(),
        !e.contains(fresh),
        e.contains(parent),
    ensures
        e.entered(fresh, vars, parent).current() == fresh,
        e.entered(fresh, vars, parent).cactus.frame(fresh).parent == Some(parent),
        e.entered(fresh, vars, parent).lookup(name) == if vars.contains_key(name) {
            Some(vars[name])
        } else {
            e.lookup_from(parent, name)
        },
{
    let d = e.entered(fresh, vars, parent);
    entered_keeps_lookup(e, fresh, vars, parent, parent, name);
    assert(d.contains(fresh));
    assert(d.cactus.frame(fresh).depth == e.cactus.frame(parent).depth + 1);
    fresh.key_is_one_to_one(parent);
    assert(d.cactus.frame(parent).depth == e.cactus.frame(parent).depth);
}


} // verus!
