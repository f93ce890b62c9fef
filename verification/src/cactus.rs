//! The cactus stack, also known as parent pointer tree: frames that each
//! name their parent, and the stack of the frames that are active. Frames
//! are stored once and stay: a frame that left the active stack can still
//! be the parent of another, or be entered again.

use crate::env::Env;
use crate::val::ValView;
use slab::Slab;
use vstd::prelude::*;

verus! {

#[verifier::external_type_specification]
#[verifier::external_body]
#[verifier::reject_recursive_types(T)]
pub struct ExSlab<T>(Slab<T>);

/// The index of a frame.
#[derive(Debug, Clone, Copy, PartialEq, Eq, Structural)]
pub struct Index(usize);

impl Index {
    /// The number that the index stands for.
    pub closed spec fn key(self) -> usize {
        self.0
    }

    pub fn as_usize(&self) -> (n: usize)
        ensures
            n == self.key(),
    {
        self.0
    }

    /// Two indices of one number are one index.
    pub proof fn key_is_one_to_one(self, other: Index)
        ensures
            self.key() == other.key() <==> self == other,
    {
    }
}

/// A frame as it is stored: its variables and its parent.
pub struct Node {
    data: Env,
    parent: Option<Index>,
}

/// The mathematical value of a frame.
pub struct FrameView {
    pub vars: Map<Seq<char>, ValView>,
    pub parent: Option<Index>,
    /// How many frames lie between this one and its root.
    pub depth: nat,
}

impl Node {
    /// The frame that the node stores, at the given depth.
    closed spec fn frame(self, depth: nat) -> FrameView {
        FrameView { vars: self.data@, parent: self.parent, depth }
    }
}

/// What a slab holds: its values by their keys.
pub uninterp spec fn slab_nodes(slab: Slab<Node>) -> Map<usize, Node>;

/// An empty slab.
///
/// Stands for `Slab::new`, of which it claims that the new slab holds
/// nothing.
#[verifier::external_body]
fn slab_new() -> (made: Slab<Node>)
    ensures
        slab_nodes(made).dom() == Set::<usize>::empty(),
{
    Slab::new()
}

/// Stores `node` and returns its key.
///
/// Stands for `Slab::insert`, of which it claims that the key was vacant,
/// that it now holds `node`, and that every other key holds what it held.
/// As with a vector's `push`, running out of memory is outside the claim.
#[verifier::external_body]
fn slab_insert(slab: &mut Slab<Node>, node: Node) -> (key: usize)
    ensures
        !slab_nodes(*old(slab)).contains_key(key),
        slab_nodes(*final(slab)) == slab_nodes(*old(slab)).insert(key, node),
{
    slab.insert(node)
}

/// The value under `key`, if there is one.
///
/// Stands for `Slab::get`, of which it claims that it returns the value
/// stored under the key, and `None` exactly when the key holds none.
#[verifier::external_body]
fn slab_get(slab: &Slab<Node>, key: usize) -> (node: Option<&Node>)
    ensures
        match node {
            Some(n) => slab_nodes(*slab).contains_key(key) && *n == slab_nodes(*slab)[key],
            None => !slab_nodes(*slab).contains_key(key),
        },
{
    slab.get(key)
}

/// The value under `key`, to be changed in place, if there is one.
///
/// Stands for `Slab::get_mut`, of which it claims that it lends the value
/// stored under the key, that what the borrower leaves there is what the
/// key holds afterwards, and that nothing else changes.
#[verifier::external_body]
fn slab_get_mut(slab: &mut Slab<Node>, key: usize) -> (node: Option<&mut Node>)
    ensures
        match node {
            Some(n) => {
                &&& slab_nodes(*old(slab)).contains_key(key)
                &&& *n == slab_nodes(*old(slab))[key]
                &&& slab_nodes(*final(slab)) == slab_nodes(*old(slab)).insert(key, *final(n))
            },
            None => {
                &&& !slab_nodes(*old(slab)).contains_key(key)
                &&& slab_nodes(*final(slab)) == slab_nodes(*old(slab))
            },
        },
{
    slab.get_mut(key)
}

/// The number of values stored.
///
/// Stands for `Slab::len`, of which it claims that it counts the keys that
/// hold a value.
#[verifier::external_body]
fn slab_len(slab: &Slab<Node>) -> (n: usize)
    ensures
        n == slab_nodes(*slab).dom().len(),
{
    slab.len()
}

/// Whether `key` holds a value.
///
/// Stands for `Slab::contains`.
#[verifier::external_body]
fn slab_contains(slab: &Slab<Node>, key: usize) -> (r: bool)
    ensures
        r == slab_nodes(*slab).contains_key(key),
{
    slab.contains(key)
}

/// The mathematical value of a [`Cactus`].
pub struct CactusView {
    /// The frames, by the number of their index.
    pub frames: Map<usize, FrameView>,
    /// The indices of the active frames, the current one last.
    pub stack: Seq<Index>,
}

impl CactusView {
    pub open spec fn contains(self, idx: Index) -> bool {
        self.frames.contains_key(idx.key())
    }

    pub open spec fn frame(self, idx: Index) -> FrameView {
        self.frames[idx.key()]
    }

    /// The current frame, if any is active.
    pub open spec fn current(self) -> Option<Index> {
        if self.stack.len() > 0 {
            Some(self.stack.last())
        } else {
            None
        }
    }

    /// Every active frame, and the parent of every frame, is a frame of
    /// the cactus; a parent lies nearer to its root than its child, so
    /// that the way from any frame to its root is finite.
    pub open spec fn wf(self) -> bool {
        &&& forall|i: int| 0 <= i < self.stack.len() ==> self.contains(#[trigger] self.stack[i])
        &&& forall|k: usize| #[trigger]
            self.frames.contains_key(k) ==> (self.frames[k].parent matches Some(p)
                ==> self.contains(p) && self.frame(p).depth < self.frames[k].depth)
    }

    /// The depth of a frame whose parent is `parent`.
    pub open spec fn depth_under(self, parent: Option<Index>) -> nat {
        match parent {
            Some(p) => self.frame(p).depth + 1,
            None => 0,
        }
    }

    /// The cactus after a frame of the given variables and parent was
    /// stored under `idx` and made the current one.
    pub open spec fn pushed(self, idx: Index, vars: Map<Seq<char>, ValView>, parent: Option<Index>)
        -> CactusView {
        CactusView {
            frames: self.frames.insert(
                idx.key(),
                FrameView { vars, parent, depth: self.depth_under(parent) },
            ),
            stack: self.stack.push(idx),
        }
    }

    /// The cactus with the variables of frame `idx` replaced.
    pub open spec fn with_vars(self, idx: Index, vars: Map<Seq<char>, ValView>) -> CactusView {
        CactusView {
            frames: self.frames.insert(idx.key(), FrameView { vars, ..self.frame(idx) }),
            ..self
        }
    }
}

/// Cactus stack of environments.
pub struct Cactus {
    nodes: Slab<Node>,
    stack: Vec<Index>,
    /// The depth of each frame.
    depths: Ghost<Map<usize, nat>>,
}

impl View for Cactus {
    type V = CactusView;

    closed spec fn view(&self) -> CactusView {
        CactusView {
            frames: Map::new(
                |k: usize| slab_nodes(self.nodes).contains_key(k),
                |k: usize| slab_nodes(self.nodes)[k].frame(self.depths@[k]),
            ),
            stack: self.stack@,
        }
    }
}

impl Cactus {
    pub open spec fn wf(&self) -> bool {
        self@.wf()
    }

    /// A cactus without frames.
    pub fn new() -> (cactus: Cactus)
        ensures
            cactus.wf(),
            cactus@.frames == Map::<usize, FrameView>::empty(),
            cactus@.stack.len() == 0,
    {
        let cactus = Cactus { nodes: slab_new(), stack: Vec::new(), depths: Ghost(Map::empty()) };
        assert(cactus@.frames =~= Map::<usize, FrameView>::empty());
        cactus
    }

    /// The number of frames.
    pub fn len(&self) -> (n: usize)
        ensures
            n == self@.frames.dom().len(),
    {
        let n = slab_len(&self.nodes);
        assert(self@.frames.dom() =~= slab_nodes(self.nodes).dom());
        n
    }

    /// Whether the cactus has no frame.
    pub fn is_empty(&self) -> (r: bool)
        ensures
            r == (self@.frames.dom().len() == 0),
    {
        self.len() == 0
    }

    /// Whether `idx` names a frame of this cactus.
    pub fn contains(&self, idx: Index) -> (r: bool)
        ensures
            r == self@.contains(idx),
    {
        slab_contains(&self.nodes, idx.0)
    }

    /// The number of active frames.
    pub fn active(&self) -> (n: usize)
        ensures
            n == self@.stack.len(),
    {
        self.stack.len()
    }

    /// Returns the index of the top node of the active stack frame.
    pub fn current(&self) -> (idx: Option<Index>)
        ensures
            idx == self@.current(),
    {
        if self.stack.len() > 0 {
            Some(self.stack[self.stack.len() - 1])
        } else {
            None
        }
    }

    /// Pushes node on top of the active stack frame: the new frame's parent
    /// is the frame that was current.
    pub fn push(&mut self, value: Env) -> (idx: Index)
        requires
            old(self).wf(),
        ensures
            final(self).wf(),
            !old(self)@.contains(idx),
            final(self)@ == old(self)@.pushed(idx, value@, old(self)@.current()),
    {
        let parent = self.current();
        self.store(value, parent)
    }

    /// Stores a frame whose parent is `parent` and makes it the current one.
    pub fn push_at(&mut self, parent: Index, value: Env) -> (idx: Index)
        requires
            old(self).wf(),
            old(self)@.contains(parent),
        ensures
            final(self).wf(),
            !old(self)@.contains(idx),
            final(self)@ == old(self)@.pushed(idx, value@, Some(parent)),
    {
        self.store(value, Some(parent))
    }

    fn store(&mut self, value: Env, parent: Option<Index>) -> (idx: Index)
        requires
            old(self).wf(),
            parent matches Some(p) ==> old(self)@.contains(p),
        ensures
            final(self).wf(),
            !old(self)@.contains(idx),
            final(self)@ == old(self)@.pushed(idx, value@, parent),
    {
        let ghost vars = value@;
        let ghost depth = self@.depth_under(parent);
        let idx = Index(slab_insert(&mut self.nodes, Node { data: value, parent }));
        self.stack.push(idx);
        self.depths = Ghost(self.depths@.insert(idx.0, depth));
        assert(self@.frames =~= old(self)@.frames.insert(
            idx.key(),
            FrameView { vars, parent, depth },
        ));
        assert forall|i: int| 0 <= i < self@.stack.len() implies self@.contains(
            #[trigger] self@.stack[i],
        ) by {
            if i < old(self)@.stack.len() {
                assert(old(self)@.contains(old(self)@.stack[i]));
            }
        }
        assert forall|k: usize| #[trigger] self@.frames.contains_key(k) implies (
        self@.frames[k].parent matches Some(p) ==> self@.contains(p) && self@.frame(p).depth
            < self@.frames[k].depth) by {
            if k != idx.key() {
                assert(old(self)@.frames.contains_key(k));
            }
        }
        idx
    }

    /// Pops node out of the active stack frame. The frame stays in the
    /// cactus; `None` when no frame is active.
    pub fn pop(&mut self) -> (idx: Option<Index>)
        requires
            old(self).wf(),
        ensures
            final(self).wf(),
            idx == old(self)@.current(),
            final(self)@.frames == old(self)@.frames,
            final(self)@.stack == if old(self)@.stack.len() > 0 {
                old(self)@.stack.drop_last()
            } else {
                old(self)@.stack
            },
    {
        self.stack.pop()
    }

    /// Returns index of the parent's node.
    pub fn parent(&self, idx: Index) -> (parent: Option<Index>)
        requires
            self@.contains(idx),
        ensures
            parent == self@.frame(idx).parent,
    {
        match slab_get(&self.nodes, idx.0) {
            Some(node) => node.parent,
            None => None,
        }
    }

    /// Returns a reference to node's data by given `idx`.
    pub fn node_data(&self, idx: Index) -> (data: Option<&Env>)
        ensures
            match data {
                Some(env) => self@.contains(idx) && env@ == self@.frame(idx).vars,
                None => !self@.contains(idx),
            },
    {
        match slab_get(&self.nodes, idx.0) {
            Some(node) => Some(&node.data),
            None => None,
        }
    }

    /// Returns a mutable reference to node's data by given `idx`.
    pub fn node_data_mut(&mut self, idx: Index) -> (data: Option<&mut Env>)
        requires
            old(self).wf(),
        ensures
            match data {
                Some(env) => {
                    &&& old(self)@.contains(idx)
                    &&& env@ == old(self)@.frame(idx).vars
                    &&& final(self)@.stack == old(self)@.stack
                    &&& final(self)@.frames =~= old(self)@.with_vars(idx, final(env)@).frames
                },
                None => !old(self)@.contains(idx) && final(self)@ == old(self)@,
            },
    {
        match slab_get_mut(&mut self.nodes, idx.0) {
            Some(node) => Some(&mut node.data),
            None => None,
        }
    }
}

} // verus!
