//! The bytecode machine: a stack of doubles and a position in a chunk. It
//! runs a chunk one operation at a time; sums, differences, products and
//! quotients of doubles it asks of the embedder.

use crate::bytecode::{Chunk, OpCode};
use crate::number::{negated, number_negate};
use vstd::prelude::*;

verus! {

/// The greatest number of values on the machine's stack.
pub const STACK_SIZE: usize = 256;

/// What can go wrong in the machine.
#[derive(Debug, Clone, Copy, PartialEq, Eq, Structural)]
pub enum Error {
    /// The chunk is malformed: it ends without a return, or holds a byte
    /// that is no operation, or names a constant that it does not have.
    Compile,
    /// The stack ran over, or an operation found too few values on it.
    Runtime,
}

/// What a step of the machine comes to.
#[derive(Debug, Clone, Copy, PartialEq, Eq, Structural)]
pub enum Step {
    /// The operation is done.
    Continue,
    /// The operation is arithmetic on the two topmost values: supply the
    /// result with the next step.
    Arithmetic { op: OpCode, left: u64, right: u64 },
    /// The chunk has returned this value. The run is over.
    Return(u64),
    /// The run has failed.
    Fail(Error),
}

/// The mathematical value of a [`Vm`].
pub struct VmView {
    /// The values, the topmost one last.
    pub stack: Seq<u64>,
    /// The position of the next operation in the code.
    pub ip: nat,
}

impl VmView {
    pub open spec fn wf(self) -> bool {
        self.stack.len() <= STACK_SIZE
    }

    /// One step on the chunk of the given code and constants: the state
    /// that follows, and what the step comes to. `reply` is the number
    /// that the step before asked for, if it asked for one.
    pub open spec fn step(self, code: Seq<u8>, constants: Seq<u64>, reply: Option<u64>) -> (
        VmView,
        Step,
    ) {
        let n = self.stack.len() as int;
        if self.ip >= code.len() {
            (self, Step::Fail(Error::Compile))
        } else {
            match OpCode::parse_spec(code[self.ip as int]) {
                None => (self, Step::Fail(Error::Compile)),
                Some(OpCode::Constant) => if self.ip + 1 >= code.len() || code[self.ip as int + 1]
                    >= constants.len() {
                    (self, Step::Fail(Error::Compile))
                } else if n >= STACK_SIZE {
                    (self, Step::Fail(Error::Runtime))
                } else {
                    (
                        VmView {
                            stack: self.stack.push(constants[code[self.ip as int + 1] as int]),
                            ip: self.ip + 2,
                        },
                        Step::Continue,
                    )
                },
                Some(OpCode::Negate) => if n < 1 {
                    (self, Step::Fail(Error::Runtime))
                } else {
                    (
                        VmView {
                            stack: self.stack.drop_last().push(negated(self.stack.last())),
                            ip: self.ip + 1,
                        },
                        Step::Continue,
                    )
                },
                Some(OpCode::Return) => if n < 1 {
                    (self, Step::Fail(Error::Runtime))
                } else {
                    (
                        VmView { stack: self.stack.drop_last(), ip: self.ip + 1 },
                        Step::Return(self.stack.last()),
                    )
                },
                Some(op) => if n < 2 {
                    (self, Step::Fail(Error::Runtime))
                } else {
                    match reply {
                        Some(bits) => (
                            VmView {
                                stack: self.stack.drop_last().drop_last().push(bits),
                                ip: self.ip + 1,
                            },
                            Step::Continue,
                        ),
                        None => (
                            self,
                            Step::Arithmetic { op, left: self.stack[n - 2], right: self.stack[n - 1] },
                        ),
                    }
                },
            }
        }
    }
}

/// The bytecode machine.
pub struct Vm {
    stack: Vec<u64>,
    ip: usize,
}

impl View for Vm {
    type V = VmView;

    closed spec fn view(&self) -> VmView {
        VmView { stack: self.stack@, ip: self.ip as nat }
    }
}

impl Vm {
    pub open spec fn wf(&self) -> bool {
        self@.wf()
    }

    /// A machine at the beginning of a chunk, with an empty stack.
    pub fn new() -> (vm: Vm)
        ensures
            vm.wf(),
            vm@ == (VmView { stack: Seq::empty(), ip: 0 }),
    {
        Vm { stack: Vec::new(), ip: 0 }
    }

    /// Does the operation at the machine's position in `chunk`.
    pub fn step(&mut self, chunk: &Chunk, reply: Option<u64>) -> (step: Step)
        requires
            old(self).wf(),
        ensures
            final(self).wf(),
            (final(self)@, step) == old(self)@.step(chunk.code@, chunk.constants@, reply),
    {
        if self.ip >= chunk.code.len() {
            return Step::Fail(Error::Compile);
        }
        let n = self.stack.len();
        match OpCode::parse(chunk.code[self.ip]) {
            None => Step::Fail(Error::Compile),
            Some(OpCode::Constant) => {
                if self.ip + 1 >= chunk.code.len() {
                    return Step::Fail(Error::Compile);
                }
                let index = chunk.code[self.ip + 1] as usize;
                if index >= chunk.constants.len() {
                    Step::Fail(Error::Compile)
                } else if n >= STACK_SIZE {
                    Step::Fail(Error::Runtime)
                } else {
                    self.stack.push(chunk.constants[index]);
                    self.ip += 2;
                    Step::Continue
                }
            },
            Some(OpCode::Negate) => {
                match self.stack.pop() {
                    Some(v) => {
                        self.stack.push(number_negate(v));
                        self.ip += 1;
                        Step::Continue
                    },
                    None => Step::Fail(Error::Runtime),
                }
            },
            Some(OpCode::Return) => {
                match self.stack.pop() {
                    Some(v) => {
                        self.ip += 1;
                        Step::Return(v)
                    },
                    None => Step::Fail(Error::Runtime),
                }
            },
            Some(op) => {
                if n < 2 {
                    return Step::Fail(Error::Runtime);
                }
                match reply {
                    Some(bits) => {
                        self.stack.pop();
                        self.stack.pop();
                        self.stack.push(bits);
                        self.ip += 1;
                        Step::Continue
                    },
                    None => Step::Arithmetic {
                        op,
                        left: self.stack[n - 2],
                        right: self.stack[n - 1],
                    },
                }
            },
        }
    }
}

impl Default for Vm {
    fn default() -> (vm: Vm)
        ensures
            vm.wf(),
            vm@ == (VmView { stack: Seq::empty(), ip: 0 }),
    {
        Vm::new()
    }
}

/// Where the machine asks for arithmetic, the operation is one of
/// arithmetic, and the state is as it was: the same step, taken again with
/// the result, does the operation.
pub proof fn arithmetic_is_asked_once(v: VmView, code: Seq<u8>, constants: Seq<u64>, bits: u64)
    ensures
        v.step(code, constants, None).1 matches Step::Arithmetic { op, left, right } ==> {
            &&& op == OpCode::Add || op == OpCode::Subtract || op == OpCode::Multiply || op
                == OpCode::Divide
            &&& v.step(code, constants, None).0 == v
            &&& v.step(code, constants, Some(bits)).1 == Step::Continue
            &&& v.step(code, constants, Some(bits)).0.stack == v.stack.drop_last().drop_last().push(
                bits,
            )
        },
{
}

} // verus!
