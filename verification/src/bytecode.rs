//! Bytecode: the operations of the stack machine and the chunks that hold
//! them.

use crate::text::{align_left, align_right, decimal, decimal_text, left_aligned, right_aligned};
use vstd::prelude::*;
use vstd::string::StringExecFns;

verus! {

/// An operation of the stack machine.
#[derive(Debug, Clone, Copy, PartialEq, Eq, Structural)]
pub enum OpCode {
    Constant,
    Add,
    Subtract,
    Multiply,
    Divide,
    Negate,
    Return,
}

impl OpCode {
    /// The byte that stands for the operation.
    pub open spec fn code(self) -> u8 {
        match self {
            OpCode::Constant => 0u8,
            OpCode::Add => 1u8,
            OpCode::Subtract => 2u8,
            OpCode::Multiply => 3u8,
            OpCode::Divide => 4u8,
            OpCode::Negate => 5u8,
            OpCode::Return => 6u8,
        }
    }

    /// The operation that `raw` stands for, if it stands for one.
    pub fn parse(raw: u8) -> (op: Option<OpCode>)
        ensures
            raw <= 6 <==> op is Some,
            op matches Some(o) ==> o.code() == raw,
    {
        if raw == 0 {
            Some(OpCode::Constant)
        } else if raw == 1 {
            Some(OpCode::Add)
        } else if raw == 2 {
            Some(OpCode::Subtract)
        } else if raw == 3 {
            Some(OpCode::Multiply)
        } else if raw == 4 {
            Some(OpCode::Divide)
        } else if raw == 5 {
            Some(OpCode::Negate)
        } else if raw == 6 {
            Some(OpCode::Return)
        } else {
            None
        }
    }

    /// The byte that stands for the operation.
    pub fn byte(self) -> (raw: u8)
        ensures
            raw == self.code(),
            OpCode::parse_spec(raw) == Some(self),
    {
        match self {
            OpCode::Constant => 0,
            OpCode::Add => 1,
            OpCode::Subtract => 2,
            OpCode::Multiply => 3,
            OpCode::Divide => 4,
            OpCode::Negate => 5,
            OpCode::Return => 6,
        }
    }

    /// The operation that `raw` stands for.
    pub open spec fn parse_spec(raw: u8) -> Option<OpCode> {
        if raw == 0 {
            Some(OpCode::Constant)
        } else if raw == 1 {
            Some(OpCode::Add)
        } else if raw == 2 {
            Some(OpCode::Subtract)
        } else if raw == 3 {
            Some(OpCode::Multiply)
        } else if raw == 4 {
            Some(OpCode::Divide)
        } else if raw == 5 {
            Some(OpCode::Negate)
        } else if raw == 6 {
            Some(OpCode::Return)
        } else {
            None
        }
    }
}

/// A chunk of bytecode: the code, the line of each byte of it, and the
/// constants that the code names by index. A constant is a double, held
/// by its bits.
pub struct Chunk {
    pub code: Vec<u8>,
    pub constants: Vec<u64>,
    pub lines: Vec<usize>,
}

impl Chunk {
    /// Whether every byte of the code has its line.
    pub open spec fn wf(&self) -> bool {
        self.code@.len() == self.lines@.len()
    }

    /// An empty chunk.
    pub fn new() -> (chunk: Chunk)
        ensures
            chunk.wf(),
            chunk.code@.len() == 0,
            chunk.constants@.len() == 0,
    {
        Chunk { code: Vec::new(), constants: Vec::new(), lines: Vec::new() }
    }

    /// Appends a byte of code that stems from `line`.
    pub fn write(&mut self, byte: u8, line: usize)
        requires
            old(self).wf(),
        ensures
            final(self).wf(),
            final(self).code@ == old(self).code@.push(byte),
            final(self).lines@ == old(self).lines@.push(line),
            final(self).constants@ == old(self).constants@,
    {
        self.code.push(byte);
        self.lines.push(line);
    }

    /// Appends a constant and returns its index, if a byte can hold it. A
    /// chunk holds at most 256 constants; one more is not stored.
    pub fn add_constant(&mut self, v: u64) -> (idx: Option<u8>)
        ensures
            final(self).code@ == old(self).code@,
            final(self).lines@ == old(self).lines@,
            match idx {
                Some(i) => i == old(self).constants@.len() && final(self).constants@ == old(
                    self,
                ).constants@.push(v),
                None => old(self).constants@.len() > 255 && final(self).constants@ == old(
                    self,
                ).constants@,
            },
    {
        let idx = self.constants.len();
        if idx > 255 {
            return None;
        }
        self.constants.push(v);
        Some(idx as u8)
    }
}

impl Default for Chunk {
    fn default() -> (chunk: Chunk)
        ensures
            chunk.wf(),
            chunk.code@.len() == 0,
            chunk.constants@.len() == 0,
    {
        Chunk::new()
    }
}

/// The texts of `strings`.
pub open spec fn texts(strings: Seq<String>) -> Seq<Seq<char>> {
    strings.map_values(|s: String| s@)
}

/// The name of an operation in a listing.
pub open spec fn mnemonic(op: OpCode) -> Seq<char> {
    match op {
        OpCode::Constant => "OP_CONSTANT"@,
        OpCode::Add => "OP_ADD"@,
        OpCode::Subtract => "OP_SUBTRACT"@,
        OpCode::Multiply => "OP_MULTIPLY"@,
        OpCode::Divide => "OP_DIVIDE"@,
        OpCode::Negate => "OP_NEGATE"@,
        OpCode::Return => "OP_RETURN"@,
    }
}

/// Whether the operation at `offset` has an operand behind it.
pub open spec fn has_operand(code: Seq<u8>, offset: int) -> bool {
    OpCode::parse_spec(code[offset]) == Some(OpCode::Constant) && offset + 1 < code.len()
}

/// The operation at `offset` as a listing shows it: its name, and for a
/// constant its index and, in quotes, its value.
pub open spec fn operation_text(code: Seq<u8>, constants: Seq<Seq<char>>, offset: int) -> Seq<
    char,
> {
    match OpCode::parse_spec(code[offset]) {
        Some(op) => if has_operand(code, offset) {
            let index = code[offset + 1];
            left_aligned(mnemonic(op), 16, ' ') + " "@ + right_aligned(
                decimal(index as nat),
                4,
                ' ',
            ) + " '"@ + (if index < constants.len() {
                constants[index as int]
            } else {
                "?"@
            }) + "'"@
        } else {
            mnemonic(op)
        },
        None => "OP_UNKNOWN"@,
    }
}

/// The line of a listing for the operation at `offset`: the offset in
/// four digits, the line that the operation stems from, or a bar where it
/// is the line of the byte before, and the operation.
pub open spec fn listed(
    code: Seq<u8>,
    lines: Seq<usize>,
    constants: Seq<Seq<char>>,
    offset: int,
) -> Seq<char> {
    right_aligned(decimal(offset as nat), 4, '0') + " "@ + (if offset > 0 && lines[offset]
        == lines[offset - 1] {
        "   | "@
    } else {
        right_aligned(decimal(lines[offset] as nat), 4, ' ') + " "@
    }) + operation_text(code, constants, offset) + seq!['\n']
}

/// The lines of a listing from `offset` on.
pub open spec fn listed_from(
    code: Seq<u8>,
    lines: Seq<usize>,
    constants: Seq<Seq<char>>,
    offset: int,
) -> Seq<char>
    decreases code.len() - offset,
{
    if offset < 0 || offset >= code.len() {
        Seq::empty()
    } else {
        listed(code, lines, constants, offset) + listed_from(
            code,
            lines,
            constants,
            if has_operand(code, offset) {
                offset + 2
            } else {
                offset + 1
            },
        )
    }
}

/// The listing of a chunk: a heading with the chunk's name, and a line
/// for each operation.
pub open spec fn listing(
    name: Seq<char>,
    code: Seq<u8>,
    lines: Seq<usize>,
    constants: Seq<Seq<char>>,
) -> Seq<char> {
    "== "@ + name + " =="@ + seq!['\n'] + listed_from(code, lines, constants, 0)
}

fn mnemonic_of(op: OpCode) -> (name: &'static str)
    ensures
        name@ == mnemonic(op),
{
    match op {
        OpCode::Constant => "OP_CONSTANT",
        OpCode::Add => "OP_ADD",
        OpCode::Subtract => "OP_SUBTRACT",
        OpCode::Multiply => "OP_MULTIPLY",
        OpCode::Divide => "OP_DIVIDE",
        OpCode::Negate => "OP_NEGATE",
        OpCode::Return => "OP_RETURN",
    }
}

fn operation<'a>(chunk: &Chunk, constants: &Vec<String>, offset: usize) -> (s: String)
    requires
        offset < chunk.code@.len(),
    ensures
        s@ == operation_text(chunk.code@, texts(constants@), offset as int),
{
    match OpCode::parse(chunk.code[offset]) {
        Some(op) => {
            let name = mnemonic_of(op);
            assert(OpCode::parse_spec(chunk.code@[offset as int]) == Some(op));
            if op == OpCode::Constant && offset < chunk.code.len() - 1 {
                let index = chunk.code[offset + 1];
                let mut s = align_left(name, 16, ' ');
                s.append(" ");
                s.append(align_right(decimal_text(index as usize).as_str(), 4, ' ').as_str());
                s.append(" '");
                if (index as usize) < constants.len() {
                    s.append(constants[index as usize].as_str());
                } else {
                    s.append("?");
                }
                s.append("'");
                s
            } else {
                name.to_owned()
            }
        },
        None => "OP_UNKNOWN".to_owned(),
    }
}

/// Lists the chunk. `constants` holds the decimal form of each constant
/// of the chunk, which is the embedder's to give; a constant without one
/// is shown as `?`.
pub fn dissassemble(chunk: &Chunk, name: &str, constants: &Vec<String>) -> (out: String)
    requires
        chunk.wf(),
    ensures
        out@ == listing(name@, chunk.code@, chunk.lines@, texts(constants@)),
{
    let mut out = "== ".to_owned();
    out.append(name);
    out.append(" ==");
    crate::text::push_char(&mut out, '\n');
    let mut offset: usize = 0;
    while offset < chunk.code.len()
        invariant
            chunk.wf(),
            offset <= chunk.code@.len(),
            out@ + listed_from(chunk.code@, chunk.lines@, texts(constants@), offset as int)
                == listing(name@, chunk.code@, chunk.lines@, texts(constants@)),
        decreases chunk.code@.len() - offset,
    {
        let ghost before = out@;
        let ghost rest = listed_from(chunk.code@, chunk.lines@, texts(constants@), offset as int);
        out.append(align_right(decimal_text(offset).as_str(), 4, '0').as_str());
        out.append(" ");
        if offset > 0 && chunk.lines[offset] == chunk.lines[offset - 1] {
            out.append("   | ");
        } else {
            out.append(align_right(decimal_text(chunk.lines[offset]).as_str(), 4, ' ').as_str());
            out.append(" ");
        }
        out.append(operation(chunk, constants, offset).as_str());
        crate::text::push_char(&mut out, '\n');
        let step: usize = match OpCode::parse(chunk.code[offset]) {
            Some(OpCode::Constant) => if offset < chunk.code.len() - 1 {
                2
            } else {
                1
            },
            _ => 1,
        };
        proof {
            let line = listed(chunk.code@, chunk.lines@, texts(constants@), offset as int);
            assert(out@ =~= before + line);
            let next = listed_from(
                chunk.code@,
                chunk.lines@,
                texts(constants@),
                offset as int + step as int,
            );
            assert(rest == line + next);
            assert(before + line + next =~= before + (line + next));
        }
        offset = offset + step;
    }
    assert(out@ + Seq::<char>::empty() =~= out@);
    out
}

} // verus!
