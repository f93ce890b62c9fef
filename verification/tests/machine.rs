use unlox::bytecode::{dissassemble, Chunk, OpCode};
use unlox::text::{align_left, align_right};
use unlox::vm::{Error, Step, Vm};

fn arithmetic(op: OpCode, left: u64, right: u64) -> u64 {
    let (l, r) = (f64::from_bits(left), f64::from_bits(right));
    (match op {
        OpCode::Add => l + r,
        OpCode::Subtract => l - r,
        OpCode::Multiply => l * r,
        OpCode::Divide => l / r,
        other => panic!("no arithmetic: {:?}", other),
    })
    .to_bits()
}

fn run(chunk: &Chunk) -> Result<f64, Error> {
    let mut vm = Vm::new();
    let mut reply = None;
    loop {
        match vm.step(chunk, reply.take()) {
            Step::Continue => {}
            Step::Arithmetic { op, left, right } => reply = Some(arithmetic(op, left, right)),
            Step::Return(bits) => return Ok(f64::from_bits(bits)),
            Step::Fail(error) => return Err(error),
        }
    }
}

fn constant(chunk: &mut Chunk, value: f64, line: usize) {
    let index = chunk.add_constant(value.to_bits()).unwrap();
    chunk.write(OpCode::Constant.byte(), line);
    chunk.write(index, line);
}

fn texts(chunk: &Chunk) -> Vec<String> {
    chunk.constants.iter().map(|b| format!("{}", f64::from_bits(*b))).collect()
}

#[test]
fn test() {
    let mut chunk = Chunk::new();
    let constant = chunk.add_constant(1.2f64.to_bits()).unwrap();
    chunk.write(OpCode::Constant.byte(), 123);
    chunk.write(constant, 123);
    chunk.write(OpCode::Return.byte(), 123);

    let out = dissassemble(&chunk, "test chunk", &texts(&chunk));
    let expected = "\
            == test chunk ==\n\
            0000  123 OP_CONSTANT         0 '1.2'\n\
            0002    | OP_RETURN\n\
        ";
    println!("{out}");
    println!("{expected}");
    assert_eq!(out, expected);
}

#[test]
fn a_listing_names_every_operation() {
    let mut chunk = Chunk::new();
    constant(&mut chunk, 1.5, 1);
    constant(&mut chunk, -2.0, 1);
    chunk.write(OpCode::Add.byte(), 2);
    chunk.write(OpCode::Subtract.byte(), 2);
    chunk.write(OpCode::Multiply.byte(), 12345);
    chunk.write(OpCode::Divide.byte(), 12345);
    chunk.write(OpCode::Negate.byte(), 7);
    chunk.write(200, 7);
    chunk.write(OpCode::Return.byte(), 8);
    chunk.write(OpCode::Constant.byte(), 8);
    chunk.write(9, 9);
    chunk.write(OpCode::Constant.byte(), 9);
    assert_eq!(
        dissassemble(&chunk, "all", &texts(&chunk)),
        "== all ==\n\
         0000    1 OP_CONSTANT         0 '1.5'\n\
         0002    | OP_CONSTANT         1 '-2'\n\
         0004    2 OP_ADD\n\
         0005    | OP_SUBTRACT\n\
         0006 12345 OP_MULTIPLY\n\
         0007    | OP_DIVIDE\n\
         0008    7 OP_NEGATE\n\
         0009    | OP_UNKNOWN\n\
         0010    8 OP_RETURN\n\
         0011    | OP_CONSTANT         9 '?'\n\
         0013    | OP_CONSTANT\n"
    );
    assert_eq!(dissassemble(&Chunk::new(), "", &Vec::new()), "==  ==\n");
}

#[test]
fn the_machine_computes() {
    let mut chunk = Chunk::new();
    constant(&mut chunk, 1.2, 123);
    constant(&mut chunk, 3.4, 123);
    chunk.write(OpCode::Add.byte(), 123);
    constant(&mut chunk, 5.6, 123);
    chunk.write(OpCode::Divide.byte(), 123);
    chunk.write(OpCode::Negate.byte(), 123);
    chunk.write(OpCode::Return.byte(), 123);
    assert_eq!(run(&chunk), Ok(-((1.2 + 3.4) / 5.6)));

    let mut chunk = Chunk::new();
    constant(&mut chunk, 7.0, 1);
    constant(&mut chunk, 2.0, 1);
    chunk.write(OpCode::Subtract.byte(), 1);
    constant(&mut chunk, 3.0, 1);
    chunk.write(OpCode::Multiply.byte(), 1);
    chunk.write(OpCode::Return.byte(), 1);
    assert_eq!(run(&chunk), Ok(15.0));
}

#[test]
fn the_machine_fails_on_a_malformed_chunk() {
    assert_eq!(run(&Chunk::new()), Err(Error::Compile));
    let mut chunk = Chunk::new();
    chunk.write(77, 1);
    assert_eq!(run(&chunk), Err(Error::Compile));
    let mut chunk = Chunk::new();
    chunk.write(OpCode::Constant.byte(), 1);
    assert_eq!(run(&chunk), Err(Error::Compile));
    let mut chunk = Chunk::new();
    chunk.write(OpCode::Constant.byte(), 1);
    chunk.write(0, 1);
    assert_eq!(run(&chunk), Err(Error::Compile));
    let mut chunk = Chunk::new();
    constant(&mut chunk, 1.0, 1);
    assert_eq!(run(&chunk), Err(Error::Compile));
}

#[test]
fn the_machine_fails_when_the_stack_runs_under_or_over() {
    for op in [OpCode::Return, OpCode::Negate, OpCode::Add] {
        let mut chunk = Chunk::new();
        chunk.write(op.byte(), 1);
        assert_eq!(run(&chunk), Err(Error::Runtime));
    }
    let mut chunk = Chunk::new();
    constant(&mut chunk, 1.0, 1);
    chunk.write(OpCode::Multiply.byte(), 1);
    assert_eq!(run(&chunk), Err(Error::Runtime));
    let mut chunk = Chunk::new();
    let index = chunk.add_constant(1.0f64.to_bits()).unwrap();
    for _ in 0..257 {
        chunk.write(OpCode::Constant.byte(), 1);
        chunk.write(index, 1);
    }
    chunk.write(OpCode::Return.byte(), 1);
    assert_eq!(run(&chunk), Err(Error::Runtime));
    let mut chunk = Chunk::new();
    let index = chunk.add_constant(4.0f64.to_bits()).unwrap();
    for _ in 0..256 {
        chunk.write(OpCode::Constant.byte(), 1);
        chunk.write(index, 1);
    }
    chunk.write(OpCode::Return.byte(), 1);
    assert_eq!(run(&chunk), Ok(4.0));
}

#[test]
fn arithmetic_waits_for_its_result() {
    let mut chunk = Chunk::new();
    constant(&mut chunk, 1.0, 1);
    constant(&mut chunk, 2.0, 1);
    chunk.write(OpCode::Add.byte(), 1);
    chunk.write(OpCode::Return.byte(), 1);
    let mut vm = Vm::default();
    assert_eq!(vm.step(&chunk, None), Step::Continue);
    assert_eq!(vm.step(&chunk, Some(0)), Step::Continue);
    let asked = Step::Arithmetic { op: OpCode::Add, left: 1.0f64.to_bits(), right: 2.0f64.to_bits() };
    assert_eq!(vm.step(&chunk, None), asked);
    assert_eq!(vm.step(&chunk, None), asked);
    assert_eq!(vm.step(&chunk, Some(3.0f64.to_bits())), Step::Continue);
    assert_eq!(vm.step(&chunk, None), Step::Return(3.0f64.to_bits()));
    assert_eq!(vm.step(&chunk, None), Step::Fail(Error::Compile));
}

#[test]
fn fields() {
    assert_eq!(align_right("7", 4, '0'), "0007");
    assert_eq!(align_right("12345", 4, '0'), "12345");
    assert_eq!(align_right("", 2, ' '), "  ");
    assert_eq!(align_right("é", 3, '.'), "..é");
    assert_eq!(align_left("ab", 4, ' '), "ab  ");
    assert_eq!(align_left("abcd", 4, ' '), "abcd");
    assert_eq!(align_left("abcde", 4, ' '), "abcde");
}
