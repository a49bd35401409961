use clox::chunk::{Chunk, Opcode};
use clox::value::Value;
use clox::vm::{Arith, Effect, Fault, Vm};

fn machine(code: &[u8], constants: Vec<Value>) -> Vm {
    let mut chunk = Chunk::default();
    for constant in constants {
        chunk.add_constant(constant);
    }
    for (i, byte) in code.iter().enumerate() {
        chunk.write_byte(*byte, 10 + i as u32);
    }
    let mut vm = Vm::default();
    vm.load(chunk);
    vm
}

fn op(opcode: Opcode) -> u8 {
    opcode.as_u8()
}

#[test]
fn arithmetic_is_asked_of_the_caller() {
    let one = 1.0f64.to_bits();
    let two = 2.0f64.to_bits();
    let mut vm = machine(
        &[op(Opcode::Constant), 0, op(Opcode::Constant), 1, op(Opcode::Subtract), op(Opcode::Print), op(Opcode::Return)],
        vec![Value::Number(one), Value::Number(two)],
    );
    assert!(matches!(vm.step(), Effect::Continue));
    assert!(matches!(vm.step(), Effect::Continue));
    assert!(!vm.resume(0));
    assert!(matches!(vm.step(), Effect::Arithmetic(Arith::Subtract, a, b) if a == one && b == two));
    assert!(matches!(vm.step(), Effect::Arithmetic(Arith::Subtract, a, b) if a == one && b == two));
    assert!(vm.resume((-1.0f64).to_bits()));
    assert!(matches!(vm.step(), Effect::Print(Value::Number(n)) if n == (-1.0f64).to_bits()));
    assert!(matches!(vm.step(), Effect::Halt));
}

#[test]
fn jump_if_false_leaves_the_condition_on_the_stack() {
    let mut vm = machine(
        &[op(Opcode::False), op(Opcode::JumpIfFalse), 1, 0, op(Opcode::Nil), op(Opcode::Print), op(Opcode::Return)],
        vec![],
    );
    assert!(matches!(vm.step(), Effect::Continue));
    assert!(matches!(vm.step(), Effect::Continue));
    assert!(matches!(vm.step(), Effect::Print(Value::Bool(false))));
    assert!(matches!(vm.step(), Effect::Halt));
}

#[test]
fn loop_jumps_backwards() {
    let mut vm = machine(&[op(Opcode::Nil), op(Opcode::Pop), op(Opcode::Loop), 5, 0], vec![]);
    for _ in 0..3 {
        assert!(matches!(vm.step(), Effect::Continue));
        assert!(matches!(vm.step(), Effect::Continue));
        assert!(matches!(vm.step(), Effect::Continue));
    }
}

#[test]
fn an_unknown_byte_is_reported() {
    let mut vm = machine(&[200], vec![]);
    assert!(matches!(vm.step(), Effect::UnknownInstruction(200)));
}

#[test]
fn malformed_chunks_are_faults() {
    let mut vm = machine(&[], vec![]);
    assert!(matches!(vm.step(), Effect::Fault(Fault::CodeOverrun)));
    let mut vm = machine(&[op(Opcode::Pop)], vec![]);
    assert!(matches!(vm.step(), Effect::Fault(Fault::StackUnderflow)));
    let mut vm = machine(&[op(Opcode::Constant)], vec![]);
    assert!(matches!(vm.step(), Effect::Fault(Fault::CodeOverrun)));
    let mut vm = machine(&[op(Opcode::Constant), 0], vec![]);
    assert!(matches!(vm.step(), Effect::Fault(Fault::BadConstant)));
    let mut vm = machine(&[op(Opcode::GetLocal), 0], vec![]);
    assert!(matches!(vm.step(), Effect::Fault(Fault::BadSlot)));
    let mut vm = machine(&[op(Opcode::GetGlobal), 0], vec![Value::Nil]);
    assert!(matches!(vm.step(), Effect::Fault(Fault::BadConstant)));
    let mut vm = machine(&[op(Opcode::Jump), 1, 0], vec![]);
    assert!(matches!(vm.step(), Effect::Fault(Fault::CodeOverrun)));
    let mut vm = machine(&[op(Opcode::Loop), 4, 0], vec![]);
    assert!(matches!(vm.step(), Effect::Fault(Fault::CodeOverrun)));
}

#[test]
fn the_stack_holds_256_values() {
    let mut code = vec![op(Opcode::Nil); 257];
    code.push(op(Opcode::Return));
    let mut vm = machine(&code, vec![]);
    for _ in 0..256 {
        assert!(matches!(vm.step(), Effect::Continue));
    }
    assert!(matches!(vm.step(), Effect::Fault(Fault::StackOverflow)));
    assert!(matches!(vm.step(), Effect::Fault(Fault::StackOverflow)));
}

#[test]
fn a_runtime_error_names_the_line_of_the_instruction() {
    let mut vm = machine(&[op(Opcode::Nil), op(Opcode::Negate), op(Opcode::Return)], vec![]);
    assert!(matches!(vm.step(), Effect::Continue));
    match vm.step() {
        Effect::RuntimeError { message, line } => {
            assert_eq!(message, "Operand must be a number.");
            assert_eq!(line, 11);
        }
        _ => panic!("no runtime error"),
    }
    // The stack was reset: the next instruction finds it empty.
    let mut vm = machine(&[op(Opcode::Nil), op(Opcode::Nil), op(Opcode::Less), op(Opcode::Pop)], vec![]);
    vm.step();
    vm.step();
    assert!(matches!(vm.step(), Effect::RuntimeError { .. }));
    assert!(matches!(vm.step(), Effect::Fault(Fault::StackUnderflow)));
}

#[test]
fn globals_are_defined_read_and_assigned() {
    let mut vm = machine(
        &[
            op(Opcode::True), op(Opcode::DefineGlobal), 0,
            op(Opcode::False), op(Opcode::SetGlobal), 0, op(Opcode::Pop),
            op(Opcode::GetGlobal), 0, op(Opcode::Print),
            op(Opcode::GetGlobal), 1,
        ],
        vec![Value::string(String::from("a")), Value::string(String::from("b"))],
    );
    for _ in 0..5 {
        assert!(matches!(vm.step(), Effect::Continue));
    }
    assert!(matches!(vm.step(), Effect::Continue));
    assert!(matches!(vm.step(), Effect::Print(Value::Bool(false))));
    match vm.step() {
        Effect::RuntimeError { message, line } => {
            assert_eq!(message, "Undefined variable 'b'");
            assert_eq!(line, 21);
        }
        _ => panic!("no runtime error"),
    }
}
