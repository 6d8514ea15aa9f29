use bytecode_vm::bytecode::{ByteCode, Opcode};
use bytecode_vm::interpreter::{ErrorKind, InterpretError, Interpreter, RuntimeError, Status};

fn name(s: &str) -> String {
    s.to_string()
}

#[test]
fn load_then_return_yields_value() {
    for v in [0i64, 1, -1, 42, i64::MAX, i64::MIN] {
        let prog = vec![ByteCode::Load(v), ByteCode::Ret];
        assert_eq!(Interpreter::execute(&prog), Ok(v));
    }
}

#[test]
fn subtract_uses_first_pushed_as_left_operand() {
    let prog = vec![ByteCode::Load(10), ByteCode::Load(3), ByteCode::Sub, ByteCode::Ret];
    assert_eq!(Interpreter::execute(&prog), Ok(7));
    let prog = vec![ByteCode::Load(-4), ByteCode::Load(9), ByteCode::Sub, ByteCode::Ret];
    assert_eq!(Interpreter::execute(&prog), Ok(-13));
}

#[test]
fn write_then_read_round_trips() {
    let prog = vec![
        ByteCode::Load(-77),
        ByteCode::Write(name("x")),
        ByteCode::Read(name("x")),
        ByteCode::Ret,
    ];
    assert_eq!(Interpreter::execute(&prog), Ok(-77));
}

#[test]
fn later_write_overwrites_binding() {
    let prog = vec![
        ByteCode::Load(1),
        ByteCode::Write(name("x")),
        ByteCode::Load(2),
        ByteCode::Write(name("x")),
        ByteCode::Read(name("x")),
        ByteCode::Ret,
    ];
    assert_eq!(Interpreter::execute(&prog), Ok(2));
}

#[test]
fn divide_by_zero_is_reported() {
    let prog = vec![ByteCode::Load(5), ByteCode::Load(0), ByteCode::Div, ByteCode::Ret];
    assert_eq!(
        Interpreter::execute(&prog),
        Err(RuntimeError { kind: ErrorKind::DivisionByZero, pointer: 2, opcode: Some(Opcode::Div) })
    );
}

#[test]
fn divide_truncates_toward_zero() {
    let prog = vec![ByteCode::Load(-7), ByteCode::Load(2), ByteCode::Div, ByteCode::Ret];
    assert_eq!(Interpreter::execute(&prog), Ok(-3));
    let prog = vec![ByteCode::Load(7), ByteCode::Load(-2), ByteCode::Div, ByteCode::Ret];
    assert_eq!(Interpreter::execute(&prog), Ok(-3));
}

#[test]
fn add_and_multiply() {
    let prog = vec![
        ByteCode::Load(6),
        ByteCode::Load(7),
        ByteCode::Mul,
        ByteCode::Load(8),
        ByteCode::Add,
        ByteCode::Ret,
    ];
    assert_eq!(Interpreter::execute(&prog), Ok(50));
}

#[test]
fn overflow_is_reported() {
    let cases = [
        (i64::MAX, 1, ByteCode::Add, Opcode::Add),
        (i64::MIN, 1, ByteCode::Sub, Opcode::Sub),
        (i64::MAX, 2, ByteCode::Mul, Opcode::Mul),
        (i64::MIN, -1, ByteCode::Div, Opcode::Div),
    ];
    for (a, b, op, code) in cases {
        let prog = vec![ByteCode::Load(a), ByteCode::Load(b), op, ByteCode::Ret];
        assert_eq!(
            Interpreter::execute(&prog),
            Err(RuntimeError { kind: ErrorKind::ArithmeticOverflow, pointer: 2, opcode: Some(code) })
        );
    }
}

#[test]
fn jump_out_of_bounds_is_reported() {
    let prog = vec![ByteCode::Jump(999), ByteCode::Load(1), ByteCode::Ret];
    assert_eq!(
        Interpreter::execute(&prog),
        Err(RuntimeError { kind: ErrorKind::PointerOutOfBounds, pointer: 999, opcode: None })
    );
}

#[test]
fn running_off_the_end_is_reported() {
    let prog = vec![ByteCode::Load(1)];
    assert_eq!(
        Interpreter::execute(&prog),
        Err(RuntimeError { kind: ErrorKind::PointerOutOfBounds, pointer: 1, opcode: None })
    );
    assert_eq!(
        Interpreter::execute(&[]),
        Err(RuntimeError { kind: ErrorKind::PointerOutOfBounds, pointer: 0, opcode: None })
    );
}

#[test]
fn unbound_variable_is_reported() {
    let prog = vec![ByteCode::Read(name("y")), ByteCode::Ret];
    assert_eq!(
        Interpreter::execute(&prog),
        Err(RuntimeError { kind: ErrorKind::UnboundVariable, pointer: 0, opcode: Some(Opcode::Read) })
    );
    let prog = vec![ByteCode::Load(3), ByteCode::Write(name("x")), ByteCode::Read(name("X")), ByteCode::Ret];
    assert_eq!(
        Interpreter::execute(&prog),
        Err(RuntimeError { kind: ErrorKind::UnboundVariable, pointer: 2, opcode: Some(Opcode::Read) })
    );
}

#[test]
fn stack_underflow_is_reported() {
    let cases = vec![
        (vec![ByteCode::Ret], 0, Opcode::Ret),
        (vec![ByteCode::Write(name("x"))], 0, Opcode::Write),
        (vec![ByteCode::Je(0)], 0, Opcode::Je),
        (vec![ByteCode::Load(1), ByteCode::Add], 1, Opcode::Add),
        (vec![ByteCode::Load(1), ByteCode::Div], 1, Opcode::Div),
    ];
    for (prog, at, code) in cases {
        assert_eq!(
            Interpreter::execute(&prog),
            Err(RuntimeError { kind: ErrorKind::StackUnderflow, pointer: at, opcode: Some(code) })
        );
    }
}

#[test]
fn jump_if_zero_branches_on_popped_value() {
    let prog = vec![
        ByteCode::Load(0),
        ByteCode::Je(4),
        ByteCode::Load(1),
        ByteCode::Ret,
        ByteCode::Load(2),
        ByteCode::Ret,
    ];
    assert_eq!(Interpreter::execute(&prog), Ok(2));
    let prog = vec![
        ByteCode::Load(5),
        ByteCode::Je(4),
        ByteCode::Load(1),
        ByteCode::Ret,
        ByteCode::Load(2),
        ByteCode::Ret,
    ];
    assert_eq!(Interpreter::execute(&prog), Ok(1));
}

#[test]
fn endless_loop_stops_at_step_limit() {
    let prog = vec![ByteCode::Jump(0)];
    assert_eq!(
        Interpreter::execute_with_limit(&prog, 1000),
        Err(RuntimeError { kind: ErrorKind::StepLimitExceeded, pointer: 0, opcode: None })
    );
    let prog = vec![ByteCode::Load(4), ByteCode::Ret];
    assert_eq!(
        Interpreter::execute_with_limit(&prog, 1),
        Err(RuntimeError { kind: ErrorKind::StepLimitExceeded, pointer: 1, opcode: None })
    );
    assert_eq!(Interpreter::execute_with_limit(&prog, 2), Ok(4));
}

#[test]
fn single_steps_follow_the_program() {
    let prog = vec![ByteCode::Load(2), ByteCode::Load(3), ByteCode::Add, ByteCode::Ret];
    let mut m = Interpreter::new();
    assert_eq!(m.run(&prog), Status::Running);
    assert_eq!(m.run(&prog), Status::Running);
    assert_eq!(m.run(&prog), Status::Running);
    assert_eq!(m.run(&prog), Status::Returned(5));
}

const SUM_TO_TEN: &str = "LOAD_VAL 10
WRITE_VAR i
LOAD_VAL 0
WRITE_VAR acc
READ_VAR i
JE 15
READ_VAR acc
READ_VAR i
ADD
WRITE_VAR acc
READ_VAR i
LOAD_VAL 1
SUB
WRITE_VAR i
JUMP 4
READ_VAR acc
RETURN_VALUE
";

#[test]
fn counting_loop_sums_one_to_n() {
    assert_eq!(ByteCode::interpret(SUM_TO_TEN.to_string()).ok(), Some(55));
}

#[test]
fn interpret_reports_runtime_errors() {
    let text = "LOAD_VAL 5\nLOAD_VAL 0\nDIVIDE\nRETURN_VALUE\n".to_string();
    match ByteCode::interpret(text) {
        Err(InterpretError::Runtime(e)) => assert_eq!(e.kind, ErrorKind::DivisionByZero),
        other => panic!("unexpected {:?}", other),
    }
    let text = "JUMP 999\nLOAD_VAL 1\nRETURN_VALUE".to_string();
    match ByteCode::interpret(text) {
        Err(InterpretError::Runtime(e)) => assert_eq!(e.kind, ErrorKind::PointerOutOfBounds),
        other => panic!("unexpected {:?}", other),
    }
    let text = "READ_VAR ghost\nRETURN_VALUE".to_string();
    match ByteCode::interpret(text) {
        Err(InterpretError::Runtime(e)) => assert_eq!(e.kind, ErrorKind::UnboundVariable),
        other => panic!("unexpected {:?}", other),
    }
}
