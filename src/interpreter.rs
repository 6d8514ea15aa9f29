use crate::bytecode::{opcode_of, program_view, ByteCode, Instr, Opcode};
use crate::parser::{parse_text, ParseError};
use vstd::prelude::*;

verus! {

/// Why a run of the engine failed.
#[derive(Debug, Clone, Copy, PartialEq, Eq, Structural)]
pub enum ErrorKind {
    PointerOutOfBounds,
    UnboundVariable,
    StackUnderflow,
    DivisionByZero,
    ArithmeticOverflow,
    /// The run was still going when its step budget ran out.
    StepLimitExceeded,
}

/// A failed run: the kind of failure, the instruction pointer at which it
/// happened and the opcode found there (none when the pointer is outside
/// the program).
#[derive(Debug, Clone, Copy, PartialEq, Eq, Structural)]
pub struct RuntimeError {
    pub kind: ErrorKind,
    pub pointer: usize,
    pub opcode: Option<Opcode>,
}

/// What a single step reports.
#[derive(Debug, Clone, Copy, PartialEq, Eq, Structural)]
pub enum Status {
    Running,
    Returned(i64),
    Faulted(RuntimeError),
}

/// The machine state: operand stack (top at the end), variable table and
/// program counter.
pub struct State {
    pub stack: Seq<i64>,
    pub vars: Map<Seq<char>, i64>,
    pub pc: usize,
}

pub enum Outcome {
    Running(State),
    Returned(i64),
    Faulted(RuntimeError),
}

pub open spec fn initial_state() -> State {
    State { stack: Seq::empty(), vars: Map::empty(), pc: 0 }
}

pub open spec fn start() -> Outcome {
    Outcome::Running(initial_state())
}

/// Result of a binary operation on left operand `y` and right operand `x`.
pub open spec fn arith(op: Instr, y: i64, x: i64) -> Result<i64, ErrorKind> {
    let r = match op {
        Instr::Add => y.checked_add(x),
        Instr::Sub => y.checked_sub(x),
        Instr::Mul => y.checked_mul(x),
        _ => y.checked_div(x),
    };
    if op is Div && x == 0 {
        Err(ErrorKind::DivisionByZero)
    } else {
        match r {
            Some(v) => Ok(v),
            None => Err(ErrorKind::ArithmeticOverflow),
        }
    }
}

pub open spec fn fault(kind: ErrorKind, pc: usize, i: Instr) -> Outcome {
    Outcome::Faulted(RuntimeError { kind, pointer: pc, opcode: Some(opcode_of(i)) })
}

/// One transition of the engine.
pub open spec fn step(prog: Seq<Instr>, s: State) -> Outcome {
    if s.pc >= prog.len() {
        Outcome::Faulted(
            RuntimeError { kind: ErrorKind::PointerOutOfBounds, pointer: s.pc, opcode: None },
        )
    } else {
        let i = prog[s.pc as int];
        let next = (s.pc + 1) as usize;
        let n = s.stack.len();
        match i {
            Instr::Load(v) => Outcome::Running(State { stack: s.stack.push(v), vars: s.vars, pc: next }),
            Instr::Read(name) => if s.vars.contains_key(name) {
                Outcome::Running(
                    State { stack: s.stack.push(s.vars[name]), vars: s.vars, pc: next },
                )
            } else {
                fault(ErrorKind::UnboundVariable, s.pc, i)
            },
            Instr::Write(name) => if n == 0 {
                fault(ErrorKind::StackUnderflow, s.pc, i)
            } else {
                Outcome::Running(
                    State {
                        stack: s.stack.drop_last(),
                        vars: s.vars.insert(name, s.stack.last()),
                        pc: next,
                    },
                )
            },
            Instr::Jump(t) => Outcome::Running(State { stack: s.stack, vars: s.vars, pc: t }),
            Instr::Je(t) => if n == 0 {
                fault(ErrorKind::StackUnderflow, s.pc, i)
            } else {
                Outcome::Running(
                    State {
                        stack: s.stack.drop_last(),
                        vars: s.vars,
                        pc: if s.stack.last() == 0 { t } else { next },
                    },
                )
            },
            Instr::Ret => if n == 0 {
                fault(ErrorKind::StackUnderflow, s.pc, i)
            } else {
                Outcome::Returned(s.stack.last())
            },
            _ => if n < 2 {
                fault(ErrorKind::StackUnderflow, s.pc, i)
            } else {
                match arith(i, s.stack[n - 2], s.stack[n - 1]) {
                    Ok(r) => Outcome::Running(
                        State { stack: s.stack.subrange(0, n - 2).push(r), vars: s.vars, pc: next },
                    ),
                    Err(k) => fault(k, s.pc, i),
                }
            },
        }
    }
}

/// The outcome after at most `fuel` steps; a finished run stays finished.
pub open spec fn run_for(prog: Seq<Instr>, o: Outcome, fuel: nat) -> Outcome
    decreases fuel,
{
    match o {
        Outcome::Running(s) => if fuel == 0 {
            o
        } else {
            run_for(prog, step(prog, s), (fuel - 1) as nat)
        },
        _ => o,
    }
}

/// What a run reports once its step budget is spent or it has finished.
pub open spec fn result_of(o: Outcome) -> Result<i64, RuntimeError> {
    match o {
        Outcome::Returned(v) => Ok(v),
        Outcome::Faulted(e) => Err(e),
        Outcome::Running(s) => Err(
            RuntimeError { kind: ErrorKind::StepLimitExceeded, pointer: s.pc, opcode: None },
        ),
    }
}

/// The result of running `prog` from the initial state for at most `fuel` steps.
pub open spec fn outcome(prog: Seq<Instr>, fuel: nat) -> Result<i64, RuntimeError> {
    result_of(run_for(prog, start(), fuel))
}

pub open spec fn status_outcome(r: Status, s: State) -> Outcome {
    match r {
        Status::Running => Outcome::Running(s),
        Status::Returned(v) => Outcome::Returned(v),
        Status::Faulted(e) => Outcome::Faulted(e),
    }
}

/// The execution engine: operand stack, variable table and program counter
/// of one run.
pub struct Interpreter {
    stack: Vec<i64>,
    names: Vec<String>,
    values: Vec<i64>,
    pc: usize,
    vars: Ghost<Map<Seq<char>, i64>>,
}

impl View for Interpreter {
    type V = State;

    closed spec fn view(&self) -> State {
        State { stack: self.stack@, vars: self.vars@, pc: self.pc }
    }
}

impl Interpreter {
    /// The variable table is held as parallel vectors of distinct names and
    /// their values.
    pub closed spec fn wf(&self) -> bool {
        &&& self.names.len() == self.values.len()
        &&& forall|i: int, j: int|
            0 <= i < j < self.names.len() ==> self.names[i]@ != self.names[j]@
        &&& forall|k: Seq<char>|
            self.vars@.contains_key(k) <==> exists|i: int|
                0 <= i < self.names.len() && self.names[i]@ == k
        &&& forall|i: int|
            0 <= i < self.names.len() ==> self.vars@[#[trigger] self.names[i]@] == self.values[i]
    }

    /// A fresh engine: empty stack, empty table, pointer at 0.
    pub fn new() -> (r: Interpreter)
        ensures
            r.wf(),
            r@ == initial_state(),
    {
        Interpreter {
            stack: Vec::new(),
            names: Vec::new(),
            values: Vec::new(),
            pc: 0,
            vars: Ghost(Map::empty()),
        }
    }

    fn find(&self, name: &String) -> (r: Option<usize>)
        requires
            self.wf(),
        ensures
            match r {
                Some(i) => i < self.names.len() && self.names[i as int]@ == name@,
                None => !self.vars@.contains_key(name@),
            },
    {
        let mut i: usize = 0;
        while i < self.names.len()
            invariant
                self.wf(),
                i <= self.names.len(),
                forall|j: int| 0 <= j < i ==> self.names[j]@ != name@,
            decreases self.names.len() - i,
        {
            if self.names[i] == *name {
                return Some(i);
            }
            i = i + 1;
        }
        None
    }

    fn bind(&mut self, name: &String, v: i64)
        requires
            old(self).wf(),
        ensures
            final(self).wf(),
            final(self).vars@ == old(self).vars@.insert(name@, v),
            final(self).stack == old(self).stack,
            final(self).pc == old(self).pc,
    {
        match self.find(name) {
            Some(i) => {
                self.values.set(i, v);
            },
            None => {
                self.names.push(name.clone());
                self.values.push(v);
            },
        }
        self.vars = Ghost(self.vars@.insert(name@, v));
        assert forall|k: Seq<char>|
            self.vars@.contains_key(k) <==> exists|i: int|
                0 <= i < self.names.len() && self.names[i]@ == k by {
            if k == name@ && !old(self).vars@.contains_key(k) {
                assert(self.names[self.names.len() - 1]@ == k);
            }
            if old(self).vars@.contains_key(k) {
                let i = choose|i: int| 0 <= i < old(self).names.len() && old(self).names[i]@ == k;
                assert(self.names[i]@ == k);
            }
        }
    }

    fn fail(&self, kind: ErrorKind, op: Opcode) -> (r: Status)
        ensures
            r == Status::Faulted(RuntimeError { kind, pointer: self.pc, opcode: Some(op) }),
    {
        Status::Faulted(RuntimeError { kind, pointer: self.pc, opcode: Some(op) })
    }

    /// Executes the instruction under the program counter.
    pub fn run(&mut self, instructions: &[ByteCode]) -> (r: Status)
        requires
            old(self).wf(),
        ensures
            final(self).wf(),
            status_outcome(r, final(self)@) == step(program_view(instructions@), old(self)@),
    {
        let ghost prog = program_view(instructions@);
        if self.pc >= instructions.len() {
            return Status::Faulted(
                RuntimeError { kind: ErrorKind::PointerOutOfBounds, pointer: self.pc, opcode: None },
            );
        }
        let ins = &instructions[self.pc];
        assert(prog[self.pc as int] == ins@);
        let op = ins.opcode();
        let next = self.pc + 1;
        match ins {
            ByteCode::Load(v) => {
                self.stack.push(*v);
                self.pc = next;
                Status::Running
            },
            ByteCode::Read(name) => match self.find(name) {
                Some(i) => {
                    let v = self.values[i];
                    self.stack.push(v);
                    self.pc = next;
                    Status::Running
                },
                None => self.fail(ErrorKind::UnboundVariable, op),
            },
            ByteCode::Write(name) => match self.stack.pop() {
                Some(v) => {
                    self.bind(name, v);
                    self.pc = next;
                    Status::Running
                },
                None => self.fail(ErrorKind::StackUnderflow, op),
            },
            ByteCode::Jump(t) => {
                self.pc = *t;
                Status::Running
            },
            ByteCode::Je(t) => match self.stack.pop() {
                Some(v) => {
                    self.pc = if v == 0 {
                        *t
                    } else {
                        next
                    };
                    Status::Running
                },
                None => self.fail(ErrorKind::StackUnderflow, op),
            },
            ByteCode::Ret => match self.stack.pop() {
                Some(v) => Status::Returned(v),
                None => self.fail(ErrorKind::StackUnderflow, op),
            },
            _ => {
                let n = self.stack.len();
                if n < 2 {
                    return self.fail(ErrorKind::StackUnderflow, op);
                }
                let x = self.stack[n - 1];
                let y = self.stack[n - 2];
                let r = match ins {
                    ByteCode::Add => y.checked_add(x),
                    ByteCode::Sub => y.checked_sub(x),
                    ByteCode::Mul => y.checked_mul(x),
                    _ => {
                        if x == 0 {
                            return self.fail(ErrorKind::DivisionByZero, op);
                        }
                        y.checked_div(x)
                    },
                };
                match r {
                    Some(v) => {
                        self.stack.pop();
                        self.stack.pop();
                        self.stack.push(v);
                        assert(self.stack@ =~= old(self).stack@.subrange(0, n - 2).push(v));
                        self.pc = next;
                        Status::Running
                    },
                    None => self.fail(ErrorKind::ArithmeticOverflow, op),
                }
            },
        }
    }

    /// Runs `instructions` from a fresh state for at most `max_steps` steps.
    pub fn execute_with_limit(instructions: &[ByteCode], max_steps: u64) -> (r: Result<
        i64,
        RuntimeError,
    >)
        ensures
            r == outcome(program_view(instructions@), max_steps as nat),
    {
        let ghost prog = program_view(instructions@);
        let mut m = Interpreter::new();
        let mut left: u64 = max_steps;
        while left > 0
            invariant
                m.wf(),
                prog == program_view(instructions@),
                run_for(prog, Outcome::Running(m@), left as nat) == run_for(
                    prog,
                    start(),
                    max_steps as nat,
                ),
            decreases left,
        {
            let ghost before = m@;
            let st = m.run(instructions);
            assert(run_for(prog, Outcome::Running(before), left as nat) == run_for(
                prog,
                status_outcome(st, m@),
                (left - 1) as nat,
            ));
            match st {
                Status::Running => {},
                Status::Returned(v) => return Ok(v),
                Status::Faulted(e) => return Err(e),
            }
            left = left - 1;
        }
        Err(RuntimeError { kind: ErrorKind::StepLimitExceeded, pointer: m.pc, opcode: None })
    }

    /// Executes all the instructions and returns the value of the first
    /// `Ret`. The step budget, `u64::MAX`, is out of reach of any run in
    /// practice.
    pub fn execute(instructions: &[ByteCode]) -> (r: Result<i64, RuntimeError>)
        ensures
            r == outcome(program_view(instructions@), u64::MAX as nat),
    {
        Interpreter::execute_with_limit(instructions, u64::MAX)
    }
}


/// Why a program text could not be run to a value.
#[derive(Debug, Clone)]
pub enum InterpretError {
    Parse(ParseError),
    Runtime(RuntimeError),
}

impl ByteCode {
    /// Assembles a program text and runs it; nothing runs when assembling
    /// fails.
    pub fn interpret(program: String) -> (r: Result<i64, InterpretError>)
        ensures
            match parse_text(program@) {
                Err((k, l)) => r matches Err(InterpretError::Parse(e)) && e.kind == k && e.line@
                    == l,
                Ok(p) => match outcome(p, u64::MAX as nat) {
                    Ok(v) => r matches Ok(x) && x == v,
                    Err(e) => r matches Err(InterpretError::Runtime(x)) && x == e,
                },
            },
    {
        match ByteCode::parse(program.as_str()) {
            Err(e) => Err(InterpretError::Parse(e)),
            Ok(instructions) => match Interpreter::execute(instructions.as_slice()) {
                Ok(v) => Ok(v),
                Err(e) => Err(InterpretError::Runtime(e)),
            },
        }
    }
}

} // verus!
