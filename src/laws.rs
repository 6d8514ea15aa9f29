use crate::bytecode::{Instr, Opcode};
use crate::interpreter::{initial_state, outcome, run_for, start, step, ErrorKind, Outcome, RuntimeError, State};
use vstd::prelude::*;

verus! {

/// A program that loads a value and returns it yields exactly that value.
pub proof fn load_then_return(v: i64, fuel: nat)
    requires
        fuel >= 2,
    ensures
        outcome(seq![Instr::Load(v), Instr::Ret], fuel) == Ok::<i64, RuntimeError>(v),
{
    reveal_with_fuel(run_for, 3);
}

/// `Sub` takes the value pushed first as its left operand: loading `a` and
/// then `b` and subtracting yields `a - b`, whenever that fits in `i64`.
pub proof fn subtract_operand_order(a: i64, b: i64, fuel: nat)
    requires
        fuel >= 4,
        i64::MIN <= a - b <= i64::MAX,
    ensures
        outcome(seq![Instr::Load(a), Instr::Load(b), Instr::Sub, Instr::Ret], fuel) == Ok::<
            i64,
            RuntimeError,
        >((a - b) as i64),
{
    reveal_with_fuel(run_for, 5);
}

/// A value written to a variable and read back is the value written.
pub proof fn write_read_round_trip(v: i64, x: Seq<char>, fuel: nat)
    requires
        fuel >= 4,
    ensures
        outcome(seq![Instr::Load(v), Instr::Write(x), Instr::Read(x), Instr::Ret], fuel) == Ok::<
            i64,
            RuntimeError,
        >(v),
{
    reveal_with_fuel(run_for, 5);
}

/// Reading a variable that was never written fails; it never reads as zero.
pub proof fn read_unbound_fails(prog: Seq<Instr>, x: Seq<char>, fuel: nat)
    requires
        fuel >= 1,
        prog.len() > 0,
        prog[0] == Instr::Read(x),
    ensures
        outcome(prog, fuel) == Err::<i64, RuntimeError>(
            RuntimeError { kind: ErrorKind::UnboundVariable, pointer: 0, opcode: Some(Opcode::Read) },
        ),
{
    reveal_with_fuel(run_for, 2);
}


/// A counting loop that adds `n`, `n - 1`, ..., `1` into `acc` and leaves
/// through `Je` once the counter `i` reaches zero.
pub open spec fn sum_program(n: i64) -> Seq<Instr> {
    let i = seq!['i'];
    let acc = seq!['a', 'c', 'c'];
    seq![
        Instr::Load(n),
        Instr::Write(i),
        Instr::Load(0),
        Instr::Write(acc),
        Instr::Read(i),
        Instr::Je(15),
        Instr::Read(acc),
        Instr::Read(i),
        Instr::Add,
        Instr::Write(acc),
        Instr::Read(i),
        Instr::Load(1),
        Instr::Sub,
        Instr::Write(i),
        Instr::Jump(4),
        Instr::Read(acc),
        Instr::Ret,
    ]
}

proof fn advance(prog: Seq<Instr>, s: State, fuel: nat) -> (t: State)
    requires
        fuel > 0,
        step(prog, s) is Running,
    ensures
        t == step(prog, s)->Running_0,
        run_for(prog, Outcome::Running(s), fuel) == run_for(
            prog,
            Outcome::Running(t),
            (fuel - 1) as nat,
        ),
{
    step(prog, s)->Running_0
}

proof fn sum_loop(n: i64, k: int, a: int, vars: Map<Seq<char>, i64>, fuel: nat)
    requires
        0 <= k,
        0 <= a,
        a + k * (k + 1) / 2 <= i64::MAX,
        vars.contains_key(seq!['i']),
        vars.contains_key(seq!['a', 'c', 'c']),
        vars[seq!['i']] == k,
        vars[seq!['a', 'c', 'c']] == a,
        fuel >= 11 * k + 4,
    ensures
        run_for(sum_program(n), Outcome::Running(State { stack: Seq::empty(), vars, pc: 4 }), fuel)
            == Outcome::Returned((a + k * (k + 1) / 2) as i64),
    decreases k,
{
    let prog = sum_program(n);
    let i = seq!['i'];
    let acc = seq!['a', 'c', 'c'];
    assert(i != acc) by {
        assert(i.len() != acc.len());
    }
    let s0 = State { stack: Seq::empty(), vars, pc: 4 };
    let s1 = advance(prog, s0, fuel);
    if k == 0 {
        let s2 = advance(prog, s1, (fuel - 1) as nat);
        let s3 = advance(prog, s2, (fuel - 2) as nat);
        reveal_with_fuel(run_for, 2);
    } else {
        assert(a + k <= a + k * (k + 1) / 2) by (nonlinear_arith)
            requires k >= 1, a >= 0;
        assert((a + k) + (k - 1) * k / 2 == a + k * (k + 1) / 2) by (nonlinear_arith)
            requires k >= 1;
        let s2 = advance(prog, s1, (fuel - 1) as nat);
        let s3 = advance(prog, s2, (fuel - 2) as nat);
        let s4 = advance(prog, s3, (fuel - 3) as nat);
        let s5 = advance(prog, s4, (fuel - 4) as nat);
        let s6 = advance(prog, s5, (fuel - 5) as nat);
        let s7 = advance(prog, s6, (fuel - 6) as nat);
        let s8 = advance(prog, s7, (fuel - 7) as nat);
        let s9 = advance(prog, s8, (fuel - 8) as nat);
        let s10 = advance(prog, s9, (fuel - 9) as nat);
        let s11 = advance(prog, s10, (fuel - 10) as nat);
        let next = vars.insert(acc, (a + k) as i64).insert(i, (k - 1) as i64);
        assert(s11.stack =~= Seq::<i64>::empty());
        assert(s11.vars =~= next);
        assert(s11 == State { stack: Seq::empty(), vars: next, pc: 4 });
        sum_loop(n, k - 1, a + k, next, (fuel - 11) as nat);
    }
}

/// Summing `1..=n` with a backward-jumping loop terminates with
/// `n * (n + 1) / 2`.
pub proof fn sum_loop_returns_triangle(n: i64, fuel: nat)
    requires
        0 <= n,
        n * (n + 1) / 2 <= i64::MAX,
        fuel >= 11 * n + 8,
    ensures
        outcome(sum_program(n), fuel) == Ok::<i64, RuntimeError>((n * (n + 1) / 2) as i64),
{
    let i = seq!['i'];
    let acc = seq!['a', 'c', 'c'];
    assert(i != acc) by {
        assert(i.len() != acc.len());
    }
    let prog = sum_program(n);
    let vars = Map::<Seq<char>, i64>::empty().insert(i, n).insert(acc, 0);
    let s1 = advance(prog, initial_state(), fuel);
    let s2 = advance(prog, s1, (fuel - 1) as nat);
    let s3 = advance(prog, s2, (fuel - 2) as nat);
    let s4 = advance(prog, s3, (fuel - 3) as nat);
    assert(s4.stack =~= Seq::<i64>::empty());
    assert(s4.vars =~= vars);
    sum_loop(n, n as int, 0, vars, (fuel - 4) as nat);
}

} // verus!
