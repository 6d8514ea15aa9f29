use vstd::prelude::*;

verus! {

/// One executable instruction. Jump targets are indices into the
/// instruction sequence and are checked only when taken.
#[derive(Debug, Clone)]
pub enum ByteCode {
    Load(i64),
    Read(String),
    Write(String),
    Jump(usize),
    Je(usize),
    Add,
    Sub,
    Mul,
    Div,
    Ret,
}

/// The mathematical form of an instruction: variable names as character
/// sequences.
pub enum Instr {
    Load(i64),
    Read(Seq<char>),
    Write(Seq<char>),
    Jump(usize),
    Je(usize),
    Add,
    Sub,
    Mul,
    Div,
    Ret,
}

/// The operation of an instruction without its operand.
#[derive(Debug, Clone, Copy, PartialEq, Eq, Structural)]
pub enum Opcode {
    Load,
    Read,
    Write,
    Jump,
    Je,
    Add,
    Sub,
    Mul,
    Div,
    Ret,
}

impl View for ByteCode {
    type V = Instr;

    open spec fn view(&self) -> Instr {
        match self {
            ByteCode::Load(v) => Instr::Load(*v),
            ByteCode::Read(n) => Instr::Read(n@),
            ByteCode::Write(n) => Instr::Write(n@),
            ByteCode::Jump(t) => Instr::Jump(*t),
            ByteCode::Je(t) => Instr::Je(*t),
            ByteCode::Add => Instr::Add,
            ByteCode::Sub => Instr::Sub,
            ByteCode::Mul => Instr::Mul,
            ByteCode::Div => Instr::Div,
            ByteCode::Ret => Instr::Ret,
        }
    }
}

/// The instruction sequence as the engine's specification sees it.
pub open spec fn program_view(p: Seq<ByteCode>) -> Seq<Instr> {
    p.map_values(|b: ByteCode| b@)
}

pub open spec fn opcode_of(i: Instr) -> Opcode {
    match i {
        Instr::Load(_) => Opcode::Load,
        Instr::Read(_) => Opcode::Read,
        Instr::Write(_) => Opcode::Write,
        Instr::Jump(_) => Opcode::Jump,
        Instr::Je(_) => Opcode::Je,
        Instr::Add => Opcode::Add,
        Instr::Sub => Opcode::Sub,
        Instr::Mul => Opcode::Mul,
        Instr::Div => Opcode::Div,
        Instr::Ret => Opcode::Ret,
    }
}

impl ByteCode {
    pub fn opcode(&self) -> (r: Opcode)
        ensures
            r == opcode_of(self@),
    {
        match self {
            ByteCode::Load(_) => Opcode::Load,
            ByteCode::Read(_) => Opcode::Read,
            ByteCode::Write(_) => Opcode::Write,
            ByteCode::Jump(_) => Opcode::Jump,
            ByteCode::Je(_) => Opcode::Je,
            ByteCode::Add => Opcode::Add,
            ByteCode::Sub => Opcode::Sub,
            ByteCode::Mul => Opcode::Mul,
            ByteCode::Div => Opcode::Div,
            ByteCode::Ret => Opcode::Ret,
        }
    }
}

} // verus!
