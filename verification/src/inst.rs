//! Instructions, as the decoder hands them over.
use crate::value::ValueType;
use vstd::prelude::*;
use vstd::string::*;

verus! {

/// The result type a block was declared with.
#[derive(Clone, Copy, Debug, PartialEq, Eq, Structural)]
pub enum BlockType {
    Value(ValueType),
    NoResult,
}

/// One instruction. The opcodes that the interpreter does not execute come
/// as `Other`, with the name the decoder prints for them.
#[derive(Clone, Debug, PartialEq, Eq)]
pub enum Instruction {
    Unreachable,
    Nop,
    Block(BlockType),
    Loop(BlockType),
    If(BlockType),
    Else,
    End,
    Br(u32),
    BrIf(u32),
    Return,
    Call(u32),
    GetLocal(u32),
    SetLocal(u32),
    GetGlobal(u32),
    SetGlobal(u32),
    I32Const(i32),
    I64Const(i64),
    F32Const(u32),
    F64Const(u64),
    I32Add,
    I32Sub,
    I32Mul,
    I32Eq,
    I32LtS,
    Other(String),
}

impl Instruction {
    /// Whether the instruction opens a nested scope that an `End` closes.
    pub open spec fn opens_scope(self) -> bool {
        self is Block || self is Loop || self is If
    }

    /// An equal instruction of its own.
    pub fn duplicate(&self) -> (copy: Instruction)
        ensures
            copy == *self,
    {
        match self {
            Instruction::Unreachable => Instruction::Unreachable,
            Instruction::Nop => Instruction::Nop,
            Instruction::Block(t) => Instruction::Block(*t),
            Instruction::Loop(t) => Instruction::Loop(*t),
            Instruction::If(t) => Instruction::If(*t),
            Instruction::Else => Instruction::Else,
            Instruction::End => Instruction::End,
            Instruction::Br(d) => Instruction::Br(*d),
            Instruction::BrIf(d) => Instruction::BrIf(*d),
            Instruction::Return => Instruction::Return,
            Instruction::Call(i) => Instruction::Call(*i),
            Instruction::GetLocal(i) => Instruction::GetLocal(*i),
            Instruction::SetLocal(i) => Instruction::SetLocal(*i),
            Instruction::GetGlobal(i) => Instruction::GetGlobal(*i),
            Instruction::SetGlobal(i) => Instruction::SetGlobal(*i),
            Instruction::I32Const(v) => Instruction::I32Const(*v),
            Instruction::I64Const(v) => Instruction::I64Const(*v),
            Instruction::F32Const(v) => Instruction::F32Const(*v),
            Instruction::F64Const(v) => Instruction::F64Const(*v),
            Instruction::I32Add => Instruction::I32Add,
            Instruction::I32Sub => Instruction::I32Sub,
            Instruction::I32Mul => Instruction::I32Mul,
            Instruction::I32Eq => Instruction::I32Eq,
            Instruction::I32LtS => Instruction::I32LtS,
            Instruction::Other(name) => Instruction::Other(name.clone()),
        }
    }
}

/// A constant expression: what initialises a global or places a segment.
#[derive(Clone, Debug, PartialEq, Eq)]
pub struct InitExpr {
    pub code: Vec<Instruction>,
}

impl InitExpr {
    pub fn new(code: Vec<Instruction>) -> (e: InitExpr)
        ensures
            e.code == code,
    {
        InitExpr { code }
    }

    pub fn code(&self) -> (code: &Vec<Instruction>)
        ensures
            *code == self.code,
    {
        &self.code
    }
}

} // verus!
