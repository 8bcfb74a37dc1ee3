//! The stack-machine instructions that a disassembled method body is made of.

use vstd::prelude::*;
use crate::expr::Relation;
use crate::types::Literal;

verus! {

/// The computational kind of a value on the operand stack.
#[derive(Debug, Clone, Copy, PartialEq, Eq, Structural)]
pub enum ValueKind {
    Int,
    Long,
    Float,
    Double,
    Reference,
}

/// A unary arithmetic opcode.
#[derive(Debug, Clone, Copy, PartialEq, Eq, Structural)]
pub enum UnaryOp {
    Neg,
}

/// A binary arithmetic opcode.
#[derive(Debug, Clone, Copy, PartialEq, Eq, Structural)]
pub enum BinaryOp {
    Add,
    Sub,
    Mul,
    Div,
    Rem,
    Shl,
    Shr,
    Ushr,
    And,
    Or,
    Xor,
}

/// An arithmetic instruction.
#[derive(Debug, Clone, Copy, PartialEq, Eq, Structural)]
pub enum Arithm {
    UnaryOp(UnaryOp),
    BinaryOp(BinaryOp),
    /// Adds a constant to a local variable, without touching the stack.
    IncreaseLocal { local_index: u16, increase: i16 },
}

/// A place that a value is loaded from or stored to.
#[derive(Debug, Clone, Copy, PartialEq, Eq, Structural)]
pub enum LValue {
    /// The local variable in the given slot.
    Local(usize),
    /// The stack slot that lies `index` below the current depth.
    Stack(isize),
    StaticField { field_ref: u16 },
    /// A field of the object held in the stack slot that lies
    /// `object_stack_index` below the current depth.
    InstanceField { object_stack_index: isize, field_ref: u16 },
}

/// A value that is loaded onto the stack.
#[derive(Debug, Clone, PartialEq, Eq)]
pub enum RValue {
    Constant(Literal),
    /// The literal at the given constant-pool index.
    ConstantRef { const_ref: u16 },
    LValue(LValue),
}

/// How a method is invoked.
#[derive(Debug, Clone, Copy, PartialEq, Eq, Structural)]
pub enum InvokeKind {
    Virtual,
    Special,
    Static,
    Interface,
}

/// A method invocation: the constant-pool index of the method, and the kind.
#[derive(Debug, Clone, Copy, PartialEq, Eq, Structural)]
pub struct Invoke {
    pub method_index: u16,
    pub kind: InvokeKind,
}

/// A conversion between value kinds.
#[derive(Debug, Clone, Copy, PartialEq, Eq, Structural)]
pub struct TypeConv {
    pub from: ValueKind,
    pub to: ValueKind,
}

/// An object-manipulation opcode.
#[derive(Debug, Clone, Copy, PartialEq, Eq, Structural)]
pub enum ObjManip {
    New { class_ref: u16 },
    NewArray,
    ArrayLength,
    CheckCast { class_ref: u16 },
    InstanceOf { class_ref: u16 },
}

/// An opcode that rearranges the operand stack.
#[derive(Debug, Clone, Copy, PartialEq, Eq, Structural)]
pub enum StackManage {
    Pop,
    Pop2,
    Dup,
    DupX1,
    DupX2,
    Dup2,
    Dup2X1,
    Dup2X2,
    Swap,
}

/// A jump as the disassembler decodes it; in a control-flow graph it is
/// carried by the edges and never stands inside a block.
#[derive(Debug, Clone, Copy, PartialEq, Eq, Structural)]
pub struct Jump {
    pub address: usize,
    pub condition: Option<JumpCondition>,
}

/// A marker of a synchronized region.
#[derive(Debug, Clone, Copy, PartialEq, Eq, Structural)]
pub enum Monitor {
    Enter,
    Exit,
}

/// The comparison that ends a basic block with a conditional branch.
#[derive(Debug, Clone, Copy, PartialEq, Eq, Structural)]
pub enum JumpCondition {
    /// Compares the top of the stack with zero.
    CompareZero(Relation),
    /// Compares the two topmost values as numbers.
    Compare(Relation),
    /// Compares the two topmost values as references.
    CompareRef(Relation),
}

/// One instruction of the stack machine.
#[derive(Debug, Clone, PartialEq, Eq)]
pub enum Instruction {
    Nop,
    Load(RValue),
    Store(LValue),
    Arithm(Arithm),
    TypeConv(TypeConv),
    ObjManip(ObjManip),
    StackManage(StackManage),
    Jump(Jump),
    Invoke(Invoke),
    Throw,
    /// Returns from the method, with the value on top of the stack if a
    /// kind is given.
    Return(Option<ValueKind>),
    Synchronized(Monitor),
}

} // verus!
