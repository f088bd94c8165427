//! Operators, operand descriptors and the instruction records of the machine.
use vstd::prelude::*;

use crate::immediate::Immediate;
use crate::memory::Scope;
use crate::resolution::FullIdentifier;
use crate::types::Variant;

verus! {

/// Arithmetic and bitwise operators.
#[derive(Debug, Clone, Copy, PartialEq, Eq, Structural)]
pub enum Operation {
    Add,
    Subtract,
    Multiply,
    Divide,
    Remainder,
    And,
    Or,
    Xor,
}

/// Logical, relational and comparing operators.
#[derive(Debug, Clone, Copy, PartialEq, Eq, Structural)]
pub enum ComparisonOperation {
    And,
    Or,
    LessThan,
    GreaterThan,
    LessThanEqual,
    GreaterThanEqual,
    /// Unsigned.
    Above,
    /// Unsigned.
    AboveEqual,
    /// Unsigned.
    Below,
    /// Unsigned.
    BelowEqual,
    Compare,
}

/// The predicates over the flags that a conditional jump can test.
#[derive(Debug, Clone, Copy, PartialEq, Eq, Structural)]
pub enum JumpType {
    Zero,
    NotZero,
    Equal,
    NotEqual,
    Greater,
    GreaterEqual,
    /// Unsigned.
    Above,
    /// Unsigned.
    AboveEqual,
    Lesser,
    LessEqual,
    /// Unsigned.
    Below,
    /// Unsigned.
    BelowEqual,
    Overflow,
    NotOverflow,
    Signed,
    NotSigned,
}

/// The two register banks.
#[derive(Debug, Clone, Copy, PartialEq, Eq, Structural)]
pub enum RegisterType {
    Caller,
    Callee,
}

/// An operand: a named variable, a register, a constant, or the top of the
/// data stack.
#[derive(Debug, Clone)]
pub enum Literal {
    Variable(String),
    Register(RegisterType, u8),
    Immediate(Immediate),
    /// The top of the stack, read without popping it.
    Peak,
}

impl Literal {
    pub fn register(reg: RegisterType, num: u8) -> (r: Literal)
        ensures
            r == Literal::Register(reg, num),
    {
        Literal::Register(reg, num)
    }

    pub fn immediate(imm: Immediate) -> (r: Literal)
        ensures
            r == Literal::Immediate(imm),
    {
        Literal::Immediate(imm)
    }

    pub fn variable(loc: &str) -> (r: Literal)
        ensures
            r matches Literal::Variable(name) && name@ == loc@,
    {
        Literal::Variable(loc.to_string())
    }

    /// A copy of this operand.
    pub fn duplicate(&self) -> (r: Literal)
        ensures
            r == *self,
    {
        match self {
            Literal::Variable(name) => Literal::Variable(name.clone()),
            Literal::Register(b, n) => Literal::Register(*b, *n),
            Literal::Immediate(v) => Literal::Immediate(*v),
            Literal::Peak => Literal::Peak,
        }
    }
}

/// One instruction of the machine.
#[derive(Debug, Clone)]
pub enum Instruction {
    PushVal(Immediate),
    Pop,
    PopTo(Literal),
    Ret(Option<Literal>),
    Jump(usize),
    Compare(ComparisonOperation),
    PerformOperation(Operation),
    ConditionalJump(JumpType, usize),
    AddressOf(Literal),
    Dereference,
    Call(usize),
    /// Exceptions are not supported: this instruction faults.
    Throw(Immediate),
    /// Exceptions are not supported: this instruction does nothing.
    Catch,
    /// Copies a value to the top of the stack.
    Push { src: Literal },
    Move { dest: Literal, src: Literal },
    Nop,
    Halt,
    DeclareVar(String, Scope),
    GetVar(String),
    SaveVar(String),
    Coerce { dest_type: Immediate },
    /// Calls the function of that handle; not supported, it faults.
    CallFunction(usize),
    GetField(Literal, FullIdentifier),
    /// Not supported: it faults.
    GetMember(Literal, usize),
    /// Not supported: it faults.
    BuildVariant { dest_variant: Variant },
    Enter,
    Lower,
    Exit,
    Heapify,
}

} // verus!
