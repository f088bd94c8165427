//! Named callables: parameters, an optional return type, and a body.
use vstd::prelude::*;

use crate::immediate::Immediate;
use crate::instruction_set::Instruction;
use crate::resolution::{FullIdentifier, Identifier, Resolvable};
use crate::types::TypeDescriptor;

verus! {

/// A callable: its path, its parameters with their types, its return type,
/// and its instructions.
pub struct Function {
    identifier: FullIdentifier,
    parameters: Vec<(Identifier, Immediate)>,
    ret_type: Option<Immediate>,
    instructions: Vec<Instruction>,
}

impl Function {
    pub closed spec fn identifier(&self) -> FullIdentifier {
        self.identifier
    }

    pub closed spec fn parameters(&self) -> Seq<(Identifier, Immediate)> {
        self.parameters@
    }

    pub closed spec fn ret_type(&self) -> Option<Immediate> {
        self.ret_type
    }

    pub closed spec fn instructions(&self) -> Seq<Instruction> {
        self.instructions@
    }

    pub fn get_parameters(&self) -> (r: &Vec<(Identifier, Immediate)>)
        ensures
            r@ == self.parameters(),
    {
        &self.parameters
    }

    pub fn get_ret_type(&self) -> (r: Option<Immediate>)
        ensures
            r == self.ret_type(),
    {
        self.ret_type
    }

    pub fn get_instructions(&self) -> (r: &Vec<Instruction>)
        ensures
            r@ == self.instructions(),
    {
        &self.instructions
    }
}

impl Resolvable for Function {
    fn get_identifier(&self) -> &FullIdentifier {
        &self.identifier
    }
}

impl Resolvable for TypeDescriptor {
    fn get_identifier(&self) -> &FullIdentifier {
        &self.identifier
    }
}

/// Builds a function; parameters and instructions are each set exactly
/// once before `build`.
pub struct FunctionBuilder {
    in_progress: Function,
    set_parameters: bool,
    set_instructions: bool,
}

impl FunctionBuilder {
    pub closed spec fn function(&self) -> Function {
        self.in_progress
    }

    pub closed spec fn has_parameters(&self) -> bool {
        self.set_parameters
    }

    pub closed spec fn has_instructions(&self) -> bool {
        self.set_instructions
    }

    /// A function of that name with nothing set yet.
    pub fn with_name(name: FullIdentifier) -> (r: FunctionBuilder)
        ensures
            r.function().identifier() == name,
            r.function().parameters().len() == 0,
            r.function().ret_type() is None,
            r.function().instructions().len() == 0,
            !r.has_parameters(),
            !r.has_instructions(),
    {
        FunctionBuilder {
            in_progress: Function {
                identifier: name,
                parameters: Vec::new(),
                ret_type: None,
                instructions: Vec::new(),
            },
            set_parameters: false,
            set_instructions: false,
        }
    }

    /// Declares that the function takes no parameters.
    pub fn no_parameters(self) -> (r: FunctionBuilder)
        requires
            !self.has_parameters(),
        ensures
            r.function() == self.function(),
            r.has_parameters(),
            r.has_instructions() == self.has_instructions(),
    {
        let mut b = self;
        b.set_parameters = true;
        b
    }

    pub fn with_parameters(self, parameters: Vec<(Identifier, Immediate)>) -> (r: FunctionBuilder)
        requires
            !self.has_parameters(),
        ensures
            r.function().identifier() == self.function().identifier(),
            r.function().parameters() == parameters@,
            r.function().ret_type() == self.function().ret_type(),
            r.function().instructions() == self.function().instructions(),
            r.has_parameters(),
            r.has_instructions() == self.has_instructions(),
    {
        let mut b = self;
        b.in_progress.parameters = parameters;
        b.set_parameters = true;
        b
    }

    pub fn with_instructions(self, instructions: Vec<Instruction>) -> (r: FunctionBuilder)
        requires
            !self.has_instructions(),
        ensures
            r.function().identifier() == self.function().identifier(),
            r.function().parameters() == self.function().parameters(),
            r.function().ret_type() == self.function().ret_type(),
            r.function().instructions() == instructions@,
            r.has_instructions(),
            r.has_parameters() == self.has_parameters(),
    {
        let mut b = self;
        b.in_progress.instructions = instructions;
        b.set_instructions = true;
        b
    }

    /// The finished function.
    pub fn build(self) -> (r: Function)
        requires
            self.has_parameters(),
            self.has_instructions(),
        ensures
            r == self.function(),
    {
        self.in_progress
    }
}

} // verus!
