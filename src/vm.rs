//! The fetch-execute engine.
use vstd::prelude::*;

use crate::arithmetic::{flags_after_operation, flags_for_result, operation_result};
use crate::comparison::comparison_result;
use crate::flags::Flags;
use crate::immediate::{Address, Immediate};
use crate::instruction_set::{Instruction, JumpType, Literal, RegisterType};
use crate::memory::{Memory, Scope};
use crate::registers::{Registers, REGISTER_COUNT};
use crate::resolution::{char_fits, is_valid_name, FullIdentifier, Identifier};
use vstd::string::StringExecFns;
use crate::types::{descends_from, object_field, TypeRegistry, TypedObject};

verus! {

/// The faults that end an execution.
#[derive(Debug, Clone)]
pub enum Fault {
    /// The popped return address is not a pointer-sized integer.
    InvalidReturn,
    /// The operands' tags do not suit the operation.
    PrimitiveTypeMismatch,
    /// An unbound or unset location was read, an empty stack was popped, or
    /// the program counter left the instructions.
    SegmentationFault,
    /// The register is out of range or holds no value.
    InvalidRegister,
    /// The requested width is not 1, 2, 4 or 8 bytes.
    InvalidMemorySize,
    /// The operand is a value, not a location.
    InvalidAddressOfLocation(Literal),
    /// The name is bound neither in the current scope nor among the statics.
    NotAVariable(String),
    /// The field is absent from the object.
    InvalidField,
    /// A typed copy failed its instance or copy-trait check.
    TypeMismatch,
    /// Division or remainder by zero.
    DivideByZero,
    /// The instruction has no semantics in this machine.
    Unsupported,
    /// A static of that name is declared already.
    AlreadyDeclared(String),
    /// The step budget of the execution ran out.
    StepLimitExceeded,
}


/// Whether a conditional jump of `kind` is taken under `f`.
pub open spec fn jump_condition(kind: JumpType, f: Flags) -> bool {
    match kind {
        JumpType::Zero | JumpType::Equal => f.zero,
        JumpType::NotZero | JumpType::NotEqual => !f.zero,
        JumpType::Greater => f.zero == f.sign && !f.zero,
        JumpType::GreaterEqual => f.zero == f.sign || f.zero,
        JumpType::Above => !f.carry && !f.zero,
        JumpType::AboveEqual => !f.carry || f.zero,
        JumpType::Lesser => f.sign != f.zero,
        JumpType::LessEqual => f.sign != f.zero || f.zero,
        JumpType::Below => f.carry,
        JumpType::BelowEqual => f.carry || f.zero,
        JumpType::Overflow => f.overflow,
        JumpType::NotOverflow => !f.overflow,
        JumpType::Signed => f.sign,
        JumpType::NotSigned => !f.sign,
    }
}

impl JumpType {
    /// Whether a jump of this kind is taken under `flags`.
    pub fn holds(&self, flags: &Flags) -> (r: bool)
        ensures
            r == jump_condition(*self, *flags),
    {
        match self {
            JumpType::Zero | JumpType::Equal => flags.zero,
            JumpType::NotZero | JumpType::NotEqual => !flags.zero,
            JumpType::Greater => flags.zero == flags.sign && !flags.zero,
            JumpType::GreaterEqual => flags.zero == flags.sign || flags.zero,
            JumpType::Above => !flags.carry && !flags.zero,
            JumpType::AboveEqual => !flags.carry || flags.zero,
            JumpType::Lesser => flags.sign != flags.zero,
            JumpType::LessEqual => flags.sign != flags.zero || flags.zero,
            JumpType::Below => flags.carry,
            JumpType::BelowEqual => flags.carry || flags.zero,
            JumpType::Overflow => flags.overflow,
            JumpType::NotOverflow => !flags.overflow,
            JumpType::Signed => flags.sign,
            JumpType::NotSigned => !flags.sign,
        }
    }
}

/// The value-converting coercion of `src` to the tag of `dest`. Integers
/// and characters convert among the integer tags; a byte becomes a
/// character; floats and pointers keep their own tag, and a mutable pointer
/// may stand where an immutable one is asked for.
pub open spec fn coerce_result(dest: Immediate, src: Immediate) -> Result<Immediate, Fault> {
    match dest {
        Immediate::U8(_) => if src.is_convertible() {
            Ok(Immediate::U8(src.value() as u8))
        } else {
            Err(Fault::PrimitiveTypeMismatch)
        },
        Immediate::U16(_) => if src.is_convertible() {
            Ok(Immediate::U16(src.value() as u16))
        } else {
            Err(Fault::PrimitiveTypeMismatch)
        },
        Immediate::U32(_) => if src.is_convertible() {
            Ok(Immediate::U32(src.value() as u32))
        } else {
            Err(Fault::PrimitiveTypeMismatch)
        },
        Immediate::U64(_) => if src.is_convertible() {
            Ok(Immediate::U64(src.value() as u64))
        } else {
            Err(Fault::PrimitiveTypeMismatch)
        },
        Immediate::USize(_) => if src.is_convertible() {
            Ok(Immediate::USize(src.value() as usize))
        } else {
            Err(Fault::PrimitiveTypeMismatch)
        },
        Immediate::Char(_) => match src {
            Immediate::U8(d) => Ok(Immediate::Char(d as char)),
            _ => Err(Fault::PrimitiveTypeMismatch),
        },
        Immediate::Float(_) => if src is Float {
            Ok(src)
        } else {
            Err(Fault::PrimitiveTypeMismatch)
        },
        Immediate::Double(_) => if src is Double {
            Ok(src)
        } else {
            Err(Fault::PrimitiveTypeMismatch)
        },
        Immediate::Pointer(_) => if src is Pointer {
            Ok(src)
        } else {
            Err(Fault::PrimitiveTypeMismatch)
        },
        Immediate::PointerConst(_) => if src is Pointer || src is PointerConst {
            Ok(src)
        } else {
            Err(Fault::PrimitiveTypeMismatch)
        },
        _ => Err(Fault::PrimitiveTypeMismatch),
    }
}

/// Converts `src` to the tag of `dest` as `coerce_result` says.
pub fn coerce(dest: &Immediate, src: Immediate) -> (r: Result<Immediate, Fault>)
    ensures
        r == coerce_result(*dest, src),
{
    match dest {
        Immediate::U8(_) => if src.is_convertible_tag() {
            Ok(src.into_u8())
        } else {
            Err(Fault::PrimitiveTypeMismatch)
        },
        Immediate::U16(_) => if src.is_convertible_tag() {
            Ok(src.into_u16())
        } else {
            Err(Fault::PrimitiveTypeMismatch)
        },
        Immediate::U32(_) => if src.is_convertible_tag() {
            Ok(src.into_u32())
        } else {
            Err(Fault::PrimitiveTypeMismatch)
        },
        Immediate::U64(_) => if src.is_convertible_tag() {
            Ok(src.into_u64())
        } else {
            Err(Fault::PrimitiveTypeMismatch)
        },
        Immediate::USize(_) => if src.is_convertible_tag() {
            Ok(src.into_usize())
        } else {
            Err(Fault::PrimitiveTypeMismatch)
        },
        Immediate::Char(_) => match src {
            Immediate::U8(_) => Ok(src.into_char()),
            _ => Err(Fault::PrimitiveTypeMismatch),
        },
        Immediate::Float(_) => match src {
            Immediate::Float(_) => Ok(src),
            _ => Err(Fault::PrimitiveTypeMismatch),
        },
        Immediate::Double(_) => match src {
            Immediate::Double(_) => Ok(src),
            _ => Err(Fault::PrimitiveTypeMismatch),
        },
        Immediate::Pointer(_) => match src {
            Immediate::Pointer(_) => Ok(src),
            _ => Err(Fault::PrimitiveTypeMismatch),
        },
        Immediate::PointerConst(_) => match src {
            Immediate::Pointer(_) | Immediate::PointerConst(_) => Ok(src),
            _ => Err(Fault::PrimitiveTypeMismatch),
        },
        _ => Err(Fault::PrimitiveTypeMismatch),
    }
}

/// The machine: program counter, data stack, registers, memory, flags, the
/// running flag, and the type registry with the objects it describes.
pub struct VirtualMachine {
    program_counter: usize,
    memory: Memory,
    registers: Registers,
    stack: Vec<Immediate>,
    flags: Flags,
    cont: bool,
    types: TypeRegistry,
    objects: Vec<TypedObject>,
}

impl VirtualMachine {
    pub closed spec fn pc(&self) -> usize {
        self.program_counter
    }

    pub closed spec fn mem(&self) -> Memory {
        self.memory
    }

    pub closed spec fn regs(&self) -> Registers {
        self.registers
    }

    pub closed spec fn stack(&self) -> Seq<Immediate> {
        self.stack@
    }

    pub closed spec fn flag_state(&self) -> Flags {
        self.flags
    }

    pub closed spec fn running(&self) -> bool {
        self.cont
    }

    pub closed spec fn registry(&self) -> TypeRegistry {
        self.types
    }

    pub closed spec fn objects(&self) -> Seq<TypedObject> {
        self.objects@
    }

    pub open spec fn wf(&self) -> bool {
        &&& self.mem().wf()
        &&& self.regs().wf()
        &&& self.registry().wf()
    }

    /// What operand `lit` reads when the data stack is `stack`.
    pub open spec fn operand_with(&self, stack: Seq<Immediate>, lit: Literal) -> Result<Immediate, Fault> {
        match lit {
            Literal::Variable(name) => self.mem().spec_get(name),
            Literal::Register(b, n) => match self.regs().slot(b, n as int) {
                Some(v) => Ok(v),
                None => Err(Fault::InvalidRegister),
            },
            Literal::Immediate(v) => Ok(v),
            Literal::Peak => if stack.len() > 0 {
                Ok(stack.last())
            } else {
                Err(Fault::SegmentationFault)
            },
        }
    }

    /// What operand `lit` reads.
    pub open spec fn operand(&self, lit: Literal) -> Result<Immediate, Fault> {
        self.operand_with(self.stack(), lit)
    }

    /// Only the data stack and the program counter differ.
    pub open spec fn same_but_stack_pc(s: VirtualMachine, t: VirtualMachine) -> bool {
        &&& t.mem() == s.mem()
        &&& t.regs() == s.regs()
        &&& t.flag_state() == s.flag_state()
        &&& t.running() == s.running()
        &&& t.registry() == s.registry()
        &&& t.objects() == s.objects()
    }

    /// How writing `v` through the operand `lit` turns `s`, whose data stack
    /// is taken to be `stack`, into `t`, with result `r`; the program
    /// counter is not part of it.
    pub open spec fn store_effect(
        s: VirtualMachine,
        stack: Seq<Immediate>,
        t: VirtualMachine,
        lit: Literal,
        v: Immediate,
        r: Result<(), Fault>,
    ) -> bool {
        &&& t.flag_state() == s.flag_state()
        &&& t.running() == s.running()
        &&& t.registry() == s.registry()
        &&& t.objects() == s.objects()
        &&& match lit {
            Literal::Variable(name) => match s.mem().spec_address_of(name) {
                Ok(a) => Memory::write_effect(s.mem(), t.mem(), a, v, r) && t.stack() == stack
                    && t.regs() == s.regs(),
                Err(e) => r == Err::<(), Fault>(e),
            },
            Literal::Register(b, n) => if n < REGISTER_COUNT {
                &&& r == Ok::<(), Fault>(())
                &&& t.regs().bank(b) == s.regs().bank(b).update(n as int, Some(v))
                &&& forall|o: RegisterType| o != b ==> #[trigger] t.regs().bank(o) == s.regs().bank(o)
                &&& t.stack() == stack
                &&& t.mem() == s.mem()
            } else {
                r == Err::<(), Fault>(Fault::InvalidRegister)
            },
            Literal::Immediate(_) => r == Err::<(), Fault>(Fault::InvalidAddressOfLocation(lit)),
            Literal::Peak => if stack.len() > 0 {
                &&& r == Ok::<(), Fault>(())
                &&& t.stack() == stack.update(stack.len() - 1, v)
                &&& t.mem() == s.mem()
                &&& t.regs() == s.regs()
            } else {
                r == Err::<(), Fault>(Fault::SegmentationFault)
            },
        }
    }

    /// `t` is `s` with `v` pushed on the popped stack `stack` and the program
    /// counter advanced.
    pub open spec fn pushed(s: VirtualMachine, stack: Seq<Immediate>, t: VirtualMachine, v: Immediate) -> bool {
        &&& t.stack() == stack.push(v)
        &&& t.pc() == s.pc() + 1
        &&& VirtualMachine::same_but_stack_pc(s, t)
    }

    /// The effect of one instruction: `s` becomes `t` with result `r`. On a
    /// fault only the fault is given: the run ends there.
    pub open spec fn step_effect(s: VirtualMachine, ins: Instruction, t: VirtualMachine, r: Result<
        (),
        Fault,
    >) -> bool {
        let st = s.stack();
        let n = st.len();
        let popped = st.drop_last();
        let ok = r == Ok::<(), Fault>(());
        &&& t.wf()
        &&& match ins {
            Instruction::PushVal(v) => ok && VirtualMachine::pushed(s, st, t, v),
            Instruction::Pop => if n == 0 {
                r == Err::<(), Fault>(Fault::SegmentationFault)
            } else {
                ok && t.stack() == popped && t.pc() == s.pc() + 1
                    && VirtualMachine::same_but_stack_pc(s, t)
            },
            Instruction::PopTo(dest) => if n == 0 {
                r == Err::<(), Fault>(Fault::SegmentationFault)
            } else {
                VirtualMachine::store_effect(s, popped, t, dest, st.last(), r) && (ok ==> t.pc()
                    == s.pc() + 1)
            },
            Instruction::Ret(value) => if n == 0 {
                r == Err::<(), Fault>(Fault::SegmentationFault)
            } else {
                match st.last() {
                    Immediate::USize(addr) => match value {
                        None => ok && t.stack() == popped && t.pc() == addr
                            && VirtualMachine::same_but_stack_pc(s, t),
                        Some(lit) => match s.operand_with(popped, lit) {
                            Ok(v) => ok && t.stack() == popped.push(v) && t.pc() == addr
                                && VirtualMachine::same_but_stack_pc(s, t),
                            Err(e) => r == Err::<(), Fault>(e),
                        },
                    },
                    _ => r == Err::<(), Fault>(Fault::InvalidReturn),
                }
            },
            Instruction::Jump(target) => ok && t.stack() == st && t.pc() == target
                && VirtualMachine::same_but_stack_pc(s, t),
            Instruction::Compare(op) => if n < 2 {
                r == Err::<(), Fault>(Fault::SegmentationFault)
            } else {
                match comparison_result(op, st[n - 1], st[n - 2]) {
                    Ok(v) => {
                        &&& ok
                        &&& t.stack() == st.subrange(0, n - 2).push(v)
                        &&& t.pc() == s.pc() + 1
                        &&& t.flag_state() == flags_for_result(s.flag_state(), v)
                        &&& t.mem() == s.mem() && t.regs() == s.regs() && t.running()
                            == s.running() && t.registry() == s.registry() && t.objects()
                            == s.objects()
                    },
                    Err(e) => r == Err::<(), Fault>(e),
                }
            },
            Instruction::PerformOperation(op) => if n < 2 {
                r == Err::<(), Fault>(Fault::SegmentationFault)
            } else {
                match operation_result(op, st[n - 1], st[n - 2]) {
                    Ok((v, c)) => {
                        &&& ok
                        &&& t.stack() == st.subrange(0, n - 2).push(v)
                        &&& t.pc() == s.pc() + 1
                        &&& t.flag_state() == flags_after_operation(
                            op,
                            s.flag_state(),
                            st[n - 1],
                            st[n - 2],
                            v,
                            c,
                        )
                        &&& t.mem() == s.mem() && t.regs() == s.regs() && t.running()
                            == s.running() && t.registry() == s.registry() && t.objects()
                            == s.objects()
                    },
                    Err(e) => r == Err::<(), Fault>(e),
                }
            },
            Instruction::ConditionalJump(kind, target) => if n == 0 {
                r == Err::<(), Fault>(Fault::SegmentationFault)
            } else {
                ok && t.stack() == popped && t.pc() == (if jump_condition(kind, s.flag_state()) {
                    target as int
                } else {
                    s.pc() + 1
                }) && VirtualMachine::same_but_stack_pc(s, t)
            },
            Instruction::AddressOf(lit) => match lit {
                Literal::Variable(name) => match s.mem().spec_address_of(name) {
                    Ok(a) => ok && VirtualMachine::pushed(s, st, t, Immediate::Pointer(a)),
                    Err(e) => r == Err::<(), Fault>(e),
                },
                _ => r == Err::<(), Fault>(Fault::InvalidAddressOfLocation(lit)),
            },
            Instruction::Dereference => if n == 0 {
                r == Err::<(), Fault>(Fault::SegmentationFault)
            } else {
                match st.last() {
                    Immediate::Pointer(a) | Immediate::PointerConst(a) => match s.mem().spec_read(a) {
                        Ok(v) => ok && VirtualMachine::pushed(s, popped, t, v),
                        Err(e) => r == Err::<(), Fault>(e),
                    },
                    _ => r == Err::<(), Fault>(Fault::PrimitiveTypeMismatch),
                }
            },
            Instruction::Call(target) => ok && t.stack() == st.push(Immediate::USize((s.pc() + 1) as usize))
                && t.pc() == target && VirtualMachine::same_but_stack_pc(s, t),
            Instruction::Throw(_) => r == Err::<(), Fault>(Fault::Unsupported),
            Instruction::Catch => ok && t.stack() == st && t.pc() == s.pc() + 1
                && VirtualMachine::same_but_stack_pc(s, t),
            Instruction::Push { src } => match s.operand(src) {
                Ok(v) => ok && VirtualMachine::pushed(s, st, t, v),
                Err(e) => r == Err::<(), Fault>(e),
            },
            Instruction::Move { dest, src } => match s.operand(src) {
                Ok(v) => VirtualMachine::store_effect(s, st, t, dest, v, r) && (ok ==> t.pc() == s.pc()
                    + 1),
                Err(e) => r == Err::<(), Fault>(e),
            },
            Instruction::Nop => ok && t.stack() == st && t.pc() == s.pc() + 1
                && VirtualMachine::same_but_stack_pc(s, t),
            Instruction::Halt => {
                &&& ok
                &&& t.stack() == st
                &&& t.pc() == s.pc() + 1
                &&& !t.running()
                &&& t.mem() == s.mem() && t.regs() == s.regs() && t.flag_state() == s.flag_state()
                    && t.registry() == s.registry() && t.objects() == s.objects()
            },
            Instruction::DeclareVar(name, scope) => {
                &&& Memory::declare_effect(s.mem(), t.mem(), name, scope, r)
                &&& ok ==> t.stack() == st && t.pc() == s.pc() + 1 && t.regs() == s.regs()
                    && t.flag_state() == s.flag_state() && t.running() == s.running()
                    && t.registry() == s.registry() && t.objects() == s.objects()
            },
            Instruction::GetVar(name) => match s.mem().spec_get(name) {
                Ok(v) => ok && VirtualMachine::pushed(s, st, t, v),
                Err(e) => r == Err::<(), Fault>(e),
            },
            Instruction::SaveVar(name) => if n == 0 {
                r == Err::<(), Fault>(Fault::SegmentationFault)
            } else {
                &&& Memory::set_effect(s.mem(), t.mem(), name, st.last(), r)
                &&& ok ==> t.stack() == popped && t.pc() == s.pc() + 1 && t.regs() == s.regs()
                    && t.flag_state() == s.flag_state() && t.running() == s.running()
                    && t.registry() == s.registry() && t.objects() == s.objects()
            },
            Instruction::Coerce { dest_type } => if n == 0 {
                r == Err::<(), Fault>(Fault::SegmentationFault)
            } else {
                match coerce_result(dest_type, st.last()) {
                    Ok(v) => ok && VirtualMachine::pushed(s, popped, t, v),
                    Err(e) => r == Err::<(), Fault>(e),
                }
            },
            Instruction::CallFunction(_) => r == Err::<(), Fault>(Fault::Unsupported),
            Instruction::GetMember(_, _) => r == Err::<(), Fault>(Fault::Unsupported),
            Instruction::BuildVariant { dest_variant: _ } => r == Err::<(), Fault>(
                Fault::Unsupported,
            ),
            Instruction::GetField(lit, id) => match s.operand(lit) {
                Ok(Immediate::DetailedType(h)) => if h < s.objects().len()
                    && s.objects()[h as int].descriptor() < s.registry().view().len() {
                    match object_field(
                        s.registry().view()[s.objects()[h as int].descriptor() as int].identifier@,
                        s.objects()[h as int].self_variant(),
                        s.objects()[h as int].parent_variants(),
                        id@,
                    ) {
                        Some(v) => ok && VirtualMachine::pushed(s, st, t, v),
                        None => r == Err::<(), Fault>(Fault::InvalidField),
                    }
                } else {
                    r == Err::<(), Fault>(Fault::SegmentationFault)
                },
                Ok(_) => r == Err::<(), Fault>(Fault::PrimitiveTypeMismatch),
                Err(e) => r == Err::<(), Fault>(e),
            },
            Instruction::Enter => {
                &&& ok
                &&& t.mem().frames() == s.mem().frames().push(s.mem().top())
                &&& t.mem().arena() == s.mem().arena() && t.mem().statics() == s.mem().statics()
                    && t.mem().free_list() == s.mem().free_list() && t.mem().heap()
                    == s.mem().heap()
                &&& t.stack() == st && t.pc() == s.pc() + 1 && t.regs() == s.regs()
                    && t.flag_state() == s.flag_state() && t.running() == s.running()
                    && t.registry() == s.registry() && t.objects() == s.objects()
            },
            Instruction::Lower => {
                &&& ok
                &&& t.mem().frames() == s.mem().frames().push(Seq::empty())
                &&& t.mem().arena() == s.mem().arena() && t.mem().statics() == s.mem().statics()
                    && t.mem().free_list() == s.mem().free_list() && t.mem().heap()
                    == s.mem().heap()
                &&& t.stack() == st && t.pc() == s.pc() + 1 && t.regs() == s.regs()
                    && t.flag_state() == s.flag_state() && t.running() == s.running()
                    && t.registry() == s.registry() && t.objects() == s.objects()
            },
            Instruction::Exit => if s.mem().frames().len() < 2 {
                r == Err::<(), Fault>(Fault::SegmentationFault)
            } else {
                &&& ok
                &&& t.mem().frames() == s.mem().frames().drop_last()
                &&& t.mem().arena() == s.mem().arena() && t.mem().statics() == s.mem().statics()
                    && t.mem().free_list() == s.mem().free_list() && t.mem().heap()
                    == s.mem().heap()
                &&& t.stack() == st && t.pc() == s.pc() + 1 && t.regs() == s.regs()
                    && t.flag_state() == s.flag_state() && t.running() == s.running()
                    && t.registry() == s.registry() && t.objects() == s.objects()
            },
            Instruction::Heapify => if n == 0 {
                r == Err::<(), Fault>(Fault::SegmentationFault)
            } else {
                &&& ok
                &&& t.mem().heap() == s.mem().heap().push(st.last())
                &&& t.mem().frames() == s.mem().frames() && t.mem().arena() == s.mem().arena()
                    && t.mem().statics() == s.mem().statics() && t.mem().free_list()
                    == s.mem().free_list()
                &&& t.stack() == popped.push(
                    Immediate::Pointer(Address::Heap(s.mem().heap().len() as usize)),
                )
                &&& t.pc() == s.pc() + 1
                &&& t.regs() == s.regs() && t.flag_state() == s.flag_state() && t.running()
                    == s.running() && t.registry() == s.registry() && t.objects() == s.objects()
            },
        }
    }
}

/// A run of `instructions`: each state but the last is running, fetches an
/// instruction inside the program, and steps without a fault to the next.
pub open spec fn is_run(instructions: Seq<Instruction>, trace: Seq<VirtualMachine>) -> bool {
    &&& trace.len() >= 1
    &&& forall|i: int|
        0 <= i < trace.len() - 1 ==> {
            &&& (#[trigger] trace[i]).running()
            &&& trace[i].pc() < instructions.len()
            &&& VirtualMachine::step_effect(
                trace[i],
                instructions[trace[i].pc() as int],
                trace[i + 1],
                Ok(()),
            )
        }
}

/// `s0` is `s` made ready to run from `start`: flags clear, running.
pub open spec fn is_start(s: VirtualMachine, s0: VirtualMachine, start: usize) -> bool {
    &&& s0.pc() == start
    &&& s0.running()
    &&& s0.flag_state() == Flags::cleared()
    &&& s0.stack() == s.stack()
    &&& s0.mem() == s.mem()
    &&& s0.regs() == s.regs()
    &&& s0.registry() == s.registry()
    &&& s0.objects() == s.objects()
}

/// How a run that reached `last` after `steps` of its `max_steps` steps
/// ends, with the result `r` and final state `t`: a halted run pops its exit
/// code, which must be a 32-bit integer; a running one that has spent its
/// budget stops with `StepLimitExceeded`; otherwise it faults on a fetch
/// outside the program or on the step that faults.
pub open spec fn run_outcome(
    instructions: Seq<Instruction>,
    last: VirtualMachine,
    t: VirtualMachine,
    r: Result<u32, Fault>,
    steps: int,
    max_steps: int,
) -> bool {
    if !last.running() {
        if last.stack().len() == 0 {
            r == Err::<u32, Fault>(Fault::SegmentationFault)
        } else {
            match last.stack().last() {
                Immediate::U32(v) => r == Ok::<u32, Fault>(v) && t.stack() == last.stack().drop_last(),
                _ => r == Err::<u32, Fault>(Fault::PrimitiveTypeMismatch),
            }
        }
    } else if steps >= max_steps {
        r == Err::<u32, Fault>(Fault::StepLimitExceeded)
    } else if last.pc() >= instructions.len() {
        r == Err::<u32, Fault>(Fault::SegmentationFault)
    } else {
        exists|e: Fault|
            r == Err::<u32, Fault>(e) && VirtualMachine::step_effect(
                last,
                instructions[last.pc() as int],
                t,
                Err(e),
            )
    }
}

/// Running `instructions` from `start` on `s` with at most `max_steps`
/// steps gives `r` and leaves `t`.
pub open spec fn executes(
    s: VirtualMachine,
    instructions: Seq<Instruction>,
    start: usize,
    max_steps: int,
    t: VirtualMachine,
    r: Result<u32, Fault>,
) -> bool {
    exists|trace: Seq<VirtualMachine>|
        #[trigger] is_run(instructions, trace) && trace.len() <= max_steps + 1 && is_start(
            s,
            trace[0],
            start,
        ) && run_outcome(instructions, trace.last(), t, r, trace.len() - 1, max_steps)
}

/// Declaring a local inside a block opened by `Enter` and closing the block
/// leaves exactly the frames that were there before `Enter`; inside the
/// block the enclosing bindings are visible.
pub proof fn lemma_enter_declare_exit(
    s0: VirtualMachine,
    s1: VirtualMachine,
    s2: VirtualMachine,
    s3: VirtualMachine,
    name: String,
)
    requires
        s0.wf(),
        VirtualMachine::step_effect(s0, Instruction::Enter, s1, Ok(())),
        VirtualMachine::step_effect(s1, Instruction::DeclareVar(name, Scope::Local), s2, Ok(())),
        VirtualMachine::step_effect(s2, Instruction::Exit, s3, Ok(())),
    ensures
        forall|n: Seq<char>| #[trigger] s1.mem().local_slot(n) == s0.mem().local_slot(n),
        s3.mem().frames() == s0.mem().frames(),
        forall|n: Seq<char>| #[trigger] s3.mem().local_slot(n) == s0.mem().local_slot(n),
{
    assert(s1.mem().top() == s0.mem().top());
    assert(s2.mem().frames().drop_last() == s0.mem().frames());
    assert(s3.mem().frames() =~= s0.mem().frames());
}

/// A block opened by `Lower` sees no local of its caller; a local declared
/// in it is gone once the block is closed, and the caller's frames are as
/// they were.
pub proof fn lemma_lower_declare_exit(
    s0: VirtualMachine,
    s1: VirtualMachine,
    s2: VirtualMachine,
    s3: VirtualMachine,
    name: String,
)
    requires
        s0.wf(),
        VirtualMachine::step_effect(s0, Instruction::Lower, s1, Ok(())),
        VirtualMachine::step_effect(s1, Instruction::DeclareVar(name, Scope::Local), s2, Ok(())),
        VirtualMachine::step_effect(s2, Instruction::Exit, s3, Ok(())),
    ensures
        forall|n: Seq<char>| #[trigger] s1.mem().local_slot(n) is None,
        s2.mem().local_slot(name@) is Some,
        s3.mem().frames() == s0.mem().frames(),
        forall|n: Seq<char>| #[trigger] s3.mem().local_slot(n) == s0.mem().local_slot(n),
{
    assert(s1.mem().top() == Seq::<(String, usize)>::empty());
    assert(s2.mem().frames().drop_last() == s0.mem().frames());
    assert(s3.mem().frames() =~= s0.mem().frames());
}

/// The path of the marker trait that allows typed objects to be copied.
pub open spec fn copy_trait_path() -> Seq<Seq<char>> {
    seq![seq!['C', 'o', 'p', 'y']]
}

/// The path of the marker trait that allows typed objects to be copied.
pub fn copy_marker_trait() -> (r: FullIdentifier)
    ensures
        r@ == copy_trait_path(),
{
    let name = String::from_str("Copy");
    proof {
        reveal_strlit("Copy");
        assert(name@ =~= seq!['C', 'o', 'p', 'y']);
        assert(char_fits(name@, 0) && char_fits(name@, 1) && char_fits(name@, 2) && char_fits(
            name@,
            3,
        ));
        assert(is_valid_name(name@));
    }
    let r = FullIdentifier::Name(Identifier::from_valid(name));
    assert(r@ =~= copy_trait_path());
    r
}

/// What copying `src` into `dest` gives on machine `vm`: values of one tag
/// copy, a mutable pointer may be copied into an immutable one; a typed
/// object copies only when its type is an instance of the destination's type
/// and the destination's type implements the copy marker trait.
pub open spec fn copy_result(vm: VirtualMachine, dest: Immediate, src: Immediate) -> Result<(), Fault> {
    match (dest, src) {
        (Immediate::DetailedType(d), Immediate::DetailedType(h)) => {
            if h < vm.objects().len() && d < vm.objects().len() && vm.objects()[h as int].descriptor()
                < vm.registry().view().len() && vm.objects()[d as int].descriptor()
                < vm.registry().view().len() {
                let sd = vm.objects()[h as int].descriptor() as int;
                let dd = vm.objects()[d as int].descriptor() as int;
                if descends_from(vm.registry().view(), sd, vm.registry().view()[dd].identifier@, false)
                    && descends_from(vm.registry().view(), dd, copy_trait_path(), true) {
                    Ok(())
                } else {
                    Err(Fault::TypeMismatch)
                }
            } else {
                Err(Fault::TypeMismatch)
            }
        },
        (Immediate::PointerConst(_), Immediate::Pointer(_)) => Ok(()),
        _ => if dest.same_tag(src) && !(dest is Variant) && !(dest is Function) {
            Ok(())
        } else {
            Err(Fault::PrimitiveTypeMismatch)
        },
    }
}

/// What the destination holds after a copy: the source, except that a
/// mutable pointer copied into an immutable one stays immutable.
pub open spec fn copied_value(dest: Immediate, src: Immediate) -> Immediate {
    match (dest, src) {
        (Immediate::PointerConst(_), Immediate::Pointer(a)) => Immediate::PointerConst(a),
        _ => src,
    }
}

impl Literal {
    /// Copies the value this operand reads into `destination`, as
    /// `copy_result` allows; on a fault `destination` is left as it was.
    pub fn copy_immediate(&self, virtual_machine: &VirtualMachine, destination: &mut Immediate) -> (r:
        Result<(), Fault>)
        requires
            virtual_machine.wf(),
        ensures
            match virtual_machine.operand(*self) {
                Err(e) => r == Err::<(), Fault>(e) && *final(destination) == *old(destination),
                Ok(src) => r == copy_result(*virtual_machine, *old(destination), src) && (r is Ok
                    ==> *final(destination) == copied_value(*old(destination), src)) && (r is Err
                    ==> *final(destination) == *old(destination)),
            },
    {
        let src = virtual_machine.read_operand(self)?;
        match (*destination, src) {
            (Immediate::DetailedType(d), Immediate::DetailedType(h)) => {
                let vm = virtual_machine;
                if !(h < vm.objects.len() && d < vm.objects.len() && vm.objects[h].get_descriptor()
                    < vm.types.len() && vm.objects[d].get_descriptor() < vm.types.len()) {
                    return Err(Fault::TypeMismatch);
                }
                let sd = vm.objects[h].get_descriptor();
                let dd = vm.objects[d].get_descriptor();
                let dest_type = &vm.types.get(dd).identifier;
                if !vm.types.is_instance_of(sd, dest_type) {
                    return Err(Fault::TypeMismatch);
                }
                let marker = copy_marker_trait();
                if !vm.types.implements_trait(dd, &marker) {
                    return Err(Fault::TypeMismatch);
                }
            },
            (Immediate::PointerConst(_), Immediate::Pointer(a)) => {
                *destination = Immediate::PointerConst(a);
                return Ok(());
            },
            (dest, _) => {
                if !dest.has_same_tag(&src) || matches!(dest, Immediate::Variant(_))
                    || matches!(dest, Immediate::Function(_)) {
                    return Err(Fault::PrimitiveTypeMismatch);
                }
            },
        }
        *destination = src;
        Ok(())
    }

    /// The value this operand reads: a variable, a register, the constant
    /// itself, or the top of the stack.
    pub fn get_immediate(&self, virtual_machine: &VirtualMachine) -> (r: Result<Immediate, Fault>)
        requires
            virtual_machine.wf(),
        ensures
            r == virtual_machine.operand(*self),
    {
        virtual_machine.read_operand(self)
    }
}

impl VirtualMachine {
    /// A machine as `new` makes it.
    pub open spec fn is_fresh(r: VirtualMachine) -> bool {
        &&& VirtualMachine::is_blank(r)
        &&& r.registry().view().len() == 0
        &&& r.objects().len() == 0
    }

    /// Empty memory and stack, zeroed registers, clear flags, running from
    /// the first instruction; the types and objects are not constrained.
    pub open spec fn is_blank(r: VirtualMachine) -> bool {
        &&& r.wf()
        &&& r.pc() == 0
        &&& r.stack().len() == 0
        &&& r.running()
        &&& r.flag_state() == Flags::cleared()
        &&& r.mem().frames() == seq![Seq::<(String, usize)>::empty()]
        &&& r.mem().arena().len() == 0
        &&& r.mem().statics().len() == 0
        &&& r.mem().heap().len() == 0
        &&& r.mem().free_list().len() == 0
        &&& forall|i: int|
            0 <= i < REGISTER_COUNT ==> #[trigger] r.regs().slot(RegisterType::Caller, i) == Some(
                Immediate::USize(0),
            ) && r.regs().slot(RegisterType::Callee, i) == Some(Immediate::USize(0))
    }

    /// A machine with empty memory, zeroed registers, an empty stack, clear
    /// flags and no types.
    pub fn new() -> (r: VirtualMachine)
        ensures
            VirtualMachine::is_fresh(r),
    {
        VirtualMachine {
            program_counter: 0,
            memory: Memory::new(),
            registers: Registers::new(),
            stack: Vec::new(),
            flags: Flags::new(),
            cont: true,
            types: TypeRegistry::new(),
            objects: Vec::new(),
        }
    }

    /// A fresh machine that knows the given types and objects.
    pub fn with_types(types: TypeRegistry, objects: Vec<TypedObject>) -> (r: VirtualMachine)
        requires
            types.wf(),
        ensures
            VirtualMachine::is_blank(r),
            r.registry() == types,
            r.objects() == objects@,
    {
        let mut vm = VirtualMachine::new();
        vm.types = types;
        vm.objects = objects;
        vm
    }

    /// What slot `reg` of bank `reg_type` holds.
    pub fn get_register(&self, reg_type: RegisterType, reg: usize) -> (r: Option<Immediate>)
        ensures
            r == self.regs().slot(reg_type, reg as int),
    {
        self.registers.get(reg_type, reg)
    }

    pub fn program_counter(&self) -> (r: usize)
        ensures
            r == self.pc(),
    {
        self.program_counter
    }

    /// The data stack, bottom first.
    pub fn stack_values(&self) -> (r: &Vec<Immediate>)
        ensures
            r@ == self.stack(),
    {
        &self.stack
    }

    pub fn get_flags(&self) -> (r: Flags)
        ensures
            r == self.flag_state(),
    {
        self.flags
    }

    /// Replaces the flags.
    pub fn set_flags(&mut self, flags: Flags)
        ensures
            final(self).flag_state() == flags,
            final(self).stack() == old(self).stack(),
            final(self).pc() == old(self).pc(),
            final(self).mem() == old(self).mem(),
            final(self).regs() == old(self).regs(),
            final(self).running() == old(self).running(),
            final(self).registry() == old(self).registry(),
            final(self).objects() == old(self).objects(),
    {
        self.flags = flags;
    }

    pub fn get_memory(&self) -> (r: &Memory)
        ensures
            *r == self.mem(),
    {
        &self.memory
    }

    fn pop(&mut self) -> (r: Result<Immediate, Fault>)
        ensures
            old(self).stack().len() == 0 ==> r == Err::<Immediate, Fault>(Fault::SegmentationFault)
                && final(self).stack() == old(self).stack() && final(self).pc() == old(self).pc()
                && VirtualMachine::same_but_stack_pc(*old(self), *final(self)),
            old(self).stack().len() > 0 ==> r == Ok::<Immediate, Fault>(old(self).stack().last())
                && final(self).stack() == old(self).stack().drop_last() && final(self).pc()
                == old(self).pc() && VirtualMachine::same_but_stack_pc(*old(self), *final(self)),
    {
        match self.stack.pop() {
            Some(v) => Ok(v),
            None => Err(Fault::SegmentationFault),
        }
    }

    fn read_operand(&self, lit: &Literal) -> (r: Result<Immediate, Fault>)
        requires
            self.wf(),
        ensures
            r == self.operand(*lit),
    {
        match lit {
            Literal::Variable(name) => self.memory.get_variable(name),
            Literal::Register(b, n) => match self.registers.get(*b, *n as usize) {
                Some(v) => Ok(v),
                None => Err(Fault::InvalidRegister),
            },
            Literal::Immediate(v) => Ok(*v),
            Literal::Peak => {
                let n = self.stack.len();
                if n > 0 {
                    Ok(self.stack[n - 1])
                } else {
                    Err(Fault::SegmentationFault)
                }
            },
        }
    }

    /// Writes `v` through the operand `lit`.
    fn store(&mut self, lit: &Literal, v: Immediate) -> (r: Result<(), Fault>)
        requires
            old(self).wf(),
        ensures
            final(self).wf(),
            final(self).pc() == old(self).pc(),
            VirtualMachine::store_effect(*old(self), old(self).stack(), *final(self), *lit, v, r),
    {
        match lit {
            Literal::Variable(name) => {
                let a = match self.memory.address_of(name) {
                    Ok(a) => a,
                    Err(e) => {
                        return Err(e);
                    },
                };
                self.memory.write(a, v)
            },
            Literal::Register(b, n) => self.registers.set(*b, *n as usize, v),
            Literal::Immediate(_) => Err(Fault::InvalidAddressOfLocation(lit.duplicate())),
            Literal::Peak => {
                let n = self.stack.len();
                if n > 0 {
                    self.stack[n - 1] = v;
                    Ok(())
                } else {
                    Err(Fault::SegmentationFault)
                }
            },
        }
    }

    fn get_field_of(&self, lit: &Literal, id: &FullIdentifier) -> (r: Result<Immediate, Fault>)
        requires
            self.wf(),
        ensures
            r == match self.operand(*lit) {
                Ok(Immediate::DetailedType(h)) => if h < self.objects().len()
                    && self.objects()[h as int].descriptor() < self.registry().view().len() {
                    match object_field(
                        self.registry().view()[self.objects()[h as int].descriptor() as int].identifier@,
                        self.objects()[h as int].self_variant(),
                        self.objects()[h as int].parent_variants(),
                        id@,
                    ) {
                        Some(v) => Ok(v),
                        None => Err(Fault::InvalidField),
                    }
                } else {
                    Err(Fault::SegmentationFault)
                },
                Ok(_) => Err(Fault::PrimitiveTypeMismatch),
                Err(e) => Err(e),
            },
    {
        match self.read_operand(lit) {
            Ok(Immediate::DetailedType(h)) => {
                if h < self.objects.len() && self.objects[h].get_descriptor() < self.types.len() {
                    self.objects[h].get_field(&self.types, id)
                } else {
                    Err(Fault::SegmentationFault)
                }
            },
            Ok(_) => Err(Fault::PrimitiveTypeMismatch),
            Err(e) => Err(e),
        }
    }

    /// Executes one instruction.
    #[verifier::rlimit(100)]
    #[verifier::spinoff_prover]
    pub fn run_instruction(&mut self, instruction: &Instruction) -> (r: Result<(), Fault>)
        requires
            old(self).wf(),
            old(self).pc() < usize::MAX,
        ensures
            VirtualMachine::step_effect(*old(self), *instruction, *final(self), r),
    {
        let next = self.program_counter + 1;
        match instruction {
            Instruction::PushVal(v) => {
                self.stack.push(*v);
            },
            Instruction::Pop => {
                self.pop()?;
            },
            Instruction::PopTo(dest) => {
                let v = self.pop()?;
                self.store(dest, v)?;
            },
            Instruction::Ret(value) => {
                let ret = self.pop()?;
                let addr = match ret {
                    Immediate::USize(a) => a,
                    _ => {
                        return Err(Fault::InvalidReturn);
                    },
                };
                match value {
                    None => {},
                    Some(lit) => {
                        let v = self.read_operand(lit)?;
                        self.stack.push(v);
                    },
                }
                self.program_counter = addr;
                return Ok(());
            },
            Instruction::Jump(target) => {
                self.program_counter = *target;
                return Ok(());
            },
            Instruction::Compare(op) => {
                let val1 = self.pop()?;
                let val2 = self.pop()?;
                let v = op.perform_op(&mut self.flags, val1, val2)?;
                self.stack.push(v);
                proof {
                    let n = old(self).stack().len();
                    assert(old(self).stack().drop_last().drop_last() =~= old(self).stack().subrange(
                        0,
                        n - 2,
                    ));
                }
            },
            Instruction::PerformOperation(op) => {
                let val1 = self.pop()?;
                let val2 = self.pop()?;
                let v = op.perform_op(&mut self.flags, val1, val2)?;
                self.stack.push(v);
                proof {
                    let n = old(self).stack().len();
                    assert(old(self).stack().drop_last().drop_last() =~= old(self).stack().subrange(
                        0,
                        n - 2,
                    ));
                }
            },
            Instruction::ConditionalJump(kind, target) => {
                self.pop()?;
                if kind.holds(&self.flags) {
                    self.program_counter = *target;
                    return Ok(());
                }
            },
            Instruction::AddressOf(lit) => {
                match lit {
                    Literal::Variable(name) => {
                        let a = self.memory.address_of(name)?;
                        self.stack.push(Immediate::Pointer(a));
                    },
                    _ => {
                        return Err(Fault::InvalidAddressOfLocation(lit.duplicate()));
                    },
                }
            },
            Instruction::Dereference => {
                let p = self.pop()?;
                let a = match p {
                    Immediate::Pointer(a) => a,
                    Immediate::PointerConst(a) => a,
                    _ => {
                        return Err(Fault::PrimitiveTypeMismatch);
                    },
                };
                let v = self.memory.read(a)?;
                self.stack.push(v);
            },
            Instruction::Call(target) => {
                self.stack.push(Immediate::USize(next));
                self.program_counter = *target;
                return Ok(());
            },
            Instruction::Throw(_) => {
                return Err(Fault::Unsupported);
            },
            Instruction::Catch => {},
            Instruction::Push { src } => {
                let v = self.read_operand(src)?;
                self.stack.push(v);
            },
            Instruction::Move { dest, src } => {
                let v = self.read_operand(src)?;
                self.store(dest, v)?;
            },
            Instruction::Nop => {},
            Instruction::Halt => {
                self.cont = false;
            },
            Instruction::DeclareVar(name, scope) => {
                self.memory.declare_variable(name, scope)?;
            },
            Instruction::GetVar(name) => {
                let v = self.memory.get_variable(name)?;
                self.stack.push(v);
            },
            Instruction::SaveVar(name) => {
                let v = self.pop()?;
                self.memory.set_variable(name, v)?;
            },
            Instruction::Coerce { dest_type } => {
                let src = self.pop()?;
                let v = coerce(dest_type, src)?;
                self.stack.push(v);
            },
            Instruction::CallFunction(_) => {
                return Err(Fault::Unsupported);
            },
            Instruction::GetMember(_, _) => {
                return Err(Fault::Unsupported);
            },
            Instruction::BuildVariant { dest_variant: _ } => {
                return Err(Fault::Unsupported);
            },
            Instruction::GetField(lit, id) => {
                let v = self.get_field_of(lit, id)?;
                self.stack.push(v);
            },
            Instruction::Enter => {
                self.memory.new_lower_scope();
            },
            Instruction::Lower => {
                self.memory.new_local_scope();
            },
            Instruction::Exit => {
                if self.memory.frame_count() < 2 {
                    return Err(Fault::SegmentationFault);
                }
                self.memory.exit_local_scope();
            },
            Instruction::Heapify => {
                let v = self.pop()?;
                let a = self.memory.heapify(v);
                self.stack.push(Immediate::Pointer(a));
            },
        }
        self.program_counter = next;
        Ok(())
    }

    /// Runs `instructions` from `start` until `Halt`, a fault, or
    /// `max_steps` steps, and gives the exit code popped from the stack.
    /// The machine's memory, registers and stack carry over from earlier
    /// runs; its flags are cleared first.
    pub fn execute_with_limit(
        &mut self,
        instructions: Vec<Instruction>,
        start: usize,
        max_steps: u64,
    ) -> (r: Result<u32, Fault>)
        requires
            old(self).wf(),
        ensures
            final(self).wf(),
            executes(*old(self), instructions@, start, max_steps as int, *final(self), r),
    {
        self.flags.reset();
        self.program_counter = start;
        self.cont = true;
        let ghost s0 = *self;
        let ghost mut trace: Seq<VirtualMachine> = seq![*self];
        let mut fuel = max_steps;
        while self.cont
            invariant
                self.wf(),
                is_run(instructions@, trace),
                trace.last() == *self,
                is_start(*old(self), trace[0], start),
                fuel as int == max_steps - (trace.len() - 1),
            decreases fuel,
        {
            if fuel == 0 {
                assert(run_outcome(instructions@, trace.last(), *self, Err(Fault::StepLimitExceeded), trace.len() - 1, max_steps as int));
                return Err(Fault::StepLimitExceeded);
            }
            fuel = fuel - 1;
            let pc = self.program_counter;
            if pc >= instructions.len() {
                assert(run_outcome(instructions@, trace.last(), *self, Err(Fault::SegmentationFault), trace.len() - 1, max_steps as int));
                return Err(Fault::SegmentationFault);
            }
            let ghost before = *self;
            match self.run_instruction(&instructions[pc]) {
                Ok(()) => {},
                Err(e) => {
                    assert(VirtualMachine::step_effect(before, instructions@[pc as int], *self, Err(e)));
                    assert(run_outcome(instructions@, trace.last(), *self, Err(e), trace.len() - 1, max_steps as int));
                    return Err(e);
                },
            }
            proof {
                let old_trace = trace;
                trace = trace.push(*self);
                assert forall|i: int| 0 <= i < trace.len() - 1 implies {
                    &&& (#[trigger] trace[i]).running()
                    &&& trace[i].pc() < instructions@.len()
                    &&& VirtualMachine::step_effect(
                        trace[i],
                        instructions@[trace[i].pc() as int],
                        trace[i + 1],
                        Ok(()),
                    )
                } by {
                    if i < old_trace.len() - 1 {
                        assert(trace[i] == old_trace[i] && trace[i + 1] == old_trace[i + 1]);
                    } else {
                        assert(trace[i] == before);
                    }
                }
            }
        }
        let ghost last = *self;
        let top = match self.pop() {
            Ok(v) => v,
            Err(e) => {
                assert(run_outcome(instructions@, last, *self, Err(e), trace.len() - 1, max_steps as int));
                return Err(e);
            },
        };
        match top {
            Immediate::U32(exit) => {
                assert(run_outcome(instructions@, last, *self, Ok(exit), trace.len() - 1, max_steps as int));
                Ok(exit)
            },
            _ => {
                assert(run_outcome(instructions@, last, *self, Err(Fault::PrimitiveTypeMismatch), trace.len() - 1, max_steps as int));
                Err(Fault::PrimitiveTypeMismatch)
            },
        }
    }

    /// Runs `instructions` from `start`, with as many steps as a `u64`
    /// counts.
    pub fn execute(&mut self, instructions: Vec<Instruction>, start: usize) -> (r: Result<u32, Fault>)
        requires
            old(self).wf(),
        ensures
            final(self).wf(),
            executes(*old(self), instructions@, start, u64::MAX as int, *final(self), r),
    {
        self.execute_with_limit(instructions, start, u64::MAX)
    }

    /// Runs `instructions` from `start` on a fresh machine.
    pub fn headless_execute(instructions: Vec<Instruction>, start: usize) -> (r: Result<u32, Fault>)
        ensures
            exists|s: VirtualMachine, t: VirtualMachine|
                VirtualMachine::is_fresh(s) && executes(s, instructions@, start, u64::MAX as int, t, r),
    {
        let mut vm = VirtualMachine::new();
        let ghost s = vm;
        let r = vm.execute(instructions, start);
        assert(executes(s, instructions@, start, u64::MAX as int, vm, r));
        r
    }

}

} // verus!
