use virtual_machine::flags::Flags;
use virtual_machine::immediate::{Address, Immediate};
use virtual_machine::instruction_set::RegisterType::{Callee, Caller};
use virtual_machine::instruction_set::Instruction::{
    AddressOf, Call, Coerce, ConditionalJump, DeclareVar, Dereference, Enter, Exit, GetVar, Halt,
    Heapify, Jump, Lower, Move, Nop, PerformOperation, Pop, PopTo, Push, PushVal, Ret, SaveVar,
    Throw,
};
use virtual_machine::instruction_set::{Instruction, JumpType, Literal, Operation};
use virtual_machine::memory::Memory;
use virtual_machine::memory::Scope::{Global, Local};
use virtual_machine::vm::{Fault, VirtualMachine};

fn fib(n: usize) -> u32 {
    match n {
        0 | 1 => n as u32,
        _ => fib(n - 1) + fib(n - 2),
    }
}

#[test]
fn fib_test() {
    for n in 0..16 {
        let instructions = vec![
            Enter,
            DeclareVar("n".to_string(), Local),
            Push { src: Literal::Register(Callee, 0) },
            SaveVar("n".to_string()),
            PushVal(Immediate::USize(2)),
            GetVar("n".to_string()),
            PerformOperation(Operation::Subtract),
            ConditionalJump(JumpType::Below, 41 - 13),
            Push { src: Literal::Register(Callee, 0) },
            PushVal(Immediate::USize(2)),
            GetVar("n".to_string()),
            PerformOperation(Operation::Subtract),
            PopTo(Literal::Register(Callee, 0)),
            Push { src: Literal::Register(Callee, 1) },
            Call(0),
            PopTo(Literal::Register(Callee, 1)),
            PushVal(Immediate::USize(1)),
            GetVar("n".to_string()),
            PerformOperation(Operation::Subtract),
            PopTo(Literal::Register(Callee, 0)),
            Call(0),
            Push { src: Literal::Register(Callee, 1) },
            PerformOperation(Operation::Add),
            PopTo(Literal::Register(Caller, 0)),
            PopTo(Literal::Register(Callee, 1)),
            PopTo(Literal::Register(Callee, 0)),
            Exit,
            Ret(Some(Literal::Register(Caller, 0))),
            Exit,
            Move { dest: Literal::Register(Caller, 0), src: Literal::Register(Callee, 0) },
            Ret(Some(Literal::Register(Caller, 0))),
            Nop,
            Nop,
            Nop,
            Nop,
            Move { dest: Literal::Register(Callee, 0), src: Literal::Immediate(Immediate::USize(n)) },
            Call(0),
            Coerce { dest_type: Immediate::U32(0) },
            Halt,
        ];

        let result = VirtualMachine::headless_execute(instructions, 46 - 13);
        println!("Result = {:?}", result);
        assert_eq!(result.unwrap(), fib(n));
    }
}

fn flags(carry: bool, zero: bool, sign: bool, overflow: bool) -> Flags {
    let mut f = Flags::new();
    f.carry = carry;
    f.zero = zero;
    f.sign = sign;
    f.overflow = overflow;
    f
}

fn taken(kind: JumpType, f: Flags) -> bool {
    let mut vm = VirtualMachine::new();
    vm.run_instruction(&PushVal(Immediate::U8(0))).unwrap();
    vm.set_flags(f);
    vm.run_instruction(&ConditionalJump(kind, 100)).unwrap();
    assert!(vm.stack_values().is_empty());
    match vm.program_counter() {
        100 => true,
        2 => false,
        other => panic!("unexpected program counter {}", other),
    }
}

#[test]
fn conditional_jump_truth_table() {
    for carry in [false, true] {
        for zero in [false, true] {
            for sign in [false, true] {
                for overflow in [false, true] {
                    let f = flags(carry, zero, sign, overflow);
                    assert_eq!(taken(JumpType::Zero, f), zero);
                    assert_eq!(taken(JumpType::Equal, f), zero);
                    assert_eq!(taken(JumpType::NotZero, f), !zero);
                    assert_eq!(taken(JumpType::NotEqual, f), !zero);
                    assert_eq!(taken(JumpType::Greater, f), zero == sign && !zero);
                    assert_eq!(taken(JumpType::GreaterEqual, f), zero == sign || zero);
                    assert_eq!(taken(JumpType::Above, f), !carry && !zero);
                    assert_eq!(taken(JumpType::AboveEqual, f), !carry || zero);
                    assert_eq!(taken(JumpType::Lesser, f), sign != zero);
                    assert_eq!(taken(JumpType::LessEqual, f), sign != zero || zero);
                    assert_eq!(taken(JumpType::Below, f), carry);
                    assert_eq!(taken(JumpType::BelowEqual, f), carry || zero);
                    assert_eq!(taken(JumpType::Overflow, f), overflow);
                    assert_eq!(taken(JumpType::NotOverflow, f), !overflow);
                    assert_eq!(taken(JumpType::Signed, f), sign);
                    assert_eq!(taken(JumpType::NotSigned, f), !sign);
                }
            }
        }
    }
}

#[test]
fn above_needs_carry_and_zero_clear() {
    assert!(JumpType::Above.holds(&flags(false, false, false, false)));
    assert!(!JumpType::Above.holds(&flags(true, false, false, false)));
    assert!(!JumpType::Above.holds(&flags(false, true, false, false)));
}

fn run_all(vm: &mut VirtualMachine, program: &[Instruction]) -> Result<(), Fault> {
    for ins in program {
        vm.run_instruction(ins)?;
    }
    Ok(())
}

#[test]
fn enter_inherits_and_exit_restores() {
    let mut vm = VirtualMachine::new();
    run_all(
        &mut vm,
        &[
            DeclareVar("outer".to_string(), Local),
            PushVal(Immediate::U8(1)),
            SaveVar("outer".to_string()),
            Enter,
            GetVar("outer".to_string()),
            DeclareVar("inner".to_string(), Local),
            PushVal(Immediate::U8(2)),
            SaveVar("inner".to_string()),
            GetVar("inner".to_string()),
            Exit,
        ],
    )
    .unwrap();
    assert!(matches!(vm.stack_values()[..], [Immediate::U8(1), Immediate::U8(2)]));
    assert!(matches!(vm.run_instruction(&GetVar("inner".to_string())), Err(Fault::NotAVariable(n)) if n == "inner"));
    assert!(vm.run_instruction(&GetVar("outer".to_string())).is_ok());
    assert_eq!(vm.get_memory().frame_count(), 1);
}

#[test]
fn lower_isolates_and_exit_restores() {
    let mut vm = VirtualMachine::new();
    run_all(
        &mut vm,
        &[
            DeclareVar("outer".to_string(), Local),
            PushVal(Immediate::U8(1)),
            SaveVar("outer".to_string()),
            Lower,
        ],
    )
    .unwrap();
    assert!(matches!(vm.run_instruction(&GetVar("outer".to_string())), Err(Fault::NotAVariable(_))));
    run_all(&mut vm, &[DeclareVar("inner".to_string(), Local), Exit]).unwrap();
    assert!(matches!(vm.run_instruction(&GetVar("inner".to_string())), Err(Fault::NotAVariable(_))));
    vm.run_instruction(&GetVar("outer".to_string())).unwrap();
    assert!(matches!(vm.stack_values().last(), Some(Immediate::U8(1))));
}

#[test]
fn statics_and_locals() {
    let mut vm = VirtualMachine::new();
    run_all(&mut vm, &[DeclareVar("g".to_string(), Global), PushVal(Immediate::U16(9)), SaveVar("g".to_string()), Lower, GetVar("g".to_string())]).unwrap();
    assert!(matches!(vm.stack_values().last(), Some(Immediate::U16(9))));
    assert!(matches!(vm.run_instruction(&DeclareVar("g".to_string(), Global)), Err(Fault::AlreadyDeclared(n)) if n == "g"));
    vm.run_instruction(&DeclareVar("u".to_string(), Local)).unwrap();
    assert!(matches!(vm.run_instruction(&GetVar("u".to_string())), Err(Fault::SegmentationFault)));
    assert!(matches!(vm.run_instruction(&SaveVar("nothing".to_string())), Err(Fault::NotAVariable(_))));
}

#[test]
fn collector_frees_unreferenced_slots() {
    let mut m = Memory::new();
    m.declare_variable(&"kept".to_string(), &Local).unwrap();
    m.new_local_scope();
    for name in ["a", "b", "c"] {
        m.declare_variable(&name.to_string(), &Local).unwrap();
    }
    m.exit_local_scope();
    m.collect_garbage();
    assert_eq!(m.get_free_list(), &vec![1, 2, 3]);
    m.declare_variable(&"again".to_string(), &Local).unwrap();
    assert_eq!(m.get_free_list(), &vec![1, 2]);
    m.collect_garbage();
    assert_eq!(m.get_free_list(), &vec![1, 2]);
}

#[test]
fn collector_with_nothing_to_free() {
    let mut m = Memory::new();
    m.collect_garbage();
    assert!(m.get_free_list().is_empty());
    m.declare_variable(&"x".to_string(), &Local).unwrap();
    m.collect_garbage();
    assert!(m.get_free_list().is_empty());
}

#[test]
fn pointers_and_heap() {
    let mut vm = VirtualMachine::new();
    run_all(
        &mut vm,
        &[
            DeclareVar("v".to_string(), Local),
            PushVal(Immediate::U32(77)),
            SaveVar("v".to_string()),
            AddressOf(Literal::Variable("v".to_string())),
            Dereference,
            PushVal(Immediate::U64(5)),
            Heapify,
        ],
    )
    .unwrap();
    assert!(matches!(vm.stack_values()[..], [Immediate::U32(77), Immediate::Pointer(Address::Heap(0))]));
    vm.run_instruction(&Dereference).unwrap();
    assert!(matches!(vm.stack_values().last(), Some(Immediate::U64(5))));
    assert!(matches!(vm.run_instruction(&AddressOf(Literal::Immediate(Immediate::U8(1)))), Err(Fault::InvalidAddressOfLocation(_))));
    vm.run_instruction(&PushVal(Immediate::Pointer(Address::Slot(40)))).unwrap();
    assert!(matches!(vm.run_instruction(&Dereference), Err(Fault::SegmentationFault)));
    vm.run_instruction(&PushVal(Immediate::U8(1))).unwrap();
    assert!(matches!(vm.run_instruction(&Dereference), Err(Fault::PrimitiveTypeMismatch)));
}

#[test]
fn faults_of_the_engine() {
    assert!(matches!(VirtualMachine::headless_execute(vec![Pop], 0), Err(Fault::SegmentationFault)));
    assert!(matches!(VirtualMachine::headless_execute(vec![Nop], 0), Err(Fault::SegmentationFault)));
    assert!(matches!(VirtualMachine::headless_execute(vec![PushVal(Immediate::U8(1)), Ret(None)], 0), Err(Fault::InvalidReturn)));
    assert!(matches!(VirtualMachine::headless_execute(vec![PushVal(Immediate::U8(1)), Halt], 0), Err(Fault::PrimitiveTypeMismatch)));
    assert!(matches!(VirtualMachine::headless_execute(vec![Halt], 0), Err(Fault::SegmentationFault)));
    assert!(matches!(VirtualMachine::headless_execute(vec![PushVal(Immediate::U32(3)), Halt], 0), Ok(3)));
    assert!(matches!(VirtualMachine::headless_execute(vec![Throw(Immediate::U8(0))], 0), Err(Fault::Unsupported)));
    assert!(matches!(VirtualMachine::headless_execute(vec![Push { src: Literal::Register(Caller, 9) }], 0), Err(Fault::InvalidRegister)));
    assert!(matches!(VirtualMachine::headless_execute(vec![PushVal(Immediate::U8(1)), PopTo(Literal::Immediate(Immediate::U8(0)))], 0), Err(Fault::InvalidAddressOfLocation(_))));
    assert!(matches!(VirtualMachine::headless_execute(vec![Exit], 0), Err(Fault::SegmentationFault)));
    let mut vm = VirtualMachine::new();
    assert!(matches!(vm.execute_with_limit(vec![Jump(0)], 0, 10), Err(Fault::StepLimitExceeded)));
}

#[test]
fn coerce_and_registers() {
    let mut vm = VirtualMachine::new();
    assert!(matches!(vm.get_register(Caller, 3), Some(Immediate::USize(0))));
    assert!(vm.get_register(Callee, 8).is_none());
    run_all(&mut vm, &[PushVal(Immediate::U64(0x1_0000_0005)), Coerce { dest_type: Immediate::U32(0) }, PopTo(Literal::Register(Caller, 2))]).unwrap();
    assert!(matches!(vm.get_register(Caller, 2), Some(Immediate::U32(5))));
    vm.run_instruction(&PushVal(Immediate::Char('x'))).unwrap();
    assert!(matches!(vm.run_instruction(&Coerce { dest_type: Immediate::Pointer(Address::Heap(0)) }), Err(Fault::PrimitiveTypeMismatch)));
    vm.run_instruction(&PushVal(Immediate::U8(65))).unwrap();
    vm.run_instruction(&Coerce { dest_type: Immediate::Char(' ') }).unwrap();
    assert!(matches!(vm.stack_values().last(), Some(Immediate::Char('A'))));
}
