use virtual_machine::immediate::{Address, Immediate};
use virtual_machine::instruction_set::{Instruction, Literal};
use virtual_machine::resolution::{FullIdentifier, Identifier};
use virtual_machine::types::{TupleMember, TypeDescriptor, TypeRegistry, TypedObject, Variant};
use virtual_machine::vm::{copy_marker_trait, Fault, VirtualMachine};

fn id(s: &str) -> Identifier {
    Identifier::new(s.to_string()).unwrap()
}

fn path(names: &[&str]) -> FullIdentifier {
    FullIdentifier::from_names(names.iter().map(|n| id(n)).collect())
}

fn descriptor(names: &[&str], is_trait: bool, parents: Vec<usize>) -> TypeDescriptor {
    TypeDescriptor {
        identifier: path(names),
        is_trait,
        is_struct: !is_trait,
        is_enum: false,
        is_call: false,
        v_tables: vec![],
        parents,
        parent_data: vec![],
    }
}

#[test]
fn instance_of_chain() {
    let mut reg = TypeRegistry::new();
    let a = reg.register(descriptor(&["A"], false, vec![])).unwrap();
    let b = reg.register(descriptor(&["B"], false, vec![a])).unwrap();
    let c = reg.register(descriptor(&["C"], false, vec![b])).unwrap();
    let d = reg.register(descriptor(&["D"], false, vec![])).unwrap();
    assert!(reg.is_instance_of(a, &path(&["A"])));
    assert!(reg.is_instance_of(c, &path(&["C"])));
    assert!(reg.is_instance_of(c, &path(&["A"])));
    assert!(reg.is_instance_of(c, &path(&["B"])));
    assert!(!reg.is_instance_of(d, &path(&["A"])));
    assert!(!reg.is_instance_of(a, &path(&["C"])));
    assert_eq!(reg.len(), 4);
}

#[test]
fn register_refuses_unknown_parent() {
    let mut reg = TypeRegistry::new();
    assert_eq!(reg.register(descriptor(&["A"], false, vec![0])), None);
    assert_eq!(reg.len(), 0);
}

#[test]
fn traits_through_parents() {
    let mut reg = TypeRegistry::new();
    let t = reg.register(descriptor(&["std", "Hash"], true, vec![])).unwrap();
    let s = reg.register(descriptor(&["std", "Hash"], false, vec![])).unwrap();
    let x = reg.register(descriptor(&["X"], false, vec![s, t])).unwrap();
    assert!(reg.implements_trait(x, &path(&["std", "Hash"])));
    assert!(!reg.implements_trait(s, &path(&["std", "Hash"])));
    assert!(reg.is_instance_of(s, &path(&["std", "Hash"])));
}

fn object_registry() -> TypeRegistry {
    let mut reg = TypeRegistry::new();
    reg.register(descriptor(&["Base"], false, vec![])).unwrap();
    reg.register(descriptor(&["Thing"], false, vec![0])).unwrap();
    reg
}

#[test]
fn get_field_paths() {
    let reg = object_registry();
    let own = Variant::Structure {
        order: vec![id("Thing"), id("y")],
        fields: vec![(id("Thing"), Immediate::U8(1)), (id("y"), Immediate::U16(2))],
    };
    let base = Variant::Structure { order: vec![id("x")], fields: vec![(id("x"), Immediate::U32(3))] };
    let obj = TypedObject::new(own, vec![(path(&["Base"]), base)], 1);
    assert!(matches!(obj.get_field(&reg, &path(&["y"])), Ok(Immediate::U16(2))));
    assert!(matches!(obj.get_field(&reg, &path(&["Thing"])), Ok(Immediate::U8(1))));
    assert!(matches!(obj.get_field(&reg, &path(&["Base", "x"])), Ok(Immediate::U32(3))));
    assert!(matches!(obj.get_field(&reg, &path(&["Base", "z"])), Err(Fault::InvalidField)));
    assert!(matches!(obj.get_field(&reg, &path(&["Other", "x"])), Err(Fault::InvalidField)));
    assert!(matches!(obj.get_field(&reg, &path(&["z"])), Err(Fault::InvalidField)));
}

#[test]
fn tuple_members() {
    let reg = object_registry();
    let obj = TypedObject::new(Variant::Tuple(vec![Immediate::U8(5), Immediate::U8(6)]), vec![], 1);
    assert!(matches!(obj.get_field(&reg, &path(&["_1"])), Ok(Immediate::U8(6))));
    assert!(matches!(obj.get_field(&reg, &path(&["_0"])), Ok(Immediate::U8(5))));
    assert!(matches!(obj.get_field(&reg, &path(&["_2"])), Err(Fault::InvalidField)));
    assert!(matches!(obj.get_field(&reg, &path(&["x"])), Err(Fault::InvalidField)));
    assert_eq!(TupleMember.unsimplified(&id("_12")), Some(12));
    assert_eq!(TupleMember.unsimplified(&id("_")), None);
    assert_eq!(TupleMember.unsimplified(&id("a1")), None);
    let empty = TypedObject::new(Variant::Empty, vec![], 0);
    assert!(matches!(empty.get_field(&reg, &path(&["_0"])), Err(Fault::InvalidField)));
}

#[test]
fn typed_copy_gate() {
    let mut reg = TypeRegistry::new();
    let copy = reg.register(TypeDescriptor { identifier: copy_marker_trait(), ..descriptor(&["Copy"], true, vec![]) }).unwrap();
    let a = reg.register(descriptor(&["A"], false, vec![copy])).unwrap();
    let c = reg.register(descriptor(&["C"], false, vec![a])).unwrap();
    let plain = reg.register(descriptor(&["P"], false, vec![])).unwrap();
    let objects = vec![
        TypedObject::new(Variant::Empty, vec![], c),
        TypedObject::new(Variant::Empty, vec![], a),
        TypedObject::new(Variant::Empty, vec![], plain),
    ];
    let vm = VirtualMachine::with_types(reg, objects);
    let mut dest = Immediate::DetailedType(1);
    assert!(Literal::Immediate(Immediate::DetailedType(0)).copy_immediate(&vm, &mut dest).is_ok());
    assert!(matches!(dest, Immediate::DetailedType(0)));
    let mut dest = Immediate::DetailedType(0);
    assert!(matches!(Literal::Immediate(Immediate::DetailedType(1)).copy_immediate(&vm, &mut dest), Err(Fault::TypeMismatch)));
    assert!(matches!(dest, Immediate::DetailedType(0)));
    let mut dest = Immediate::DetailedType(2);
    assert!(matches!(Literal::Immediate(Immediate::DetailedType(2)).copy_immediate(&vm, &mut dest), Err(Fault::TypeMismatch)));
    let mut dest = Immediate::U8(0);
    assert!(matches!(Literal::Immediate(Immediate::U16(1)).copy_immediate(&vm, &mut dest), Err(Fault::PrimitiveTypeMismatch)));
    assert!(Literal::Immediate(Immediate::U8(4)).copy_immediate(&vm, &mut dest).is_ok());
    assert!(matches!(dest, Immediate::U8(4)));
}

#[test]
fn get_field_instruction() {
    let reg = object_registry();
    let own = Variant::Tuple(vec![Immediate::U64(42)]);
    let mut vm = VirtualMachine::with_types(reg, vec![TypedObject::new(own, vec![], 1)]);
    vm.run_instruction(&Instruction::GetField(Literal::Immediate(Immediate::DetailedType(0)), path(&["_0"]))).unwrap();
    assert!(matches!(vm.stack_values().last(), Some(Immediate::U64(42))));
    assert!(matches!(vm.run_instruction(&Instruction::GetField(Literal::Immediate(Immediate::DetailedType(3)), path(&["_0"]))), Err(Fault::SegmentationFault)));
    assert!(matches!(vm.run_instruction(&Instruction::GetField(Literal::Immediate(Immediate::U8(0)), path(&["_0"]))), Err(Fault::PrimitiveTypeMismatch)));
}

#[test]
fn parent_variant_lookup() {
    let base = Variant::Tuple(vec![Immediate::U8(9)]);
    let obj = TypedObject::new(Variant::Empty, vec![(path(&["Base"]), base)], 0);
    assert!(matches!(obj.get_parent_variant(&path(&["Base"])), Some(Variant::Tuple(v)) if v.len() == 1));
    assert!(obj.get_parent_variant(&path(&["Other"])).is_none());
    assert!(matches!(obj.get_self_variant(), Variant::Empty));
    assert_eq!(obj.get_descriptor(), 0);
}

#[test]
fn pointer_copy_keeps_constness() {

    let vm = VirtualMachine::new();
    let mut dest = Immediate::PointerConst(Address::Heap(0));
    assert!(Literal::Immediate(Immediate::Pointer(Address::Slot(3))).copy_immediate(&vm, &mut dest).is_ok());
    assert!(matches!(dest, Immediate::PointerConst(Address::Slot(3))));
    let mut dest = Immediate::Pointer(Address::Heap(0));
    assert!(matches!(Literal::Immediate(Immediate::PointerConst(Address::Slot(3))).copy_immediate(&vm, &mut dest), Err(Fault::PrimitiveTypeMismatch)));
}

#[test]
fn set_field_paths() {
    let reg = object_registry();
    let own = Variant::Structure { order: vec![id("y")], fields: vec![(id("y"), Immediate::U16(2))] };
    let base = Variant::Tuple(vec![Immediate::U8(0), Immediate::U8(1)]);
    let mut obj = TypedObject::new(own, vec![(path(&["Base"]), base)], 1);
    assert!(obj.set_field(&reg, &path(&["y"]), Immediate::U16(7)).is_ok());
    assert!(matches!(obj.get_field(&reg, &path(&["y"])), Ok(Immediate::U16(7))));
    assert!(obj.set_field(&reg, &path(&["Base", "_1"]), Immediate::U8(9)).is_ok());
    assert!(matches!(obj.get_field(&reg, &path(&["Base", "_1"])), Ok(Immediate::U8(9))));
    assert!(matches!(obj.get_field(&reg, &path(&["Base", "_0"])), Ok(Immediate::U8(0))));
    assert!(matches!(obj.set_field(&reg, &path(&["Base", "_2"]), Immediate::U8(1)), Err(Fault::InvalidField)));
    assert!(matches!(obj.set_field(&reg, &path(&["z"]), Immediate::U8(1)), Err(Fault::InvalidField)));
}
