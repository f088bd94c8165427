use virtual_machine::flags::Flags;
use virtual_machine::immediate::Immediate;
use virtual_machine::instruction_set::{ComparisonOperation, Operation};
use virtual_machine::vm::Fault;

fn run(op: Operation, a: Immediate, b: Immediate) -> (Result<Immediate, Fault>, Flags) {
    let mut flags = Flags::new();
    let r = op.perform_op(&mut flags, a, b);
    (r, flags)
}

#[test]
fn add_matches_overflowing_add() {
    for a in [0u8, 1, 100, 127, 128, 200, 255] {
        for b in [0u8, 1, 27, 128, 255] {
            let (r, flags) = run(Operation::Add, Immediate::U8(a), Immediate::U8(b));
            let (v, c) = a.overflowing_add(b);
            assert!(matches!(r, Ok(Immediate::U8(x)) if x == v));
            assert_eq!(flags.carry, c);
            assert_eq!(flags.zero, v == 0);
            assert_eq!(flags.sign, v & 0x80 == 0);
            assert_eq!(flags.parity, v.count_ones() % 2 == 0);
        }
    }
}

#[test]
fn sub_mul_div_rem_match_overflowing() {
    for a in [0u16, 1, 300, 65535] {
        for b in [1u16, 2, 301, 65535] {
            let (r, f) = run(Operation::Subtract, Immediate::U16(a), Immediate::U16(b));
            assert!(matches!(r, Ok(Immediate::U16(x)) if x == a.overflowing_sub(b).0));
            assert_eq!(f.carry, a.overflowing_sub(b).1);
            assert!(!f.overflow);
            let (r, f) = run(Operation::Multiply, Immediate::U16(a), Immediate::U16(b));
            assert!(matches!(r, Ok(Immediate::U16(x)) if x == a.overflowing_mul(b).0));
            assert_eq!(f.carry, a.overflowing_mul(b).1);
            let (r, f) = run(Operation::Divide, Immediate::U16(a), Immediate::U16(b));
            assert!(matches!(r, Ok(Immediate::U16(x)) if x == a / b));
            assert!(!f.carry);
            let (r, _) = run(Operation::Remainder, Immediate::U16(a), Immediate::U16(b));
            assert!(matches!(r, Ok(Immediate::U16(x)) if x == a % b));
        }
    }
}

#[test]
fn wide_and_pointer_sized_arithmetic() {
    let (r, f) = run(Operation::Add, Immediate::U64(u64::MAX), Immediate::U64(2));
    assert!(matches!(r, Ok(Immediate::U64(1))));
    assert!(f.carry);
    let (r, f) = run(Operation::Subtract, Immediate::USize(5), Immediate::USize(2));
    assert!(matches!(r, Ok(Immediate::USize(3))));
    assert!(!f.carry);
    let (r, _) = run(Operation::Multiply, Immediate::U32(0x1_0000), Immediate::U32(0x1_0000));
    assert!(matches!(r, Ok(Immediate::U32(0))));
}

#[test]
fn signed_overflow_boundaries() {
    // 127 + 1 leaves the positive range.
    let (r, f) = run(Operation::Add, Immediate::U8(127), Immediate::U8(1));
    assert!(matches!(r, Ok(Immediate::U8(128))));
    assert!(f.overflow);
    assert!(!f.carry);
    // -128 + -1 leaves the negative range.
    let (r, f) = run(Operation::Add, Immediate::U8(0x80), Immediate::U8(0xff));
    assert!(matches!(r, Ok(Immediate::U8(127))));
    assert!(f.overflow);
    assert!(f.carry);
    // -128 + -128 wraps to zero.
    let (_, f) = run(Operation::Add, Immediate::U8(0x80), Immediate::U8(0x80));
    assert!(f.overflow);
    assert!(f.zero);
    // Mixed signs never overflow.
    let (_, f) = run(Operation::Add, Immediate::U8(127), Immediate::U8(0xff));
    assert!(!f.overflow);
    let (_, f) = run(Operation::Add, Immediate::U8(0), Immediate::U8(0));
    assert!(!f.overflow);
}

#[test]
fn overflow_flag_only_from_add() {
    let mut flags = Flags::new();
    flags.overflow = true;
    let r = Operation::Subtract.perform_op(&mut flags, Immediate::U8(1), Immediate::U8(2));
    assert!(matches!(r, Ok(Immediate::U8(255))));
    assert!(flags.overflow);
    assert!(flags.carry);
}

#[test]
fn bitwise_operations() {
    let (r, f) = run(Operation::And, Immediate::U8(0b1100), Immediate::U8(0b1010));
    assert!(matches!(r, Ok(Immediate::U8(0b1000))));
    assert!(!f.carry);
    let (r, _) = run(Operation::Or, Immediate::U32(0b1100), Immediate::U32(0b1010));
    assert!(matches!(r, Ok(Immediate::U32(0b1110))));
    let (r, f) = run(Operation::Xor, Immediate::U16(7), Immediate::U16(7));
    assert!(matches!(r, Ok(Immediate::U16(0))));
    assert!(f.zero);
}

#[test]
fn operation_faults() {
    let (r, f) = run(Operation::Add, Immediate::U8(1), Immediate::U16(1));
    assert!(matches!(r, Err(Fault::PrimitiveTypeMismatch)));
    assert_eq!(f, Flags::new());
    let (r, _) = run(Operation::Divide, Immediate::U8(1), Immediate::U8(0));
    assert!(matches!(r, Err(Fault::DivideByZero)));
    let (r, _) = run(Operation::Remainder, Immediate::U64(1), Immediate::U64(0));
    assert!(matches!(r, Err(Fault::DivideByZero)));
    let (r, _) = run(Operation::Add, Immediate::Char('a'), Immediate::Char('b'));
    assert!(matches!(r, Err(Fault::PrimitiveTypeMismatch)));
}

#[test]
fn comparisons_use_inverted_booleans() {
    let mut f = Flags::new();
    let r = ComparisonOperation::LessThan.perform_op(&mut f, Immediate::U8(0xff), Immediate::U8(1));
    assert!(matches!(r, Ok(Immediate::U8(0))));
    assert!(f.zero);
    let r = ComparisonOperation::Below.perform_op(&mut f, Immediate::U8(0xff), Immediate::U8(1));
    assert!(matches!(r, Ok(Immediate::U8(0xff))));
    assert!(!f.zero);
    assert!(!f.sign);
    assert!(f.parity);
    let r = ComparisonOperation::GreaterThanEqual.perform_op(&mut f, Immediate::U32(5), Immediate::U32(5));
    assert!(matches!(r, Ok(Immediate::U8(0))));
    let r = ComparisonOperation::Above.perform_op(&mut f, Immediate::U16(0x8000), Immediate::U16(1));
    assert!(matches!(r, Ok(Immediate::U8(0))));
    let r = ComparisonOperation::GreaterThan.perform_op(&mut f, Immediate::U16(0x8000), Immediate::U16(1));
    assert!(matches!(r, Ok(Immediate::U8(0xff))));
    let r = ComparisonOperation::And.perform_op(&mut f, Immediate::U8(3), Immediate::U8(0));
    assert!(matches!(r, Ok(Immediate::U8(0xff))));
    let r = ComparisonOperation::Or.perform_op(&mut f, Immediate::U8(3), Immediate::U8(0));
    assert!(matches!(r, Ok(Immediate::U8(0))));
    let r = ComparisonOperation::Compare.perform_op(&mut f, Immediate::U8(3), Immediate::U8(5));
    assert!(matches!(r, Ok(Immediate::U8(254))));
    assert!(!f.sign);
    let r = ComparisonOperation::LessThan.perform_op(&mut f, Immediate::U8(1), Immediate::U64(2));
    assert!(matches!(r, Err(Fault::PrimitiveTypeMismatch)));
}

#[test]
fn byte_round_trip() {
    for v in [0u64, 1, 0x1234, 0xdead_beef, u64::MAX] {
        let i = Immediate::U64(v);
        let bytes = i.to_bytes();
        assert_eq!(bytes, v.to_be_bytes().to_vec());
        assert!(matches!(Immediate::from_bytes(&bytes), Ok(Immediate::U64(x)) if x == v));
    }
    let bytes = Immediate::U16(0x1234).to_bytes();
    assert_eq!(bytes, vec![0x12, 0x34]);
    assert!(matches!(Immediate::from_bytes(&bytes), Ok(Immediate::U16(0x1234))));
    let bytes = Immediate::U32(0x0102_0304).to_bytes();
    assert_eq!(bytes, vec![1, 2, 3, 4]);
    assert!(matches!(Immediate::from_bytes(&bytes), Ok(Immediate::U32(0x0102_0304))));
    assert!(matches!(Immediate::from_bytes(&[7u8]), Ok(Immediate::U8(7))));
    let bytes = Immediate::USize(0x0506).to_bytes();
    assert_eq!(bytes, vec![0, 0, 0, 0, 0, 0, 5, 6]);
    assert!(matches!(Immediate::from_bytes(&bytes), Ok(Immediate::U64(0x0506))));
    assert!(matches!(Immediate::from_bytes(&[1u8, 2, 3]), Err(Fault::InvalidMemorySize)));
}

#[test]
fn bit_queries() {
    assert_eq!(Immediate::U32(0xf0f0_0001).set_bits(), 9);
    assert_eq!(Immediate::U8(0).set_bits(), 0);
    assert_eq!(Immediate::U64(u64::MAX).set_bits(), 64);
    assert!(Immediate::U16(0x8000).msb());
    assert!(!Immediate::U16(0x7fff).msb());
    assert!(Immediate::U8(3).lsb());
    assert!(!Immediate::U64(2).lsb());
    assert!(Immediate::USize(0).is_zero());
    assert!(Immediate::Float(0x8000_0000).is_zero());
    assert!(!Immediate::Double(1).is_zero());
    assert!(Immediate::Char('\0').is_zero());
}

#[test]
fn conversions() {
    assert!(matches!(Immediate::U32(0x1234_5678).into_u8(), Immediate::U8(0x78)));
    assert!(matches!(Immediate::U8(200).into_u64(), Immediate::U64(200)));
    assert!(matches!(Immediate::Char('A').into_u16(), Immediate::U16(65)));
    assert!(matches!(Immediate::U8(66).into_char(), Immediate::Char('B')));
    assert!(matches!(Immediate::U16(0x1ff).into_size(1), Ok(Immediate::U8(0xff))));
    assert!(matches!(Immediate::U16(1).into_size(3), Err(Fault::InvalidMemorySize)));
    assert!(matches!(Immediate::Char('a').into_size(1), Err(Fault::PrimitiveTypeMismatch)));
    assert!(matches!(Immediate::bool_equivalent(true), Immediate::U8(0)));
    assert!(matches!(Immediate::bool_equivalent(false), Immediate::U8(255)));
}

#[test]
fn bit_reinterpretation_is_not_conversion() {
    let bits = 1.5f64.to_bits();
    assert!(matches!(Immediate::Double(bits).into_u64_no_coercion(), Immediate::U64(b) if b == bits));
    assert!(matches!(Immediate::U64(bits).into_double_no_coercion(), Immediate::Double(b) if b == bits));
    let fbits = 2.5f32.to_bits();
    assert!(matches!(Immediate::U32(fbits).into_float_no_coercion(), Immediate::Float(b) if b == fbits));
    assert!(matches!(Immediate::U8(3).into_double_no_coercion(), Immediate::Double(3)));
}

#[test]
fn checked_extraction() {
    assert!(matches!(Immediate::U16(0x1ff).try_into_u8(), Ok(0xff)));
    assert!(matches!(Immediate::U8(7).try_into_u64(), Ok(7)));
    assert!(matches!(Immediate::Char('a').try_into_u32(), Ok(97)));
    assert!(matches!(Immediate::U64(0x1_0001).try_into_u16(), Ok(1)));
    assert!(matches!(Immediate::Float(0).try_into_u8(), Err(Fault::PrimitiveTypeMismatch)));
    assert!(matches!(Immediate::Char('z').try_into_char(), Ok('z')));
    assert!(matches!(Immediate::U8(1).try_into_char(), Err(Fault::PrimitiveTypeMismatch)));
}
