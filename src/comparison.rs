//! Logical, relational and comparing operators, with flag updates.
use vstd::prelude::*;

use crate::arithmetic::{flags_for_result, operation_result};
use crate::flags::Flags;
use crate::immediate::Immediate;
use crate::instruction_set::{ComparisonOperation, Operation};
use crate::vm::Fault;

verus! {

/// Whether a relational operator holds of two integers of one tag: the
/// plain ones read both as two's complement, the `Above`/`Below` family as
/// unsigned.
pub open spec fn relation_holds(op: ComparisonOperation, a: Immediate, b: Immediate) -> bool {
    match op {
        ComparisonOperation::LessThan => a.signed_value() < b.signed_value(),
        ComparisonOperation::GreaterThan => a.signed_value() > b.signed_value(),
        ComparisonOperation::LessThanEqual => a.signed_value() <= b.signed_value(),
        ComparisonOperation::GreaterThanEqual => a.signed_value() >= b.signed_value(),
        ComparisonOperation::Above => a.value() > b.value(),
        ComparisonOperation::AboveEqual => a.value() >= b.value(),
        ComparisonOperation::Below => a.value() < b.value(),
        _ => a.value() <= b.value(),
    }
}

/// The value of `a op b`, or the fault it raises. Logical and relational
/// operators give the machine's boolean encoding; `Compare` gives the
/// wrapped difference.
pub open spec fn comparison_result(op: ComparisonOperation, a: Immediate, b: Immediate) -> Result<
    Immediate,
    Fault,
> {
    match op {
        ComparisonOperation::And => if a.is_numeric() && a.same_tag(b) {
            Ok(Immediate::spec_bool_equivalent(!(a.spec_is_zero() || b.spec_is_zero())))
        } else {
            Err(Fault::PrimitiveTypeMismatch)
        },
        ComparisonOperation::Or => if a.is_numeric() && a.same_tag(b) {
            Ok(Immediate::spec_bool_equivalent(!(a.spec_is_zero() && b.spec_is_zero())))
        } else {
            Err(Fault::PrimitiveTypeMismatch)
        },
        ComparisonOperation::Compare => match operation_result(Operation::Subtract, a, b) {
            Ok((v, _)) => Ok(v),
            Err(e) => Err(e),
        },
        _ => if a.is_integer() && a.same_tag(b) {
            Ok(Immediate::spec_bool_equivalent(relation_holds(op, a, b)))
        } else {
            Err(Fault::PrimitiveTypeMismatch)
        },
    }
}

/// Whether the two's-complement reading of `a` is below that of `b`, for
/// unsigned values below `m`.
fn signed_less(a: u128, b: u128, m: u128) -> (r: bool)
    requires
        a < m,
        b < m,
        m <= 0x1_0000_0000_0000_0000,
    ensures
        r == ((if 2 * a >= m {
            a - m
        } else {
            a as int
        }) < (if 2 * b >= m {
            b - m
        } else {
            b as int
        })),
{
    let a_negative = 2 * a >= m;
    let b_negative = 2 * b >= m;
    if a_negative != b_negative {
        a_negative
    } else {
        a < b
    }
}

impl ComparisonOperation {
    /// Applies the operator and, when it yields a value, sets zero, sign and
    /// parity from that value; the other flags, and all flags on a fault, are
    /// left as they were.
    pub fn perform_op(&self, flags: &mut Flags, val1: Immediate, val2: Immediate) -> (r: Result<
        Immediate,
        Fault,
    >)
        ensures
            r == comparison_result(*self, val1, val2),
            r matches Ok(v) ==> *final(flags) == flags_for_result(*old(flags), v),
            r is Err ==> *final(flags) == *old(flags),
    {
        let ret: Immediate = match self {
            ComparisonOperation::And | ComparisonOperation::Or => {
                if !val1.is_numeric_tag() || !val1.has_same_tag(&val2) {
                    return Err(Fault::PrimitiveTypeMismatch);
                }
                let z1 = val1.is_zero();
                let z2 = val2.is_zero();
                if let ComparisonOperation::And = self {
                    Immediate::bool_equivalent(!(z1 || z2))
                } else {
                    Immediate::bool_equivalent(!(z1 && z2))
                }
            },
            ComparisonOperation::Compare => {
                let mut scratch = *flags;
                match Operation::Subtract.perform_op(&mut scratch, val1, val2) {
                    Ok(v) => v,
                    Err(e) => {
                        return Err(e);
                    },
                }
            },
            _ => {
                if !val1.is_integer_tag() || !val1.has_same_tag(&val2) {
                    return Err(Fault::PrimitiveTypeMismatch);
                }
                let m = val1.modulus_of();
                let a = val1.raw_value() as u128;
                let b = val2.raw_value() as u128;
                let holds = match self {
                    ComparisonOperation::LessThan => signed_less(a, b, m),
                    ComparisonOperation::GreaterThan => signed_less(b, a, m),
                    ComparisonOperation::LessThanEqual => !signed_less(b, a, m),
                    ComparisonOperation::GreaterThanEqual => !signed_less(a, b, m),
                    ComparisonOperation::Above => a > b,
                    ComparisonOperation::AboveEqual => a >= b,
                    ComparisonOperation::Below => a < b,
                    _ => a <= b,
                };
                Immediate::bool_equivalent(holds)
            },
        };
        ret.set_result_flags(flags);
        Ok(ret)
    }
}

} // verus!
