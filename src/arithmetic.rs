//! Arithmetic and bitwise operators over same-tag integers, with flag updates.
use vstd::prelude::*;

use crate::flags::Flags;
use crate::immediate::{bytes_popcount, Immediate};
use crate::instruction_set::Operation;
use crate::vm::Fault;

verus! {

impl Operation {
    pub open spec fn is_bitwise(self) -> bool {
        self is And || self is Or || self is Xor
    }
}

/// The result of an arithmetic operator on unsigned values `a` and `b` of an
/// integer type with `m` values, with the overflow indication of the
/// matching `overflowing_*` operation; `None` on division by zero.
pub open spec fn arith_on(op: Operation, a: int, b: int, m: int) -> Option<(int, bool)> {
    match op {
        Operation::Add => Some(((a + b) % m, a + b >= m)),
        Operation::Subtract => Some(((a - b) % m, a < b)),
        Operation::Multiply => Some(((a * b) % m, a * b >= m)),
        Operation::Divide => if b == 0 {
            None
        } else {
            Some((a / b, false))
        },
        Operation::Remainder => if b == 0 {
            None
        } else {
            Some((a % b, false))
        },
        _ => None,
    }
}

/// A bitwise operator applied to two integers of the same tag.
pub open spec fn bitwise(op: Operation, x: Immediate, y: Immediate) -> Immediate {
    match (x, y) {
        (Immediate::U8(a), Immediate::U8(b)) => Immediate::U8(
            match op {
                Operation::And => a & b,
                Operation::Or => a | b,
                _ => a ^ b,
            },
        ),
        (Immediate::U16(a), Immediate::U16(b)) => Immediate::U16(
            match op {
                Operation::And => a & b,
                Operation::Or => a | b,
                _ => a ^ b,
            },
        ),
        (Immediate::U32(a), Immediate::U32(b)) => Immediate::U32(
            match op {
                Operation::And => a & b,
                Operation::Or => a | b,
                _ => a ^ b,
            },
        ),
        (Immediate::U64(a), Immediate::U64(b)) => Immediate::U64(
            match op {
                Operation::And => a & b,
                Operation::Or => a | b,
                _ => a ^ b,
            },
        ),
        (Immediate::USize(a), Immediate::USize(b)) => Immediate::USize(
            match op {
                Operation::And => a & b,
                Operation::Or => a | b,
                _ => a ^ b,
            },
        ),
        _ => x,
    }
}

/// The value of `a op b` and the carry it reports, or the fault it raises.
pub open spec fn operation_result(op: Operation, a: Immediate, b: Immediate) -> Result<
    (Immediate, bool),
    Fault,
> {
    if !(a.is_integer() && a.same_tag(b)) {
        Err(Fault::PrimitiveTypeMismatch)
    } else if op.is_bitwise() {
        Ok((bitwise(op, a, b), false))
    } else {
        match arith_on(op, a.value(), b.value(), a.modulus()) {
            Some((v, c)) => Ok((a.with_value(v), c)),
            None => Err(Fault::DivideByZero),
        }
    }
}

/// Signed overflow of an addition: both operands lie on one side of zero
/// and the result does not.
pub open spec fn add_overflow(a: Immediate, b: Immediate, r: Immediate) -> bool {
    ||| a.signed_value() > 0 && b.signed_value() > 0 && r.signed_value() <= 0
    ||| a.signed_value() < 0 && b.signed_value() < 0 && r.signed_value() >= 0
}

/// Zero, sign and parity describe `r`; the rest are as in `f`.
pub open spec fn flags_for_result(f: Flags, r: Immediate) -> Flags {
    Flags {
        zero: r.spec_is_zero(),
        sign: !r.spec_msb(),
        parity: bytes_popcount(r.bytes()) % 2 == 0,
        ..f
    }
}

/// The flags after `a op b` produced `r` with carry `carry`.
pub open spec fn flags_after_operation(
    op: Operation,
    f: Flags,
    a: Immediate,
    b: Immediate,
    r: Immediate,
    carry: bool,
) -> Flags {
    let g = flags_for_result(f, r);
    Flags {
        carry: if op.is_bitwise() {
            f.carry
        } else {
            carry
        },
        overflow: if op is Add {
            add_overflow(a, b, r)
        } else {
            f.overflow
        },
        ..g
    }
}

impl Immediate {
    /// The number of values of an integer tag.
    pub fn modulus_of(&self) -> (m: u128)
        requires
            self.is_integer(),
        ensures
            m as int == self.modulus(),
    {
        match self {
            Immediate::U8(_) => 0x100,
            Immediate::U16(_) => 0x1_0000,
            Immediate::U32(_) => 0x1_0000_0000,
            Immediate::U64(_) => 0x1_0000_0000_0000_0000,
            _ => usize::MAX as u128 + 1,
        }
    }

    /// The integer of this tag holding `v`.
    pub fn with_raw(&self, v: u64) -> (r: Immediate)
        requires
            self.is_integer(),
            (v as int) < self.modulus(),
        ensures
            r == self.with_value(v as int),
            r.value() == v as int,
            r.same_tag(*self),
    {
        match self {
            Immediate::U8(_) => Immediate::U8(v as u8),
            Immediate::U16(_) => Immediate::U16(v as u16),
            Immediate::U32(_) => Immediate::U32(v as u32),
            Immediate::U64(_) => Immediate::U64(v),
            _ => Immediate::USize(v as usize),
        }
    }
}

proof fn lemma_mod_in_range(x: int, q: int, m: int, r: int)
    requires
        m > 0,
        0 <= r < m,
        x == q * m + r,
    ensures
        x % m == r,
        x / m == q,
{
    vstd::arithmetic::div_mod::lemma_fundamental_div_mod_converse(x, m, q, r);
}

fn bitwise_exec(op: Operation, x: Immediate, y: Immediate) -> (r: Immediate)
    requires
        x.is_integer(),
        x.same_tag(y),
        op.is_bitwise(),
    ensures
        r == bitwise(op, x, y),
        r.same_tag(x),
{
    match (x, y) {
        (Immediate::U8(a), Immediate::U8(b)) => Immediate::U8(
            match op {
                Operation::And => a & b,
                Operation::Or => a | b,
                _ => a ^ b,
            },
        ),
        (Immediate::U16(a), Immediate::U16(b)) => Immediate::U16(
            match op {
                Operation::And => a & b,
                Operation::Or => a | b,
                _ => a ^ b,
            },
        ),
        (Immediate::U32(a), Immediate::U32(b)) => Immediate::U32(
            match op {
                Operation::And => a & b,
                Operation::Or => a | b,
                _ => a ^ b,
            },
        ),
        (Immediate::U64(a), Immediate::U64(b)) => Immediate::U64(
            match op {
                Operation::And => a & b,
                Operation::Or => a | b,
                _ => a ^ b,
            },
        ),
        (Immediate::USize(a), Immediate::USize(b)) => Immediate::USize(
            match op {
                Operation::And => a & b,
                Operation::Or => a | b,
                _ => a ^ b,
            },
        ),
        _ => x,
    }
}

/// The wrapped value and the carry of an arithmetic operator on unsigned
/// values below `m`, or `None` on division by zero.
fn arith_exec(op: Operation, a: u128, b: u128, m: u128) -> (r: Option<(u128, bool)>)
    requires
        !op.is_bitwise(),
        0 < m <= 0x1_0000_0000_0000_0000,
        a < m,
        b < m,
    ensures
        r == match arith_on(op, a as int, b as int, m as int) {
            Some((v, c)) => Some((v as u128, c)),
            None => None::<(u128, bool)>,
        },
        r matches Some((v, _)) ==> v < m,
{
    match op {
        Operation::Add => {
            let s = a + b;
            if s >= m {
                proof {
                    lemma_mod_in_range(s as int, 1, m as int, (s - m) as int);
                }
                Some((s - m, true))
            } else {
                proof {
                    lemma_mod_in_range(s as int, 0, m as int, s as int);
                }
                Some((s, false))
            }
        },
        Operation::Subtract => {
            if a >= b {
                proof {
                    lemma_mod_in_range(a - b, 0, m as int, a - b);
                }
                Some((a - b, false))
            } else {
                proof {
                    lemma_mod_in_range(a - b, -1, m as int, a + m - b);
                }
                Some((a + (m - b), true))
            }
        },
        Operation::Multiply => {
            proof {
                assert(a * b <= (m - 1) * (m - 1)) by (nonlinear_arith)
                    requires
                        a < m,
                        b < m,
                ;
                assert((m - 1) * (m - 1) < 0x1_0000_0000_0000_0000_0000_0000_0000_0000)
                    by (nonlinear_arith)
                    requires
                        0 < m <= 0x1_0000_0000_0000_0000,
                ;
            }
            let p = a * b;
            proof {
                vstd::arithmetic::div_mod::lemma_mod_bound(p as int, m as int);
            }
            Some((p % m, p >= m))
        },
        Operation::Divide => {
            if b == 0 {
                None
            } else {
                proof {
                    vstd::arithmetic::div_mod::lemma_div_is_ordered_by_denominator(
                        a as int,
                        1,
                        b as int,
                    );
                }
                Some((a / b, false))
            }
        },
        _ => {
            if b == 0 {
                None
            } else {
                proof {
                    vstd::arithmetic::div_mod::lemma_mod_bound(a as int, b as int);
                }
                Some((a % b, false))
            }
        },
    }
}

impl Immediate {
    /// Sets zero, sign and parity from `self`.
    pub fn set_result_flags(&self, flags: &mut Flags)
        requires
            self.is_integer(),
        ensures
            *final(flags) == flags_for_result(*old(flags), *self),
    {
        flags.zero = self.is_zero();
        flags.sign = !self.msb();
        flags.parity = self.set_bits() % 2 == 0;
    }
}

impl Operation {
    /// Applies the operator to two integers of one tag and updates the flags:
    /// zero, sign and parity always; carry for the arithmetic operators;
    /// overflow for addition alone. On a fault the flags are left as they
    /// were.
    pub fn perform_op(&self, flags: &mut Flags, val1: Immediate, val2: Immediate) -> (r: Result<
        Immediate,
        Fault,
    >)
        ensures
            match operation_result(*self, val1, val2) {
                Ok((v, c)) => r == Ok::<Immediate, Fault>(v) && *final(flags)
                    == flags_after_operation(*self, *old(flags), val1, val2, v, c),
                Err(e) => r == Err::<Immediate, Fault>(e) && *final(flags) == *old(flags),
            },
    {
        if !val1.is_integer_tag() || !val1.has_same_tag(&val2) {
            return Err(Fault::PrimitiveTypeMismatch);
        }
        match self {
            Operation::And | Operation::Or | Operation::Xor => {
                let ret = bitwise_exec(*self, val1, val2);
                ret.set_result_flags(flags);
                Ok(ret)
            },
            _ => {
                let m = val1.modulus_of();
                let a = val1.raw_value() as u128;
                let b = val2.raw_value() as u128;
                match arith_exec(*self, a, b, m) {
                    None => Err(Fault::DivideByZero),
                    Some((v, carry)) => {
                        let ret = val1.with_raw(v as u64);
                        let overflow = (a != 0 && 2 * a < m && b != 0 && 2 * b < m && (v == 0 || 2
                            * v >= m)) || (2 * a >= m && 2 * b >= m && 2 * v < m);
                        ret.set_result_flags(flags);
                        flags.carry = carry;
                        if let Operation::Add = self {
                            flags.overflow = overflow;
                        }
                        Ok(ret)
                    },
                }
            },
        }
    }
}

} // verus!
