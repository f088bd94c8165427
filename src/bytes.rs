//! The header layout of encoded instructions: a family selector written as
//! one 0xFF byte per step past the first family, then the opcode, then the
//! optional modifier and register-usage bytes.
use vstd::prelude::*;

verus! {

/// The bytes of encoded instructions.
pub struct InstructionBytes {
    bytes: Vec<u8>,
}

impl InstructionBytes {
    pub closed spec fn view(&self) -> Seq<u8> {
        self.bytes@
    }

    pub fn as_bytes(&self) -> (r: &Vec<u8>)
        ensures
            r@ == self.view(),
    {
        &self.bytes
    }
}

/// A malformed instruction encoding.
#[derive(Debug, Clone, Copy, PartialEq, Eq, Structural)]
pub struct InvalidInstructionError;

/// The four opcode families.
#[derive(Debug, Clone, Copy, PartialEq, Eq, Structural)]
pub enum Family {
    First,
    Second,
    Third,
    Fourth,
}

impl Family {
    /// How many 0xFF bytes select this family.
    pub open spec fn rank(self) -> nat {
        match self {
            Family::First => 0,
            Family::Second => 1,
            Family::Third => 2,
            Family::Fourth => 3,
        }
    }

    /// The family one step further; there is none after the fourth.
    pub fn next(self) -> (r: Result<Family, InvalidInstructionError>)
        ensures
            self.rank() < 3 ==> (r matches Ok(f) && f.rank() == self.rank() + 1),
            self.rank() == 3 ==> r == Err::<Family, InvalidInstructionError>(
                InvalidInstructionError,
            ),
    {
        match self {
            Family::First => Ok(Family::Second),
            Family::Second => Ok(Family::Third),
            Family::Third => Ok(Family::Fourth),
            Family::Fourth => Err(InvalidInstructionError),
        }
    }

    pub fn steps(self) -> (r: u8)
        ensures
            r as nat == self.rank(),
    {
        match self {
            Family::First => 0,
            Family::Second => 1,
            Family::Third => 2,
            Family::Fourth => 3,
        }
    }
}

/// Whether a register operand is used directly or through its contents.
#[derive(Debug, Clone, Copy, PartialEq, Eq, Structural)]
pub enum RegisterDirection {
    Direct,
    Indirect,
}

impl RegisterDirection {
    pub open spec fn bit(self) -> u8 {
        match self {
            RegisterDirection::Direct => 0,
            RegisterDirection::Indirect => 1,
        }
    }
}

/// How the two register operands of an instruction are used.
#[derive(Debug, Clone, Copy, PartialEq, Eq, Structural)]
pub struct RegisterUsage {
    first: RegisterDirection,
    second: RegisterDirection,
}

/// Which register operand is indirect.
#[derive(Debug, Clone, Copy, PartialEq, Eq, Structural)]
pub enum IndirectRegister {
    First,
    Second,
}

impl RegisterUsage {
    /// The usage byte: the first operand's bit above the second's.
    pub closed spec fn spec_byte(self) -> u8 {
        (2 * self.first.bit() + self.second.bit()) as u8
    }

    pub fn both_direct() -> (r: RegisterUsage)
        ensures
            r.spec_byte() == 0,
    {
        RegisterUsage { first: RegisterDirection::Direct, second: RegisterDirection::Direct }
    }

    pub fn one_indirect(indirect_reg: IndirectRegister) -> (r: RegisterUsage)
        ensures
            indirect_reg is First ==> r.spec_byte() == 2,
            indirect_reg is Second ==> r.spec_byte() == 1,
    {
        match indirect_reg {
            IndirectRegister::First => RegisterUsage {
                first: RegisterDirection::Indirect,
                second: RegisterDirection::Direct,
            },
            IndirectRegister::Second => RegisterUsage {
                first: RegisterDirection::Direct,
                second: RegisterDirection::Indirect,
            },
        }
    }

    pub fn to_byte(&self) -> (r: u8)
        ensures
            r == self.spec_byte(),
    {
        let first: u8 = match self.first {
            RegisterDirection::Direct => 0,
            RegisterDirection::Indirect => 1,
        };
        let second: u8 = match self.second {
            RegisterDirection::Direct => 0,
            RegisterDirection::Indirect => 1,
        };
        2 * first + second
    }
}

/// The decoded fields of one instruction header.
pub struct InstructionFields {
    pub family: Family,
    pub opcode: u8,
    pub opcode_modifiers: Option<u8>,
    pub register_usage: Option<RegisterUsage>,
    pub register1: Option<u8>,
    pub register2: Option<u8>,
    pub immediate: Option<u64>,
}

/// The bytes of a header with these fields.
pub open spec fn header_bytes(f: InstructionFields) -> Seq<u8> {
    Seq::new(f.family.rank(), |i: int| 0xffu8) + seq![f.opcode] + match f.opcode_modifiers {
        Some(m) => seq![m],
        None => Seq::empty(),
    } + match f.register_usage {
        Some(u) => seq![u.spec_byte()],
        None => Seq::empty(),
    }
}

/// The number of leading 0xFF bytes of `b`.
pub open spec fn leading_selectors(b: Seq<u8>) -> nat
    decreases b.len(),
{
    if b.len() > 0 && b[0] == 0xff {
        1 + leading_selectors(b.drop_first())
    } else {
        0
    }
}

/// The family reached after `n` selector bytes.
pub open spec fn family_of(n: nat) -> Option<Family> {
    if n == 0 {
        Some(Family::First)
    } else if n == 1 {
        Some(Family::Second)
    } else if n == 2 {
        Some(Family::Third)
    } else if n == 3 {
        Some(Family::Fourth)
    } else {
        None
    }
}

proof fn lemma_leading_selectors_step(b: Seq<u8>, i: int)
    requires
        0 <= i < b.len(),
        forall|j: int| 0 <= j < i ==> b[j] == 0xff,
    ensures
        b[i] != 0xff ==> leading_selectors(b) == i,
        leading_selectors(b) >= i,
    decreases i,
{
    if i > 0 {
        lemma_leading_selectors_step(b.drop_first(), i - 1);
    }
}

/// Reads the family selector and opcode at the start of `bytes`: one 0xFF
/// byte per family step, then the opcode byte. Gives the family, the opcode
/// and the number of bytes read. A fifth selector, or bytes that end before
/// the opcode, are invalid.
pub fn get_instruction_fields(bytes: &[u8]) -> (r: Result<(Family, u8, usize), InvalidInstructionError>)
    ensures
        match r {
            Ok((f, op, used)) => {
                &&& leading_selectors(bytes@) < bytes@.len()
                &&& family_of(leading_selectors(bytes@)) == Some(f)
                &&& used == leading_selectors(bytes@) + 1
                &&& op == bytes@[leading_selectors(bytes@) as int]
            },
            Err(_) => leading_selectors(bytes@) > 3 || leading_selectors(bytes@) == bytes@.len(),
        },
{
    let mut family = Family::First;
    let mut i: usize = 0;
    while i < bytes.len()
        invariant
            i <= bytes@.len(),
            i <= 3,
            forall|j: int| 0 <= j < i ==> bytes@[j] == 0xff,
            family_of(i as nat) == Some(family),
        decreases bytes.len() - i,
    {
        let byte = bytes[i];
        if byte != 0xff {
            proof {
                lemma_leading_selectors_step(bytes@, i as int);
            }
            return Ok((family, byte, i + 1));
        }
        if i == 3 {
            proof {
                lemma_leading_selectors_step(bytes@, 3);
                if bytes@.len() > 4 {
                    lemma_leading_selectors_step(bytes@, 4);
                } else {
                    lemma_leading_all(bytes@);
                }
            }
            return Err(InvalidInstructionError);
        }
        family = match family.next() {
            Ok(f) => f,
            Err(e) => {
                return Err(e);
            },
        };
        i = i + 1;
    }
    proof {
        lemma_leading_all(bytes@);
    }
    Err(InvalidInstructionError)
}

proof fn lemma_leading_all(b: Seq<u8>)
    requires
        forall|j: int| 0 <= j < b.len() ==> b[j] == 0xff,
    ensures
        leading_selectors(b) == b.len(),
    decreases b.len(),
{
    if b.len() > 0 {
        lemma_leading_all(b.drop_first());
    }
}

/// Accumulates encoded instruction headers.
pub struct InstructionBytesBuilder {
    future_array: Vec<u8>,
    fields: InstructionFields,
}

impl InstructionBytesBuilder {
    pub closed spec fn written(&self) -> Seq<u8> {
        self.future_array@
    }

    pub closed spec fn fields(&self) -> InstructionFields {
        self.fields
    }

    /// Nothing written; first family, opcode zero, no optional fields.
    pub fn new() -> (r: InstructionBytesBuilder)
        ensures
            r.written().len() == 0,
            r.fields().family == Family::First,
            r.fields().opcode == 0,
            r.fields().opcode_modifiers is None,
            r.fields().register_usage is None,
    {
        InstructionBytesBuilder {
            future_array: Vec::new(),
            fields: InstructionFields {
                family: Family::First,
                opcode: 0,
                opcode_modifiers: None,
                register_usage: None,
                register1: None,
                register2: None,
                immediate: None,
            },
        }
    }

    /// Appends the header of the current fields and gives everything
    /// written so far.
    pub fn build(&mut self) -> (r: InstructionBytes)
        ensures
            final(self).written() == old(self).written() + header_bytes(old(self).fields()),
            final(self).fields() == old(self).fields(),
            r.view() == final(self).written(),
    {
        let steps = self.fields.family.steps();
        let ghost start = self.future_array@;
        let mut i: u8 = 0;
        while i < steps
            invariant
                i <= steps,
                steps as nat == self.fields.family.rank(),
                self.future_array@ == start + Seq::new(i as nat, |j: int| 0xffu8),
                self.fields == old(self).fields,
                start == old(self).future_array@,
            decreases steps - i,
        {
            self.future_array.push(0xff);
            i = i + 1;
            assert(self.future_array@ =~= start + Seq::new(i as nat, |j: int| 0xffu8));
        }
        self.future_array.push(self.fields.opcode);
        match self.fields.opcode_modifiers {
            None => {},
            Some(modifiers) => {
                self.future_array.push(modifiers);
            },
        }
        match self.fields.register_usage {
            None => {},
            Some(usage) => {
                let b = usage.to_byte();
                self.future_array.push(b);
            },
        }
        assert(self.future_array@ =~= old(self).future_array@ + header_bytes(old(self).fields));
        InstructionBytes { bytes: self.future_array.clone() }
    }

    /// Sets the opcode of the next header.
    pub fn opcode(&mut self, opcode: u8) -> (r: &mut InstructionBytesBuilder)
        ensures
            r.fields().opcode == opcode,
            r.fields().family == old(self).fields().family,
            r.fields().opcode_modifiers == old(self).fields().opcode_modifiers,
            r.fields().register_usage == old(self).fields().register_usage,
            r.written() == old(self).written(),
            *final(self) == *final(r),
    {
        self.fields.opcode = opcode;
        self
    }
}

} // verus!
