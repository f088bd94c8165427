//! The two register banks.
use vstd::prelude::*;

use crate::immediate::Immediate;
use crate::instruction_set::RegisterType;
use crate::vm::Fault;

verus! {

/// Slots in each bank.
pub const REGISTER_COUNT: usize = 8;

/// Two banks of `REGISTER_COUNT` optional values.
pub struct Registers {
    caller: Vec<Option<Immediate>>,
    callee: Vec<Option<Immediate>>,
}

impl Registers {
    pub closed spec fn bank(&self, b: RegisterType) -> Seq<Option<Immediate>> {
        match b {
            RegisterType::Caller => self.caller@,
            RegisterType::Callee => self.callee@,
        }
    }

    pub open spec fn wf(&self) -> bool {
        &&& self.bank(RegisterType::Caller).len() == REGISTER_COUNT
        &&& self.bank(RegisterType::Callee).len() == REGISTER_COUNT
    }

    /// What slot `i` of bank `b` holds; `None` when it is out of range or
    /// unset.
    pub open spec fn slot(&self, b: RegisterType, i: int) -> Option<Immediate> {
        if 0 <= i < self.bank(b).len() {
            self.bank(b)[i]
        } else {
            None
        }
    }

    /// Every slot of both banks holds the pointer-sized zero.
    pub fn new() -> (r: Registers)
        ensures
            r.wf(),
            forall|i: int|
                0 <= i < REGISTER_COUNT ==> #[trigger] r.slot(RegisterType::Caller, i) == Some(
                    Immediate::USize(0),
                ) && r.slot(RegisterType::Callee, i) == Some(Immediate::USize(0)),
    {
        let mut caller: Vec<Option<Immediate>> = Vec::new();
        let mut callee: Vec<Option<Immediate>> = Vec::new();
        let mut i: usize = 0;
        while i < REGISTER_COUNT
            invariant
                i <= REGISTER_COUNT,
                caller@.len() == i,
                callee@.len() == i,
                forall|j: int| 0 <= j < i ==> caller@[j] == Some(Immediate::USize(0)),
                forall|j: int| 0 <= j < i ==> callee@[j] == Some(Immediate::USize(0)),
            decreases REGISTER_COUNT - i,
        {
            caller.push(Some(Immediate::USize(0)));
            callee.push(Some(Immediate::USize(0)));
            i = i + 1;
        }
        Registers { caller, callee }
    }

    pub fn get(&self, b: RegisterType, i: usize) -> (r: Option<Immediate>)
        ensures
            r == self.slot(b, i as int),
    {
        let bank = match b {
            RegisterType::Caller => &self.caller,
            RegisterType::Callee => &self.callee,
        };
        if i < bank.len() {
            bank[i]
        } else {
            None
        }
    }

    /// Stores `v` in slot `i` of bank `b`; an index out of range is refused.
    pub fn set(&mut self, b: RegisterType, i: usize, v: Immediate) -> (r: Result<(), Fault>)
        requires
            old(self).wf(),
        ensures
            final(self).wf(),
            i < REGISTER_COUNT ==> r == Ok::<(), Fault>(()) && final(self).bank(b) == old(
                self,
            ).bank(b).update(i as int, Some(v)),
            i < REGISTER_COUNT ==> forall|o: RegisterType|
                o != b ==> #[trigger] final(self).bank(o) == old(self).bank(o),
            i >= REGISTER_COUNT ==> r == Err::<(), Fault>(Fault::InvalidRegister) && *final(self)
                == *old(self),
    {
        if i >= REGISTER_COUNT {
            return Err(Fault::InvalidRegister);
        }
        match b {
            RegisterType::Caller => {
                self.caller[i] = Some(v);
            },
            RegisterType::Callee => {
                self.callee[i] = Some(v);
            },
        }
        Ok(())
    }
}

} // verus!
