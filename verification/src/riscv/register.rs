//! The temporary registers and what each one holds.

use vstd::prelude::*;
use vstd::string::StringExecFns;
use crate::program::entities::Val;

verus! {

/// One register: whether it holds something, whether it is kept out of
/// allocation, when it was last used, and which value it holds.
pub struct Register {
    pub name: String,
    pub used: bool,
    pub fixed: bool,
    pub stamp: usize,
    pub value: Option<Val>,
}

impl Register {
    /// A register free for allocation.
    pub fn new(name: String) -> (r: Self)
        ensures
            r == (Register { name, used: false, fixed: false, stamp: 0, value: None }),
    {
        Self { name, used: false, fixed: false, stamp: 0, value: None }
    }

    /// A register kept out of allocation.
    pub fn with_fixed(name: String) -> (r: Self)
        ensures
            r == (Register { name, used: false, fixed: true, stamp: 0, value: None }),
    {
        Self { name, used: false, fixed: true, stamp: 0, value: None }
    }

    pub fn name(&self) -> (s: &str)
        ensures
            s@ == self.name@,
    {
        self.name.as_str()
    }
}

/// The register file: `x0` and `t6` are kept out of allocation, `t0` to `t5`
/// are free for it.
pub struct Registers {
    pub registers: Vec<Register>,
}

/// The index of the first register of that name.
pub open spec fn position(regs: Seq<Register>, name: Seq<char>) -> Option<int>
    decreases regs.len(),
{
    if regs.len() == 0 {
        None
    } else {
        match position(regs.drop_last(), name) {
            Some(i) => Some(i),
            None => if regs.last().name@ == name {
                Some(regs.len() - 1)
            } else {
                None
            },
        }
    }
}

pub proof fn position_in_range(regs: Seq<Register>, name: Seq<char>)
    ensures
        position(regs, name) matches Some(i) ==> 0 <= i < regs.len() && regs[i].name@ == name,
    decreases regs.len(),
{
    if regs.len() > 0 {
        position_in_range(regs.drop_last(), name);
    }
}

impl Registers {
    pub fn new() -> (r: Self)
        ensures
            r.registers.len() == 8,
            r.registers[0] == (Register {
                name: r.registers[0].name,
                used: false,
                fixed: true,
                stamp: 0,
                value: None,
            }),
            r.registers[7] == (Register {
                name: r.registers[7].name,
                used: false,
                fixed: true,
                stamp: 0,
                value: None,
            }),
            forall|i: int|
                1 <= i <= 6 ==> #[trigger] r.registers[i] == (Register {
                    name: r.registers[i].name,
                    used: false,
                    fixed: false,
                    stamp: 0,
                    value: None,
                }),
            r.registers[0].name@ == "x0"@,
            r.registers[1].name@ == "t0"@,
            r.registers[2].name@ == "t1"@,
            r.registers[3].name@ == "t2"@,
            r.registers[4].name@ == "t3"@,
            r.registers[5].name@ == "t4"@,
            r.registers[6].name@ == "t5"@,
            r.registers[7].name@ == "t6"@,
    {
        let mut registers: Vec<Register> = Vec::new();
        registers.push(Register::with_fixed(String::from_str("x0")));
        registers.push(Register::new(String::from_str("t0")));
        registers.push(Register::new(String::from_str("t1")));
        registers.push(Register::new(String::from_str("t2")));
        registers.push(Register::new(String::from_str("t3")));
        registers.push(Register::new(String::from_str("t4")));
        registers.push(Register::new(String::from_str("t5")));
        registers.push(Register::with_fixed(String::from_str("t6")));
        Self { registers }
    }

    /// Where the register of that name stands, if there is one.
    pub fn find(&self, name: &str) -> (r: Option<usize>)
        ensures
            match r {
                Some(i) => position(self.registers@, name@) == Some(i as int) && i
                    < self.registers.len(),
                None => position(self.registers@, name@) is None,
            },
    {
        let wanted = String::from_str(name);
        let mut k: usize = 0;
        proof {
            assert(self.registers@.take(0).len() == 0);
        }
        while k < self.registers.len()
            invariant
                k <= self.registers.len(),
                wanted@ == name@,
                position(self.registers@.take(k as int), name@) is None,
            decreases self.registers.len() - k,
        {
            proof {
                let next = self.registers@.take(k + 1);
                assert(next.drop_last() =~= self.registers@.take(k as int));
                assert(next.last() == self.registers@[k as int]);
            }
            if self.registers[k].name == wanted {
                proof {
                    self.found_stays(name@, k as int);
                }
                return Some(k);
            }
            k += 1;
        }
        proof {
            assert(self.registers@.take(k as int) =~= self.registers@);
        }
        None
    }

    proof fn found_stays(&self, name: Seq<char>, k: int)
        requires
            0 <= k < self.registers.len(),
            position(self.registers@.take(k + 1), name) == Some(k),
        ensures
            position(self.registers@, name) == Some(k),
    {
        Self::found_in_longer(self.registers@, name, k, self.registers.len() as int);
        assert(self.registers@.take(self.registers.len() as int) =~= self.registers@);
    }

    proof fn found_in_longer(regs: Seq<Register>, name: Seq<char>, k: int, n: int)
        requires
            0 <= k < n <= regs.len(),
            position(regs.take(k + 1), name) == Some(k),
        ensures
            position(regs.take(n), name) == Some(k),
        decreases n,
    {
        if n > k + 1 {
            Self::found_in_longer(regs, name, k, n - 1);
            assert(regs.take(n).drop_last() =~= regs.take(n - 1));
        }
    }

    /// The register of that name.
    pub fn register(&self, name: &str) -> (r: &Register)
        requires
            position(self.registers@, name@) is Some,
        ensures
            *r == self.registers[position(self.registers@, name@)->Some_0],
            r.name@ == name@,
    {
        proof {
            position_in_range(self.registers@, name@);
        }
        match self.find(name) {
            Some(i) => &self.registers[i],
            None => vstd::pervasive::unreached(),
        }
    }

    /// The register of that name, to change it.
    pub fn register_mut(&mut self, name: &str) -> (r: &mut Register)
        requires
            position(old(self).registers@, name@) is Some,
        ensures
            *r == old(self).registers[position(old(self).registers@, name@)->Some_0],
            final(self).registers@ == old(self).registers@.update(
                position(old(self).registers@, name@)->Some_0,
                *final(r),
            ),
    {
        match self.find(name) {
            Some(i) => &mut self.registers[i],
            None => vstd::pervasive::unreached(),
        }
    }

    pub fn registers(&self) -> (r: &Vec<Register>)
        ensures
            *r == self.registers,
    {
        &self.registers
    }

    pub fn registers_mut(&mut self) -> (r: &mut Vec<Register>)
        ensures
            *r == old(self).registers,
            final(self).registers == *final(r),
    {
        &mut self.registers
    }
}

} // verus!
