//! What the code generator keeps in mind: where each value lives, the
//! registers, and the frame of the function being written.

use vstd::prelude::*;
use std::collections::HashMap;
use crate::program::entities::{Func, Val};
use crate::riscv::label::Label;
use crate::riscv::register::{position, Register, Registers};
use crate::riscv::writer::{op2_line, Writer};
use crate::text::{decimal, decimal_string};

verus! {

broadcast use vstd::std_specs::hash::group_hash_axioms;

/// Where a value lives: in a slot of the frame, in a register, or in
/// global data under a label.
#[derive(Debug, PartialEq, Eq, Hash)]
pub enum Entry {
    Slot(usize),
    Register(String),
    Label(String),
}

pub struct Scope {
    pub values: HashMap<usize, Entry>,
    pub cur_func: Option<Func>,
    pub cur_value: Option<Val>,
    pub registers: Registers,
    pub total_slots: usize,
    pub used_slots: usize,
    pub caller: bool,
    pub label: Label,
}

/// The first register that holds nothing and is free for allocation.
pub open spec fn first_free(regs: Seq<Register>) -> Option<int>
    decreases regs.len(),
{
    if regs.len() == 0 {
        None
    } else {
        match first_free(regs.drop_last()) {
            Some(i) => Some(i),
            None => if !regs.last().used && !regs.last().fixed {
                Some(regs.len() - 1)
            } else {
                None
            },
        }
    }
}

/// The register free for allocation that was used longest ago: the first
/// one with the least stamp.
pub open spec fn oldest(regs: Seq<Register>) -> Option<int>
    decreases regs.len(),
{
    if regs.len() == 0 {
        None
    } else {
        let last = regs.len() - 1;
        match oldest(regs.drop_last()) {
            Some(i) => if !regs[last].fixed && regs[last].stamp < regs[i].stamp {
                Some(last)
            } else {
                Some(i)
            },
            None => if !regs[last].fixed {
                Some(last)
            } else {
                None
            },
        }
    }
}

/// The register that the next value gets: a free one if there is one, else
/// the one used longest ago.
pub open spec fn choice(regs: Seq<Register>) -> Option<int> {
    match first_free(regs) {
        Some(i) => Some(i),
        None => oldest(regs),
    }
}

pub proof fn first_free_is_free(regs: Seq<Register>)
    ensures
        first_free(regs) matches Some(i) ==> 0 <= i < regs.len() && !regs[i].used && !regs[i].fixed,
    decreases regs.len(),
{
    if regs.len() > 0 {
        first_free_is_free(regs.drop_last());
    }
}

/// The oldest register is free for allocation, and no register free for
/// allocation has a lesser stamp.
pub proof fn oldest_is_least(regs: Seq<Register>)
    ensures
        match oldest(regs) {
            Some(i) => {
                &&& 0 <= i < regs.len()
                &&& !regs[i].fixed
                &&& forall|j: int|
                    0 <= j < regs.len() && !(#[trigger] regs[j]).fixed ==> regs[i].stamp
                        <= regs[j].stamp
            },
            None => forall|j: int| 0 <= j < regs.len() ==> (#[trigger] regs[j]).fixed,
        },
    decreases regs.len(),
{
    if regs.len() > 0 {
        let rest = regs.drop_last();
        oldest_is_least(rest);
        match oldest(regs) {
            Some(i) => {
                assert forall|j: int| 0 <= j < regs.len() && !(#[trigger] regs[j]).fixed implies regs[i].stamp
                    <= regs[j].stamp by {
                    if j < rest.len() {
                        assert(rest[j] == regs[j]);
                    }
                }
            },
            None => {
                assert forall|j: int| 0 <= j < regs.len() implies (#[trigger] regs[j]).fixed by {
                    if j < rest.len() {
                        assert(rest[j] == regs[j]);
                    }
                }
            },
        }
    }
}

impl Scope {
    /// Where `value` lives, if that has been settled.
    pub open spec fn place(&self, value: Val) -> Option<Entry> {
        if self.values@.contains_key(value.id) {
            Some(self.values@[value.id])
        } else {
            None
        }
    }

    pub fn new() -> (s: Self)
        ensures
            s.values@ == Map::<usize, Entry>::empty(),
            s.cur_func is None,
            s.cur_value is None,
            s.registers.registers.len() == 8,
            forall|i: int|
                0 <= i < 8 ==> {
                    &&& !(#[trigger] s.registers.registers[i]).used
                    &&& s.registers.registers[i].stamp == 0
                    &&& s.registers.registers[i].value is None
                    &&& s.registers.registers[i].fixed == (i == 0 || i == 7)
                },
            s.registers.registers[0].name@ == "x0"@,
            s.registers.registers[1].name@ == "t0"@,
            s.registers.registers[2].name@ == "t1"@,
            s.registers.registers[3].name@ == "t2"@,
            s.registers.registers[4].name@ == "t3"@,
            s.registers.registers[5].name@ == "t4"@,
            s.registers.registers[6].name@ == "t5"@,
            s.registers.registers[7].name@ == "t6"@,
            s.total_slots == 0,
            s.used_slots == 0,
            !s.caller,
            s.label.var == 0,
    {
        Self {
            values: HashMap::new(),
            cur_func: None,
            cur_value: None,
            registers: Registers::new(),
            total_slots: 0,
            used_slots: 0,
            caller: false,
            label: Label::new(),
        }
    }

    /// Where a value lives, if that has been settled.
    pub fn get(&self, value: &Val) -> (r: Option<&Entry>)
        ensures
            match r {
                Some(e) => self.place(*value) == Some(*e),
                None => self.place(*value) is None,
            },
    {
        self.values.get(&value.id)
    }

    /// Where a value lives.
    pub fn value(&self, value: &Val) -> (e: &Entry)
        requires
            self.place(*value) is Some,
        ensures
            self.place(*value) == Some(*e),
    {
        match self.values.get(&value.id) {
            Some(e) => e,
            None => vstd::pervasive::unreached(),
        }
    }

    /// Settles where a value lives, anew if it was settled before.
    pub fn new_value(&mut self, value: Val, entry: Entry)
        ensures
            final(self).values@ == old(self).values@.insert(value.id, entry),
            final(self).cur_func == old(self).cur_func,
            final(self).cur_value == old(self).cur_value,
            final(self).registers == old(self).registers,
            final(self).total_slots == old(self).total_slots,
            final(self).used_slots == old(self).used_slots,
            final(self).caller == old(self).caller,
            final(self).label == old(self).label,
    {
        self.values.insert(value.id, entry);
    }

    /// What [`Scope::value`] gives, to be replaced.
    pub fn value_mut(&mut self, value: &Val, entry: Entry)
        requires
            old(self).place(*value) is Some,
        ensures
            final(self).values@ == old(self).values@.insert(value.id, entry),
            final(self).cur_func == old(self).cur_func,
            final(self).cur_value == old(self).cur_value,
            final(self).registers == old(self).registers,
            final(self).total_slots == old(self).total_slots,
            final(self).used_slots == old(self).used_slots,
            final(self).caller == old(self).caller,
            final(self).label == old(self).label,
    {
        self.values.insert(value.id, entry);
    }

    pub fn cur_func(&self) -> (f: Func)
        requires
            self.cur_func is Some,
        ensures
            self.cur_func == Some(f),
    {
        match self.cur_func {
            Some(f) => f,
            None => Func { id: 0 },
        }
    }

    pub fn set_cur_func(&mut self, func: Option<Func>)
        ensures
            *final(self) == (Scope { cur_func: func, ..*old(self) }),
    {
        self.cur_func = func;
    }

    pub fn cur_value(&self) -> (v: Val)
        requires
            self.cur_value is Some,
        ensures
            self.cur_value == Some(v),
    {
        match self.cur_value {
            Some(v) => v,
            None => Val { id: 0 },
        }
    }

    pub fn set_cur_value(&mut self, value: Option<Val>)
        ensures
            *final(self) == (Scope { cur_value: value, ..*old(self) }),
    {
        self.cur_value = value;
    }

    /// Whether the function being written makes calls.
    pub fn caller(&self) -> (c: bool)
        ensures
            c == self.caller,
    {
        self.caller
    }

    pub fn set_caller(&mut self, caller: bool)
        ensures
            *final(self) == (Scope { caller, ..*old(self) }),
    {
        self.caller = caller;
    }

    pub fn label_mut(&mut self) -> (r: &mut Label)
        ensures
            *r == old(self).label,
            *final(self) == (Scope { label: *final(r), ..*old(self) }),
    {
        &mut self.label
    }

    /// The size of the frame, in words.
    pub fn total_slots(&self) -> (n: usize)
        ensures
            n == self.total_slots,
    {
        self.total_slots
    }

    pub fn set_total_slots(&mut self, total_slots: usize)
        ensures
            *final(self) == (Scope { total_slots, ..*old(self) }),
    {
        self.total_slots = total_slots;
    }

    pub fn set_used_slots(&mut self, used_slots: usize)
        ensures
            *final(self) == (Scope { used_slots, ..*old(self) }),
    {
        self.used_slots = used_slots;
    }

    /// Takes the next slot of the frame.
    pub fn new_slot(&mut self) -> (slot: usize)
        requires
            old(self).used_slots < usize::MAX,
        ensures
            slot == old(self).used_slots,
            *final(self) == (Scope { used_slots: (old(self).used_slots + 1) as usize, ..*old(self) }),
    {
        let slot = self.used_slots;
        self.used_slots = self.used_slots + 1;
        slot
    }

    /// Takes the next `slots` slots of the frame; gives the first.
    pub fn new_slots(&mut self, slots: usize) -> (slot: usize)
        requires
            old(self).used_slots + slots <= usize::MAX,
        ensures
            slot == old(self).used_slots,
            *final(self) == (Scope {
                used_slots: (old(self).used_slots + slots) as usize,
                ..*old(self)
            }),
    {
        let slot = self.used_slots;
        self.used_slots = self.used_slots + slots;
        slot
    }

    pub fn register(&self, id: &str) -> (r: &Register)
        requires
            position(self.registers.registers@, id@) is Some,
        ensures
            *r == self.registers.registers[position(self.registers.registers@, id@)->Some_0],
    {
        self.registers.register(id)
    }

    pub fn register_mut(&mut self, id: &str) -> (r: &mut Register)
        requires
            position(old(self).registers.registers@, id@) is Some,
        ensures
            *r == old(self).registers.registers[position(
                old(self).registers.registers@,
                id@,
            )->Some_0],
            final(self).registers.registers@ == old(self).registers.registers@.update(
                position(old(self).registers.registers@, id@)->Some_0,
                *final(r),
            ),
            final(self).values == old(self).values,
            final(self).cur_func == old(self).cur_func,
            final(self).cur_value == old(self).cur_value,
            final(self).total_slots == old(self).total_slots,
            final(self).used_slots == old(self).used_slots,
            final(self).caller == old(self).caller,
            final(self).label == old(self).label,
    {
        self.registers.register_mut(id)
    }

    pub fn registers_mut(&mut self) -> (r: &mut Vec<Register>)
        ensures
            *r == old(self).registers.registers,
            final(self).registers.registers == *final(r),
            final(self).values == old(self).values,
            final(self).cur_func == old(self).cur_func,
            final(self).cur_value == old(self).cur_value,
            final(self).total_slots == old(self).total_slots,
            final(self).used_slots == old(self).used_slots,
            final(self).caller == old(self).caller,
            final(self).label == old(self).label,
    {
        self.registers.registers_mut()
    }

    /// The line that spills a register to the next slot of the frame.
    pub open spec fn spill_line(&self, reg: int) -> Seq<char> {
        op2_line(
            "sw"@,
            self.registers.registers[reg].name@,
            decimal((4 * self.used_slots) as nat) + "(sp)"@,
        )
    }

    /// Picks the register for the next value: the first that is free, else
    /// the one used longest ago, whose content is stored to the next slot of
    /// the frame first. None when no register is free for allocation.
    pub fn new_register(&self, w: &mut Writer) -> (r: Option<usize>)
        requires
            self.used_slots <= 0x3fff_ffff,
        ensures
            match r {
                Some(i) => {
                    &&& choice(self.registers.registers@) == Some(i as int)
                    &&& i < self.registers.registers.len()
                    &&& !self.registers.registers[i as int].fixed
                    &&& final(w).text@ == if first_free(self.registers.registers@) is Some {
                        old(w).text@
                    } else {
                        old(w).text@ + self.spill_line(i as int)
                    }
                },
                None => choice(self.registers.registers@) is None && final(w).text@ == old(w).text@,
            },
    {
        let regs = &self.registers.registers;
        let mut free: Option<usize> = None;
        let mut old_one: Option<usize> = None;
        let mut k: usize = 0;
        proof {
            assert(regs@.take(0).len() == 0);
        }
        while k < regs.len()
            invariant
                k <= regs.len(),
                match free {
                    Some(i) => first_free(regs@.take(k as int)) == Some(i as int),
                    None => first_free(regs@.take(k as int)) is None,
                },
                match old_one {
                    Some(i) => oldest(regs@.take(k as int)) == Some(i as int) && i < k,
                    None => oldest(regs@.take(k as int)) is None,
                },
            decreases regs.len() - k,
        {
            proof {
                let next = regs@.take(k + 1);
                assert(next.drop_last() =~= regs@.take(k as int));
                assert(next.last() == regs@[k as int]);
                if old_one is Some {
                    assert(next[old_one->Some_0 as int] == regs@[old_one->Some_0 as int]);
                }
            }
            let r = &regs[k];
            if free.is_none() && !r.used && !r.fixed {
                free = Some(k);
            }
            if !r.fixed {
                match old_one {
                    Some(i) => {
                        if r.stamp < regs[i].stamp {
                            old_one = Some(k);
                        }
                    },
                    None => {
                        old_one = Some(k);
                    },
                }
            }
            k += 1;
        }
        proof {
            assert(regs@.take(k as int) =~= regs@);
            first_free_is_free(regs@);
            oldest_is_least(regs@);
        }
        match free {
            Some(i) => Some(i),
            None => match old_one {
                Some(i) => {
                    let mut place = decimal_string(4 * (self.used_slots as u64));
                    place.append("(sp)");
                    w.op2("sw", regs[i].name(), place.as_str());
                    Some(i)
                },
                None => None,
            },
        }
    }

    /// Moves a value, if there is one, to the next slot of the frame.
    pub fn spill(&mut self, value: Option<Val>)
        requires
            old(self).used_slots < usize::MAX,
        ensures
            match value {
                Some(v) => {
                    &&& final(self).values@ == old(self).values@.insert(
                        v.id,
                        Entry::Slot(old(self).used_slots),
                    )
                    &&& final(self).used_slots == old(self).used_slots + 1
                },
                None => final(self).values@ == old(self).values@ && final(self).used_slots == old(
                    self,
                ).used_slots,
            },
            final(self).cur_func == old(self).cur_func,
            final(self).cur_value == old(self).cur_value,
            final(self).registers == old(self).registers,
            final(self).total_slots == old(self).total_slots,
            final(self).caller == old(self).caller,
            final(self).label == old(self).label,
    {
        match value {
            Some(value) => {
                let slot = self.used_slots;
                self.new_value(value, Entry::Slot(slot));
                self.used_slots = self.used_slots + 1;
            },
            None => {},
        }
    }
}

} // verus!
