//! What the writer of the textual form keeps in mind: the name each value
//! goes by, the next free register, and the label generator.

use vstd::prelude::*;
use std::collections::HashMap;
use crate::ir::label::Label;
use crate::program::entities::{Func, Val};
use crate::text::{decimal, join2, usize_string};

verus! {

broadcast use vstd::std_specs::hash::group_hash_axioms;

/// The name of a value in the text: a numbered register, or a label.
#[derive(Debug, PartialEq, Eq)]
pub enum Entry {
    Register(usize),
    Label(String),
}

impl Entry {
    /// The name as it is written: `%n` for register `n`, the label as it is.
    pub open spec fn text(&self) -> Seq<char> {
        match self {
            Entry::Register(n) => "%"@ + decimal(*n as nat),
            Entry::Label(l) => l@,
        }
    }

    pub fn turn_into(&self) -> (s: String)
        ensures
            s@ == self.text(),
    {
        match self {
            Entry::Register(n) => join2("%", usize_string(*n).as_str()),
            Entry::Label(l) => l.clone(),
        }
    }
}

pub struct Scope {
    pub values: HashMap<usize, Entry>,
    pub register: usize,
    pub cur_func: Option<Func>,
    pub cur_value: Option<Val>,
    pub label: Label,
}

impl Scope {
    /// The name that `value` goes by, if it has been given one.
    pub open spec fn name(&self, value: Val) -> Option<Seq<char>> {
        if self.values@.contains_key(value.id) {
            Some(self.values@[value.id].text())
        } else {
            None
        }
    }

    pub fn new() -> (s: Self)
        ensures
            s.values@ == Map::<usize, Entry>::empty(),
            s.register == 0,
            s.cur_func is None,
            s.cur_value is None,
            s.label.local_var == 0,
            s.label.local_arr == 0,
            s.label.global_var == 0,
            s.label.global_arr == 0,
    {
        Self {
            values: HashMap::new(),
            register: 0,
            cur_func: None,
            cur_value: None,
            label: Label::new(),
        }
    }

    /// The function being written.
    pub fn cur_func(&self) -> (f: Func)
        requires
            self.cur_func is Some,
        ensures
            self.cur_func == Some(f),
    {
        match self.cur_func {
            Some(f) => f,
            None => Func { id: 0 },
        }
    }

    pub fn set_cur_func(&mut self, func: Option<Func>)
        ensures
            *final(self) == (Scope { cur_func: func, ..*old(self) }),
    {
        self.cur_func = func;
    }

    /// The value being written.
    pub fn cur_value(&self) -> (v: Val)
        requires
            self.cur_value is Some,
        ensures
            self.cur_value == Some(v),
    {
        match self.cur_value {
            Some(v) => v,
            None => Val { id: 0 },
        }
    }

    pub fn set_cur_value(&mut self, value: Option<Val>)
        ensures
            *final(self) == (Scope { cur_value: value, ..*old(self) }),
    {
        self.cur_value = value;
    }

    /// The next free register.
    pub fn new_register(&mut self) -> (e: Entry)
        requires
            old(self).register < usize::MAX,
        ensures
            e == Entry::Register(old(self).register),
            *final(self) == (Scope { register: (old(self).register + 1) as usize, ..*old(self) }),
    {
        let result = self.register;
        self.register = self.register + 1;
        Entry::Register(result)
    }

    /// Starts the registers over at zero, for the next function.
    pub fn clear_register(&mut self)
        ensures
            *final(self) == (Scope { register: 0, ..*old(self) }),
    {
        self.register = 0;
    }

    /// The name of a value as it is written, if the value has one.
    pub fn get(&self, value: Val) -> (r: Option<String>)
        ensures
            match r {
                Some(s) => self.name(value) == Some(s@),
                None => self.name(value) is None,
            },
    {
        match self.values.get(&value.id) {
            Some(e) => Some(e.turn_into()),
            None => None,
        }
    }

    /// The name of a value that has one.
    pub fn value(&self, value: Val) -> (e: &Entry)
        requires
            self.name(value) is Some,
        ensures
            *e == self.values@[value.id],
    {
        match self.values.get(&value.id) {
            Some(e) => e,
            None => vstd::pervasive::unreached(),
        }
    }

    /// Gives a value its name; a name it had before is forgotten.
    pub fn new_value(&mut self, value: Val, entry: Entry)
        ensures
            final(self).values@ == old(self).values@.insert(value.id, entry),
            final(self).name(value) == Some(entry.text()),
            final(self).register == old(self).register,
            final(self).cur_func == old(self).cur_func,
            final(self).cur_value == old(self).cur_value,
            final(self).label == old(self).label,
    {
        self.values.insert(value.id, entry);
    }

    pub fn label_mut(&mut self) -> (r: &mut Label)
        ensures
            *r == old(self).label,
            *final(self) == (Scope { label: *final(r), ..*old(self) }),
    {
        &mut self.label
    }
}

} // verus!
