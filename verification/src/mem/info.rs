//! What the code generator needs to know about each value: when it was made,
//! when it was last used, and which global initializers are all zero.

use vstd::prelude::*;
use std::collections::HashMap;
use crate::program::entities::Val;

verus! {

broadcast use vstd::std_specs::hash::group_hash_axioms;

/// The stamps of one value: the count of values made before it, and the
/// count at its last use so far.
#[derive(Clone, Copy, Debug, PartialEq, Eq, Structural)]
pub struct ValueInfo {
    pub birth: usize,
    pub death: usize,
}

pub struct Info {
    pub counter: usize,
    pub value_infos: HashMap<usize, ValueInfo>,
    pub zero_array_infos: HashMap<usize, Vec<usize>>,
}

/// The stamps of a value at its making, at time `now`.
pub open spec fn born(now: usize) -> ValueInfo {
    ValueInfo { birth: now, death: now }
}

/// The table of stamps after a use of `value` at time `now`: the death of a
/// value that has stamps moves to `now`.
pub open spec fn touched(m: Map<usize, ValueInfo>, value: Val, now: usize) -> Map<
    usize,
    ValueInfo,
> {
    if m.contains_key(value.id) {
        m.insert(value.id, ValueInfo { birth: m[value.id].birth, death: now })
    } else {
        m
    }
}

impl Info {
    /// The stamps recorded for `value`, if any.
    pub open spec fn stamps(&self, value: Val) -> Option<ValueInfo> {
        if self.value_infos@.contains_key(value.id) {
            Some(self.value_infos@[value.id])
        } else {
            None
        }
    }

    /// The dimensions recorded for `value` as an all-zero array, if any.
    pub open spec fn zero_dims(&self, value: Val) -> Option<Seq<usize>> {
        if self.zero_array_infos@.contains_key(value.id) {
            Some(self.zero_array_infos@[value.id]@)
        } else {
            None
        }
    }

    pub fn new() -> (info: Self)
        ensures
            info.counter == 0,
            info.value_infos@ == Map::<usize, ValueInfo>::empty(),
            info.zero_array_infos@ == Map::<usize, Vec<usize>>::empty(),
    {
        Info { counter: 0, value_infos: HashMap::new(), zero_array_infos: HashMap::new() }
    }

    pub fn counter(&self) -> (c: usize)
        ensures
            c == self.counter,
    {
        self.counter
    }

    /// Records `value` as born, and last used, now; then the clock ticks.
    pub fn new_info(&mut self, value: Val)
        requires
            old(self).counter < usize::MAX,
        ensures
            final(self).counter == old(self).counter + 1,
            final(self).value_infos@ == old(self).value_infos@.insert(
                value.id,
                born(old(self).counter),
            ),
            final(self).zero_array_infos == old(self).zero_array_infos,
    {
        self.value_infos.insert(value.id, ValueInfo { birth: self.counter, death: self.counter });
        self.counter = self.counter + 1;
    }

    pub fn info(&self, value: Val) -> (r: Option<ValueInfo>)
        ensures
            r == self.stamps(value),
    {
        match self.value_infos.get(&value.id) {
            Some(i) => Some(*i),
            None => None,
        }
    }

    /// Replaces the stamps of a value that has some; says whether it had.
    pub fn info_mut(&mut self, value: Val, stamps: ValueInfo) -> (found: bool)
        ensures
            found == old(self).stamps(value).is_some(),
            found ==> final(self).value_infos@ == old(self).value_infos@.insert(value.id, stamps),
            !found ==> final(self).value_infos@ == old(self).value_infos@,
            final(self).counter == old(self).counter,
            final(self).zero_array_infos == old(self).zero_array_infos,
    {
        if self.value_infos.contains_key(&value.id) {
            self.value_infos.insert(value.id, stamps);
            true
        } else {
            false
        }
    }

    /// Notes a use of `value` now: its death moves up to the clock. A value
    /// without stamps stays without.
    pub fn touch(&mut self, value: Val)
        ensures
            final(self).counter == old(self).counter,
            final(self).zero_array_infos == old(self).zero_array_infos,
            final(self).value_infos@ == touched(old(self).value_infos@, value, old(self).counter),
    {
        match self.info(value) {
            Some(s) => {
                let now = self.counter;
                self.info_mut(value, ValueInfo { birth: s.birth, death: now });
            },
            None => {},
        }
    }

    /// Records that the global initializer `value` is an array of these
    /// dimensions with nothing but zeros in it.
    pub fn new_array_info(&mut self, value: Val, info: Vec<usize>)
        ensures
            final(self).zero_array_infos@ == old(self).zero_array_infos@.insert(value.id, info),
            final(self).counter == old(self).counter,
            final(self).value_infos == old(self).value_infos,
    {
        self.zero_array_infos.insert(value.id, info);
    }

    pub fn array_info(&self, value: Val) -> (r: Option<&Vec<usize>>)
        ensures
            r matches Some(dims) ==> self.zero_dims(value) == Some(dims@),
            r is None ==> self.zero_dims(value) is None,
    {
        self.zero_array_infos.get(&value.id)
    }
}

} // verus!
