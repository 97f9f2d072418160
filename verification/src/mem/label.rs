//! Fresh block labels for the front end.

use vstd::prelude::*;
use crate::text::{decimal, join2, usize_string};

verus! {

/// Generator of block labels: one counter for `if` (and short-circuit)
/// triples, one for `while` triples.
pub struct Label {
    pub if_counter: usize,
    pub while_counter: usize,
}

/// The label `prefix` followed by the number `n`.
pub open spec fn numbered(prefix: Seq<char>, n: nat) -> Seq<char> {
    prefix + decimal(n)
}

impl Label {
    pub fn new() -> (l: Self)
        ensures
            l.if_counter == 0,
            l.while_counter == 0,
    {
        Label { if_counter: 0, while_counter: 0 }
    }

    /// The labels `%Then_n`, `%Else_n`, `%End_n` for the next unused `n`.
    pub fn if_label(&mut self) -> (l: (String, String, String))
        requires
            old(self).if_counter < usize::MAX,
        ensures
            l.0@ == numbered("%Then_"@, old(self).if_counter as nat),
            l.1@ == numbered("%Else_"@, old(self).if_counter as nat),
            l.2@ == numbered("%End_"@, old(self).if_counter as nat),
            final(self).if_counter == old(self).if_counter + 1,
            final(self).while_counter == old(self).while_counter,
    {
        let counter = self.if_counter;
        self.if_counter = self.if_counter + 1;
        let n = usize_string(counter);
        (join2("%Then_", n.as_str()), join2("%Else_", n.as_str()), join2("%End_", n.as_str()))
    }

    /// The labels `%Entry_n`, `%Body_n`, `%While_End_n` for the next unused `n`.
    pub fn while_label(&mut self) -> (l: (String, String, String))
        requires
            old(self).while_counter < usize::MAX,
        ensures
            l.0@ == numbered("%Entry_"@, old(self).while_counter as nat),
            l.1@ == numbered("%Body_"@, old(self).while_counter as nat),
            l.2@ == numbered("%While_End_"@, old(self).while_counter as nat),
            final(self).while_counter == old(self).while_counter + 1,
            final(self).if_counter == old(self).if_counter,
    {
        let counter = self.while_counter;
        self.while_counter = self.while_counter + 1;
        let n = usize_string(counter);
        (
            join2("%Entry_", n.as_str()),
            join2("%Body_", n.as_str()),
            join2("%While_End_", n.as_str()),
        )
    }
}

} // verus!
