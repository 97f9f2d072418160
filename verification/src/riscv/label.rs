//! Labels for global data in the assembly output.

use vstd::prelude::*;
use crate::text::{decimal, join2, usize_string};

verus! {

pub struct Label {
    pub var: usize,
}

impl Label {
    pub fn new() -> (l: Self)
        ensures
            l.var == 0,
    {
        Self { var: 0 }
    }

    /// `var_` and the next unused number.
    pub fn var(&mut self) -> (s: String)
        requires
            old(self).var < usize::MAX,
        ensures
            s@ == "var_"@ + decimal(old(self).var as nat),
            final(self).var == old(self).var + 1,
    {
        let label = join2("var_", usize_string(self.var).as_str());
        self.var = self.var + 1;
        label
    }
}

} // verus!
