//! Names for the allocations that the textual IR shows: local and global,
//! scalar and array, each numbered on its own.

use vstd::prelude::*;
use crate::text::{decimal, join2, usize_string};

verus! {

pub struct Label {
    pub local_var: usize,
    pub local_arr: usize,
    pub global_var: usize,
    pub global_arr: usize,
}

impl Label {
    pub fn new() -> (l: Self)
        ensures
            l.local_var == 0,
            l.local_arr == 0,
            l.global_var == 0,
            l.global_arr == 0,
    {
        Self { local_var: 0, local_arr: 0, global_var: 0, global_arr: 0 }
    }

    /// `@var` and the next unused number.
    pub fn local_var(&mut self) -> (s: String)
        requires
            old(self).local_var < usize::MAX,
        ensures
            s@ == "@var"@ + decimal(old(self).local_var as nat),
            *final(self) == (Label { local_var: (old(self).local_var + 1) as usize, ..*old(self) }),
    {
        let result = join2("@var", usize_string(self.local_var).as_str());
        self.local_var = self.local_var + 1;
        result
    }

    /// `@arr` and the next unused number.
    pub fn local_arr(&mut self) -> (s: String)
        requires
            old(self).local_arr < usize::MAX,
        ensures
            s@ == "@arr"@ + decimal(old(self).local_arr as nat),
            *final(self) == (Label { local_arr: (old(self).local_arr + 1) as usize, ..*old(self) }),
    {
        let result = join2("@arr", usize_string(self.local_arr).as_str());
        self.local_arr = self.local_arr + 1;
        result
    }

    /// `@Gvar` and the next unused number.
    pub fn global_var(&mut self) -> (s: String)
        requires
            old(self).global_var < usize::MAX,
        ensures
            s@ == "@Gvar"@ + decimal(old(self).global_var as nat),
            *final(self) == (Label {
                global_var: (old(self).global_var + 1) as usize,
                ..*old(self)
            }),
    {
        let result = join2("@Gvar", usize_string(self.global_var).as_str());
        self.global_var = self.global_var + 1;
        result
    }

    /// `@Garr` and the next unused number.
    pub fn global_arr(&mut self) -> (s: String)
        requires
            old(self).global_arr < usize::MAX,
        ensures
            s@ == "@Garr"@ + decimal(old(self).global_arr as nat),
            *final(self) == (Label {
                global_arr: (old(self).global_arr + 1) as usize,
                ..*old(self)
            }),
    {
        let result = join2("@Garr", usize_string(self.global_arr).as_str());
        self.global_arr = self.global_arr + 1;
        result
    }
}

} // verus!
