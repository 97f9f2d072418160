//! The textual form of the intermediate representation.

pub mod label;
pub mod output;
pub mod scope;
pub mod translate;
pub mod writer;

use vstd::prelude::*;
use crate::ir::output::{no_names, program_text};
use crate::ir::scope::Scope;
use crate::ir::writer::{EmitError, Writer};
use crate::mem::info::Info;
use crate::program::entities::Prog;

verus! {

/// The textual form of a program, as [`program_text`] has it; an error
/// when the program cannot be written.
pub fn generate_ir(program: &Prog, info: &Info) -> (r: Result<String, EmitError>)
    requires
        program.wf(),
    ensures
        match program_text(program, info, no_names()) {
            Some((_, t)) => r matches Ok(s) && s@ == t,
            None => r is Err,
        },
{
    let mut scope = Scope::new();
    let mut w = Writer::new();
    proof {
        assert(scope.pen().names =~= no_names().names);
        assert(scope.pen() == no_names());
    }
    program.translate(&mut scope, &mut w, info)?;
    proof {
        let t = program_text(program, info, no_names())->Some_0.1;
        assert(Seq::<char>::empty() + t =~= t);
    }
    Ok(w.text)
}

} // verus!
