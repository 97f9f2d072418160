//! The front end: from the syntax tree to the program in memory.
//!
//! Along the way every value gets a birth and a death stamp for the register
//! allocator, and every expression that can be evaluated is replaced by its
//! number.
//!
//! What lowering does is stated as rules over steps: [`rules`] has the
//! steps and the rules for expressions and statements, [`decl_rules`] the
//! rules for declarations, functions and the unit. When lowering is owed is
//! stated by [`owed`] and [`decl_owed`]: a node that is sure is lowered.
//! [`emit`] makes the steps. [`create`] holds what the lowering of every
//! node shares; [`lval`], [`call`], [`primary`], [`binary`] and [`circuit`]
//! lower expressions, [`stmt`] and [`branch`] statements, [`define`] and
//! [`constant`] definitions, [`func`] functions and the unit. The smaller
//! modules hold what these share: [`values`] the initializers, [`scalar`]
//! and [`word`] the scalars, [`array`] the arrays, [`frame`] the frames of
//! functions.

pub mod array;
pub mod binary;
pub mod branch;
pub mod call;
pub mod circuit;
pub mod constant;
pub mod create;
pub mod decl;
pub mod decl_owed;
pub mod decl_rules;
pub mod define;
pub mod emit;
pub mod eval;
pub mod frame;
pub mod func;
pub mod info;
pub mod init;
pub mod label;
pub mod lval;
pub mod owed;
pub mod primary;
pub mod rules;
pub mod scalar;
pub mod scope;
pub mod stmt;
pub mod values;
pub mod word;

use vstd::prelude::*;
use crate::ast::CompUnit;
use crate::mem::decl_rules::fresh;
use crate::mem::emit::{stamps_ok, Error};
use crate::mem::info::Info;
use crate::mem::rules::{state, State};
use crate::mem::scope::Scope;
use crate::program::entities::Prog;

verus! {

/// Lowers a compilation unit into a new program, with the stamps of its
/// values: what the rules of lowering give from a fresh state.
pub fn generate_mem(ast: &CompUnit) -> (r: Result<(Prog, Info), Error>)
    ensures
        r matches Ok((program, info)) ==> {
            &&& program.wf()
            &&& stamps_ok(&info, program.values.len() as nat)
            &&& exists|a: State, b: State|
                #![trigger ast.lowers(a, b)]
                fresh(a) && ast.lowers(a, b) && b.program == program && b.info == info
        },
        (forall|a: State| #[trigger] fresh(a) ==> ast.sure(a)) ==> r is Ok,
{
    let mut program = Prog::new();
    let mut info = Info::new();
    let mut scope = Scope::new();
    let ghost a = state(&program, &scope, &info);
    proof {
        assert(scope.frames().len() == 1);
        assert(scope.frames()[0].len() == 0);
        assert(fresh(a));
    }
    match ast.create(&mut program, &mut scope, &mut info) {
        Ok(_) => {
            proof {
                let b = state(&program, &scope, &info);
                assert(ast.lowers(a, b));
            }
            Ok((program, info))
        },
        Err(e) => Err(e),
    }
}

} // verus!
