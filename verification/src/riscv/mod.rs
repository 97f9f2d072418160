//! RISC-V assembly: frames, registers and the text of the output.

pub mod code;
pub mod inst;
pub mod label;
pub mod lower;
pub mod order;
pub mod register;
pub mod scope;
pub mod writer;

use vstd::prelude::*;
use crate::mem::info::Info;
use crate::program::entities::{Func, Prog, ValueKind};
use crate::riscv::code::lowered;
use crate::riscv::lower::{
    bare,
    global_fits,
    global_text,
    lines_text,
    lower_function,
    strip,
    write_global,
    write_lines,
    AsmError,
};
use crate::riscv::scope::{Entry, Scope};
use crate::riscv::writer::Writer;
use crate::text::decimal;

verus! {

/// How many of the first `upto` values of the layout of globals are global
/// allocations.
pub open spec fn globals_before(program: &Prog, upto: int) -> nat
    decreases upto,
{
    if upto <= 0 {
        0
    } else {
        globals_before(program, upto - 1) + if program.kind(program.inst_layout[upto - 1])
            is GlobalAlloc {
            1nat
        } else {
            0nat
        }
    }
}

/// The data of the first `upto` values of the layout of globals: for each
/// global allocation its data, under the label `var_` and its number among
/// them, and an empty line.
pub open spec fn data_section(program: &Prog, info: &Info, upto: int) -> Seq<char>
    decreases upto,
{
    if upto <= 0 {
        Seq::empty()
    } else {
        data_section(program, info, upto - 1) + match program.kind(program.inst_layout[upto - 1]) {
            ValueKind::GlobalAlloc(init) => global_text(
                program,
                info,
                init,
                "var_"@ + decimal(globals_before(program, upto - 1)),
            ) + "\n"@,
            _ => Seq::empty(),
        }
    }
}

/// Whether the data of each of the first `upto` values of the layout of
/// globals can be written.
pub open spec fn data_fits(program: &Prog, info: &Info, upto: int) -> bool {
    forall|k: int|
        0 <= k < upto ==> (program.kind(#[trigger] program.inst_layout[k]) matches ValueKind::GlobalAlloc(
            init,
        ) ==> global_fits(program, info, init))
}

/// `places` says where the global allocations among the first `upto`
/// values of the layout of globals live: each under the label `var_` and
/// its number among them; nothing else has a place.
pub open spec fn globals_placed(program: &Prog, upto: int, places: Map<usize, Entry>) -> bool
    decreases upto,
{
    if upto <= 0 {
        places == Map::<usize, Entry>::empty()
    } else {
        let v = program.inst_layout[upto - 1];
        if program.kind(v) is GlobalAlloc {
            exists|prev: Map<usize, Entry>, e: Entry|
                #![trigger prev.insert(v.id, e)]
                {
                    &&& globals_placed(program, upto - 1, prev)
                    &&& e matches Entry::Label(l) && l@ == "var_"@ + decimal(
                        globals_before(program, upto - 1),
                    )
                    &&& places == prev.insert(v.id, e)
                }
        } else {
            globals_placed(program, upto - 1, places)
        }
    }
}

/// The text `acc`, then what `rest` gives.
pub open spec fn after_text(acc: Seq<char>, rest: Option<Seq<char>>) -> Option<Seq<char>> {
    match rest {
        Some(t) => Some(acc + t),
        None => None,
    }
}

/// The code of the functions from the one numbered `from` on, with
/// `places` for where the values live so far: for each function that has
/// a body, in order, the text of its lines, under its name without the
/// sigil, and an empty line. None when one of them cannot be lowered.
pub open spec fn code_section(program: &Prog, from: int, places: Map<usize, Entry>) -> Option<
    Seq<char>,
>
    decreases program.funcs.len() - from,
{
    if from < 0 || from >= program.funcs.len() {
        Some(Seq::empty())
    } else if program.funcs[from].bbs.len() == 0 {
        code_section(program, from + 1, places)
    } else {
        match lowered(program, Func { id: from as usize }, places) {
            Some((f, t)) => after_text(
                lines_text(program, t, bare(program.funcs[from].name@), f.total as nat, f.caller)
                    + "\n"@,
                code_section(program, from + 1, f.places),
            ),
            None => None,
        }
    }
}

/// Text in a row can be taken together either way.
proof fn after_after(acc: Seq<char>, t: Seq<char>, rest: Option<Seq<char>>)
    ensures
        after_text(acc, after_text(t, rest)) == after_text(acc + t, rest),
{
    match rest {
        Some(u) => {
            assert(acc + (t + u) =~= (acc + t) + u);
        },
        None => {},
    }
}

/// How many global allocations there are is bounded by the layout.
proof fn globals_bounded(program: &Prog, upto: int)
    requires
        0 <= upto,
    ensures
        globals_before(program, upto) <= upto,
    decreases upto,
{
    if upto > 0 {
        globals_bounded(program, upto - 1);
    }
}

/// Writes the data of the global allocations, as [`data_section`] has it.
fn write_data(program: &Prog, info: &Info, scope: &mut Scope, w: &mut Writer) -> (r: Result<
    (),
    AsmError,
>)
    requires
        program.wf(),
        old(scope).label.var == 0,
        old(scope).values@ == Map::<usize, Entry>::empty(),
        old(w).text@ == Seq::<char>::empty(),
    ensures
        r is Ok <==> data_fits(program, info, program.inst_layout.len() as int),
        r is Ok ==> {
            &&& final(w).text@ == data_section(program, info, program.inst_layout.len() as int)
            &&& globals_placed(program, program.inst_layout.len() as int, final(scope).values@)
        },
{
    let mut k: usize = 0;
    while k < program.inst_layout.len()
        invariant
            k <= program.inst_layout.len(),
            program.wf(),
            scope.label.var == globals_before(program, k as int),
            w.text@ == data_section(program, info, k as int),
            globals_placed(program, k as int, scope.values@),
            data_fits(program, info, k as int),
        decreases program.inst_layout.len() - k,
    {
        let v = program.inst_layout[k];
        proof {
            assert(program.global_ok(k as int));
            assert(program.data_ok(program.values[v.id as int], v.id as int));
            globals_bounded(program, k as int);
        }
        match program.value_kind(v) {
            ValueKind::GlobalAlloc(init) => {
                let ghost before = w.text@;
                let ghost prev = scope.values@;
                write_global(program, info, v, *init, scope, w)?;
                w.line();
                proof {
                    let t = global_text(
                        program,
                        info,
                        *init,
                        "var_"@ + decimal(globals_before(program, k as int)),
                    );
                    assert(w.text@ =~= before + (t + "\n"@));
                    let e = scope.place(v)->Some_0;
                    assert(scope.values@ == prev.insert(v.id, e));
                    assert(globals_placed(program, k + 1, scope.values@));
                }
            },
            _ => {
                proof {
                    assert(w.text@ + Seq::<char>::empty() =~= w.text@);
                }
            },
        }
        k += 1;
    }
    Ok(())
}

/// Writes the code of the functions, as [`code_section`] has it.
fn write_code(program: &Prog, scope: &mut Scope, w: &mut Writer) -> (r: Result<(), AsmError>)
    requires
        program.wf(),
    ensures
        match code_section(program, 0, old(scope).values@) {
            Some(t) => r is Ok && final(w).text@ == old(w).text@ + t,
            None => r is Err,
        },
{
    let ghost first = scope.values@;
    let ghost start = w.text@;
    let ghost acc = Seq::<char>::empty();
    proof {
        assert(start + acc =~= start);
        match code_section(program, 0, first) {
            Some(t) => {
                assert(acc + t =~= t);
            },
            None => {},
        }
    }
    let mut f: usize = 0;
    while f < program.funcs.len()
        invariant
            f <= program.funcs.len(),
            program.wf(),
            first == old(scope).values@,
            start == old(w).text@,
            w.text@ == start + acc,
            code_section(program, 0, first) == after_text(
                acc,
                code_section(program, f as int, scope.values@),
            ),
        decreases program.funcs.len() - f,
    {
        if program.funcs[f].bbs.len() > 0 {
            let ghost places = scope.values@;
            proof {
                assert(code_section(program, f as int, places) == match lowered(
                    program,
                    Func { id: f },
                    places,
                ) {
                    Some((fr, t)) => after_text(
                        lines_text(
                            program,
                            t,
                            bare(program.funcs[f as int].name@),
                            fr.total as nat,
                            fr.caller,
                        ) + "\n"@,
                        code_section(program, f + 1, fr.places),
                    ),
                    None => None,
                });
            }
            let lines = lower_function(program, Func { id: f }, scope)?;
            let name = strip(&program.funcs[f].name);
            write_lines(program, &lines, name.as_str(), scope, w);
            w.line();
            proof {
                let part = lines_text(
                    program,
                    lines@,
                    bare(program.funcs[f as int].name@),
                    scope.total_slots as nat,
                    scope.caller,
                ) + "\n"@;
                after_after(acc, part, code_section(program, f + 1, scope.values@));
                assert(w.text@ =~= start + (acc + part));
                acc = acc + part;
            }
        }
        f += 1;
    }
    proof {
        assert(acc + Seq::<char>::empty() =~= acc);
    }
    Ok(())
}

/// The assembly of a program: the data of its global allocations, as
/// [`data_section`] has it, then the code of its functions that have a
/// body, as [`code_section`] has it with the global allocations under
/// their labels. An error when a global cannot be written as data or a
/// function cannot be lowered.
pub fn generate_asm(program: &Prog, info: &Info) -> (r: Result<String, AsmError>)
    requires
        program.wf(),
    ensures
        match r {
            Ok(s) => exists|places: Map<usize, Entry>|
                #![trigger code_section(program, 0, places)]
                {
                    &&& globals_placed(program, program.inst_layout.len() as int, places)
                    &&& code_section(program, 0, places) matches Some(code) && s@ == data_section(
                        program,
                        info,
                        program.inst_layout.len() as int,
                    ) + code
                },
            Err(_) => !data_fits(program, info, program.inst_layout.len() as int) || exists|
                places: Map<usize, Entry>,
            |
                #![trigger code_section(program, 0, places)]
                globals_placed(program, program.inst_layout.len() as int, places) && code_section(
                    program,
                    0,
                    places,
                ) is None,
        },
{
    let mut scope = Scope::new();
    let mut w = Writer::new();
    write_data(program, info, &mut scope, &mut w)?;
    let ghost places = scope.values@;
    match write_code(program, &mut scope, &mut w) {
        Ok(_) => Ok(w.text),
        Err(e) => {
            proof {
                assert(code_section(program, 0, places) is None);
            }
            Err(e)
        },
    }
}

} // verus!
