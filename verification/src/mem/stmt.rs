//! Lowering of statements.

use vstd::prelude::*;
use crate::ast::{Assign, Block, BlockItem, Break, Continue, Decl, Exp, If, Return, Stmt, While};
use crate::mem::create::{access_of, carried, classify, kept, Access};
use crate::mem::emit::{
    emit_jump,
    emit_load,
    emit_ret,
    emit_store,
    entry_ok,
    grows_from,
    lookup_ok,
    ready,
    Error,
};
use crate::mem::info::Info;
use crate::mem::lval::index_chain;
use crate::mem::owed::{came, came_to};
use crate::mem::rules::{
    close_step,
    follows,
    items_lower,
    made,
    one,
    open_step,
    state,
    step_one,
    Step,
};
use crate::mem::scope::{lookup, Entry, Scope};
use crate::program::entities::{Prog, Val};

verus! {

impl Return {
    /// `return;` or `return e;`.
    pub fn create(&self, program: &mut Prog, scope: &mut Scope, info: &mut Info) -> (r: Result<
        (),
        Error,
    >)
        requires
            ready(old(program), old(scope), old(info)),
        ensures
            r is Ok ==> kept(
                final(program),
                final(scope),
                final(info),
                old(program),
                old(scope),
                old(info),
            ),
            r is Ok ==> self.lowers(
                state(old(program), old(scope), old(info)),
                state(final(program), final(scope), final(info)),
            ),
            self.exp is None ==> (r matches Err(e) ==> old(scope).cur_func is None && e
                == Error::OutsideFunction),
            self.exp is None && old(scope).cur_func is Some ==> r is Ok,
            self.sure(state(old(program), old(scope), old(info))) ==> r is Ok,
        decreases self,
    {
        let ghost a = state(program, scope, info);
        proof {
            grows_from(program, program);
        }
        let value = match &self.exp {
            Some(exp) => Some(exp.create(program, scope, info)?),
            None => None,
        };
        let ghost m = state(program, scope, info);
        proof {
            match value {
                Some(x) => {
                    assert(came(m, x));
                },
                None => {},
            }
        }
        emit_ret(program, scope, info, value)?;
        proof {
            let b = state(program, scope, info);
            step_one(m, Step::Ret(value), b);
            assert(follows(m, a));
            assert(self.lowers(a, b));
        }
        Ok(())
    }
}

impl Assign {
    /// `lval = exp;`: the right side first, then the way to the place, then
    /// the store.
    pub fn create(&self, program: &mut Prog, scope: &mut Scope, info: &mut Info) -> (r: Result<
        (),
        Error,
    >)
        requires
            ready(old(program), old(scope), old(info)),
        ensures
            r is Ok ==> kept(
                final(program),
                final(scope),
                final(info),
                old(program),
                old(scope),
                old(info),
            ),
            r is Ok ==> self.lowers(
                state(old(program), old(scope), old(info)),
                state(final(program), final(scope), final(info)),
            ),
            lookup(old(scope).frames(), self.lval.id@) is None ==> r == Err::<(), Error>(
                Error::UnknownName,
            ),
            lookup(old(scope).frames(), self.lval.id@) matches Some(Entry::Const(_)) ==> r == Err::<
                (),
                Error,
            >(Error::ConstAssign),
            (lookup(old(scope).frames(), self.lval.id@) matches Some(Entry::Value(var)) && !(
            access_of(old(program).ty(var), self.lval.dims.len() as nat) matches Some(x) && (x
                == Access::Scalar || x == Access::Element || x == Access::PointerElement))) ==> r
                == Err::<(), Error>(Error::BadLVal),
            !(lookup(old(scope).frames(), self.lval.id@) matches Some(Entry::Value(var))
                && access_of(old(program).ty(var), self.lval.dims.len() as nat) matches Some(x) && (x
                == Access::Scalar || x == Access::Element || x == Access::PointerElement)) ==> {
                &&& *final(program) == *old(program)
                &&& *final(scope) == *old(scope)
                &&& *final(info) == *old(info)
            },
            self.sure(state(old(program), old(scope), old(info))) ==> r is Ok,
        decreases self,
    {
        let ghost a = state(program, scope, info);
        let var = match scope.get(&self.lval.id) {
            Some(Entry::Value(var)) => var,
            Some(Entry::Const(_)) => {
                return Err(Error::ConstAssign);
            },
            None => {
                return Err(Error::UnknownName);
            },
        };
        proof {
            lookup_ok(scope.frames(), self.lval.id@, program, scope.cur_func);
            grows_from(program, program);
        }
        let access = match classify(program.value_ty(var), self.lval.dims.len()) {
            Some(access) => access,
            None => {
                return Err(Error::BadLVal);
            },
        };
        match access {
            Access::Scalar => {
                let value = self.exp.create(program, scope, info)?;
                let ghost m = state(program, scope, info);
                proof {
                    assert(came(m, value));
                }
                emit_store(program, scope, info, value, var)?;
                proof {
                    let b = state(program, scope, info);
                    step_one(m, Step::Store(value, var), b);
                    assert(follows(m, a));
                    assert(self.lowers(a, b));
                }
                Ok(())
            },
            Access::Element => {
                let value = self.exp.create(program, scope, info)?;
                let ghost m1 = state(program, scope, info);
                proof {
                    assert(came(m1, value));
                }
                let at = index_chain(&self.lval.dims, program, scope, info, var, false)?;
                let ghost m2 = state(program, scope, info);
                proof {
                    assert(came(m2, at));
                }
                emit_store(program, scope, info, value, at)?;
                proof {
                    let b = state(program, scope, info);
                    step_one(m2, Step::Store(value, at), b);
                    assert(follows(m1, a));
                    assert(self.lowers(a, b));
                }
                Ok(())
            },
            Access::PointerElement => {
                let value = self.exp.create(program, scope, info)?;
                let ghost m1 = state(program, scope, info);
                proof {
                    assert(came(m1, value));
                }
                let pointer = emit_load(program, scope, info, var)?;
                let ghost m2 = state(program, scope, info);
                proof {
                    step_one(m1, Step::Load(var), m2);
                }
                let at = index_chain(&self.lval.dims, program, scope, info, pointer, true)?;
                let ghost m3 = state(program, scope, info);
                proof {
                    assert(came(m3, at));
                }
                emit_store(program, scope, info, value, at)?;
                proof {
                    let b = state(program, scope, info);
                    step_one(m1, Step::Load(var), m2);
                    step_one(m3, Step::Store(value, at), b);
                    assert(pointer == m1.next());
                    assert(self.lowers(a, b));
                }
                Ok(())
            },
            Access::Slice => Err(Error::BadLVal),
            Access::PointerSlice => Err(Error::BadLVal),
        }
    }
}

impl Break {
    /// Jumps to the end of the innermost loop.
    pub fn create(&self, program: &mut Prog, scope: &mut Scope, info: &mut Info) -> (r: Result<
        (),
        Error,
    >)
        requires
            ready(old(program), old(scope), old(info)),
        ensures
            *final(scope) == *old(scope),
            match r {
                Ok(_) => {
                    &&& kept(
                        final(program),
                        final(scope),
                        final(info),
                        old(program),
                        old(scope),
                        old(info),
                    )
                    &&& self.lowers(
                        state(old(program), old(scope), old(info)),
                        state(final(program), final(scope), final(info)),
                    )
                },
                Err(e) => {
                    &&& e == Error::OutsideLoop
                    &&& old(scope).loop_info.len() == 0
                    &&& *final(program) == *old(program)
                    &&& *final(info) == *old(info)
                },
            },
    {
        let ghost a = state(program, scope, info);
        let n = scope.loop_info().len();
        if n == 0 {
            return Err(Error::OutsideLoop);
        }
        let (_, end_bb) = scope.loop_info()[n - 1];
        emit_jump(program, scope, info, end_bb);
        proof {
            step_one(a, Step::Jump(end_bb), state(program, scope, info));
        }
        Ok(())
    }
}

impl Continue {
    /// Jumps to the entry of the innermost loop.
    pub fn create(&self, program: &mut Prog, scope: &mut Scope, info: &mut Info) -> (r: Result<
        (),
        Error,
    >)
        requires
            ready(old(program), old(scope), old(info)),
        ensures
            *final(scope) == *old(scope),
            match r {
                Ok(_) => {
                    &&& kept(
                        final(program),
                        final(scope),
                        final(info),
                        old(program),
                        old(scope),
                        old(info),
                    )
                    &&& self.lowers(
                        state(old(program), old(scope), old(info)),
                        state(final(program), final(scope), final(info)),
                    )
                },
                Err(e) => {
                    &&& e == Error::OutsideLoop
                    &&& old(scope).loop_info.len() == 0
                    &&& *final(program) == *old(program)
                    &&& *final(info) == *old(info)
                },
            },
    {
        let ghost a = state(program, scope, info);
        let n = scope.loop_info().len();
        if n == 0 {
            return Err(Error::OutsideLoop);
        }
        let (entry_bb, _) = scope.loop_info()[n - 1];
        emit_jump(program, scope, info, entry_bb);
        proof {
            step_one(a, Step::Jump(entry_bb), state(program, scope, info));
        }
        Ok(())
    }
}

impl Stmt {
    pub fn create(&self, program: &mut Prog, scope: &mut Scope, info: &mut Info) -> (r: Result<
        (),
        Error,
    >)
        requires
            ready(old(program), old(scope), old(info)),
        ensures
            r is Ok ==> kept(
                final(program),
                final(scope),
                final(info),
                old(program),
                old(scope),
                old(info),
            ),
            r is Ok ==> self.lowers(
                state(old(program), old(scope), old(info)),
                state(final(program), final(scope), final(info)),
            ),
            self matches Stmt::Exp(None) ==> r is Ok && *final(scope) == *old(scope),
            self.sure(state(old(program), old(scope), old(info))) ==> r is Ok,
        decreases self,
    {
        match self {
            Stmt::Return(ret) => ret.create(program, scope, info),
            Stmt::Assign(assign) => assign.create(program, scope, info),
            Stmt::Exp(exp) => match exp {
                Some(exp) => {
                    let v = exp.create(program, scope, info)?;
                    proof {
                        assert(made(state(program, scope, info), v));
                    }
                    Ok(())
                },
                None => {
                    proof {
                        grows_from(program, program);
                    }
                    Ok(())
                },
            },
            Stmt::Block(block) => block.create(program, scope, info),
            Stmt::If(f) => f.create(program, scope, info),
            Stmt::While(w) => w.create(program, scope, info),
            Stmt::Break(b) => b.create(program, scope, info),
            Stmt::Continue(c) => c.create(program, scope, info),
        }
    }
}

impl Block {
    /// Lowers the items in a frame of their own.
    pub fn create(&self, program: &mut Prog, scope: &mut Scope, info: &mut Info) -> (r: Result<
        (),
        Error,
    >)
        requires
            ready(old(program), old(scope), old(info)),
        ensures
            r is Ok ==> kept(
                final(program),
                final(scope),
                final(info),
                old(program),
                old(scope),
                old(info),
            ),
            r is Ok ==> self.lowers(
                state(old(program), old(scope), old(info)),
                state(final(program), final(scope), final(info)),
            ),
            self.sure(state(old(program), old(scope), old(info))) ==> r is Ok,
        decreases self,
    {
        let ghost a = state(program, scope, info);
        proof {
            grows_from(program, program);
        }
        scope.enter();
        let ghost entered = *scope;
        let ghost m1 = state(program, scope, info);
        proof {
            open_step(a, m1);
            step_one(a, Step::Open, m1);
            assert(scope.frames().drop_last() =~= old(scope).frames());
            assert(crate::mem::emit::frames_ok(scope.frames(), program, scope.cur_func)) by {
                let frames = scope.frames();
                assert forall|i: int, j: int|
                    0 <= i < frames.len() && 0 <= j < frames[i].len() implies entry_ok(
                    program,
                    scope.cur_func,
                    (#[trigger] frames[i][j]).1,
                ) by {
                    assert(frames[i] == old(scope).frames()[i]);
                }
            }
        }
        let mut k: usize = 0;
        while k < self.items.len()
            invariant
                k <= self.items.len(),
                carried(program, scope, info, old(program), &entered, old(info)),
                info.zero_array_infos@ == old(info).zero_array_infos@,
                scope.table() == entered.table(),
                entered.frames().drop_last() == old(scope).frames(),
                entered.table() == old(scope).table(),
                entered.cur_func == old(scope).cur_func,
                entered.loop_info@ == old(scope).loop_info@,
                entered.label == old(scope).label,
                m1 == state(old(program), &entered, old(info)),
                a == state(old(program), old(scope), old(info)),
                one(a, Step::Open, m1),
                items_lower(self.items, k as nat, m1, state(program, scope, info)),
            decreases self.items.len() - k,
        {
            let ghost m = state(program, scope, info);
            proof {
                assert(came_to(k as nat, m, Seq::<Val>::empty()));
            }
            self.items[k].create(program, scope, info)?;
            proof {
                assert(follows(m, m1));
                assert(items_lower(self.items, (k + 1) as nat, m1, state(program, scope, info)));
            }
            k += 1;
        }
        let ghost inner = *scope;
        let ghost m2 = state(program, scope, info);
        scope.exit();
        proof {
            let b = state(program, scope, info);
            close_step(m2, b);
            step_one(m2, Step::Close, b);
            assert(scope.frames() == old(scope).frames());
            assert(crate::mem::emit::frames_ok(scope.frames(), program, scope.cur_func)) by {
                let frames = scope.frames();
                assert forall|i: int, j: int|
                    0 <= i < frames.len() && 0 <= j < frames[i].len() implies entry_ok(
                    program,
                    scope.cur_func,
                    (#[trigger] frames[i][j]).1,
                ) by {
                    assert(frames[i] == inner.frames()[i]);
                    assert(entry_ok(program, scope.cur_func, inner.frames()[i][j].1));
                }
            }
            assert(self.lowers(a, b));
        }
        Ok(())
    }
}

impl BlockItem {
    /// A statement, or a declaration inside a function.
    pub fn create(&self, program: &mut Prog, scope: &mut Scope, info: &mut Info) -> (r: Result<
        (),
        Error,
    >)
        requires
            ready(old(program), old(scope), old(info)),
        ensures
            r is Ok ==> {
                &&& carried(
                    final(program),
                    final(scope),
                    final(info),
                    old(program),
                    old(scope),
                    old(info),
                )
                &&& final(scope).table() == old(scope).table()
                &&& final(info).zero_array_infos@ == old(info).zero_array_infos@
                &&& self.lowers(
                    state(old(program), old(scope), old(info)),
                    state(final(program), final(scope), final(info)),
                )
            },
            (self is Decl && old(scope).cur_func is None) ==> r == Err::<(), Error>(
                Error::OutsideFunction,
            ),
            self.sure(state(old(program), old(scope), old(info))) ==> r is Ok,
        decreases self,
    {
        match self {
            BlockItem::Stmt(stmt) => stmt.create(program, scope, info),
            BlockItem::Decl(decl) => {
                if scope.is_global() {
                    return Err(Error::OutsideFunction);
                }
                decl.create(program, scope, info)
            },
        }
    }
}

} // verus!
