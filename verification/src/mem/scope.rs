//! What the front end keeps in mind while it walks the tree: the names in
//! sight, the function and block under construction, the enclosing loops, the
//! dimensions of the array being initialized, and the label generator.

use vstd::prelude::*;
use crate::mem::label::Label;
use crate::program::entities::{Bb, Func, Val};

verus! {

/// What a name stands for: a compile-time constant, or a value of the program
/// (the address of a variable).
#[derive(Clone, Copy, Debug, PartialEq, Eq, Structural)]
pub enum Entry {
    Const(i32),
    Value(Val),
}

/// One block's bindings, oldest first.
pub type Frame = Seq<(Seq<char>, Entry)>;

/// The binding of `id` in one frame: the latest one made.
pub open spec fn find(frame: Frame, id: Seq<char>) -> Option<Entry>
    decreases frame.len(),
{
    if frame.len() == 0 {
        None
    } else if frame.last().0 == id {
        Some(frame.last().1)
    } else {
        find(frame.drop_last(), id)
    }
}

/// The binding of `id` in a stack of frames, outermost first: that of the
/// innermost frame that has one.
pub open spec fn lookup(frames: Seq<Frame>, id: Seq<char>) -> Option<Entry>
    decreases frames.len(),
{
    if frames.len() == 0 {
        None
    } else {
        match find(frames.last(), id) {
            Some(e) => Some(e),
            None => lookup(frames.drop_last(), id),
        }
    }
}

/// The function that `id` names in a function table, oldest entry first.
pub open spec fn find_func(table: Seq<(Seq<char>, Func)>, id: Seq<char>) -> Option<Func>
    decreases table.len(),
{
    if table.len() == 0 {
        None
    } else if table.last().0 == id {
        Some(table.last().1)
    } else {
        find_func(table.drop_last(), id)
    }
}

pub open spec fn frame_view(frame: Vec<(String, Entry)>) -> Frame {
    frame@.map_values(|b: (String, Entry)| (b.0@, b.1))
}

/// The innermost binding wins, and leaving a block brings back what the name
/// meant outside it: with `inner` bound to `id` in a new innermost frame the
/// lookup gives `inner`; with that frame gone it gives what it gave before.
pub proof fn shadowing(frames: Seq<Frame>, id: Seq<char>, inner: Entry)
    ensures
        lookup(frames.push(seq![(id, inner)]), id) == Some(inner),
        lookup(frames.push(seq![(id, inner)]).drop_last(), id) == lookup(frames, id),
{
    let entered = frames.push(seq![(id, inner)]);
    assert(entered.last() == seq![(id, inner)]);
    assert(seq![(id, inner)].last() == (id, inner));
    assert(entered.drop_last() =~= frames);
}

/// A binding made in the innermost frame hides any other of that name and
/// leaves every other name as it was.
pub proof fn binding(frames: Seq<Frame>, id: Seq<char>, entry: Entry, other: Seq<char>)
    requires
        frames.len() > 0,
    ensures
        lookup(frames.update(frames.len() - 1, frames.last().push((id, entry))), id) == Some(
            entry,
        ),
        other != id ==> lookup(
            frames.update(frames.len() - 1, frames.last().push((id, entry))),
            other,
        ) == lookup(frames, other),
{
    let bound = frames.update(frames.len() - 1, frames.last().push((id, entry)));
    assert(bound.last() == frames.last().push((id, entry)));
    assert(bound.last().last() == (id, entry));
    assert(bound.last().drop_last() =~= frames.last());
    assert(bound.drop_last() =~= frames.drop_last());
}

pub struct Scope {
    pub values: Vec<Vec<(String, Entry)>>,
    pub funcs: Vec<(String, Func)>,
    pub cur_func: Option<Func>,
    pub cur_bb: Option<Bb>,
    /// For each enclosing loop, outermost first: where `continue` goes and
    /// where `break` goes.
    pub loop_info: Vec<(Bb, Bb)>,
    pub array_info: Vec<usize>,
    pub label: Label,
}

impl Scope {
    /// The stack of frames, outermost first.
    pub open spec fn frames(&self) -> Seq<Frame> {
        self.values@.map_values(|f: Vec<(String, Entry)>| frame_view(f))
    }

    /// The function table, oldest entry first.
    pub open spec fn table(&self) -> Seq<(Seq<char>, Func)> {
        self.funcs@.map_values(|b: (String, Func)| (b.0@, b.1))
    }

    /// A scope with the global frame alone, outside any function.
    pub fn new() -> (s: Self)
        ensures
            s.frames() == seq![Seq::<(Seq<char>, Entry)>::empty()],
            s.table() == Seq::<(Seq<char>, Func)>::empty(),
            s.cur_func is None,
            s.cur_bb is None,
            s.loop_info@ == Seq::<(Bb, Bb)>::empty(),
            s.array_info@ == Seq::<usize>::empty(),
            s.label.if_counter == 0,
            s.label.while_counter == 0,
    {
        let mut values: Vec<Vec<(String, Entry)>> = Vec::new();
        values.push(Vec::new());
        let s = Self {
            values,
            funcs: Vec::new(),
            cur_func: None,
            cur_bb: None,
            loop_info: Vec::new(),
            array_info: Vec::new(),
            label: Label::new(),
        };
        assert(s.frames() =~= seq![Seq::<(Seq<char>, Entry)>::empty()]) by {
            assert(s.frames().len() == 1);
            assert(s.frames()[0] =~= Seq::<(Seq<char>, Entry)>::empty());
        }
        assert(s.table() =~= Seq::<(Seq<char>, Func)>::empty());
        s
    }

    fn find_in(frame: &Vec<(String, Entry)>, id: &String) -> (r: Option<Entry>)
        ensures
            r == find(frame_view(*frame), id@),
    {
        let mut i: usize = frame.len();
        assert(frame_view(*frame).take(i as int) =~= frame_view(*frame));
        while i > 0
            invariant
                i <= frame.len(),
                find(frame_view(*frame), id@) == find(frame_view(*frame).take(i as int), id@),
            decreases i,
        {
            let ghost part = frame_view(*frame).take(i as int);
            assert(part.last() == (frame@[i - 1].0@, frame@[i - 1].1));
            assert(part.drop_last() =~= frame_view(*frame).take(i - 1));
            if frame[i - 1].0 == *id {
                return Some(frame[i - 1].1);
            }
            i -= 1;
        }
        assert(frame_view(*frame).take(0).len() == 0);
        None
    }

    /// Looks a name up, innermost frame first.
    pub fn get(&self, id: &String) -> (r: Option<Entry>)
        ensures
            r == lookup(self.frames(), id@),
    {
        let mut i: usize = self.values.len();
        assert(self.frames().take(i as int) =~= self.frames());
        while i > 0
            invariant
                i <= self.values.len(),
                lookup(self.frames(), id@) == lookup(self.frames().take(i as int), id@),
            decreases i,
        {
            let ghost part = self.frames().take(i as int);
            assert(part.last() == frame_view(self.values@[i - 1]));
            assert(part.drop_last() =~= self.frames().take(i - 1));
            match Self::find_in(&self.values[i - 1], id) {
                Some(e) => {
                    return Some(e);
                },
                None => {},
            }
            i -= 1;
        }
        assert(self.frames().take(0).len() == 0);
        None
    }

    /// What a name in sight stands for.
    pub fn value(&self, id: &String) -> (e: Entry)
        requires
            lookup(self.frames(), id@) is Some,
        ensures
            lookup(self.frames(), id@) == Some(e),
    {
        match self.get(id) {
            Some(e) => e,
            None => Entry::Const(0),
        }
    }

    /// Binds a name in the innermost frame; an earlier binding of the name is
    /// hidden from then on.
    pub fn new_value(&mut self, id: String, entry: Entry)
        requires
            old(self).values.len() > 0,
        ensures
            final(self).frames() == old(self).frames().update(
                old(self).frames().len() - 1,
                old(self).frames().last().push((id@, entry)),
            ),
            final(self).funcs == old(self).funcs,
            final(self).cur_func == old(self).cur_func,
            final(self).cur_bb == old(self).cur_bb,
            final(self).loop_info == old(self).loop_info,
            final(self).array_info == old(self).array_info,
            final(self).label == old(self).label,
    {
        let last = self.values.len() - 1;
        self.values[last].push((id, entry));
        proof {
            let want = old(self).frames().update(
                old(self).frames().len() - 1,
                old(self).frames().last().push((id@, entry)),
            );
            assert(self.frames().len() == want.len());
            assert forall|i: int| 0 <= i < want.len() implies self.frames()[i] == want[i] by {
                if i == last {
                    assert(frame_view(self.values@[i]) =~= frame_view(old(self).values@[i]).push(
                        (id@, entry),
                    ));
                } else {
                    assert(self.values@[i] == old(self).values@[i]);
                }
            }
            assert(self.frames() =~= want);
        }
    }

    /// Opens a new innermost frame.
    pub fn enter(&mut self)
        ensures
            final(self).frames() == old(self).frames().push(Seq::<(Seq<char>, Entry)>::empty()),
            final(self).funcs == old(self).funcs,
            final(self).cur_func == old(self).cur_func,
            final(self).cur_bb == old(self).cur_bb,
            final(self).loop_info == old(self).loop_info,
            final(self).array_info == old(self).array_info,
            final(self).label == old(self).label,
    {
        self.values.push(Vec::new());
        proof {
            let want = old(self).frames().push(Seq::<(Seq<char>, Entry)>::empty());
            assert(self.frames().len() == want.len());
            assert forall|i: int| 0 <= i < want.len() implies self.frames()[i] == want[i] by {
                if i == old(self).values.len() {
                    assert(frame_view(self.values@[i]) =~= Seq::<(Seq<char>, Entry)>::empty());
                } else {
                    assert(self.values@[i] == old(self).values@[i]);
                }
            }
            assert(self.frames() =~= want);
        }
    }

    /// Closes the innermost frame, if there is one.
    pub fn exit(&mut self)
        ensures
            old(self).frames().len() > 0 ==> final(self).frames() == old(self).frames().drop_last(),
            old(self).frames().len() == 0 ==> final(self).frames() == old(self).frames(),
            final(self).funcs == old(self).funcs,
            final(self).cur_func == old(self).cur_func,
            final(self).cur_bb == old(self).cur_bb,
            final(self).loop_info == old(self).loop_info,
            final(self).array_info == old(self).array_info,
            final(self).label == old(self).label,
    {
        self.values.pop();
        proof {
            if old(self).frames().len() > 0 {
                assert(self.frames() =~= old(self).frames().drop_last());
            } else {
                assert(self.frames() =~= old(self).frames());
            }
        }
    }

    /// Looks a function up by name.
    pub fn get_func(&self, id: &String) -> (r: Option<Func>)
        ensures
            r == find_func(self.table(), id@),
    {
        let mut i: usize = self.funcs.len();
        assert(self.table().take(i as int) =~= self.table());
        while i > 0
            invariant
                i <= self.funcs.len(),
                find_func(self.table(), id@) == find_func(self.table().take(i as int), id@),
            decreases i,
        {
            let ghost part = self.table().take(i as int);
            assert(part.last() == (self.funcs@[i - 1].0@, self.funcs@[i - 1].1));
            assert(part.drop_last() =~= self.table().take(i - 1));
            if self.funcs[i - 1].0 == *id {
                return Some(self.funcs[i - 1].1);
            }
            i -= 1;
        }
        assert(self.table().take(0).len() == 0);
        None
    }

    /// The function of a name that names one.
    pub fn func(&self, id: &String) -> (f: Func)
        requires
            find_func(self.table(), id@) is Some,
        ensures
            find_func(self.table(), id@) == Some(f),
    {
        match self.get_func(id) {
            Some(f) => f,
            None => Func { id: 0 },
        }
    }

    /// Enters a function into the table; it replaces any other of that name.
    pub fn new_func(&mut self, id: String, func: Func)
        ensures
            final(self).table() == old(self).table().push((id@, func)),
            find_func(final(self).table(), id@) == Some(func),
            final(self).values == old(self).values,
            final(self).cur_func == old(self).cur_func,
            final(self).cur_bb == old(self).cur_bb,
            final(self).loop_info == old(self).loop_info,
            final(self).array_info == old(self).array_info,
            final(self).label == old(self).label,
    {
        self.funcs.push((id, func));
        proof {
            assert(self.table() =~= old(self).table().push((id@, func)));
            assert(self.table().last() == (id@, func));
        }
    }

    /// The function under construction.
    pub fn cur_func(&self) -> (f: Func)
        requires
            self.cur_func is Some,
        ensures
            self.cur_func == Some(f),
    {
        match self.cur_func {
            Some(f) => f,
            None => Func { id: 0 },
        }
    }

    pub fn set_cur_func(&mut self, func: Option<Func>)
        ensures
            *final(self) == (Scope { cur_func: func, ..*old(self) }),
    {
        self.cur_func = func;
    }

    /// Whether the walk is outside every function.
    pub fn is_global(&self) -> (r: bool)
        ensures
            r == (self.cur_func is None),
    {
        self.cur_func.is_none()
    }

    /// The block under construction.
    pub fn cur_bb(&self) -> (bb: Bb)
        requires
            self.cur_bb is Some,
        ensures
            self.cur_bb == Some(bb),
    {
        match self.cur_bb {
            Some(bb) => bb,
            None => Bb { id: 0 },
        }
    }

    pub fn set_cur_bb(&mut self, bb: Option<Bb>)
        ensures
            *final(self) == (Scope { cur_bb: bb, ..*old(self) }),
    {
        self.cur_bb = bb;
    }

    pub fn loop_info(&self) -> (r: &Vec<(Bb, Bb)>)
        ensures
            *r == self.loop_info,
    {
        &self.loop_info
    }

    pub fn loop_info_mut(&mut self) -> (r: &mut Vec<(Bb, Bb)>)
        ensures
            *r == old(self).loop_info,
            *final(self) == (Scope { loop_info: *final(r), ..*old(self) }),
    {
        &mut self.loop_info
    }

    pub fn array_info(&self) -> (r: &Vec<usize>)
        ensures
            *r == self.array_info,
    {
        &self.array_info
    }

    pub fn set_array_info(&mut self, array_info: Vec<usize>)
        ensures
            *final(self) == (Scope { array_info, ..*old(self) }),
    {
        self.array_info = array_info;
    }

    pub fn label_mut(&mut self) -> (r: &mut Label)
        ensures
            *r == old(self).label,
            *final(self) == (Scope { label: *final(r), ..*old(self) }),
    {
        &mut self.label
    }
}

} // verus!
