//! Iteration over an arena's items, and positions to resume it from.
use crate::chunk::ChunkMemory;
use crate::inner::{flatten, token_fits, ArenaInner};
use crate::options::{ArenaOptions, Bool};
use std::marker::PhantomData;
use std::sync::Arc;
use vstd::prelude::*;

verus! {

/// A place in an arena's item sequence, taken from an iterator, from which
/// iteration can later resume. It carries the identity token of its arena
/// and fits no other arena.
#[derive(Clone)]
pub struct Position {
    chunk: Option<usize>,
    index: usize,
    token: Option<Arc<()>>,
}

impl Position {
    /// The chunk of the cursor; `None` before the first item was visited.
    pub closed spec fn chunk_spec(&self) -> Option<usize> {
        self.chunk
    }

    /// The slot after the last item visited in that chunk.
    pub closed spec fn index_spec(&self) -> usize {
        self.index
    }

    /// Whether the position carries an identity token: whether its arena
    /// had allocated when it was taken.
    pub closed spec fn has_token(&self) -> bool {
        self.token.is_some()
    }
}

/// The cursor from which an iteration over `arena` resumes at `position`:
/// `None` where the position does not belong to the arena.
pub(crate) fn resume<T, O: ArenaOptions>(arena: &ArenaInner<T, O>, position: &Position) -> (r:
    Option<(Option<usize>, usize)>)
    requires
        arena.wf(),
    ensures
        r matches Some(cursor) ==> cursor == (position.chunk_spec(), position.index_spec())
            && arena.cursor_ok(cursor.0, cursor.1),
        !arena.cursor_ok(position.chunk_spec(), position.index_spec()) ==> r is None,
        position.has_token() && arena.token_spec() is None ==> r is None,
        !position.has_token() && arena.cursor_ok(position.chunk_spec(), position.index_spec())
            ==> r is Some,
{
    if !token_fits(&position.token, arena.token_ref()) {
        return None;
    }
    if !arena.cursor_fits(position.chunk, position.index) {
        return None;
    }
    Some((position.chunk, position.index))
}

/// An iterator over the items of an arena, in allocation order.
pub struct Iter<'a, T, O: ArenaOptions> {
    arena: &'a ArenaInner<T, O>,
    chunk: Option<usize>,
    index: usize,
}

impl<'a, T, O: ArenaOptions> Iter<'a, T, O> {
    pub closed spec fn wf(&self) -> bool {
        self.arena.wf() && self.arena.cursor_ok(self.chunk, self.index)
    }

    /// The items of the arena iterated over.
    pub closed spec fn items(&self) -> Seq<T> {
        self.arena@
    }

    /// How many items lie before the cursor.
    pub closed spec fn consumed(&self) -> int {
        ArenaInner::<T, O>::cursor_pos(self.chunk, self.index)
    }

    /// The items still to come.
    pub open spec fn remaining(&self) -> Seq<T> {
        self.items().subrange(self.consumed(), self.items().len() as int)
    }

    pub(crate) fn new(arena: &'a ArenaInner<T, O>, cursor: (Option<usize>, usize)) -> (r: Self)
        requires
            arena.wf(),
            arena.cursor_ok(cursor.0, cursor.1),
        ensures
            r.wf(),
            r.items() == arena@,
            r.consumed() == ArenaInner::<T, O>::cursor_pos(cursor.0, cursor.1),
    {
        Iter { arena, chunk: cursor.0, index: cursor.1 }
    }

    /// The next item, if any.
    pub fn next(&mut self) -> (r: Option<&'a T>)
        requires
            old(self).wf(),
        ensures
            final(self).wf(),
            final(self).items() == old(self).items(),
            old(self).remaining().len() == 0 ==> r is None && final(self).consumed() == old(self).consumed(),
            old(self).remaining().len() > 0 ==> (r matches Some(item) && *item == old(self).remaining()[0]
                && final(self).consumed() == old(self).consumed() + 1),
    {
        match self.arena.advance(self.chunk, self.index) {
            None => None,
            Some(slot) => {
                self.chunk = Some(slot.chunk);
                self.index = slot.index + 1;
                Some(self.arena.get(slot))
            },
        }
    }
}

impl<'a, T, O: ArenaOptions> Clone for Iter<'a, T, O> {
    /// An iterator over the same arena, at the same place.
    fn clone(&self) -> (r: Self)
        ensures
            r == *self,
    {
        Iter { arena: self.arena, chunk: self.chunk, index: self.index }
    }
}

impl<'a, T, O: ArenaOptions<SupportsPositions = Bool<true>>> Iter<'a, T, O> {
    /// The position of this iterator: resuming there yields what this
    /// iterator has still to yield, and what is allocated later.
    pub fn as_position(&self) -> (r: Position)
        requires
            self.wf(),
        ensures
            ArenaInner::<T, O>::cursor_pos(r.chunk_spec(), r.index_spec()) == self.consumed(),
            self.items().len() > 0 ==> r.has_token(),
    {
        Position { chunk: self.chunk, index: self.index, token: self.arena.token() }
    }
}

/// A mutable iterator over the items of an arena, in allocation order.
pub struct IterMut<'a, T, O: ArenaOptions> {
    arena: &'a mut ArenaInner<T, O>,
    chunk: Option<usize>,
    index: usize,
}

impl<'a, T, O: ArenaOptions> IterMut<'a, T, O> {
    pub closed spec fn wf(&self) -> bool {
        self.arena.wf() && self.arena.cursor_ok(self.chunk, self.index)
    }

    /// The items of the arena, as changed through this iterator so far.
    pub closed spec fn items(&self) -> Seq<T> {
        self.arena@
    }

    /// How many items lie before the cursor.
    pub closed spec fn consumed(&self) -> int {
        ArenaInner::<T, O>::cursor_pos(self.chunk, self.index)
    }

    /// The items still to come.
    pub open spec fn remaining(&self) -> Seq<T> {
        self.items().subrange(self.consumed(), self.items().len() as int)
    }

    pub(crate) fn new(arena: &'a mut ArenaInner<T, O>, cursor: (Option<usize>, usize)) -> (r: Self)
        requires
            old(arena).wf(),
            old(arena).cursor_ok(cursor.0, cursor.1),
        ensures
            r.wf(),
            r.items() == old(arena)@,
            r.consumed() == ArenaInner::<T, O>::cursor_pos(cursor.0, cursor.1),
    {
        IterMut { arena, chunk: cursor.0, index: cursor.1 }
    }

    /// The next item, if any, mutably.
    pub fn next(&mut self) -> (r: Option<&mut T>)
        requires
            old(self).wf(),
        ensures
            final(self).wf(),
            old(self).remaining().len() == 0 ==> r is None && final(self).consumed() == old(self).consumed()
                && final(self).items() == old(self).items(),
            old(self).remaining().len() > 0 ==> (r matches Some(item) && *item == old(self).remaining()[0]
                && final(self).consumed() == old(self).consumed() + 1
                && final(self).items() == old(self).items().update(old(self).consumed(), *final(item))),
    {
        match self.arena.advance(self.chunk, self.index) {
            None => None,
            Some(slot) => {
                self.chunk = Some(slot.chunk);
                self.index = slot.index + 1;
                Some(self.arena.get_mut(slot))
            },
        }
    }
}

impl<'a, T, O: ArenaOptions<SupportsPositions = Bool<true>>> IterMut<'a, T, O> {
    /// The position of this iterator: resuming there yields what this
    /// iterator has still to yield, and what is allocated later.
    pub fn as_position(&self) -> (r: Position)
        requires
            self.wf(),
        ensures
            ArenaInner::<T, O>::cursor_pos(r.chunk_spec(), r.index_spec()) == self.consumed(),
            self.items().len() > 0 ==> r.has_token(),
    {
        Position { chunk: self.chunk, index: self.index, token: self.arena.token() }
    }
}

/// The elements of `s`, last first.
pub open spec fn reversed<A>(s: Seq<A>) -> Seq<A>
    decreases s.len(),
{
    if s.len() == 0 {
        Seq::empty()
    } else {
        seq![s.last()] + reversed(s.drop_last())
    }
}

/// The items of a chain whose chunks are stored last chunk first.
pub open spec fn flatten_rev<T>(chunks: Seq<ChunkMemory<T>>) -> Seq<T>
    decreases chunks.len(),
{
    if chunks.len() == 0 {
        Seq::empty()
    } else {
        chunks.last()@ + flatten_rev(chunks.drop_last())
    }
}

/// The items of `v`, last first.
fn reverse_items<T>(v: Vec<T>) -> (r: Vec<T>)
    ensures
        reversed(r@) == v@,
{
    let ghost orig = v@;
    let mut v = v;
    let mut r: Vec<T> = Vec::new();
    while v.len() > 0
        invariant
            v@ + reversed(r@) == orig,
        decreases v.len(),
    {
        let ghost before = v@;
        let ghost rev_before = r@;
        match v.pop() {
            Some(x) => {
                r.push(x);
                proof {
                    assert(r@.drop_last() == rev_before);
                    assert(reversed(r@) == seq![x] + reversed(rev_before));
                    assert(v@ + seq![x] =~= before);
                    assert(v@ + reversed(r@) =~= before + reversed(rev_before));
                }
            },
            None => {},
        }
    }
    assert(v@ + reversed(r@) =~= reversed(r@));
    r
}

/// An iterator that moves the items out of an arena, in allocation order.
/// Dropping it before the end drops the items it has not yielded.
pub struct IntoIter<T, O: ArenaOptions> {
    chunks: Vec<ChunkMemory<T>>,
    items: Vec<T>,
    options: PhantomData<O>,
}

impl<T, O: ArenaOptions> IntoIter<T, O> {
    /// The items still to come.
    pub closed spec fn remaining(&self) -> Seq<T> {
        reversed(self.items@) + flatten_rev(self.chunks@)
    }

    pub(crate) fn new(arena: ArenaInner<T, O>) -> (r: Self)
        requires
            arena.wf(),
        ensures
            r.remaining() == arena@,
    {
        let ghost all = arena@;
        let mut chunks = arena.into_chunks();
        let mut rev: Vec<ChunkMemory<T>> = Vec::new();
        while chunks.len() > 0
            invariant
                flatten(chunks@) + flatten_rev(rev@) == all,
            decreases chunks.len(),
        {
            let ghost before = chunks@;
            let ghost rev_before = rev@;
            match chunks.pop() {
                Some(chunk) => {
                    rev.push(chunk);
                    proof {
                        assert(before.drop_last() == chunks@);
                        assert(rev@.drop_last() == rev_before);
                        assert(flatten(before) == flatten(chunks@) + chunk@);
                        assert(flatten_rev(rev@) == chunk@ + flatten_rev(rev_before));
                        assert(flatten(chunks@) + flatten_rev(rev@) =~= flatten(before) + flatten_rev(
                            rev_before,
                        ));
                    }
                },
                None => {},
            }
        }
        proof {
            assert(flatten(chunks@) == Seq::<T>::empty());
            assert(reversed(Seq::<T>::empty()) == Seq::<T>::empty());
            assert(flatten(chunks@) + flatten_rev(rev@) =~= flatten_rev(rev@));
        }
        let r = IntoIter { chunks: rev, items: Vec::new(), options: PhantomData };
        proof {
            assert(r.items@ == Seq::<T>::empty());
            assert(r.remaining() =~= flatten_rev(rev@));
        }
        r
    }

    /// Moves the next item out, if any.
    pub fn next(&mut self) -> (r: Option<T>)
        ensures
            old(self).remaining().len() == 0 ==> r is None && final(self).remaining() == old(self).remaining(),
            old(self).remaining().len() > 0 ==> r == Some(old(self).remaining()[0])
                && final(self).remaining() == old(self).remaining().drop_first(),
    {
        loop
            invariant
                self.remaining() == old(self).remaining(),
            decreases self.chunks.len(),
        {
            let ghost items_before = self.items@;
            match self.items.pop() {
                Some(item) => {
                    proof {
                        assert(items_before.drop_last() == self.items@);
                        assert(reversed(items_before) == seq![item] + reversed(self.items@));
                        assert(old(self).remaining() =~= seq![item] + self.remaining());
                        assert(self.remaining() =~= old(self).remaining().drop_first());
                    }
                    return Some(item);
                },
                None => {
                    let ghost chunks_before = self.chunks@;
                    match self.chunks.pop() {
                        None => {
                            proof {
                                assert(self.remaining() =~= Seq::<T>::empty());
                            }
                            return None;
                        },
                        Some(chunk) => {
                            self.items = reverse_items(chunk.into_items());
                            proof {
                                assert(chunks_before.drop_last() == self.chunks@);
                                assert(flatten_rev(chunks_before) == chunk@ + flatten_rev(self.chunks@));
                                assert(reversed(items_before) == Seq::<T>::empty());
                                assert(self.remaining() =~= old(self).remaining());
                            }
                        },
                    }
                },
            }
        }
    }
}

} // verus!
