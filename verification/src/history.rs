//! Undo history: snapshots of the level grid and of the bread-position
//! summary, pushed in lockstep on every mutation and popped by undo.
use vstd::prelude::*;
use crate::level::{clone_grid, Level};

verus! {

/// A last-in-first-out stack; the view is the sequence of entries, oldest
/// first.
pub struct Stack<T> {
    items: Vec<T>,
}

impl<T> View for Stack<T> {
    type V = Seq<T>;

    closed spec fn view(&self) -> Seq<T> {
        self.items@
    }
}

impl<T> Stack<T> {
    pub fn new() -> (r: Self)
        ensures
            r@ == Seq::<T>::empty(),
    {
        Stack { items: Vec::new() }
    }

    pub fn push(&mut self, t: T)
        ensures
            final(self)@ == old(self)@.push(t),
    {
        self.items.push(t);
    }

    pub fn pop(&mut self) -> (r: Option<T>)
        ensures
            old(self)@.len() > 0 ==> final(self)@ == old(self)@.drop_last() && r == Some(
                old(self)@.last(),
            ),
            old(self)@.len() == 0 ==> final(self)@ == old(self)@ && r is None,
    {
        let r = self.items.pop();
        proof {
            if old(self)@.len() > 0 {
                assert(self.items@ =~= old(self)@.drop_last());
            }
        }
        r
    }

    pub fn peek(&self) -> (r: Option<&T>)
        ensures
            self@.len() > 0 ==> r is Some && *r->0 == self@.last(),
            self@.len() == 0 ==> r is None,
    {
        if self.items.len() > 0 {
            Some(&self.items[self.items.len() - 1])
        } else {
            None
        }
    }

    pub fn size(&self) -> (n: usize)
        ensures
            n == self@.len(),
    {
        self.items.len()
    }

    pub fn is_empty(&self) -> (b: bool)
        ensures
            b == (self@.len() == 0),
    {
        self.items.len() == 0
    }

    pub fn clear(&mut self)
        ensures
            final(self)@ == Seq::<T>::empty(),
    {
        self.items.clear();
    }
}

/// Snapshots of the level grid, one per mutation since the level was spawned.
pub struct LevelStack(pub Stack<Vec<Vec<char>>>);

impl Default for LevelStack {
    fn default() -> (r: Self)
        ensures
            r.0@ == Seq::<Vec<Vec<char>>>::empty(),
    {
        LevelStack(Stack::new())
    }
}

/// One recorded bread position with its running total.
pub type BreadSumRecord = Vec<((usize, usize), u32)>;

/// Snapshots of the bread-position summary, pushed in lockstep with the
/// level snapshots.
pub struct BreadSumRecordStack(pub Stack<BreadSumRecord>);

impl Default for BreadSumRecordStack {
    fn default() -> (r: Self)
        ensures
            r.0@ == Seq::<BreadSumRecord>::empty(),
    {
        BreadSumRecordStack(Stack::new())
    }
}

/// What undoing does to a level-history sequence: with at least two entries
/// (the current grid and one prior), the top is popped and the new top is
/// restored; with fewer, nothing happens.
pub open spec fn undo_model(h: Seq<Vec<Vec<char>>>) -> (Seq<Vec<Vec<char>>>, Option<
    Vec<Vec<char>>,
>) {
    if h.len() >= 2 {
        (h.drop_last(), Some(h[h.len() - 2]))
    } else {
        (h, None)
    }
}

/// Pops one level snapshot and restores the one beneath it, popping the
/// bread summary in lockstep; rejected (returning `None`, nothing changed)
/// unless at least two snapshots exist.
pub fn undo(level_stack: &mut LevelStack, bread_stack: &mut BreadSumRecordStack) -> (r: Option<
    Vec<Vec<char>>,
>)
    ensures
        (r is Some) <==> old(level_stack).0@.len() >= 2,
        r is Some ==> ({
            &&& final(level_stack).0@ == undo_model(old(level_stack).0@).0
            &&& r->0.deep_view() == undo_model(old(level_stack).0@).1->0.deep_view()
            &&& final(bread_stack).0@ == (if old(bread_stack).0@.len() >= 1 {
                old(bread_stack).0@.drop_last()
            } else {
                old(bread_stack).0@
            })
        }),
        r is None ==> final(level_stack).0@ == old(level_stack).0@ && final(bread_stack).0@ == old(
            bread_stack,
        ).0@,
{
    if level_stack.0.size() >= 2 {
        let _ = level_stack.0.pop();
        let restored: Vec<Vec<char>> = match level_stack.0.peek() {
            Some(top) => clone_grid(top),
            None => Vec::new(),
        };
        if bread_stack.0.size() >= 1 {
            let _ = bread_stack.0.pop();
        }
        proof {
            assert(old(level_stack).0@.drop_last().last() == old(level_stack).0@[old(
                level_stack,
            ).0@.len() - 2]);
        }
        Some(restored)
    } else {
        None
    }
}

/// Captures the current grid and bread summary onto their stacks, in
/// lockstep; called on every level mutation.
pub fn push_snapshot(
    level: &Level,
    bread_record: BreadSumRecord,
    level_stack: &mut LevelStack,
    bread_stack: &mut BreadSumRecordStack,
)
    ensures
        final(level_stack).0@.len() == old(level_stack).0@.len() + 1,
        final(level_stack).0@.drop_last() == old(level_stack).0@,
        final(level_stack).0@.last().deep_view() == level@,
        final(bread_stack).0@ == old(bread_stack).0@.push(bread_record),
{
    let copy = clone_grid(&level.0);
    level_stack.0.push(copy);
    bread_stack.0.push(bread_record);
    proof {
        assert(level_stack.0@.drop_last() =~= old(level_stack).0@);
    }
}

/// Undoing after three pushed snapshots restores the second, undoing again
/// restores the first, and a third undo is rejected: the history then holds
/// a single entry, too few to undo.
pub proof fn lemma_undo_restores_previous_snapshots(
    first: Vec<Vec<char>>,
    second: Vec<Vec<char>>,
    third: Vec<Vec<char>>,
)
    ensures
        ({
            let h = Seq::<Vec<Vec<char>>>::empty().push(first).push(second).push(third);
            let (h1, r1) = undo_model(h);
            let (h2, r2) = undo_model(h1);
            let (h3, r3) = undo_model(h2);
            &&& r1 == Some(second)
            &&& r2 == Some(first)
            &&& r3 is None
            &&& h3 == seq![first]
        }),
{
    let h = Seq::<Vec<Vec<char>>>::empty().push(first).push(second).push(third);
    assert(h.len() == 3);
    assert(h[0] == first && h[1] == second && h[2] == third);
    let (h1, r1) = undo_model(h);
    assert(h1 =~= seq![first, second]);
    let (h2, r2) = undo_model(h1);
    assert(h2 =~= seq![first]);
    let (h3, r3) = undo_model(h2);
    assert(h3 =~= seq![first]);
}

} // verus!
