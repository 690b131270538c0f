use vstd::prelude::*;

use crate::cell::{changed_value, ValueCell, ValueCellOperation};

verus! {

/// Data memory: a tape of cells that is unbounded to the right and has a hard
/// left edge. The cells left of the focus are kept in `before` (the nearest
/// one last) and the cells right of it in `after` (the nearest one last), so
/// that each move is one push and one pop.
#[derive(Default, Debug)]
pub struct Memory {
    before: Vec<ValueCell>,
    after: Vec<ValueCell>,
    /// The cell under the data pointer.
    pub current: ValueCell,
}

/// A direction in which the data pointer moves.
#[derive(Debug, Clone, Copy, PartialEq, Eq, Structural)]
pub enum MemoryPointerMove {
    Right,
    Left,
}

/// The abstract state of a `Memory`: the stored cells on each side of the
/// focus, in the same stack order as the concrete vectors.
pub struct MemoryView {
    pub before: Seq<ValueCell>,
    pub focus: ValueCell,
    pub after: Seq<ValueCell>,
}

impl View for Memory {
    type V = MemoryView;

    closed spec fn view(&self) -> MemoryView {
        MemoryView { before: self.before@, focus: self.current, after: self.after@ }
    }
}

impl MemoryView {
    /// The cell `j` positions right of the focus (`j >= 1`). Cells that were
    /// never stored hold zero.
    pub open spec fn right_of(self, j: int) -> ValueCell {
        if 1 <= j <= self.after.len() {
            self.after[self.after.len() - j]
        } else {
            ValueCell(0)
        }
    }

    /// The state after one move to the right: the focus is stored on the left
    /// and the nearest right cell (a fresh zero cell if none is stored)
    /// becomes the focus.
    pub open spec fn moved_right(self) -> MemoryView {
        MemoryView {
            before: self.before.push(self.focus),
            focus: if self.after.len() > 0 {
                self.after.last()
            } else {
                ValueCell(0)
            },
            after: if self.after.len() > 0 {
                self.after.drop_last()
            } else {
                self.after
            },
        }
    }

    /// The state after one move to the left; at the left edge nothing changes.
    pub open spec fn moved_left(self) -> MemoryView {
        if self.before.len() > 0 {
            MemoryView {
                before: self.before.drop_last(),
                focus: self.before.last(),
                after: self.after.push(self.focus),
            }
        } else {
            self
        }
    }

    /// Two states that hold the same cells at the same positions. They may
    /// differ only in how many zero cells right of the focus are stored.
    pub open spec fn same_tape(self, other: MemoryView) -> bool {
        &&& self.before == other.before
        &&& self.focus == other.focus
        &&& forall|j: int| j >= 1 ==> #[trigger] self.right_of(j) == other.right_of(j)
    }

    /// The state after `n` moves to the right.
    pub open spec fn moved_right_n(self, n: nat) -> MemoryView
        decreases n,
    {
        if n == 0 {
            self
        } else {
            self.moved_right().moved_right_n((n - 1) as nat)
        }
    }

    /// The state after `n` moves to the left.
    pub open spec fn moved_left_n(self, n: nat) -> MemoryView
        decreases n,
    {
        if n == 0 {
            self
        } else {
            self.moved_left().moved_left_n((n - 1) as nat)
        }
    }
}

proof fn lemma_moves_keep_same_tape(a: MemoryView, b: MemoryView)
    requires
        a.same_tape(b),
    ensures
        a.moved_right().same_tape(b.moved_right()),
        a.moved_left().same_tape(b.moved_left()),
{
    assert(a.right_of(1) == b.right_of(1));
    assert forall|j: int| j >= 1 implies #[trigger] a.moved_right().right_of(j)
        == b.moved_right().right_of(j) by {
        assert(a.right_of(j + 1) == b.right_of(j + 1));
    }
    assert forall|j: int| j >= 1 implies #[trigger] a.moved_left().right_of(j)
        == b.moved_left().right_of(j) by {
        if j >= 2 {
            assert(a.right_of(j - 1) == b.right_of(j - 1));
        }
    }
}

proof fn lemma_left_n_keeps_same_tape(a: MemoryView, b: MemoryView, n: nat)
    requires
        a.same_tape(b),
    ensures
        a.moved_left_n(n).same_tape(b.moved_left_n(n)),
    decreases n,
{
    if n > 0 {
        lemma_moves_keep_same_tape(a, b);
        lemma_left_n_keeps_same_tape(a.moved_left(), b.moved_left(), (n - 1) as nat);
    }
}

proof fn lemma_right_n_last(m: MemoryView, n: nat)
    requires
        n > 0,
    ensures
        m.moved_right_n(n) == m.moved_right_n((n - 1) as nat).moved_right(),
    decreases n,
{
    if n > 1 {
        lemma_right_n_last(m.moved_right(), (n - 1) as nat);
        assert(m.moved_right_n((n - 1) as nat) == m.moved_right().moved_right_n((n - 2) as nat));
    } else {
        assert(m.moved_right().moved_right_n(0) == m.moved_right());
    }
}

proof fn lemma_left_undoes_right(m: MemoryView)
    ensures
        m.moved_right().moved_left().same_tape(m),
{
    let r = m.moved_right();
    assert(r.before.drop_last() =~= m.before);
    assert forall|j: int| j >= 1 implies #[trigger] r.moved_left().right_of(j) == m.right_of(j) by {
        if j >= 2 {
            assert(r.right_of(j - 1) == m.right_of(j));
        }
    }
}

/// Moving the data pointer right `n` times and then left `n` times comes back
/// to the same cell, with the same cells to its left and the same values at
/// every position to its right. Moves to the right never meet the left edge,
/// so no move is clamped.
pub proof fn lemma_memory_round_trip(m: MemoryView, n: nat)
    ensures
        m.moved_right_n(n).moved_left_n(n).same_tape(m),
    decreases n,
{
    if n > 0 {
        let k = (n - 1) as nat;
        let y = m.moved_right_n(k);
        lemma_right_n_last(m, n);
        lemma_left_undoes_right(y);
        // moved_left_n(n) on y.moved_right() is moved_left_n(k) on its left move
        lemma_left_n_keeps_same_tape(y.moved_right().moved_left(), y, k);
        lemma_memory_round_trip(m, k);
        assert(y.moved_left_n(k).same_tape(m));
    }
}

impl Memory {
    /// A memory whose every cell is zero, focused on the leftmost cell.
    pub fn new() -> (r: Memory)
        ensures
            r@.before.len() == 0,
            r@.after.len() == 0,
            r@.focus == ValueCell(0),
    {
        Memory { before: Vec::new(), after: Vec::new(), current: ValueCell(0) }
    }

    /// The focused cell.
    pub fn focus(&self) -> (r: ValueCell)
        ensures
            r == self@.focus,
    {
        self.current
    }

    /// Replaces the focused cell.
    pub fn set_focus(&mut self, cell: ValueCell)
        ensures
            final(self)@ == (MemoryView { focus: cell, ..old(self)@ }),
    {
        self.current = cell;
    }

    /// Applies `instruction` to the focused cell.
    pub fn change_focus(&mut self, instruction: ValueCellOperation)
        ensures
            final(self)@ == (MemoryView {
                focus: ValueCell(changed_value(old(self)@.focus.0, instruction)),
                ..old(self)@
            }),
    {
        self.current.value_change(instruction);
    }

    /// Moves the data pointer one cell; a move left at the left edge does
    /// nothing, a move right onto a cell never stored exposes a zero cell.
    pub fn move_pointer(&mut self, instruction: MemoryPointerMove)
        ensures
            final(self)@ == (match instruction {
                MemoryPointerMove::Right => old(self)@.moved_right(),
                MemoryPointerMove::Left => old(self)@.moved_left(),
            }),
    {
        match instruction {
            MemoryPointerMove::Right => {
                self.before.push(self.current);
                self.current = match self.after.pop() {
                    Some(next_cell) => next_cell,
                    None => ValueCell(0),
                };
            },
            MemoryPointerMove::Left => {
                if let Some(next_cell) = self.before.pop() {
                    self.after.push(self.current);
                    self.current = next_cell;
                }
            },
        }
    }
}

} // verus!
