use vstd::prelude::*;

verus! {

/// The ten operations of the language.
#[derive(Debug, Clone, Copy, PartialEq, Eq, Structural)]
pub enum Operation {
    /// Move the data pointer one cell right.
    PInc,
    /// Move the data pointer one cell left.
    PDec,
    /// Increment the focused cell.
    VInc,
    /// Decrement the focused cell.
    VDec,
    /// Emit the focused cell.
    Output,
    /// Read one byte into the focused cell.
    Input,
    /// Loop start: skip past the matching `Close` when the cell is zero.
    Open,
    /// Loop end: go back to the matching `Open` when the cell is not zero.
    Close,
    /// Shift the focused cell right by one bit.
    VShiftR,
    /// Shift the focused cell left by one bit.
    VShiftL,
}

/// The program tape. `before` holds the operations left of the focus (the
/// nearest one last), `after` those right of it (the nearest one last). An
/// absent focus means the tape stands past one of its ends.
pub struct Program {
    before: Vec<Operation>,
    current: Option<Operation>,
    after: Vec<Operation>,
}

/// A direction in which the program tape moves.
#[derive(Debug, Clone, Copy, PartialEq, Eq, Structural)]
pub enum ProgramPointerMove {
    Next,
    Prev,
}

/// The abstract state of a program tape: the whole operation sequence, left
/// to right, and the focused index. Index `-1` stands before the first
/// operation and index `ops.len()` past the last one.
pub struct ProgramView {
    pub ops: Seq<Operation>,
    pub pos: int,
}

/// `s` read back to front.
pub open spec fn reversed(s: Seq<Operation>) -> Seq<Operation> {
    Seq::new(s.len(), |i: int| s[s.len() - 1 - i])
}

impl ProgramView {
    /// The focus lies on an operation, or just outside the sequence; an empty
    /// program has the single position `-1`.
    pub open spec fn valid(self) -> bool {
        &&& -1 <= self.pos <= self.ops.len()
        &&& self.ops.len() == 0 ==> self.pos == -1
    }

    /// The focused operation, if the focus lies inside the sequence.
    pub open spec fn focus(self) -> Option<Operation> {
        if 0 <= self.pos < self.ops.len() {
            Some(self.ops[self.pos])
        } else {
            None
        }
    }

    /// One move right; past the last operation the tape stays.
    pub open spec fn moved_right(self) -> ProgramView {
        if self.ops.len() > 0 && self.pos < self.ops.len() {
            ProgramView { ops: self.ops, pos: self.pos + 1 }
        } else {
            self
        }
    }

    /// One move left; before the first operation the tape stays.
    pub open spec fn moved_left(self) -> ProgramView {
        if self.pos >= 0 {
            ProgramView { ops: self.ops, pos: self.pos - 1 }
        } else {
            self
        }
    }

    /// The state after `n` moves to the right.
    pub open spec fn moved_right_n(self, n: nat) -> ProgramView
        decreases n,
    {
        if n == 0 {
            self
        } else {
            self.moved_right().moved_right_n((n - 1) as nat)
        }
    }

    /// The state after `n` moves to the left.
    pub open spec fn moved_left_n(self, n: nat) -> ProgramView
        decreases n,
    {
        if n == 0 {
            self
        } else {
            self.moved_left().moved_left_n((n - 1) as nat)
        }
    }
}

proof fn lemma_right_n_pos(p: ProgramView, n: nat)
    requires
        p.valid(),
        p.ops.len() > 0,
        p.pos + n <= p.ops.len(),
    ensures
        p.moved_right_n(n) == (ProgramView { ops: p.ops, pos: p.pos + n }),
    decreases n,
{
    if n > 0 {
        lemma_right_n_pos(p.moved_right(), (n - 1) as nat);
    }
}

proof fn lemma_left_n_pos(p: ProgramView, n: nat)
    requires
        p.pos - n >= -1,
    ensures
        p.moved_left_n(n) == (ProgramView { ops: p.ops, pos: p.pos - n }),
    decreases n,
{
    if n > 0 {
        lemma_left_n_pos(p.moved_left(), (n - 1) as nat);
    }
}

/// Moving the program tape right `n` times and then left `n` times restores
/// it, as long as the moves right stay within the sequence or reach at most
/// the position just past its end.
pub proof fn lemma_program_round_trip(p: ProgramView, n: nat)
    requires
        p.valid(),
        p.pos + n <= p.ops.len(),
    ensures
        p.moved_right_n(n).moved_left_n(n) == p,
{
    if p.ops.len() > 0 {
        lemma_right_n_pos(p, n);
        lemma_left_n_pos(p.moved_right_n(n), n);
    } else if n > 0 {
        assert(p.moved_right() == p);
        assert(p.moved_right().moved_right_n(0) == p);
        assert(p.moved_left() == p);
        assert(p.moved_left().moved_left_n(0) == p);
    }
}

impl View for Program {
    type V = ProgramView;

    closed spec fn view(&self) -> ProgramView {
        let cur = match self.current {
            Some(op) => seq![op],
            None => Seq::empty(),
        };
        ProgramView {
            ops: self.before@ + cur + reversed(self.after@),
            pos: if self.current is None && self.before@.len() == 0 {
                -1
            } else {
                self.before@.len() as int
            },
        }
    }
}

impl Program {
    /// The tape is off the sequence only at one of its ends, and the sequence
    /// is no longer than a vector can be.
    pub closed spec fn wf(&self) -> bool {
        &&& self.current is None ==> self.before@.len() == 0 || self.after@.len() == 0
        &&& self@.ops.len() <= usize::MAX
    }

    /// A well-formed tape has a valid view.
    pub proof fn lemma_view_valid(&self)
        requires
            self.wf(),
        ensures
            self@.valid(),
            self@.ops.len() <= usize::MAX,
    {
    }

    /// A program tape holding `operations`, focused on the first of them.
    pub fn from_operations(operations: Vec<Operation>) -> (r: Program)
        ensures
            r.wf(),
            r@.ops == operations@,
            r@.pos == (if operations@.len() > 0 {
                0int
            } else {
                -1int
            }),
    {
        let ghost all = operations@;
        let n = operations.len();
        let mut rest = operations;
        let mut after: Vec<Operation> = Vec::new();
        while rest.len() > 1
            invariant
                rest@.len() <= n,
                n > 0 ==> rest@.len() >= 1,
                n == all.len(),
                rest@ == all.take(rest@.len() as int),
                after@.len() == n - rest@.len(),
                forall|k: int| 0 <= k < after@.len() ==> after@[k] == all[n - 1 - k],
            decreases rest.len(),
        {
            let op = rest.pop().unwrap();
            after.push(op);
        }
        let current = rest.pop();
        let r = Program { before: Vec::new(), current, after };
        if n > 0 {
            assert(r@.ops =~= all);
        } else {
            assert(r@.ops =~= all);
        }
        r
    }

    /// The focused operation, if any.
    pub fn current(&self) -> (r: Option<Operation>)
        requires
            self.wf(),
        ensures
            r == self@.focus(),
    {
        if let Some(op) = self.current {
            assert(self@.ops[self.before@.len() as int] == op);
        }
        self.current
    }

    /// Moves the focus one operation; past either end the focus is absent and
    /// further moves in that direction do nothing.
    pub fn move_pointer(&mut self, instruction: ProgramPointerMove)
        requires
            old(self).wf(),
        ensures
            final(self).wf(),
            final(self)@ == (match instruction {
                ProgramPointerMove::Next => old(self)@.moved_right(),
                ProgramPointerMove::Prev => old(self)@.moved_left(),
            }),
    {
        let ghost v = self@;
        match instruction {
            ProgramPointerMove::Next => {
                if let Some(op) = self.current {
                    self.before.push(op);
                }
                self.current = self.after.pop();
            },
            ProgramPointerMove::Prev => {
                if let Some(op) = self.current {
                    self.after.push(op);
                }
                self.current = self.before.pop();
            },
        }
        assert(self@.ops =~= v.ops);
    }
}

} // verus!
