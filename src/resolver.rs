use vstd::prelude::*;

use crate::cell::ValueCell;
use crate::program::{Operation, Program, ProgramPointerMove, ProgramView};

verus! {

/// What the resolver is looking for while it moves along the program.
#[derive(Debug, Clone, Copy, PartialEq, Eq, Structural)]
pub enum JumpState {
    /// No jump is in progress: the program is read left to right.
    Idle,
    /// Moving left towards the `Open` that matches a `Close`.
    SeekingOpen,
    /// Moving right towards the `Close` that matches an `Open`.
    SeekingClose,
}

/// The answer to one request for the next operation.
#[derive(Debug, Clone, Copy, PartialEq, Eq, Structural)]
pub enum Outcome {
    /// An operation other than a loop delimiter, to be executed now.
    Ready(Operation),
    /// Still resolving: ask again with the same cell value.
    Pending,
    /// The program tape ran past one of its ends.
    Halted,
}

/// The resolver: it owns the program tape and turns it, one step per call,
/// into the operations to execute, handling loop delimiters itself. While a
/// jump is in progress `depth` counts the delimiters of the opposite kind that
/// are still unmatched.
pub struct Analyzer {
    program: Program,
    jump: JumpState,
    depth: usize,
}

/// The abstract state of an `Analyzer`.
pub struct ResolverView {
    pub program: ProgramView,
    pub jump: JumpState,
    pub depth: nat,
}

/// How the jump state, the depth and the answer follow from the operation
/// just reached, given whether the current cell is zero.
pub open spec fn decided(jump: JumpState, depth: nat, op: Operation, zero: bool) -> (
    JumpState,
    nat,
    Outcome,
) {
    match jump {
        JumpState::Idle => match op {
            Operation::Open => if zero {
                (JumpState::SeekingClose, 0, Outcome::Pending)
            } else {
                (JumpState::Idle, 0, Outcome::Pending)
            },
            Operation::Close => if zero {
                (JumpState::Idle, 0, Outcome::Pending)
            } else {
                (JumpState::SeekingOpen, 0, Outcome::Pending)
            },
            _ => (JumpState::Idle, 0, Outcome::Ready(op)),
        },
        JumpState::SeekingClose => match op {
            Operation::Open => (JumpState::SeekingClose, depth + 1, Outcome::Pending),
            Operation::Close => if depth == 0 {
                (JumpState::Idle, 0, Outcome::Pending)
            } else {
                (JumpState::SeekingClose, (depth - 1) as nat, Outcome::Pending)
            },
            _ => (JumpState::SeekingClose, depth, Outcome::Pending),
        },
        JumpState::SeekingOpen => match op {
            Operation::Close => (JumpState::SeekingOpen, depth + 1, Outcome::Pending),
            Operation::Open => if depth == 0 {
                (JumpState::Idle, 0, Outcome::Pending)
            } else {
                (JumpState::SeekingOpen, (depth - 1) as nat, Outcome::Pending)
            },
            _ => (JumpState::SeekingOpen, depth, Outcome::Pending),
        },
    }
}

/// One step of the resolver: move the program one position (left while
/// seeking an `Open`, right otherwise), then decide on the operation reached.
/// Off either end of the program the answer is `Halted`.
pub open spec fn advanced(s: ResolverView, zero: bool) -> (ResolverView, Outcome) {
    let p = if s.jump is SeekingOpen {
        s.program.moved_left()
    } else {
        s.program.moved_right()
    };
    match p.focus() {
        None => (ResolverView { program: p, jump: s.jump, depth: s.depth }, Outcome::Halted),
        Some(op) => {
            let (jump, depth, out) = decided(s.jump, s.depth, op, zero);
            (ResolverView { program: p, jump, depth }, out)
        },
    }
}

impl View for Analyzer {
    type V = ResolverView;

    closed spec fn view(&self) -> ResolverView {
        ResolverView { program: self.program@, jump: self.jump, depth: self.depth as nat }
    }
}

impl ResolverView {
    /// The depth counter is zero without a jump, and bounded by the number of
    /// operations already crossed during one.
    pub open spec fn valid(self) -> bool {
        &&& self.program.valid()
        &&& self.program.ops.len() <= usize::MAX
        &&& self.jump is Idle ==> self.depth == 0
        &&& self.jump is SeekingClose ==> self.depth <= self.program.pos
        &&& self.jump is SeekingOpen ==> self.depth + self.program.pos + 1 <= self.program.ops.len()
    }
}

impl Analyzer {
    /// The program tape is well formed and the jump state is consistent.
    pub closed spec fn wf(&self) -> bool {
        &&& self.program.wf()
        &&& self@.valid()
    }

    /// A well-formed resolver has a valid view.
    pub proof fn lemma_view_valid(&self)
        requires
            self.wf(),
        ensures
            self@.valid(),
    {
    }

    /// A resolver over `program` with no jump in progress. The program is
    /// stepped back by one so that the first request reads the operation
    /// that was focused: for a freshly built program, the first one.
    pub fn initialize(program: Program) -> (r: Analyzer)
        requires
            program.wf(),
        ensures
            r.wf(),
            r@ == (ResolverView { program: program@.moved_left(), jump: JumpState::Idle, depth: 0 }),
    {
        let mut program = program;
        program.move_pointer(ProgramPointerMove::Prev);
        proof {
            program.lemma_view_valid();
        }
        Analyzer { program, jump: JumpState::Idle, depth: 0 }
    }

    /// The program tape.
    pub fn program(&self) -> (r: &Program)
        ensures
            r@ == self@.program,
    {
        &self.program
    }

    /// One step of resolution, given the value of the current data cell.
    pub fn advance(&mut self, cell: ValueCell) -> (r: Outcome)
        requires
            old(self).wf(),
        ensures
            final(self).wf(),
            (final(self)@, r) == advanced(old(self)@, cell.0 == 0),
            r matches Outcome::Ready(op) ==> op != Operation::Open && op != Operation::Close,
    {
        if self.jump == JumpState::SeekingOpen {
            self.program.move_pointer(ProgramPointerMove::Prev);
        } else {
            self.program.move_pointer(ProgramPointerMove::Next);
        }
        proof {
            self.program.lemma_view_valid();
        }
        let zero = cell.is_zero();
        match self.program.current() {
            None => Outcome::Halted,
            Some(op) => match self.jump {
                JumpState::Idle => match op {
                    Operation::Open => {
                        if zero {
                            self.jump = JumpState::SeekingClose;
                        }
                        Outcome::Pending
                    },
                    Operation::Close => {
                        if !zero {
                            self.jump = JumpState::SeekingOpen;
                        }
                        Outcome::Pending
                    },
                    _ => Outcome::Ready(op),
                },
                JumpState::SeekingClose => {
                    if op == Operation::Open {
                        self.depth = self.depth + 1;
                    } else if op == Operation::Close {
                        if self.depth == 0 {
                            self.jump = JumpState::Idle;
                        } else {
                            self.depth = self.depth - 1;
                        }
                    }
                    Outcome::Pending
                },
                JumpState::SeekingOpen => {
                    if op == Operation::Close {
                        self.depth = self.depth + 1;
                    } else if op == Operation::Open {
                        if self.depth == 0 {
                            self.jump = JumpState::Idle;
                        } else {
                            self.depth = self.depth - 1;
                        }
                    }
                    Outcome::Pending
                },
            },
        }
    }
}

} // verus!
