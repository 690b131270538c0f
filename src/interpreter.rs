use vstd::prelude::*;

use crate::cell::{changed_value, ValueCell, ValueCellOperation};
use crate::memory::{Memory, MemoryPointerMove, MemoryView};
use crate::program::{Operation, Program};
use crate::resolver::{advanced, Analyzer, JumpState, Outcome, ResolverView};

verus! {

/// What one step of the machine asks of its host.
#[derive(Debug, Clone, Copy, PartialEq, Eq, Structural)]
pub enum Step {
    /// Nothing to do: step again.
    Continue,
    /// Emit this byte, then step again.
    Output(u8),
    /// An input operation ran: write the next input byte into the focused
    /// cell (or leave it as it is at the end of the input), then step again.
    Input,
    /// The program has ended.
    Halted,
}

/// The data memory after executing `op`. Loop delimiters and I/O leave it
/// as it is: the resolver handles the former and the host the latter.
pub open spec fn executed(m: MemoryView, op: Operation) -> MemoryView {
    match op {
        Operation::PInc => m.moved_right(),
        Operation::PDec => m.moved_left(),
        Operation::VInc => MemoryView {
            focus: ValueCell(changed_value(m.focus.0, ValueCellOperation::Increment)),
            ..m
        },
        Operation::VDec => MemoryView {
            focus: ValueCell(changed_value(m.focus.0, ValueCellOperation::Decrement)),
            ..m
        },
        Operation::VShiftR => MemoryView {
            focus: ValueCell(changed_value(m.focus.0, ValueCellOperation::ShiftR)),
            ..m
        },
        Operation::VShiftL => MemoryView {
            focus: ValueCell(changed_value(m.focus.0, ValueCellOperation::ShiftL)),
            ..m
        },
        _ => m,
    }
}

/// The data memory after a resolver answer.
pub open spec fn performed(m: MemoryView, out: Outcome) -> MemoryView {
    match out {
        Outcome::Ready(op) => executed(m, op),
        _ => m,
    }
}

/// What the host is told after a resolver answer, with `m` the memory before
/// the operation.
pub open spec fn reported(m: MemoryView, out: Outcome) -> Step {
    match out {
        Outcome::Halted => Step::Halted,
        Outcome::Pending => Step::Continue,
        Outcome::Ready(Operation::Output) => Step::Output(m.focus.0),
        Outcome::Ready(Operation::Input) => Step::Input,
        Outcome::Ready(_) => Step::Continue,
    }
}

/// The whole machine: the resolver with its program, and the data memory.
pub struct Interpreter {
    pub analyzer: Analyzer,
    pub memory: Memory,
}

impl Interpreter {
    /// A machine at the start of `program`, over all-zero memory.
    pub fn new(program: Program) -> (r: Interpreter)
        requires
            program.wf(),
        ensures
            r.analyzer.wf(),
            r.analyzer@ == (ResolverView {
                program: program@.moved_left(),
                jump: JumpState::Idle,
                depth: 0,
            }),
            r.memory@.before.len() == 0,
            r.memory@.after.len() == 0,
            r.memory@.focus == ValueCell(0),
    {
        Interpreter { analyzer: Analyzer::initialize(program), memory: Memory::new() }
    }

    /// One step: asks the resolver for the next operation with the focused
    /// cell, and executes it on the memory if it is one.
    pub fn next(&mut self) -> (r: Step)
        requires
            old(self).analyzer.wf(),
        ensures
            final(self).analyzer.wf(),
            final(self).analyzer@ == advanced(
                old(self).analyzer@,
                old(self).memory@.focus.0 == 0,
            ).0,
            final(self).memory@ == performed(
                old(self).memory@,
                advanced(old(self).analyzer@, old(self).memory@.focus.0 == 0).1,
            ),
            r == reported(
                old(self).memory@,
                advanced(old(self).analyzer@, old(self).memory@.focus.0 == 0).1,
            ),
    {
        let cell = self.memory.focus();
        match self.analyzer.advance(cell) {
            Outcome::Halted => Step::Halted,
            Outcome::Pending => Step::Continue,
            Outcome::Ready(op) => match op {
                Operation::PInc => {
                    self.memory.move_pointer(MemoryPointerMove::Right);
                    Step::Continue
                },
                Operation::PDec => {
                    self.memory.move_pointer(MemoryPointerMove::Left);
                    Step::Continue
                },
                Operation::VInc => {
                    self.memory.change_focus(ValueCellOperation::Increment);
                    Step::Continue
                },
                Operation::VDec => {
                    self.memory.change_focus(ValueCellOperation::Decrement);
                    Step::Continue
                },
                Operation::VShiftR => {
                    self.memory.change_focus(ValueCellOperation::ShiftR);
                    Step::Continue
                },
                Operation::VShiftL => {
                    self.memory.change_focus(ValueCellOperation::ShiftL);
                    Step::Continue
                },
                Operation::Output => Step::Output(cell.0),
                Operation::Input => Step::Input,
                Operation::Open | Operation::Close => Step::Continue,
            },
        }
    }
}

} // verus!
