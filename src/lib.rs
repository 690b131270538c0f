//! A small virtual machine for a two-tape, pointer-driven instruction
//! language: a data tape of byte cells, a program tape of operations, and a
//! resolver that turns the program into a stream of executable operations,
//! absorbing loop-delimiter navigation one step at a time.
pub mod cell;
pub mod interpreter;
pub mod loops;
pub mod memory;
pub mod program;
pub mod resolver;

pub use cell::{ValueCell, ValueCellOperation};
pub use interpreter::{Interpreter, Step};
pub use memory::{Memory, MemoryPointerMove, MemoryView};
pub use program::{Operation, Program, ProgramPointerMove, ProgramView};
pub use resolver::{Analyzer, JumpState, Outcome, ResolverView};
