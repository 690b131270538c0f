use bf_core::{
    Analyzer, Interpreter, Memory, MemoryPointerMove, Operation, Outcome, Program,
    ProgramPointerMove, Step, ValueCell, ValueCellOperation,
};

fn ops(src: &str) -> Vec<Operation> {
    src.chars()
        .filter_map(|c| match c {
            '>' => Some(Operation::PInc),
            '<' => Some(Operation::PDec),
            '+' => Some(Operation::VInc),
            '-' => Some(Operation::VDec),
            '.' => Some(Operation::Output),
            ',' => Some(Operation::Input),
            '[' => Some(Operation::Open),
            ']' => Some(Operation::Close),
            ')' => Some(Operation::VShiftR),
            '(' => Some(Operation::VShiftL),
            _ => None,
        })
        .collect()
}

/// Drives a machine over `src` to its end, feeding `input`; returns the
/// machine, the bytes emitted and the number of steps taken.
fn drive(src: &str, input: &[u8], max_steps: usize) -> (Interpreter, Vec<u8>, usize) {
    let mut machine = Interpreter::new(Program::from_operations(ops(src)));
    let mut out = Vec::new();
    let mut fed = 0;
    for steps in 0..max_steps {
        match machine.next() {
            Step::Continue => {}
            Step::Output(b) => out.push(b),
            Step::Input => {
                if fed < input.len() {
                    machine.memory.set_focus(ValueCell(input[fed]));
                    fed += 1;
                }
            }
            Step::Halted => return (machine, out, steps + 1),
        }
    }
    panic!("program did not halt within {} steps", max_steps);
}

fn advance_all(analyzer: &mut Analyzer, cell: u8, n: usize) -> Vec<Outcome> {
    (0..n).map(|_| analyzer.advance(ValueCell(cell))).collect()
}

#[test]
fn cell_increment_wraps() {
    let mut c = ValueCell(254);
    c.value_change(ValueCellOperation::Increment);
    assert_eq!(c, ValueCell(255));
    c.value_change(ValueCellOperation::Increment);
    assert_eq!(c, ValueCell(0));
    assert!(c.is_zero());
}

#[test]
fn cell_decrement_wraps() {
    let mut c = ValueCell(1);
    c.value_change(ValueCellOperation::Decrement);
    assert_eq!(c, ValueCell(0));
    c.value_change(ValueCellOperation::Decrement);
    assert_eq!(c, ValueCell(255));
    assert!(!c.is_zero());
}

#[test]
fn cell_shifts_discard_bits() {
    let mut c = ValueCell(0b1000_0001);
    c.value_change(ValueCellOperation::ShiftL);
    assert_eq!(c, ValueCell(0b0000_0010));
    let mut d = ValueCell(0b1000_0001);
    d.value_change(ValueCellOperation::ShiftR);
    assert_eq!(d, ValueCell(0b0100_0000));
    let mut e = ValueCell(0b0100_0000);
    e.value_change(ValueCellOperation::ShiftL);
    assert_eq!(e, ValueCell(0b1000_0000));
}

#[test]
fn memory_round_trip_restores_cells() {
    let mut m = Memory::new();
    m.set_focus(ValueCell(7));
    m.move_pointer(MemoryPointerMove::Right);
    m.set_focus(ValueCell(8));
    m.move_pointer(MemoryPointerMove::Left);
    assert_eq!(m.focus(), ValueCell(7));
    for _ in 0..3 {
        m.move_pointer(MemoryPointerMove::Right);
    }
    for _ in 0..3 {
        m.move_pointer(MemoryPointerMove::Left);
    }
    assert_eq!(m.focus(), ValueCell(7));
    m.move_pointer(MemoryPointerMove::Right);
    assert_eq!(m.focus(), ValueCell(8));
    m.move_pointer(MemoryPointerMove::Right);
    assert_eq!(m.focus(), ValueCell(0));
}

#[test]
fn memory_left_edge_clamps() {
    let mut m = Memory::new();
    m.set_focus(ValueCell(3));
    m.move_pointer(MemoryPointerMove::Left);
    assert_eq!(m.focus(), ValueCell(3));
    m.move_pointer(MemoryPointerMove::Right);
    assert_eq!(m.focus(), ValueCell(0));
}

#[test]
fn memory_change_focus_changes_only_focus() {
    let mut m = Memory::new();
    m.change_focus(ValueCellOperation::Decrement);
    assert_eq!(m.focus(), ValueCell(255));
    m.move_pointer(MemoryPointerMove::Right);
    assert_eq!(m.focus(), ValueCell(0));
}

#[test]
fn program_reads_left_to_right() {
    let mut p = Program::from_operations(ops("+-."));
    assert_eq!(p.current(), Some(Operation::VInc));
    p.move_pointer(ProgramPointerMove::Next);
    assert_eq!(p.current(), Some(Operation::VDec));
    p.move_pointer(ProgramPointerMove::Next);
    assert_eq!(p.current(), Some(Operation::Output));
    p.move_pointer(ProgramPointerMove::Next);
    assert_eq!(p.current(), None);
    p.move_pointer(ProgramPointerMove::Next);
    assert_eq!(p.current(), None);
    p.move_pointer(ProgramPointerMove::Prev);
    assert_eq!(p.current(), Some(Operation::Output));
}

#[test]
fn program_round_trip_restores_focus() {
    let mut p = Program::from_operations(ops("><+-"));
    for _ in 0..4 {
        p.move_pointer(ProgramPointerMove::Next);
    }
    assert_eq!(p.current(), None);
    for _ in 0..4 {
        p.move_pointer(ProgramPointerMove::Prev);
    }
    assert_eq!(p.current(), Some(Operation::PInc));
    p.move_pointer(ProgramPointerMove::Prev);
    assert_eq!(p.current(), None);
    p.move_pointer(ProgramPointerMove::Next);
    assert_eq!(p.current(), Some(Operation::PInc));
}

#[test]
fn empty_program_halts() {
    let mut a = Analyzer::initialize(Program::from_operations(Vec::new()));
    assert_eq!(a.advance(ValueCell(0)), Outcome::Halted);
    assert_eq!(a.advance(ValueCell(1)), Outcome::Halted);
}

#[test]
fn first_operation_is_read_first() {
    let mut a = Analyzer::initialize(Program::from_operations(ops("+>")));
    assert_eq!(a.advance(ValueCell(0)), Outcome::Ready(Operation::VInc));
    assert_eq!(a.advance(ValueCell(1)), Outcome::Ready(Operation::PInc));
    assert_eq!(a.advance(ValueCell(0)), Outcome::Halted);
    assert_eq!(a.advance(ValueCell(0)), Outcome::Halted);
}

#[test]
fn zero_cell_skips_loop_body() {
    let mut a = Analyzer::initialize(Program::from_operations(ops("[+.]-")));
    let skipped = advance_all(&mut a, 0, 4);
    assert!(skipped.iter().all(|o| *o == Outcome::Pending));
    assert_eq!(a.advance(ValueCell(0)), Outcome::Ready(Operation::VDec));
    assert_eq!(a.advance(ValueCell(0)), Outcome::Halted);
}

#[test]
fn nonzero_cell_enters_and_repeats_loop() {
    let mut a = Analyzer::initialize(Program::from_operations(ops("[.]")));
    assert_eq!(a.advance(ValueCell(2)), Outcome::Pending);
    assert_eq!(a.advance(ValueCell(2)), Outcome::Ready(Operation::Output));
    // back from the Close to the Open, then into the body again
    assert_eq!(advance_all(&mut a, 2, 3), vec![Outcome::Pending; 3]);
    assert_eq!(a.advance(ValueCell(2)), Outcome::Ready(Operation::Output));
    // with a zero cell the Close lets the program go on
    assert_eq!(a.advance(ValueCell(0)), Outcome::Pending);
    assert_eq!(a.advance(ValueCell(0)), Outcome::Halted);
}

#[test]
fn nested_loops_are_skipped_whole() {
    // seeking the outer Close crosses the inner pair: depth goes 1, then 0
    let mut a = Analyzer::initialize(Program::from_operations(ops("[[-]]+")));
    assert_eq!(advance_all(&mut a, 0, 5), vec![Outcome::Pending; 5]);
    assert_eq!(a.advance(ValueCell(0)), Outcome::Ready(Operation::VInc));
    assert_eq!(a.advance(ValueCell(0)), Outcome::Halted);
}

#[test]
fn nested_loops_run_to_zero() {
    let (machine, out, _) = drive("+++[[-]].", &[], 1000);
    assert_eq!(machine.memory.focus(), ValueCell(0));
    assert_eq!(out, vec![0]);
}

#[test]
fn nested_loop_back_seek_crosses_inner_pair() {
    // outer loop runs twice, the inner one empties the second cell each time
    let (machine, out, _) = drive("++[>+++[-]<-]>.<.", &[], 1000);
    assert_eq!(out, vec![0, 0]);
    assert_eq!(machine.memory.focus(), ValueCell(0));
}

#[test]
fn adds_two_cells() {
    let (machine, out, _) = drive("++>+++[<+>-]<.", &[], 1000);
    assert_eq!(machine.memory.focus(), ValueCell(5));
    assert_eq!(out, vec![5]);
}

#[test]
fn unterminated_open_halts() {
    // "[+>" entered with a non-zero cell: no Close, so every request moves
    // right and the program halts after one request per remaining operation
    let mut a = Analyzer::initialize(Program::from_operations(ops("+[+>")));
    assert_eq!(a.advance(ValueCell(0)), Outcome::Ready(Operation::VInc));
    assert_eq!(a.advance(ValueCell(1)), Outcome::Pending);
    assert_eq!(a.advance(ValueCell(1)), Outcome::Ready(Operation::VInc));
    assert_eq!(a.advance(ValueCell(2)), Outcome::Ready(Operation::PInc));
    assert_eq!(a.advance(ValueCell(0)), Outcome::Halted);
}

#[test]
fn unterminated_open_with_zero_cell_halts() {
    let mut a = Analyzer::initialize(Program::from_operations(ops("[+[.")));
    assert_eq!(advance_all(&mut a, 0, 4), vec![Outcome::Pending; 4]);
    assert_eq!(a.advance(ValueCell(0)), Outcome::Halted);
}

#[test]
fn unmatched_close_halts_off_the_left_end() {
    let mut a = Analyzer::initialize(Program::from_operations(ops("+]")));
    assert_eq!(a.advance(ValueCell(0)), Outcome::Ready(Operation::VInc));
    assert_eq!(a.advance(ValueCell(1)), Outcome::Pending);
    assert_eq!(a.advance(ValueCell(1)), Outcome::Pending);
    assert_eq!(a.advance(ValueCell(1)), Outcome::Halted);
    assert_eq!(a.advance(ValueCell(1)), Outcome::Halted);
}

#[test]
fn empty_loop_with_nonzero_cell_keeps_looping() {
    let mut a = Analyzer::initialize(Program::from_operations(ops("[]")));
    let outs = advance_all(&mut a, 1, 100);
    assert!(outs.iter().all(|o| *o == Outcome::Pending));
}

#[test]
fn empty_loop_with_zero_cell_is_passed() {
    let mut a = Analyzer::initialize(Program::from_operations(ops("[]")));
    assert_eq!(advance_all(&mut a, 0, 2), vec![Outcome::Pending; 2]);
    assert_eq!(a.advance(ValueCell(0)), Outcome::Halted);
}

#[test]
fn input_is_written_to_focus() {
    let (_, out, _) = drive(",+.,.,.", &[7, 200], 1000);
    assert_eq!(out, vec![8, 200, 200]);
}

#[test]
fn shifts_run_in_programs() {
    let (_, out, _) = drive("+++(.).)).", &[], 1000);
    assert_eq!(out, vec![6, 3, 0]);
}

#[test]
fn pointer_left_at_edge_is_clamped_in_programs() {
    let (_, out, _) = drive("<<+>++<.>.", &[], 1000);
    assert_eq!(out, vec![1, 2]);
}

#[test]
fn analyzer_exposes_program() {
    let a = Analyzer::initialize(Program::from_operations(ops("+")));
    assert_eq!(a.program().current(), None);
}

#[test]
fn hello_world_program() {
    let src = "++++++++[>++++[>++>+++>+++>+<<<<-]>+>+>->>+[<]<-]>>.>---.+++++++..+++.>>.<-.<.+++.------.--------.>>+.>++.";
    let (_, out, _) = drive(src, &[], 100_000);
    assert_eq!(out, b"Hello World!\n".to_vec());
}
