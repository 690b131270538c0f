//! What the resolver does over many steps: how it crosses loops.
use vstd::prelude::*;

use crate::program::{Operation, ProgramView};
use crate::resolver::{advanced, JumpState, Outcome, ResolverView};

verus! {

/// The state after one step per entry of `zeros`, where each entry says
/// whether the data cell was zero at that request.
pub open spec fn run(s: ResolverView, zeros: Seq<bool>) -> ResolverView
    decreases zeros.len(),
{
    if zeros.len() == 0 {
        s
    } else {
        run(advanced(s, zeros[0]).0, zeros.drop_first())
    }
}

/// The answers given along `run(s, zeros)`, in order.
pub open spec fn outcomes(s: ResolverView, zeros: Seq<bool>) -> Seq<Outcome>
    decreases zeros.len(),
{
    if zeros.len() == 0 {
        Seq::empty()
    } else {
        seq![advanced(s, zeros[0]).1] + outcomes(advanced(s, zeros[0]).0, zeros.drop_first())
    }
}

/// `n` answers, each of them `Pending`.
pub open spec fn all_pending(n: nat) -> Seq<Outcome> {
    Seq::new(n, |i: int| Outcome::Pending)
}

/// How an operation changes the loop nesting: `Open` opens, `Close` closes.
pub open spec fn nesting(op: Operation) -> int {
    match op {
        Operation::Open => 1,
        Operation::Close => -1,
        _ => 0,
    }
}

/// The number of `Open`s minus the number of `Close`s in `s`.
pub open spec fn net(s: Seq<Operation>) -> int
    decreases s.len(),
{
    if s.len() == 0 {
        0
    } else {
        net(s.drop_last()) + nesting(s.last())
    }
}

/// Every `Close` in `s` matches an earlier `Open` in `s`, and every `Open`
/// a later `Close`.
pub open spec fn balanced(s: Seq<Operation>) -> bool {
    &&& net(s) == 0
    &&& forall|k: int| 0 <= k <= s.len() ==> net(#[trigger] s.take(k)) >= 0
}

/// The state focused at `pos` of `ops` with no jump in progress.
pub open spec fn idle_at(ops: Seq<Operation>, pos: int) -> ResolverView {
    ResolverView { program: ProgramView { ops, pos }, jump: JumpState::Idle, depth: 0 }
}

proof fn lemma_net_step(s: Seq<Operation>, k: int)
    requires
        0 < k <= s.len(),
    ensures
        net(s.take(k)) == net(s.take(k - 1)) + nesting(s[k - 1]),
{
    assert(s.take(k).drop_last() =~= s.take(k - 1));
}

proof fn lemma_seek_close(s: ResolverView, zeros: Seq<bool>, q: int, m: int, k: int)
    requires
        s.valid(),
        s.jump is SeekingClose,
        0 <= q,
        0 <= k <= m,
        q + m + 1 < s.program.ops.len(),
        s.program.pos == q + k,
        s.program.ops[q + m + 1] == Operation::Close,
        balanced(s.program.ops.subrange(q + 1, q + 1 + m)),
        s.depth == net(s.program.ops.subrange(q + 1, q + 1 + m).take(k)),
        zeros.len() == m - k + 1,
    ensures
        outcomes(s, zeros) == all_pending(zeros.len()),
        run(s, zeros) == idle_at(s.program.ops, q + m + 1),
    decreases m - k,
{
    let body = s.program.ops.subrange(q + 1, q + 1 + m);
    let next = advanced(s, zeros[0]).0;
    assert(next.program.pos == q + k + 1);
    if k < m {
        lemma_net_step(body, k + 1);
        assert(body.take(k + 1).len() == k + 1);
        lemma_seek_close(next, zeros.drop_first(), q, m, k + 1);
    } else {
        assert(body.take(m) =~= body);
        assert(zeros.drop_first().len() == 0);
        assert(outcomes(next, zeros.drop_first()) == Seq::<Outcome>::empty());
        assert(run(next, zeros.drop_first()) == next);
    }
    assert(outcomes(s, zeros) =~= all_pending(zeros.len()));
}

proof fn lemma_seek_open(s: ResolverView, zeros: Seq<bool>, q: int, m: int, j: int)
    requires
        s.valid(),
        s.jump is SeekingOpen,
        0 <= q,
        0 <= j <= m,
        q + m + 1 < s.program.ops.len(),
        s.program.pos == q + 1 + j,
        s.program.ops[q] == Operation::Open,
        balanced(s.program.ops.subrange(q + 1, q + 1 + m)),
        s.depth == net(s.program.ops.subrange(q + 1, q + 1 + m).take(j)),
        zeros.len() == j + 1,
    ensures
        outcomes(s, zeros) == all_pending(zeros.len()),
        run(s, zeros) == idle_at(s.program.ops, q),
    decreases j,
{
    let body = s.program.ops.subrange(q + 1, q + 1 + m);
    let next = advanced(s, zeros[0]).0;
    assert(next.program.pos == q + j);
    if j > 0 {
        lemma_net_step(body, j);
        assert(body.take(j - 1).len() == j - 1);
        lemma_seek_open(next, zeros.drop_first(), q, m, j - 1);
    } else {
        assert(body.take(0).len() == 0);
        assert(zeros.drop_first().len() == 0);
        assert(outcomes(next, zeros.drop_first()) == Seq::<Outcome>::empty());
        assert(run(next, zeros.drop_first()) == next);
    }
    assert(outcomes(s, zeros) =~= all_pending(zeros.len()));
}

/// A loop entered with a zero cell is skipped whole when its body is
/// balanced: from the position just before its `Open`, the next
/// `body_len + 2` requests all answer `Pending`, so nothing in the body runs,
/// and they leave the resolver on the matching `Close` with no jump in
/// progress; the request after them reads what follows the loop. Only the
/// first request reads the cell, so the later cell values do not matter.
pub proof fn lemma_zero_cell_skips_loop(s: ResolverView, zeros: Seq<bool>, body_len: nat)
    requires
        s.valid(),
        s.jump is Idle,
        s.program.pos + body_len + 2 < s.program.ops.len(),
        s.program.ops[s.program.pos + 1] == Operation::Open,
        s.program.ops[s.program.pos + body_len + 2] == Operation::Close,
        balanced(s.program.ops.subrange(s.program.pos + 2, s.program.pos + 2 + body_len)),
        zeros.len() == body_len + 2,
        zeros[0],
    ensures
        outcomes(s, zeros) == all_pending(zeros.len()),
        run(s, zeros) == idle_at(s.program.ops, s.program.pos + body_len + 2),
{
    let q = s.program.pos + 1;
    let body = s.program.ops.subrange(q + 1, q + 1 + body_len);
    let next = advanced(s, true).0;
    assert(next.program.pos == q);
    assert(body.take(0).len() == 0);
    lemma_seek_close(next, zeros.drop_first(), q, body_len as int, 0);
    assert(outcomes(s, zeros) =~= all_pending(zeros.len()));
}

/// A loop whose body is balanced is entered when its `Open` is reached with
/// a non-zero cell: that request answers `Pending` and leaves the resolver on
/// the `Open` with no jump in progress, so the next request reads the first
/// operation of the body.
pub proof fn lemma_nonzero_cell_enters_loop(s: ResolverView, zero: bool)
    requires
        s.valid(),
        s.jump is Idle,
        s.program.pos + 1 < s.program.ops.len(),
        s.program.ops[s.program.pos + 1] == Operation::Open,
        !zero,
    ensures
        advanced(s, zero) == (idle_at(s.program.ops, s.program.pos + 1), Outcome::Pending),
{
}

/// A loop whose body is balanced is repeated when its `Close` is reached
/// with a non-zero cell: from the position just before the `Close`, the next
/// `body_len + 2` requests all answer `Pending` and leave the resolver on the
/// matching `Open` with no jump in progress, so the request after them reads
/// the first operation of the body again.
pub proof fn lemma_nonzero_cell_repeats_loop(s: ResolverView, zeros: Seq<bool>, body_len: nat)
    requires
        s.valid(),
        s.jump is Idle,
        s.program.pos + 1 < s.program.ops.len(),
        s.program.pos - body_len >= 0,
        s.program.ops[s.program.pos + 1] == Operation::Close,
        s.program.ops[s.program.pos - body_len] == Operation::Open,
        balanced(s.program.ops.subrange(s.program.pos + 1 - body_len, s.program.pos + 1)),
        zeros.len() == body_len + 2,
        !zeros[0],
    ensures
        outcomes(s, zeros) == all_pending(zeros.len()),
        run(s, zeros) == idle_at(s.program.ops, s.program.pos - body_len),
{
    let q = s.program.pos - body_len;
    let m = body_len as int;
    let body = s.program.ops.subrange(q + 1, q + 1 + m);
    let next = advanced(s, false).0;
    assert(next.program.pos == q + 1 + m);
    assert(body.take(m) =~= body);
    lemma_seek_open(next, zeros.drop_first(), q, m, m);
    assert(outcomes(s, zeros) =~= all_pending(zeros.len()));
}

/// Where no `Close` lies right of the focus and no backward jump is in
/// progress, the resolver only moves right: whatever the cell values, the
/// request that reaches past the end, at most one more than the number of
/// operations right of the focus, answers `Halted`. An `Open` without a
/// matching `Close` therefore never makes the program run forever.
pub proof fn lemma_halts_without_close(s: ResolverView, zeros: Seq<bool>)
    requires
        s.valid(),
        !(s.jump is SeekingOpen),
        s.program.pos < s.program.ops.len(),
        forall|i: int|
            s.program.pos < i < s.program.ops.len() ==> s.program.ops[i] != Operation::Close,
        zeros.len() == s.program.ops.len() - s.program.pos,
    ensures
        outcomes(s, zeros).len() == zeros.len(),
        outcomes(s, zeros).last() == Outcome::Halted,
        run(s, zeros).program.focus() is None,
    decreases zeros.len(),
{
    let (next, out) = advanced(s, zeros[0]);
    let rest = zeros.drop_first();
    if s.program.ops.len() == 0 || s.program.pos + 1 == s.program.ops.len() {
        assert(rest.len() == 0);
        assert(out == Outcome::Halted);
        assert(outcomes(next, rest) == Seq::<Outcome>::empty());
        assert(run(next, rest) == next);
        assert(outcomes(s, zeros) =~= seq![Outcome::Halted]);
    } else {
        assert(next.program.pos == s.program.pos + 1);
        lemma_halts_without_close(next, rest);
        let tail = outcomes(next, rest);
        assert(outcomes(s, zeros) == seq![out] + tail);
        assert((seq![out] + tail).last() == tail.last());
    }
}

} // verus!
