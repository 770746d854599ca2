//! The small-step semantics of the virtual machine.
//!
//! A [`State`] is the mathematical value of a running engine: the decoded
//! program, the instruction pointer, the tape with its data pointer, the
//! loop-resolution stack and the emitted output. [`step`] maps a state to
//! what one fetch-decode-execute cycle does with it, and [`run_n`] iterates
//! it. The executable engine is specified, and verified, against these
//! functions alone.

use vstd::prelude::*;

use crate::instruction::Instruction;

verus! {

/// Why a run aborts. Every variant is fatal: the engine has no internal
/// recovery path, and whatever output had accumulated is lost.
#[derive(Clone, Copy, Debug, PartialEq, Eq)]
pub enum BFError {
    /// A program character has no entry in the active instruction set.
    InvalidInstruction(char),
    /// The decoded program holds unequal counts of loop-start and loop-end
    /// operations.
    UnbalancedBrackets,
    /// The data pointer was moved below index 0.
    PointerUnderflow,
    /// A direct cell access addressed a position outside the allocated tape,
    /// the loop-end search ran past the end of the program, or the data
    /// pointer left the addressable range altogether.
    TapeIndexOutOfBounds,
    /// A loop-end was reached, with a nonzero cell, while the loop stack was
    /// empty: there is no loop entry to jump back to.
    MalformedJumpTarget,
}

/// The mathematical state of one run.
#[verifier::ext_equal]
pub ghost struct State {
    /// The decoded program: one operation per recognized source symbol.
    pub prog: Seq<Instruction>,
    /// The instruction pointer: an index into `prog`.
    pub ip: int,
    /// The tape of 8-bit cells.
    pub tape: Seq<u8>,
    /// The data pointer: an index into `tape`.
    pub dp: int,
    /// Positions of loop entries, for backward jump resolution.
    pub stack: Seq<int>,
    /// The characters emitted so far, in emission order.
    pub out: Seq<char>,
}

/// What one execution cycle does with a state.
pub ghost enum Step {
    /// An operation executed; this is the state after it.
    Next(State),
    /// The instruction pointer has left the program: the run is complete.
    Done,
    /// The current operation reads one externally supplied character; the
    /// machine waits until one arrives (see [`feed`]).
    Block,
    /// The run aborts with this error.
    Fail(BFError),
}

/// An increment of one cell value, wrapping 255 round to 0.
pub open spec fn wrap_inc(v: u8) -> u8 {
    if v == 255 {
        0
    } else {
        (v + 1) as u8
    }
}

/// A decrement of one cell value, wrapping 0 round to 255.
pub open spec fn wrap_dec(v: u8) -> u8 {
    if v == 0 {
        255
    } else {
        (v - 1) as u8
    }
}

/// The tape after an increment or decrement at position `dp`.
///
/// Inside the populated range the cell is updated with wraparound. Beyond it
/// the cell is treated as having started the run at 0: the tape is extended
/// with zeroes up to `dp`, and the write establishes 1 (increment) or 255
/// (decrement) there. Only these two operations are this lenient; direct
/// reads and writes beyond the tape are fatal instead.
pub open spec fn bumped(tape: Seq<u8>, dp: int, inc: bool) -> Seq<u8> {
    if 0 <= dp < tape.len() {
        tape.update(dp, if inc { wrap_inc(tape[dp]) } else { wrap_dec(tape[dp]) })
    } else {
        tape + Seq::new((dp - tape.len()) as nat, |i: int| 0u8) + seq![if inc { 1u8 } else { 255u8 }]
    }
}

/// The loop-end search: from position `p`, scan forward counting nested
/// depth — up on each loop-start, down on each loop-end — until the depth
/// reaches 0, and return the position where it did. `None` means the scan
/// ran past the end of the program, which aborts the run. The search starts
/// with the depth equal to the loop stack's current length, so its result is
/// coupled to how many loop entries are pending when it is invoked.
pub open spec fn scan_end(prog: Seq<Instruction>, p: int, depth: int) -> Option<int>
    decreases prog.len() - p,
{
    if depth <= 0 {
        Some(p)
    } else if p + 1 >= prog.len() {
        None
    } else {
        let d = if prog[p + 1] == Instruction::OpenLoop {
            depth + 1
        } else if prog[p + 1] == Instruction::CloseLoop {
            depth - 1
        } else {
            depth
        };
        scan_end(prog, p + 1, d)
    }
}

/// Whether the instruction pointer has left the program: the one successful
/// termination condition.
pub open spec fn halted(s: State) -> bool {
    !(0 <= s.ip < s.prog.len())
}

/// Whether the machine stands at an input operation, waiting for one
/// externally supplied character.
pub open spec fn blocked(s: State) -> bool {
    0 <= s.ip < s.prog.len() && s.prog[s.ip] == Instruction::Input
}

/// One fetch-decode-execute cycle.
///
/// Every operation that completes advances the instruction pointer by
/// exactly one — the jump operations first reposition it, so that the
/// advance lands just past the jump target. The data pointer has no upper
/// bound of its own; it fails only at the edge of the address space, while
/// cell accesses are bounds-checked as each operation requires.
pub open spec fn step(s: State) -> Step {
    if halted(s) {
        Step::Done
    } else {
        match s.prog[s.ip] {
            Instruction::PointerInc => {
                if s.dp >= usize::MAX as int {
                    Step::Fail(BFError::TapeIndexOutOfBounds)
                } else {
                    Step::Next(State { ip: s.ip + 1, dp: s.dp + 1, ..s })
                }
            },
            Instruction::PointerDec => {
                if s.dp <= 0 {
                    Step::Fail(BFError::PointerUnderflow)
                } else {
                    Step::Next(State { ip: s.ip + 1, dp: s.dp - 1, ..s })
                }
            },
            Instruction::ByteInc => {
                if !(0 <= s.dp < s.tape.len()) && s.dp >= usize::MAX as int {
                    Step::Fail(BFError::TapeIndexOutOfBounds)
                } else {
                    Step::Next(State { ip: s.ip + 1, tape: bumped(s.tape, s.dp, true), ..s })
                }
            },
            Instruction::ByteDec => {
                if !(0 <= s.dp < s.tape.len()) && s.dp >= usize::MAX as int {
                    Step::Fail(BFError::TapeIndexOutOfBounds)
                } else {
                    Step::Next(State { ip: s.ip + 1, tape: bumped(s.tape, s.dp, false), ..s })
                }
            },
            Instruction::Output => {
                if !(0 <= s.dp < s.tape.len()) {
                    Step::Fail(BFError::TapeIndexOutOfBounds)
                } else {
                    Step::Next(State { ip: s.ip + 1, out: s.out.push(s.tape[s.dp] as char), ..s })
                }
            },
            Instruction::Input => Step::Block,
            Instruction::OpenLoop => {
                if !(0 <= s.dp < s.tape.len()) {
                    Step::Fail(BFError::TapeIndexOutOfBounds)
                } else if s.tape[s.dp] != 0 {
                    Step::Next(State { ip: s.ip + 1, stack: s.stack.push(s.ip), ..s })
                } else {
                    match scan_end(s.prog, s.ip, s.stack.len() as int) {
                        Some(p) => Step::Next(State { ip: p + 1, ..s }),
                        None => Step::Fail(BFError::TapeIndexOutOfBounds),
                    }
                }
            },
            Instruction::CloseLoop => {
                if !(0 <= s.dp < s.tape.len()) {
                    Step::Fail(BFError::TapeIndexOutOfBounds)
                } else if s.tape[s.dp] == 0 {
                    Step::Next(State { ip: s.ip + 1, ..s })
                } else if s.stack.len() == 0 {
                    Step::Fail(BFError::MalformedJumpTarget)
                } else {
                    // The entry is read, not popped: loop re-entry leaves the
                    // stack as it stands, and the loop-end search's starting
                    // depth above is coupled to exactly this.
                    Step::Next(State { ip: s.stack.last() + 1, ..s })
                }
            },
        }
    }
}

/// One externally supplied character arrives at a blocked machine: a direct,
/// bounds-checked write of its code point into the current cell, after which
/// the instruction pointer advances past the input operation.
pub open spec fn feed(s: State, c: u8) -> Step {
    if !(0 <= s.dp < s.tape.len()) {
        Step::Fail(BFError::TapeIndexOutOfBounds)
    } else {
        Step::Next(State { ip: s.ip + 1, tape: s.tape.update(s.dp, c), ..s })
    }
}

/// The state after `n` execution cycles; a state that cannot step further
/// stays as it is.
pub open spec fn run_n(s: State, n: nat) -> State
    decreases n,
{
    if n == 0 {
        s
    } else {
        match step(s) {
            Step::Next(t) => run_n(t, (n - 1) as nat),
            _ => s,
        }
    }
}

/// Iteration extends at the far end: if the state after `n` cycles can step,
/// one more cycle reaches exactly that step's successor.
pub proof fn lemma_run_n_snoc(s: State, n: nat)
    ensures
        step(run_n(s, n)) matches Step::Next(t) ==> run_n(s, n + 1) == t,
    decreases n,
{
    match step(s) {
        Step::Next(t0) => {
            if n == 0 {
                assert(run_n(s, 1) == run_n(t0, 0));
            } else {
                lemma_run_n_snoc(t0, (n - 1) as nat);
                assert(run_n(s, n) == run_n(t0, (n - 1) as nat));
                assert(run_n(s, n + 1) == run_n(t0, n));
                assert((n - 1) as nat + 1 == n);
            }
        },
        _ => {
            assert(run_n(s, n) == s);
            assert(run_n(s, n + 1) == s);
        },
    }
}

/// The state a run starts from: pointer at 0, a fresh all-zero tape of the
/// configured length, empty loop stack, empty output.
pub open spec fn initial_state(prog: Seq<Instruction>, tape_len: nat) -> State {
    State {
        prog,
        ip: 0,
        tape: Seq::new(tape_len, |i: int| 0u8),
        dp: 0,
        stack: Seq::empty(),
        out: Seq::empty(),
    }
}

/// Whether every character of the source has an entry in the mapping.
pub open spec fn all_recognized(src: Seq<char>, m: Map<char, Instruction>) -> bool {
    forall|i: int| 0 <= i < src.len() ==> m.contains_key(src[i])
}

/// The decoded program: each source character replaced by the operation the
/// mapping binds it to. Meaningful only where [`all_recognized`] holds.
pub open spec fn decode(src: Seq<char>, m: Map<char, Instruction>) -> Seq<Instruction>
    decreases src.len(),
{
    if src.len() == 0 {
        Seq::empty()
    } else {
        decode(src.drop_last(), m).push(m[src.last()])
    }
}

/// The position of the first source character absent from the mapping —
/// the character a load failure names.
pub open spec fn first_unrecognized(src: Seq<char>, m: Map<char, Instruction>) -> int
    decreases src.len(),
{
    if src.len() == 0 {
        0
    } else if m.contains_key(src.first()) {
        1 + first_unrecognized(src.drop_first(), m)
    } else {
        0
    }
}

/// A position whose character is unrecognized, while every earlier one is
/// recognized, is exactly what [`first_unrecognized`] points at.
pub proof fn lemma_first_unrecognized(src: Seq<char>, m: Map<char, Instruction>, i: int)
    requires
        0 <= i < src.len(),
        !m.contains_key(src[i]),
        forall|j: int| 0 <= j < i ==> m.contains_key(src[j]),
    ensures
        first_unrecognized(src, m) == i,
    decreases i,
{
    if i > 0 {
        assert(m.contains_key(src.first()));
        let rest = src.drop_first();
        assert(rest[i - 1] == src[i]);
        assert forall|j: int| 0 <= j < i - 1 implies m.contains_key(rest[j]) by {
            assert(rest[j] == src[j + 1]);
        }
        lemma_first_unrecognized(rest, m, i - 1);
    }
}

/// How many operations of the program are the given one.
pub open spec fn count_op(prog: Seq<Instruction>, op: Instruction) -> nat
    decreases prog.len(),
{
    if prog.len() == 0 {
        0
    } else {
        count_op(prog.drop_last(), op) + (if prog.last() == op {
            1nat
        } else {
            0nat
        })
    }
}

/// Whether the program holds as many loop-starts as loop-ends: the
/// structural pre-check a run makes before executing anything.
pub open spec fn balanced(prog: Seq<Instruction>) -> bool {
    count_op(prog, Instruction::OpenLoop) == count_op(prog, Instruction::CloseLoop)
}

/// Whether a source string loads at all: every symbol recognized, and the
/// decoded program balanced.
pub open spec fn loads(src: Seq<char>, m: Map<char, Instruction>) -> bool {
    all_recognized(src, m) && balanced(decode(src, m))
}

/// Law: cell arithmetic wraps round. Incrementing a cell holding 255 yields
/// 0, and decrementing a cell holding 0 yields 255.
pub proof fn lemma_cell_wraparound(tape: Seq<u8>, dp: int)
    requires
        0 <= dp < tape.len(),
    ensures
        tape[dp] == 255 ==> bumped(tape, dp, true)[dp] == 0,
        tape[dp] == 0 ==> bumped(tape, dp, false)[dp] == 255,
{
}

/// Law: moving the data pointer below index 0 fails with a pointer
/// underflow, whatever else the state holds.
pub proof fn lemma_pointer_underflow(s: State)
    requires
        0 <= s.ip < s.prog.len(),
        s.prog[s.ip] == Instruction::PointerDec,
        s.dp == 0,
    ensures
        step(s) == Step::Fail(BFError::PointerUnderflow),
{
}

/// Law: the state a run starts from is a function of the program and the
/// configured tape length alone, and holds no residue of anything earlier:
/// both pointers at 0, an all-zero tape, an empty loop stack, an empty
/// output. Two runs of one engine therefore start alike whenever they load
/// the same program.
pub proof fn lemma_fresh_start(prog: Seq<Instruction>, tape_len: nat)
    ensures
        initial_state(prog, tape_len).ip == 0,
        initial_state(prog, tape_len).dp == 0,
        initial_state(prog, tape_len).stack == Seq::<int>::empty(),
        initial_state(prog, tape_len).out == Seq::<char>::empty(),
        initial_state(prog, tape_len).tape.len() == tape_len,
        forall|i: int| 0 <= i < tape_len ==> initial_state(prog, tape_len).tape[i] == 0,
{
}

/// Law: an executing machine can fail with a runtime error alone; the load
/// errors arise only before execution begins.
pub proof fn lemma_step_fail_kinds(s: State)
    ensures
        step(s) matches Step::Fail(e) ==> e == BFError::PointerUnderflow || e
            == BFError::TapeIndexOutOfBounds || e == BFError::MalformedJumpTarget,
{
}

/// Law: a run with an empty source starts halted — no cycle ever executes,
/// and every iterate keeps the reset state with its empty output.
pub proof fn lemma_empty_program_stays_reset(tape_len: nat, n: nat)
    ensures
        run_n(initial_state(Seq::<Instruction>::empty(), tape_len), n) == initial_state(
            Seq::<Instruction>::empty(),
            tape_len,
        ),
        halted(run_n(initial_state(Seq::<Instruction>::empty(), tape_len), n)),
{
}

} // verus!
