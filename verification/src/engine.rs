//! The execution engine: program loading, validation, and the
//! fetch-decode-execute loop, specified against [`crate::machine`].

use vstd::prelude::*;
use vstd::string::*;

use crate::instruction::{default_map, Instruction, InstructionSet};
use crate::machine::{
    all_recognized, balanced, blocked, bumped, count_op, decode, feed, first_unrecognized, halted,
    initial_state, lemma_empty_program_stays_reset, lemma_first_unrecognized, lemma_run_n_snoc,
    lemma_step_fail_kinds, loads, run_n, scan_end, step, BFError, State, Step,
};

verus! {

/// Relies on String::push of std: it appends the given character to the end
/// of the string.
pub assume_specification[ String::push ](s: &mut String, ch: char)
    ensures
        final(s)@ == old(s)@.push(ch),
;

/// How a run that has not aborted stands.
#[derive(Debug, PartialEq, Eq)]
pub enum RunOutcome {
    /// The instruction pointer reached the end of the program: the run is
    /// complete, and this is the concatenation of all emitted characters,
    /// in emission order.
    Finished(String),
    /// Execution stands at an input operation and waits for one externally
    /// supplied character; hand one to
    /// [`BFInterpreter::resume_with_input`] to go on.
    NeedsInput,
    /// The step budget ran out before the run reached its end; call
    /// [`BFInterpreter::advance`] to go on.
    Running,
}

/// Construction options: a tape capacity other than the default 1024 cells,
/// and a symbol table other than the default eight-symbol one.
pub struct BFInterpreterConfig {
    /// Overrides the default tape capacity of 1024 cells.
    pub tape_size: Option<usize>,
    /// Overrides the default symbol-to-operation mapping. No completeness is
    /// asked of it: an operation bound to no symbol is simply unreachable.
    pub custom_instructions: Option<InstructionSet>,
}

/// The tape capacity a configuration denotes.
pub open spec fn config_capacity(config: Option<BFInterpreterConfig>) -> nat {
    match config {
        Some(c) => match c.tape_size {
            Some(n) => n as nat,
            None => 1024,
        },
        None => 1024,
    }
}

/// The symbol table a configuration denotes.
pub open spec fn config_symbols(config: Option<BFInterpreterConfig>) -> Map<char, Instruction> {
    match config {
        Some(c) => match c.custom_instructions {
            Some(ci) => ci@,
            None => default_map(),
        },
        None => default_map(),
    }
}

/// The execution engine. It owns the symbol table and the configured tape
/// capacity across runs; everything else — program, instruction pointer,
/// tape, loop stack, output — is rebuilt from scratch by every call to
/// [`BFInterpreter::run`].
pub struct BFInterpreter {
    instruction_pointer: usize,
    instruction_set: InstructionSet,
    instructions: Vec<Instruction>,
    data_pointer: usize,
    data: Vec<u8>,
    loop_stack: Vec<usize>,
    output: Vec<char>,
    tape_size: usize,
    awaiting_input: bool,
}

impl BFInterpreter {
    /// The symbol table the engine decodes with; fixed across runs.
    pub closed spec fn symbols(self) -> Map<char, Instruction> {
        self.instruction_set@
    }

    /// The tape capacity a fresh run starts from; fixed across runs.
    pub closed spec fn capacity(self) -> nat {
        self.tape_size as nat
    }

    /// The machine state the engine currently holds, as a [`State`].
    pub closed spec fn abs(self) -> State {
        State {
            prog: self.instructions@,
            ip: self.instruction_pointer as int,
            tape: self.data@,
            dp: self.data_pointer as int,
            stack: self.loop_stack@.map_values(|x: usize| x as int),
            out: self.output@,
        }
    }

    /// Whether the engine stands paused at an input operation.
    pub closed spec fn awaiting(self) -> bool {
        self.awaiting_input
    }

    /// The engine's internal invariant: a paused engine really stands at an
    /// input operation, and every pending loop entry lies inside the
    /// program.
    pub closed spec fn wf(self) -> bool {
        &&& (self.awaiting_input ==> blocked(self.abs()))
        &&& (forall|k: int|
            0 <= k < self.loop_stack@.len() ==> (self.loop_stack@[k] as int)
                < self.instructions@.len())
    }
}

fn zeroed_vec(n: usize) -> (v: Vec<u8>)
    ensures
        v@ == Seq::new(n as nat, |i: int| 0u8),
{
    let mut v: Vec<u8> = Vec::new();
    while v.len() < n
        invariant
            v@.len() <= n,
            v@ =~= Seq::new(v@.len(), |i: int| 0u8),
        decreases n - v@.len(),
    {
        v.push(0);
    }
    proof {
        assert(v@ =~= Seq::new(n as nat, |i: int| 0u8));
    }
    v
}

fn extend_with_zeroes(v: &mut Vec<u8>, target: usize)
    requires
        old(v)@.len() <= target,
    ensures
        final(v)@ == old(v)@ + Seq::new((target - old(v)@.len()) as nat, |i: int| 0u8),
{
    let ghost orig = old(v)@;
    while v.len() < target
        invariant
            orig.len() <= v@.len() <= target,
            v@ =~= orig + Seq::new((v@.len() - orig.len()) as nat, |i: int| 0u8),
        decreases target - v@.len(),
    {
        v.push(0);
    }
    proof {
        assert(v@ =~= orig + Seq::new((target - orig.len()) as nat, |i: int| 0u8));
    }
}

impl BFInterpreter {
    /// A fresh engine: the configured (or default) symbol table and tape
    /// capacity, and an empty, reset machine state.
    pub fn new(config: Option<BFInterpreterConfig>) -> (r: BFInterpreter)
        ensures
            r.symbols() == config_symbols(config),
            r.capacity() == config_capacity(config),
            r.wf(),
            !r.awaiting(),
            r.abs() == initial_state(Seq::<Instruction>::empty(), config_capacity(config)),
    {
        let (tape_size, custom_instructions) = match config {
            None => (None, None),
            Some(v) => (v.tape_size, v.custom_instructions),
        };
        let instruction_set = match custom_instructions {
            None => InstructionSet::default_set(),
            Some(v) => v,
        };
        let size: usize = match tape_size {
            None => 1024,
            Some(v) => v,
        };
        let r = BFInterpreter {
            instruction_pointer: 0,
            instruction_set,
            instructions: Vec::new(),
            data_pointer: 0,
            data: zeroed_vec(size),
            loop_stack: Vec::new(),
            output: Vec::new(),
            tape_size: size,
            awaiting_input: false,
        };
        proof {
            assert(r.loop_stack@.map_values(|x: usize| x as int) =~= Seq::<int>::empty());
            assert(r.abs() =~= initial_state(Seq::<Instruction>::empty(), config_capacity(config)));
        }
        r
    }

    /// Reset every per-run part of the state and decode the source through
    /// the symbol table; a character absent from it is a load error naming
    /// that character.
    fn init(&mut self, instructions: &str) -> (r: Result<(), BFError>)
        ensures
            final(self).symbols() == old(self).symbols(),
            final(self).capacity() == old(self).capacity(),
            final(self).wf(),
            !final(self).awaiting(),
            match r {
                Ok(()) => all_recognized(instructions@, old(self).symbols()) && final(self).abs()
                    == initial_state(
                    decode(instructions@, old(self).symbols()),
                    old(self).capacity(),
                ),
                Err(e) => {
                    &&& !all_recognized(instructions@, old(self).symbols())
                    &&& e == BFError::InvalidInstruction(
                        instructions@[first_unrecognized(instructions@, old(self).symbols())],
                    )
                    &&& final(self).abs().out == Seq::<char>::empty()
                },
            },
    {
        self.instruction_pointer = 0;
        self.instructions = Vec::new();
        self.data_pointer = 0;
        self.data = zeroed_vec(self.tape_size);
        self.loop_stack = Vec::new();
        self.output = Vec::new();
        self.awaiting_input = false;

        let n = instructions.unicode_len();
        let mut i: usize = 0;
        while i < n
            invariant
                n as nat == instructions@.len(),
                i <= n,
                self.instruction_set == old(self).instruction_set,
                self.tape_size == old(self).tape_size,
                self.instruction_pointer == 0,
                self.data_pointer == 0,
                self.data@ == Seq::new(self.tape_size as nat, |k: int| 0u8),
                self.loop_stack@.len() == 0,
                self.output@.len() == 0,
                !self.awaiting_input,
                self.instructions@ == decode(instructions@.take(i as int), self.instruction_set@),
                forall|j: int|
                    0 <= j < i ==> self.instruction_set@.contains_key(instructions@[j]),
            decreases n - i,
        {
            let c = instructions.get_char(i);
            match self.instruction_set.lookup(c) {
                None => {
                    proof {
                        lemma_first_unrecognized(instructions@, self.instruction_set@, i as int);
                    }
                    return Err(BFError::InvalidInstruction(c));
                },
                Some(op) => {
                    self.instructions.push(op);
                    proof {
                        assert(instructions@.take(i as int + 1).drop_last() =~= instructions@.take(
                            i as int,
                        ));
                        assert(instructions@.take(i as int + 1).last() == instructions@[i as int]);
                    }
                },
            }
            i = i + 1;
        }
        proof {
            assert(instructions@.take(n as int) =~= instructions@);
            assert(self.loop_stack@.map_values(|x: usize| x as int) =~= Seq::<int>::empty());
            assert(self.abs() =~= initial_state(
                decode(instructions@, old(self).symbols()),
                old(self).capacity(),
            ));
        }
        Ok(())
    }

    /// How many operations of the decoded program are the given one.
    fn count_instructions(&self, op: Instruction) -> (n: usize)
        ensures
            n as nat == count_op(self.instructions@, op),
    {
        let mut count: usize = 0;
        let mut i: usize = 0;
        while i < self.instructions.len()
            invariant
                i <= self.instructions@.len(),
                count <= i,
                count as nat == count_op(self.instructions@.take(i as int), op),
            decreases self.instructions@.len() - i,
        {
            proof {
                assert(self.instructions@.take(i as int + 1).drop_last() =~= self.instructions@.take(
                    i as int,
                ));
            }
            if self.instructions[i] == op {
                count = count + 1;
            }
            i = i + 1;
        }
        proof {
            assert(self.instructions@.take(self.instructions@.len() as int)
                =~= self.instructions@);
        }
        count
    }

    /// Move the data pointer one cell forward. No tape bound is enforced
    /// here; only the edge of the address space stops it.
    fn pointer_inc(&mut self) -> (r: Result<(), BFError>)
        ensures
            final(self).instruction_set == old(self).instruction_set,
            final(self).tape_size == old(self).tape_size,
            final(self).instruction_pointer == old(self).instruction_pointer,
            final(self).instructions == old(self).instructions,
            final(self).data == old(self).data,
            final(self).loop_stack == old(self).loop_stack,
            final(self).output == old(self).output,
            final(self).awaiting_input == old(self).awaiting_input,
            match r {
                Ok(()) => old(self).data_pointer < usize::MAX && final(self).data_pointer == old(self).data_pointer + 1,
                Err(e) => e == BFError::TapeIndexOutOfBounds && old(self).data_pointer
                    == usize::MAX && final(self).data_pointer == old(self).data_pointer,
            },
    {
        if self.data_pointer == usize::MAX {
            return Err(BFError::TapeIndexOutOfBounds);
        }
        self.data_pointer = self.data_pointer + 1;
        Ok(())
    }

    /// Move the data pointer one cell backward; below index 0 is a fatal
    /// pointer underflow.
    fn pointer_dec(&mut self) -> (r: Result<(), BFError>)
        ensures
            final(self).instruction_set == old(self).instruction_set,
            final(self).tape_size == old(self).tape_size,
            final(self).instruction_pointer == old(self).instruction_pointer,
            final(self).instructions == old(self).instructions,
            final(self).data == old(self).data,
            final(self).loop_stack == old(self).loop_stack,
            final(self).output == old(self).output,
            final(self).awaiting_input == old(self).awaiting_input,
            match r {
                Ok(()) => old(self).data_pointer > 0 && final(self).data_pointer == old(self).data_pointer - 1,
                Err(e) => e == BFError::PointerUnderflow && old(self).data_pointer == 0 && final(self).data_pointer == old(self).data_pointer,
            },
    {
        if self.data_pointer == 0 {
            return Err(BFError::PointerUnderflow);
        }
        self.data_pointer = self.data_pointer - 1;
        Ok(())
    }

    /// Increment the current cell, wrapping 255 round to 0. Past the
    /// populated range the cell counts as 0, so the write establishes 1.
    fn byte_inc(&mut self) -> (r: Result<(), BFError>)
        ensures
            final(self).instruction_set == old(self).instruction_set,
            final(self).tape_size == old(self).tape_size,
            final(self).instruction_pointer == old(self).instruction_pointer,
            final(self).instructions == old(self).instructions,
            final(self).data_pointer == old(self).data_pointer,
            final(self).loop_stack == old(self).loop_stack,
            final(self).output == old(self).output,
            final(self).awaiting_input == old(self).awaiting_input,
            match r {
                Ok(()) => (old(self).data_pointer < old(self).data@.len() || old(self).data_pointer < usize::MAX) && final(self).data@ == bumped(
                    old(self).data@,
                    old(self).data_pointer as int,
                    true,
                ),
                Err(e) => e == BFError::TapeIndexOutOfBounds && old(self).data_pointer >= old(self).data@.len() && old(self).data_pointer == usize::MAX && final(self).data == old(self).data,
            },
    {
        let dp = self.data_pointer;
        if dp < self.data.len() {
            let v = self.data[dp];
            let w: u8 = if v == 255 {
                0
            } else {
                v + 1
            };
            self.data.set(dp, w);
            proof {
                assert(self.data@ =~= bumped(old(self).data@, dp as int, true));
            }
            Ok(())
        } else {
            if dp == usize::MAX {
                return Err(BFError::TapeIndexOutOfBounds);
            }
            extend_with_zeroes(&mut self.data, dp);
            self.data.push(1);
            proof {
                assert(self.data@ =~= bumped(old(self).data@, dp as int, true));
            }
            Ok(())
        }
    }

    /// Decrement the current cell, wrapping 0 round to 255. Past the
    /// populated range the cell counts as 0, so the write establishes 255.
    fn byte_dec(&mut self) -> (r: Result<(), BFError>)
        ensures
            final(self).instruction_set == old(self).instruction_set,
            final(self).tape_size == old(self).tape_size,
            final(self).instruction_pointer == old(self).instruction_pointer,
            final(self).instructions == old(self).instructions,
            final(self).data_pointer == old(self).data_pointer,
            final(self).loop_stack == old(self).loop_stack,
            final(self).output == old(self).output,
            final(self).awaiting_input == old(self).awaiting_input,
            match r {
                Ok(()) => (old(self).data_pointer < old(self).data@.len() || old(self).data_pointer < usize::MAX) && final(self).data@ == bumped(
                    old(self).data@,
                    old(self).data_pointer as int,
                    false,
                ),
                Err(e) => e == BFError::TapeIndexOutOfBounds && old(self).data_pointer >= old(self).data@.len() && old(self).data_pointer == usize::MAX && final(self).data == old(self).data,
            },
    {
        let dp = self.data_pointer;
        if dp < self.data.len() {
            let v = self.data[dp];
            let w: u8 = if v == 0 {
                255
            } else {
                v - 1
            };
            self.data.set(dp, w);
            proof {
                assert(self.data@ =~= bumped(old(self).data@, dp as int, false));
            }
            Ok(())
        } else {
            if dp == usize::MAX {
                return Err(BFError::TapeIndexOutOfBounds);
            }
            extend_with_zeroes(&mut self.data, dp);
            self.data.push(255);
            proof {
                assert(self.data@ =~= bumped(old(self).data@, dp as int, false));
            }
            Ok(())
        }
    }

    /// Emit the current cell: a direct, bounds-checked read, appended to the
    /// output as the character with the cell's code point.
    fn output(&mut self) -> (r: Result<(), BFError>)
        ensures
            final(self).instruction_set == old(self).instruction_set,
            final(self).tape_size == old(self).tape_size,
            final(self).instruction_pointer == old(self).instruction_pointer,
            final(self).instructions == old(self).instructions,
            final(self).data == old(self).data,
            final(self).data_pointer == old(self).data_pointer,
            final(self).loop_stack == old(self).loop_stack,
            final(self).awaiting_input == old(self).awaiting_input,
            match r {
                Ok(()) => old(self).data_pointer < old(self).data@.len() && final(self).output@
                    == old(self).output@.push(
                    old(self).data@[old(self).data_pointer as int] as char,
                ),
                Err(e) => e == BFError::TapeIndexOutOfBounds && old(self).data_pointer >= old(self).data@.len() && final(self).output == old(self).output,
            },
    {
        if self.data_pointer >= self.data.len() {
            return Err(BFError::TapeIndexOutOfBounds);
        }
        let b = self.data[self.data_pointer];
        self.output.push(b as char);
        Ok(())
    }

    /// The loop-end search of [`scan_end`], run forward over the decoded
    /// program; scanning past its end is fatal.
    fn get_loop_end(&self) -> (r: Result<usize, BFError>)
        requires
            self.instruction_pointer < self.instructions@.len(),
        ensures
            match r {
                Ok(p) => scan_end(
                    self.instructions@,
                    self.instruction_pointer as int,
                    self.loop_stack@.len() as int,
                ) == Some(p as int) && p < self.instructions@.len(),
                Err(e) => e == BFError::TapeIndexOutOfBounds && scan_end(
                    self.instructions@,
                    self.instruction_pointer as int,
                    self.loop_stack@.len() as int,
                ) is None,
            },
    {
        let prog_len = self.instructions.len();
        let mut loopdepth: u128 = self.loop_stack.len() as u128;
        let mut pointer: usize = self.instruction_pointer;

        while loopdepth > 0
            invariant
                prog_len as nat == self.instructions@.len(),
                self.loop_stack@.len() <= usize::MAX,
                self.instruction_pointer <= pointer < prog_len,
                loopdepth <= self.loop_stack@.len() + (pointer - self.instruction_pointer),
                scan_end(
                    self.instructions@,
                    self.instruction_pointer as int,
                    self.loop_stack@.len() as int,
                ) == scan_end(self.instructions@, pointer as int, loopdepth as int),
            decreases prog_len - pointer,
        {
            if pointer >= prog_len - 1 {
                return Err(BFError::TapeIndexOutOfBounds);
            }
            pointer = pointer + 1;

            match self.instructions[pointer] {
                Instruction::OpenLoop => loopdepth = loopdepth + 1,
                Instruction::CloseLoop => loopdepth = loopdepth - 1,
                _ => {},
            }
        }
        Ok(pointer)
    }

    /// Resolve a loop operation. Entering a loop with a nonzero cell pushes
    /// the entry position; a zero cell skips to just before the balancing
    /// loop-end. Leaving a loop with a nonzero cell jumps back to the top
    /// pending entry — which is read, not popped — and a zero cell falls
    /// through. The caller advances the instruction pointer afterwards, as
    /// after every operation.
    fn jump(&mut self, op: Instruction) -> (r: Result<(), BFError>)
        requires
            op == Instruction::OpenLoop || op == Instruction::CloseLoop,
            old(self).instruction_pointer < old(self).instructions@.len(),
            forall|k: int|
                0 <= k < old(self).loop_stack@.len() ==> (old(self).loop_stack@[k] as int) < old(self).instructions@.len(),
        ensures
            final(self).instruction_set == old(self).instruction_set,
            final(self).tape_size == old(self).tape_size,
            final(self).instructions == old(self).instructions,
            final(self).data == old(self).data,
            final(self).data_pointer == old(self).data_pointer,
            final(self).output == old(self).output,
            final(self).awaiting_input == old(self).awaiting_input,
            match r {
                Ok(()) => {
                    let cell = old(self).data@[old(self).data_pointer as int];
                    &&& old(self).data_pointer < old(self).data@.len()
                    &&& final(self).instruction_pointer < old(self).instructions@.len()
                    &&& if op == Instruction::CloseLoop {
                        final(self).loop_stack == old(self).loop_stack && if cell == 0 {
                            final(self).instruction_pointer == old(self).instruction_pointer
                        } else {
                            old(self).loop_stack@.len() > 0 && final(self).instruction_pointer
                                == old(self).loop_stack@.last()
                        }
                    } else {
                        if cell != 0 {
                            final(self).instruction_pointer == old(self).instruction_pointer
                                && final(self).loop_stack@ == old(self).loop_stack@.push(
                                old(self).instruction_pointer,
                            )
                        } else {
                            final(self).loop_stack == old(self).loop_stack && scan_end(
                                old(self).instructions@,
                                old(self).instruction_pointer as int,
                                old(self).loop_stack@.len() as int,
                            ) == Some(final(self).instruction_pointer as int)
                        }
                    }
                },
                Err(e) => {
                    &&& final(self).instruction_pointer == old(self).instruction_pointer
                    &&& final(self).loop_stack == old(self).loop_stack
                    &&& if old(self).data_pointer >= old(self).data@.len() {
                        e == BFError::TapeIndexOutOfBounds
                    } else if op == Instruction::CloseLoop {
                        e == BFError::MalformedJumpTarget && old(self).data@[old(self).data_pointer as int] != 0 && old(self).loop_stack@.len() == 0
                    } else {
                        e == BFError::TapeIndexOutOfBounds && old(self).data@[old(self).data_pointer as int] == 0 && scan_end(
                            old(self).instructions@,
                            old(self).instruction_pointer as int,
                            old(self).loop_stack@.len() as int,
                        ) is None
                    }
                },
            },
    {
        if self.data_pointer >= self.data.len() {
            return Err(BFError::TapeIndexOutOfBounds);
        }
        let cell = self.data[self.data_pointer];
        match op {
            Instruction::CloseLoop => {
                if cell != 0 {
                    if self.loop_stack.len() == 0 {
                        return Err(BFError::MalformedJumpTarget);
                    }
                    self.instruction_pointer = self.loop_stack[self.loop_stack.len() - 1];
                }
                Ok(())
            },
            Instruction::OpenLoop => {
                if cell == 0 {
                    match self.get_loop_end() {
                        Ok(p) => {
                            self.instruction_pointer = p;
                            Ok(())
                        },
                        Err(e) => Err(e),
                    }
                } else {
                    self.loop_stack.push(self.instruction_pointer);
                    Ok(())
                }
            },
            _ => {
                proof {
                    assert(false);
                }
                Err(BFError::MalformedJumpTarget)
            },
        }
    }

    /// Execute from the current state until the program ends, an input
    /// operation asks for a character, the run fails, or `max_steps`
    /// operations have executed — whichever comes first.
    pub fn advance(&mut self, max_steps: u64) -> (r: Result<RunOutcome, BFError>)
        requires
            old(self).wf(),
            !old(self).awaiting(),
        ensures
            final(self).symbols() == old(self).symbols(),
            final(self).capacity() == old(self).capacity(),
            final(self).wf(),
            final(self).awaiting() <==> r == Ok::<RunOutcome, BFError>(RunOutcome::NeedsInput),
            match r {
                Ok(RunOutcome::Finished(out)) => exists|n: nat|
                    n <= max_steps && halted(#[trigger] run_n(old(self).abs(), n)) && final(self).abs() == run_n(old(self).abs(), n) && out@ == run_n(old(self).abs(), n).out,
                Ok(RunOutcome::NeedsInput) => exists|n: nat|
                    n <= max_steps && blocked(#[trigger] run_n(old(self).abs(), n)) && final(self).abs() == run_n(old(self).abs(), n),
                Ok(RunOutcome::Running) => final(self).abs() == run_n(
                    old(self).abs(),
                    max_steps as nat,
                ) && !halted(final(self).abs()),
                Err(e) => exists|n: nat|
                    n <= max_steps && step(#[trigger] run_n(old(self).abs(), n)) == Step::Fail(e),
            },
    {
        let ghost s0 = old(self).abs();
        let mut used: u64 = 0;

        while used < max_steps && self.instruction_pointer < self.instructions.len()
            invariant
                s0 == old(self).abs(),
                used <= max_steps,
                self.wf(),
                !self.awaiting_input,
                self.instruction_set == old(self).instruction_set,
                self.tape_size == old(self).tape_size,
                self.abs() == run_n(s0, used as nat),
            decreases max_steps - used,
        {
            let ghost prev = self.abs();
            let op = self.instructions[self.instruction_pointer];

            if let Instruction::Input = op {
                self.awaiting_input = true;
                proof {
                    let w: nat = used as nat;
                    assert(w <= max_steps && blocked(run_n(old(self).abs(), w)) && self.abs()
                        == run_n(old(self).abs(), w));
                }
                return Ok(RunOutcome::NeedsInput);
            }
            let step_result: Result<(), BFError> = match op {
                Instruction::PointerInc => self.pointer_inc(),
                Instruction::PointerDec => self.pointer_dec(),
                Instruction::ByteInc => self.byte_inc(),
                Instruction::ByteDec => self.byte_dec(),
                Instruction::Output => self.output(),
                Instruction::OpenLoop => self.jump(op),
                Instruction::CloseLoop => self.jump(op),
                Instruction::Input => {
                    proof {
                        assert(false);
                    }
                    Ok(())
                },
            };
            match step_result {
                Err(e) => {
                    proof {
                        let w: nat = used as nat;
                        assert(step(prev) == Step::Fail(e));
                        assert(w <= max_steps && step(run_n(old(self).abs(), w)) == Step::Fail(e));
                    }
                    return Err(e);
                },
                Ok(()) => {},
            }
            let n_prog = self.instructions.len();
            proof {
                assert(self.instruction_pointer < n_prog);
            }
            self.instruction_pointer = self.instruction_pointer + 1;
            proof {
                let t = self.abs();
                match op {
                    Instruction::PointerInc => {
                        assert(step(prev) matches Step::Next(u) && u =~= t);
                    },
                    Instruction::PointerDec => {
                        assert(step(prev) matches Step::Next(u) && u =~= t);
                    },
                    Instruction::ByteInc => {
                        assert(step(prev) matches Step::Next(u) && u =~= t);
                    },
                    Instruction::ByteDec => {
                        assert(step(prev) matches Step::Next(u) && u =~= t);
                    },
                    Instruction::Output => {
                        assert(step(prev) matches Step::Next(u) && u =~= t);
                    },
                    Instruction::OpenLoop => {
                        if prev.tape[prev.dp] != 0 {
                            assert(t.stack =~= prev.stack.push(prev.ip));
                        }
                        assert(step(prev) matches Step::Next(u) && u =~= t);
                    },
                    Instruction::CloseLoop => {
                        if prev.tape[prev.dp] != 0 {
                            assert(prev.stack.len() > 0);
                            assert(prev.stack.last() == self.loop_stack@.last() as int);
                        }
                        assert(step(prev) matches Step::Next(u) && u =~= t);
                    },
                    Instruction::Input => {
                        assert(false);
                    },
                }
                assert(step(prev) == Step::Next(t));
                lemma_run_n_snoc(s0, used as nat);
            }
            used = used + 1;
        }
        if self.instruction_pointer >= self.instructions.len() {
            let out = self.collect_output();
            proof {
                assert(halted(run_n(s0, used as nat)));
            }
            Ok(RunOutcome::Finished(out))
        } else {
            Ok(RunOutcome::Running)
        }
    }

    /// One run: reset every per-run part of the state, decode the source,
    /// check its loop operations balance, and execute up to `max_steps`
    /// operations.
    ///
    /// A character outside the symbol table, and unequal loop-start and
    /// loop-end counts, are load errors — exactly then does the run fail
    /// before anything executes. A loaded program's outcome is pinned to
    /// the small-step semantics run from [`initial_state`]: the output of a
    /// finished run, a pause at an input operation, the exhausted budget, or
    /// the first runtime failure.
    pub fn run(&mut self, instructions: &str, max_steps: u64) -> (r: Result<RunOutcome, BFError>)
        ensures
            final(self).symbols() == old(self).symbols(),
            final(self).capacity() == old(self).capacity(),
            final(self).wf(),
            final(self).awaiting() <==> r == Ok::<RunOutcome, BFError>(RunOutcome::NeedsInput),
            !all_recognized(instructions@, old(self).symbols()) ==> r == Err::<RunOutcome, BFError>(
                BFError::InvalidInstruction(
                    instructions@[first_unrecognized(instructions@, old(self).symbols())],
                ),
            ) && final(self).abs().out == Seq::<char>::empty(),
            all_recognized(instructions@, old(self).symbols()) && !balanced(
                decode(instructions@, old(self).symbols()),
            ) ==> r == Err::<RunOutcome, BFError>(BFError::UnbalancedBrackets) && final(self).abs()
                == initial_state(
                decode(instructions@, old(self).symbols()),
                old(self).capacity(),
            ),
            r == Err::<RunOutcome, BFError>(BFError::UnbalancedBrackets) ==> all_recognized(
                instructions@,
                old(self).symbols(),
            ) && !balanced(decode(instructions@, old(self).symbols())),
            match r {
                Err(BFError::InvalidInstruction(c)) => !all_recognized(
                    instructions@,
                    old(self).symbols(),
                ) && c == instructions@[first_unrecognized(instructions@, old(self).symbols())],
                _ => true,
            },
            loads(instructions@, old(self).symbols()) ==> ({
                let init = initial_state(
                    decode(instructions@, old(self).symbols()),
                    old(self).capacity(),
                );
                match r {
                    Ok(RunOutcome::Finished(out)) => exists|n: nat|
                        n <= max_steps && halted(#[trigger] run_n(init, n)) && final(self).abs()
                            == run_n(init, n) && out@ == run_n(init, n).out,
                    Ok(RunOutcome::NeedsInput) => exists|n: nat|
                        n <= max_steps && blocked(#[trigger] run_n(init, n)) && final(self).abs()
                            == run_n(init, n),
                    Ok(RunOutcome::Running) => final(self).abs() == run_n(init, max_steps as nat)
                        && !halted(final(self).abs()),
                    Err(e) => exists|n: nat|
                        n <= max_steps && step(#[trigger] run_n(init, n)) == Step::Fail(e),
                }
            }),
            instructions@.len() == 0 ==> (r matches Ok(RunOutcome::Finished(out)) && out@
                == Seq::<char>::empty() && final(self).abs() == initial_state(
                Seq::<Instruction>::empty(),
                old(self).capacity(),
            )),
    {
        match self.init(instructions) {
            Err(e) => {
                return Err(e);
            },
            Ok(()) => {},
        }
        let opening = self.count_instructions(Instruction::OpenLoop);
        let closing = self.count_instructions(Instruction::CloseLoop);
        if opening != closing {
            return Err(BFError::UnbalancedBrackets);
        }
        let r = self.advance(max_steps);
        proof {
            let m = old(self).symbols();
            let cap = old(self).capacity();
            let prog = decode(instructions@, m);
            let init = initial_state(prog, cap);
            match &r {
                Result::Err(e) => {
                    if loads(instructions@, m) {
                        assert(exists|n: nat|
                            n <= max_steps && step(#[trigger] run_n(init, n)) == Step::Fail(*e));
                        let n = choose|n: nat|
                            n <= max_steps && step(#[trigger] run_n(init, n)) == Step::Fail(*e);
                        assert(step(run_n(init, n)) == Step::Fail(*e));
                        lemma_step_fail_kinds(run_n(init, n));
                        assert(!(*e is InvalidInstruction));
                        assert(*e != BFError::UnbalancedBrackets);
                    }
                },
                _ => {},
            }
            if instructions@.len() == 0 {
                assert(prog =~= Seq::<Instruction>::empty());
                match &r {
                    Result::Ok(RunOutcome::Finished(out)) => {
                        let n = choose|n: nat|
                            n <= max_steps && halted(#[trigger] run_n(init, n)) && self.abs()
                                == run_n(init, n) && out@ == run_n(init, n).out;
                        lemma_empty_program_stays_reset(cap, n);
                    },
                    Result::Ok(RunOutcome::NeedsInput) => {
                        let n = choose|n: nat|
                            n <= max_steps && blocked(#[trigger] run_n(init, n)) && self.abs()
                                == run_n(init, n);
                        lemma_empty_program_stays_reset(cap, n);
                        assert(false);
                    },
                    Result::Ok(RunOutcome::Running) => {
                        lemma_empty_program_stays_reset(cap, max_steps as nat);
                        assert(false);
                    },
                    Result::Err(e) => {
                        let n = choose|n: nat|
                            n <= max_steps && step(#[trigger] run_n(init, n)) == Step::Fail(*e);
                        lemma_empty_program_stays_reset(cap, n);
                        assert(false);
                    },
                }
            }
        }
        r
    }

    /// Hand one externally supplied character to an engine paused at an
    /// input operation: a direct, bounds-checked write of its code point
    /// into the current cell, after which execution goes on under the same
    /// step budget as [`BFInterpreter::advance`].
    pub fn resume_with_input(&mut self, input: u8, max_steps: u64) -> (r: Result<
        RunOutcome,
        BFError,
    >)
        requires
            old(self).wf(),
            old(self).awaiting(),
        ensures
            final(self).symbols() == old(self).symbols(),
            final(self).capacity() == old(self).capacity(),
            final(self).wf(),
            final(self).awaiting() <==> r == Ok::<RunOutcome, BFError>(RunOutcome::NeedsInput),
            match feed(old(self).abs(), input) {
                Step::Fail(e0) => r == Err::<RunOutcome, BFError>(e0),
                Step::Next(s1) => match r {
                    Ok(RunOutcome::Finished(out)) => exists|n: nat|
                        n <= max_steps && halted(#[trigger] run_n(s1, n)) && final(self).abs()
                            == run_n(s1, n) && out@ == run_n(s1, n).out,
                    Ok(RunOutcome::NeedsInput) => exists|n: nat|
                        n <= max_steps && blocked(#[trigger] run_n(s1, n)) && final(self).abs()
                            == run_n(s1, n),
                    Ok(RunOutcome::Running) => final(self).abs() == run_n(s1, max_steps as nat)
                        && !halted(final(self).abs()),
                    Err(e) => exists|n: nat|
                        n <= max_steps && step(#[trigger] run_n(s1, n)) == Step::Fail(e),
                },
                _ => false,
            },
    {
        self.awaiting_input = false;
        if self.data_pointer >= self.data.len() {
            return Err(BFError::TapeIndexOutOfBounds);
        }
        self.data.set(self.data_pointer, input);
        let n_prog = self.instructions.len();
        proof {
            assert(blocked(old(self).abs()));
            assert(self.instruction_pointer < n_prog);
        }
        self.instruction_pointer = self.instruction_pointer + 1;
        proof {
            match feed(old(self).abs(), input) {
                Step::Next(s1) => {
                    assert(self.abs() =~= s1);
                },
                _ => {
                    assert(false);
                },
            }
        }
        self.advance(max_steps)
    }

    /// The accumulated output as one string, in emission order.
    fn collect_output(&self) -> (s: String)
        ensures
            s@ == self.output@,
    {
        let mut s = String::new();
        let mut i: usize = 0;
        while i < self.output.len()
            invariant
                i <= self.output@.len(),
                s@ =~= self.output@.take(i as int),
            decreases self.output@.len() - i,
        {
            s.push(self.output[i]);
            proof {
                assert(self.output@.take(i as int + 1) =~= self.output@.take(i as int).push(
                    self.output@[i as int],
                ));
            }
            i = i + 1;
        }
        proof {
            assert(self.output@.take(self.output@.len() as int) =~= self.output@);
        }
        s
    }
}

} // verus!

