use bf_interpreter::{
    BFError, BFInterpreter, BFInterpreterConfig, Instruction, InstructionSet, RunOutcome,
};

fn default_engine() -> BFInterpreter {
    BFInterpreter::new(None)
}

fn sized_engine(tape_size: usize) -> BFInterpreter {
    BFInterpreter::new(Some(BFInterpreterConfig {
        tape_size: Some(tape_size),
        custom_instructions: None,
    }))
}

fn custom_set() -> InstructionSet {
    let mut set = InstructionSet::empty();
    set.insert('D', Instruction::PointerInc);
    set.insert('A', Instruction::PointerDec);
    set.insert('W', Instruction::ByteInc);
    set.insert('S', Instruction::ByteDec);
    set.insert('O', Instruction::Output);
    set.insert('I', Instruction::Input);
    set.insert('(', Instruction::OpenLoop);
    set.insert(')', Instruction::CloseLoop);
    set
}

fn finished(s: &str) -> Result<RunOutcome, BFError> {
    Ok(RunOutcome::Finished(String::from(s)))
}

#[test]
fn empty_source_returns_empty_output() {
    let mut engine = default_engine();
    assert_eq!(engine.run("", 1_000_000), finished(""));
}

#[test]
fn empty_source_with_custom_configuration() {
    let mut engine = BFInterpreter::new(Some(BFInterpreterConfig {
        tape_size: Some(7),
        custom_instructions: Some(custom_set()),
    }));
    assert_eq!(engine.run("", 1_000_000), finished(""));
}

#[test]
fn unmapped_symbol_fails_with_invalid_instruction() {
    let mut engine = default_engine();
    assert_eq!(
        engine.run("++x+", 1_000_000),
        Err(BFError::InvalidInstruction('x'))
    );
}

#[test]
fn invalid_instruction_names_first_offending_symbol() {
    let mut engine = default_engine();
    assert_eq!(
        engine.run("+a+b", 1_000_000),
        Err(BFError::InvalidInstruction('a'))
    );
}

#[test]
fn default_symbols_unknown_to_custom_set() {
    let mut engine = BFInterpreter::new(Some(BFInterpreterConfig {
        tape_size: None,
        custom_instructions: Some(custom_set()),
    }));
    assert_eq!(
        engine.run("+", 1_000_000),
        Err(BFError::InvalidInstruction('+'))
    );
}

#[test]
fn unbalanced_brackets_fail_before_execution() {
    let mut engine = default_engine();
    assert_eq!(engine.run("+++[[-]", 1_000_000), Err(BFError::UnbalancedBrackets));
}

#[test]
fn lone_close_bracket_is_unbalanced() {
    let mut engine = default_engine();
    assert_eq!(engine.run("]", 1_000_000), Err(BFError::UnbalancedBrackets));
}

#[test]
fn decrement_from_zero_wraps_to_255() {
    let mut engine = default_engine();
    assert_eq!(engine.run("-.", 1_000_000), finished("\u{ff}"));
}

#[test]
fn increment_from_255_wraps_to_zero() {
    let mut engine = default_engine();
    let source = "+".repeat(256) + ".";
    assert_eq!(engine.run(&source, 1_000_000), finished("\u{0}"));
}

#[test]
fn loop_decrements_cell_to_zero_and_terminates() {
    let mut engine = default_engine();
    assert_eq!(engine.run("+++[-]", 1_000_000), finished(""));
}

#[test]
fn loop_leaves_cell_at_zero() {
    let mut engine = default_engine();
    assert_eq!(engine.run("+++[-].", 1_000_000), finished("\u{0}"));
}

#[test]
fn pointer_movement_and_independent_cells() {
    let mut engine = default_engine();
    assert_eq!(
        engine.run("+++>+++<[>.<-]", 1_000_000),
        finished("\u{3}\u{3}\u{3}")
    );
}

#[test]
fn custom_instruction_remapping_matches_default_equivalent() {
    let mut engine = BFInterpreter::new(Some(BFInterpreterConfig {
        tape_size: Some(100),
        custom_instructions: Some(custom_set()),
    }));
    assert_eq!(
        engine.run("WWWDWWWA(DOAS)", 1_000_000),
        finished("\u{3}\u{3}\u{3}")
    );
}

#[test]
fn pointer_below_zero_fails_with_underflow() {
    let mut engine = default_engine();
    assert_eq!(engine.run("<", 1_000_000), Err(BFError::PointerUnderflow));
}

#[test]
fn second_run_sees_no_residue_from_first() {
    let mut engine = default_engine();
    assert_eq!(
        engine.run("+++>+++<[>.<-]", 1_000_000),
        finished("\u{3}\u{3}\u{3}")
    );
    // The first run left 3 in the second cell; a reset tape reads 0 there.
    assert_eq!(engine.run(">.", 1_000_000), finished("\u{0}"));
    let mut fresh = default_engine();
    assert_eq!(fresh.run(">.", 1_000_000), finished("\u{0}"));
}

#[test]
fn run_after_failed_run_starts_fresh() {
    let mut engine = default_engine();
    assert_eq!(engine.run("<", 1_000_000), Err(BFError::PointerUnderflow));
    assert_eq!(engine.run("+.", 1_000_000), finished("\u{1}"));
}

#[test]
fn custom_set_persists_across_runs() {
    let mut engine = BFInterpreter::new(Some(BFInterpreterConfig {
        tape_size: Some(100),
        custom_instructions: Some(custom_set()),
    }));
    assert_eq!(
        engine.run("WWWDWWWA(DOAS)", 1_000_000),
        finished("\u{3}\u{3}\u{3}")
    );
    assert_eq!(
        engine.run("+", 1_000_000),
        Err(BFError::InvalidInstruction('+'))
    );
}

#[test]
fn later_binding_overwrites_earlier_one() {
    let mut set = InstructionSet::empty();
    set.insert('+', Instruction::ByteInc);
    set.insert('+', Instruction::Output);
    let mut engine = BFInterpreter::new(Some(BFInterpreterConfig {
        tape_size: None,
        custom_instructions: Some(set),
    }));
    assert_eq!(engine.run("+", 1_000_000), finished("\u{0}"));
}

#[test]
fn input_request_pauses_and_resumes() {
    let mut engine = default_engine();
    assert_eq!(engine.run(",.", 1_000_000), Ok(RunOutcome::NeedsInput));
    assert_eq!(engine.resume_with_input(65, 1_000_000), finished("A"));
}

#[test]
fn two_input_requests_in_one_run() {
    let mut engine = default_engine();
    assert_eq!(engine.run(",>,<.>.", 1_000_000), Ok(RunOutcome::NeedsInput));
    assert_eq!(
        engine.resume_with_input(72, 1_000_000),
        Ok(RunOutcome::NeedsInput)
    );
    assert_eq!(engine.resume_with_input(105, 1_000_000), finished("Hi"));
}

#[test]
fn exhausted_step_budget_reports_running() {
    let mut engine = default_engine();
    assert_eq!(engine.run("+[]", 10), Ok(RunOutcome::Running));
    assert_eq!(engine.advance(10), Ok(RunOutcome::Running));
}

#[test]
fn finished_run_survives_further_advancing() {
    let mut engine = default_engine();
    assert_eq!(engine.run("+.", 1_000_000), finished("\u{1}"));
    assert_eq!(engine.advance(10), finished("\u{1}"));
}

#[test]
fn close_bracket_with_empty_loop_stack_is_malformed() {
    let mut engine = default_engine();
    assert_eq!(
        engine.run("[+]", 1_000_000),
        Err(BFError::MalformedJumpTarget)
    );
}

#[test]
fn loop_end_search_past_program_end_fails() {
    let mut engine = default_engine();
    assert_eq!(
        engine.run("]]+[-[", 1_000_000),
        Err(BFError::TapeIndexOutOfBounds)
    );
}

#[test]
fn direct_read_beyond_tape_fails() {
    let mut engine = sized_engine(2);
    assert_eq!(
        engine.run(">>.", 1_000_000),
        Err(BFError::TapeIndexOutOfBounds)
    );
}

#[test]
fn increment_beyond_tape_extends_with_one() {
    let mut engine = sized_engine(2);
    assert_eq!(engine.run(">>+.", 1_000_000), finished("\u{1}"));
}

#[test]
fn decrement_beyond_tape_extends_with_255() {
    let mut engine = sized_engine(0);
    assert_eq!(engine.run("-.", 1_000_000), finished("\u{ff}"));
}

#[test]
fn zero_sized_tape_rejects_direct_read() {
    let mut engine = sized_engine(0);
    assert_eq!(engine.run(".", 1_000_000), Err(BFError::TapeIndexOutOfBounds));
}

#[test]
fn default_tape_holds_1024_cells() {
    let mut engine = default_engine();
    let inside = ">".repeat(1023) + ".";
    assert_eq!(engine.run(&inside, 1_000_000), finished("\u{0}"));
    let outside = ">".repeat(1024) + ".";
    assert_eq!(
        engine.run(&outside, 1_000_000),
        Err(BFError::TapeIndexOutOfBounds)
    );
}

#[test]
fn hello_world_program_runs() {
    let mut engine = default_engine();
    let source = "++++++++++[>+++++++>++++++++++>+++>+<<<<-]>++.>+.+++++++..+++.>++.\
                  <<+++++++++++++++.>.+++.------.--------.>+.>.";
    assert_eq!(engine.run(source, 1_000_000), finished("Hello World!\n"));
}
