//! The interpreter against small programs: parsing, linking, and the
//! per-action semantics.

use packet_storm::inst::Instruction;
use packet_storm::interp::{Interpreter, RunError};
use packet_storm::ir::Item;
use packet_storm::program::{LinkError, Program};

fn run_machine_text(text: &str, input: &[u8]) -> Interpreter {
    let item = Item::parse(text).expect("program text should parse");
    let program = Program::build(item.build()).expect("program should link");
    let mut interp = Interpreter::new(program, input.to_vec());
    let finished = interp.run(u64::MAX).expect("run should succeed");
    assert!(finished);
    interp
}

fn run_machine_items(items: Vec<Item>, input: &[u8]) -> Result<Interpreter, RunError> {
    let program =
        Program::build(packet_storm::ir::build_items(&items)).expect("program should link");
    let mut interp = Interpreter::new(program, input.to_vec());
    let finished = interp.run(u64::MAX)?;
    assert!(finished);
    Ok(interp)
}

#[test]
fn parse_round_trips_through_clean_text() {
    let text = "+[>[<-]<[->+<]>]>";
    let item = Item::parse(text).expect("alphabet text should parse");
    let program = Program::build(item.build()).expect("balanced text should link");
    assert_eq!(program.as_text_clean(), text);
}

#[test]
fn parse_rejects_the_first_unknown_byte() {
    let err = match Item::parse("+a+") {
        Ok(_) => panic!("unknown bytes must not parse"),
        Err(e) => e,
    };
    assert_eq!(err.at, 1);
    assert_eq!(err.byte, b'a');
}

#[test]
fn build_rejects_unclosed_open() {
    let item = Item::parse("+[[-]").expect("should parse");
    let err = Program::build(item.build()).unwrap_err();
    assert!(matches!(err, LinkError::UnclosedOpen { at: 1 }));
}

#[test]
fn build_rejects_unopened_close() {
    let item = Item::parse("+]").expect("should parse");
    let err = Program::build(item.build()).unwrap_err();
    assert!(matches!(err, LinkError::UnopenedClose { at: 1 }));
}

#[test]
fn echoes_one_input_byte() {
    let interp = run_machine_text(",.", &[0x41]);
    assert_eq!(interp.output().as_slice(), &[0x41]);
    assert_eq!(interp.tape().get(0), 0x41);
}

#[test]
fn echoes_input_until_a_zero_byte() {
    let interp = run_machine_text(",[.,]", b"HELLO\0");
    assert_eq!(interp.output().as_slice(), b"HELLO");
}

#[test]
fn multiplies_three_by_two() {
    let interp = run_machine_text("+++[>++<-]>.", &[]);
    assert_eq!(interp.output().as_slice(), &[6]);
}

#[test]
fn grows_the_tape_on_demand() {
    let interp = run_machine_text(">>>[-]", &[]);
    let tape = interp.tape();
    assert!(tape.len() >= 4);
    assert_eq!(tape.at(), 3);
    assert_eq!(tape.get(3), 0);
}

#[test]
fn absolute_assertion_passes_on_the_right_cell() {
    let items = vec![
        Item::Direct(Instruction::Right),
        Item::assert_position(1, "one"),
    ];
    run_machine_items(items, &[]).expect("matching assertion should pass");
}

#[test]
fn absolute_assertion_reports_expected_and_actual() {
    let items = vec![
        Item::Direct(Instruction::Right),
        Item::assert_position(0, "one"),
    ];
    let err = run_machine_items(items, &[]).unwrap_err();
    let message = err.message();
    assert!(message.contains("expected: 0"));
    assert!(message.contains("actual  : 1"));
    assert!(message.contains("one"));
}

#[test]
fn assertion_diagnostic_renders_the_tape() {
    let items = vec![
        Item::parse("+++++>++++++++++<").expect("should parse"),
        Item::assert_position(9, "tape render check"),
    ];
    let err = run_machine_items(items, &[]).unwrap_err();
    let message = err.message();
    assert!(message.contains("[ [  5]  10]"));
}

#[test]
fn run_reports_an_exhausted_step_budget() {
    let item = Item::parse("+++").expect("should parse");
    let program = Program::build(item.build()).expect("should link");
    let mut interp = Interpreter::new(program, Vec::new());
    assert_eq!(interp.run(2).expect("no error"), false);
    assert_eq!(interp.run(u64::MAX).expect("no error"), true);
    assert_eq!(interp.tape().get(0), 3);
}

#[test]
fn incrementing_256_times_wraps_to_zero() {
    let interp = run_machine_text(&"+".repeat(256), &[]);
    assert_eq!(interp.tape().get(0), 0);
}

#[test]
fn decrementing_a_fresh_cell_wraps_to_255() {
    let interp = run_machine_text("-", &[]);
    assert_eq!(interp.tape().get(0), 255);
}

#[test]
fn input_reads_zero_at_end_of_input() {
    let interp = run_machine_text(",,.", &[7]);
    assert_eq!(interp.output().as_slice(), &[0]);
}

#[test]
fn moving_left_of_cell_zero_is_fatal() {
    let item = Item::parse("<").expect("should parse");
    let program = Program::build(item.build()).expect("should link");
    let mut interp = Interpreter::new(program, Vec::new());
    let err = interp.run(u64::MAX).unwrap_err();
    assert!(matches!(err, RunError::PointerUnderflow));
}

#[test]
fn placing_a_marker_twice_is_fatal() {
    let items = vec![
        Item::add_marker("here", "site one"),
        Item::add_marker("here", "site two"),
    ];
    let err = run_machine_items(items, &[]).unwrap_err();
    assert!(matches!(err, RunError::DuplicateMarker { .. }));
    assert!(err.message().contains("already exists"));
}

#[test]
fn removing_a_missing_marker_is_fatal() {
    let items = vec![Item::remove_marker("absent")];
    let err = run_machine_items(items, &[]).unwrap_err();
    assert!(matches!(err, RunError::MissingMarker { .. }));
    assert!(err.message().contains("does not exist"));
}

#[test]
fn marker_offset_assertion_checks_the_head() {
    let items = vec![
        Item::add_marker("m", "marker test"),
        Item::Direct(Instruction::Right),
        Item::assert_marker_offset("m", 1, "one right of m"),
    ];
    run_machine_items(items, &[]).expect("matching offset should pass");

    let items = vec![
        Item::add_marker("m", "marker test"),
        Item::Direct(Instruction::Right),
        Item::assert_marker_offset("m", 2, "two right of m"),
    ];
    let err = run_machine_items(items, &[]).unwrap_err();
    let message = err.message();
    assert!(matches!(err, RunError::MarkerMismatch { .. }));
    assert!(message.contains("expected: 2"));
    assert!(message.contains("found   : 1"));
    assert!(message.contains("marker test"));
}

#[test]
fn comments_echo_at_or_above_the_print_level() {
    let items = vec![
        Item::Comment("kept".to_owned(), 200),
        Item::Comment("dropped".to_owned(), 100),
    ];
    let program =
        Program::build(packet_storm::ir::build_items(&items)).expect("should link");
    let mut interp = Interpreter::new(program, Vec::new());
    interp.set_print_level(150);
    assert_eq!(interp.run(u64::MAX).expect("no error"), true);
    assert_eq!(interp.diagnostics().as_slice(), &["|> kept".to_owned()]);
}

#[test]
fn comments_stay_silent_without_a_print_level() {
    let items = vec![Item::Comment("quiet".to_owned(), 255)];
    let interp = run_machine_items(items, &[]).expect("no error");
    assert!(interp.diagnostics().is_empty());
}

#[test]
fn pretty_text_indents_loops_and_clean_text_strips_annotations() {
    let items = vec![
        Item::Direct(Instruction::Inc),
        packet_storm::ir::Loop::new(vec![Item::Direct(Instruction::Dec)])
            .indent()
            .into_item(),
    ];
    let program =
        Program::build(packet_storm::ir::build_items(&items)).expect("should link");
    assert_eq!(program.as_text(), "+\n  [-]\n");
    assert_eq!(program.as_text_clean(), "+[-]");
}

#[test]
fn tape_renders_with_the_head_cell_bracketed() {
    let interp = run_machine_text("+++++>++++++++++<", &[]);
    assert_eq!(interp.tape().render(), "[ [  5]  10]");
}
