//! The reusable builder fragments run on the machine: drains, zero
//! checks, offset moves, and the scan-right idiom.

use packet_storm::client::find_non_zero_cell_right;
use packet_storm::inst::Instruction;
use packet_storm::interp::Interpreter;
use packet_storm::ir::{build_items, drain, offset_from, offset_to_insns, zero_cell, Item};
use packet_storm::program::Program;

fn run_builder_items(items: Vec<Item>, input: &[u8]) -> Interpreter {
    let program = Program::build(build_items(&items)).expect("program should link");
    let mut interp = Interpreter::new(program, input.to_vec());
    let finished = interp.run(u64::MAX).expect("run should succeed");
    assert!(finished);
    interp
}

#[test]
fn drain_transfers_the_cell_to_each_offset() {
    let items = vec![
        Item::parse("+++++").expect("should parse"),
        drain(&[2, 3], true),
    ];
    let interp = run_builder_items(items, &[]);
    let tape = interp.tape();
    assert_eq!(tape.get(0), 0, "the source is emptied");
    assert_eq!(tape.get(2), 5, "the first target sits two cells right");
    assert_eq!(tape.get(5), 5, "the second offset chains on from the first");
    assert_eq!(tape.at(), 0, "each pass returns to the base cell");
}

#[test]
fn drain_can_subtract_instead_of_add() {
    let items = vec![
        Item::parse(">>+++++++<<+++").expect("should parse"),
        drain(&[2], false),
    ];
    let interp = run_builder_items(items, &[]);
    let tape = interp.tape();
    assert_eq!(tape.get(0), 0);
    assert_eq!(tape.get(2), 4, "three is drained out of seven");
}

#[test]
fn zero_cell_empties_any_value() {
    let items = vec![Item::parse("+++++++").expect("should parse"), zero_cell()];
    let interp = run_builder_items(items, &[]);
    assert_eq!(interp.tape().get(0), 0);
}

#[test]
fn offset_moves_shift_the_head_both_ways() {
    let items = vec![
        offset_to_insns(5),
        Item::Direct(Instruction::Inc),
        offset_to_insns(-3),
        Item::Direct(Instruction::Inc),
    ];
    let interp = run_builder_items(items, &[]);
    let tape = interp.tape();
    assert_eq!(tape.at(), 2);
    assert_eq!(tape.get(5), 1);
    assert_eq!(tape.get(2), 1);
}

#[test]
fn offset_from_is_the_signed_displacement() {
    assert_eq!(offset_from(3, 10), 7);
    assert_eq!(offset_from(10, 3), -7);
    assert_eq!(offset_from(4, 4), 0);
}

#[test]
fn scan_right_stops_on_the_first_nonzero_cell() {
    let items = vec![
        Item::parse(">>>>++<<<<").expect("should parse"),
        find_non_zero_cell_right(),
    ];
    let interp = run_builder_items(items, &[]);
    assert_eq!(interp.tape().at(), 4);
    assert_eq!(interp.tape().get(4), 2);
}
