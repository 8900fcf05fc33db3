//! The numeric macro family run on the machine: carry and borrow
//! propagation, head neutrality, and the overflow guard.
//!
//! A base-10 counter driven by the decimal-add fragment stores each digit
//! `d` as the byte `d - 10` modulo 256, so that the tenth increment of a
//! digit lands on 0 and triggers the carry; the decimal-sub fragment works
//! on plain digits, borrowing when a digit is 0.

use packet_storm::interp::Interpreter;
use packet_storm::ir::{build_items, Item};
use packet_storm::num::{operate, ByteAdd, ByteSub, DecimalAdd, DecimalSub};
use packet_storm::program::Program;

fn run_numeric_items(items: Vec<Item>) -> Result<Interpreter, packet_storm::interp::RunError> {
    let program = Program::build(build_items(&items)).expect("program should link");
    let mut interp = Interpreter::new(program, Vec::new());
    let finished = interp.run(u64::MAX)?;
    assert!(finished);
    Ok(interp)
}

/// `----------` at each of `width` cells: every digit set to the stored
/// form of 0, head left on the last digit.
fn biased_zero_counter(width: usize) -> Item {
    let mut text = String::new();
    for k in 0..width {
        if k > 0 {
            text.push('>');
        }
        text.push_str(&"-".repeat(10));
    }
    Item::parse(&text).expect("counter setup should parse")
}

#[test]
fn decimal_add_counts_to_42_with_carries() {
    let items = vec![
        biased_zero_counter(8),
        operate::<DecimalAdd<8>>(2).repeat(42),
    ];
    let interp = run_numeric_items(items).expect("no failure");
    let tape = interp.tape();
    assert_eq!(tape.at(), 7, "the operation is head-neutral");
    for cell in 0..6 {
        assert_eq!(tape.get(cell), 246, "leading digits stay 0");
    }
    assert_eq!(tape.get(6), 250, "tens digit is 4");
    assert_eq!(tape.get(7), 248, "ones digit is 2");
}

#[test]
fn decimal_add_then_sub_restores_the_digits() {
    let items = vec![
        biased_zero_counter(4),
        operate::<DecimalAdd<4>>(2).repeat(7),
        operate::<DecimalSub<4>>(2).repeat(7),
    ];
    let interp = run_numeric_items(items).expect("no failure");
    let tape = interp.tape();
    assert_eq!(tape.at(), 3, "the pair of operations is head-neutral");
    for cell in 0..4 {
        assert_eq!(tape.get(cell), 246, "every digit is back at 0");
    }
}

#[test]
fn decimal_sub_borrows_on_plain_digits() {
    // a plain two-digit 10: cells [1, 0]
    let items = vec![
        Item::parse("+>").expect("should parse"),
        operate::<DecimalSub<2>>(2),
    ];
    let interp = run_numeric_items(items).expect("no failure");
    let tape = interp.tape();
    assert_eq!(tape.at(), 1);
    assert_eq!(tape.get(0), 0, "the borrow empties the tens digit");
    assert_eq!(tape.get(1), 9, "the ones digit wraps to 9");
}

#[test]
fn byte_add_carries_at_256() {
    let items = vec![
        Item::parse(">").expect("should parse"),
        operate::<ByteAdd<2>>(2).repeat(300),
    ];
    let interp = run_numeric_items(items).expect("no failure");
    let tape = interp.tape();
    assert_eq!(tape.at(), 1);
    assert_eq!(tape.get(0), 1);
    assert_eq!(tape.get(1), 44);
}

#[test]
fn byte_add_then_sub_restores_the_cells() {
    let items = vec![
        Item::parse(">").expect("should parse"),
        operate::<ByteAdd<2>>(2).repeat(5),
        operate::<ByteSub<2>>(2).repeat(2),
    ];
    let interp = run_numeric_items(items).expect("no failure");
    let tape = interp.tape();
    assert_eq!(tape.at(), 1);
    assert_eq!(tape.get(0), 0);
    assert_eq!(tape.get(1), 3);
}

#[test]
fn borrowing_past_the_most_significant_digit_is_fatal() {
    let items = vec![operate::<ByteSub<1>>(2)];
    let err = run_numeric_items(items).unwrap_err();
    assert!(err.message().contains("arithmetic overflow"));
}
