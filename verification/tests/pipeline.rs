//! The whole pipeline: the statistics program is composed, lowered,
//! linked, and run over a synthetic capture, and its printed summary is
//! checked.

use packet_storm::client::statistics_program;
use packet_storm::interp::Interpreter;
use packet_storm::ir::build_items;
use packet_storm::program::Program;

fn capture_bytes() -> Vec<u8> {
    let mut d = Vec::new();
    d.extend_from_slice(&0xA1B2C3D4u32.to_le_bytes());
    d.extend_from_slice(&2u16.to_le_bytes());
    d.extend_from_slice(&4u16.to_le_bytes());
    d.extend_from_slice(&[0; 8]);
    d.extend_from_slice(&0xFFFFu32.to_le_bytes());
    d.extend_from_slice(&1u32.to_le_bytes());
    for (protocol, dest, payload_len) in [
        (0x06u8, [10u8, 0, 0, 1], 100u16),
        (0x11, [10, 0, 0, 2], 200),
        (0x06, [10, 0, 0, 1], 50),
    ] {
        let total_length = 20 + payload_len;
        let captured = 14u32 + total_length as u32;
        d.extend_from_slice(&[0; 8]);
        d.extend_from_slice(&captured.to_le_bytes());
        d.extend_from_slice(&captured.to_le_bytes());
        d.extend_from_slice(&[0x02; 6]);
        d.extend_from_slice(&[0x04; 6]);
        d.extend_from_slice(&0x0800u16.to_be_bytes());
        d.push(0x45);
        d.push(0);
        d.extend_from_slice(&total_length.to_be_bytes());
        d.extend_from_slice(&[0; 4]);
        d.push(64);
        d.push(protocol);
        d.extend_from_slice(&[0; 2]);
        d.extend_from_slice(&[192, 168, 0, 0]);
        d.extend_from_slice(&dest);
        d.extend_from_slice(&vec![0xAB; payload_len as usize]);
    }
    d
}

#[test]
fn statistics_program_links_and_summarizes_a_capture() {
    let items = statistics_program().expect("the program text should parse");
    let program = Program::build(build_items(&items)).expect("the program should link");
    let mut interp = Interpreter::new(program, capture_bytes());
    let finished = interp.run(u64::MAX).expect("the run should succeed");
    assert!(finished);

    let raw = String::from_utf8_lossy(interp.output()).into_owned();
    let text = raw.replace('\u{0}', "");
    assert!(
        text.contains("Total transport-level data: 350 bytes"),
        "summary was: {text:?}"
    );
    assert!(text.contains("1 UDP, 2 TCP"), "summary was: {text:?}");
    assert!(text.contains("116 bytes/packet"), "summary was: {text:?}");
    assert!(text.contains("Most popular destination"), "summary was: {text:?}");
    assert!(text.contains("10.0.0.1"), "summary was: {text:?}");
    assert!(text.contains("packet"), "summary was: {text:?}");
}
