//! The packet-statistics program, composed from tape-machine fragments.
//!
//! These builders lay the counters out on the tape (packet count, UDP
//! count, transport-level byte total, and a list of destination addresses
//! with occurrence counts), read a pcap byte stream through `,`
//! instructions, and print the summary with `.` instructions.  The whole
//! program is an [`Item`] tree; position assertions and markers document
//! and check the tape layout at run time.

use vstd::prelude::*;
use vstd::string::{StringExecFns, StringSliceAdditionalSpecFns};

use crate::inst::Instruction;
use crate::ir::{
    Item, ItemV, Loop, LoopV, ParseError, drain, drain_item, item_view, items_view,
    lemma_drain_offsets_ok, lemma_items_view, lemma_items_view_push, offset_from, offset_move,
    offset_to_insns, parse_bytes, zero_cell, zero_cell_item, zero_cell_up, zero_cell_up_item,
};
use crate::num::{ByteSub, DecimalAdd, DecimalSub, operate, operate_item};
use crate::program::{alphabet_char, lemma_parse_round_trip_text};
use crate::text::{dec_digits, push_dec};

verus! {

// The tape layout: three decimal counters behind a scratch area, then the
// per-packet working space, then the list of destination addresses.
pub const SCRATCH_SPACE_START: usize = 0;

pub const SCRATCH_SPACE: usize = SCRATCH_SPACE_START + 3;

pub const NO_PACKETS_START: usize = SCRATCH_SPACE + 1;

pub const NO_PACKETS_WIDTH: usize = 7;

pub const NO_PACKETS: usize = NO_PACKETS_START + (NO_PACKETS_WIDTH - 1);

pub const NO_UDP_START: usize = NO_PACKETS + 2;

pub const NO_UDP_WIDTH: usize = 7;

pub const NO_UDP: usize = NO_UDP_START + (NO_UDP_WIDTH - 1);

pub const TRANSPORT_BYTES_START: usize = NO_UDP + 2;

pub const TRANSPORT_BYTES_WIDTH: usize = 9;

pub const TRANSPORT_BYTES: usize = TRANSPORT_BYTES_START + (TRANSPORT_BYTES_WIDTH - 1);

pub const PACKET_LOOP_START: usize = TRANSPORT_BYTES + 2;

pub const PACKET_IP_TOTAL_LENGTH_START: usize = PACKET_LOOP_START;

pub const PACKET_IP_TOTAL_LENGTH: usize = PACKET_IP_TOTAL_LENGTH_START + 1;

pub const PACKET_IP_TOTAL_LENGTH_SCRATCH: usize = PACKET_IP_TOTAL_LENGTH + 1;

pub const PACKET_IP_PROTOCOL: usize = PACKET_IP_TOTAL_LENGTH_SCRATCH + 3;

// The destination field sits well past the protocol cell: the gap leaves
// working space for the long division of the output phase.
pub const PACKET_IP_DEST_START: usize = PACKET_IP_PROTOCOL + 10;

pub const PACKET_IP_DEST: usize = PACKET_IP_DEST_START + 3;

pub const LIST_HEADSTOP: usize = PACKET_IP_DEST + 1;

pub const SECONDARY_IP_STORED_START: usize = LIST_HEADSTOP + 2;

pub const LIST_START: usize = LIST_HEADSTOP + ENTRY_WIDTH;

pub const GREATER_FLAG: usize = LIST_HEADSTOP - 1;

pub const GENERAL_COUNT: usize = GREATER_FLAG - 1;

pub const LIST_LOOP_FLAG: usize = GENERAL_COUNT - 1;

pub const FOUND_IP: usize = LIST_LOOP_FLAG - 4;

pub const TARGET_COUNT: usize = FOUND_IP - 1;

pub const TEXT_SPACE: usize = TARGET_COUNT - 8;

// One list entry: an existence flag, a mark flag, two scratch cells, an
// occurrence count, and the four address octets.
pub const ENTRY_EXIST_FLAG: usize = 0;

pub const ENTRY_MARKED_FLAG: usize = ENTRY_EXIST_FLAG + 1;

pub const ENTRY_SCRATCH: usize = ENTRY_MARKED_FLAG + 1;

pub const ENTRY_SCRATCH_WIDTH: usize = 2;

pub const ENTRY_COUNT: usize = ENTRY_SCRATCH + ENTRY_SCRATCH_WIDTH;

pub const ENTRY_DATA_START: usize = ENTRY_COUNT + 1;

pub const ENTRY_DATA_WIDTH: usize = 4;

pub const ENTRY_DATA_END: usize = ENTRY_DATA_START + ENTRY_DATA_WIDTH - 1;

pub const ENTRY_WIDTH: usize = ENTRY_DATA_END + 1;

fn offs1(a: isize) -> (r: Vec<isize>)
    ensures
        r@ == seq![a],
{
    let mut v: Vec<isize> = Vec::new();
    v.push(a);
    proof {
        assert(v@ =~= seq![a]);
    }
    v
}

fn offs2(a: isize, b: isize) -> (r: Vec<isize>)
    ensures
        r@ == seq![a, b],
{
    let mut v: Vec<isize> = Vec::new();
    v.push(a);
    v.push(b);
    proof {
        assert(v@ =~= seq![a, b]);
    }
    v
}

fn offs4(a: isize, b: isize, c: isize, d: isize) -> (r: Vec<isize>)
    ensures
        r@ == seq![a, b, c, d],
{
    let mut v: Vec<isize> = Vec::new();
    v.push(a);
    v.push(b);
    v.push(c);
    v.push(d);
    proof {
        assert(v@ =~= seq![a, b, c, d]);
    }
    v
}

fn drain_to(offsets: Vec<isize>, add: bool) -> (r: Item)
    requires
        offsets@.len() <= 8,
        forall|k: int| 0 <= k < offsets@.len() ==> -0x10000 <= #[trigger] offsets@[k] <= 0x10000,
    ensures
        r@ == drain_item(offsets@, add),
{
    proof {
        lemma_drain_offsets_ok(offsets@);
    }
    drain(offsets.as_slice(), add)
}

/// The fragment that drains a counter while reading input, exactly.
pub open spec fn discard_inputs_item(off: int) -> ItemV {
    ItemV::Loop(
        LoopV {
            body: seq![
                ItemV::Direct(Instruction::Dec),
                offset_move(off),
                ItemV::Direct(Instruction::Input),
                offset_move(-off),
            ],
            change_indent: false,
        },
    )
}

/// While the current cell is nonzero, decrement it and read one input byte
/// into the cell at the given offset; the emitted fragment is exactly
/// [`discard_inputs_item`].
pub fn discard_inputs_while(offset: isize) -> (r: Item)
    requires
        -(isize::MAX as int) <= offset as int <= isize::MAX as int,
    ensures
        r@ == discard_inputs_item(offset as int),
{
    let back: isize = -offset;
    let body = vec![
        Item::Direct(Instruction::Dec),
        offset_to_insns(offset),
        Item::Direct(Instruction::Input),
        offset_to_insns(back),
    ];
    proof {
        lemma_items_view(body@);
        assert(items_view(body@) =~= seq![
            ItemV::Direct(Instruction::Dec),
            offset_move(offset as int),
            ItemV::Direct(Instruction::Input),
            offset_move(-(offset as int)),
        ]);
    }
    Loop::new(body).into_item()
}

/// The header-discard fragment, exactly: load a counter of 24, read that
/// many bytes, and assert that the head is back on cell 0.
pub open spec fn discard_header_item() -> ItemV {
    ItemV::Sequence(
        seq![
            ItemV::Comment("discard header"@, 200),
            ItemV::Sequence(
                seq![
                    ItemV::Repeat(Box::new(ItemV::Direct(Instruction::Inc)), 6),
                    ItemV::Loop(
                        LoopV {
                            body: seq![
                                ItemV::Direct(Instruction::Dec),
                                ItemV::Direct(Instruction::Right),
                                ItemV::Repeat(Box::new(ItemV::Direct(Instruction::Inc)), 4),
                                ItemV::Direct(Instruction::Left),
                            ],
                            change_indent: false,
                        },
                    ),
                    ItemV::Direct(Instruction::Right),
                    discard_inputs_item(-1),
                    ItemV::Direct(Instruction::Left),
                    ItemV::AssertPosition(0, "discard header does not move head"@),
                ],
            ),
            ItemV::EndComment,
        ],
    )
}

/// Read and discard the 24-byte pcap file header, leaving the head where
/// it started; the emitted fragment is exactly [`discard_header_item`].
pub fn discard_header() -> (r: Item)
    ensures
        r@ == discard_header_item(),
{
    let six_by_four = vec![
        Item::Direct(Instruction::Dec),
        Item::Direct(Instruction::Right),
        Item::Direct(Instruction::Inc).repeat(4),
        Item::Direct(Instruction::Left),
    ];
    proof {
        lemma_items_view(six_by_four@);
        assert(items_view(six_by_four@) =~= seq![
            ItemV::Direct(Instruction::Dec),
            ItemV::Direct(Instruction::Right),
            ItemV::Repeat(Box::new(ItemV::Direct(Instruction::Inc)), 4),
            ItemV::Direct(Instruction::Left),
        ]);
    }
    let v = vec![
        Item::Direct(Instruction::Inc).repeat(6),
        Loop::new(six_by_four).into_item(),
        Item::Direct(Instruction::Right),
        discard_inputs_while(-1),
        Item::Direct(Instruction::Left),
        Item::assert_position(0, "discard header does not move head"),
    ];
    proof {
        lemma_items_view(v@);
        assert(items_view(v@) =~= discard_header_item()->Sequence_0[1]->Sequence_0);
    }
    Item::Sequence(v).comment("discard header", 200)
}

/// The two-byte read fragment, exactly.
pub open spec fn read_u16_item() -> ItemV {
    ItemV::Sequence(
        seq![
            ItemV::Direct(Instruction::Input),
            ItemV::Direct(Instruction::Right),
            ItemV::Direct(Instruction::Input),
        ],
    )
}

/// Read two input bytes into the current and next cell.
pub fn read_u16() -> (r: Item)
    ensures
        r@ == read_u16_item(),
{
    let v = vec![
        Item::Direct(Instruction::Input),
        Item::Direct(Instruction::Right),
        Item::Direct(Instruction::Input),
    ];
    proof {
        lemma_items_view(v@);
        assert(items_view(v@) =~= read_u16_item()->Sequence_0);
    }
    Item::Sequence(v)
}

/// The four-byte read fragment, exactly: first byte in the lowest cell.
pub open spec fn read_u32_item() -> ItemV {
    ItemV::Sequence(
        seq![
            ItemV::Direct(Instruction::Input),
            ItemV::Direct(Instruction::Right),
            ItemV::Direct(Instruction::Input),
            ItemV::Direct(Instruction::Right),
            ItemV::Direct(Instruction::Input),
            ItemV::Direct(Instruction::Right),
            ItemV::Direct(Instruction::Input),
        ],
    )
}

/// Read four input bytes into four consecutive cells, first byte lowest.
pub fn read_u32() -> (r: Item)
    ensures
        r@ == read_u32_item(),
{
    let v = vec![
        Item::Direct(Instruction::Input),
        Item::Direct(Instruction::Right),
        Item::Direct(Instruction::Input),
        Item::Direct(Instruction::Right),
        Item::Direct(Instruction::Input),
        Item::Direct(Instruction::Right),
        Item::Direct(Instruction::Input),
    ];
    proof {
        lemma_items_view(v@);
        assert(items_view(v@) =~= read_u32_item()->Sequence_0);
    }
    Item::Sequence(v)
}

/// The little-endian four-byte read fragment, exactly: most significant
/// byte in the lowest cell.
pub open spec fn read_u32_le_item() -> ItemV {
    ItemV::Sequence(
        seq![
            ItemV::Repeat(Box::new(ItemV::Direct(Instruction::Right)), 3),
            ItemV::Direct(Instruction::Input),
            ItemV::Direct(Instruction::Left),
            ItemV::Direct(Instruction::Input),
            ItemV::Direct(Instruction::Left),
            ItemV::Direct(Instruction::Input),
            ItemV::Direct(Instruction::Left),
            ItemV::Direct(Instruction::Input),
        ],
    )
}

/// Read a little-endian 32-bit value into four consecutive cells, most
/// significant byte lowest.
pub fn read_u32_le() -> (r: Item)
    ensures
        r@ == read_u32_le_item(),
{
    let v = vec![
        Item::Direct(Instruction::Right).repeat(3),
        Item::Direct(Instruction::Input),
        Item::Direct(Instruction::Left),
        Item::Direct(Instruction::Input),
        Item::Direct(Instruction::Left),
        Item::Direct(Instruction::Input),
        Item::Direct(Instruction::Left),
        Item::Direct(Instruction::Input),
    ];
    proof {
        lemma_items_view(v@);
        assert(items_view(v@) =~= read_u32_le_item()->Sequence_0);
    }
    Item::Sequence(v)
}

/// The scan-right idiom's fragment, exactly: a flag is pushed rightward
/// until it lands on the first nonzero cell.
pub open spec fn scan_right_item() -> ItemV {
    ItemV::Sequence(
        seq![
            ItemV::Direct(Instruction::Inc),
            ItemV::Loop(
                LoopV {
                    body: seq![
                        ItemV::Direct(Instruction::Right),
                        ItemV::Loop(
                            LoopV {
                                body: seq![
                                    ItemV::Direct(Instruction::Left),
                                    ItemV::Direct(Instruction::Dec),
                                ],
                                change_indent: false,
                            },
                        ),
                        ItemV::Direct(Instruction::Left),
                        ItemV::Loop(
                            LoopV {
                                body: seq![
                                    ItemV::Direct(Instruction::Dec),
                                    ItemV::Direct(Instruction::Right),
                                    ItemV::Direct(Instruction::Inc),
                                    ItemV::Direct(Instruction::Left),
                                ],
                                change_indent: false,
                            },
                        ),
                        ItemV::Direct(Instruction::Right),
                    ],
                    change_indent: false,
                },
            ),
            ItemV::Direct(Instruction::Right),
        ],
    )
}

/// The scan-right idiom: move right until the head stops on the first
/// nonzero cell.
pub fn find_non_zero_cell_right() -> (r: Item)
    ensures
        r@ == scan_right_item(),
{
    let clear_left = vec![Item::Direct(Instruction::Left), Item::Direct(Instruction::Dec)];
    proof {
        lemma_items_view(clear_left@);
        assert(items_view(clear_left@) =~= seq![
            ItemV::Direct(Instruction::Left),
            ItemV::Direct(Instruction::Dec),
        ]);
    }
    let push_flag = vec![
        Item::Direct(Instruction::Dec),
        Item::Direct(Instruction::Right),
        Item::Direct(Instruction::Inc),
        Item::Direct(Instruction::Left),
    ];
    proof {
        lemma_items_view(push_flag@);
        assert(items_view(push_flag@) =~= seq![
            ItemV::Direct(Instruction::Dec),
            ItemV::Direct(Instruction::Right),
            ItemV::Direct(Instruction::Inc),
            ItemV::Direct(Instruction::Left),
        ]);
    }
    let walk = vec![
        Item::Direct(Instruction::Right),
        Loop::new(clear_left).into_item(),
        Item::Direct(Instruction::Left),
        Loop::new(push_flag).into_item(),
        Item::Direct(Instruction::Right),
    ];
    proof {
        lemma_items_view(walk@);
        assert(items_view(walk@) =~= seq![
            ItemV::Direct(Instruction::Right),
            ItemV::Loop(
                LoopV {
                    body: seq![
                        ItemV::Direct(Instruction::Left),
                        ItemV::Direct(Instruction::Dec),
                    ],
                    change_indent: false,
                },
            ),
            ItemV::Direct(Instruction::Left),
            ItemV::Loop(
                LoopV {
                    body: seq![
                        ItemV::Direct(Instruction::Dec),
                        ItemV::Direct(Instruction::Right),
                        ItemV::Direct(Instruction::Inc),
                        ItemV::Direct(Instruction::Left),
                    ],
                    change_indent: false,
                },
            ),
            ItemV::Direct(Instruction::Right),
        ]);
    }
    let v = vec![
        Item::Direct(Instruction::Inc),
        Loop::new(walk).into_item(),
        Item::Direct(Instruction::Right),
    ];
    proof {
        lemma_items_view(v@);
        assert(items_view(v@) =~= scan_right_item()->Sequence_0);
    }
    Item::Sequence(v)
}

/// The fragment of a zero check, exactly: a loop that clears the current
/// cell and bumps the cell at `off`, then a closing decrement of that
/// cell.  Run with the target cell pre-set, the target ends decremented
/// exactly when the checked cell was zero.
pub open spec fn zero_check_item(off: int) -> ItemV {
    ItemV::Sequence(
        seq![
            ItemV::Loop(
                LoopV {
                    body: seq![
                        zero_cell_item(),
                        offset_move(off),
                        ItemV::Direct(Instruction::Inc),
                        offset_move(-off),
                    ],
                    change_indent: false,
                },
            ),
            offset_move(off),
            ItemV::Direct(Instruction::Dec),
            offset_move(-off),
        ],
    )
}

/// Test the current cell for zero against the flag cell at `head + offset`,
/// zeroing the current cell either way; the emitted fragment is exactly
/// [`zero_check_item`].
pub fn zero_check(offset: isize) -> (r: Item)
    requires
        -(isize::MAX as int) <= offset as int <= isize::MAX as int,
    ensures
        r@ == zero_check_item(offset as int),
{
    let back: isize = -offset;
    let body = vec![
        zero_cell(),
        offset_to_insns(offset),
        Item::Direct(Instruction::Inc),
        offset_to_insns(back),
    ];
    proof {
        lemma_items_view(body@);
        assert(items_view(body@) =~= seq![
            zero_cell_item(),
            offset_move(offset as int),
            ItemV::Direct(Instruction::Inc),
            offset_move(-(offset as int)),
        ]);
    }
    let v = vec![
        Loop::new(body).into_item(),
        offset_to_insns(offset),
        Item::Direct(Instruction::Dec),
        offset_to_insns(back),
    ];
    proof {
        lemma_items_view(v@);
        assert(items_view(v@) =~= zero_check_item(offset as int)->Sequence_0);
    }
    Item::Sequence(v)
}

/// The fragment that opens each packet-loop pass, exactly: the record
/// timestamps are discarded, a counter of 4 is loaded, the captured length
/// is read, and each of its four bytes is zero-checked against the counter
/// so that the loop exits at end of input.
pub open spec fn packet_loop_before_check_item() -> ItemV {
    ItemV::Sequence(
        seq![
            ItemV::AssertPosition(PACKET_LOOP_START as nat, "packet loop start"@),
            ItemV::Repeat(Box::new(ItemV::Direct(Instruction::Input)), 12),
            zero_cell_item(),
            ItemV::Repeat(Box::new(ItemV::Direct(Instruction::Inc)), 4),
            ItemV::Direct(Instruction::Right),
            read_u32_le_item(),
            zero_check_item(-1),
            ItemV::Direct(Instruction::Right),
            zero_check_item(-2),
            ItemV::Direct(Instruction::Right),
            zero_check_item(-3),
            ItemV::Direct(Instruction::Right),
            zero_check_item(-4),
            ItemV::Repeat(Box::new(ItemV::Direct(Instruction::Left)), 4),
        ],
    )
}

/// The head of the packet loop: discard the record timestamps, read the
/// captured and original lengths, and check all four length bytes for the
/// end of input; the emitted fragment is exactly
/// [`packet_loop_before_check_item`].
pub fn packet_loop_before_check() -> (r: Item)
    ensures
        r@ == packet_loop_before_check_item(),
{
    let v = vec![
        Item::assert_position(PACKET_LOOP_START, "packet loop start"),
        Item::Direct(Instruction::Input).repeat(12),
        zero_cell(),
        Item::Direct(Instruction::Inc).repeat(4),
        Item::Direct(Instruction::Right),
        read_u32_le(),
        zero_check(-1),
        Item::Direct(Instruction::Right),
        zero_check(-2),
        Item::Direct(Instruction::Right),
        zero_check(-3),
        Item::Direct(Instruction::Right),
        zero_check(-4),
        Item::Direct(Instruction::Left).repeat(4),
    ];
    proof {
        lemma_items_view(v@);
        assert(items_view(v@) =~= packet_loop_before_check_item()->Sequence_0);
    }
    Item::Sequence(v)
}

/// The protocol-tally fragment, exactly: read the protocol byte, subtract
/// 17, and branch: nonzero means TCP and the cells are cleared, zero means
/// UDP and the UDP counter is incremented.
pub open spec fn handle_protocol_item() -> ItemV {
    ItemV::Sequence(
        seq![
            ItemV::Comment("handle protocol"@, 100),
            ItemV::Sequence(
                seq![
                    ItemV::AssertPosition(PACKET_IP_PROTOCOL as nat, "protocol start"@),
                    ItemV::Direct(Instruction::Input),
                    ItemV::Repeat(Box::new(ItemV::Direct(Instruction::Dec)), 0x11),
                    ItemV::Direct(Instruction::Right),
                    zero_cell_item(),
                    ItemV::Direct(Instruction::Inc),
                    ItemV::Direct(Instruction::Left),
                    ItemV::Loop(
                        LoopV {
                            body: seq![
                                ItemV::Comment("if TCP"@, 160),
                                ItemV::Direct(Instruction::Right),
                                ItemV::Direct(Instruction::Dec),
                                ItemV::Direct(Instruction::Left),
                                zero_cell_up_item(),
                            ],
                            change_indent: true,
                        },
                    ),
                    ItemV::Direct(Instruction::Right),
                    ItemV::Loop(
                        LoopV {
                            body: seq![
                                ItemV::Comment("else (if UDP)"@, 160),
                                ItemV::Direct(Instruction::Dec),
                                ItemV::AddMarker("else start"@, "handle_protocol"@),
                                offset_move(NO_UDP as int - (PACKET_IP_PROTOCOL as int + 1)),
                                operate_item::<DecimalAdd<NO_UDP_WIDTH>>(
                                    SCRATCH_SPACE_START as int - NO_UDP as int,
                                ),
                                offset_move(PACKET_IP_PROTOCOL as int + 1 - NO_UDP as int),
                                ItemV::AssertRelativePosition("else start"@, 0, "branch end"@),
                                ItemV::RemoveMarker("else start"@),
                            ],
                            change_indent: true,
                        },
                    ),
                    ItemV::Direct(Instruction::Left),
                ],
            ),
            ItemV::EndComment,
        ],
    )
}

fn handle_protocol() -> (r: Item)
    ensures
        r@ == handle_protocol_item(),
{
    let tcp_branch = vec![
        Item::Comment("if TCP".to_owned(), 160),
        Item::Direct(Instruction::Right),
        Item::Direct(Instruction::Dec),
        Item::Direct(Instruction::Left),
        zero_cell_up(),
    ];
    proof {
        lemma_items_view(tcp_branch@);
        assert(items_view(tcp_branch@) =~= seq![
            ItemV::Comment("if TCP"@, 160),
            ItemV::Direct(Instruction::Right),
            ItemV::Direct(Instruction::Dec),
            ItemV::Direct(Instruction::Left),
            zero_cell_up_item(),
        ]);
    }
    let udp_branch = vec![
        Item::Comment("else (if UDP)".to_owned(), 160),
        Item::Direct(Instruction::Dec),
        Item::add_marker("else start", "handle_protocol"),
        offset_to_insns(offset_from(PACKET_IP_PROTOCOL + 1, NO_UDP)),
        operate::<DecimalAdd<NO_UDP_WIDTH>>(offset_from(NO_UDP, SCRATCH_SPACE_START)),
        offset_to_insns(offset_from(NO_UDP, PACKET_IP_PROTOCOL + 1)),
        Item::assert_marker_offset("else start", 0, "branch end"),
        Item::remove_marker("else start"),
    ];
    proof {
        lemma_items_view(udp_branch@);
        assert(items_view(udp_branch@) =~= seq![
            ItemV::Comment("else (if UDP)"@, 160),
            ItemV::Direct(Instruction::Dec),
            ItemV::AddMarker("else start"@, "handle_protocol"@),
            offset_move(NO_UDP as int - (PACKET_IP_PROTOCOL as int + 1)),
            operate_item::<DecimalAdd<NO_UDP_WIDTH>>(
                SCRATCH_SPACE_START as int - NO_UDP as int,
            ),
            offset_move(PACKET_IP_PROTOCOL as int + 1 - NO_UDP as int),
            ItemV::AssertRelativePosition("else start"@, 0, "branch end"@),
            ItemV::RemoveMarker("else start"@),
        ]);
    }
    let v = vec![
        Item::assert_position(PACKET_IP_PROTOCOL, "protocol start"),
        Item::Direct(Instruction::Input),
        Item::Direct(Instruction::Dec).repeat(0x11),
        Item::Direct(Instruction::Right),
        zero_cell(),
        Item::Direct(Instruction::Inc),
        Item::Direct(Instruction::Left),
        Loop::new(tcp_branch).indent().into_item(),
        Item::Direct(Instruction::Right),
        Loop::new(udp_branch).indent().into_item(),
        Item::Direct(Instruction::Left),
    ];
    proof {
        lemma_items_view(v@);
        assert(items_view(v@) =~= handle_protocol_item()->Sequence_0[1]->Sequence_0);
    }
    Item::Sequence(v).comment("handle protocol", 100)
}

/// The fragment that folds the two total-length bytes into one flag cell,
/// exactly: the flag is nonzero while any length remains.
pub open spec fn collapse_condition_item() -> ItemV {
    ItemV::Sequence(
        seq![
            ItemV::AssertPosition(
                PACKET_IP_TOTAL_LENGTH_START as nat,
                "collapse total length call"@,
            ),
            ItemV::Repeat(Box::new(ItemV::Direct(Instruction::Right)), 2),
            zero_cell_item(),
            ItemV::Direct(Instruction::Right),
            zero_cell_item(),
            ItemV::Repeat(Box::new(ItemV::Direct(Instruction::Left)), 3),
            ItemV::Loop(
                LoopV {
                    body: seq![
                        drain_item(seq![2isize], true),
                        ItemV::Repeat(Box::new(ItemV::Direct(Instruction::Right)), 3),
                        ItemV::Direct(Instruction::Inc),
                        ItemV::Repeat(Box::new(ItemV::Direct(Instruction::Left)), 3),
                    ],
                    change_indent: false,
                },
            ),
            ItemV::Repeat(Box::new(ItemV::Direct(Instruction::Right)), 2),
            drain_item(seq![-2isize], true),
            ItemV::Repeat(Box::new(ItemV::Direct(Instruction::Left)), 1),
            ItemV::Loop(
                LoopV {
                    body: seq![
                        drain_item(seq![1isize], true),
                        ItemV::Repeat(Box::new(ItemV::Direct(Instruction::Right)), 2),
                        ItemV::Direct(Instruction::Inc),
                        ItemV::Repeat(Box::new(ItemV::Direct(Instruction::Left)), 2),
                    ],
                    change_indent: false,
                },
            ),
            ItemV::Direct(Instruction::Right),
            drain_item(seq![-1isize], true),
            ItemV::Direct(Instruction::Right),
            ItemV::AssertPosition(
                (PACKET_IP_TOTAL_LENGTH_SCRATCH + 1) as nat,
                "flag of length left non-zero"@,
            ),
        ],
    )
}

fn collapse_condition() -> (r: Item)
    ensures
        r@ == collapse_condition_item(),
{
    let fold_high = vec![
        drain_to(offs1(2), true),
        Item::Direct(Instruction::Right).repeat(3),
        Item::Direct(Instruction::Inc),
        Item::Direct(Instruction::Left).repeat(3),
    ];
    proof {
        lemma_items_view(fold_high@);
        assert(items_view(fold_high@) =~= seq![
            drain_item(seq![2isize], true),
            ItemV::Repeat(Box::new(ItemV::Direct(Instruction::Right)), 3),
            ItemV::Direct(Instruction::Inc),
            ItemV::Repeat(Box::new(ItemV::Direct(Instruction::Left)), 3),
        ]);
    }
    let fold_low = vec![
        drain_to(offs1(1), true),
        Item::Direct(Instruction::Right).repeat(2),
        Item::Direct(Instruction::Inc),
        Item::Direct(Instruction::Left).repeat(2),
    ];
    proof {
        lemma_items_view(fold_low@);
        assert(items_view(fold_low@) =~= seq![
            drain_item(seq![1isize], true),
            ItemV::Repeat(Box::new(ItemV::Direct(Instruction::Right)), 2),
            ItemV::Direct(Instruction::Inc),
            ItemV::Repeat(Box::new(ItemV::Direct(Instruction::Left)), 2),
        ]);
    }
    let v = vec![
        Item::assert_position(PACKET_IP_TOTAL_LENGTH_START, "collapse total length call"),
        Item::Direct(Instruction::Right).repeat(2),
        zero_cell(),
        Item::Direct(Instruction::Right),
        zero_cell(),
        Item::Direct(Instruction::Left).repeat(3),
        Loop::new(fold_high).into_item(),
        Item::Direct(Instruction::Right).repeat(2),
        drain_to(offs1(-2), true),
        Item::Direct(Instruction::Left).repeat(1),
        Loop::new(fold_low).into_item(),
        Item::Direct(Instruction::Right),
        drain_to(offs1(-1), true),
        Item::Direct(Instruction::Right),
        Item::assert_position(
            PACKET_IP_TOTAL_LENGTH_SCRATCH + 1,
            "flag of length left non-zero",
        ),
    ];
    proof {
        lemma_items_view(v@);
        assert(items_view(v@) =~= collapse_condition_item()->Sequence_0);
    }
    Item::Sequence(v)
}

/// The transport-length fragment, exactly: subtract the 20 header bytes
/// from the two-byte length, then consume and count one payload byte per
/// pass while the collapsed flag stays nonzero.
pub open spec fn handle_total_length_item() -> ItemV {
    ItemV::Sequence(
        seq![
            ItemV::AssertPosition(PACKET_IP_TOTAL_LENGTH_START as nat, "total length call"@),
            ItemV::Repeat(Box::new(ItemV::Direct(Instruction::Right)), 4),
            ItemV::Repeat(Box::new(ItemV::Direct(Instruction::Inc)), 20),
            ItemV::Loop(
                LoopV {
                    body: seq![
                        ItemV::Repeat(Box::new(ItemV::Direct(Instruction::Left)), 3),
                        operate_item::<ByteSub<2>>(1),
                        ItemV::Repeat(Box::new(ItemV::Direct(Instruction::Right)), 3),
                        ItemV::Direct(Instruction::Dec),
                    ],
                    change_indent: false,
                },
            ),
            ItemV::Repeat(Box::new(ItemV::Direct(Instruction::Left)), 4),
            collapse_condition_item(),
            ItemV::Loop(
                LoopV {
                    body: seq![
                        ItemV::Direct(Instruction::Input),
                        zero_cell_item(),
                        ItemV::Repeat(Box::new(ItemV::Direct(Instruction::Left)), 2),
                        ItemV::AssertPosition(
                            PACKET_IP_TOTAL_LENGTH as nat,
                            "packet IP length sub"@,
                        ),
                        operate_item::<ByteSub<2>>(1),
                        ItemV::AssertPosition(
                            PACKET_IP_TOTAL_LENGTH as nat,
                            "before transport bytes inc"@,
                        ),
                        offset_move(
                            TRANSPORT_BYTES as int - PACKET_IP_TOTAL_LENGTH as int,
                        ),
                        operate_item::<DecimalAdd<TRANSPORT_BYTES_WIDTH>>(
                            SCRATCH_SPACE_START as int - TRANSPORT_BYTES as int,
                        ),
                        offset_move(
                            PACKET_IP_TOTAL_LENGTH_START as int - TRANSPORT_BYTES as int,
                        ),
                        ItemV::AssertPosition(
                            PACKET_IP_TOTAL_LENGTH_START as nat,
                            "after transport bytes inc"@,
                        ),
                        collapse_condition_item(),
                    ],
                    change_indent: true,
                },
            ),
        ],
    )
}

fn handle_total_length() -> (r: Item)
    ensures
        r@ == handle_total_length_item(),
{
    let sub20 = vec![
        Item::Direct(Instruction::Left).repeat(3),
        operate::<ByteSub<2>>(1),
        Item::Direct(Instruction::Right).repeat(3),
        Item::Direct(Instruction::Dec),
    ];
    proof {
        lemma_items_view(sub20@);
        assert(items_view(sub20@) =~= seq![
            ItemV::Repeat(Box::new(ItemV::Direct(Instruction::Left)), 3),
            operate_item::<ByteSub<2>>(1),
            ItemV::Repeat(Box::new(ItemV::Direct(Instruction::Right)), 3),
            ItemV::Direct(Instruction::Dec),
        ]);
    }
    let per_byte = vec![
        Item::Direct(Instruction::Input),
        zero_cell(),
        Item::Direct(Instruction::Left).repeat(2),
        Item::assert_position(PACKET_IP_TOTAL_LENGTH, "packet IP length sub"),
        operate::<ByteSub<2>>(1),
        Item::assert_position(PACKET_IP_TOTAL_LENGTH, "before transport bytes inc"),
        offset_to_insns(offset_from(PACKET_IP_TOTAL_LENGTH, TRANSPORT_BYTES)),
        operate::<DecimalAdd<TRANSPORT_BYTES_WIDTH>>(
            offset_from(TRANSPORT_BYTES, SCRATCH_SPACE_START),
        ),
        offset_to_insns(offset_from(TRANSPORT_BYTES, PACKET_IP_TOTAL_LENGTH_START)),
        Item::assert_position(PACKET_IP_TOTAL_LENGTH_START, "after transport bytes inc"),
        collapse_condition(),
    ];
    proof {
        lemma_items_view(per_byte@);
        assert(items_view(per_byte@) =~= handle_total_length_item()->Sequence_0[6]->Loop_0.body);
    }
    let v = vec![
        Item::assert_position(PACKET_IP_TOTAL_LENGTH_START, "total length call"),
        Item::Direct(Instruction::Right).repeat(4),
        Item::Direct(Instruction::Inc).repeat(20),
        Loop::new(sub20).into_item(),
        Item::Direct(Instruction::Left).repeat(4),
        collapse_condition(),
        Loop::new(per_byte).indent().into_item(),
    ];
    proof {
        lemma_items_view(v@);
        assert(items_view(v@) =~= handle_total_length_item()->Sequence_0);
    }
    Item::Sequence(v)
}

/// The fragment handling one packet after the end-of-input check, exactly:
/// count the packet, read the two-byte total length, tally the protocol,
/// remember the destination address in the list, and add the transport
/// length to the byte total.
pub open spec fn packet_loop_after_check_item() -> ItemV {
    ItemV::Sequence(
        seq![
            ItemV::AssertPosition(PACKET_IP_TOTAL_LENGTH_START as nat, "inc packet count"@),
            offset_move(NO_PACKETS as int - PACKET_IP_TOTAL_LENGTH_START as int),
            operate_item::<DecimalAdd<NO_PACKETS_WIDTH>>(
                SCRATCH_SPACE_START as int - NO_PACKETS as int,
            ),
            offset_move(PACKET_IP_TOTAL_LENGTH_START as int - NO_PACKETS as int),
            ItemV::Repeat(Box::new(ItemV::Direct(Instruction::Input)), 16),
            ItemV::AssertPosition(
                PACKET_IP_TOTAL_LENGTH_START as nat,
                "packet ip total length start"@,
            ),
            read_u16_item(),
            ItemV::AssertPosition(PACKET_IP_TOTAL_LENGTH as nat, "packet ip total length"@),
            ItemV::Repeat(Box::new(ItemV::Direct(Instruction::Right)), 3),
            ItemV::Direct(Instruction::Right),
            ItemV::Repeat(Box::new(ItemV::Direct(Instruction::Input)), 5),
            handle_protocol_item(),
            ItemV::Repeat(Box::new(ItemV::Direct(Instruction::Input)), 2),
            ItemV::Repeat(Box::new(ItemV::Direct(Instruction::Input)), 4),
            ItemV::AssertPosition((PACKET_IP_DEST_START - 10) as nat, "before IP"@),
            offset_move(10),
            read_u32_item(),
            ItemV::AssertPosition(PACKET_IP_DEST as nat, "packet ip dest"@),
            offset_move(PACKET_IP_DEST_START as int - PACKET_IP_DEST as int),
            append_to_list_item(),
            ItemV::AssertPosition((LIST_HEADSTOP + 2) as nat, "after list add"@),
            offset_move(
                PACKET_IP_TOTAL_LENGTH_START as int - (LIST_HEADSTOP as int + 2),
            ),
            handle_total_length_item(),
            ItemV::AssertPosition(
                (PACKET_IP_TOTAL_LENGTH_SCRATCH + 1) as nat,
                "total length done"@,
            ),
            offset_move(
                PACKET_LOOP_START as int - (PACKET_IP_TOTAL_LENGTH_SCRATCH as int + 1),
            ),
            ItemV::Comment("end of packet"@, 190),
        ],
    )
}

/// The body of the packet loop, once the end-of-input check has passed:
/// count the packet, read the IPv4 header, tally the protocol, remember
/// the destination address, and add the transport length to the total;
/// the emitted fragment is exactly [`packet_loop_after_check_item`].
#[verifier::rlimit(60)]
pub fn packet_loop_after_check() -> (r: Item)
    ensures
        r@ == packet_loop_after_check_item(),
{
    let before_ip: usize = PACKET_IP_DEST_START - 10;
    let v = vec![
        Item::assert_position(PACKET_IP_TOTAL_LENGTH_START, "inc packet count"),
        offset_to_insns(offset_from(PACKET_IP_TOTAL_LENGTH_START, NO_PACKETS)),
        operate::<DecimalAdd<NO_PACKETS_WIDTH>>(
            offset_from(NO_PACKETS, SCRATCH_SPACE_START),
        ),
        offset_to_insns(offset_from(NO_PACKETS, PACKET_IP_TOTAL_LENGTH_START)),
        Item::Direct(Instruction::Input).repeat(16),
        Item::assert_position(PACKET_IP_TOTAL_LENGTH_START, "packet ip total length start"),
        read_u16(),
        Item::assert_position(PACKET_IP_TOTAL_LENGTH, "packet ip total length"),
        Item::Direct(Instruction::Right).repeat(3),
        Item::Direct(Instruction::Right),
        Item::Direct(Instruction::Input).repeat(5),
        handle_protocol(),
        Item::Direct(Instruction::Input).repeat(2),
        Item::Direct(Instruction::Input).repeat(4),
        Item::assert_position(before_ip, "before IP"),
        offset_to_insns(10),
        read_u32(),
        Item::assert_position(PACKET_IP_DEST, "packet ip dest"),
        offset_to_insns(offset_from(PACKET_IP_DEST, PACKET_IP_DEST_START)),
        append_to_list(),
        Item::assert_position(LIST_HEADSTOP + 2, "after list add"),
        offset_to_insns(
            offset_from(LIST_HEADSTOP + 2, PACKET_IP_TOTAL_LENGTH_START),
        ),
        handle_total_length(),
        Item::assert_position(PACKET_IP_TOTAL_LENGTH_SCRATCH + 1, "total length done"),
        offset_to_insns(
            offset_from(PACKET_IP_TOTAL_LENGTH_SCRATCH + 1, PACKET_LOOP_START),
        ),
        Item::Comment("end of packet".to_owned(), 190),
    ];
    proof {
        lemma_items_view(v@);
        assert(items_view(v@) =~= packet_loop_after_check_item()->Sequence_0);
    }
    Item::Sequence(v)
}

/// The whole packet loop, exactly: one end-of-input check, then one packet
/// body and the next check per pass.
pub open spec fn read_packet_loop_item() -> ItemV {
    let before = ItemV::Sequence(
        seq![
            ItemV::Comment("before check"@, 180),
            packet_loop_before_check_item(),
            ItemV::EndComment,
        ],
    );
    ItemV::Sequence(
        seq![
            before,
            ItemV::Loop(
                LoopV {
                    body: seq![
                        ItemV::Sequence(
                            seq![
                                ItemV::Comment("after check"@, 180),
                                packet_loop_after_check_item(),
                                ItemV::EndComment,
                            ],
                        ),
                        before,
                    ],
                    change_indent: true,
                },
            ),
        ],
    )
}

/// The packet loop: check for end of input, then handle one packet at a
/// time until the length field reads as zero; the emitted fragment is
/// exactly [`read_packet_loop_item`].
pub fn read_packet_loop() -> (r: Item)
    ensures
        r@ == read_packet_loop_item(),
{
    let passes = vec![
        packet_loop_after_check().comment("after check", 180),
        packet_loop_before_check().comment("before check", 180),
    ];
    proof {
        lemma_items_view(passes@);
        assert(items_view(passes@) =~= read_packet_loop_item()->Sequence_0[1]->Loop_0.body);
    }
    let v = vec![
        packet_loop_before_check().comment("before check", 180),
        Loop::new(passes).indent().into_item(),
    ];
    proof {
        lemma_items_view(v@);
        assert(items_view(v@) =~= read_packet_loop_item()->Sequence_0);
    }
    Item::Sequence(v)
}

/// The counter-layout fragment, exactly: every counter cell is taken to
/// the zero-digit encoding, the walk back and forth distributes the bias,
/// and the two gap cells between the counters are cleared.
pub open spec fn setup_state_item() -> ItemV {
    ItemV::Sequence(
        seq![
            ItemV::Comment("setup state"@, 250),
            ItemV::Sequence(
                seq![
                    ItemV::AssertPosition(0, "after header discard"@),
                    offset_move(NO_PACKETS_START as int),
                    ItemV::Repeat(
                        Box::new(
                            ItemV::Sequence(
                                seq![
                                    ItemV::Direct(Instruction::Dec),
                                    ItemV::Direct(Instruction::Dec),
                                    ItemV::Direct(Instruction::Right),
                                ],
                            ),
                        ),
                        (NO_PACKETS_WIDTH + NO_UDP_WIDTH + TRANSPORT_BYTES_WIDTH + 2) as nat,
                    ),
                    ItemV::Direct(Instruction::Right),
                    ItemV::Repeat(Box::new(ItemV::Direct(Instruction::Inc)), 4),
                    ItemV::Loop(
                        LoopV {
                            body: seq![
                                ItemV::Direct(Instruction::Left),
                                ItemV::Direct(Instruction::Left),
                                ItemV::Loop(
                                    LoopV {
                                        body: seq![
                                            ItemV::Direct(Instruction::Dec),
                                            ItemV::Direct(Instruction::Left),
                                        ],
                                        change_indent: false,
                                    },
                                ),
                                ItemV::AssertPosition((NO_PACKETS_START - 1) as nat, "left"@),
                                ItemV::Direct(Instruction::Right),
                                ItemV::Loop(
                                    LoopV {
                                        body: seq![
                                            ItemV::Direct(Instruction::Dec),
                                            ItemV::Direct(Instruction::Right),
                                        ],
                                        change_indent: false,
                                    },
                                ),
                                ItemV::Direct(Instruction::Right),
                                ItemV::Direct(Instruction::Dec),
                                ItemV::AssertPosition((TRANSPORT_BYTES + 2) as nat, "right"@),
                            ],
                            change_indent: true,
                        },
                    ),
                    ItemV::AssertPosition((TRANSPORT_BYTES + 2) as nat, "add gaps"@),
                    offset_move(NO_PACKETS as int + 1 - (TRANSPORT_BYTES as int + 2)),
                    zero_cell_up_item(),
                    offset_move(NO_UDP as int - NO_PACKETS as int),
                    zero_cell_up_item(),
                    ItemV::AssertPosition((NO_UDP + 1) as nat, "done"@),
                    offset_move(PACKET_LOOP_START as int - (NO_UDP as int + 1)),
                ],
            ),
            ItemV::EndComment,
        ],
    )
}

/// Lay out the three decimal counters: every digit cell starts at the
/// zero-digit encoding, with a gap cell between neighbouring counters; the
/// emitted fragment is exactly [`setup_state_item`].
pub fn setup_state() -> (r: Item)
    ensures
        r@ == setup_state_item(),
{
    proof {
        assert(NO_PACKETS + 2 == NO_UDP_START);
        assert(NO_UDP + 2 == TRANSPORT_BYTES_START);
    }
    let bias_step = vec![
        Item::Direct(Instruction::Dec),
        Item::Direct(Instruction::Dec),
        Item::Direct(Instruction::Right),
    ];
    proof {
        lemma_items_view(bias_step@);
        assert(items_view(bias_step@) =~= seq![
            ItemV::Direct(Instruction::Dec),
            ItemV::Direct(Instruction::Dec),
            ItemV::Direct(Instruction::Right),
        ]);
    }
    let walk_left = vec![Item::Direct(Instruction::Dec), Item::Direct(Instruction::Left)];
    proof {
        lemma_items_view(walk_left@);
        assert(items_view(walk_left@) =~= seq![
            ItemV::Direct(Instruction::Dec),
            ItemV::Direct(Instruction::Left),
        ]);
    }
    let walk_right = vec![Item::Direct(Instruction::Dec), Item::Direct(Instruction::Right)];
    proof {
        lemma_items_view(walk_right@);
        assert(items_view(walk_right@) =~= seq![
            ItemV::Direct(Instruction::Dec),
            ItemV::Direct(Instruction::Right),
        ]);
    }
    let sweep = vec![
        Item::Direct(Instruction::Left),
        Item::Direct(Instruction::Left),
        Loop::new(walk_left).into_item(),
        Item::assert_position(NO_PACKETS_START - 1, "left"),
        Item::Direct(Instruction::Right),
        Loop::new(walk_right).into_item(),
        Item::Direct(Instruction::Right),
        Item::Direct(Instruction::Dec),
        Item::assert_position(TRANSPORT_BYTES + 2, "right"),
    ];
    proof {
        lemma_items_view(sweep@);
        assert(items_view(sweep@) =~= seq![
            ItemV::Direct(Instruction::Left),
            ItemV::Direct(Instruction::Left),
            ItemV::Loop(
                LoopV {
                    body: seq![
                        ItemV::Direct(Instruction::Dec),
                        ItemV::Direct(Instruction::Left),
                    ],
                    change_indent: false,
                },
            ),
            ItemV::AssertPosition((NO_PACKETS_START - 1) as nat, "left"@),
            ItemV::Direct(Instruction::Right),
            ItemV::Loop(
                LoopV {
                    body: seq![
                        ItemV::Direct(Instruction::Dec),
                        ItemV::Direct(Instruction::Right),
                    ],
                    change_indent: false,
                },
            ),
            ItemV::Direct(Instruction::Right),
            ItemV::Direct(Instruction::Dec),
            ItemV::AssertPosition((TRANSPORT_BYTES + 2) as nat, "right"@),
        ]);
    }
    let v = vec![
        Item::assert_position(0, "after header discard"),
        offset_to_insns(offset_from(0, NO_PACKETS_START)),
        Item::Sequence(
            bias_step,
        ).repeat(NO_PACKETS_WIDTH + NO_UDP_WIDTH + TRANSPORT_BYTES_WIDTH + 2),
        Item::Direct(Instruction::Right),
        Item::Direct(Instruction::Inc).repeat(4),
        Loop::new(sweep).indent().into_item(),
        Item::assert_position(TRANSPORT_BYTES + 2, "add gaps"),
        offset_to_insns(offset_from(TRANSPORT_BYTES + 2, NO_PACKETS + 1)),
        zero_cell_up(),
        offset_to_insns(offset_from(NO_PACKETS + 1, NO_UDP + 1)),
        zero_cell_up(),
        Item::assert_position(NO_UDP + 1, "done"),
        offset_to_insns(offset_from(NO_UDP + 1, PACKET_LOOP_START)),
    ];
    proof {
        lemma_items_view(v@);
        assert(items_view(v@) =~= setup_state_item()->Sequence_0[1]->Sequence_0);
    }
    Item::Sequence(v).comment("setup state", 250)
}

/// The comment text of one distribute pass.
pub open spec fn distribute_text(offset: nat) -> Seq<char> {
    "[re]distribute "@ + dec_digits(offset)
}

/// The fragment that moves one destination octet between the staging
/// fields and subtracts (or re-adds) it across every list entry, exactly.
pub open spec fn distribute_item(offset: nat, restore: bool) -> ItemV {
    let start_base: int = if restore {
        SECONDARY_IP_STORED_START as int
    } else {
        PACKET_IP_DEST_START as int
    };
    let to_base: int = if restore {
        PACKET_IP_DEST_START as int
    } else {
        SECONDARY_IP_STORED_START as int
    };
    let insn = if restore {
        Instruction::Inc
    } else {
        Instruction::Dec
    };
    ItemV::Sequence(
        seq![
            ItemV::AssertPosition((start_base + offset) as nat, "[re]distribute start"@),
            ItemV::Sequence(
                seq![
                    ItemV::Comment(distribute_text(offset), 80),
                    ItemV::Loop(
                        LoopV {
                            body: seq![
                                ItemV::Direct(Instruction::Dec),
                                offset_move(to_base - start_base),
                                ItemV::Direct(Instruction::Inc),
                                offset_move(LIST_START as int - (to_base + offset)),
                                ItemV::Loop(
                                    LoopV {
                                        body: seq![
                                            offset_move(
                                                ENTRY_DATA_START as int + offset as int,
                                            ),
                                            ItemV::Direct(insn),
                                            offset_move(
                                                ENTRY_WIDTH as int - ENTRY_DATA_START as int
                                                    - offset as int,
                                            ),
                                        ],
                                        change_indent: false,
                                    },
                                ),
                                offset_move(-(ENTRY_WIDTH as int)),
                                ItemV::Loop(
                                    LoopV {
                                        body: seq![offset_move(-(ENTRY_WIDTH as int))],
                                        change_indent: false,
                                    },
                                ),
                                ItemV::AssertPosition(
                                    LIST_HEADSTOP as nat,
                                    "return to list head"@,
                                ),
                                offset_move(start_base + offset - LIST_HEADSTOP as int),
                            ],
                            change_indent: true,
                        },
                    ),
                    ItemV::EndComment,
                ],
            ),
        ],
    )
}

fn distribute(offset: usize, restore: bool) -> (r: Item)
    requires
        offset < ENTRY_DATA_WIDTH,
    ensures
        r@ == distribute_item(offset as nat, restore),
{
    let start_base: usize = if restore {
        SECONDARY_IP_STORED_START
    } else {
        PACKET_IP_DEST_START
    };
    let to_base: usize = if restore {
        PACKET_IP_DEST_START
    } else {
        SECONDARY_IP_STORED_START
    };
    let insn = if restore {
        Instruction::Inc
    } else {
        Instruction::Dec
    };
    let back_entry: isize = -(ENTRY_WIDTH as isize);
    let hop_rest: isize = (ENTRY_WIDTH - ENTRY_DATA_START - offset) as isize;
    let mut comment_text = "[re]distribute ".to_owned();
    push_dec(offset as u64, &mut comment_text);
    proof {
        assert(comment_text@ =~= distribute_text(offset as nat));
    }
    let per_entry = vec![
        offset_to_insns((ENTRY_DATA_START + offset) as isize),
        Item::Direct(insn),
        offset_to_insns(hop_rest),
    ];
    proof {
        lemma_items_view(per_entry@);
        assert(items_view(per_entry@) =~= seq![
            offset_move(ENTRY_DATA_START as int + offset as int),
            ItemV::Direct(insn),
            offset_move(ENTRY_WIDTH as int - ENTRY_DATA_START as int - offset as int),
        ]);
    }
    let walk_home = vec![offset_to_insns(back_entry)];
    proof {
        lemma_items_view(walk_home@);
        assert(items_view(walk_home@) =~= seq![offset_move(-(ENTRY_WIDTH as int))]);
    }
    let pass = vec![
        Item::Direct(Instruction::Dec),
        offset_to_insns(offset_from(start_base + offset, to_base + offset)),
        Item::Direct(Instruction::Inc),
        offset_to_insns(offset_from(to_base + offset, LIST_START)),
        Loop::new(per_entry).into_item(),
        offset_to_insns(back_entry),
        Loop::new(walk_home).into_item(),
        Item::assert_position(LIST_HEADSTOP, "return to list head"),
        offset_to_insns(offset_from(LIST_HEADSTOP, start_base + offset)),
    ];
    proof {
        lemma_items_view(pass@);
        assert(items_view(pass@) =~= distribute_item(offset as nat, restore)->Sequence_0[1]
            ->Sequence_0[1]->Loop_0.body);
    }
    let v = vec![
        Item::assert_position(start_base + offset, "[re]distribute start"),
        Loop::new(pass).indent().into_item().comment(comment_text.as_str(), 80),
    ];
    proof {
        lemma_items_view(v@);
        assert(items_view(v@) =~= distribute_item(offset as nat, restore)->Sequence_0);
    }
    Item::Sequence(v)
}

/// The fragment that tests one octet of the head entry against the staged
/// octet, exactly: the octet is moved aside while the entry's mark is
/// cleared and re-counted, then restored.
pub open spec fn accumulate_zero_item(offset: nat) -> ItemV {
    let oct = ENTRY_DATA_START as int + offset as int;
    ItemV::Sequence(
        seq![
            ItemV::AssertRelativePosition("current zero target"@, oct, "target octet"@),
            ItemV::Loop(
                LoopV {
                    body: seq![
                        ItemV::Direct(Instruction::Dec),
                        offset_move(ENTRY_SCRATCH as int + 1 - oct),
                        ItemV::Direct(Instruction::Inc),
                        offset_move(ENTRY_MARKED_FLAG as int - (ENTRY_SCRATCH as int + 1)),
                        zero_cell_item(),
                        ItemV::Direct(Instruction::Inc),
                        offset_move(oct - ENTRY_MARKED_FLAG as int),
                    ],
                    change_indent: true,
                },
            ),
            offset_move(ENTRY_MARKED_FLAG as int - oct),
            drain_item(seq![1isize], true),
            offset_move(ENTRY_SCRATCH as int + 1 - ENTRY_MARKED_FLAG as int),
            drain_item(seq![(oct - (ENTRY_SCRATCH as int + 1)) as isize], true),
            offset_move(oct - (ENTRY_SCRATCH as int + 1)),
            ItemV::AssertRelativePosition("current zero target"@, oct, "after target octet"@),
        ],
    )
}

fn accumulate_zero(offset: usize) -> (r: Item)
    requires
        offset < ENTRY_DATA_WIDTH,
    ensures
        r@ == accumulate_zero_item(offset as nat),
{
    let move_aside = vec![
        Item::Direct(Instruction::Dec),
        offset_to_insns(offset_from(ENTRY_DATA_START + offset, ENTRY_SCRATCH + 1)),
        Item::Direct(Instruction::Inc),
        offset_to_insns(offset_from(ENTRY_SCRATCH + 1, ENTRY_MARKED_FLAG)),
        zero_cell(),
        Item::Direct(Instruction::Inc),
        offset_to_insns(offset_from(ENTRY_MARKED_FLAG, ENTRY_DATA_START + offset)),
    ];
    proof {
        lemma_items_view(move_aside@);
        assert(items_view(move_aside@) =~= accumulate_zero_item(offset as nat)->Sequence_0[1]
            ->Loop_0.body);
    }
    let v = vec![
        Item::assert_marker_offset(
            "current zero target",
            (ENTRY_DATA_START + offset) as isize,
            "target octet",
        ),
        Loop::new(move_aside).indent().into_item(),
        offset_to_insns(offset_from(ENTRY_DATA_START + offset, ENTRY_MARKED_FLAG)),
        drain_to(offs1(1), true),
        offset_to_insns(offset_from(ENTRY_MARKED_FLAG, ENTRY_SCRATCH + 1)),
        drain_to(offs1(offset_from(ENTRY_SCRATCH + 1, ENTRY_DATA_START + offset)), true),
        offset_to_insns(offset_from(ENTRY_SCRATCH + 1, ENTRY_DATA_START + offset)),
        Item::assert_marker_offset(
            "current zero target",
            (ENTRY_DATA_START + offset) as isize,
            "after target octet",
        ),
    ];
    proof {
        lemma_items_view(v@);
        assert(items_view(v@) =~= accumulate_zero_item(offset as nat)->Sequence_0);
    }
    Item::Sequence(v)
}

/// The comment text of one copy-over pass.
pub open spec fn copy_over_text(offset: nat) -> Seq<char> {
    "copy over {offset="@ + dec_digits(offset) + "}"@
}

/// The fragment that copies one staged octet into the fresh list entry,
/// exactly.
pub open spec fn copy_over_item(offset: nat) -> ItemV {
    let oct = ENTRY_DATA_START as int + offset as int;
    let src = PACKET_IP_DEST_START as int + offset as int;
    ItemV::Sequence(
        seq![
            ItemV::Comment(copy_over_text(offset), 80),
            ItemV::Sequence(
                seq![
                    ItemV::AssertPosition(LIST_HEADSTOP as nat, "copy over"@),
                    offset_move(src - LIST_HEADSTOP as int),
                    ItemV::Loop(
                        LoopV {
                            body: seq![
                                ItemV::Direct(Instruction::Dec),
                                offset_move(LIST_START as int - src),
                                ItemV::Loop(
                                    LoopV {
                                        body: seq![offset_move(ENTRY_WIDTH as int)],
                                        change_indent: false,
                                    },
                                ),
                                ItemV::AssertRelativePosition(
                                    "new entry"@,
                                    ENTRY_WIDTH as int,
                                    "found entry"@,
                                ),
                                offset_move(oct - ENTRY_WIDTH as int),
                                ItemV::Direct(Instruction::Inc),
                                offset_move(ENTRY_EXIST_FLAG as int - oct),
                                ItemV::Loop(
                                    LoopV {
                                        body: seq![offset_move(-(ENTRY_WIDTH as int))],
                                        change_indent: false,
                                    },
                                ),
                                ItemV::AssertPosition(LIST_HEADSTOP as nat, "return"@),
                                offset_move(src - LIST_HEADSTOP as int),
                            ],
                            change_indent: false,
                        },
                    ),
                    offset_move(LIST_HEADSTOP as int - src),
                ],
            ),
            ItemV::EndComment,
        ],
    )
}

fn copy_over(offset: usize) -> (r: Item)
    requires
        offset < ENTRY_DATA_WIDTH,
    ensures
        r@ == copy_over_item(offset as nat),
{
    let back_entry: isize = -(ENTRY_WIDTH as isize);
    let mut comment_text = "copy over {offset=".to_owned();
    push_dec(offset as u64, &mut comment_text);
    comment_text.append("}");
    proof {
        assert(comment_text@ =~= copy_over_text(offset as nat));
    }
    let walk_out = vec![offset_to_insns(ENTRY_WIDTH as isize)];
    proof {
        lemma_items_view(walk_out@);
        assert(items_view(walk_out@) =~= seq![offset_move(ENTRY_WIDTH as int)]);
    }
    let walk_home = vec![offset_to_insns(back_entry)];
    proof {
        lemma_items_view(walk_home@);
        assert(items_view(walk_home@) =~= seq![offset_move(-(ENTRY_WIDTH as int))]);
    }
    let pass = vec![
        Item::Direct(Instruction::Dec),
        offset_to_insns(offset_from(PACKET_IP_DEST_START + offset, LIST_START)),
        Loop::new(walk_out).into_item(),
        Item::assert_marker_offset("new entry", ENTRY_WIDTH as isize, "found entry"),
        offset_to_insns(offset_from(ENTRY_WIDTH, ENTRY_DATA_START + offset)),
        Item::Direct(Instruction::Inc),
        offset_to_insns(offset_from(ENTRY_DATA_START + offset, ENTRY_EXIST_FLAG)),
        Loop::new(walk_home).into_item(),
        Item::assert_position(LIST_HEADSTOP, "return"),
        offset_to_insns(offset_from(LIST_HEADSTOP, PACKET_IP_DEST_START + offset)),
    ];
    proof {
        lemma_items_view(pass@);
        assert(items_view(pass@) =~= copy_over_item(offset as nat)->Sequence_0[1]->Sequence_0[2]
            ->Loop_0.body);
    }
    let v = vec![
        Item::assert_position(LIST_HEADSTOP, "copy over"),
        offset_to_insns(offset_from(LIST_HEADSTOP, PACKET_IP_DEST_START + offset)),
        Loop::new(pass).into_item(),
        offset_to_insns(offset_from(PACKET_IP_DEST_START + offset, LIST_HEADSTOP)),
    ];
    proof {
        lemma_items_view(v@);
        assert(items_view(v@) =~= copy_over_item(offset as nat)->Sequence_0[1]->Sequence_0);
    }
    Item::Sequence(v).comment(comment_text.as_str(), 80)
}

fn walk_entries(step: isize) -> (r: Item)
    requires
        -(isize::MAX as int) <= step as int <= isize::MAX as int,
    ensures
        r@ == ItemV::Loop(
            LoopV { body: seq![offset_move(step as int)], change_indent: false },
        ),
{
    let body = vec![offset_to_insns(step)];
    proof {
        lemma_items_view(body@);
        assert(items_view(body@) =~= seq![offset_move(step as int)]);
    }
    Loop::new(body).into_item()
}

/// The body of the loop that checks one list entry for an address match.
pub open spec fn append_match_body() -> Seq<ItemV> {
    seq![
        ItemV::AddMarker("current zero target"@, "append_to_list"@),
        offset_move(ENTRY_DATA_START as int),
        accumulate_zero_item(0),
        ItemV::Direct(Instruction::Right),
        accumulate_zero_item(1),
        ItemV::Direct(Instruction::Right),
        accumulate_zero_item(2),
        ItemV::Direct(Instruction::Right),
        accumulate_zero_item(3),
        ItemV::AssertRelativePosition("current zero target"@, ENTRY_WIDTH as int - 1, "end"@),
        offset_move(ENTRY_SCRATCH as int - (ENTRY_WIDTH as int - 1)),
        ItemV::RemoveMarker("current zero target"@),
        ItemV::Direct(Instruction::Right),
        ItemV::Direct(Instruction::Inc),
        ItemV::Direct(Instruction::Left),
        ItemV::Loop(
            LoopV {
                body: seq![
                    ItemV::Direct(Instruction::Dec),
                    ItemV::Direct(Instruction::Right),
                    zero_cell_item(),
                    ItemV::Direct(Instruction::Left),
                ],
                change_indent: false,
            },
        ),
        ItemV::Direct(Instruction::Right),
        ItemV::Sequence(
            seq![
                ItemV::Comment("if zero (IP match)"@, 120),
                ItemV::Loop(
                    LoopV {
                        body: seq![
                            zero_cell_item(),
                            offset_move(
                                ENTRY_MARKED_FLAG as int - (ENTRY_SCRATCH as int + 1),
                            ),
                            ItemV::Direct(Instruction::Inc),
                            offset_move(ENTRY_COUNT as int - ENTRY_MARKED_FLAG as int),
                            ItemV::Direct(Instruction::Inc),
                            offset_move(ENTRY_WIDTH as int - ENTRY_COUNT as int),
                            ItemV::Loop(
                                LoopV {
                                    body: seq![offset_move(ENTRY_WIDTH as int)],
                                    change_indent: false,
                                },
                            ),
                            offset_move(-(ENTRY_WIDTH as int)),
                            offset_move(ENTRY_SCRATCH as int + 1),
                        ],
                        change_indent: true,
                    },
                ),
                ItemV::EndComment,
            ],
        ),
        offset_move(ENTRY_WIDTH as int - (ENTRY_SCRATCH as int + 1)),
    ]
}

/// The append fragment, exactly: stage the four octets out with a
/// per-entry subtraction, mark the entry whose octets all matched, restore
/// the staging, and either bump the matched entry's count or copy the
/// octets into a fresh entry at the end of the list.
pub open spec fn append_to_list_item() -> ItemV {
    ItemV::Sequence(
        seq![
            ItemV::AssertPosition(PACKET_IP_DEST_START as nat, "start"@),
            distribute_item(0, false),
            ItemV::Direct(Instruction::Right),
            distribute_item(1, false),
            ItemV::Direct(Instruction::Right),
            distribute_item(2, false),
            ItemV::Direct(Instruction::Right),
            distribute_item(3, false),
            ItemV::AssertPosition((PACKET_IP_DEST_START + 3) as nat, "after distribute"@),
            offset_move(LIST_START as int - (PACKET_IP_DEST_START as int + 3)),
            ItemV::Sequence(
                seq![
                    ItemV::Comment("check each known IP for a match"@, 130),
                    ItemV::Loop(LoopV { body: append_match_body(), change_indent: true }),
                    ItemV::EndComment,
                ],
            ),
            offset_move(-(ENTRY_WIDTH as int)),
            ItemV::Loop(
                LoopV {
                    body: seq![
                        ItemV::Direct(Instruction::Right),
                        ItemV::Loop(
                            LoopV {
                                body: seq![
                                    zero_cell_item(),
                                    ItemV::Direct(Instruction::Left),
                                    ItemV::Loop(
                                        LoopV {
                                            body: seq![offset_move(-(ENTRY_WIDTH as int))],
                                            change_indent: false,
                                        },
                                    ),
                                    ItemV::Direct(Instruction::Right),
                                    ItemV::Direct(Instruction::Inc),
                                    ItemV::Direct(Instruction::Left),
                                    offset_move(
                                        LIST_START as int + ENTRY_MARKED_FLAG as int
                                            - LIST_HEADSTOP as int,
                                    ),
                                ],
                                change_indent: false,
                            },
                        ),
                        ItemV::Direct(Instruction::Left),
                        offset_move(-(ENTRY_WIDTH as int)),
                    ],
                    change_indent: true,
                },
            ),
            ItemV::AssertPosition(LIST_HEADSTOP as nat, "return to headstop"@),
            offset_move(SECONDARY_IP_STORED_START as int - LIST_HEADSTOP as int),
            distribute_item(0, true),
            ItemV::Direct(Instruction::Right),
            distribute_item(1, true),
            ItemV::Direct(Instruction::Right),
            distribute_item(2, true),
            ItemV::Direct(Instruction::Right),
            distribute_item(3, true),
            ItemV::AssertPosition(
                (SECONDARY_IP_STORED_START + 3) as nat,
                "after redistribute"@,
            ),
            offset_move(
                LIST_HEADSTOP as int + 2 - (SECONDARY_IP_STORED_START as int + 3),
            ),
            zero_cell_item(),
            ItemV::Direct(Instruction::Inc),
            ItemV::Direct(Instruction::Left),
            ItemV::Sequence(
                seq![
                    ItemV::Comment("if mark (found)"@, 120),
                    ItemV::Loop(
                        LoopV {
                            body: seq![
                                ItemV::Direct(Instruction::Dec),
                                ItemV::Direct(Instruction::Right),
                                ItemV::Direct(Instruction::Dec),
                                offset_move(
                                    PACKET_IP_DEST_START as int - (LIST_HEADSTOP as int + 2),
                                ),
                                ItemV::Repeat(
                                    Box::new(
                                        ItemV::Sequence(
                                            seq![
                                                zero_cell_item(),
                                                ItemV::Direct(Instruction::Right),
                                            ],
                                        ),
                                    ),
                                    4,
                                ),
                                ItemV::Direct(Instruction::Right),
                            ],
                            change_indent: true,
                        },
                    ),
                    ItemV::EndComment,
                ],
            ),
            ItemV::AssertPosition((LIST_HEADSTOP + 1) as nat, "mark found"@),
            ItemV::Direct(Instruction::Right),
            ItemV::Sequence(
                seq![
                    ItemV::Comment("else (new)"@, 120),
                    ItemV::Loop(
                        LoopV {
                            body: seq![
                                zero_cell_item(),
                                offset_move(
                                    LIST_START as int - (LIST_HEADSTOP as int + 2),
                                ),
                                ItemV::Loop(
                                    LoopV {
                                        body: seq![offset_move(ENTRY_WIDTH as int)],
                                        change_indent: false,
                                    },
                                ),
                                ItemV::AddMarker("new entry"@, "append_to_list"@),
                                ItemV::Direct(Instruction::Inc),
                                offset_move(ENTRY_COUNT as int - ENTRY_EXIST_FLAG as int),
                                ItemV::Direct(Instruction::Inc),
                                offset_move(ENTRY_EXIST_FLAG as int - ENTRY_COUNT as int),
                                ItemV::Loop(
                                    LoopV {
                                        body: seq![offset_move(-(ENTRY_WIDTH as int))],
                                        change_indent: false,
                                    },
                                ),
                                copy_over_item(0),
                                copy_over_item(1),
                                copy_over_item(2),
                                copy_over_item(3),
                                ItemV::RemoveMarker("new entry"@),
                                ItemV::AssertPosition(
                                    LIST_HEADSTOP as nat,
                                    "after copy_over"@,
                                ),
                                offset_move(2),
                            ],
                            change_indent: true,
                        },
                    ),
                    ItemV::EndComment,
                ],
            ),
            ItemV::AssertPosition((LIST_HEADSTOP + 2) as nat, "mark not found"@),
        ],
    )
}

/// Append the destination address at the head to the list, or increment
/// the count of the entry that already carries it; the emitted fragment is
/// exactly [`append_to_list_item`].
#[verifier::rlimit(60)]
pub fn append_to_list() -> (r: Item)
    ensures
        r@ == append_to_list_item(),
{
    let back_entry: isize = -(ENTRY_WIDTH as isize);
    let match_hit = vec![
        zero_cell(),
        offset_to_insns(offset_from(ENTRY_SCRATCH + 1, ENTRY_MARKED_FLAG)),
        Item::Direct(Instruction::Inc),
        offset_to_insns(offset_from(ENTRY_MARKED_FLAG, ENTRY_COUNT)),
        Item::Direct(Instruction::Inc),
        offset_to_insns(offset_from(ENTRY_COUNT, ENTRY_WIDTH)),
        walk_entries(ENTRY_WIDTH as isize),
        offset_to_insns(back_entry),
        offset_to_insns((ENTRY_SCRATCH + 1) as isize),
    ];
    proof {
        lemma_items_view(match_hit@);
        assert(items_view(match_hit@) =~= append_match_body()[17]->Sequence_0[1]->Loop_0.body);
    }
    let clear_carry = vec![
        Item::Direct(Instruction::Dec),
        Item::Direct(Instruction::Right),
        zero_cell(),
        Item::Direct(Instruction::Left),
    ];
    proof {
        lemma_items_view(clear_carry@);
        assert(items_view(clear_carry@) =~= append_match_body()[15]->Loop_0.body);
    }
    let match_body = vec![
        Item::add_marker("current zero target", "append_to_list"),
        offset_to_insns(ENTRY_DATA_START as isize),
        accumulate_zero(0),
        Item::Direct(Instruction::Right),
        accumulate_zero(1),
        Item::Direct(Instruction::Right),
        accumulate_zero(2),
        Item::Direct(Instruction::Right),
        accumulate_zero(3),
        Item::assert_marker_offset("current zero target", (ENTRY_WIDTH - 1) as isize, "end"),
        offset_to_insns(offset_from(ENTRY_WIDTH - 1, ENTRY_SCRATCH)),
        Item::remove_marker("current zero target"),
        Item::Direct(Instruction::Right),
        Item::Direct(Instruction::Inc),
        Item::Direct(Instruction::Left),
        Loop::new(clear_carry).into_item(),
        Item::Direct(Instruction::Right),
        Loop::new(match_hit).indent().into_item().comment("if zero (IP match)", 120),
        offset_to_insns(offset_from(ENTRY_SCRATCH + 1, ENTRY_WIDTH)),
    ];
    proof {
        lemma_items_view(match_body@);
        assert(items_view(match_body@) =~= append_match_body());
    }
    let unmark_inner = vec![
        zero_cell(),
        Item::Direct(Instruction::Left),
        walk_entries(back_entry),
        Item::Direct(Instruction::Right),
        Item::Direct(Instruction::Inc),
        Item::Direct(Instruction::Left),
        offset_to_insns(offset_from(LIST_HEADSTOP, LIST_START + ENTRY_MARKED_FLAG)),
    ];
    proof {
        lemma_items_view(unmark_inner@);
        assert(items_view(unmark_inner@) =~= append_to_list_item()->Sequence_0[12]
            ->Loop_0.body[1]->Loop_0.body);
    }
    let unmark = vec![
        Item::Direct(Instruction::Right),
        Loop::new(unmark_inner).into_item(),
        Item::Direct(Instruction::Left),
        offset_to_insns(back_entry),
    ];
    proof {
        lemma_items_view(unmark@);
        assert(items_view(unmark@) =~= append_to_list_item()->Sequence_0[12]->Loop_0.body);
    }
    let wipe_step = vec![zero_cell(), Item::Direct(Instruction::Right)];
    proof {
        lemma_items_view(wipe_step@);
        assert(items_view(wipe_step@) =~= seq![
            zero_cell_item(),
            ItemV::Direct(Instruction::Right),
        ]);
    }
    let found_body = vec![
        Item::Direct(Instruction::Dec),
        Item::Direct(Instruction::Right),
        Item::Direct(Instruction::Dec),
        offset_to_insns(offset_from(LIST_HEADSTOP + 2, PACKET_IP_DEST_START)),
        Item::Sequence(wipe_step).repeat(4),
        Item::Direct(Instruction::Right),
    ];
    proof {
        lemma_items_view(found_body@);
        assert(items_view(found_body@) =~= append_to_list_item()->Sequence_0[27]
            ->Sequence_0[1]->Loop_0.body);
    }
    let new_body = vec![
        zero_cell(),
        offset_to_insns(offset_from(LIST_HEADSTOP + 2, LIST_START)),
        walk_entries(ENTRY_WIDTH as isize),
        Item::add_marker("new entry", "append_to_list"),
        Item::Direct(Instruction::Inc),
        offset_to_insns(offset_from(ENTRY_EXIST_FLAG, ENTRY_COUNT)),
        Item::Direct(Instruction::Inc),
        offset_to_insns(offset_from(ENTRY_COUNT, ENTRY_EXIST_FLAG)),
        walk_entries(back_entry),
        copy_over(0),
        copy_over(1),
        copy_over(2),
        copy_over(3),
        Item::remove_marker("new entry"),
        Item::assert_position(LIST_HEADSTOP, "after copy_over"),
        offset_to_insns(2),
    ];
    proof {
        lemma_items_view(new_body@);
        assert(items_view(new_body@) =~= append_to_list_item()->Sequence_0[30]
            ->Sequence_0[1]->Loop_0.body);
    }
    let v = vec![
        Item::assert_position(PACKET_IP_DEST_START, "start"),
        distribute(0, false),
        Item::Direct(Instruction::Right),
        distribute(1, false),
        Item::Direct(Instruction::Right),
        distribute(2, false),
        Item::Direct(Instruction::Right),
        distribute(3, false),
        Item::assert_position(PACKET_IP_DEST_START + 3, "after distribute"),
        offset_to_insns(offset_from(PACKET_IP_DEST_START + 3, LIST_START)),
        Loop::new(match_body).indent().into_item().comment(
            "check each known IP for a match",
            130,
        ),
        offset_to_insns(back_entry),
        Loop::new(unmark).indent().into_item(),
        Item::assert_position(LIST_HEADSTOP, "return to headstop"),
        offset_to_insns(offset_from(LIST_HEADSTOP, SECONDARY_IP_STORED_START)),
        distribute(0, true),
        Item::Direct(Instruction::Right),
        distribute(1, true),
        Item::Direct(Instruction::Right),
        distribute(2, true),
        Item::Direct(Instruction::Right),
        distribute(3, true),
        Item::assert_position(SECONDARY_IP_STORED_START + 3, "after redistribute"),
        offset_to_insns(offset_from(SECONDARY_IP_STORED_START + 3, LIST_HEADSTOP + 2)),
        zero_cell(),
        Item::Direct(Instruction::Inc),
        Item::Direct(Instruction::Left),
        Loop::new(found_body).indent().into_item().comment("if mark (found)", 120),
        Item::assert_position(LIST_HEADSTOP + 1, "mark found"),
        Item::Direct(Instruction::Right),
        Loop::new(new_body).indent().into_item().comment("else (new)", 120),
        Item::assert_position(LIST_HEADSTOP + 2, "mark not found"),
    ];
    proof {
        lemma_items_view(v@);
        assert(items_view(v@) =~= append_to_list_item()->Sequence_0);
    }
    Item::Sequence(v)
}

/// The comment text of a decimal display fragment.
pub open spec fn display_decimal_text(width: nat) -> Seq<char> {
    "display decimal {width="@ + dec_digits(width) + "}"@
}

/// The fragment of a decimal display, exactly: copy the digits out with an
/// offset of 48 into the staging area `width + 1 + gap` cells further
/// right, filter leading zeros, scan to the first significant digit, emit
/// the staged characters, and rebuild the original digits.
pub open spec fn display_decimal_item(width: nat, gap: nat) -> ItemV {
    let mark = "display start"@;
    let span = 2 * width + gap;
    let out_hop = width + 1 + gap;
    let leading_zero_pass = ItemV::Sequence(
        seq![
            ItemV::Loop(
                LoopV {
                    body: seq![
                        ItemV::Direct(Instruction::Dec),
                        offset_move(width as int),
                        zero_cell_item(),
                        ItemV::Direct(Instruction::Inc),
                        offset_move(out_hop as int),
                        ItemV::Direct(Instruction::Inc),
                        offset_move(-(span as int) - 1),
                    ],
                    change_indent: false,
                },
            ),
            ItemV::Direct(Instruction::Left),
        ],
    );
    let cleanup = ItemV::Sequence(
        seq![
            ItemV::Repeat(
                Box::new(
                    ItemV::Sequence(seq![ItemV::Direct(Instruction::Left), zero_cell_item()]),
                ),
                (width + 1) as nat,
            ),
            scan_right_item(),
            ItemV::AssertRelativePosition(mark, span as int + 1, "begin restore"@),
            ItemV::Repeat(Box::new(ItemV::Direct(Instruction::Left)), 2),
            ItemV::Repeat(Box::new(ItemV::Direct(Instruction::Inc)), 8),
            ItemV::Loop(
                LoopV {
                    body: seq![
                        ItemV::Direct(Instruction::Dec),
                        ItemV::Direct(Instruction::Right),
                        ItemV::Repeat(Box::new(ItemV::Direct(Instruction::Inc)), 6),
                        ItemV::Direct(Instruction::Left),
                    ],
                    change_indent: false,
                },
            ),
            ItemV::Direct(Instruction::Right),
            ItemV::Loop(
                LoopV {
                    body: seq![
                        ItemV::Direct(Instruction::Dec),
                        ItemV::Repeat(
                            Box::new(
                                ItemV::Sequence(
                                    seq![
                                        ItemV::Direct(Instruction::Right),
                                        ItemV::Direct(Instruction::Dec),
                                    ],
                                ),
                            ),
                            width,
                        ),
                        ItemV::Repeat(Box::new(ItemV::Direct(Instruction::Left)), width),
                    ],
                    change_indent: false,
                },
            ),
            ItemV::Repeat(Box::new(ItemV::Direct(Instruction::Left)), span),
        ],
    );
    let body = ItemV::Sequence(
        seq![
            ItemV::AddMarker(mark, "display_decimal"@),
            offset_move(span as int),
            ItemV::Direct(Instruction::Right),
            ItemV::Repeat(Box::new(ItemV::Direct(Instruction::Inc)), 8),
            ItemV::Loop(
                LoopV {
                    body: seq![
                        ItemV::Direct(Instruction::Dec),
                        ItemV::Direct(Instruction::Left),
                        ItemV::Repeat(Box::new(ItemV::Direct(Instruction::Inc)), 6),
                        ItemV::Direct(Instruction::Right),
                    ],
                    change_indent: false,
                },
            ),
            ItemV::Direct(Instruction::Left),
            ItemV::Loop(
                LoopV {
                    body: seq![
                        ItemV::Direct(Instruction::Dec),
                        ItemV::Repeat(
                            Box::new(
                                ItemV::Sequence(
                                    seq![
                                        ItemV::Direct(Instruction::Right),
                                        ItemV::Direct(Instruction::Inc),
                                    ],
                                ),
                            ),
                            width,
                        ),
                        ItemV::Repeat(Box::new(ItemV::Direct(Instruction::Left)), width),
                    ],
                    change_indent: false,
                },
            ),
            ItemV::AssertRelativePosition(mark, span as int, "init output end"@),
            offset_move(-(gap as int)),
            ItemV::Direct(Instruction::Dec),
            offset_move(-(width as int) - 1),
            ItemV::Sequence(
                seq![
                    ItemV::Comment("leading zeros filter"@, 120),
                    ItemV::Repeat(Box::new(leading_zero_pass), width),
                    ItemV::EndComment,
                ],
            ),
            ItemV::AssertRelativePosition(mark, -1, "after leading zeros"@),
            scan_right_item(),
            ItemV::Direct(Instruction::Left),
            ItemV::Direct(Instruction::Inc),
            ItemV::Loop(
                LoopV {
                    body: seq![
                        ItemV::Direct(Instruction::Right),
                        offset_move(out_hop as int),
                        ItemV::Direct(Instruction::Output),
                        offset_move(-(out_hop as int)),
                        ItemV::Direct(Instruction::Inc),
                    ],
                    change_indent: false,
                },
            ),
            ItemV::Sequence(
                seq![ItemV::Comment("decimal cleanup"@, 120), cleanup, ItemV::EndComment],
            ),
            ItemV::AssertRelativePosition(mark, 0, "decimal reset"@),
            ItemV::RemoveMarker(mark),
        ],
    );
    ItemV::Sequence(
        seq![ItemV::Comment(display_decimal_text(width), 180), body, ItemV::EndComment],
    )
}

/// Print a `width`-digit base-10 number as characters, suppressing leading
/// zeros, and restore the digits afterwards.  The head starts on the first
/// cell of the number, and the emitted fragment is exactly
/// [`display_decimal_item`]; the precondition only keeps the offsets the
/// fragment computes within `isize`.
pub fn display_decimal(width: usize, extra_gap: usize) -> (r: Item)
    requires
        width >= 1,
        2 * (width as int) + (extra_gap as int) + 1 <= isize::MAX as int,
    ensures
        r@ == display_decimal_item(width as nat, extra_gap as nat),
{
    let span: isize = 2 * width as isize + extra_gap as isize;
    let out_hop: isize = width as isize + 1 + extra_gap as isize;
    let back_out_hop: isize = -out_hop;
    let back_span_next: isize = -(2 * width as isize + 1 + extra_gap as isize);
    let neg_width_next: isize = -(width as isize) - 1;
    let neg_gap: isize = -(extra_gap as isize);
    let ghost w = width as nat;
    let ghost g = extra_gap as nat;
    let mut comment_text = "display decimal {width=".to_owned();
    push_dec(width as u64, &mut comment_text);
    comment_text.append("}");
    proof {
        assert(comment_text@ =~= display_decimal_text(w));
    }

    let add48 = vec![
        Item::Direct(Instruction::Dec),
        Item::Direct(Instruction::Left),
        Item::Direct(Instruction::Inc).repeat(6),
        Item::Direct(Instruction::Right),
    ];
    proof {
        lemma_items_view(add48@);
        assert(items_view(add48@) =~= seq![
            ItemV::Direct(Instruction::Dec),
            ItemV::Direct(Instruction::Left),
            ItemV::Repeat(Box::new(ItemV::Direct(Instruction::Inc)), 6),
            ItemV::Direct(Instruction::Right),
        ]);
    }
    let spread_step = vec![Item::Direct(Instruction::Right), Item::Direct(Instruction::Inc)];
    proof {
        lemma_items_view(spread_step@);
        assert(items_view(spread_step@) =~= seq![
            ItemV::Direct(Instruction::Right),
            ItemV::Direct(Instruction::Inc),
        ]);
    }
    let spread = vec![
        Item::Direct(Instruction::Dec),
        Item::Sequence(spread_step).repeat(width),
        Item::Direct(Instruction::Left).repeat(width),
    ];
    proof {
        lemma_items_view(spread@);
        assert(items_view(spread@) =~= seq![
            ItemV::Direct(Instruction::Dec),
            ItemV::Repeat(
                Box::new(
                    ItemV::Sequence(
                        seq![
                            ItemV::Direct(Instruction::Right),
                            ItemV::Direct(Instruction::Inc),
                        ],
                    ),
                ),
                w,
            ),
            ItemV::Repeat(Box::new(ItemV::Direct(Instruction::Left)), w),
        ]);
    }
    let lz_loop = vec![
        Item::Direct(Instruction::Dec),
        offset_to_insns(width as isize),
        zero_cell(),
        Item::Direct(Instruction::Inc),
        offset_to_insns(out_hop),
        Item::Direct(Instruction::Inc),
        offset_to_insns(back_span_next),
    ];
    proof {
        lemma_items_view(lz_loop@);
        assert(items_view(lz_loop@) =~= seq![
            ItemV::Direct(Instruction::Dec),
            offset_move(w as int),
            zero_cell_item(),
            ItemV::Direct(Instruction::Inc),
            offset_move((w + 1 + g) as int),
            ItemV::Direct(Instruction::Inc),
            offset_move(-((2 * w + g) as int) - 1),
        ]);
    }
    let lz_pass = vec![Loop::new(lz_loop).into_item(), Item::Direct(Instruction::Left)];
    let ghost lz_pass_v = ItemV::Sequence(
        seq![
            ItemV::Loop(
                LoopV {
                    body: seq![
                        ItemV::Direct(Instruction::Dec),
                        offset_move(w as int),
                        zero_cell_item(),
                        ItemV::Direct(Instruction::Inc),
                        offset_move((w + 1 + g) as int),
                        ItemV::Direct(Instruction::Inc),
                        offset_move(-((2 * w + g) as int) - 1),
                    ],
                    change_indent: false,
                },
            ),
            ItemV::Direct(Instruction::Left),
        ],
    );
    proof {
        lemma_items_view(lz_pass@);
        assert(items_view(lz_pass@) =~= lz_pass_v->Sequence_0);
    }
    let emit_loop = vec![
        Item::Direct(Instruction::Right),
        offset_to_insns(out_hop),
        Item::Direct(Instruction::Output),
        offset_to_insns(back_out_hop),
        Item::Direct(Instruction::Inc),
    ];
    proof {
        lemma_items_view(emit_loop@);
        assert(items_view(emit_loop@) =~= seq![
            ItemV::Direct(Instruction::Right),
            offset_move((w + 1 + g) as int),
            ItemV::Direct(Instruction::Output),
            offset_move(-((w + 1 + g) as int)),
            ItemV::Direct(Instruction::Inc),
        ]);
    }
    let un48 = vec![
        Item::Direct(Instruction::Dec),
        Item::Direct(Instruction::Right),
        Item::Direct(Instruction::Inc).repeat(6),
        Item::Direct(Instruction::Left),
    ];
    proof {
        lemma_items_view(un48@);
        assert(items_view(un48@) =~= seq![
            ItemV::Direct(Instruction::Dec),
            ItemV::Direct(Instruction::Right),
            ItemV::Repeat(Box::new(ItemV::Direct(Instruction::Inc)), 6),
            ItemV::Direct(Instruction::Left),
        ]);
    }
    let unspread_step = vec![Item::Direct(Instruction::Right), Item::Direct(Instruction::Dec)];
    proof {
        lemma_items_view(unspread_step@);
        assert(items_view(unspread_step@) =~= seq![
            ItemV::Direct(Instruction::Right),
            ItemV::Direct(Instruction::Dec),
        ]);
    }
    let unspread = vec![
        Item::Direct(Instruction::Dec),
        Item::Sequence(unspread_step).repeat(width),
        Item::Direct(Instruction::Left).repeat(width),
    ];
    proof {
        lemma_items_view(unspread@);
        assert(items_view(unspread@) =~= seq![
            ItemV::Direct(Instruction::Dec),
            ItemV::Repeat(
                Box::new(
                    ItemV::Sequence(
                        seq![
                            ItemV::Direct(Instruction::Right),
                            ItemV::Direct(Instruction::Dec),
                        ],
                    ),
                ),
                w,
            ),
            ItemV::Repeat(Box::new(ItemV::Direct(Instruction::Left)), w),
        ]);
    }
    let wipe_step = vec![Item::Direct(Instruction::Left), zero_cell()];
    proof {
        lemma_items_view(wipe_step@);
        assert(items_view(wipe_step@) =~= seq![
            ItemV::Direct(Instruction::Left),
            zero_cell_item(),
        ]);
    }
    let cleanup_items = vec![
        Item::Sequence(wipe_step).repeat(width + 1),
        find_non_zero_cell_right(),
        Item::assert_marker_offset(
            "display start",
            2 * width as isize + 1 + extra_gap as isize,
            "begin restore",
        ),
        Item::Direct(Instruction::Left).repeat(2),
        Item::Direct(Instruction::Inc).repeat(8),
        Loop::new(un48).into_item(),
        Item::Direct(Instruction::Right),
        Loop::new(unspread).into_item(),
        Item::Direct(Instruction::Left).repeat(2 * width + extra_gap),
    ];
    let ghost cleanup_v = ItemV::Sequence(
        seq![
            ItemV::Repeat(
                Box::new(
                    ItemV::Sequence(seq![ItemV::Direct(Instruction::Left), zero_cell_item()]),
                ),
                (w + 1) as nat,
            ),
            scan_right_item(),
            ItemV::AssertRelativePosition(
                "display start"@,
                (2 * w + g) as int + 1,
                "begin restore"@,
            ),
            ItemV::Repeat(Box::new(ItemV::Direct(Instruction::Left)), 2),
            ItemV::Repeat(Box::new(ItemV::Direct(Instruction::Inc)), 8),
            ItemV::Loop(
                LoopV {
                    body: seq![
                        ItemV::Direct(Instruction::Dec),
                        ItemV::Direct(Instruction::Right),
                        ItemV::Repeat(Box::new(ItemV::Direct(Instruction::Inc)), 6),
                        ItemV::Direct(Instruction::Left),
                    ],
                    change_indent: false,
                },
            ),
            ItemV::Direct(Instruction::Right),
            ItemV::Loop(
                LoopV {
                    body: seq![
                        ItemV::Direct(Instruction::Dec),
                        ItemV::Repeat(
                            Box::new(
                                ItemV::Sequence(
                                    seq![
                                        ItemV::Direct(Instruction::Right),
                                        ItemV::Direct(Instruction::Dec),
                                    ],
                                ),
                            ),
                            w,
                        ),
                        ItemV::Repeat(Box::new(ItemV::Direct(Instruction::Left)), w),
                    ],
                    change_indent: false,
                },
            ),
            ItemV::Repeat(Box::new(ItemV::Direct(Instruction::Left)), (2 * w + g) as nat),
        ],
    );
    proof {
        lemma_items_view(cleanup_items@);
        assert(items_view(cleanup_items@) =~= cleanup_v->Sequence_0);
    }
    let cleanup = Item::Sequence(cleanup_items);

    let body_items = vec![
        Item::add_marker("display start", "display_decimal"),
        offset_to_insns(span),
        Item::Direct(Instruction::Right),
        Item::Direct(Instruction::Inc).repeat(8),
        Loop::new(add48).into_item(),
        Item::Direct(Instruction::Left),
        Loop::new(spread).into_item(),
        Item::assert_marker_offset("display start", span, "init output end"),
        offset_to_insns(neg_gap),
        Item::Direct(Instruction::Dec),
        offset_to_insns(neg_width_next),
        Item::Sequence(lz_pass).repeat(width).comment("leading zeros filter", 120),
        Item::assert_marker_offset("display start", -1, "after leading zeros"),
        find_non_zero_cell_right(),
        Item::Direct(Instruction::Left),
        Item::Direct(Instruction::Inc),
        Loop::new(emit_loop).into_item(),
        cleanup.comment("decimal cleanup", 120),
        Item::assert_marker_offset("display start", 0, "decimal reset"),
        Item::remove_marker("display start"),
    ];
    proof {
        lemma_items_view(body_items@);
        assert(items_view(body_items@) =~= seq![
            ItemV::AddMarker("display start"@, "display_decimal"@),
            offset_move((2 * w + g) as int),
            ItemV::Direct(Instruction::Right),
            ItemV::Repeat(Box::new(ItemV::Direct(Instruction::Inc)), 8),
            ItemV::Loop(
                LoopV {
                    body: seq![
                        ItemV::Direct(Instruction::Dec),
                        ItemV::Direct(Instruction::Left),
                        ItemV::Repeat(Box::new(ItemV::Direct(Instruction::Inc)), 6),
                        ItemV::Direct(Instruction::Right),
                    ],
                    change_indent: false,
                },
            ),
            ItemV::Direct(Instruction::Left),
            ItemV::Loop(
                LoopV {
                    body: seq![
                        ItemV::Direct(Instruction::Dec),
                        ItemV::Repeat(
                            Box::new(
                                ItemV::Sequence(
                                    seq![
                                        ItemV::Direct(Instruction::Right),
                                        ItemV::Direct(Instruction::Inc),
                                    ],
                                ),
                            ),
                            w,
                        ),
                        ItemV::Repeat(Box::new(ItemV::Direct(Instruction::Left)), w),
                    ],
                    change_indent: false,
                },
            ),
            ItemV::AssertRelativePosition(
                "display start"@,
                (2 * w + g) as int,
                "init output end"@,
            ),
            offset_move(-(g as int)),
            ItemV::Direct(Instruction::Dec),
            offset_move(-(w as int) - 1),
            ItemV::Sequence(
                seq![
                    ItemV::Comment("leading zeros filter"@, 120),
                    ItemV::Repeat(Box::new(lz_pass_v), w),
                    ItemV::EndComment,
                ],
            ),
            ItemV::AssertRelativePosition("display start"@, -1, "after leading zeros"@),
            scan_right_item(),
            ItemV::Direct(Instruction::Left),
            ItemV::Direct(Instruction::Inc),
            ItemV::Loop(
                LoopV {
                    body: seq![
                        ItemV::Direct(Instruction::Right),
                        offset_move((w + 1 + g) as int),
                        ItemV::Direct(Instruction::Output),
                        offset_move(-((w + 1 + g) as int)),
                        ItemV::Direct(Instruction::Inc),
                    ],
                    change_indent: false,
                },
            ),
            ItemV::Sequence(
                seq![ItemV::Comment("decimal cleanup"@, 120), cleanup_v, ItemV::EndComment],
            ),
            ItemV::AssertRelativePosition("display start"@, 0, "decimal reset"@),
            ItemV::RemoveMarker("display start"@),
        ]);
        assert(items_view(body_items@) =~= display_decimal_item(w, g)->Sequence_0[1]->Sequence_0);
    }
    Item::Sequence(body_items).comment(comment_text.as_str(), 180)
}

// The cell layout of the long division: dividend N, divisor D, temporary
// storage T, and quotient Q, each a decimal field, behind two scratch
// cells.
pub const DIV_ZC: usize = 0;

pub const DIV_SC: usize = 1;

pub const DIV_NW: usize = TRANSPORT_BYTES_WIDTH;

pub const DIV_N: usize = DIV_SC + 2 + DIV_NW - 1;

pub const DIV_N0: usize = DIV_N + 1;

pub const DIV_DW: usize = NO_PACKETS_WIDTH;

pub const DIV_D: usize = DIV_N0 + DIV_DW;

pub const DIV_D0: usize = DIV_D + 1;

pub const DIV_TW: usize = DIV_DW;

pub const DIV_T: usize = DIV_D0 + DIV_TW;

pub const DIV_T0: usize = DIV_T + 1;

pub const DIV_QW: usize = DIV_NW;

pub const DIV_Q: usize = DIV_T0 + DIV_QW;

pub const DIV_Q0: usize = DIV_Q + 1;

/// One digit's test inside the division's number-wide zero check, exactly:
/// move the digit to the temporary copy while bumping the accumulator,
/// then drain the copy back.
pub open spec fn new_zero_check_item(tc: isize, acc: isize) -> ItemV {
    ItemV::Sequence(
        seq![
            ItemV::Loop(
                LoopV {
                    body: seq![
                        ItemV::Direct(Instruction::Dec),
                        offset_move(tc as int),
                        ItemV::Direct(Instruction::Inc),
                        offset_move(-(tc as int)),
                        offset_move(acc as int),
                        ItemV::Direct(Instruction::Inc),
                        offset_move(-(acc as int)),
                    ],
                    change_indent: false,
                },
            ),
            offset_move(tc as int),
            drain_item(seq![(-(tc as int)) as isize], true),
            offset_move(-(tc as int)),
        ],
    )
}

fn new_zero_check(temp_copy: isize, accumulator: isize) -> (r: Item)
    requires
        -0x8000 <= temp_copy as int <= 0x8000,
        -0x8000 <= accumulator as int <= 0x8000,
    ensures
        r@ == new_zero_check_item(temp_copy, accumulator),
{
    let back_tc: isize = -temp_copy;
    let back_acc: isize = -accumulator;
    let copy_out = vec![
        Item::Direct(Instruction::Dec),
        offset_to_insns(temp_copy),
        Item::Direct(Instruction::Inc),
        offset_to_insns(back_tc),
        offset_to_insns(accumulator),
        Item::Direct(Instruction::Inc),
        offset_to_insns(back_acc),
    ];
    proof {
        lemma_items_view(copy_out@);
        assert(items_view(copy_out@) =~= new_zero_check_item(temp_copy, accumulator)
            ->Sequence_0[0]->Loop_0.body);
    }
    let v = vec![
        Loop::new(copy_out).into_item(),
        offset_to_insns(temp_copy),
        drain_to(offs1(back_tc), true),
        offset_to_insns(back_tc),
    ];
    proof {
        lemma_items_view(v@);
        assert(items_view(v@) =~= new_zero_check_item(temp_copy, accumulator)->Sequence_0);
    }
    Item::Sequence(v)
}

/// The per-digit tests of the number-wide zero check, in order: one test
/// per digit, each one cell more significant, separated by left moves.
pub open spec fn zero_check_number_checks(width: nat, tc: isize, acc: isize) -> Seq<ItemV>
    decreases width,
{
    if width == 0 {
        Seq::empty()
    } else {
        zero_check_number_checks((width - 1) as nat, tc, acc) + seq![
            new_zero_check_item(
                ((tc as int) + (width - 1)) as isize,
                ((acc as int) + (width - 1)) as isize,
            ),
            ItemV::Direct(Instruction::Left),
        ]
    }
}

/// The comment text of the number-wide zero check.
pub open spec fn zero_check_number_text(width: nat) -> Seq<char> {
    "zero check number {width="@ + dec_digits(width) + "}"@
}

/// The fragment that sets the accumulator cell exactly when every digit of
/// a `width`-cell number is zero, preserving the digits, exactly.
pub open spec fn zero_check_number_item(width: nat, tc: isize, acc: isize) -> ItemV {
    ItemV::Sequence(
        seq![
            ItemV::Comment(zero_check_number_text(width), 120),
            ItemV::Sequence(
                seq![
                    offset_move(acc as int),
                    zero_cell_item(),
                    offset_move(-(acc as int)),
                    ItemV::Sequence(zero_check_number_checks(width, tc, acc)),
                    offset_move(width as int),
                ],
            ),
            ItemV::EndComment,
        ],
    )
}

// On the last cell of the number: set the accumulator cell exactly when
// every digit of the number is zero, preserving the digits.
fn zero_check_number(width: usize, temp_copy: isize, accumulator: isize) -> (r: Item)
    requires
        width <= 16,
        -0x4000 <= temp_copy as int <= 0x4000,
        -0x4000 <= accumulator as int <= 0x4000,
    ensures
        r@ == zero_check_number_item(width as nat, temp_copy, accumulator),
{
    let mut checks: Vec<Item> = Vec::new();
    #[verifier::loop_isolation(false)]
    for i in 0..width
        invariant
            items_view(checks@) == zero_check_number_checks(i as nat, temp_copy, accumulator),
    {
        let check = new_zero_check(temp_copy + i as isize, accumulator + i as isize);
        let ghost check_g = check;
        let ghost s1 = checks@;
        checks.push(check);
        let ghost s2 = checks@;
        checks.push(Item::Direct(Instruction::Left));
        proof {
            lemma_items_view_push(s1, check_g);
            lemma_items_view_push(s2, Item::Direct(Instruction::Left));
            assert(items_view(checks@) =~= zero_check_number_checks(
                (i + 1) as nat,
                temp_copy,
                accumulator,
            ));
        }
    }
    let back_acc: isize = -accumulator;
    let mut comment_text = "zero check number {width=".to_owned();
    push_dec(width as u64, &mut comment_text);
    comment_text.append("}");
    proof {
        assert(comment_text@ =~= zero_check_number_text(width as nat));
    }
    let ghost checks_v = items_view(checks@);
    let v = vec![
        offset_to_insns(accumulator),
        zero_cell(),
        offset_to_insns(back_acc),
        Item::Sequence(checks),
        offset_to_insns(width as isize),
    ];
    proof {
        lemma_items_view(v@);
        assert(items_view(v@) =~= seq![
            offset_move(accumulator as int),
            zero_cell_item(),
            offset_move(-(accumulator as int)),
            ItemV::Sequence(checks_v),
            offset_move(width as int),
        ]);
    }
    Item::Sequence(v).comment(comment_text.as_str(), 120)
}

/// The body of the division's else branch, run when the divisor has been
/// exhausted: restore the divisor from the temporary field and count one
/// round in the quotient.
pub open spec fn divide_refill_body() -> Seq<ItemV> {
    seq![
        zero_cell_item(),
        offset_move(DIV_T as int - (DIV_ZC as int + 1)),
        ItemV::Repeat(
            Box::new(
                ItemV::Sequence(
                    seq![
                        drain_item(seq![(DIV_D as int - DIV_T as int) as isize], true),
                        ItemV::Direct(Instruction::Left),
                    ],
                ),
            ),
            DIV_TW as nat,
        ),
        ItemV::AssertPosition((DIV_D + 1) as nat, "after restore D"@),
        offset_move(DIV_T0 as int - (DIV_D as int + 1)),
        ItemV::Repeat(Box::new(ItemV::Direct(Instruction::Inc)), 10),
        ItemV::Loop(
            LoopV {
                body: seq![
                    ItemV::Direct(Instruction::Dec),
                    ItemV::Repeat(
                        Box::new(
                            ItemV::Sequence(
                                seq![
                                    ItemV::Direct(Instruction::Left),
                                    ItemV::Direct(Instruction::Dec),
                                ],
                            ),
                        ),
                        DIV_TW as nat,
                    ),
                    ItemV::Direct(Instruction::Left),
                    ItemV::Repeat(
                        Box::new(
                            ItemV::Sequence(
                                seq![
                                    ItemV::Direct(Instruction::Left),
                                    ItemV::Direct(Instruction::Inc),
                                ],
                            ),
                        ),
                        DIV_DW as nat,
                    ),
                    ItemV::Repeat(
                        Box::new(ItemV::Direct(Instruction::Right)),
                        (DIV_TW + DIV_DW + 1) as nat,
                    ),
                ],
                change_indent: false,
            },
        ),
        ItemV::AssertPosition(DIV_T0 as nat, "after unreset T+D"@),
        offset_move(DIV_Q as int - DIV_T0 as int),
        operate_item::<DecimalAdd<DIV_QW>>(DIV_ZC as int - DIV_Q as int),
        ItemV::AssertPosition(DIV_Q as nat, "after increment Q"@),
        offset_move(DIV_ZC as int + 1 - DIV_Q as int),
    ]
}

/// The body of the division's main loop: subtract one from the dividend
/// and the divisor, branch on whether the divisor emptied, and re-check
/// the dividend.
pub open spec fn divide_round_body() -> Seq<ItemV> {
    seq![
        zero_cell_item(),
        offset_move(DIV_N as int - DIV_ZC as int),
        operate_item::<DecimalSub<DIV_NW>>(DIV_ZC as int - DIV_N as int),
        ItemV::AssertPosition(DIV_N as nat, "after N subtract"@),
        offset_move(DIV_ZC as int - DIV_N as int),
        zero_cell_item(),
        offset_move(DIV_D as int - DIV_ZC as int),
        operate_item::<DecimalSub<DIV_DW>>(DIV_ZC as int - DIV_D as int),
        ItemV::AssertPosition(DIV_D as nat, "after D subtract"@),
        zero_check_number_item(
            DIV_DW as nat,
            (DIV_SC as int - DIV_D as int) as isize,
            (DIV_ZC as int - DIV_D as int) as isize,
        ),
        offset_move(DIV_ZC as int - DIV_D as int),
        drain_item(seq![(DIV_N0 as int - DIV_ZC as int) as isize], true),
        offset_move(DIV_T as int - DIV_ZC as int),
        operate_item::<DecimalAdd<DIV_TW>>(DIV_ZC as int - DIV_T as int),
        ItemV::AssertPosition(DIV_T as nat, "after T add"@),
        offset_move(DIV_N0 as int - DIV_T as int),
        drain_item(seq![(DIV_ZC as int - DIV_N0 as int) as isize], true),
        offset_move(DIV_ZC as int - DIV_N0 as int),
        ItemV::Direct(Instruction::Right),
        zero_cell_item(),
        ItemV::Direct(Instruction::Inc),
        ItemV::Direct(Instruction::Left),
        ItemV::Loop(
            LoopV {
                body: seq![
                    zero_cell_item(),
                    ItemV::Direct(Instruction::Right),
                    zero_cell_item(),
                    ItemV::Direct(Instruction::Left),
                ],
                change_indent: false,
            },
        ),
        ItemV::Direct(Instruction::Right),
        ItemV::AssertPosition((DIV_ZC + 1) as nat, "before else"@),
        ItemV::Loop(LoopV { body: divide_refill_body(), change_indent: false }),
        offset_move(DIV_N as int - (DIV_ZC as int + 1)),
        zero_check_number_item(
            DIV_NW as nat,
            (DIV_SC as int - DIV_N as int) as isize,
            (DIV_ZC as int - DIV_N as int) as isize,
        ),
        ItemV::AssertPosition(DIV_N as nat, "before loop"@),
        offset_move(DIV_ZC as int - DIV_N as int),
    ]
}

/// The long-division fragment, exactly: set the temporary and quotient
/// fields to the zero-digit encoding, then repeatedly subtract one from
/// the dividend and the divisor, refilling the divisor and counting a
/// quotient round whenever it empties, until the dividend is exhausted;
/// finally convert the quotient to plain digits and print it.
pub open spec fn divide_item() -> ItemV {
    ItemV::Sequence(
        seq![
            ItemV::AssertPosition(0, "before division"@),
            offset_move(DIV_N as int),
            ItemV::AssertRelativePosition("divide N"@, 0, "N correctly positioned"@),
            offset_move(DIV_D as int - DIV_N as int),
            ItemV::AssertRelativePosition("divide D"@, 0, "D correctly positioned"@),
            offset_move(0 - DIV_D as int),
            offset_move(DIV_T0 as int),
            ItemV::Repeat(Box::new(ItemV::Direct(Instruction::Inc)), 10),
            ItemV::Loop(
                LoopV {
                    body: seq![
                        ItemV::Direct(Instruction::Dec),
                        ItemV::Repeat(
                            Box::new(
                                ItemV::Sequence(
                                    seq![
                                        ItemV::Direct(Instruction::Left),
                                        ItemV::Direct(Instruction::Dec),
                                    ],
                                ),
                            ),
                            DIV_TW as nat,
                        ),
                        ItemV::Repeat(
                            Box::new(ItemV::Direct(Instruction::Right)),
                            DIV_TW as nat,
                        ),
                    ],
                    change_indent: false,
                },
            ),
            ItemV::AssertPosition(DIV_T0 as nat, "after init"@),
            offset_move(0 - DIV_T0 as int),
            offset_move(DIV_Q0 as int),
            ItemV::Repeat(Box::new(ItemV::Direct(Instruction::Inc)), 10),
            ItemV::Loop(
                LoopV {
                    body: seq![
                        ItemV::Direct(Instruction::Dec),
                        ItemV::Repeat(
                            Box::new(
                                ItemV::Sequence(
                                    seq![
                                        ItemV::Direct(Instruction::Left),
                                        ItemV::Direct(Instruction::Dec),
                                    ],
                                ),
                            ),
                            DIV_QW as nat,
                        ),
                        offset_move(DIV_QW as int),
                    ],
                    change_indent: false,
                },
            ),
            ItemV::AssertPosition(DIV_Q0 as nat, "Q setup"@),
            offset_move(0 - DIV_Q0 as int),
            offset_move(DIV_N as int),
            zero_check_number_item(
                DIV_NW as nat,
                (DIV_SC as int - DIV_N as int) as isize,
                (DIV_ZC as int - DIV_N as int) as isize,
            ),
            ItemV::AssertPosition(DIV_N as nat, "still here"@),
            offset_move(DIV_ZC as int - DIV_N as int),
            ItemV::Loop(LoopV { body: divide_round_body(), change_indent: false }),
            offset_move(DIV_Q0 as int - DIV_ZC as int),
            ItemV::Repeat(Box::new(ItemV::Direct(Instruction::Inc)), 10),
            ItemV::Loop(
                LoopV {
                    body: seq![
                        ItemV::Direct(Instruction::Dec),
                        ItemV::Repeat(
                            Box::new(
                                ItemV::Sequence(
                                    seq![
                                        ItemV::Direct(Instruction::Left),
                                        ItemV::Direct(Instruction::Inc),
                                    ],
                                ),
                            ),
                            DIV_QW as nat,
                        ),
                        offset_move(DIV_QW as int),
                    ],
                    change_indent: false,
                },
            ),
            ItemV::AssertPosition(DIV_Q0 as nat, "Q desetup"@),
            offset_move(-(DIV_QW as int)),
            display_decimal_item(DIV_QW as nat, 0),
            ItemV::AssertPosition((DIV_Q - DIV_QW + 1) as nat, "after division"@),
            offset_move(0 - (DIV_Q as int - DIV_QW as int + 1)),
        ],
    )
}

// Schoolbook base-10 division of the transport byte total by the packet
// count: repeatedly subtract the divisor, restoring it from the temporary
// field each time it empties, and count the rounds in the quotient; then
// print the quotient.  The emitted fragment is exactly [`divide_item`].
#[verifier::rlimit(60)]
fn divide() -> (r: Item)
    ensures
        r@ == divide_item(),
{
    let neg_qw: isize = -(DIV_QW as isize);
    let q_first: usize = DIV_Q - DIV_QW + 1;
    let ld_step1 = vec![Item::Direct(Instruction::Left), Item::Direct(Instruction::Dec)];
    proof {
        lemma_items_view(ld_step1@);
        assert(items_view(ld_step1@) =~= seq![
            ItemV::Direct(Instruction::Left),
            ItemV::Direct(Instruction::Dec),
        ]);
    }
    let t_init = vec![
        Item::Direct(Instruction::Dec),
        Item::Sequence(ld_step1).repeat(DIV_TW),
        Item::Direct(Instruction::Right).repeat(DIV_TW),
    ];
    proof {
        lemma_items_view(t_init@);
        assert(items_view(t_init@) =~= divide_item()->Sequence_0[8]->Loop_0.body);
    }
    let ld_step2 = vec![Item::Direct(Instruction::Left), Item::Direct(Instruction::Dec)];
    proof {
        lemma_items_view(ld_step2@);
        assert(items_view(ld_step2@) =~= seq![
            ItemV::Direct(Instruction::Left),
            ItemV::Direct(Instruction::Dec),
        ]);
    }
    let q_init = vec![
        Item::Direct(Instruction::Dec),
        Item::Sequence(ld_step2).repeat(DIV_QW),
        offset_to_insns(DIV_QW as isize),
    ];
    proof {
        lemma_items_view(q_init@);
        assert(items_view(q_init@) =~= divide_item()->Sequence_0[13]->Loop_0.body);
    }
    let restore_step = vec![
        drain_to(offs1(offset_from(DIV_T, DIV_D)), true),
        Item::Direct(Instruction::Left),
    ];
    proof {
        lemma_items_view(restore_step@);
        assert(items_view(restore_step@) =~= seq![
            drain_item(seq![(DIV_D as int - DIV_T as int) as isize], true),
            ItemV::Direct(Instruction::Left),
        ]);
    }
    let ld_step3 = vec![Item::Direct(Instruction::Left), Item::Direct(Instruction::Dec)];
    proof {
        lemma_items_view(ld_step3@);
        assert(items_view(ld_step3@) =~= seq![
            ItemV::Direct(Instruction::Left),
            ItemV::Direct(Instruction::Dec),
        ]);
    }
    let li_step1 = vec![Item::Direct(Instruction::Left), Item::Direct(Instruction::Inc)];
    proof {
        lemma_items_view(li_step1@);
        assert(items_view(li_step1@) =~= seq![
            ItemV::Direct(Instruction::Left),
            ItemV::Direct(Instruction::Inc),
        ]);
    }
    let unreset = vec![
        Item::Direct(Instruction::Dec),
        Item::Sequence(ld_step3).repeat(DIV_TW),
        Item::Direct(Instruction::Left),
        Item::Sequence(li_step1).repeat(DIV_DW),
        Item::Direct(Instruction::Right).repeat(DIV_TW + DIV_DW + 1),
    ];
    proof {
        lemma_items_view(unreset@);
        assert(items_view(unreset@) =~= divide_refill_body()[6]->Loop_0.body);
    }
    let refill = vec![
        zero_cell(),
        offset_to_insns(offset_from(DIV_ZC + 1, DIV_T)),
        Item::Sequence(restore_step).repeat(DIV_TW),
        Item::assert_position(DIV_D + 1, "after restore D"),
        offset_to_insns(offset_from(DIV_D + 1, DIV_T0)),
        Item::Direct(Instruction::Inc).repeat(10),
        Loop::new(unreset).into_item(),
        Item::assert_position(DIV_T0, "after unreset T+D"),
        offset_to_insns(offset_from(DIV_T0, DIV_Q)),
        operate::<DecimalAdd<DIV_QW>>(offset_from(DIV_Q, DIV_ZC)),
        Item::assert_position(DIV_Q, "after increment Q"),
        offset_to_insns(offset_from(DIV_Q, DIV_ZC + 1)),
    ];
    proof {
        lemma_items_view(refill@);
        assert(items_view(refill@) =~= divide_refill_body());
    }
    let branch = vec![
        zero_cell(),
        Item::Direct(Instruction::Right),
        zero_cell(),
        Item::Direct(Instruction::Left),
    ];
    proof {
        lemma_items_view(branch@);
        assert(items_view(branch@) =~= divide_round_body()[22]->Loop_0.body);
    }
    let round = vec![
        zero_cell(),
        offset_to_insns(offset_from(DIV_ZC, DIV_N)),
        operate::<DecimalSub<DIV_NW>>(offset_from(DIV_N, DIV_ZC)),
        Item::assert_position(DIV_N, "after N subtract"),
        offset_to_insns(offset_from(DIV_N, DIV_ZC)),
        zero_cell(),
        offset_to_insns(offset_from(DIV_ZC, DIV_D)),
        operate::<DecimalSub<DIV_DW>>(offset_from(DIV_D, DIV_ZC)),
        Item::assert_position(DIV_D, "after D subtract"),
        zero_check_number(
            DIV_DW,
            offset_from(DIV_D, DIV_SC),
            offset_from(DIV_D, DIV_ZC),
        ),
        offset_to_insns(offset_from(DIV_D, DIV_ZC)),
        drain_to(offs1(offset_from(DIV_ZC, DIV_N0)), true),
        offset_to_insns(offset_from(DIV_ZC, DIV_T)),
        operate::<DecimalAdd<DIV_TW>>(offset_from(DIV_T, DIV_ZC)),
        Item::assert_position(DIV_T, "after T add"),
        offset_to_insns(offset_from(DIV_T, DIV_N0)),
        drain_to(offs1(offset_from(DIV_N0, DIV_ZC)), true),
        offset_to_insns(offset_from(DIV_N0, DIV_ZC)),
        Item::Direct(Instruction::Right),
        zero_cell(),
        Item::Direct(Instruction::Inc),
        Item::Direct(Instruction::Left),
        Loop::new(branch).into_item(),
        Item::Direct(Instruction::Right),
        Item::assert_position(DIV_ZC + 1, "before else"),
        Loop::new(refill).into_item(),
        offset_to_insns(offset_from(DIV_ZC + 1, DIV_N)),
        zero_check_number(
            DIV_NW,
            offset_from(DIV_N, DIV_SC),
            offset_from(DIV_N, DIV_ZC),
        ),
        Item::assert_position(DIV_N, "before loop"),
        offset_to_insns(offset_from(DIV_N, DIV_ZC)),
    ];
    proof {
        lemma_items_view(round@);
        assert(items_view(round@) =~= divide_round_body());
    }
    let li_step2 = vec![Item::Direct(Instruction::Left), Item::Direct(Instruction::Inc)];
    proof {
        lemma_items_view(li_step2@);
        assert(items_view(li_step2@) =~= seq![
            ItemV::Direct(Instruction::Left),
            ItemV::Direct(Instruction::Inc),
        ]);
    }
    let q_deset = vec![
        Item::Direct(Instruction::Dec),
        Item::Sequence(li_step2).repeat(DIV_QW),
        offset_to_insns(DIV_QW as isize),
    ];
    proof {
        lemma_items_view(q_deset@);
        assert(items_view(q_deset@) =~= divide_item()->Sequence_0[23]->Loop_0.body);
    }
    let v = vec![
        Item::assert_position(0, "before division"),
        offset_to_insns(offset_from(0, DIV_N)),
        Item::assert_marker_offset("divide N", 0, "N correctly positioned"),
        offset_to_insns(offset_from(DIV_N, DIV_D)),
        Item::assert_marker_offset("divide D", 0, "D correctly positioned"),
        offset_to_insns(offset_from(DIV_D, 0)),
        offset_to_insns(offset_from(0, DIV_T0)),
        Item::Direct(Instruction::Inc).repeat(10),
        Loop::new(t_init).into_item(),
        Item::assert_position(DIV_T0, "after init"),
        offset_to_insns(offset_from(DIV_T0, 0)),
        offset_to_insns(offset_from(0, DIV_Q0)),
        Item::Direct(Instruction::Inc).repeat(10),
        Loop::new(q_init).into_item(),
        Item::assert_position(DIV_Q0, "Q setup"),
        offset_to_insns(offset_from(DIV_Q0, 0)),
        offset_to_insns(offset_from(0, DIV_N)),
        zero_check_number(
            DIV_NW,
            offset_from(DIV_N, DIV_SC),
            offset_from(DIV_N, DIV_ZC),
        ),
        Item::assert_position(DIV_N, "still here"),
        offset_to_insns(offset_from(DIV_N, DIV_ZC)),
        Loop::new(round).into_item(),
        offset_to_insns(offset_from(DIV_ZC, DIV_Q0)),
        Item::Direct(Instruction::Inc).repeat(10),
        Loop::new(q_deset).into_item(),
        Item::assert_position(DIV_Q0, "Q desetup"),
        offset_to_insns(neg_qw),
        display_decimal(DIV_QW, 0),
        Item::assert_position(q_first, "after division"),
        offset_to_insns(offset_from(q_first, 0)),
    ];
    proof {
        lemma_items_view(v@);
        assert(items_view(v@) =~= divide_item()->Sequence_0);
    }
    Item::Sequence(v)
}

// One walk over the list: place a marker on each entry, run the pass body,
// and return to the list head.  Passes that can leave the walk early do
// without the per-entry return assertion, since their body may finish at
// the list's end instead.
/// The list-walk fragment, exactly: at the list start, run `perform` on
/// each entry under a fresh marker, then rewind past two entries and walk
/// entry by entry back to the headstop.  Without `can_break`, the walk also
/// checks that `perform` advanced one entry and that the loop ended at the
/// list end.
pub open spec fn list_pass_item(pass_name: Seq<char>, perform: ItemV, can_break: bool) -> ItemV {
    let loop_body = if can_break {
        seq![
            ItemV::AddMarker("current item"@, "list_pass"@),
            perform,
            ItemV::RemoveMarker("current item"@),
        ]
    } else {
        seq![
            ItemV::AddMarker("current item"@, "list_pass"@),
            perform,
            ItemV::AssertRelativePosition("current item"@, ENTRY_WIDTH as int, "after perform"@),
            ItemV::RemoveMarker("current item"@),
        ]
    };
    let end_check = if can_break {
        ItemV::Sequence(Seq::empty())
    } else {
        ItemV::AssertRelativePosition("list end"@, 0, "at list end"@)
    };
    ItemV::Sequence(
        seq![
            ItemV::Comment("list pass: "@ + pass_name, 180),
            ItemV::Sequence(
                seq![
                    ItemV::AssertPosition(LIST_START as nat, pass_name),
                    ItemV::Loop(LoopV { body: loop_body, change_indent: false }),
                    end_check,
                    ItemV::Repeat(
                        Box::new(ItemV::Direct(Instruction::Left)),
                        (2 * ENTRY_WIDTH) as nat,
                    ),
                    ItemV::Loop(
                        LoopV {
                            body: seq![
                                ItemV::Repeat(
                                    Box::new(ItemV::Direct(Instruction::Left)),
                                    ENTRY_WIDTH as nat,
                                ),
                            ],
                            change_indent: false,
                        },
                    ),
                    ItemV::AssertPosition(LIST_HEADSTOP as nat, pass_name),
                    offset_move(LIST_START as int - LIST_HEADSTOP as int),
                ],
            ),
            ItemV::EndComment,
        ],
    )
}

fn list_pass(pass_name: &str, perform: Item, can_break: bool) -> (r: Item)
    ensures
        r@ == list_pass_item(pass_name@, perform@, can_break),
{
    let ghost performv = perform@;
    let mut comment_text = "list pass: ".to_owned();
    comment_text.append(pass_name);
    proof {
        assert(comment_text@ =~= "list pass: "@ + pass_name@);
    }
    let loop_body: Vec<Item> = if can_break {
        let lb = vec![
            Item::add_marker("current item", "list_pass"),
            perform,
            Item::remove_marker("current item"),
        ];
        proof {
            lemma_items_view(lb@);
            assert(items_view(lb@) =~= seq![
                ItemV::AddMarker("current item"@, "list_pass"@),
                performv,
                ItemV::RemoveMarker("current item"@),
            ]);
        }
        lb
    } else {
        let lb = vec![
            Item::add_marker("current item", "list_pass"),
            perform,
            Item::assert_marker_offset("current item", ENTRY_WIDTH as isize, "after perform"),
            Item::remove_marker("current item"),
        ];
        proof {
            lemma_items_view(lb@);
            assert(items_view(lb@) =~= seq![
                ItemV::AddMarker("current item"@, "list_pass"@),
                performv,
                ItemV::AssertRelativePosition(
                    "current item"@,
                    ENTRY_WIDTH as int,
                    "after perform"@,
                ),
                ItemV::RemoveMarker("current item"@),
            ]);
        }
        lb
    };
    let end_check: Item = if can_break {
        let e = Item::Sequence(Vec::new());
        proof {
            assert(items_view(Seq::<Item>::empty()) == Seq::<ItemV>::empty());
        }
        e
    } else {
        Item::assert_marker_offset("list end", 0, "at list end")
    };
    let back_walk = vec![Item::Direct(Instruction::Left).repeat(ENTRY_WIDTH)];
    proof {
        lemma_items_view(back_walk@);
        assert(items_view(back_walk@) =~= seq![
            ItemV::Repeat(Box::new(ItemV::Direct(Instruction::Left)), ENTRY_WIDTH as nat),
        ]);
    }
    let v = vec![
        Item::assert_position(LIST_START, pass_name),
        Loop::new(loop_body).into_item(),
        end_check,
        Item::Direct(Instruction::Left).repeat(2 * ENTRY_WIDTH),
        Loop::new(back_walk).into_item(),
        Item::assert_position(LIST_HEADSTOP, pass_name),
        offset_to_insns(offset_from(LIST_HEADSTOP, LIST_START)),
    ];
    proof {
        lemma_items_view(v@);
        assert(items_view(v@) =~= list_pass_item(pass_name@, performv, can_break)
            ->Sequence_0[1]->Sequence_0);
    }
    Item::Sequence(v).comment(comment_text.as_str(), 180)
}

// Print the single cell under the head as a decimal number; relies on the
// number fitting one cell.
fn print_decimal_cell() -> (r: Result<Item, ParseError>)
    ensures
        r is Ok,
        r matches Ok(it) ==> it@ == parse_bytes(
            ">>++++++++++<<[->+>-[>+>>]>[+[-<+>]>+>>]<<<<<<]>>[-]>>>++++++++++<[->-[>+>>]>[+[-<+>]>+>>]<<<<<]>[-]>>[>++++++[-<++++++++>]<.<<+>+>[-]]<[<[->-<]++++++[->++++++++<]>.[-]]<<++++++[-<++++++++>]<.[-]<<[-<+>]<".spec_bytes(),
        ),
{
    proof {
        reveal_strlit(
            ">>++++++++++<<[->+>-[>+>>]>[+[-<+>]>+>>]<<<<<<]>>[-]>>>++++++++++<[->-[>+>>]>[+[-<+>]>+>>]<<<<<]>[-]>>[>++++++[-<++++++++>]<.<<+>+>[-]]<[<[->-<]++++++[->++++++++<]>.[-]]<<++++++[-<++++++++>]<.[-]<<[-<+>]<",
        );
        let s: Seq<char> =
            ">>++++++++++<<[->+>-[>+>>]>[+[-<+>]>+>>]<<<<<<]>>[-]>>>++++++++++<[->-[>+>>]>[+[-<+>]>+>>]<<<<<]>[-]>>[>++++++[-<++++++++>]<.<<+>+>[-]]<[<[->-<]++++++[->++++++++<]>.[-]]<<++++++[-<++++++++>]<.[-]<<[-<+>]<"@;
        assert(forall|k: int| 0 <= k < s.len() ==> alphabet_char(#[trigger] s[k]));
        lemma_parse_round_trip_text(
            ">>++++++++++<<[->+>-[>+>>]>[+[-<+>]>+>>]<<<<<<]>>[-]>>>++++++++++<[->-[>+>>]>[+[-<+>]>+>>]<<<<<]>[-]>>[>++++++[-<++++++++>]<.<<+>+>[-]]<[<[->-<]++++++[->++++++++<]>.[-]]<<++++++[-<++++++++>]<.[-]<<[-<+>]<",
        );
    }
    Item::parse(
        ">>++++++++++<<[->+>-[>+>>]>[+[-<+>]>+>>]<<<<<<]>>[-]>>>++++++++++<[->-[>+>>]>[+[-<+>]>+>>]<<<<<]>[-]>>[>++++++[-<++++++++>]<.<<+>+>[-]]<[<[->-<]++++++[->++++++++<]>.[-]]<<++++++[-<++++++++>]<.[-]<<[-<+>]<",
    )
}

/// The comment text on the pull of octet `offset`.
pub open spec fn pull_back_text(offset: nat) -> Seq<char> {
    "pull "@ + dec_digits(offset)
}

/// The octet-pull fragment, exactly: count the marked entry's octet down,
/// walking to the found-IP field and back once per unit, so the octet is
/// restored while the field receives its value.
pub open spec fn pull_back_item(offset: nat) -> ItemV {
    ItemV::Sequence(
        seq![
            ItemV::AssertRelativePosition("target IP"@, 0, pull_back_text(offset)),
            offset_move(ENTRY_DATA_START as int + offset - ENTRY_EXIST_FLAG as int),
            ItemV::Loop(
                LoopV {
                    body: seq![
                        ItemV::Direct(Instruction::Dec),
                        offset_move(
                            ENTRY_EXIST_FLAG as int - (ENTRY_DATA_START as int + offset),
                        ),
                        ItemV::Repeat(
                            Box::new(ItemV::Direct(Instruction::Left)),
                            ENTRY_WIDTH as nat,
                        ),
                        ItemV::Loop(
                            LoopV {
                                body: seq![
                                    ItemV::Repeat(
                                        Box::new(ItemV::Direct(Instruction::Left)),
                                        ENTRY_WIDTH as nat,
                                    ),
                                ],
                                change_indent: false,
                            },
                        ),
                        ItemV::AssertPosition(LIST_HEADSTOP as nat, "return to headstop"@),
                        offset_move(FOUND_IP as int + offset - LIST_HEADSTOP as int),
                        ItemV::Direct(Instruction::Inc),
                        offset_move(LIST_START as int - (FOUND_IP as int + offset)),
                        ItemV::Loop(
                            LoopV {
                                body: seq![
                                    ItemV::Repeat(
                                        Box::new(ItemV::Direct(Instruction::Right)),
                                        ENTRY_WIDTH as nat,
                                    ),
                                ],
                                change_indent: false,
                            },
                        ),
                        ItemV::AssertRelativePosition("target IP"@, 0, "return to target"@),
                        offset_move(
                            ENTRY_DATA_START as int + offset - ENTRY_EXIST_FLAG as int,
                        ),
                    ],
                    change_indent: true,
                },
            ),
            offset_move(ENTRY_EXIST_FLAG as int - (ENTRY_DATA_START as int + offset)),
            ItemV::AssertRelativePosition("target IP"@, 0, pull_back_text(offset) + " finish"@),
        ],
    )
}

// Pull one octet of the marked entry's address out to the found-IP field,
// restoring the octet as it goes.
fn pull_back(offset: usize) -> (r: Item)
    requires
        offset < ENTRY_DATA_WIDTH,
    ensures
        r@ == pull_back_item(offset as nat),
{
    let mut pull_comment = "pull ".to_owned();
    push_dec(offset as u64, &mut pull_comment);
    let mut finish_comment = "pull ".to_owned();
    push_dec(offset as u64, &mut finish_comment);
    finish_comment.append(" finish");
    proof {
        assert(pull_comment@ =~= pull_back_text(offset as nat));
        assert(finish_comment@ =~= pull_back_text(offset as nat) + " finish"@);
    }
    let back_walk = vec![Item::Direct(Instruction::Left).repeat(ENTRY_WIDTH)];
    proof {
        lemma_items_view(back_walk@);
        assert(items_view(back_walk@) =~= seq![
            ItemV::Repeat(Box::new(ItemV::Direct(Instruction::Left)), ENTRY_WIDTH as nat),
        ]);
    }
    let fwd_walk = vec![Item::Direct(Instruction::Right).repeat(ENTRY_WIDTH)];
    proof {
        lemma_items_view(fwd_walk@);
        assert(items_view(fwd_walk@) =~= seq![
            ItemV::Repeat(Box::new(ItemV::Direct(Instruction::Right)), ENTRY_WIDTH as nat),
        ]);
    }
    let unit = vec![
        Item::Direct(Instruction::Dec),
        offset_to_insns(offset_from(ENTRY_DATA_START + offset, ENTRY_EXIST_FLAG)),
        Item::Direct(Instruction::Left).repeat(ENTRY_WIDTH),
        Loop::new(back_walk).into_item(),
        Item::assert_position(LIST_HEADSTOP, "return to headstop"),
        offset_to_insns(offset_from(LIST_HEADSTOP, FOUND_IP + offset)),
        Item::Direct(Instruction::Inc),
        offset_to_insns(offset_from(FOUND_IP + offset, LIST_START)),
        Loop::new(fwd_walk).into_item(),
        Item::assert_marker_offset("target IP", 0, "return to target"),
        offset_to_insns(offset_from(ENTRY_EXIST_FLAG, ENTRY_DATA_START + offset)),
    ];
    proof {
        lemma_items_view(unit@);
        assert(items_view(unit@) =~= pull_back_item(offset as nat)->Sequence_0[2]
            ->Loop_0.body);
    }
    let v = vec![
        Item::assert_marker_offset("target IP", 0, pull_comment.as_str()),
        offset_to_insns(offset_from(ENTRY_EXIST_FLAG, ENTRY_DATA_START + offset)),
        Loop::new(unit).indent().into_item(),
        offset_to_insns(offset_from(ENTRY_DATA_START + offset, ENTRY_EXIST_FLAG)),
        Item::assert_marker_offset("target IP", 0, finish_comment.as_str()),
    ];
    proof {
        lemma_items_view(v@);
        assert(items_view(v@) =~= pull_back_item(offset as nat)->Sequence_0);
    }
    Item::Sequence(v)
}

// The fixed pieces of summary text, each written by a generated fragment.
enum Text {
    TransportLevelData,
    BytesNewline,
    Udp,
    TcpNewline,
    BytesPerPacket,
    MostPopular,
    DestinationWas,
    DestinationsWere,
    And,
    Other,
    With,
    Packet,
    Each,
    Newline,
}

/// The marker name guarding one piece of summary text.
spec fn write_text_marker(text: Text) -> Seq<char> {
    match text {
        Text::TransportLevelData => "write text TransportLevelData"@,
        Text::BytesNewline => "write text BytesNewline"@,
        Text::Udp => "write text UDP"@,
        Text::TcpNewline => "write text TCPNewline"@,
        Text::BytesPerPacket => "write text BytesPerPacket"@,
        Text::MostPopular => "write text MostPopular"@,
        Text::DestinationWas => "write text DestinationWas"@,
        Text::DestinationsWere => "write text DestinationsWere"@,
        Text::And => "write text And"@,
        Text::Other => "write text Other"@,
        Text::With => "write text With"@,
        Text::Packet => "write text Packet"@,
        Text::Each => "write text Each"@,
        Text::Newline => "write text Newline"@,
    }
}

/// The items of one text write: generated instructions print the piece of
/// text, then the working cells are swept back to zero.
#[verifier::opaque]
spec fn write_text_body(text: Text) -> Seq<ItemV> {
    match text {
        Text::TransportLevelData => seq![
            ItemV::Sequence(
                seq![
                    ItemV::Comment("write \"Total transport-level data: \""@, 220),
                    parse_bytes(
                        "++++++++[>+++++++++++>++++++++++++++>++++++++++++>++++>++++++>+++++++<<<<<<-]>----.>-.+++++.>+.<--------.>>.<<++++++++.--.>.<----.+++++.---.-.+++.++.>>>---.<<<--------.>++++.<++++++++++.>.+++++++.>.<--------.---.<--.>.>>>++.<<.".spec_bytes(),
                    ),
                    ItemV::EndComment,
                ],
            ),
            ItemV::AssertRelativePosition(write_text_marker(text), 4, "after text write"@),
            ItemV::Repeat(Box::new(ItemV::Direct(Instruction::Right)), 2),
            ItemV::Loop(
                LoopV {
                    body: seq![zero_cell_item(), ItemV::Direct(Instruction::Left)],
                    change_indent: false,
                },
            ),
        ],
        Text::BytesNewline => seq![
            ItemV::Sequence(
                seq![
                    ItemV::Comment("write \" bytes\\n\""@, 220),
                    parse_bytes(
                        "++++++++[>++++>++++++++++++>+++++++++++++++>+<<<<-]>.>++.>+.-----.<+++.>-.>++.".spec_bytes(),
                    ),
                    ItemV::EndComment,
                ],
            ),
            ItemV::AssertRelativePosition(write_text_marker(text), 4, "after text write"@),
            ItemV::Loop(
                LoopV {
                    body: seq![zero_cell_item(), ItemV::Direct(Instruction::Left)],
                    change_indent: false,
                },
            ),
        ],
        Text::Udp => seq![
            ItemV::Sequence(
                seq![
                    ItemV::Comment("write \" UDP, \""@, 220),
                    parse_bytes(
                        "+++++++[>+++++>++++++++++++>++++++++++>++++++<<<<-]>---.>+.>--.<-----.>>++.<<<.".spec_bytes(),
                    ),
                    ItemV::EndComment,
                ],
            ),
            ItemV::AssertRelativePosition(write_text_marker(text), 1, "after text write"@),
            ItemV::Loop(
                LoopV {
                    body: seq![zero_cell_item(), ItemV::Direct(Instruction::Right)],
                    change_indent: false,
                },
            ),
            offset_move(-5),
        ],
        Text::TcpNewline => seq![
            ItemV::Sequence(
                seq![
                    ItemV::Comment("write \" TCP\\n\""@, 220),
                    parse_bytes(
                        "+++++++[>+++++>++++++++++++>++++++++++>+<<<<-]>---.>.>---.<----.>>+++.".spec_bytes(),
                    ),
                    ItemV::EndComment,
                ],
            ),
            ItemV::AssertRelativePosition(write_text_marker(text), 4, "after text write"@),
            ItemV::Loop(
                LoopV {
                    body: seq![zero_cell_item(), ItemV::Direct(Instruction::Left)],
                    change_indent: false,
                },
            ),
        ],
        Text::BytesPerPacket => seq![
            ItemV::Sequence(
                seq![
                    ItemV::Comment("write \" bytes/packet\\n\""@, 220),
                    parse_bytes(
                        "+++++++[>+++++>++++++++++++++>+++++++++++++++++>+++++++>+<<<<<-]>---.>.>++.-----.<+++.>-.>--.<---.<----.++.>-----.<++.>+++++++++.>>+++.".spec_bytes(),
                    ),
                    ItemV::EndComment,
                ],
            ),
            ItemV::AssertRelativePosition(write_text_marker(text), 5, "after text write"@),
            ItemV::Loop(
                LoopV {
                    body: seq![zero_cell_item(), ItemV::Direct(Instruction::Left)],
                    change_indent: false,
                },
            ),
        ],
        Text::MostPopular => seq![
            ItemV::Sequence(
                seq![
                    ItemV::Comment("write \"Most popular destination\""@, 220),
                    parse_bytes(
                        "++++++++++[>++++++++>+++++++++++>+++>++++++++++>++++++++++<<<<<-]>---.>+.++++.+.>++.<----.-.+.+++++.---------.>>---.<<++++++.>.>>.+.<<<+.+.>>>++++.+++++.<.<<.>>>-----.++++++.-.".spec_bytes(),
                    ),
                    ItemV::EndComment,
                ],
            ),
            ItemV::AssertRelativePosition(write_text_marker(text), 5, "after text write"@),
            ItemV::Loop(
                LoopV {
                    body: seq![zero_cell_item(), ItemV::Direct(Instruction::Left)],
                    change_indent: false,
                },
            ),
        ],
        Text::DestinationWas => seq![
            ItemV::Sequence(
                seq![
                    ItemV::Comment("write \" was \""@, 220),
                    parse_bytes(
                        "++++++++++[>+++>++++++++++++>++++++++++<<<-]>++.>-.>---.<----.<.".spec_bytes(),
                    ),
                    ItemV::EndComment,
                ],
            ),
            ItemV::AssertRelativePosition(write_text_marker(text), 1, "after text write"@),
            offset_move(2),
            ItemV::Loop(
                LoopV {
                    body: seq![zero_cell_item(), ItemV::Direct(Instruction::Left)],
                    change_indent: false,
                },
            ),
        ],
        Text::DestinationsWere => seq![
            ItemV::Sequence(
                seq![
                    ItemV::Comment("write \"s were \""@, 220),
                    parse_bytes(
                        "++++++++++[>++++++++++++>+++>++++++++++<<<-]>-----.>++.<++++.>>+.<<-----.>>.<.".spec_bytes(),
                    ),
                    ItemV::EndComment,
                ],
            ),
            ItemV::AssertRelativePosition(write_text_marker(text), 2, "after text write"@),
            offset_move(1),
            ItemV::Loop(
                LoopV {
                    body: seq![zero_cell_item(), ItemV::Direct(Instruction::Left)],
                    change_indent: false,
                },
            ),
        ],
        Text::And => seq![
            ItemV::Sequence(
                seq![
                    ItemV::Comment("write \" and \""@, 220),
                    parse_bytes(
                        "++++++++++[>+++>++++++++++>+++++++++++<<<-]>++.>---.>.<+++.<.".spec_bytes(),
                    ),
                    ItemV::EndComment,
                ],
            ),
            ItemV::AssertRelativePosition(write_text_marker(text), 1, "after text write"@),
            offset_move(2),
            ItemV::Loop(
                LoopV {
                    body: seq![zero_cell_item(), ItemV::Direct(Instruction::Left)],
                    change_indent: false,
                },
            ),
        ],
        Text::Other => seq![
            ItemV::Sequence(
                seq![
                    ItemV::Comment("write \" other\""@, 220),
                    parse_bytes(
                        "++++++++++[>+++>+++++++++++>++++++++++<<<-]>++.>+.+++++.>++++.---.<--.".spec_bytes(),
                    ),
                    ItemV::EndComment,
                ],
            ),
            ItemV::AssertRelativePosition(write_text_marker(text), 2, "after text write"@),
            offset_move(1),
            ItemV::Loop(
                LoopV {
                    body: seq![zero_cell_item(), ItemV::Direct(Instruction::Left)],
                    change_indent: false,
                },
            ),
        ],
        Text::With => seq![
            ItemV::Sequence(
                seq![
                    ItemV::Comment("write \" with \""@, 220),
                    parse_bytes(
                        "++++++++++[>+++>++++++++++++>+++++++++++<<<-]>++.>-.>-----.<---.>-.<<.".spec_bytes(),
                    ),
                    ItemV::EndComment,
                ],
            ),
            ItemV::AssertRelativePosition(write_text_marker(text), 1, "after text write"@),
            offset_move(2),
            ItemV::Loop(
                LoopV {
                    body: seq![zero_cell_item(), ItemV::Direct(Instruction::Left)],
                    change_indent: false,
                },
            ),
        ],
        Text::Packet => seq![
            ItemV::Sequence(
                seq![
                    ItemV::Comment("write \" packet\""@, 220),
                    parse_bytes(
                        "++++++++++[>+++>+++++++++++>++++++++++<<<-]>++.>++.>---.++.<-----.>++.<+++++++++.".spec_bytes(),
                    ),
                    ItemV::EndComment,
                ],
            ),
            ItemV::AssertRelativePosition(write_text_marker(text), 2, "after text write"@),
            offset_move(1),
            ItemV::Loop(
                LoopV {
                    body: seq![zero_cell_item(), ItemV::Direct(Instruction::Left)],
                    change_indent: false,
                },
            ),
        ],
        Text::Each => seq![
            ItemV::Sequence(
                seq![
                    ItemV::Comment("write \" each\""@, 220),
                    parse_bytes(
                        "++++++++[>++++>+++++++++++++<<-]>.>---.----.++.+++++.".spec_bytes(),
                    ),
                    ItemV::EndComment,
                ],
            ),
            ItemV::AssertRelativePosition(write_text_marker(text), 2, "after text write"@),
            ItemV::Loop(
                LoopV {
                    body: seq![zero_cell_item(), ItemV::Direct(Instruction::Left)],
                    change_indent: false,
                },
            ),
        ],
        Text::Newline => seq![
            ItemV::Sequence(
                seq![
                    ItemV::Comment("write \"\\n\""@, 220),
                    parse_bytes(
                        "+++[>+++<-]>+.".spec_bytes(),
                    ),
                    ItemV::EndComment,
                ],
            ),
            ItemV::AssertRelativePosition(write_text_marker(text), 1, "after text write"@),
            ItemV::Loop(
                LoopV {
                    body: seq![zero_cell_item(), ItemV::Direct(Instruction::Left)],
                    change_indent: false,
                },
            ),
        ],
    }
}

/// The text-write fragment, exactly: under a fresh marker, generated
/// instructions print the piece of text, and the working cells are swept
/// back to zero.
spec fn write_text_item(text: Text) -> ItemV {
    ItemV::Sequence(
        seq![
            ItemV::AddMarker(write_text_marker(text), "write_text"@),
            ItemV::Sequence(write_text_body(text)),
            ItemV::AssertRelativePosition(write_text_marker(text), 0, "after text cleanup"@),
            ItemV::RemoveMarker(write_text_marker(text)),
        ],
    )
}

// The items that write this piece of summary text.
fn write_transport_level_data_items() -> (r: Result<Vec<Item>, ParseError>)
    ensures
        r is Ok,
        r matches Ok(v) ==> items_view(v@) == write_text_body(Text::TransportLevelData),
{
    proof {
        reveal_strlit(
            "++++++++[>+++++++++++>++++++++++++++>++++++++++++>++++>++++++>+++++++<<<<<<-]>----.>-.+++++.>+.<--------.>>.<<++++++++.--.>.<----.+++++.---.-.+++.++.>>>---.<<<--------.>++++.<++++++++++.>.+++++++.>.<--------.---.<--.>.>>>++.<<.",
        );
        let s: Seq<char> =
            "++++++++[>+++++++++++>++++++++++++++>++++++++++++>++++>++++++>+++++++<<<<<<-]>----.>-.+++++.>+.<--------.>>.<<++++++++.--.>.<----.+++++.---.-.+++.++.>>>---.<<<--------.>++++.<++++++++++.>.+++++++.>.<--------.---.<--.>.>>>++.<<."@;
        assert(forall|k: int| 0 <= k < s.len() ==> alphabet_char(#[trigger] s[k]));
        lemma_parse_round_trip_text(
            "++++++++[>+++++++++++>++++++++++++++>++++++++++++>++++>++++++>+++++++<<<<<<-]>----.>-.+++++.>+.<--------.>>.<<++++++++.--.>.<----.+++++.---.-.+++.++.>>>---.<<<--------.>++++.<++++++++++.>.+++++++.>.<--------.---.<--.>.>>>++.<<.",
        );
    }
    let sweep = vec![zero_cell(), Item::Direct(Instruction::Left)];
    proof {
        lemma_items_view(sweep@);
        assert(items_view(sweep@) =~= seq![zero_cell_item(), ItemV::Direct(Instruction::Left)]);
    }
    let arm = vec![
        Item::parse(
            "++++++++[>+++++++++++>++++++++++++++>++++++++++++>++++>++++++>+++++++<<<<<<-]>----.>-.+++++.>+.<--------.>>.<<++++++++.--.>.<----.+++++.---.-.+++.++.>>>---.<<<--------.>++++.<++++++++++.>.+++++++.>.<--------.---.<--.>.>>>++.<<.",
        )?.comment("write \"Total transport-level data: \"", 220),
        Item::assert_marker_offset("write text TransportLevelData", 4, "after text write"),
        Item::Direct(Instruction::Right).repeat(2),
        Loop::new(sweep).into_item(),
    ];
    proof {
        lemma_items_view(arm@);
        reveal(write_text_body);
        assert(items_view(arm@) =~= write_text_body(Text::TransportLevelData));
    }
    Ok(arm)
}

// The items that write this piece of summary text.
fn write_bytes_newline_items() -> (r: Result<Vec<Item>, ParseError>)
    ensures
        r is Ok,
        r matches Ok(v) ==> items_view(v@) == write_text_body(Text::BytesNewline),
{
    proof {
        reveal_strlit(
            "++++++++[>++++>++++++++++++>+++++++++++++++>+<<<<-]>.>++.>+.-----.<+++.>-.>++.",
        );
        let s: Seq<char> =
            "++++++++[>++++>++++++++++++>+++++++++++++++>+<<<<-]>.>++.>+.-----.<+++.>-.>++."@;
        assert(forall|k: int| 0 <= k < s.len() ==> alphabet_char(#[trigger] s[k]));
        lemma_parse_round_trip_text(
            "++++++++[>++++>++++++++++++>+++++++++++++++>+<<<<-]>.>++.>+.-----.<+++.>-.>++.",
        );
    }
    let sweep = vec![zero_cell(), Item::Direct(Instruction::Left)];
    proof {
        lemma_items_view(sweep@);
        assert(items_view(sweep@) =~= seq![zero_cell_item(), ItemV::Direct(Instruction::Left)]);
    }
    let arm = vec![
        Item::parse(
            "++++++++[>++++>++++++++++++>+++++++++++++++>+<<<<-]>.>++.>+.-----.<+++.>-.>++.",
        )?.comment("write \" bytes\\n\"", 220),
        Item::assert_marker_offset("write text BytesNewline", 4, "after text write"),
        Loop::new(sweep).into_item(),
    ];
    proof {
        lemma_items_view(arm@);
        reveal(write_text_body);
        assert(items_view(arm@) =~= write_text_body(Text::BytesNewline));
    }
    Ok(arm)
}

// The items that write this piece of summary text.
fn write_udp_items() -> (r: Result<Vec<Item>, ParseError>)
    ensures
        r is Ok,
        r matches Ok(v) ==> items_view(v@) == write_text_body(Text::Udp),
{
    proof {
        reveal_strlit(
            "+++++++[>+++++>++++++++++++>++++++++++>++++++<<<<-]>---.>+.>--.<-----.>>++.<<<.",
        );
        let s: Seq<char> =
            "+++++++[>+++++>++++++++++++>++++++++++>++++++<<<<-]>---.>+.>--.<-----.>>++.<<<."@;
        assert(forall|k: int| 0 <= k < s.len() ==> alphabet_char(#[trigger] s[k]));
        lemma_parse_round_trip_text(
            "+++++++[>+++++>++++++++++++>++++++++++>++++++<<<<-]>---.>+.>--.<-----.>>++.<<<.",
        );
    }
    let sweep = vec![zero_cell(), Item::Direct(Instruction::Right)];
    proof {
        lemma_items_view(sweep@);
        assert(items_view(sweep@) =~= seq![zero_cell_item(), ItemV::Direct(Instruction::Right)]);
    }
    let arm = vec![
        Item::parse(
            "+++++++[>+++++>++++++++++++>++++++++++>++++++<<<<-]>---.>+.>--.<-----.>>++.<<<.",
        )?.comment("write \" UDP, \"", 220),
        Item::assert_marker_offset("write text UDP", 1, "after text write"),
        Loop::new(sweep).into_item(),
        offset_to_insns(-5),
    ];
    proof {
        lemma_items_view(arm@);
        reveal(write_text_body);
        assert(items_view(arm@) =~= write_text_body(Text::Udp));
    }
    Ok(arm)
}

// The items that write this piece of summary text.
fn write_tcp_newline_items() -> (r: Result<Vec<Item>, ParseError>)
    ensures
        r is Ok,
        r matches Ok(v) ==> items_view(v@) == write_text_body(Text::TcpNewline),
{
    proof {
        reveal_strlit(
            "+++++++[>+++++>++++++++++++>++++++++++>+<<<<-]>---.>.>---.<----.>>+++.",
        );
        let s: Seq<char> =
            "+++++++[>+++++>++++++++++++>++++++++++>+<<<<-]>---.>.>---.<----.>>+++."@;
        assert(forall|k: int| 0 <= k < s.len() ==> alphabet_char(#[trigger] s[k]));
        lemma_parse_round_trip_text(
            "+++++++[>+++++>++++++++++++>++++++++++>+<<<<-]>---.>.>---.<----.>>+++.",
        );
    }
    let sweep = vec![zero_cell(), Item::Direct(Instruction::Left)];
    proof {
        lemma_items_view(sweep@);
        assert(items_view(sweep@) =~= seq![zero_cell_item(), ItemV::Direct(Instruction::Left)]);
    }
    let arm = vec![
        Item::parse(
            "+++++++[>+++++>++++++++++++>++++++++++>+<<<<-]>---.>.>---.<----.>>+++.",
        )?.comment("write \" TCP\\n\"", 220),
        Item::assert_marker_offset("write text TCPNewline", 4, "after text write"),
        Loop::new(sweep).into_item(),
    ];
    proof {
        lemma_items_view(arm@);
        reveal(write_text_body);
        assert(items_view(arm@) =~= write_text_body(Text::TcpNewline));
    }
    Ok(arm)
}

// The items that write this piece of summary text.
fn write_bytes_per_packet_items() -> (r: Result<Vec<Item>, ParseError>)
    ensures
        r is Ok,
        r matches Ok(v) ==> items_view(v@) == write_text_body(Text::BytesPerPacket),
{
    proof {
        reveal_strlit(
            "+++++++[>+++++>++++++++++++++>+++++++++++++++++>+++++++>+<<<<<-]>---.>.>++.-----.<+++.>-.>--.<---.<----.++.>-----.<++.>+++++++++.>>+++.",
        );
        let s: Seq<char> =
            "+++++++[>+++++>++++++++++++++>+++++++++++++++++>+++++++>+<<<<<-]>---.>.>++.-----.<+++.>-.>--.<---.<----.++.>-----.<++.>+++++++++.>>+++."@;
        assert(forall|k: int| 0 <= k < s.len() ==> alphabet_char(#[trigger] s[k]));
        lemma_parse_round_trip_text(
            "+++++++[>+++++>++++++++++++++>+++++++++++++++++>+++++++>+<<<<<-]>---.>.>++.-----.<+++.>-.>--.<---.<----.++.>-----.<++.>+++++++++.>>+++.",
        );
    }
    let sweep = vec![zero_cell(), Item::Direct(Instruction::Left)];
    proof {
        lemma_items_view(sweep@);
        assert(items_view(sweep@) =~= seq![zero_cell_item(), ItemV::Direct(Instruction::Left)]);
    }
    let arm = vec![
        Item::parse(
            "+++++++[>+++++>++++++++++++++>+++++++++++++++++>+++++++>+<<<<<-]>---.>.>++.-----.<+++.>-.>--.<---.<----.++.>-----.<++.>+++++++++.>>+++.",
        )?.comment("write \" bytes/packet\\n\"", 220),
        Item::assert_marker_offset("write text BytesPerPacket", 5, "after text write"),
        Loop::new(sweep).into_item(),
    ];
    proof {
        lemma_items_view(arm@);
        reveal(write_text_body);
        assert(items_view(arm@) =~= write_text_body(Text::BytesPerPacket));
    }
    Ok(arm)
}

// The items that write this piece of summary text.
fn write_most_popular_items() -> (r: Result<Vec<Item>, ParseError>)
    ensures
        r is Ok,
        r matches Ok(v) ==> items_view(v@) == write_text_body(Text::MostPopular),
{
    proof {
        reveal_strlit(
            "++++++++++[>++++++++>+++++++++++>+++>++++++++++>++++++++++<<<<<-]>---.>+.++++.+.>++.<----.-.+.+++++.---------.>>---.<<++++++.>.>>.+.<<<+.+.>>>++++.+++++.<.<<.>>>-----.++++++.-.",
        );
        let s: Seq<char> =
            "++++++++++[>++++++++>+++++++++++>+++>++++++++++>++++++++++<<<<<-]>---.>+.++++.+.>++.<----.-.+.+++++.---------.>>---.<<++++++.>.>>.+.<<<+.+.>>>++++.+++++.<.<<.>>>-----.++++++.-."@;
        assert(forall|k: int| 0 <= k < s.len() ==> alphabet_char(#[trigger] s[k]));
        lemma_parse_round_trip_text(
            "++++++++++[>++++++++>+++++++++++>+++>++++++++++>++++++++++<<<<<-]>---.>+.++++.+.>++.<----.-.+.+++++.---------.>>---.<<++++++.>.>>.+.<<<+.+.>>>++++.+++++.<.<<.>>>-----.++++++.-.",
        );
    }
    let sweep = vec![zero_cell(), Item::Direct(Instruction::Left)];
    proof {
        lemma_items_view(sweep@);
        assert(items_view(sweep@) =~= seq![zero_cell_item(), ItemV::Direct(Instruction::Left)]);
    }
    let arm = vec![
        Item::parse(
            "++++++++++[>++++++++>+++++++++++>+++>++++++++++>++++++++++<<<<<-]>---.>+.++++.+.>++.<----.-.+.+++++.---------.>>---.<<++++++.>.>>.+.<<<+.+.>>>++++.+++++.<.<<.>>>-----.++++++.-.",
        )?.comment("write \"Most popular destination\"", 220),
        Item::assert_marker_offset("write text MostPopular", 5, "after text write"),
        Loop::new(sweep).into_item(),
    ];
    proof {
        lemma_items_view(arm@);
        reveal(write_text_body);
        assert(items_view(arm@) =~= write_text_body(Text::MostPopular));
    }
    Ok(arm)
}

// The items that write this piece of summary text.
fn write_destination_was_items() -> (r: Result<Vec<Item>, ParseError>)
    ensures
        r is Ok,
        r matches Ok(v) ==> items_view(v@) == write_text_body(Text::DestinationWas),
{
    proof {
        reveal_strlit(
            "++++++++++[>+++>++++++++++++>++++++++++<<<-]>++.>-.>---.<----.<.",
        );
        let s: Seq<char> =
            "++++++++++[>+++>++++++++++++>++++++++++<<<-]>++.>-.>---.<----.<."@;
        assert(forall|k: int| 0 <= k < s.len() ==> alphabet_char(#[trigger] s[k]));
        lemma_parse_round_trip_text(
            "++++++++++[>+++>++++++++++++>++++++++++<<<-]>++.>-.>---.<----.<.",
        );
    }
    let sweep = vec![zero_cell(), Item::Direct(Instruction::Left)];
    proof {
        lemma_items_view(sweep@);
        assert(items_view(sweep@) =~= seq![zero_cell_item(), ItemV::Direct(Instruction::Left)]);
    }
    let arm = vec![
        Item::parse(
            "++++++++++[>+++>++++++++++++>++++++++++<<<-]>++.>-.>---.<----.<.",
        )?.comment("write \" was \"", 220),
        Item::assert_marker_offset("write text DestinationWas", 1, "after text write"),
        offset_to_insns(2),
        Loop::new(sweep).into_item(),
    ];
    proof {
        lemma_items_view(arm@);
        reveal(write_text_body);
        assert(items_view(arm@) =~= write_text_body(Text::DestinationWas));
    }
    Ok(arm)
}

// The items that write this piece of summary text.
fn write_destinations_were_items() -> (r: Result<Vec<Item>, ParseError>)
    ensures
        r is Ok,
        r matches Ok(v) ==> items_view(v@) == write_text_body(Text::DestinationsWere),
{
    proof {
        reveal_strlit(
            "++++++++++[>++++++++++++>+++>++++++++++<<<-]>-----.>++.<++++.>>+.<<-----.>>.<.",
        );
        let s: Seq<char> =
            "++++++++++[>++++++++++++>+++>++++++++++<<<-]>-----.>++.<++++.>>+.<<-----.>>.<."@;
        assert(forall|k: int| 0 <= k < s.len() ==> alphabet_char(#[trigger] s[k]));
        lemma_parse_round_trip_text(
            "++++++++++[>++++++++++++>+++>++++++++++<<<-]>-----.>++.<++++.>>+.<<-----.>>.<.",
        );
    }
    let sweep = vec![zero_cell(), Item::Direct(Instruction::Left)];
    proof {
        lemma_items_view(sweep@);
        assert(items_view(sweep@) =~= seq![zero_cell_item(), ItemV::Direct(Instruction::Left)]);
    }
    let arm = vec![
        Item::parse(
            "++++++++++[>++++++++++++>+++>++++++++++<<<-]>-----.>++.<++++.>>+.<<-----.>>.<.",
        )?.comment("write \"s were \"", 220),
        Item::assert_marker_offset("write text DestinationsWere", 2, "after text write"),
        offset_to_insns(1),
        Loop::new(sweep).into_item(),
    ];
    proof {
        lemma_items_view(arm@);
        reveal(write_text_body);
        assert(items_view(arm@) =~= write_text_body(Text::DestinationsWere));
    }
    Ok(arm)
}

// The items that write this piece of summary text.
fn write_and_word_items() -> (r: Result<Vec<Item>, ParseError>)
    ensures
        r is Ok,
        r matches Ok(v) ==> items_view(v@) == write_text_body(Text::And),
{
    proof {
        reveal_strlit(
            "++++++++++[>+++>++++++++++>+++++++++++<<<-]>++.>---.>.<+++.<.",
        );
        let s: Seq<char> =
            "++++++++++[>+++>++++++++++>+++++++++++<<<-]>++.>---.>.<+++.<."@;
        assert(forall|k: int| 0 <= k < s.len() ==> alphabet_char(#[trigger] s[k]));
        lemma_parse_round_trip_text(
            "++++++++++[>+++>++++++++++>+++++++++++<<<-]>++.>---.>.<+++.<.",
        );
    }
    let sweep = vec![zero_cell(), Item::Direct(Instruction::Left)];
    proof {
        lemma_items_view(sweep@);
        assert(items_view(sweep@) =~= seq![zero_cell_item(), ItemV::Direct(Instruction::Left)]);
    }
    let arm = vec![
        Item::parse(
            "++++++++++[>+++>++++++++++>+++++++++++<<<-]>++.>---.>.<+++.<.",
        )?.comment("write \" and \"", 220),
        Item::assert_marker_offset("write text And", 1, "after text write"),
        offset_to_insns(2),
        Loop::new(sweep).into_item(),
    ];
    proof {
        lemma_items_view(arm@);
        reveal(write_text_body);
        assert(items_view(arm@) =~= write_text_body(Text::And));
    }
    Ok(arm)
}

// The items that write this piece of summary text.
fn write_other_word_items() -> (r: Result<Vec<Item>, ParseError>)
    ensures
        r is Ok,
        r matches Ok(v) ==> items_view(v@) == write_text_body(Text::Other),
{
    proof {
        reveal_strlit(
            "++++++++++[>+++>+++++++++++>++++++++++<<<-]>++.>+.+++++.>++++.---.<--.",
        );
        let s: Seq<char> =
            "++++++++++[>+++>+++++++++++>++++++++++<<<-]>++.>+.+++++.>++++.---.<--."@;
        assert(forall|k: int| 0 <= k < s.len() ==> alphabet_char(#[trigger] s[k]));
        lemma_parse_round_trip_text(
            "++++++++++[>+++>+++++++++++>++++++++++<<<-]>++.>+.+++++.>++++.---.<--.",
        );
    }
    let sweep = vec![zero_cell(), Item::Direct(Instruction::Left)];
    proof {
        lemma_items_view(sweep@);
        assert(items_view(sweep@) =~= seq![zero_cell_item(), ItemV::Direct(Instruction::Left)]);
    }
    let arm = vec![
        Item::parse(
            "++++++++++[>+++>+++++++++++>++++++++++<<<-]>++.>+.+++++.>++++.---.<--.",
        )?.comment("write \" other\"", 220),
        Item::assert_marker_offset("write text Other", 2, "after text write"),
        offset_to_insns(1),
        Loop::new(sweep).into_item(),
    ];
    proof {
        lemma_items_view(arm@);
        reveal(write_text_body);
        assert(items_view(arm@) =~= write_text_body(Text::Other));
    }
    Ok(arm)
}

// The items that write this piece of summary text.
fn write_with_word_items() -> (r: Result<Vec<Item>, ParseError>)
    ensures
        r is Ok,
        r matches Ok(v) ==> items_view(v@) == write_text_body(Text::With),
{
    proof {
        reveal_strlit(
            "++++++++++[>+++>++++++++++++>+++++++++++<<<-]>++.>-.>-----.<---.>-.<<.",
        );
        let s: Seq<char> =
            "++++++++++[>+++>++++++++++++>+++++++++++<<<-]>++.>-.>-----.<---.>-.<<."@;
        assert(forall|k: int| 0 <= k < s.len() ==> alphabet_char(#[trigger] s[k]));
        lemma_parse_round_trip_text(
            "++++++++++[>+++>++++++++++++>+++++++++++<<<-]>++.>-.>-----.<---.>-.<<.",
        );
    }
    let sweep = vec![zero_cell(), Item::Direct(Instruction::Left)];
    proof {
        lemma_items_view(sweep@);
        assert(items_view(sweep@) =~= seq![zero_cell_item(), ItemV::Direct(Instruction::Left)]);
    }
    let arm = vec![
        Item::parse(
            "++++++++++[>+++>++++++++++++>+++++++++++<<<-]>++.>-.>-----.<---.>-.<<.",
        )?.comment("write \" with \"", 220),
        Item::assert_marker_offset("write text With", 1, "after text write"),
        offset_to_insns(2),
        Loop::new(sweep).into_item(),
    ];
    proof {
        lemma_items_view(arm@);
        reveal(write_text_body);
        assert(items_view(arm@) =~= write_text_body(Text::With));
    }
    Ok(arm)
}

// The items that write this piece of summary text.
fn write_packet_word_items() -> (r: Result<Vec<Item>, ParseError>)
    ensures
        r is Ok,
        r matches Ok(v) ==> items_view(v@) == write_text_body(Text::Packet),
{
    proof {
        reveal_strlit(
            "++++++++++[>+++>+++++++++++>++++++++++<<<-]>++.>++.>---.++.<-----.>++.<+++++++++.",
        );
        let s: Seq<char> =
            "++++++++++[>+++>+++++++++++>++++++++++<<<-]>++.>++.>---.++.<-----.>++.<+++++++++."@;
        assert(forall|k: int| 0 <= k < s.len() ==> alphabet_char(#[trigger] s[k]));
        lemma_parse_round_trip_text(
            "++++++++++[>+++>+++++++++++>++++++++++<<<-]>++.>++.>---.++.<-----.>++.<+++++++++.",
        );
    }
    let sweep = vec![zero_cell(), Item::Direct(Instruction::Left)];
    proof {
        lemma_items_view(sweep@);
        assert(items_view(sweep@) =~= seq![zero_cell_item(), ItemV::Direct(Instruction::Left)]);
    }
    let arm = vec![
        Item::parse(
            "++++++++++[>+++>+++++++++++>++++++++++<<<-]>++.>++.>---.++.<-----.>++.<+++++++++.",
        )?.comment("write \" packet\"", 220),
        Item::assert_marker_offset("write text Packet", 2, "after text write"),
        offset_to_insns(1),
        Loop::new(sweep).into_item(),
    ];
    proof {
        lemma_items_view(arm@);
        reveal(write_text_body);
        assert(items_view(arm@) =~= write_text_body(Text::Packet));
    }
    Ok(arm)
}

// The items that write this piece of summary text.
fn write_each_word_items() -> (r: Result<Vec<Item>, ParseError>)
    ensures
        r is Ok,
        r matches Ok(v) ==> items_view(v@) == write_text_body(Text::Each),
{
    proof {
        reveal_strlit(
            "++++++++[>++++>+++++++++++++<<-]>.>---.----.++.+++++.",
        );
        let s: Seq<char> =
            "++++++++[>++++>+++++++++++++<<-]>.>---.----.++.+++++."@;
        assert(forall|k: int| 0 <= k < s.len() ==> alphabet_char(#[trigger] s[k]));
        lemma_parse_round_trip_text(
            "++++++++[>++++>+++++++++++++<<-]>.>---.----.++.+++++.",
        );
    }
    let sweep = vec![zero_cell(), Item::Direct(Instruction::Left)];
    proof {
        lemma_items_view(sweep@);
        assert(items_view(sweep@) =~= seq![zero_cell_item(), ItemV::Direct(Instruction::Left)]);
    }
    let arm = vec![
        Item::parse(
            "++++++++[>++++>+++++++++++++<<-]>.>---.----.++.+++++.",
        )?.comment("write \" each\"", 220),
        Item::assert_marker_offset("write text Each", 2, "after text write"),
        Loop::new(sweep).into_item(),
    ];
    proof {
        lemma_items_view(arm@);
        reveal(write_text_body);
        assert(items_view(arm@) =~= write_text_body(Text::Each));
    }
    Ok(arm)
}

// The items that write this piece of summary text.
fn write_newline_items() -> (r: Result<Vec<Item>, ParseError>)
    ensures
        r is Ok,
        r matches Ok(v) ==> items_view(v@) == write_text_body(Text::Newline),
{
    proof {
        reveal_strlit(
            "+++[>+++<-]>+.",
        );
        let s: Seq<char> =
            "+++[>+++<-]>+."@;
        assert(forall|k: int| 0 <= k < s.len() ==> alphabet_char(#[trigger] s[k]));
        lemma_parse_round_trip_text(
            "+++[>+++<-]>+.",
        );
    }
    let sweep = vec![zero_cell(), Item::Direct(Instruction::Left)];
    proof {
        lemma_items_view(sweep@);
        assert(items_view(sweep@) =~= seq![zero_cell_item(), ItemV::Direct(Instruction::Left)]);
    }
    let arm = vec![
        Item::parse(
            "+++[>+++<-]>+.",
        )?.comment("write \"\\n\"", 220),
        Item::assert_marker_offset("write text Newline", 1, "after text write"),
        Loop::new(sweep).into_item(),
    ];
    proof {
        lemma_items_view(arm@);
        reveal(write_text_body);
        assert(items_view(arm@) =~= write_text_body(Text::Newline));
    }
    Ok(arm)
}

// Write one piece of summary text: generated instructions print the
// characters, then the working cells are swept back to zero.  The emitted
// fragment is exactly [`write_text_item`].
fn write_text(text: Text) -> (r: Result<Item, ParseError>)
    ensures
        r is Ok,
        r matches Ok(it) ==> it@ == write_text_item(text),
{
    let marker: &str = match text {
        Text::TransportLevelData => "write text TransportLevelData",
        Text::BytesNewline => "write text BytesNewline",
        Text::Udp => "write text UDP",
        Text::TcpNewline => "write text TCPNewline",
        Text::BytesPerPacket => "write text BytesPerPacket",
        Text::MostPopular => "write text MostPopular",
        Text::DestinationWas => "write text DestinationWas",
        Text::DestinationsWere => "write text DestinationsWere",
        Text::And => "write text And",
        Text::Other => "write text Other",
        Text::With => "write text With",
        Text::Packet => "write text Packet",
        Text::Each => "write text Each",
        Text::Newline => "write text Newline",
    };
    proof {
        assert(marker@ == write_text_marker(text));
    }
    let v: Vec<Item> = match text {
        Text::TransportLevelData => write_transport_level_data_items()?,
        Text::BytesNewline => write_bytes_newline_items()?,
        Text::Udp => write_udp_items()?,
        Text::TcpNewline => write_tcp_newline_items()?,
        Text::BytesPerPacket => write_bytes_per_packet_items()?,
        Text::MostPopular => write_most_popular_items()?,
        Text::DestinationWas => write_destination_was_items()?,
        Text::DestinationsWere => write_destinations_were_items()?,
        Text::And => write_and_word_items()?,
        Text::Other => write_other_word_items()?,
        Text::With => write_with_word_items()?,
        Text::Packet => write_packet_word_items()?,
        Text::Each => write_each_word_items()?,
        Text::Newline => write_newline_items()?,
    };
    let outer = vec![
        Item::add_marker(marker, "write_text"),
        Item::Sequence(v),
        Item::assert_marker_offset(marker, 0, "after text cleanup"),
        Item::remove_marker(marker),
    ];
    proof {
        lemma_items_view(outer@);
        assert(items_view(outer@) =~= write_text_item(text)->Sequence_0);
    }
    Ok(Item::Sequence(outer))
}

/// The output phase: convert the counters to characters, print the totals,
/// divide bytes by packets for the average, and walk the list repeatedly
/// to find and print the most frequent destination addresses.
#[verifier::rlimit(100)]
pub fn output() -> (r: Result<Item, ParseError>)
    ensures
        r is Ok,
{
    let back_entry: isize = -(ENTRY_WIDTH as isize);
    let sub_back: isize = -2 + -2 * (NO_PACKETS_WIDTH as isize);
    let sub_fwd: isize = 2 + 2 * (NO_PACKETS_WIDTH as isize);
    let sub_down: isize = -1 - NO_PACKETS_WIDTH as isize;
    let pos_after_zero_one: usize = 19 - NO_PACKETS_WIDTH;
    let pos_after_move_dividend: usize = 48 - TRANSPORT_BYTES_WIDTH;
    let wt_transport = write_text(Text::TransportLevelData)?;
    let wt_bytes = write_text(Text::BytesNewline)?;
    let wt_udp = write_text(Text::Udp)?;
    let wt_tcp = write_text(Text::TcpNewline)?;
    let wt_bpp = write_text(Text::BytesPerPacket)?;
    let wt_most_popular = write_text(Text::MostPopular)?;
    let wt_dest_was = write_text(Text::DestinationWas)?;
    let wt_dests_were = write_text(Text::DestinationsWere)?;
    let wt_and = write_text(Text::And)?;
    let wt_other = write_text(Text::Other)?;
    let wt_with = write_text(Text::With)?;
    let wt_packet = write_text(Text::Packet)?;
    let wt_each = write_text(Text::Each)?;
    let wt_newline = write_text(Text::Newline)?;
    let pdc_ip = print_decimal_cell()?;
    let pdc_other = print_decimal_cell()?;
    let pdc_count = print_decimal_cell()?;
    proof {
        reveal_strlit("+++++++[>+++++++<-]>---");
        let sa: Seq<char> = "+++++++[>+++++++<-]>---"@;
        assert(forall|k: int| 0 <= k < sa.len() ==> alphabet_char(#[trigger] sa[k]));
        lemma_parse_round_trip_text("+++++++[>+++++++<-]>---");
        reveal_strlit("+++++++++++[>++++++++++<-]>+++++");
        let sb: Seq<char> = "+++++++++++[>++++++++++<-]>+++++"@;
        assert(forall|k: int| 0 <= k < sb.len() ==> alphabet_char(#[trigger] sb[k]));
        lemma_parse_round_trip_text("+++++++++++[>++++++++++<-]>+++++");
    }
    Ok(
        Item::Sequence(
            vec![
                Item::assert_position(PACKET_LOOP_START, "after loop"),
                Item::Comment("begin output".to_owned(), 240),
                offset_to_insns(offset_from(PACKET_LOOP_START, SCRATCH_SPACE - 1)),
                Item::Direct(Instruction::Inc).repeat(5),
                Loop::new(
                    vec![
                        Item::Direct(Instruction::Dec),
                        Item::Direct(Instruction::Right),
                        Item::Direct(Instruction::Dec).repeat(2),
                        Item::Direct(Instruction::Left),
                    ],
                ).into_item(),
                Item::Direct(Instruction::Right),
                Item::assert_position(SCRATCH_SPACE, "begin decimal conversion"),
                offset_to_insns(offset_from(SCRATCH_SPACE, NO_PACKETS + 1)),
                Item::Direct(Instruction::Dec),
                offset_to_insns(offset_from(NO_PACKETS + 1, NO_UDP + 1)),
                Item::Direct(Instruction::Dec),
                offset_to_insns(offset_from(NO_UDP + 1, SCRATCH_SPACE)),
                Loop::new(
                    vec![
                        Item::Direct(Instruction::Dec),
                        Item::Direct(Instruction::Right),
                        Loop::new(
                            vec![
                                Item::Direct(Instruction::Dec),
                                Item::Direct(Instruction::Right),
                            ],
                        ).into_item(),
                        Item::assert_position(TRANSPORT_BYTES + 1, "right moving"),
                        offset_to_insns(offset_from(TRANSPORT_BYTES + 1, SCRATCH_SPACE)),
                    ],
                ).into_item(),
                offset_to_insns(offset_from(SCRATCH_SPACE, NO_PACKETS + 1)),
                zero_cell(),
                offset_to_insns(offset_from(NO_PACKETS + 1, NO_UDP + 1)),
                zero_cell(),
                offset_to_insns(offset_from(NO_UDP + 1, TRANSPORT_BYTES + 1)),
                wt_transport,
                Item::assert_position(TRANSPORT_BYTES + 1, "after first output"),
                offset_to_insns(offset_from(TRANSPORT_BYTES + 1, TRANSPORT_BYTES_START)),
                display_decimal(TRANSPORT_BYTES_WIDTH, 0),
                wt_bytes,
                offset_to_insns(offset_from(TRANSPORT_BYTES_START, NO_UDP_START)),
                display_decimal(NO_UDP_WIDTH, 0),
                wt_udp,
                offset_to_insns(offset_from(NO_UDP_START, NO_PACKETS_START)),
                Item::Sequence(
                    vec![
                        drain_to(offs2(-4, 4 + NO_PACKETS_WIDTH as isize), true),
                        Item::Direct(Instruction::Right),
                    ],
                ).repeat(NO_PACKETS_WIDTH),
                offset_to_insns(NO_PACKETS_WIDTH as isize),
                Item::Sequence(
                    vec![Item::Direct(Instruction::Right), Item::Direct(Instruction::Inc)],
                ).repeat(NO_PACKETS_WIDTH),
                Loop::new(
                    vec![
                        Item::Direct(Instruction::Dec),
                        offset_to_insns(1 + NO_PACKETS_WIDTH as isize),
                        Loop::new(
                            vec![
                                offset_to_insns(sub_back),
                                operate::<DecimalSub<NO_PACKETS_WIDTH>>(8),
                                offset_to_insns(sub_fwd),
                                Item::Direct(Instruction::Dec),
                            ],
                        ).indent().into_item().comment("subtraction level", 140),
                        offset_to_insns(sub_down),
                        Item::Direct(Instruction::Left),
                    ],
                ).indent().into_item().comment("subtract UDP from total packets", 200),
                offset_to_insns(-7),
                Item::assert_position(11, "TCP packets"),
                display_decimal(NO_PACKETS_WIDTH, 0),
                wt_tcp,
                Item::assert_position(11, "before clear subtraction"),
                offset_to_insns(14),
                Item::Sequence(
                    vec![Item::Direct(Instruction::Right), zero_cell()],
                ).repeat(NO_PACKETS_WIDTH),
                Item::assert_position(32, "after clear subtraction"),
                offset_to_insns(offset_from(32, 6)),
                Item::Sequence(
                    vec![Item::Direct(Instruction::Right), zero_cell()],
                ).repeat(48 - 7 - 9),
                Item::assert_position(38, "after clear for division"),
                offset_to_insns(offset_from(38, 19)),
                Item::add_marker("divide D", "output"),
                Item::Sequence(
                    vec![zero_cell(), Item::Direct(Instruction::Left)],
                ).repeat(NO_PACKETS_WIDTH),
                Item::assert_position(pos_after_zero_one, "after zero 1 for division"),
                offset_to_insns(offset_from(pos_after_zero_one, 0)),
                Item::Sequence(
                    vec![
                        drain_to(offs1(offset_from(0, pos_after_zero_one + 1)), true),
                        Item::Direct(Instruction::Right),
                    ],
                ).repeat(NO_PACKETS_WIDTH),
                Item::assert_position(7, "after move divisor for division"),
                offset_to_insns(offset_from(7, 48)),
                Item::Sequence(
                    vec![
                        drain_to(offs1(offset_from(47, 11)), true),
                        Item::Direct(Instruction::Left),
                    ],
                ).repeat(TRANSPORT_BYTES_WIDTH),
                Item::assert_position(pos_after_move_dividend, "after move dividend for division"),
                offset_to_insns(offset_from(pos_after_move_dividend, 11)),
                Item::add_marker("divide N", "output"),
                offset_to_insns(offset_from(11, 0)),
                divide(),
                Item::assert_position(0, "after division"),
                wt_bpp,
                Item::Sequence(
                    vec![zero_cell(), Item::Direct(Instruction::Right)],
                ).repeat(LIST_START),
                Item::assert_position(LIST_START, "division cleanup done"),
                Loop::new(
                    vec![
                        Item::Sequence(
                            vec![Item::Direct(Instruction::Right), zero_cell()],
                        ).repeat(3),
                        offset_to_insns(offset_from(ENTRY_COUNT - 1, ENTRY_MARKED_FLAG)),
                        Item::Direct(Instruction::Inc),
                        offset_to_insns(offset_from(ENTRY_MARKED_FLAG, ENTRY_WIDTH)),
                    ],
                ).into_item(),
                Item::add_marker("list end", "output"),
                Item::Direct(Instruction::Left).repeat(ENTRY_WIDTH),
                Loop::new(
                    vec![Item::Direct(Instruction::Left).repeat(ENTRY_WIDTH)],
                ).into_item(),
                Item::assert_position(LIST_HEADSTOP, "return to headstop"),
                offset_to_insns(offset_from(LIST_HEADSTOP, LIST_LOOP_FLAG)),
                Item::Direct(Instruction::Inc),
                Loop::new(
                    vec![
                        Item::assert_position(LIST_LOOP_FLAG, "list loop start"),
                        offset_to_insns(offset_from(LIST_LOOP_FLAG, LIST_START)),
                        list_pass(
                            "zero check",
                            Item::Sequence(
                                vec![
                                    offset_to_insns(offset_from(ENTRY_EXIST_FLAG, ENTRY_COUNT)),
                                    Item::Direct(Instruction::Left),
                                    Item::Direct(Instruction::Left),
                                    Item::Direct(Instruction::Inc),
                                    Item::Direct(Instruction::Right),
                                    Item::Direct(Instruction::Right),
                                    Loop::new(
                                        vec![
                                            Item::Direct(Instruction::Dec),
                                            Item::Direct(Instruction::Left),
                                            Item::Direct(Instruction::Inc),
                                            Item::Direct(Instruction::Left),
                                            zero_cell(),
                                            Item::Direct(Instruction::Right),
                                            Item::Direct(Instruction::Right),
                                        ],
                                    ).into_item(),
                                    Item::Direct(Instruction::Left),
                                    drain_to(offs1(1), true),
                                    Item::Direct(Instruction::Right),
                                    offset_to_insns(offset_from(ENTRY_COUNT, ENTRY_WIDTH)),
                                ],
                            ),
                            false,
                        ),
                        list_pass(
                            "find greater items",
                            Item::Sequence(
                                vec![
                                    Item::Direct(Instruction::Right),
                                    Item::Direct(Instruction::Right),
                                    Item::Direct(Instruction::Right),
                                    Item::Direct(Instruction::Inc),
                                    Item::Direct(Instruction::Left),
                                    Loop::new(
                                        vec![
                                            zero_cell(),
                                            Item::Direct(Instruction::Right),
                                            Item::Direct(Instruction::Dec),
                                            Item::Direct(Instruction::Left),
                                        ],
                                    ).into_item(),
                                    Item::Direct(Instruction::Right),
                                    Item::Direct(Instruction::Left),
                                    Item::Direct(Instruction::Left),
                                    Item::Direct(Instruction::Left),
                                    zero_cell(),
                                    Item::Direct(Instruction::Right),
                                    Loop::new(
                                        vec![
                                            Item::Direct(Instruction::Dec),
                                            Item::Direct(Instruction::Left),
                                            Item::Direct(Instruction::Inc),
                                            Item::Direct(Instruction::Right),
                                            Item::Direct(Instruction::Right),
                                            Item::Direct(Instruction::Right),
                                            Item::Direct(Instruction::Inc),
                                            Item::Direct(Instruction::Left),
                                            Item::Direct(Instruction::Left),
                                        ],
                                    ).into_item(),
                                    Item::Direct(Instruction::Left),
                                    Item::assert_marker_offset("current item", 0, "return to exist"),
                                    drain_to(offs1(1), true),
                                    Item::Direct(Instruction::Inc),
                                    Item::Direct(Instruction::Right),
                                    Item::Direct(Instruction::Right),
                                    Item::Direct(Instruction::Right),
                                    Item::Direct(Instruction::Dec),
                                    Item::Direct(Instruction::Dec),
                                    Item::Direct(Instruction::Left),
                                    Item::Direct(Instruction::Inc),
                                    Item::Direct(Instruction::Right),
                                    Loop::new(
                                        vec![
                                            zero_cell_up(),
                                            Item::Direct(Instruction::Left),
                                            Item::Direct(Instruction::Dec),
                                            Item::Direct(Instruction::Right),
                                        ],
                                    ).into_item(),
                                    offset_to_insns(offset_from(ENTRY_SCRATCH + 1, ENTRY_WIDTH)),
                                ],
                            ),
                            false,
                        ),
                        list_pass(
                            "check for any greater items",
                            Item::Sequence(
                                vec![
                                    Item::Direct(Instruction::Right),
                                    Item::Direct(Instruction::Right),
                                    Loop::new(
                                        vec![
                                            drain_to(offs1(1), true),
                                            Item::Direct(Instruction::Left),
                                            Item::Direct(Instruction::Left),
                                            Item::assert_marker_offset(
                                                "current item",
                                                ENTRY_EXIST_FLAG as isize,
                                                "exist flag",
                                            ),
                                            Loop::new(
                                                vec![
                                                    Item::Direct(Instruction::Left).repeat(
                                                        ENTRY_WIDTH,
                                                    ),
                                                ],
                                            ).into_item(),
                                            Item::assert_position(
                                                LIST_HEADSTOP,
                                                "return to headstop",
                                            ),
                                            offset_to_insns(
                                                offset_from(LIST_HEADSTOP, GREATER_FLAG),
                                            ),
                                            zero_cell(),
                                            Item::Direct(Instruction::Inc),
                                            offset_to_insns(
                                                offset_from(GREATER_FLAG, LIST_START),
                                            ),
                                            Loop::new(
                                                vec![
                                                    Item::Direct(Instruction::Right).repeat(
                                                        ENTRY_WIDTH,
                                                    ),
                                                ],
                                            ).into_item(),
                                            Item::Direct(Instruction::Right).repeat(ENTRY_WIDTH),
                                            offset_to_insns(offset_from(ENTRY_WIDTH, 2)),
                                        ],
                                    ).into_item(),
                                    offset_to_insns(offset_from(2, ENTRY_WIDTH)),
                                ],
                            ),
                            true,
                        ),
                        list_pass(
                            "restore greater markers",
                            Item::Sequence(
                                vec![
                                    Item::Direct(Instruction::Right),
                                    Item::Direct(Instruction::Right),
                                    Item::Direct(Instruction::Right),
                                    drain_to(offs1(-1), true),
                                    offset_to_insns(offset_from(3, ENTRY_WIDTH)),
                                ],
                            ),
                            false,
                        ),
                        offset_to_insns(offset_from(LIST_START, LIST_LOOP_FLAG)),
                        zero_cell(),
                        offset_to_insns(offset_from(LIST_LOOP_FLAG, GREATER_FLAG)),
                        Loop::new(
                            vec![
                                Item::assert_position(GREATER_FLAG, "if greater exists"),
                                zero_cell(),
                                offset_to_insns(offset_from(GREATER_FLAG, LIST_LOOP_FLAG)),
                                Item::Direct(Instruction::Inc),
                                offset_to_insns(offset_from(LIST_LOOP_FLAG, GENERAL_COUNT)),
                                Item::Direct(Instruction::Inc),
                                offset_to_insns(offset_from(GENERAL_COUNT, LIST_START)),
                                list_pass(
                                    "decrement",
                                    Item::Sequence(
                                        vec![
                                            offset_to_insns(
                                                offset_from(ENTRY_EXIST_FLAG, ENTRY_SCRATCH),
                                            ),
                                            zero_cell(),
                                            offset_to_insns(
                                                offset_from(ENTRY_SCRATCH, ENTRY_COUNT),
                                            ),
                                            Item::Direct(Instruction::Left),
                                            Item::Direct(Instruction::Inc),
                                            Item::Direct(Instruction::Right),
                                            Loop::new(
                                                vec![
                                                    drain_to(offs1(-2), true),
                                                    Item::Direct(Instruction::Left),
                                                    Item::Direct(Instruction::Left),
                                                    Item::Direct(Instruction::Dec),
                                                    Item::Direct(Instruction::Right),
                                                    Item::Direct(Instruction::Dec),
                                                    Item::Direct(Instruction::Right),
                                                ],
                                            ).into_item(),
                                            Item::Direct(Instruction::Left),
                                            Item::Direct(Instruction::Left),
                                            drain_to(offs1(2), true),
                                            Item::Direct(Instruction::Right),
                                            Loop::new(
                                                vec![
                                                    zero_cell(),
                                                    offset_to_insns(
                                                        offset_from(
                                                            ENTRY_COUNT - 1,
                                                            ENTRY_MARKED_FLAG,
                                                        ),
                                                    ),
                                                    zero_cell(),
                                                    offset_to_insns(
                                                        offset_from(
                                                            ENTRY_MARKED_FLAG,
                                                            ENTRY_COUNT - 1,
                                                        ),
                                                    ),
                                                ],
                                            ).into_item(),
                                            offset_to_insns(
                                                offset_from(ENTRY_COUNT - 1, ENTRY_WIDTH),
                                            ),
                                        ],
                                    ),
                                    false,
                                ),
                                offset_to_insns(offset_from(LIST_START, GREATER_FLAG)),
                            ],
                        ).into_item(),
                        Item::assert_position(GREATER_FLAG, "after loop check"),
                        offset_to_insns(offset_from(GREATER_FLAG, LIST_LOOP_FLAG)),
                    ],
                ).indent().into_item(),
                Item::assert_position(LIST_LOOP_FLAG, "after loop"),
                offset_to_insns(offset_from(LIST_LOOP_FLAG, LIST_START)),
                list_pass(
                    "copy out first maximal IP",
                    Item::Sequence(
                        vec![
                            Item::Direct(Instruction::Right),
                            Loop::new(
                                vec![
                                    Item::Direct(Instruction::Left),
                                    Item::assert_marker_offset(
                                        "current item",
                                        ENTRY_EXIST_FLAG as isize,
                                        "exist flag",
                                    ),
                                    Item::add_marker("target IP", "output"),
                                    zero_cell(),
                                    pull_back(0),
                                    pull_back(1),
                                    pull_back(2),
                                    pull_back(3),
                                    Item::Direct(Instruction::Inc),
                                    Item::remove_marker("target IP"),
                                    Loop::new(
                                        vec![
                                            Item::Direct(Instruction::Right).repeat(ENTRY_WIDTH),
                                        ],
                                    ).into_item(),
                                    Item::Direct(Instruction::Right).repeat(ENTRY_WIDTH),
                                    offset_to_insns(offset_from(ENTRY_WIDTH, 1)),
                                ],
                            ).into_item(),
                            offset_to_insns(offset_from(1, ENTRY_WIDTH)),
                        ],
                    ),
                    true,
                ),
                list_pass(
                    "count targets",
                    Item::Sequence(
                        vec![
                            Item::Direct(Instruction::Right),
                            Loop::new(
                                vec![
                                    zero_cell(),
                                    Item::Direct(Instruction::Left),
                                    Item::assert_marker_offset(
                                        "current item",
                                        ENTRY_EXIST_FLAG as isize,
                                        "exist flag",
                                    ),
                                    Item::add_marker("current target", "output"),
                                    zero_cell(),
                                    Item::Direct(Instruction::Left).repeat(ENTRY_WIDTH),
                                    Loop::new(
                                        vec![
                                            Item::Direct(Instruction::Left).repeat(ENTRY_WIDTH),
                                        ],
                                    ).into_item(),
                                    Item::assert_position(LIST_HEADSTOP, "return to headstop"),
                                    offset_to_insns(offset_from(LIST_HEADSTOP, TARGET_COUNT)),
                                    Item::Direct(Instruction::Inc),
                                    offset_to_insns(offset_from(TARGET_COUNT, LIST_START)),
                                    Loop::new(
                                        vec![
                                            Item::Direct(Instruction::Right).repeat(ENTRY_WIDTH),
                                        ],
                                    ).into_item(),
                                    Item::assert_marker_offset(
                                        "current target",
                                        0,
                                        "return to target",
                                    ),
                                    Item::Direct(Instruction::Inc),
                                    Item::remove_marker("current target"),
                                    Item::Direct(Instruction::Right),
                                ],
                            ).into_item(),
                            offset_to_insns(offset_from(1, ENTRY_WIDTH)),
                        ],
                    ),
                    true,
                ),
                Item::Sequence(
                    vec![zero_cell(), Item::Direct(Instruction::Right)],
                ).repeat(ENTRY_WIDTH),
                offset_to_insns(offset_from(LIST_START + ENTRY_WIDTH, TEXT_SPACE)),
                wt_most_popular,
                offset_to_insns(offset_from(TEXT_SPACE, TARGET_COUNT - 1)),
                Item::Direct(Instruction::Inc),
                Item::Direct(Instruction::Right),
                // three extra destinations are pretended here, so the
                // plural wording path is always exercised; the printed
                // count of other destinations is inflated by the same three
                Item::Direct(Instruction::Inc),
                Item::Direct(Instruction::Inc),
                Item::Direct(Instruction::Inc),
                Item::Direct(Instruction::Dec),
                Loop::new(
                    vec![
                        offset_to_insns(offset_from(TARGET_COUNT, TEXT_SPACE)),
                        wt_dests_were,
                        offset_to_insns(offset_from(TEXT_SPACE, TARGET_COUNT)),
                        drain_to(offs1(-2), true),
                        Item::Direct(Instruction::Left),
                        Item::Direct(Instruction::Dec),
                        Item::Direct(Instruction::Right),
                    ],
                ).into_item(),
                Item::Direct(Instruction::Left),
                Loop::new(
                    vec![
                        zero_cell(),
                        offset_to_insns(offset_from(TARGET_COUNT - 1, TEXT_SPACE)),
                        wt_dest_was,
                        offset_to_insns(offset_from(TEXT_SPACE, TARGET_COUNT - 1)),
                    ],
                ).into_item(),
                offset_to_insns(offset_from(TARGET_COUNT - 1, FOUND_IP - 8)),
                Item::Direct(Instruction::Left),
                Item::Sequence(
                    vec![
                        Item::Direct(Instruction::Right),
                        Item::Direct(Instruction::Inc).repeat(2),
                    ],
                ).repeat(4),
                Item::Direct(Instruction::Dec),
                Item::Direct(Instruction::Left).repeat(9),
                Item::parse("+++++++[>+++++++<-]>---")?,
                drain_to(offs4(1, 1, 1, 1), true),
                offset_to_insns(5),
                Loop::new(
                    vec![
                        Item::Direct(Instruction::Dec),
                        offset_to_insns(8),
                        drain_to(offs1(6), true),
                        offset_to_insns(6),
                        pdc_ip,
                        zero_cell(),
                        offset_to_insns(-14),
                        Loop::new(
                            vec![
                                zero_cell(),
                                offset_to_insns(-4),
                                Item::Direct(Instruction::Output),
                                offset_to_insns(4),
                            ],
                        ).into_item(),
                        Item::Direct(Instruction::Right),
                    ],
                ).indent().into_item(),
                Item::assert_position(TARGET_COUNT - 2 - 1, "after IP output"),
                offset_to_insns(-5),
                Loop::new(vec![zero_cell(), Item::Direct(Instruction::Left)]).into_item(),
                Item::assert_position(TARGET_COUNT - 2 - 10, "after IP cleanup"),
                offset_to_insns(offset_from(TARGET_COUNT - 2 - 10, TARGET_COUNT - 2)),
                Item::Direct(Instruction::Left),
                Item::Direct(Instruction::Left),
                Item::parse("+++++++++++[>++++++++++<-]>+++++")?,
                Item::Direct(Instruction::Right),
                Loop::new(
                    vec![
                        offset_to_insns(offset_from(TARGET_COUNT - 2, TEXT_SPACE)),
                        wt_and,
                        offset_to_insns(offset_from(TEXT_SPACE, TARGET_COUNT - 2)),
                        pdc_other,
                        offset_to_insns(offset_from(TARGET_COUNT - 2, TEXT_SPACE)),
                        wt_other,
                        Item::Direct(Instruction::Left),
                        Item::Direct(Instruction::Inc),
                        Item::Direct(Instruction::Right),
                        offset_to_insns(offset_from(TEXT_SPACE, TARGET_COUNT - 2)),
                        Item::Direct(Instruction::Dec),
                        Loop::new(
                            vec![
                                zero_cell(),
                                Item::Direct(Instruction::Left),
                                Item::Direct(Instruction::Output),
                                Item::Direct(Instruction::Right),
                            ],
                        ).into_item(),
                    ],
                ).into_item(),
                offset_to_insns(offset_from(TARGET_COUNT - 2, TEXT_SPACE)),
                wt_with,
                offset_to_insns(offset_from(TEXT_SPACE, GENERAL_COUNT)),
                pdc_count,
                offset_to_insns(offset_from(GENERAL_COUNT, TEXT_SPACE)),
                wt_packet,
                offset_to_insns(offset_from(TEXT_SPACE, GENERAL_COUNT)),
                Item::Direct(Instruction::Dec),
                Loop::new(
                    vec![
                        zero_cell(),
                        offset_to_insns(-9),
                        Item::Direct(Instruction::Output),
                        offset_to_insns(9),
                    ],
                ).into_item(),
                offset_to_insns(offset_from(GENERAL_COUNT, TEXT_SPACE - 1)),
                Loop::new(vec![zero_cell(), wt_each]).into_item(),
                wt_newline,
            ],
        ),
    )
}

/// The whole statistics program, ready to lower and link: discard the file
/// header, lay out the counters, run the packet loop, and print the
/// summary.  The first four fragments are stated exactly; the output
/// fragment embeds generated text whose validity `output` itself reports.
pub fn statistics_program() -> (r: Result<Vec<Item>, ParseError>)
    ensures
        r is Ok,
        r matches Ok(items) ==> items_view(items@).len() == 5 && items_view(items@)[0]
            == discard_header_item() && items_view(items@)[1] == setup_state_item()
            && items_view(items@)[2] == ItemV::AssertPosition(
            PACKET_LOOP_START as nat,
            "start"@,
        ) && items_view(items@)[3] == read_packet_loop_item(),
{
    let mut items: Vec<Item> = Vec::new();
    items.push(discard_header());
    items.push(setup_state());
    items.push(Item::assert_position(PACKET_LOOP_START, "start"));
    items.push(read_packet_loop());
    let tail = output()?;
    items.push(tail);
    proof {
        lemma_items_view(items@);
        assert(items@.len() == 5);
        assert(items_view(items@)[0] == item_view(items@[0]));
        assert(items_view(items@)[1] == item_view(items@[1]));
        assert(items_view(items@)[2] == item_view(items@[2]));
        assert(items_view(items@)[3] == item_view(items@[3]));
    }
    Ok(items)
}

} // verus!
