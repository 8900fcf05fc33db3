//! The numeric macro family: build-time recursion that emits multi-cell
//! add/sub fragments with carry and borrow propagation.
//!
//! A number is `WIDTH` consecutive cells, most significant at the lowest
//! index, each holding one base-`B` digit; the head rests on the least
//! significant cell, with two scratch cells at `head + scratch_offset`.
//! The recursion unrolls one level per digit: prepare the level's scratch
//! flag, perform the digit operation, and run a two-loop zero check whose
//! else-branch recurses into the next more significant digit and then
//! applies the base's wrap adjustment.  Carrying past the most significant
//! digit emits a position assertion that always fails at run time, with the
//! message `arithmetic overflow`.
//!
//! [`operate_level_item`] and [`operate_item`] state the emitted fragments
//! exactly; the builders are proved to return precisely those fragments.

use vstd::prelude::*;
use vstd::string::{StringExecFns, StringSliceAdditionalSpecFns};

use crate::inst::Instruction;
use crate::ir::{
    Item, ItemV, Loop, LoopV, bracket_free, bracket_free_all, item_view, items_view,
    lemma_bracket_free_all_index, lemma_bracket_free_offset_move, lemma_items_view, offset_move,
    offset_to_insns, zero_cell, zero_cell_item,
};
use crate::text::{dec_digits, push_dec};

verus! {

/// One member of the numeric macro family: a name for diagnostics, a digit
/// width, the per-digit operation, the wrap adjustment applied after a
/// carry or borrow, and whether the zero check precedes the operation.
pub trait NumericOperation {
    /// The number of digit cells.
    spec fn spec_width() -> nat;

    /// Whether the zero check runs before the operation (subtraction
    /// detects a borrow on the digit before decrementing it).
    spec fn spec_zero_check_first() -> bool;

    /// The name used in markers and comments, mathematically.
    spec fn spec_name() -> Seq<char>;

    /// The per-digit operation, mathematically.
    spec fn spec_operation() -> ItemV;

    /// The wrap adjustment, mathematically.
    spec fn spec_zero_reset() -> ItemV;

    /// The name used in markers and comments.
    fn name() -> (r: String)
        ensures
            r@ == Self::spec_name(),
    ;

    /// The number of digit cells.
    fn width() -> (r: usize)
        ensures
            r as nat == Self::spec_width(),
    ;

    /// Whether the zero check precedes the operation.
    fn zero_check_first() -> (r: bool)
        ensures
            r == Self::spec_zero_check_first(),
    ;

    /// The per-digit primitive: increment for add, decrement for sub.
    fn operation() -> (r: Item)
        ensures
            r@ == Self::spec_operation(),
            bracket_free(r@),
    ;

    /// The adjustment run on a digit whose update wrapped modulo the base:
    /// empty for base 256, ten corrections for base 10.
    fn zero_reset() -> (r: Item)
        ensures
            r@ == Self::spec_zero_reset(),
            bracket_free(r@),
    ;
}

/// The canonical zero-to-a-cell loops are bracket-free: their brackets
/// come from the loop node itself.
proof fn lemma_bracket_free_cell_loop(ins: Instruction)
    requires
        ins != Instruction::Start,
        ins != Instruction::End,
    ensures
        bracket_free(ItemV::Loop(LoopV { body: seq![ItemV::Direct(ins)], change_indent: false })),
{
    lemma_bracket_free_all_index(seq![ItemV::Direct(ins)]);
    assert(bracket_free(ItemV::Direct(ins)));
}

/// The marker name of an operation: its name, and for one level of the
/// recursion, the digit depth.
pub open spec fn operate_marker_text(name: Seq<char>, level: Option<nat>) -> Seq<char> {
    match level {
        Some(depth) => "operation "@ + name + " level "@ + dec_digits(depth),
        None => "operation "@ + name,
    }
}

/// The comment text of one recursion level.
pub open spec fn operate_comment_text(name: Seq<char>, depth: nat, width: nat) -> Seq<char> {
    name + " {depth="@ + dec_digits(depth) + "/"@ + dec_digits(width) + "}"@
}

fn operate_marker_name<N: NumericOperation>(level: Option<u64>) -> (r: String)
    ensures
        r@ == operate_marker_text(
            N::spec_name(),
            match level {
                Some(depth) => Some(depth as nat),
                None => None,
            },
        ),
{
    let mut name = "operation ".to_owned();
    let op_name = N::name();
    name.append(op_name.as_str());
    if let Some(depth) = level {
        name.append(" level ");
        push_dec(depth, &mut name);
        proof {
            assert(name@ =~= "operation "@ + N::spec_name() + " level "@ + dec_digits(
                depth as nat,
            ));
        }
    } else {
        proof {
            assert(name@ =~= "operation "@ + N::spec_name());
        }
    }
    name
}

fn operate_comment<N: NumericOperation>(depth: u64, width: u64) -> (r: String)
    ensures
        r@ == operate_comment_text(N::spec_name(), depth as nat, width as nat),
{
    let mut text = N::name();
    text.append(" {depth=");
    push_dec(depth, &mut text);
    text.append("/");
    push_dec(width, &mut text);
    text.append("}");
    proof {
        assert(text@ =~= operate_comment_text(N::spec_name(), depth as nat, width as nat));
    }
    text
}

/// The fragment emitted for one level of the recursion, exactly: the
/// level comment and marker, the scratch prep, the per-digit operation and
/// the two-loop zero check in the variant's order (the else branch
/// recurses into the next digit and applies the wrap adjustment, or emits
/// the always-failing overflow assertion at depth zero), and the level's
/// position assertions.
pub open spec fn operate_level_item<N: NumericOperation>(space: nat, so: int) -> ItemV
    decreases space,
{
    let depth = (N::spec_width() - space) as nat;
    let marker = operate_marker_text(N::spec_name(), Some(depth));
    let prep = ItemV::Sequence(
        seq![
            offset_move(so),
            zero_cell_item(),
            ItemV::Direct(Instruction::Inc),
            offset_move(-so),
        ],
    );
    let else_body: Seq<ItemV> = if space != 0 {
        seq![
            offset_move(-so),
            ItemV::Direct(Instruction::Left),
            ItemV::AssertRelativePosition(marker, -1, "before recursion"@),
            operate_level_item::<N>((space - 1) as nat, so + 1),
            ItemV::AssertRelativePosition(marker, -1, "after recursion"@),
            ItemV::Direct(Instruction::Right),
            N::spec_zero_reset(),
            ItemV::Direct(Instruction::Right),
            offset_move(so),
        ]
    } else {
        seq![ItemV::AssertPosition(usize::MAX as nat, "arithmetic overflow"@)]
    };
    let zero_check = ItemV::Sequence(
        seq![
            ItemV::Loop(
                LoopV {
                    body: seq![
                        offset_move(so),
                        ItemV::Direct(Instruction::Dec),
                        offset_move(-so),
                        ItemV::Direct(Instruction::Right),
                    ],
                    change_indent: true,
                },
            ),
            offset_move(so),
            ItemV::Loop(LoopV { body: else_body, change_indent: true }),
            offset_move(-so - 1),
        ],
    );
    let comment = ItemV::Comment(operate_comment_text(N::spec_name(), depth, N::spec_width()), 10);
    let parts: Seq<ItemV> = if N::spec_zero_check_first() {
        seq![
            comment,
            ItemV::AddMarker(marker, "operate_level"@),
            prep,
            ItemV::AssertRelativePosition(marker, 0, "after prep"@),
            zero_check,
            ItemV::AssertRelativePosition(marker, 0, "after zero check"@),
            N::spec_operation(),
            ItemV::AssertRelativePosition(marker, 0, "after operation"@),
            ItemV::AssertRelativePosition(marker, 0, "after level"@),
            ItemV::RemoveMarker(marker),
        ]
    } else {
        seq![
            comment,
            ItemV::AddMarker(marker, "operate_level"@),
            prep,
            ItemV::AssertRelativePosition(marker, 0, "after prep"@),
            N::spec_operation(),
            ItemV::AssertRelativePosition(marker, 0, "after operation"@),
            zero_check,
            ItemV::AssertRelativePosition(marker, 0, "after zero check"@),
            ItemV::AssertRelativePosition(marker, 0, "after level"@),
            ItemV::RemoveMarker(marker),
        ]
    };
    ItemV::Sequence(parts)
}

/// The whole operation's fragment, exactly: its marker placed, the two
/// scratch cells cleared, the level recursion unrolled from the least
/// significant digit, and the head-restored assertion before the marker is
/// removed.
pub open spec fn operate_item<N: NumericOperation>(so: int) -> ItemV {
    let marker = operate_marker_text(N::spec_name(), None);
    ItemV::Sequence(
        seq![
            ItemV::AddMarker(marker, "operate"@),
            offset_move(so),
            zero_cell_item(),
            ItemV::Direct(Instruction::Right),
            zero_cell_item(),
            ItemV::Direct(Instruction::Left),
            offset_move(-so),
            operate_level_item::<N>((N::spec_width() - 1) as nat, so),
            ItemV::AssertRelativePosition(marker, 0, "after total operation"@),
            ItemV::RemoveMarker(marker),
        ],
    )
}

/// One level of the build-time recursion: handle the digit `WIDTH - space`
/// (most significant first), recursing into the next more significant digit
/// when the zero check detects a carry or borrow, and emitting the
/// always-failing overflow assertion when `space` reaches zero.  The
/// result is exactly [`operate_level_item`], and it is bracket-free, so a
/// program composed from it always links.
pub fn operate_level<N: NumericOperation>(space: usize, scratch_offset: isize) -> (r: Item)
    requires
        (space as int) < N::spec_width(),
        scratch_offset as int + space as int + 1 <= isize::MAX as int,
        -(isize::MAX as int) <= scratch_offset as int,
    ensures
        r@ == operate_level_item::<N>(space as nat, scratch_offset as int),
        bracket_free(r@),
    decreases space,
{
    let width = N::width();
    let depth = width - space;
    let neg_so: isize = -scratch_offset;
    let neg_so_next: isize = -scratch_offset - 1;
    let marker_name = operate_marker_name::<N>(Some(depth as u64));
    let ghost so = scratch_offset as int;
    let ghost marker = operate_marker_text(N::spec_name(), Some(depth as nat));
    proof {
        lemma_bracket_free_offset_move(so);
        lemma_bracket_free_offset_move(neg_so as int);
        lemma_bracket_free_offset_move(neg_so_next as int);
        lemma_bracket_free_cell_loop(Instruction::Dec);
        assert(bracket_free(ItemV::Direct(Instruction::Inc)));
        assert(bracket_free(ItemV::Direct(Instruction::Dec)));
        assert(bracket_free(ItemV::Direct(Instruction::Left)));
        assert(bracket_free(ItemV::Direct(Instruction::Right)));
    }

    let prep_items = vec![
        offset_to_insns(scratch_offset),
        zero_cell(),
        Item::Direct(Instruction::Inc),
        offset_to_insns(neg_so),
    ];
    proof {
        lemma_items_view(prep_items@);
        assert(items_view(prep_items@) =~= seq![
            offset_move(so),
            zero_cell_item(),
            ItemV::Direct(Instruction::Inc),
            offset_move(-so),
        ]);
        lemma_bracket_free_all_index(items_view(prep_items@));
    }
    let prep = Item::Sequence(prep_items);
    proof {
        assert(bracket_free(prep@));
    }

    let else_body: Vec<Item> = if space != 0 {
        let v = vec![
            offset_to_insns(neg_so),
            Item::Direct(Instruction::Left),
            Item::assert_marker_offset(marker_name.as_str(), -1, "before recursion"),
            operate_level::<N>(space - 1, scratch_offset + 1),
            Item::assert_marker_offset(marker_name.as_str(), -1, "after recursion"),
            Item::Direct(Instruction::Right),
            N::zero_reset(),
            Item::Direct(Instruction::Right),
            offset_to_insns(scratch_offset),
        ];
        proof {
            lemma_items_view(v@);
            assert(items_view(v@) =~= seq![
                offset_move(-so),
                ItemV::Direct(Instruction::Left),
                ItemV::AssertRelativePosition(marker, -1, "before recursion"@),
                operate_level_item::<N>((space - 1) as nat, so + 1),
                ItemV::AssertRelativePosition(marker, -1, "after recursion"@),
                ItemV::Direct(Instruction::Right),
                N::spec_zero_reset(),
                ItemV::Direct(Instruction::Right),
                offset_move(so),
            ]);
            lemma_bracket_free_all_index(items_view(v@));
        }
        v
    } else {
        let v = vec![Item::assert_position(usize::MAX, "arithmetic overflow")];
        proof {
            lemma_items_view(v@);
            assert(items_view(v@) =~= seq![
                ItemV::AssertPosition(usize::MAX as nat, "arithmetic overflow"@),
            ]);
            lemma_bracket_free_all_index(items_view(v@));
        }
        v
    };

    let check_loop_items = vec![
        offset_to_insns(scratch_offset),
        Item::Direct(Instruction::Dec),
        offset_to_insns(neg_so),
        Item::Direct(Instruction::Right),
    ];
    proof {
        lemma_items_view(check_loop_items@);
        assert(items_view(check_loop_items@) =~= seq![
            offset_move(so),
            ItemV::Direct(Instruction::Dec),
            offset_move(-so),
            ItemV::Direct(Instruction::Right),
        ]);
        lemma_bracket_free_all_index(items_view(check_loop_items@));
    }

    let zero_check_items = vec![
        Loop::new(check_loop_items).indent().into_item(),
        offset_to_insns(scratch_offset),
        Loop::new(else_body).indent().into_item(),
        offset_to_insns(neg_so_next),
    ];
    proof {
        lemma_items_view(zero_check_items@);
        assert(items_view(zero_check_items@) =~= seq![
            ItemV::Loop(
                LoopV {
                    body: seq![
                        offset_move(so),
                        ItemV::Direct(Instruction::Dec),
                        offset_move(-so),
                        ItemV::Direct(Instruction::Right),
                    ],
                    change_indent: true,
                },
            ),
            offset_move(so),
            ItemV::Loop(
                LoopV {
                    body: if space != 0 {
                        seq![
                            offset_move(-so),
                            ItemV::Direct(Instruction::Left),
                            ItemV::AssertRelativePosition(marker, -1, "before recursion"@),
                            operate_level_item::<N>((space - 1) as nat, so + 1),
                            ItemV::AssertRelativePosition(marker, -1, "after recursion"@),
                            ItemV::Direct(Instruction::Right),
                            N::spec_zero_reset(),
                            ItemV::Direct(Instruction::Right),
                            offset_move(so),
                        ]
                    } else {
                        seq![ItemV::AssertPosition(usize::MAX as nat, "arithmetic overflow"@)]
                    },
                    change_indent: true,
                },
            ),
            offset_move(-so - 1),
        ]);
        lemma_bracket_free_all_index(items_view(zero_check_items@));
    }
    let zero_check = Item::Sequence(zero_check_items);
    proof {
        assert(bracket_free(zero_check@));
    }

    let comment = Item::Comment(operate_comment::<N>(depth as u64, width as u64), 10);
    let op = N::operation();

    let v: Vec<Item> = if N::zero_check_first() {
        let v = vec![
            comment,
            Item::add_marker(marker_name.as_str(), "operate_level"),
            prep,
            Item::assert_marker_offset(marker_name.as_str(), 0, "after prep"),
            zero_check,
            Item::assert_marker_offset(marker_name.as_str(), 0, "after zero check"),
            op,
            Item::assert_marker_offset(marker_name.as_str(), 0, "after operation"),
            Item::assert_marker_offset(marker_name.as_str(), 0, "after level"),
            Item::remove_marker(marker_name.as_str()),
        ];
        proof {
            lemma_items_view(v@);
            assert(items_view(v@) =~= seq![
                ItemV::Comment(
                    operate_comment_text(N::spec_name(), depth as nat, N::spec_width()),
                    10,
                ),
                ItemV::AddMarker(marker, "operate_level"@),
                prep@,
                ItemV::AssertRelativePosition(marker, 0, "after prep"@),
                zero_check@,
                ItemV::AssertRelativePosition(marker, 0, "after zero check"@),
                N::spec_operation(),
                ItemV::AssertRelativePosition(marker, 0, "after operation"@),
                ItemV::AssertRelativePosition(marker, 0, "after level"@),
                ItemV::RemoveMarker(marker),
            ]);
            lemma_bracket_free_all_index(items_view(v@));
        }
        v
    } else {
        let v = vec![
            comment,
            Item::add_marker(marker_name.as_str(), "operate_level"),
            prep,
            Item::assert_marker_offset(marker_name.as_str(), 0, "after prep"),
            op,
            Item::assert_marker_offset(marker_name.as_str(), 0, "after operation"),
            zero_check,
            Item::assert_marker_offset(marker_name.as_str(), 0, "after zero check"),
            Item::assert_marker_offset(marker_name.as_str(), 0, "after level"),
            Item::remove_marker(marker_name.as_str()),
        ];
        proof {
            lemma_items_view(v@);
            assert(items_view(v@) =~= seq![
                ItemV::Comment(
                    operate_comment_text(N::spec_name(), depth as nat, N::spec_width()),
                    10,
                ),
                ItemV::AddMarker(marker, "operate_level"@),
                prep@,
                ItemV::AssertRelativePosition(marker, 0, "after prep"@),
                N::spec_operation(),
                ItemV::AssertRelativePosition(marker, 0, "after operation"@),
                zero_check@,
                ItemV::AssertRelativePosition(marker, 0, "after zero check"@),
                ItemV::AssertRelativePosition(marker, 0, "after level"@),
                ItemV::RemoveMarker(marker),
            ]);
            lemma_bracket_free_all_index(items_view(v@));
        }
        v
    };

    let r = Item::Sequence(v);
    proof {
        assert(r@ == operate_level_item::<N>(space as nat, so));
    }
    r
}

/// The whole numeric operation as one head-neutral fragment: place a
/// marker, clear the two scratch cells at `head + scratch_offset`, unroll
/// the per-digit recursion, assert that the head is back where it started,
/// and remove the marker.  The result is exactly [`operate_item`], and it
/// is bracket-free, so a program composed from it always links.
pub fn operate<N: NumericOperation>(scratch_offset: isize) -> (r: Item)
    requires
        N::spec_width() >= 1,
        scratch_offset as int + N::spec_width() <= isize::MAX as int,
        -(isize::MAX as int) <= scratch_offset as int,
    ensures
        r@ == operate_item::<N>(scratch_offset as int),
        bracket_free(r@),
{
    let width = N::width();
    let neg_so: isize = -scratch_offset;
    let marker_name = operate_marker_name::<N>(None);
    let ghost so = scratch_offset as int;
    let ghost marker = operate_marker_text(N::spec_name(), None);
    proof {
        lemma_bracket_free_offset_move(so);
        lemma_bracket_free_offset_move(neg_so as int);
        lemma_bracket_free_cell_loop(Instruction::Dec);
        assert(bracket_free(ItemV::Direct(Instruction::Left)));
        assert(bracket_free(ItemV::Direct(Instruction::Right)));
    }
    let v = vec![
        Item::add_marker(marker_name.as_str(), "operate"),
        offset_to_insns(scratch_offset),
        zero_cell(),
        Item::Direct(Instruction::Right),
        zero_cell(),
        Item::Direct(Instruction::Left),
        offset_to_insns(neg_so),
        operate_level::<N>(width - 1, scratch_offset),
        Item::assert_marker_offset(marker_name.as_str(), 0, "after total operation"),
        Item::remove_marker(marker_name.as_str()),
    ];
    proof {
        lemma_items_view(v@);
        assert(items_view(v@) =~= seq![
            ItemV::AddMarker(marker, "operate"@),
            offset_move(so),
            zero_cell_item(),
            ItemV::Direct(Instruction::Right),
            zero_cell_item(),
            ItemV::Direct(Instruction::Left),
            offset_move(-so),
            operate_level_item::<N>((N::spec_width() - 1) as nat, so),
            ItemV::AssertRelativePosition(marker, 0, "after total operation"@),
            ItemV::RemoveMarker(marker),
        ]);
        lemma_bracket_free_all_index(items_view(v@));
    }
    Item::Sequence(v)
}

/// Base-256 addition of one to a `N`-cell number.
pub struct ByteAdd<const N: usize>;

/// Base-256 subtraction of one from a `N`-cell number.
pub struct ByteSub<const N: usize>;

/// Base-10 addition of one to a `N`-digit number.
pub struct DecimalAdd<const N: usize>;

/// Base-10 subtraction of one from a `N`-digit number.
pub struct DecimalSub<const N: usize>;

fn empty_sequence() -> (r: Item)
    ensures
        r@ == ItemV::Sequence(Seq::<ItemV>::empty()),
        bracket_free(r@),
{
    let v: Vec<Item> = Vec::new();
    proof {
        assert(items_view(v@) =~= Seq::<ItemV>::empty());
        assert(bracket_free_all(Seq::<ItemV>::empty()));
    }
    Item::Sequence(v)
}

fn repeated_direct(ins: Instruction, count: usize) -> (r: Item)
    requires
        ins != Instruction::Start,
        ins != Instruction::End,
    ensures
        r@ == ItemV::Sequence(Seq::new(count as nat, |k: int| ItemV::Direct(ins))),
        bracket_free(r@),
{
    let mut v: Vec<Item> = Vec::new();
    #[verifier::loop_isolation(false)]
    for done in 0..count
        invariant
            v@.len() == done,
            forall|k: int| 0 <= k < v@.len() ==> item_view(#[trigger] v@[k]) == ItemV::Direct(ins),
    {
        v.push(Item::Direct(ins));
    }
    proof {
        lemma_items_view(v@);
        assert(items_view(v@) =~= Seq::new(count as nat, |k: int| ItemV::Direct(ins)));
        lemma_bracket_free_all_index(items_view(v@));
        assert(bracket_free(ItemV::Direct(ins)));
        assert forall|k: int| 0 <= k < items_view(v@).len() implies bracket_free(
            #[trigger] items_view(v@)[k],
        ) by {
            assert(items_view(v@)[k] == item_view(v@[k]));
        };
    }
    Item::Sequence(v)
}

impl<const N: usize> NumericOperation for ByteAdd<N> {
    open spec fn spec_width() -> nat {
        N as nat
    }

    open spec fn spec_zero_check_first() -> bool {
        false
    }

    open spec fn spec_name() -> Seq<char> {
        "add"@
    }

    open spec fn spec_operation() -> ItemV {
        ItemV::Direct(Instruction::Inc)
    }

    open spec fn spec_zero_reset() -> ItemV {
        ItemV::Sequence(Seq::<ItemV>::empty())
    }

    fn name() -> (r: String)
        ensures
            r@ == Self::spec_name(),
    {
        "add".to_owned()
    }

    fn width() -> (r: usize)
        ensures
            r as nat == Self::spec_width(),
    {
        N
    }

    fn zero_check_first() -> (r: bool)
        ensures
            r == Self::spec_zero_check_first(),
    {
        false
    }

    fn operation() -> (r: Item)
        ensures
            r@ == Self::spec_operation(),
            bracket_free(r@),
    {
        Item::Direct(Instruction::Inc)
    }

    fn zero_reset() -> (r: Item)
        ensures
            r@ == Self::spec_zero_reset(),
            bracket_free(r@),
    {
        empty_sequence()
    }
}

impl<const N: usize> NumericOperation for ByteSub<N> {
    open spec fn spec_width() -> nat {
        N as nat
    }

    open spec fn spec_zero_check_first() -> bool {
        true
    }

    open spec fn spec_name() -> Seq<char> {
        "sub"@
    }

    open spec fn spec_operation() -> ItemV {
        ItemV::Direct(Instruction::Dec)
    }

    open spec fn spec_zero_reset() -> ItemV {
        ItemV::Sequence(Seq::<ItemV>::empty())
    }

    fn name() -> (r: String)
        ensures
            r@ == Self::spec_name(),
    {
        "sub".to_owned()
    }

    fn width() -> (r: usize)
        ensures
            r as nat == Self::spec_width(),
    {
        N
    }

    fn zero_check_first() -> (r: bool)
        ensures
            r == Self::spec_zero_check_first(),
    {
        true
    }

    fn operation() -> (r: Item)
        ensures
            r@ == Self::spec_operation(),
            bracket_free(r@),
    {
        Item::Direct(Instruction::Dec)
    }

    fn zero_reset() -> (r: Item)
        ensures
            r@ == Self::spec_zero_reset(),
            bracket_free(r@),
    {
        empty_sequence()
    }
}

impl<const N: usize> NumericOperation for DecimalAdd<N> {
    open spec fn spec_width() -> nat {
        N as nat
    }

    open spec fn spec_zero_check_first() -> bool {
        false
    }

    open spec fn spec_name() -> Seq<char> {
        "decimal add"@
    }

    open spec fn spec_operation() -> ItemV {
        ItemV::Direct(Instruction::Inc)
    }

    open spec fn spec_zero_reset() -> ItemV {
        ItemV::Sequence(Seq::new(10, |k: int| ItemV::Direct(Instruction::Dec)))
    }

    fn name() -> (r: String)
        ensures
            r@ == Self::spec_name(),
    {
        "decimal add".to_owned()
    }

    fn width() -> (r: usize)
        ensures
            r as nat == Self::spec_width(),
    {
        N
    }

    fn zero_check_first() -> (r: bool)
        ensures
            r == Self::spec_zero_check_first(),
    {
        false
    }

    fn operation() -> (r: Item)
        ensures
            r@ == Self::spec_operation(),
            bracket_free(r@),
    {
        Item::Direct(Instruction::Inc)
    }

    fn zero_reset() -> (r: Item)
        ensures
            r@ == Self::spec_zero_reset(),
            bracket_free(r@),
    {
        repeated_direct(Instruction::Dec, 10)
    }
}

impl<const N: usize> NumericOperation for DecimalSub<N> {
    open spec fn spec_width() -> nat {
        N as nat
    }

    open spec fn spec_zero_check_first() -> bool {
        true
    }

    open spec fn spec_name() -> Seq<char> {
        "decimal sub"@
    }

    open spec fn spec_operation() -> ItemV {
        ItemV::Direct(Instruction::Dec)
    }

    open spec fn spec_zero_reset() -> ItemV {
        ItemV::Sequence(Seq::new(10, |k: int| ItemV::Direct(Instruction::Inc)))
    }

    fn name() -> (r: String)
        ensures
            r@ == Self::spec_name(),
    {
        "decimal sub".to_owned()
    }

    fn width() -> (r: usize)
        ensures
            r as nat == Self::spec_width(),
    {
        N
    }

    fn zero_check_first() -> (r: bool)
        ensures
            r == Self::spec_zero_check_first(),
    {
        true
    }

    fn operation() -> (r: Item)
        ensures
            r@ == Self::spec_operation(),
            bracket_free(r@),
    {
        Item::Direct(Instruction::Dec)
    }

    fn zero_reset() -> (r: Item)
        ensures
            r@ == Self::spec_zero_reset(),
            bracket_free(r@),
    {
        repeated_direct(Instruction::Inc, 10)
    }
}

} // verus!
