//! The program tree (`Item`), the flat action list it lowers to, and the
//! reusable construction helpers (`drain`, `zero_cell`, offset moves).
//!
//! An [`Item`] is a composable program fragment.  Lowering flattens the tree
//! into a linear list of [`InterpreterAction`]s: loop structure survives only
//! as `Start`/`End` instructions, bounded repetition is unrolled, and the
//! build-time annotations (comments, markers, assertions, indent hints) pass
//! through one-to-one.

use vstd::prelude::*;

use vstd::string::StringSliceAdditionalSpecFns;

use crate::inst::Instruction;

verus! {

/// One lowered element: a primitive instruction or a build-time annotation.
///
/// Annotations have no effect on the tape; markers and assertions observe the
/// head position at run time, comments may be echoed to the diagnostic
/// stream, and indent hints are consumed by the pretty-printer alone.
#[derive(Debug, Clone, PartialEq, Eq)]
pub enum InterpreterAction {
    /// A primitive tape-machine instruction.
    Instruction(Instruction),
    /// A comment with an importance level.
    Comment(String, u8),
    /// The end of a commented region (used by the pretty-printer).
    EndComment,
    /// An indent hint: `true` opens a level, `false` closes one.
    Indent(bool),
    /// Record the head position under a name; the second field names the
    /// creation site for diagnostics.  Duplicate placement is fatal.
    AddMarker(String, String),
    /// Forget a named marker; removal of an unknown name is fatal.
    RemoveMarker(String),
    /// Fail unless the head stands exactly on the given cell.
    AssertPosition(usize, String),
    /// Fail unless the head stands at the named marker's position plus the
    /// given offset.
    AssertRelativePosition(String, isize, String),
}

/// The mathematical value of an [`InterpreterAction`].
pub enum ActionV {
    Instr(Instruction),
    Comment(Seq<char>, u8),
    EndComment,
    Indent(bool),
    AddMarker(Seq<char>, Seq<char>),
    RemoveMarker(Seq<char>),
    AssertPosition(nat, Seq<char>),
    AssertRelativePosition(Seq<char>, int, Seq<char>),
}

impl View for InterpreterAction {
    type V = ActionV;

    open spec fn view(&self) -> ActionV {
        match self {
            InterpreterAction::Instruction(i) => ActionV::Instr(*i),
            InterpreterAction::Comment(text, level) => ActionV::Comment(text@, *level),
            InterpreterAction::EndComment => ActionV::EndComment,
            InterpreterAction::Indent(open) => ActionV::Indent(*open),
            InterpreterAction::AddMarker(name, site) => ActionV::AddMarker(name@, site@),
            InterpreterAction::RemoveMarker(name) => ActionV::RemoveMarker(name@),
            InterpreterAction::AssertPosition(cell, message) => ActionV::AssertPosition(
                *cell as nat,
                message@,
            ),
            InterpreterAction::AssertRelativePosition(name, offset, message) => {
                ActionV::AssertRelativePosition(name@, *offset as int, message@)
            },
        }
    }
}

impl DeepView for InterpreterAction {
    type V = ActionV;

    open spec fn deep_view(&self) -> ActionV {
        self.view()
    }
}

/// A loop fragment: a body, plus a flag asking the lowering to wrap the
/// emitted brackets in indent hints.
pub struct Loop {
    /// The fragments inside the brackets.
    pub body: Vec<Item>,
    /// Whether the lowering wraps the brackets in indent hints.
    pub change_indent: bool,
}

/// The mathematical value of a [`Loop`].
pub struct LoopV {
    pub body: Seq<ItemV>,
    pub change_indent: bool,
}

/// A composable program fragment.
pub enum Item {
    /// An ordered list of fragments, emitted in order.
    Sequence(Vec<Item>),
    /// A single primitive instruction.
    Direct(Instruction),
    /// A loop, bracketed by `[` and `]` when lowered.
    Loop(Loop),
    /// A fragment emitted `n` times in a row.
    Repeat { item: Box<Item>, n: usize },
    /// A comment with an importance level.
    Comment(String, u8),
    /// The end of a commented region.
    EndComment,
    /// Place a marker: name, then creation site.
    AddMarker(String, String),
    /// Remove a marker by name.
    RemoveMarker(String),
    /// Assert the head's absolute position.
    AssertPosition(usize, String),
    /// Assert the head's position relative to a marker.
    AssertRelativePosition(String, isize, String),
}

/// The mathematical value of an [`Item`].
pub enum ItemV {
    Sequence(Seq<ItemV>),
    Direct(Instruction),
    Loop(LoopV),
    Repeat(Box<ItemV>, nat),
    Comment(Seq<char>, u8),
    EndComment,
    AddMarker(Seq<char>, Seq<char>),
    RemoveMarker(Seq<char>),
    AssertPosition(nat, Seq<char>),
    AssertRelativePosition(Seq<char>, int, Seq<char>),
}

/// The values of a list of items, in order.
pub open spec fn items_view(s: Seq<Item>) -> Seq<ItemV>
    decreases s,
{
    if s.len() == 0 {
        Seq::empty()
    } else {
        items_view(s.drop_last()).push(item_view(s.last()))
    }
}

/// The value of an [`Item`], structurally.
pub open spec fn item_view(it: Item) -> ItemV
    decreases it,
{
    match it {
        Item::Sequence(items) => ItemV::Sequence(items_view(items@)),
        Item::Direct(i) => ItemV::Direct(i),
        Item::Loop(lp) => ItemV::Loop(
            LoopV { body: items_view(lp.body@), change_indent: lp.change_indent },
        ),
        Item::Repeat { item, n } => ItemV::Repeat(Box::new(item_view(*item)), n as nat),
        Item::Comment(text, level) => ItemV::Comment(text@, level),
        Item::EndComment => ItemV::EndComment,
        Item::AddMarker(name, site) => ItemV::AddMarker(name@, site@),
        Item::RemoveMarker(name) => ItemV::RemoveMarker(name@),
        Item::AssertPosition(cell, message) => ItemV::AssertPosition(cell as nat, message@),
        Item::AssertRelativePosition(name, offset, message) => ItemV::AssertRelativePosition(
            name@,
            offset as int,
            message@,
        ),
    }
}

/// `items_view` maps the list elementwise.
pub proof fn lemma_items_view(s: Seq<Item>)
    ensures
        items_view(s).len() == s.len(),
        forall|i: int| 0 <= i < s.len() ==> items_view(s)[i] == item_view(s[i]),
    decreases s,
{
    if s.len() > 0 {
        lemma_items_view(s.drop_last());
    }
}

/// Appending one item appends its value.
pub proof fn lemma_items_view_push(s: Seq<Item>, x: Item)
    ensures
        items_view(s.push(x)) == items_view(s).push(item_view(x)),
{
    assert(s.push(x).drop_last() =~= s);
    assert(s.push(x).last() == x);
}

impl View for Item {
    type V = ItemV;

    open spec fn view(&self) -> ItemV {
        item_view(*self)
    }
}

/// `s` concatenated with itself `n` times.
pub open spec fn repeat_seq<A>(s: Seq<A>, n: nat) -> Seq<A>
    decreases n,
{
    if n == 0 {
        Seq::empty()
    } else {
        s + repeat_seq(s, (n - 1) as nat)
    }
}

/// The flat action list that an item lowers to.
///
/// Lowering is total and deterministic: a `Sequence` concatenates its parts,
/// a `Repeat` unrolls, a `Loop` brackets its body with `Start`/`End`
/// (optionally wrapped in indent hints), and every other variant passes
/// through as a single action.
pub open spec fn lowered(it: ItemV) -> Seq<ActionV>
    decreases it,
{
    match it {
        ItemV::Sequence(items) => lowered_all(items),
        ItemV::Direct(i) => seq![ActionV::Instr(i)],
        ItemV::Loop(lp) => {
            let open = if lp.change_indent {
                seq![ActionV::Indent(true)]
            } else {
                Seq::<ActionV>::empty()
            };
            let close = if lp.change_indent {
                seq![ActionV::Indent(false)]
            } else {
                Seq::<ActionV>::empty()
            };
            open + seq![ActionV::Instr(Instruction::Start)] + lowered_all(lp.body) + seq![
                ActionV::Instr(Instruction::End),
            ] + close
        },
        ItemV::Repeat(item, n) => repeat_seq(lowered(*item), n),
        ItemV::Comment(text, level) => seq![ActionV::Comment(text, level)],
        ItemV::EndComment => seq![ActionV::EndComment],
        ItemV::AddMarker(name, site) => seq![ActionV::AddMarker(name, site)],
        ItemV::RemoveMarker(name) => seq![ActionV::RemoveMarker(name)],
        ItemV::AssertPosition(cell, message) => seq![ActionV::AssertPosition(cell, message)],
        ItemV::AssertRelativePosition(name, offset, message) => seq![
            ActionV::AssertRelativePosition(name, offset, message),
        ],
    }
}

/// The concatenation of the lowerings of a list of items.
pub open spec fn lowered_all(items: Seq<ItemV>) -> Seq<ActionV>
    decreases items,
{
    if items.len() == 0 {
        Seq::empty()
    } else {
        lowered(items[0]) + lowered_all(items.drop_first())
    }
}

/// Lowering a single-item list is lowering the item.
pub proof fn lemma_lowered_all_one(x: ItemV)
    ensures
        lowered_all(seq![x]) == lowered(x),
{
    assert(lowered_all(Seq::<ItemV>::empty()) == Seq::<ActionV>::empty());
    assert(seq![x].drop_first() =~= Seq::<ItemV>::empty());
    assert(lowered_all(seq![x]) =~= lowered(x) + Seq::<ActionV>::empty());
    assert(lowered(x) + Seq::<ActionV>::empty() =~= lowered(x));
}

/// Lowering distributes over concatenation of item lists.
pub proof fn lemma_lowered_all_concat(a: Seq<ItemV>, b: Seq<ItemV>)
    ensures
        lowered_all(a + b) == lowered_all(a) + lowered_all(b),
    decreases a,
{
    if a.len() == 0 {
        assert(a + b =~= b);
        assert(lowered_all(a) == Seq::<ActionV>::empty());
        assert(lowered_all(a) + lowered_all(b) =~= lowered_all(b));
    } else {
        assert((a + b).len() > 0);
        assert((a + b)[0] == a[0]);
        assert((a + b).drop_first() =~= a.drop_first() + b);
        lemma_lowered_all_concat(a.drop_first(), b);
        assert(lowered(a[0]) + (lowered_all(a.drop_first()) + lowered_all(b)) =~= (lowered(a[0])
            + lowered_all(a.drop_first())) + lowered_all(b));
    }
}

/// Lowering a two-part sequence concatenates the parts' lowerings.
pub proof fn lemma_lower_sequence(a: ItemV, b: ItemV)
    ensures
        lowered(ItemV::Sequence(seq![a, b])) == lowered(a) + lowered(b),
{
    lemma_lowered_all_one(a);
    lemma_lowered_all_one(b);
    assert(seq![a] + seq![b] =~= seq![a, b]);
    lemma_lowered_all_concat(seq![a], seq![b]);
}

/// `repeat_seq` may equally be unrolled from the back.
pub proof fn lemma_repeat_seq_snoc<A>(s: Seq<A>, n: nat)
    ensures
        repeat_seq(s, (n + 1) as nat) == repeat_seq(s, n) + s,
    decreases n,
{
    if n == 0 {
        assert(repeat_seq(s, 0nat) == Seq::<A>::empty());
        assert(s + Seq::<A>::empty() =~= Seq::<A>::empty() + s);
    } else {
        lemma_repeat_seq_snoc(s, (n - 1) as nat);
        assert(s + (repeat_seq(s, (n - 1) as nat) + s) =~= (s + repeat_seq(s, (n - 1) as nat))
            + s);
    }
}

/// The length of `n` concatenated copies of `s`.
pub proof fn lemma_repeat_seq_len<A>(s: Seq<A>, n: nat)
    ensures
        repeat_seq(s, n).len() == n * s.len(),
    decreases n,
{
    if n == 0 {
        assert(n * s.len() == 0) by (nonlinear_arith)
            requires
                n == 0,
        ;
    } else {
        let m = (n - 1) as nat;
        lemma_repeat_seq_len(s, m);
        assert(n * s.len() == s.len() + m * s.len()) by (nonlinear_arith)
            requires
                m == n - 1,
        ;
    }
}

/// Lowering a bounded repetition yields the item's lowering concatenated
/// `n` times, of length `n` times the item's lowered length.
pub proof fn lemma_lower_repeat(x: ItemV, n: nat)
    ensures
        lowered(ItemV::Repeat(Box::new(x), n)) == repeat_seq(lowered(x), n),
        repeat_seq(lowered(x), n).len() == n * lowered(x).len(),
        repeat_seq(lowered(x), (n + 1) as nat) == repeat_seq(lowered(x), n) + lowered(x),
{
    lemma_repeat_seq_snoc(lowered(x), n);
    lemma_repeat_seq_len(lowered(x), n);
}

#[verifier::loop_isolation(false)]
fn build_into(it: &Item, out: &mut Vec<InterpreterAction>)
    ensures
        final(out).deep_view() == old(out).deep_view() + lowered(it@),
    decreases it,
{
    let ghost base = out.deep_view();
    match it {
        Item::Sequence(items) => {
            build_list_into(items, out);
        },
        Item::Direct(i) => {
            out.push(InterpreterAction::Instruction(*i));
            proof {
                assert(out.deep_view() =~= base + lowered(it@));
            }
        },
        Item::Loop(lp) => {
            if lp.change_indent {
                out.push(InterpreterAction::Indent(true));
            }
            let ghost s1 = out.deep_view();
            out.push(InterpreterAction::Instruction(Instruction::Start));
            let ghost s2 = out.deep_view();
            build_list_into(&lp.body, out);
            let ghost s3 = out.deep_view();
            out.push(InterpreterAction::Instruction(Instruction::End));
            if lp.change_indent {
                out.push(InterpreterAction::Indent(false));
            }
            proof {
                let openv: Seq<ActionV> = if lp.change_indent {
                    seq![ActionV::Indent(true)]
                } else {
                    Seq::<ActionV>::empty()
                };
                let closev: Seq<ActionV> = if lp.change_indent {
                    seq![ActionV::Indent(false)]
                } else {
                    Seq::<ActionV>::empty()
                };
                assert(s1 =~= base + openv);
                assert(s2 =~= s1 + seq![ActionV::Instr(Instruction::Start)]);
                assert(s3 == s2 + lowered_all(items_view(lp.body@)));
                assert(out.deep_view() =~= (s3 + seq![ActionV::Instr(Instruction::End)]) + closev);
                assert(lowered(it@) == ((((openv + seq![ActionV::Instr(Instruction::Start)])
                    + lowered_all(items_view(lp.body@))) + seq![
                    ActionV::Instr(Instruction::End),
                ]) + closev));
                assert(out.deep_view() =~= base + lowered(it@));
            }
        },
        Item::Repeat { item, n } => {
            let inner: &Item = &**item;
            let count: usize = *n;
            let ghost unit = lowered(inner@);
            for k in 0..count
                invariant
                    out.deep_view() == base + repeat_seq(unit, k as nat),
            {
                build_into(inner, out);
                proof {
                    lemma_repeat_seq_snoc(unit, k as nat);
                    assert((base + repeat_seq(unit, k as nat)) + unit =~= base + (repeat_seq(
                        unit,
                        k as nat,
                    ) + unit));
                }
            }
            proof {
                assert(lowered(it@) == repeat_seq(unit, count as nat));
            }
        },
        Item::Comment(text, level) => {
            out.push(InterpreterAction::Comment(text.clone(), *level));
            proof {
                assert(out.deep_view() =~= base + lowered(it@));
            }
        },
        Item::EndComment => {
            out.push(InterpreterAction::EndComment);
            proof {
                assert(out.deep_view() =~= base + lowered(it@));
            }
        },
        Item::AddMarker(name, site) => {
            out.push(InterpreterAction::AddMarker(name.clone(), site.clone()));
            proof {
                assert(out.deep_view() =~= base + lowered(it@));
            }
        },
        Item::RemoveMarker(name) => {
            out.push(InterpreterAction::RemoveMarker(name.clone()));
            proof {
                assert(out.deep_view() =~= base + lowered(it@));
            }
        },
        Item::AssertPosition(cell, message) => {
            out.push(InterpreterAction::AssertPosition(*cell, message.clone()));
            proof {
                assert(out.deep_view() =~= base + lowered(it@));
            }
        },
        Item::AssertRelativePosition(name, offset, message) => {
            out.push(
                InterpreterAction::AssertRelativePosition(name.clone(), *offset, message.clone()),
            );
            proof {
                assert(out.deep_view() =~= base + lowered(it@));
            }
        },
    }
}

#[verifier::loop_isolation(false)]
fn build_list_into(items: &Vec<Item>, out: &mut Vec<InterpreterAction>)
    ensures
        final(out).deep_view() == old(out).deep_view() + lowered_all(items_view(items@)),
    decreases items@,
{
    let ghost base = out.deep_view();
    let ghost views = items_view(items@);
    proof {
        lemma_items_view(items@);
    }
    let n = items.len();
    for i in 0..n
        invariant
            out.deep_view() == base + lowered_all(views.take(i as int)),
    {
        build_into(&items[i], out);
        proof {
            lemma_lowered_all_one(views[i as int]);
            lemma_lowered_all_concat(views.take(i as int), seq![views[i as int]]);
            assert(views.take(i as int) + seq![views[i as int]] =~= views.take(i + 1));
            assert((base + lowered_all(views.take(i as int))) + lowered(views[i as int]) =~= base
                + (lowered_all(views.take(i as int)) + lowered(views[i as int])));
        }
    }
    proof {
        assert(views.take(n as int) =~= views);
    }
}

impl Item {
    /// Lower this fragment to its flat action list.
    pub fn build(&self) -> (r: Vec<InterpreterAction>)
        ensures
            r.deep_view() == lowered(self@),
    {
        let mut out: Vec<InterpreterAction> = Vec::new();
        build_into(self, &mut out);
        proof {
            assert(Seq::<ActionV>::empty() + lowered(self@) =~= lowered(self@));
        }
        out
    }
}

/// Whether a fragment never emits a loop bracket as a direct instruction,
/// so that all of its brackets come from `Loop` nodes.
pub open spec fn bracket_free(it: ItemV) -> bool
    decreases it,
{
    match it {
        ItemV::Sequence(items) => bracket_free_all(items),
        ItemV::Direct(i) => i != Instruction::Start && i != Instruction::End,
        ItemV::Loop(lp) => bracket_free_all(lp.body),
        ItemV::Repeat(item, _n) => bracket_free(*item),
        _ => true,
    }
}

/// Whether every fragment of a list is bracket-free.
pub open spec fn bracket_free_all(items: Seq<ItemV>) -> bool
    decreases items,
{
    if items.len() == 0 {
        true
    } else {
        bracket_free(items[0]) && bracket_free_all(items.drop_first())
    }
}

/// A list is bracket-free exactly when each of its fragments is.
pub proof fn lemma_bracket_free_all_index(items: Seq<ItemV>)
    ensures
        bracket_free_all(items) <==> (forall|k: int|
            0 <= k < items.len() ==> bracket_free(#[trigger] items[k])),
    decreases items,
{
    if items.len() > 0 {
        lemma_bracket_free_all_index(items.drop_first());
        assert(forall|k: int|
            0 <= k < items.len() - 1 ==> #[trigger] items.drop_first()[k] == items[k + 1]);
        if bracket_free_all(items) {
            assert forall|k: int| 0 <= k < items.len() implies bracket_free(
                #[trigger] items[k],
            ) by {
                if k > 0 {
                    assert(bracket_free(items.drop_first()[k - 1]));
                }
            };
        }
        if forall|k: int| 0 <= k < items.len() ==> bracket_free(#[trigger] items[k]) {
            assert(bracket_free(items[0]));
            assert(forall|k: int|
                0 <= k < items.drop_first().len() ==> bracket_free(
                    #[trigger] items.drop_first()[k],
                ));
        }
    }
}

/// A head move is bracket-free.
pub proof fn lemma_bracket_free_offset_move(off: int)
    ensures
        bracket_free(offset_move(off)),
{
    assert(bracket_free(ItemV::Direct(Instruction::Right)));
    assert(bracket_free(ItemV::Direct(Instruction::Left)));
}

/// An invalid byte in primitive program text: its position and value.
#[derive(Debug, Copy, Clone, PartialEq, Eq, Structural)]
pub struct ParseError {
    /// The index of the offending byte.
    pub at: usize,
    /// The offending byte itself.
    pub byte: u8,
}

/// The instruction a valid program byte stands for.
pub open spec fn inst_of_byte(b: u8) -> Instruction {
    Instruction::spec_from_byte(b)->0
}

/// The item that parsing a byte string yields: a flat sequence of direct
/// instructions, one per byte.
pub open spec fn parse_bytes(bs: Seq<u8>) -> ItemV {
    ItemV::Sequence(Seq::new(bs.len(), |k: int| ItemV::Direct(inst_of_byte(bs[k]))))
}

impl Item {
    /// Parse primitive program text: exactly the characters `<>+-,.[]` are
    /// accepted, and any other byte is reported as an error at the first
    /// position where it occurs.
    pub fn parse(s: &str) -> (r: Result<Item, ParseError>)
        ensures
            (r is Ok) <==> (forall|k: int|
                0 <= k < s.spec_bytes().len() ==> Instruction::spec_from_byte(
                    s.spec_bytes()[k],
                ) is Some),
            r matches Ok(it) ==> it@ == parse_bytes(s.spec_bytes()),
            r matches Err(e) ==> e.at < s.spec_bytes().len() && Instruction::spec_from_byte(
                s.spec_bytes()[e.at as int],
            ) is None && e.byte == s.spec_bytes()[e.at as int],
    {
        let bytes = s.as_bytes();
        let mut items: Vec<Item> = Vec::new();
        let n = bytes.len();
        #[verifier::loop_isolation(false)]
        for i in 0..n
            invariant
                items@.len() == i,
                forall|k: int|
                    0 <= k < i ==> Instruction::spec_from_byte(s.spec_bytes()[k]) is Some,
                forall|k: int|
                    0 <= k < i ==> item_view(#[trigger] items@[k]) == ItemV::Direct(
                        inst_of_byte(s.spec_bytes()[k]),
                    ),
        {
            match Instruction::from_byte(bytes[i]) {
                Some(ins) => items.push(Item::Direct(ins)),
                None => {
                    return Err(ParseError { at: i, byte: bytes[i] });
                },
            }
        }
        proof {
            lemma_items_view(items@);
            assert(items_view(items@) =~= Seq::new(
                s.spec_bytes().len(),
                |k: int| ItemV::Direct(inst_of_byte(s.spec_bytes()[k])),
            ));
        }
        Ok(Item::Sequence(items))
    }

    /// Wrap this fragment so that it is emitted `n` times in a row.
    pub fn repeat(self, n: usize) -> (r: Item)
        ensures
            r@ == ItemV::Repeat(Box::new(self@), n as nat),
    {
        Item::Repeat { item: Box::new(self), n }
    }

    /// Prepend a comment to this fragment and close the commented region
    /// after it.
    pub fn comment(self, comment: &str, level: u8) -> (r: Item)
        ensures
            r@ == ItemV::Sequence(seq![ItemV::Comment(comment@, level), self@, ItemV::EndComment]),
    {
        let ghost selfv = self@;
        let mut items: Vec<Item> = Vec::new();
        let head = Item::Comment(comment.to_owned(), level);
        let ghost headg = head;
        items.push(head);
        let ghost selfg = self;
        let ghost s1 = items@;
        items.push(self);
        let ghost s2 = items@;
        items.push(Item::EndComment);
        proof {
            lemma_items_view_push(Seq::<Item>::empty(), headg);
            lemma_items_view_push(s1, selfg);
            lemma_items_view_push(s2, Item::EndComment);
            assert(items_view(Seq::<Item>::empty()) == Seq::<ItemV>::empty());
            assert(items_view(items@) =~= seq![
                ItemV::Comment(comment@, level),
                selfv,
                ItemV::EndComment,
            ]);
        }
        Item::Sequence(items)
    }

    /// Place a marker under `name`, remembering `site` as its creation site.
    pub fn add_marker(name: &str, site: &str) -> (r: Item)
        ensures
            r@ == ItemV::AddMarker(name@, site@),
    {
        Item::AddMarker(name.to_owned(), site.to_owned())
    }

    /// Remove the marker placed under `name`.
    pub fn remove_marker(name: &str) -> (r: Item)
        ensures
            r@ == ItemV::RemoveMarker(name@),
    {
        Item::RemoveMarker(name.to_owned())
    }

    /// Assert at run time that the head stands on `cell`.
    pub fn assert_position(cell: usize, message: &str) -> (r: Item)
        ensures
            r@ == ItemV::AssertPosition(cell as nat, message@),
    {
        Item::AssertPosition(cell, message.to_owned())
    }

    /// Assert at run time that the head stands `offset` cells from the
    /// marker placed under `name`.
    pub fn assert_marker_offset(name: &str, offset: isize, comment: &str) -> (r: Item)
        ensures
            r@ == ItemV::AssertRelativePosition(name@, offset as int, comment@),
    {
        Item::AssertRelativePosition(name.to_owned(), offset, comment.to_owned())
    }
}

impl Loop {
    /// A loop with the given body and no indent hints.
    pub fn new(body: Vec<Item>) -> (r: Loop)
        ensures
            r.body == body,
            !r.change_indent,
    {
        Loop { body, change_indent: false }
    }

    /// Ask the lowering to wrap this loop's brackets in indent hints.
    pub fn indent(self) -> (r: Loop)
        ensures
            r.body == self.body,
            r.change_indent,
    {
        Loop { body: self.body, change_indent: true }
    }

    /// This loop as an item.
    pub fn into_item(self) -> (r: Item)
        ensures
            r@ == ItemV::Loop(
                LoopV { body: items_view(self.body@), change_indent: self.change_indent },
            ),
    {
        Item::Loop(self)
    }
}

/// A move of the head by a signed offset: `off` cells right when `off >= 0`,
/// `-off` cells left otherwise.
pub open spec fn offset_move(off: int) -> ItemV {
    if off >= 0 {
        ItemV::Repeat(Box::new(ItemV::Direct(Instruction::Right)), off as nat)
    } else {
        ItemV::Repeat(Box::new(ItemV::Direct(Instruction::Left)), (-off) as nat)
    }
}

/// The primitive moves that shift the head by `offset` cells.
pub fn offset_to_insns(offset: isize) -> (r: Item)
    ensures
        r@ == offset_move(offset as int),
{
    if offset >= 0 {
        let magnitude: usize = offset as usize;
        proof {
            assert(magnitude as int == offset as int);
            assert(item_view(Item::Direct(Instruction::Right)) == ItemV::Direct(
                Instruction::Right,
            ));
        }
        Item::Repeat { item: Box::new(Item::Direct(Instruction::Right)), n: magnitude }
    } else {
        let magnitude: usize = (-(offset + 1)) as usize + 1;
        proof {
            assert(magnitude as int == -(offset as int));
            assert(item_view(Item::Direct(Instruction::Left)) == ItemV::Direct(Instruction::Left));
        }
        Item::Repeat { item: Box::new(Item::Direct(Instruction::Left)), n: magnitude }
    }
}

/// The signed displacement from cell `start` to cell `target`.
pub fn offset_from(start: usize, target: usize) -> (r: isize)
    requires
        start <= isize::MAX as usize,
        target <= isize::MAX as usize,
    ensures
        r as int == target - start,
{
    if target >= start {
        (target - start) as isize
    } else {
        -(((start - target) as isize))
    }
}

/// The value of the canonical zero-cell fragment: a loop around a single
/// decrement.
pub open spec fn zero_cell_item() -> ItemV {
    ItemV::Loop(LoopV { body: seq![ItemV::Direct(Instruction::Dec)], change_indent: false })
}

/// The value of the guarded upward variant: a loop around a single
/// increment.
pub open spec fn zero_cell_up_item() -> ItemV {
    ItemV::Loop(LoopV { body: seq![ItemV::Direct(Instruction::Inc)], change_indent: false })
}

/// The canonical fragment that decrements the current cell down to zero:
/// a loop whose body is a single decrement.
pub fn zero_cell() -> (r: Item)
    ensures
        r@ == zero_cell_item(),
{
    let mut body: Vec<Item> = Vec::new();
    body.push(Item::Direct(Instruction::Dec));
    proof {
        lemma_items_view_push(Seq::<Item>::empty(), Item::Direct(Instruction::Dec));
        assert(items_view(Seq::<Item>::empty()) == Seq::<ItemV>::empty());
        assert(items_view(body@) =~= seq![ItemV::Direct(Instruction::Dec)]);
    }
    Item::Loop(Loop { body, change_indent: false })
}

/// The fragment that increments the current cell up to zero; sound only when
/// the cell is known to be nonzero, so it is used as a guarded branch.
pub fn zero_cell_up() -> (r: Item)
    ensures
        r@ == zero_cell_up_item(),
{
    let mut body: Vec<Item> = Vec::new();
    body.push(Item::Direct(Instruction::Inc));
    proof {
        lemma_items_view_push(Seq::<Item>::empty(), Item::Direct(Instruction::Inc));
        assert(items_view(Seq::<Item>::empty()) == Seq::<ItemV>::empty());
        assert(items_view(body@) =~= seq![ItemV::Direct(Instruction::Inc)]);
    }
    Item::Loop(Loop { body, change_indent: false })
}

/// The sum of a list of signed offsets.
pub open spec fn sum_offsets(s: Seq<isize>) -> int
    decreases s,
{
    if s.len() == 0 {
        0
    } else {
        sum_offsets(s.drop_last()) + s.last()
    }
}

/// The per-offset steps of a drain loop: for each offset in order, a move to
/// the target cell, one increment or decrement, and a move back.
pub open spec fn drain_steps(offsets: Seq<isize>, add: bool) -> Seq<ItemV>
    decreases offsets,
{
    if offsets.len() == 0 {
        Seq::empty()
    } else {
        drain_steps(offsets.drop_last(), add) + seq![
            offset_move(offsets.last() as int),
            ItemV::Direct(if add {
                Instruction::Inc
            } else {
                Instruction::Dec
            }),
        ]
    }
}

/// A sum of elementwise-bounded offsets is bounded by the count times the
/// bound.
pub proof fn lemma_sum_offsets_bound(s: Seq<isize>, bound: int)
    requires
        bound >= 0,
        forall|k: int| 0 <= k < s.len() ==> -bound <= #[trigger] s[k] <= bound,
    ensures
        -(s.len() * bound) <= sum_offsets(s) <= s.len() * bound,
    decreases s,
{
    if s.len() == 0 {
        assert(s.len() * bound == 0) by (nonlinear_arith)
            requires
                s.len() == 0,
        ;
    } else {
        let pre = s.drop_last();
        assert(forall|k: int| 0 <= k < pre.len() ==> #[trigger] pre[k] == s[k]);
        lemma_sum_offsets_bound(pre, bound);
        assert(s.len() * bound == pre.len() * bound + bound) by (nonlinear_arith)
            requires
                s.len() == pre.len() + 1,
        ;
    }
}

/// A short list of small offsets keeps every partial sum within the range
/// that `drain` asks for.
pub proof fn lemma_drain_offsets_ok(s: Seq<isize>)
    requires
        s.len() <= 8,
        forall|k: int| 0 <= k < s.len() ==> -0x10000 <= #[trigger] s[k] <= 0x10000,
    ensures
        forall|k: int|
            0 <= k <= s.len() ==> -(usize::MAX as int) <= sum_offsets(#[trigger] s.take(k))
                <= usize::MAX as int,
{
    assert forall|k: int|
        0 <= k <= s.len() implies -(usize::MAX as int) <= sum_offsets(#[trigger] s.take(k))
        <= usize::MAX as int by {
        let t = s.take(k);
        assert(forall|j: int| 0 <= j < t.len() ==> #[trigger] t[j] == s[j]);
        lemma_sum_offsets_bound(t, 0x10000);
        assert(t.len() * 0x10000 <= 8 * 0x10000) by (nonlinear_arith)
            requires
                t.len() <= 8,
        ;
    };
}

/// The closing move of each drain pass, from the cell at the net
/// displacement `total` back onto the base cell: `total` cells left when
/// `total >= 0`, else `-total` cells right.
pub open spec fn drain_back_move(total: int) -> ItemV {
    if total >= 0 {
        ItemV::Repeat(Box::new(ItemV::Direct(Instruction::Left)), total as nat)
    } else {
        ItemV::Repeat(Box::new(ItemV::Direct(Instruction::Right)), (-total) as nat)
    }
}

/// The fragment of a whole drain loop, exactly.
pub open spec fn drain_item(offsets: Seq<isize>, add: bool) -> ItemV {
    ItemV::Loop(
        LoopV {
            body: seq![ItemV::Direct(Instruction::Dec)] + drain_steps(offsets, add) + seq![
                drain_back_move(sum_offsets(offsets)),
            ],
            change_indent: false,
        },
    )
}

/// A drain loop: while the base cell is nonzero, decrement it and add (or
/// subtract) one at each offset, every offset taken relative to the
/// previous target; a closing move from the net displacement ends each
/// pass back on the base cell.
///
/// The bounds on the partial sums only keep the emitted repetition count
/// within `usize`.
pub fn drain(offsets: &[isize], add: bool) -> (r: Item)
    requires
        forall|k: int|
            0 <= k <= offsets@.len() ==> -(usize::MAX as int) <= sum_offsets(
                #[trigger] offsets@.take(k),
            ) <= usize::MAX as int,
    ensures
        r@ == drain_item(offsets@, add),
{
    let mut insns: Vec<Item> = Vec::new();
    insns.push(Item::Direct(Instruction::Dec));
    proof {
        lemma_items_view_push(Seq::<Item>::empty(), Item::Direct(Instruction::Dec));
        assert(items_view(Seq::<Item>::empty()) == Seq::<ItemV>::empty());
        assert(offsets@.take(0) =~= Seq::<isize>::empty());
        assert(items_view(insns@) =~= seq![ItemV::Direct(Instruction::Dec)] + drain_steps(
            offsets@.take(0),
            add,
        ));
    }
    let mut delta: i128 = 0;
    let n = offsets.len();
    #[verifier::loop_isolation(false)]
    for k in 0..n
        invariant
            delta == sum_offsets(offsets@.take(k as int)),
            -(usize::MAX as int) <= delta <= usize::MAX as int,
            items_view(insns@) == seq![ItemV::Direct(Instruction::Dec)] + drain_steps(
                offsets@.take(k as int),
                add,
            ),
    {
        let off = offsets[k];
        let step_move = offset_to_insns(off);
        let ghost step_move_g = step_move;
        let ghost s1 = insns@;
        insns.push(step_move);
        let op = Item::Direct(
            if add {
                Instruction::Inc
            } else {
                Instruction::Dec
            },
        );
        let ghost op_g = op;
        let ghost s2 = insns@;
        insns.push(op);
        proof {
            lemma_items_view_push(s1, step_move_g);
            lemma_items_view_push(s2, op_g);
            assert(offsets@.take(k + 1).drop_last() =~= offsets@.take(k as int));
            assert(offsets@.take(k + 1).last() == offsets@[k as int]);
            assert(items_view(insns@) =~= seq![ItemV::Direct(Instruction::Dec)] + drain_steps(
                offsets@.take(k + 1),
                add,
            ));
        }
        delta = delta + off as i128;
    }
    proof {
        assert(offsets@.take(n as int) =~= offsets@);
    }
    let move_back: Item = if delta >= 0 {
        let magnitude: usize = delta as usize;
        Item::Repeat { item: Box::new(Item::Direct(Instruction::Left)), n: magnitude }
    } else {
        let magnitude: usize = (-delta) as usize;
        Item::Repeat { item: Box::new(Item::Direct(Instruction::Right)), n: magnitude }
    };
    let ghost move_back_g = move_back;
    let ghost before_final = insns@;
    insns.push(move_back);
    proof {
        lemma_items_view_push(before_final, move_back_g);
        assert(item_view(Item::Direct(Instruction::Left)) == ItemV::Direct(Instruction::Left));
        assert(item_view(Item::Direct(Instruction::Right)) == ItemV::Direct(Instruction::Right));
        assert(item_view(move_back_g) == drain_back_move(sum_offsets(offsets@)));
        assert(items_view(before_final) == seq![ItemV::Direct(Instruction::Dec)] + drain_steps(
            offsets@,
            add,
        ));
        assert(items_view(insns@) =~= (seq![ItemV::Direct(Instruction::Dec)] + drain_steps(
            offsets@,
            add,
        )) + seq![drain_back_move(sum_offsets(offsets@))]);
    }
    Item::Loop(Loop { body: insns, change_indent: false })
}

/// Lower a list of fragments in order.
pub fn build_items(items: &Vec<Item>) -> (r: Vec<InterpreterAction>)
    ensures
        r.deep_view() == lowered_all(items_view(items@)),
{
    let mut out: Vec<InterpreterAction> = Vec::new();
    build_list_into(items, &mut out);
    proof {
        assert(Seq::<ActionV>::empty() + lowered_all(items_view(items@)) =~= lowered_all(
            items_view(items@),
        ));
    }
    out
}

} // verus!
