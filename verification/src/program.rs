//! Linked programs: a flat action list together with the mapping that links
//! every `[` to its matching `]` and back.
//!
//! [`Program::build`] performs the single left-to-right linking scan with a
//! stack of open indices; it fails exactly on unbalanced bracket sequences,
//! and the interpreter never runs an unlinked program.

use std::collections::HashMap;

use vstd::prelude::*;
use vstd::string::{StringExecFns, StringSliceAdditionalSpecFns};

use crate::inst::Instruction;
use crate::ir::{
    ActionV, InterpreterAction, ItemV, bracket_free, bracket_free_all, inst_of_byte,
    lemma_lowered_all_concat, lemma_lowered_all_one, lowered, lowered_all, parse_bytes,
};

verus! {

/// Whether an action is one of the two loop brackets.
pub open spec fn is_bracket(a: ActionV) -> bool {
    a == ActionV::Instr(Instruction::Start) || a == ActionV::Instr(Instruction::End)
}

/// The contribution of one action to the open-bracket depth.
pub open spec fn bracket_delta(a: ActionV) -> int {
    if a == ActionV::Instr(Instruction::Start) {
        1
    } else if a == ActionV::Instr(Instruction::End) {
        -1
    } else {
        0
    }
}

/// The number of `[` minus the number of `]` in an action list.
pub open spec fn open_depth(s: Seq<ActionV>) -> int
    decreases s,
{
    if s.len() == 0 {
        0
    } else {
        open_depth(s.drop_last()) + bracket_delta(s.last())
    }
}

/// A bracket sequence is balanced when no prefix closes more loops than it
/// has opened and the whole list closes every loop it opens.
pub open spec fn balanced(s: Seq<ActionV>) -> bool {
    &&& open_depth(s) == 0
    &&& forall|k: int| 0 <= k <= s.len() ==> open_depth(#[trigger] s.take(k)) >= 0
}

/// The clean text of an action list: the canonical character of each
/// primitive instruction, with every annotation dropped.
pub open spec fn clean_text(s: Seq<ActionV>) -> Seq<char>
    decreases s,
{
    if s.len() == 0 {
        Seq::empty()
    } else {
        clean_text(s.drop_last()) + (match s.last() {
            ActionV::Instr(i) => seq![i.char_of()],
            _ => Seq::<char>::empty(),
        })
    }
}

/// The mathematical value of a [`Program`]: its actions and its bracket
/// pairing.
pub struct ProgramV {
    /// The lowered action list.
    pub actions: Seq<ActionV>,
    /// The mapping from the index of each bracket to its partner's index.
    pub pairs: Map<usize, usize>,
}

impl ProgramV {
    /// Every bracket is linked: the pairing is defined exactly on bracket
    /// positions, each `[` maps to a later `]`, each `]` to an earlier `[`,
    /// and the pairing is an involution.
    pub open spec fn wf(self) -> bool {
        &&& self.actions.len() <= usize::MAX
        &&& forall|i: usize|
            #[trigger] self.pairs.dom().contains(i) ==> (i as int) < self.actions.len()
                && is_bracket(self.actions[i as int])
        &&& forall|i: usize|
            (i as int) < self.actions.len() && is_bracket(self.actions[i as int])
                ==> #[trigger] self.pairs.dom().contains(i)
        &&& forall|i: usize|
            #[trigger] self.pairs.dom().contains(i) && self.actions[i as int] == ActionV::Instr(
                Instruction::Start,
            ) ==> (i as int) < (self.pairs[i] as int) && (self.pairs[i] as int)
                < self.actions.len() && self.actions[self.pairs[i] as int] == ActionV::Instr(
                Instruction::End,
            ) && self.pairs.dom().contains(self.pairs[i]) && self.pairs[self.pairs[i]] == i
        &&& forall|i: usize|
            #[trigger] self.pairs.dom().contains(i) && self.actions[i as int] == ActionV::Instr(
                Instruction::End,
            ) ==> (self.pairs[i] as int) < (i as int) && self.actions[self.pairs[i] as int]
                == ActionV::Instr(Instruction::Start) && self.pairs.dom().contains(self.pairs[i])
                && self.pairs[self.pairs[i]] == i
        &&& forall|i: usize|
            #[trigger] self.pairs.dom().contains(i) && self.actions[i as int] == ActionV::Instr(
                Instruction::Start,
            ) ==> balanced(self.actions.subrange(i as int + 1, self.pairs[i] as int))
    }
}

/// The bracket depth of a slice is the difference of the prefix depths at
/// its ends.
pub proof fn lemma_depth_subrange(s: Seq<ActionV>, a: int, b: int)
    requires
        0 <= a <= b <= s.len(),
    ensures
        open_depth(s.subrange(a, b)) == open_depth(s.take(b)) - open_depth(s.take(a)),
{
    assert(s.take(b) =~= s.take(a) + s.subrange(a, b));
    lemma_open_depth_concat(s.take(a), s.subrange(a, b));
}

/// A failure of the linking pass.
#[derive(Debug, Copy, Clone, PartialEq, Eq, Structural)]
pub enum LinkError {
    /// A `]` at this index closes a loop that was never opened.
    UnopenedClose { at: usize },
    /// A `[` at this index opens a loop that is never closed.
    UnclosedOpen { at: usize },
}

/// A lowered action list whose brackets have been linked.
#[derive(Debug)]
pub struct Program {
    instructions: Vec<InterpreterAction>,
    pairs: HashMap<usize, usize>,
}

impl View for Program {
    type V = ProgramV;

    closed spec fn view(&self) -> ProgramV {
        ProgramV { actions: self.instructions.deep_view(), pairs: self.pairs@ }
    }
}

impl Program {
    /// Link the brackets of a lowered action list, or reject it: the result
    /// is `Ok` exactly when the bracket sequence is balanced, and the
    /// resulting pairing is well formed in the sense of [`ProgramV::wf`].
    pub fn build(instructions: Vec<InterpreterAction>) -> (r: Result<Program, LinkError>)
        ensures
            (r is Ok) <==> balanced(instructions.deep_view()),
            r matches Ok(p) ==> p@.actions == instructions.deep_view() && p@.wf(),
            r matches Err(LinkError::UnopenedClose { at }) ==> (at as int)
                < instructions.deep_view().len() && open_depth(
                instructions.deep_view().take(at as int + 1),
            ) < 0,
            r matches Err(LinkError::UnclosedOpen { at }) ==> (at as int)
                < instructions.deep_view().len() && instructions.deep_view()[at as int]
                == ActionV::Instr(Instruction::Start) && open_depth(instructions.deep_view()) > 0
                && (forall|k: int|
                0 <= k <= instructions.deep_view().len() ==> open_depth(
                    #[trigger] instructions.deep_view().take(k),
                ) >= 0),
    {
        let ghost av = instructions.deep_view();
        let mut pairs: HashMap<usize, usize> = HashMap::new();
        let mut stack: Vec<usize> = Vec::new();
        let n = instructions.len();
        proof {
            assert(av.take(0) =~= Seq::<ActionV>::empty());
        }
        #[verifier::loop_isolation(false)]
        for i in 0..n
            invariant
                stack@.len() as int == open_depth(av.take(i as int)),
                forall|k: int| 0 <= k <= i ==> open_depth(#[trigger] av.take(k)) >= 0,
                forall|t: int|
                    0 <= t < stack@.len() ==> (#[trigger] stack@[t] as int) < i && av[stack@[t] as int]
                        == ActionV::Instr(Instruction::Start) && !pairs@.dom().contains(stack@[t]),
                forall|t1: int, t2: int|
                    0 <= t1 < t2 < stack@.len() ==> #[trigger] stack@[t1] < #[trigger] stack@[t2],
                forall|t: int|
                    0 <= t < stack@.len() ==> open_depth(
                        av.take((#[trigger] stack@[t]) as int + 1),
                    ) == t + 1,
                forall|t: int, j: int|
                    #![trigger stack@[t], av.take(j)]
                    0 <= t < stack@.len() && (stack@[t] as int) < j <= i ==> open_depth(
                        av.take(j),
                    ) >= t + 1,
                forall|a: usize|
                    #[trigger] pairs@.dom().contains(a) && av[a as int] == ActionV::Instr(
                        Instruction::Start,
                    ) ==> balanced(av.subrange(a as int + 1, pairs@[a] as int)),
                forall|a: usize|
                    #[trigger] pairs@.dom().contains(a) ==> (a as int) < i && is_bracket(
                        av[a as int],
                    ),
                forall|a: usize|
                    (a as int) < i && av[a as int] == ActionV::Instr(Instruction::Start) ==> (
                    #[trigger] pairs@.dom().contains(a)) || stack@.contains(a),
                forall|a: usize|
                    (a as int) < i && av[a as int] == ActionV::Instr(Instruction::End)
                        ==> #[trigger] pairs@.dom().contains(a),
                forall|a: usize|
                    #[trigger] pairs@.dom().contains(a) && av[a as int] == ActionV::Instr(
                        Instruction::Start,
                    ) ==> (a as int) < (pairs@[a] as int) && (pairs@[a] as int) < i
                        && av[pairs@[a] as int] == ActionV::Instr(Instruction::End)
                        && pairs@.dom().contains(pairs@[a]) && pairs@[pairs@[a]] == a,
                forall|a: usize|
                    #[trigger] pairs@.dom().contains(a) && av[a as int] == ActionV::Instr(
                        Instruction::End,
                    ) ==> (pairs@[a] as int) < (a as int) && av[pairs@[a] as int]
                        == ActionV::Instr(Instruction::Start) && pairs@.dom().contains(pairs@[a])
                        && pairs@[pairs@[a]] == a,
        {
            proof {
                assert(av.take(i + 1).drop_last() =~= av.take(i as int));
                assert(av.take(i + 1).last() == av[i as int]);
            }
            match &instructions[i] {
                InterpreterAction::Instruction(Instruction::Start) => {
                    proof {
                        assert(av[i as int] == ActionV::Instr(Instruction::Start));
                    }
                    let ghost stack0 = stack@;
                    stack.push(i);
                    proof {
                        assert(stack@[stack@.len() - 1] == i);
                        assert(stack@.contains(i));
                        assert forall|a: usize| #[trigger] stack0.contains(a) implies
                            stack@.contains(a) by {
                            let t = choose|t: int| 0 <= t < stack0.len() && stack0[t] == a;
                            assert(stack@[t] == a);
                        };
                        assert forall|t: int| 0 <= t < stack@.len() implies open_depth(
                            av.take((#[trigger] stack@[t]) as int + 1),
                        ) == t + 1 by {
                            if t < stack@.len() - 1 {
                                assert(stack@[t] == stack0[t]);
                            } else {
                                assert(stack@[t] == i);
                            }
                        };
                        assert forall|t: int, j: int|
                            #![trigger stack@[t], av.take(j)]
                            0 <= t < stack@.len() && (stack@[t] as int) < j <= i + 1 implies
                            open_depth(av.take(j)) >= t + 1 by {
                            if t < stack@.len() - 1 {
                                assert(stack@[t] == stack0[t]);
                                if j <= i {
                                    assert(open_depth(av.take(j)) >= t + 1);
                                }
                            } else {
                                assert(stack@[t] == i);
                            }
                        };
                    }
                },
                InterpreterAction::Instruction(Instruction::End) => {
                    proof {
                        assert(av[i as int] == ActionV::Instr(Instruction::End));
                    }
                    let ghost stack0 = stack@;
                    match stack.pop() {
                        Some(matching) => {
                            proof {
                                assert(stack0.last() == matching);
                                assert(av[matching as int] == ActionV::Instr(Instruction::Start));
                                assert((matching as int) < i);
                                // every entry left on the stack sits below the
                                // popped one, so none of them is `matching`
                                assert(forall|t: int|
                                    0 <= t < stack@.len() ==> #[trigger] stack@[t] < matching);
                            }
                            proof {
                                // the region between the pair is balanced:
                                // the depth floor held while `matching` sat
                                // on the stack, and the ends' depths agree
                                assert(open_depth(av.take(matching as int + 1))
                                    == stack0.len() as int);
                                assert(open_depth(av.take(i as int)) == stack0.len() as int);
                                lemma_depth_subrange(av, matching as int + 1, i as int);
                                let region = av.subrange(matching as int + 1, i as int);
                                assert forall|m: int| 0 <= m <= region.len() implies open_depth(
                                    #[trigger] region.take(m),
                                ) >= 0 by {
                                    assert(region.take(m) =~= av.subrange(
                                        matching as int + 1,
                                        matching as int + 1 + m,
                                    ));
                                    lemma_depth_subrange(
                                        av,
                                        matching as int + 1,
                                        matching as int + 1 + m,
                                    );
                                    if m > 0 {
                                        assert(open_depth(av.take(matching as int + 1 + m))
                                            >= stack0.len() as int);
                                    }
                                };
                                assert(balanced(region));
                            }
                            pairs.insert(i, matching);
                            pairs.insert(matching, i);
                            proof {
                                // a start instruction that is neither matched
                                // nor `matching` keeps its place on the stack
                                assert forall|a: usize|
                                    (a as int) < i + 1 && av[a as int] == ActionV::Instr(
                                        Instruction::Start,
                                    ) && !(#[trigger] pairs@.dom().contains(a)) implies
                                    stack@.contains(a) by {
                                    assert(a != matching && (a as int) < i);
                                    assert(stack0.contains(a));
                                    let t = choose|t: int|
                                        0 <= t < stack0.len() && stack0[t] == a;
                                    assert(t < stack0.len() - 1);
                                    assert(stack@[t] == a);
                                };
                            }
                        },
                        None => {
                            proof {
                                assert(open_depth(av.take(i + 1)) < 0);
                            }
                            return Err(LinkError::UnopenedClose { at: i });
                        },
                    }
                },
                _ => {
                },
            }
        }
        proof {
            assert(av.take(n as int) =~= av);
        }
        if stack.len() > 0 {
            let at = stack[stack.len() - 1];
            return Err(LinkError::UnclosedOpen { at });
        }
        Ok(Program { instructions, pairs })
    }

    /// The number of actions in this program.
    pub fn action_count(&self) -> (r: usize)
        ensures
            r as int == self@.actions.len(),
    {
        self.instructions.len()
    }

    /// The action at a given index.
    pub fn action_at(&self, i: usize) -> (r: &InterpreterAction)
        requires
            (i as int) < self@.actions.len(),
        ensures
            r@ == self@.actions[i as int],
    {
        &self.instructions[i]
    }

    /// The index of the bracket matching the bracket at `i`.
    pub fn pair_of(&self, i: usize) -> (r: usize)
        requires
            self@.wf(),
            self@.pairs.dom().contains(i),
        ensures
            r == self@.pairs[i],
    {
        *self.pairs.get(&i).unwrap()
    }

    /// The eight-character source of this program: each primitive
    /// instruction's canonical character, with nothing else.
    pub fn as_text_clean(&self) -> (r: String)
        ensures
            r@ == clean_text(self@.actions),
    {
        let mut s = String::new();
        let n = self.instructions.len();
        #[verifier::loop_isolation(false)]
        for idx in 0..n
            invariant
                s@ == clean_text(self@.actions.take(idx as int)),
        {
            proof {
                assert(self@.actions.take(idx + 1).drop_last() =~= self@.actions.take(idx as int));
                assert(self@.actions.take(idx + 1).last() == self@.actions[idx as int]);
            }
            match &self.instructions[idx] {
                InterpreterAction::Instruction(ins) => {
                    s.append(ins.as_str());
                },
                _ => {
                    proof {
                        assert(s@ + Seq::<char>::empty() =~= s@);
                    }
                },
            }
        }
        proof {
            assert(self@.actions.take(n as int) =~= self@.actions);
        }
        s
    }
}

/// The net indent level after an action list: indent hints open and close
/// one level each.
pub open spec fn indent_depth(s: Seq<ActionV>) -> int
    decreases s,
{
    if s.len() == 0 {
        0
    } else {
        indent_depth(s.drop_last()) + (match s.last() {
            ActionV::Indent(open) => if open {
                1int
            } else {
                -1int
            },
            _ => 0int,
        })
    }
}

/// `2 * n` spaces: the indentation of nesting depth `n`.
pub open spec fn indent_text(n: int) -> Seq<char>
    decreases (if n > 0 {
        n
    } else {
        0
    }),
{
    if n <= 0 {
        Seq::empty()
    } else {
        indent_text(n - 1) + seq![' ', ' ']
    }
}

/// The pretty-printed text one action contributes, at a given indent level.
pub open spec fn pretty_piece(a: ActionV, ind: int) -> Seq<char> {
    match a {
        ActionV::Instr(i) => seq![i.char_of()],
        ActionV::Comment(text, _level) => seq!['\n'] + indent_text(ind) + "// "@ + text + seq![
            '\n',
        ] + indent_text(ind),
        ActionV::EndComment => seq!['\n'],
        ActionV::Indent(open) => seq!['\n'] + indent_text(
            ind + (if open {
                1int
            } else {
                -1int
            }),
        ),
        _ => Seq::empty(),
    }
}

/// The pretty-printed text of an action list: instructions as their
/// characters, comments on their own indented lines, indent hints as line
/// breaks, and annotations silent.
pub open spec fn pretty_text(s: Seq<ActionV>) -> Seq<char>
    decreases s,
{
    if s.len() == 0 {
        Seq::empty()
    } else {
        pretty_text(s.drop_last()) + pretty_piece(s.last(), indent_depth(s.drop_last()))
    }
}

/// Append `2 * n` spaces.
fn push_indent(n: usize, out: &mut String)
    ensures
        final(out)@ == old(out)@ + indent_text(n as int),
{
    proof {
        reveal_strlit("  ");
        assert("  "@ =~= seq![' ', ' ']);
    }
    #[verifier::loop_isolation(false)]
    for k in 0..n
        invariant
            out@ == old(out)@ + indent_text(k as int),
    {
        out.append("  ");
        proof {
            assert(out@ =~= old(out)@ + indent_text(k + 1));
        }
    }
}

impl Program {
    /// Pretty-print this program: instruction characters, comments on
    /// indented lines of their own, and line breaks at indent hints.
    ///
    /// The precondition rules out action lists whose indent hints close a
    /// level that was never opened; lowering only ever produces properly
    /// nested hints.
    pub fn as_text(&self) -> (r: String)
        requires
            forall|k: int|
                0 <= k <= self@.actions.len() ==> indent_depth(#[trigger] self@.actions.take(k))
                    >= 0,
        ensures
            r@ == pretty_text(self@.actions),
    {
        proof {
            reveal_strlit("\n");
            reveal_strlit("// ");
            assert("\n"@ =~= seq!['\n']);
        }
        let mut s = String::new();
        let mut ind: usize = 0;
        let n = self.instructions.len();
        proof {
            assert(self@.actions.take(0) =~= Seq::<ActionV>::empty());
            assert(Seq::<char>::empty() + Seq::<char>::empty() =~= Seq::<char>::empty());
        }
        #[verifier::loop_isolation(false)]
        for idx in 0..n
            invariant
                s@ == pretty_text(self@.actions.take(idx as int)),
                ind as int == indent_depth(self@.actions.take(idx as int)),
                ind <= idx,
        {
            proof {
                assert(self@.actions.take(idx + 1).drop_last() =~= self@.actions.take(idx as int));
                assert(self@.actions.take(idx + 1).last() == self@.actions[idx as int]);
            }
            match &self.instructions[idx] {
                InterpreterAction::Instruction(ins) => {
                    s.append(ins.as_str());
                },
                InterpreterAction::Comment(comment, _level) => {
                    s.append("\n");
                    push_indent(ind, &mut s);
                    s.append("// ");
                    s.append(comment.as_str());
                    s.append("\n");
                    push_indent(ind, &mut s);
                },
                InterpreterAction::EndComment => {
                    s.append("\n");
                },
                InterpreterAction::Indent(open) => {
                    proof {
                        assert(indent_depth(self@.actions.take(idx + 1)) >= 0);
                    }
                    if *open {
                        ind = ind + 1;
                    } else {
                        ind = ind - 1;
                    }
                    s.append("\n");
                    push_indent(ind, &mut s);
                },
                _ => {
                    proof {
                        assert(s@ + Seq::<char>::empty() =~= s@);
                    }
                },
            }
            proof {
                assert(s@ =~= pretty_text(self@.actions.take(idx + 1)));
            }
        }
        proof {
            assert(self@.actions.take(n as int) =~= self@.actions);
        }
        s
    }
}

/// In a well-formed program, the partner of every `[` is a later `]`, the
/// partner of every `]` is an earlier `[`, and pairing is an involution.
pub proof fn lemma_bracket_pairing(p: ProgramV, i: usize)
    requires
        p.wf(),
        (i as int) < p.actions.len(),
        is_bracket(p.actions[i as int]),
    ensures
        p.pairs.dom().contains(i),
        p.pairs.dom().contains(p.pairs[i]),
        (p.pairs[i] as int) < p.actions.len(),
        p.pairs[p.pairs[i]] == i,
        p.actions[i as int] == ActionV::Instr(Instruction::Start) ==> (i as int) < (
        p.pairs[i] as int) && p.actions[p.pairs[i] as int] == ActionV::Instr(Instruction::End),
        p.actions[i as int] == ActionV::Instr(Instruction::End) ==> (p.pairs[i] as int) < (
        i as int) && p.actions[p.pairs[i] as int] == ActionV::Instr(Instruction::Start),
{
}

/// Bracket depth adds over concatenation.
pub proof fn lemma_open_depth_concat(a: Seq<ActionV>, b: Seq<ActionV>)
    ensures
        open_depth(a + b) == open_depth(a) + open_depth(b),
    decreases b,
{
    if b.len() == 0 {
        assert(a + b =~= a);
    } else {
        assert((a + b).drop_last() =~= a + b.drop_last());
        assert((a + b).last() == b.last());
        lemma_open_depth_concat(a, b.drop_last());
    }
}

/// A prefix of a concatenation is a prefix of the first part, or the whole
/// first part plus a prefix of the second.
pub proof fn lemma_take_concat(a: Seq<ActionV>, b: Seq<ActionV>, k: int)
    requires
        0 <= k <= a.len() + b.len(),
    ensures
        k <= a.len() ==> (a + b).take(k) == a.take(k),
        k > a.len() ==> (a + b).take(k) == a + b.take(k - a.len()),
{
    if k <= a.len() {
        assert((a + b).take(k) =~= a.take(k));
    } else {
        assert((a + b).take(k) =~= a + b.take(k - a.len()));
    }
}

/// Balance is preserved by concatenation.
pub proof fn lemma_balanced_concat(a: Seq<ActionV>, b: Seq<ActionV>)
    requires
        balanced(a),
        balanced(b),
    ensures
        balanced(a + b),
{
    lemma_open_depth_concat(a, b);
    assert forall|k: int| 0 <= k <= (a + b).len() implies open_depth(
        #[trigger] (a + b).take(k),
    ) >= 0 by {
        lemma_take_concat(a, b, k);
        if k > a.len() {
            lemma_open_depth_concat(a, b.take(k - a.len()));
        }
    };
}

/// A single non-bracket action is balanced.
pub proof fn lemma_balanced_single(x: ActionV)
    requires
        bracket_delta(x) == 0,
    ensures
        balanced(seq![x]),
{
    assert(open_depth(Seq::<ActionV>::empty()) == 0);
    assert(seq![x].drop_last() =~= Seq::<ActionV>::empty());
    assert forall|k: int| 0 <= k <= 1 implies open_depth(#[trigger] seq![x].take(k)) >= 0 by {
        if k == 0 {
            assert(seq![x].take(0) =~= Seq::<ActionV>::empty());
        } else {
            assert(seq![x].take(1) =~= seq![x]);
        }
    };
}

/// Bracketing a balanced list with one `[` and one `]` keeps it balanced.
pub proof fn lemma_balanced_wrap(inner: Seq<ActionV>)
    requires
        balanced(inner),
    ensures
        balanced(
            seq![ActionV::Instr(Instruction::Start)] + inner + seq![
                ActionV::Instr(Instruction::End),
            ],
        ),
{
    let s = seq![ActionV::Instr(Instruction::Start)];
    let e = seq![ActionV::Instr(Instruction::End)];
    let mid = s + inner + e;
    assert(open_depth(Seq::<ActionV>::empty()) == 0);
    assert(open_depth(s) == 1) by {
        assert(s.drop_last() =~= Seq::<ActionV>::empty());
    };
    assert(open_depth(e) == -1) by {
        assert(e.drop_last() =~= Seq::<ActionV>::empty());
    };
    lemma_open_depth_concat(s, inner);
    lemma_open_depth_concat(s + inner, e);
    assert forall|k: int| 0 <= k <= mid.len() implies open_depth(#[trigger] mid.take(k)) >= 0 by {
        lemma_take_concat(s + inner, e, k);
        if k <= (s + inner).len() {
            lemma_take_concat(s, inner, k);
            if k == 0 {
                assert((s + inner).take(0) =~= Seq::<ActionV>::empty());
            } else if k <= s.len() {
                assert(s.take(k) =~= s);
            } else {
                lemma_open_depth_concat(s, inner.take(k - 1));
            }
        } else {
            lemma_take_concat(s + inner, e, k);
            assert(e.take(k - (s + inner).len()) =~= e);
            lemma_open_depth_concat(s + inner, e);
        }
    };
}

/// `n` copies of a balanced list are balanced.
pub proof fn lemma_balanced_repeat(s: Seq<ActionV>, n: nat)
    requires
        balanced(s),
    ensures
        balanced(crate::ir::repeat_seq(s, n)),
    decreases n,
{
    if n == 0 {
        lemma_balanced_empty();
    } else {
        lemma_balanced_repeat(s, (n - 1) as nat);
        lemma_balanced_concat(s, crate::ir::repeat_seq(s, (n - 1) as nat));
    }
}

/// The empty action list is balanced.
pub proof fn lemma_balanced_empty()
    ensures
        balanced(Seq::<ActionV>::empty()),
{
    assert forall|k: int| 0 <= k <= 0 implies open_depth(
        #[trigger] Seq::<ActionV>::empty().take(k),
    ) >= 0 by {
        assert(Seq::<ActionV>::empty().take(k) =~= Seq::<ActionV>::empty());
    };
}

/// Every bracket-free fragment lowers to a balanced action list, so
/// linking it with `Program::build` always succeeds: loop nodes are the
/// only source of brackets, and they emit matched pairs.
pub proof fn lemma_bracket_free_balanced(it: ItemV)
    requires
        bracket_free(it),
    ensures
        balanced(lowered(it)),
    decreases it,
{
    match it {
        ItemV::Sequence(items) => {
            lemma_bracket_free_balanced_all(items);
        },
        ItemV::Direct(i) => {
            lemma_balanced_single(ActionV::Instr(i));
        },
        ItemV::Loop(lp) => {
            lemma_bracket_free_balanced_all(lp.body);
            lemma_balanced_wrap(lowered_all(lp.body));
            let openv: Seq<ActionV> = if lp.change_indent {
                seq![ActionV::Indent(true)]
            } else {
                Seq::<ActionV>::empty()
            };
            let closev: Seq<ActionV> = if lp.change_indent {
                seq![ActionV::Indent(false)]
            } else {
                Seq::<ActionV>::empty()
            };
            if lp.change_indent {
                lemma_balanced_single(ActionV::Indent(true));
                lemma_balanced_single(ActionV::Indent(false));
            } else {
                lemma_balanced_empty();
            }
            let mid = seq![ActionV::Instr(Instruction::Start)] + lowered_all(lp.body) + seq![
                ActionV::Instr(Instruction::End),
            ];
            lemma_balanced_concat(openv, mid);
            lemma_balanced_concat(openv + mid, closev);
            assert(lowered(it) =~= (openv + mid) + closev);
        },
        ItemV::Repeat(item, n) => {
            lemma_bracket_free_balanced(*item);
            lemma_balanced_repeat(lowered(*item), n);
        },
        ItemV::Comment(text, level) => {
            lemma_balanced_single(ActionV::Comment(text, level));
        },
        ItemV::EndComment => {
            lemma_balanced_single(ActionV::EndComment);
        },
        ItemV::AddMarker(name, site) => {
            lemma_balanced_single(ActionV::AddMarker(name, site));
        },
        ItemV::RemoveMarker(name) => {
            lemma_balanced_single(ActionV::RemoveMarker(name));
        },
        ItemV::AssertPosition(cell, message) => {
            lemma_balanced_single(ActionV::AssertPosition(cell, message));
        },
        ItemV::AssertRelativePosition(name, offset, message) => {
            lemma_balanced_single(ActionV::AssertRelativePosition(name, offset, message));
        },
    }
}

/// Every list of bracket-free fragments lowers to a balanced action list.
pub proof fn lemma_bracket_free_balanced_all(items: Seq<ItemV>)
    requires
        bracket_free_all(items),
    ensures
        balanced(lowered_all(items)),
    decreases items,
{
    if items.len() == 0 {
        lemma_balanced_empty();
    } else {
        lemma_bracket_free_balanced(items[0]);
        lemma_bracket_free_balanced_all(items.drop_first());
        lemma_balanced_concat(lowered(items[0]), lowered_all(items.drop_first()));
    }
}

/// Each instruction of a list as a direct item.
pub open spec fn direct_items(s: Seq<Instruction>) -> Seq<ItemV> {
    Seq::new(s.len(), |k: int| ItemV::Direct(s[k]))
}

/// Each instruction of a list as an instruction action.
pub open spec fn instr_actions(s: Seq<Instruction>) -> Seq<ActionV> {
    Seq::new(s.len(), |k: int| ActionV::Instr(s[k]))
}

/// The canonical characters of a list of instructions.
pub open spec fn chars_of(s: Seq<Instruction>) -> Seq<char> {
    Seq::new(s.len(), |k: int| s[k].char_of())
}

/// A list of direct items lowers to the corresponding instruction actions,
/// whose clean text is the corresponding characters.
pub proof fn lemma_direct_items(s: Seq<Instruction>)
    ensures
        lowered_all(direct_items(s)) == instr_actions(s),
        clean_text(instr_actions(s)) == chars_of(s),
    decreases s,
{
    if s.len() == 0 {
        assert(direct_items(s) =~= Seq::<ItemV>::empty());
        assert(instr_actions(s) =~= Seq::<ActionV>::empty());
        assert(chars_of(s) =~= Seq::<char>::empty());
    } else {
        let pre = s.drop_last();
        lemma_direct_items(pre);
        let x = ItemV::Direct(s.last());
        assert(direct_items(s) =~= direct_items(pre) + seq![x]);
        lemma_lowered_all_concat(direct_items(pre), seq![x]);
        lemma_lowered_all_one(x);
        assert(lowered(x) == seq![ActionV::Instr(s.last())]);
        assert(instr_actions(s) =~= instr_actions(pre) + seq![ActionV::Instr(s.last())]);
        assert(instr_actions(s).drop_last() =~= instr_actions(pre));
        assert(instr_actions(s).last() == ActionV::Instr(s.last()));
        assert(chars_of(s) =~= chars_of(pre) + seq![s.last().char_of()]);
    }
}

/// Parsing a byte string of valid program bytes and lowering the result
/// recovers the text: the clean text of the lowered actions spells each
/// byte's canonical character.
pub proof fn lemma_parse_round_trip(bs: Seq<u8>)
    requires
        forall|k: int| 0 <= k < bs.len() ==> Instruction::spec_from_byte(#[trigger] bs[k]) is Some,
    ensures
        clean_text(lowered(parse_bytes(bs))) == Seq::new(
            bs.len(),
            |k: int| inst_of_byte(bs[k]).char_of(),
        ),
{
    let insts = Seq::new(bs.len(), |k: int| inst_of_byte(bs[k]));
    assert(parse_bytes(bs) == ItemV::Sequence(direct_items(insts))) by {
        assert(Seq::new(bs.len(), |k: int| ItemV::Direct(inst_of_byte(bs[k]))) =~= direct_items(
            insts,
        ));
    };
    lemma_direct_items(insts);
    assert(clean_text(lowered(parse_bytes(bs))) =~= Seq::new(
        bs.len(),
        |k: int| inst_of_byte(bs[k]).char_of(),
    ));
}

/// Whether a character belongs to the eight-character program alphabet.
pub open spec fn alphabet_char(c: char) -> bool {
    c == '<' || c == '>' || c == '+' || c == '-' || c == ',' || c == '.' || c == '[' || c == ']'
}

/// For program text drawn from the alphabet `<>+-,.[]`, every byte parses,
/// and the clean text of the lowered parse equals the original text.
pub proof fn lemma_parse_round_trip_text(s: &str)
    requires
        forall|k: int| 0 <= k < s@.len() ==> alphabet_char(#[trigger] s@[k]),
    ensures
        forall|k: int|
            0 <= k < s.spec_bytes().len() ==> Instruction::spec_from_byte(
                #[trigger] s.spec_bytes()[k],
            ) is Some,
        clean_text(lowered(parse_bytes(s.spec_bytes()))) == s@,
{
    assert(vstd::string::is_ascii(s)) by {
        assert(forall|i: int| 0 <= i < s@.len() ==> '\0' <= #[trigger] s@[i] <= '\u{7f}');
    };
    vstd::string::is_ascii_spec_bytes(s);
    assert(s.spec_bytes() =~= Seq::new(s@.len(), |i: int| s@[i] as u8));
    assert forall|k: int| 0 <= k < s.spec_bytes().len() implies Instruction::spec_from_byte(
        #[trigger] s.spec_bytes()[k],
    ) is Some by {
        assert(alphabet_char(s@[k]));
    };
    lemma_parse_round_trip(s.spec_bytes());
    assert forall|k: int| 0 <= k < s@.len() implies inst_of_byte(s.spec_bytes()[k]).char_of()
        == s@[k] by {
        assert(alphabet_char(s@[k]));
    };
    assert(Seq::new(s.spec_bytes().len(), |k: int| inst_of_byte(s.spec_bytes()[k]).char_of())
        =~= s@);
}

} // verus!
