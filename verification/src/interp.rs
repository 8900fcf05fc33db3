//! The tape-machine interpreter: a growable 8-bit tape, an instruction
//! pointer, an in-memory input source and output sink, a marker table, and
//! the assertion failure protocol.
//!
//! The meaning of one action is the small-step function [`step_v`]; running
//! for a bounded number of steps is [`run_v`].  The executable interpreter
//! is proved to follow these functions exactly.

use vstd::prelude::*;
use vstd::string::{StringExecFns, StringSliceAdditionalSpecFns};

use crate::inst::Instruction;
use crate::ir::{ActionV, InterpreterAction, ItemV, lowered, lowered_all};
use crate::program::{Program, ProgramV, is_bracket};

verus! {

/// A marker: the head position recorded under a name, and the creation
/// site remembered for diagnostics.
#[derive(Debug)]
pub struct Marker {
    at: usize,
    created: String,
}

/// The mathematical value of a [`Marker`].
#[verifier::ext_equal]
pub struct MarkerV {
    pub at: nat,
    pub created: Seq<char>,
}

impl View for Marker {
    type V = MarkerV;

    closed spec fn view(&self) -> MarkerV {
        MarkerV { at: self.at as nat, created: self.created@ }
    }
}

impl Marker {
    /// The head position at which this marker was placed.
    pub fn at(&self) -> (r: usize)
        ensures
            r as nat == self@.at,
    {
        self.at
    }

    /// The creation site recorded when this marker was placed.
    pub fn creation_location(&self) -> (r: &String)
        ensures
            r@ == self@.created,
    {
        &self.created
    }
}

/// No two entries of a marker table carry the same name.
pub open spec fn unique_marker_names(s: Seq<(String, Marker)>) -> bool {
    forall|i: int, j: int|
        0 <= i < j < s.len() ==> (#[trigger] s[i]).0@ != (#[trigger] s[j]).0@
}

/// The mapping that a marker table stands for.
pub open spec fn markers_map(s: Seq<(String, Marker)>) -> Map<Seq<char>, MarkerV>
    decreases s,
{
    if s.len() == 0 {
        Map::empty()
    } else {
        markers_map(s.drop_last()).insert(s.last().0@, s.last().1@)
    }
}

/// The mapping contains exactly the table's names, and under unique names
/// each name maps to its entry's marker.
pub proof fn lemma_markers_map_char(s: Seq<(String, Marker)>)
    ensures
        forall|i: int|
            0 <= i < s.len() ==> markers_map(s).dom().contains((#[trigger] s[i]).0@),
        forall|k: Seq<char>|
            #[trigger] markers_map(s).dom().contains(k) ==> exists|i: int|
                0 <= i < s.len() && (#[trigger] s[i]).0@ == k,
        unique_marker_names(s) ==> forall|i: int|
            0 <= i < s.len() ==> markers_map(s)[(#[trigger] s[i]).0@] == s[i].1@,
    decreases s,
{
    if s.len() > 0 {
        let pre = s.drop_last();
        lemma_markers_map_char(pre);
        assert(forall|i: int| 0 <= i < pre.len() ==> #[trigger] pre[i] == s[i]);
        assert forall|i: int| 0 <= i < s.len() implies markers_map(s).dom().contains(
            (#[trigger] s[i]).0@,
        ) by {
            if i < s.len() - 1 {
                assert(markers_map(pre).dom().contains(pre[i].0@));
            }
        };
        assert forall|k: Seq<char>| #[trigger] markers_map(s).dom().contains(k) implies exists|
            i: int,
        |
            0 <= i < s.len() && (#[trigger] s[i]).0@ == k by {
            if k == s.last().0@ {
                assert(s[s.len() - 1].0@ == k);
            } else {
                assert(markers_map(pre).dom().contains(k));
                let i = choose|i: int| 0 <= i < pre.len() && (#[trigger] pre[i]).0@ == k;
                assert(s[i].0@ == k);
            }
        };
        if unique_marker_names(s) {
            assert(unique_marker_names(pre));
            assert forall|i: int| 0 <= i < s.len() implies markers_map(s)[(
            #[trigger] s[i]).0@] == s[i].1@ by {
                if i < s.len() - 1 {
                    assert(markers_map(pre)[pre[i].0@] == pre[i].1@);
                    assert(s[i].0@ != s[s.len() - 1].0@);
                }
            };
        }
    }
}

/// Removing the entry at `i` (by swapping in the last entry) removes
/// exactly that entry's name from the mapping.
pub proof fn lemma_markers_map_swap_remove(s: Seq<(String, Marker)>, i: int)
    requires
        unique_marker_names(s),
        0 <= i < s.len(),
    ensures
        markers_map(s.update(i, s.last()).drop_last()) == markers_map(s).remove(s[i].0@),
        unique_marker_names(s.update(i, s.last()).drop_last()),
{
    let t = s.update(i, s.last()).drop_last();
    lemma_markers_map_char(s);
    assert(unique_marker_names(t)) by {
        assert(forall|a: int|
            0 <= a < t.len() ==> (#[trigger] t[a]).0@ == (if a == i && i < s.len() - 1 {
                s.last().0@
            } else {
                s[a].0@
            }));
    };
    lemma_markers_map_char(t);
    assert forall|k: Seq<char>| #[trigger] markers_map(t).dom().contains(k) implies
        markers_map(s).remove(s[i].0@).dom().contains(k) by {
        let a = choose|a: int| 0 <= a < t.len() && (#[trigger] t[a]).0@ == k;
        if a == i && i < s.len() - 1 {
            assert(s[s.len() - 1].0@ == k);
        } else {
            assert(s[a].0@ == k);
        }
    };
    assert forall|k: Seq<char>| #[trigger]
        markers_map(s).remove(s[i].0@).dom().contains(k) implies markers_map(t).dom().contains(
        k,
    ) && markers_map(t)[k] == markers_map(s).remove(s[i].0@)[k] by {
        let a = choose|a: int| 0 <= a < s.len() && (#[trigger] s[a]).0@ == k;
        assert(a != i);
        if a == s.len() - 1 {
            assert(i < s.len() - 1);
            assert(t[i].0@ == k && t[i].1@ == s[a].1@);
            assert(markers_map(t)[k] == t[i].1@);
        } else {
            assert(t[a].0@ == k && t[a].1@ == s[a].1@);
            assert(markers_map(t)[k] == t[a].1@);
        }
        assert(markers_map(s)[k] == s[a].1@);
    };
    assert(markers_map(t) =~= markers_map(s).remove(s[i].0@));
}

/// The full state of a running interpreter, mathematically.
#[verifier::ext_equal]
pub struct StateV {
    /// The tape contents.
    pub tape: Seq<u8>,
    /// The head: the current tape index.
    pub head: nat,
    /// The current action index.
    pub ip: nat,
    /// The input byte source.
    pub input: Seq<u8>,
    /// How many input bytes have been consumed.
    pub in_pos: nat,
    /// The bytes written so far.
    pub output: Seq<u8>,
    /// The minimum importance level at which comments are echoed.
    pub level: Option<u8>,
    /// The markers currently placed.
    pub markers: Map<Seq<char>, MarkerV>,
    /// The diagnostic lines emitted so far.
    pub diags: Seq<Seq<char>>,
}

/// A fatal interpreter error, mathematically.
#[verifier::ext_equal]
pub enum ErrV {
    /// A `<` was executed with the head already on cell 0.
    PointerUnderflow,
    /// A `>` would move the head beyond the machine's addressable range.
    TapeLimit,
    /// A marker was placed under a name already in use.
    DuplicateMarker { name: Seq<char> },
    /// A marker was removed or consulted under an unknown name.
    MissingMarker { name: Seq<char> },
    /// An absolute position assertion failed.
    PositionMismatch {
        expected: nat,
        found: nat,
        source: Seq<char>,
        tape: Seq<u8>,
    },
    /// A marker-relative position assertion failed.
    MarkerMismatch {
        name: Seq<char>,
        base: nat,
        created: Seq<char>,
        offset: int,
        found: nat,
        source: Seq<char>,
        tape: Seq<u8>,
    },
}

/// A fatal interpreter error: the runtime invariant that was violated,
/// with what the diagnostic needs.
#[derive(Debug)]
pub enum RunError {
    /// A `<` was executed with the head already on cell 0.
    PointerUnderflow,
    /// A `>` would move the head beyond the machine's addressable range.
    TapeLimit,
    /// A marker was placed under a name already in use.
    DuplicateMarker { name: String },
    /// A marker was removed or consulted under an unknown name.
    MissingMarker { name: String },
    /// An absolute position assertion failed.
    PositionMismatch { expected: usize, found: usize, source: String, tape: Vec<u8> },
    /// A marker-relative position assertion failed.
    MarkerMismatch {
        name: String,
        base: usize,
        created: String,
        offset: isize,
        found: usize,
        source: String,
        tape: Vec<u8>,
    },
}

impl View for RunError {
    type V = ErrV;

    open spec fn view(&self) -> ErrV {
        match self {
            RunError::PointerUnderflow => ErrV::PointerUnderflow,
            RunError::TapeLimit => ErrV::TapeLimit,
            RunError::DuplicateMarker { name } => ErrV::DuplicateMarker { name: name@ },
            RunError::MissingMarker { name } => ErrV::MissingMarker { name: name@ },
            RunError::PositionMismatch { expected, found, source, tape } => {
                ErrV::PositionMismatch {
                    expected: *expected as nat,
                    found: *found as nat,
                    source: source@,
                    tape: tape@,
                }
            },
            RunError::MarkerMismatch { name, base, created, offset, found, source, tape } => {
                ErrV::MarkerMismatch {
                    name: name@,
                    base: *base as nat,
                    created: created@,
                    offset: *offset as int,
                    found: *found as nat,
                    source: source@,
                    tape: tape@,
                }
            },
        }
    }
}

/// One cell value incremented with 8-bit wrap-around.
pub open spec fn wrap_inc(v: u8) -> u8 {
    (((v as int) + 1) % 256) as u8
}

/// One cell value decremented with 8-bit wrap-around.
pub open spec fn wrap_dec(v: u8) -> u8 {
    (((v as int) + 255) % 256) as u8
}

/// A cell incremented `n` times with 8-bit wrap-around.
pub open spec fn iter_wrap_inc(v: u8, n: nat) -> u8
    decreases n,
{
    if n == 0 {
        v
    } else {
        wrap_inc(iter_wrap_inc(v, (n - 1) as nat))
    }
}

/// `n` wrapped increments add `n` modulo 256.
pub proof fn lemma_iter_wrap_inc(v: u8, n: nat)
    ensures
        iter_wrap_inc(v, n) as int == (v + n) % 256,
    decreases n,
{
    if n > 0 {
        lemma_iter_wrap_inc(v, (n - 1) as nat);
        assert(((v + n - 1) % 256 + 1) % 256 == (v + n) % 256) by (nonlinear_arith);
    }
}

/// From any starting value, 256 wrapped increments return a cell to that
/// value, and one wrapped decrement of a zero cell yields 255.
pub proof fn lemma_cell_wrap(v: u8)
    ensures
        iter_wrap_inc(v, 256) == v,
        wrap_dec(0) == 255,
{
    lemma_iter_wrap_inc(v, 256);
    assert((v + 256) % 256 == v as int % 256) by (nonlinear_arith);
}

/// The diagnostic line echoed for a comment.
pub open spec fn comment_line(text: Seq<char>) -> Seq<char> {
    seq!['|', '>', ' '] + text
}

/// The outcome of one step.
#[verifier::ext_equal]
pub enum StepV {
    /// The machine continues in this state.
    Next(StateV),
    /// The run ends fatally.
    Fail(ErrV),
}

/// The small-step meaning of the action at `s.ip`.
///
/// Every case follows the per-action semantics: moves fail on underflow and
/// grow the tape on demand, cell arithmetic wraps at 8 bits, input reads
/// yield 0 at end of input, loop brackets jump using the linked pairing,
/// comments at or above the print level are echoed, markers are placed and
/// removed with duplicate and missing names fatal, and position assertions
/// compare the head against their target.
pub open spec fn step_v(p: ProgramV, s: StateV) -> StepV
    recommends
        s.ip < p.actions.len(),
{
    match p.actions[s.ip as int] {
        ActionV::Instr(Instruction::Left) => {
            if s.head == 0 {
                StepV::Fail(ErrV::PointerUnderflow)
            } else {
                StepV::Next(StateV { head: (s.head - 1) as nat, ip: s.ip + 1, ..s })
            }
        },
        ActionV::Instr(Instruction::Right) => {
            if s.head + 2 > usize::MAX {
                StepV::Fail(ErrV::TapeLimit)
            } else {
                let grown = if s.head + 1 < s.tape.len() {
                    s.tape
                } else {
                    s.tape + Seq::new((s.head + 2 - s.tape.len()) as nat, |k: int| 0u8)
                };
                StepV::Next(StateV { tape: grown, head: s.head + 1, ip: s.ip + 1, ..s })
            }
        },
        ActionV::Instr(Instruction::Inc) => StepV::Next(
            StateV {
                tape: s.tape.update(s.head as int, wrap_inc(s.tape[s.head as int])),
                ip: s.ip + 1,
                ..s
            },
        ),
        ActionV::Instr(Instruction::Dec) => StepV::Next(
            StateV {
                tape: s.tape.update(s.head as int, wrap_dec(s.tape[s.head as int])),
                ip: s.ip + 1,
                ..s
            },
        ),
        ActionV::Instr(Instruction::Input) => {
            if s.in_pos < s.input.len() {
                StepV::Next(
                    StateV {
                        tape: s.tape.update(s.head as int, s.input[s.in_pos as int]),
                        in_pos: s.in_pos + 1,
                        ip: s.ip + 1,
                        ..s
                    },
                )
            } else {
                StepV::Next(StateV { tape: s.tape.update(s.head as int, 0u8), ip: s.ip + 1, ..s })
            }
        },
        ActionV::Instr(Instruction::Output) => StepV::Next(
            StateV { output: s.output.push(s.tape[s.head as int]), ip: s.ip + 1, ..s },
        ),
        ActionV::Instr(Instruction::Start) => {
            if s.tape[s.head as int] == 0 {
                StepV::Next(StateV { ip: (p.pairs[s.ip as usize] + 1) as nat, ..s })
            } else {
                StepV::Next(StateV { ip: s.ip + 1, ..s })
            }
        },
        ActionV::Instr(Instruction::End) => {
            if s.tape[s.head as int] != 0 {
                StepV::Next(StateV { ip: (p.pairs[s.ip as usize] + 1) as nat, ..s })
            } else {
                StepV::Next(StateV { ip: s.ip + 1, ..s })
            }
        },
        ActionV::Comment(text, level) => {
            let echoed = match s.level {
                Some(min) => level >= min,
                None => false,
            };
            if echoed {
                StepV::Next(StateV { diags: s.diags.push(comment_line(text)), ip: s.ip + 1, ..s })
            } else {
                StepV::Next(StateV { ip: s.ip + 1, ..s })
            }
        },
        ActionV::EndComment => StepV::Next(StateV { ip: s.ip + 1, ..s }),
        ActionV::Indent(_) => StepV::Next(StateV { ip: s.ip + 1, ..s }),
        ActionV::AddMarker(name, site) => {
            if s.markers.dom().contains(name) {
                StepV::Fail(ErrV::DuplicateMarker { name })
            } else {
                StepV::Next(
                    StateV {
                        markers: s.markers.insert(name, MarkerV { at: s.head, created: site }),
                        ip: s.ip + 1,
                        ..s
                    },
                )
            }
        },
        ActionV::RemoveMarker(name) => {
            if s.markers.dom().contains(name) {
                StepV::Next(StateV { markers: s.markers.remove(name), ip: s.ip + 1, ..s })
            } else {
                StepV::Fail(ErrV::MissingMarker { name })
            }
        },
        ActionV::AssertPosition(cell, message) => {
            if s.head == cell {
                StepV::Next(StateV { ip: s.ip + 1, ..s })
            } else {
                StepV::Fail(
                    ErrV::PositionMismatch {
                        expected: cell,
                        found: s.head,
                        source: message,
                        tape: s.tape,
                    },
                )
            }
        },
        ActionV::AssertRelativePosition(name, offset, message) => {
            if !s.markers.dom().contains(name) {
                StepV::Fail(ErrV::MissingMarker { name })
            } else {
                let m = s.markers[name];
                if s.head as int == m.at + offset {
                    StepV::Next(StateV { ip: s.ip + 1, ..s })
                } else {
                    StepV::Fail(
                        ErrV::MarkerMismatch {
                            name,
                            base: m.at,
                            created: m.created,
                            offset,
                            found: s.head,
                            source: message,
                            tape: s.tape,
                        },
                    )
                }
            }
        },
    }
}

/// The outcome of running for a bounded number of steps.
#[verifier::ext_equal]
pub enum RunV {
    /// The step bound ran out with the machine still going.
    Running(StateV),
    /// The instruction pointer ran off the end of the program.
    Done(StateV),
    /// The run ended fatally in this state.
    Failed(StateV, ErrV),
}

/// Run the machine from `s` for at most `n` steps.
pub open spec fn run_v(p: ProgramV, s: StateV, n: nat) -> RunV
    decreases n,
{
    if s.ip >= p.actions.len() {
        RunV::Done(s)
    } else if n == 0 {
        RunV::Running(s)
    } else {
        match step_v(p, s) {
            StepV::Next(s2) => run_v(p, s2, (n - 1) as nat),
            StepV::Fail(e) => RunV::Failed(s, e),
        }
    }
}

/// Steps compose: running `n + m` steps is running `m` steps from wherever
/// `n` steps led.
pub proof fn lemma_run_v_compose(p: ProgramV, s0: StateV, n: nat, cur: StateV, m: nat)
    requires
        run_v(p, s0, n) == RunV::Running(cur),
    ensures
        run_v(p, s0, (n + m) as nat) == run_v(p, cur, m),
    decreases n,
{
    if n == 0 {
        assert(cur == s0);
    } else {
        match step_v(p, s0) {
            StepV::Next(s1) => {
                lemma_run_v_compose(p, s1, (n - 1) as nat, cur, m);
            },
            StepV::Fail(_) => {
                assert(false);
            },
        }
    }
}

/// The linked program of the canonical zero-cell idiom `[-]`.
pub open spec fn zero_cell_program() -> ProgramV {
    ProgramV {
        actions: seq![
            ActionV::Instr(Instruction::Start),
            ActionV::Instr(Instruction::Dec),
            ActionV::Instr(Instruction::End),
        ],
        pairs: Map::<usize, usize>::empty().insert(0usize, 2usize).insert(2usize, 0usize),
    }
}

/// The zero-cell idiom's program is exactly the lowering of the
/// [`crate::ir::zero_cell`] fragment, and it is well formed.
pub proof fn lemma_zero_cell_program_matches()
    ensures
        zero_cell_program().actions == lowered(
            ItemV::Loop(
                crate::ir::LoopV {
                    body: seq![ItemV::Direct(Instruction::Dec)],
                    change_indent: false,
                },
            ),
        ),
        zero_cell_program().wf(),
{
    crate::ir::lemma_lowered_all_one(ItemV::Direct(Instruction::Dec));
    assert(zero_cell_program().actions =~= Seq::<ActionV>::empty() + seq![
        ActionV::Instr(Instruction::Start),
    ] + lowered_all(seq![ItemV::Direct(Instruction::Dec)]) + seq![
        ActionV::Instr(Instruction::End),
    ] + Seq::<ActionV>::empty());
    let p = zero_cell_program();
    assert forall|i: usize| #[trigger] p.pairs.dom().contains(i) implies (i as int)
        < p.actions.len() && is_bracket(p.actions[i as int]) by {
        assert(i == 0 || i == 2);
    };
    assert forall|i: usize|
        #[trigger] p.pairs.dom().contains(i) && p.actions[i as int] == ActionV::Instr(
            Instruction::Start,
        ) implies crate::program::balanced(
        p.actions.subrange(i as int + 1, p.pairs[i] as int),
    ) by {
        assert(i == 0);
        assert(p.actions.subrange(1, 2) =~= seq![ActionV::Instr(Instruction::Dec)]);
        crate::program::lemma_balanced_single(ActionV::Instr(Instruction::Dec));
    };
}

/// Running the zero-cell idiom from any state zeroes the current cell and
/// leaves the machine one past the loop, after one step for entering the
/// loop and two steps per unit of the cell's value.
pub proof fn lemma_zero_cell_runs_to_zero(s: StateV)
    requires
        s.ip == 0,
        s.head < s.tape.len(),
    ensures
        run_v(
            zero_cell_program(),
            s,
            (2 * (s.tape[s.head as int] as nat) + 1) as nat,
        ) == RunV::Done(StateV { tape: s.tape.update(s.head as int, 0u8), ip: 3, ..s }),
{
    let p = zero_cell_program();
    let v = s.tape[s.head as int];
    if v == 0 {
        let s1 = StateV { ip: (p.pairs[0usize] + 1) as nat, ..s };
        assert(step_v(p, s) == StepV::Next(s1));
        assert(run_v(p, s, 1) == run_v(p, s1, 0));
        assert(run_v(p, s1, 0) == RunV::Done(s1));
        assert(s1 =~= (StateV { tape: s.tape.update(s.head as int, 0u8), ip: 3, ..s }));
    } else {
        let s1 = StateV { ip: 1, ..s };
        assert(step_v(p, s) == StepV::Next(s1));
        assert(run_v(p, s, (2 * (v as nat) + 1) as nat) == run_v(p, s1, (2 * (v as nat)) as nat));
        lemma_zero_cell_loop_body(s1);
        assert(s1.tape.update(s1.head as int, 0u8) =~= s.tape.update(s.head as int, 0u8));
        assert((StateV { tape: s1.tape.update(s1.head as int, 0u8), ip: 3, ..s1 }) =~= (StateV {
            tape: s.tape.update(s.head as int, 0u8),
            ip: 3,
            ..s
        }));
    }
}

/// One round of the zero-cell loop body: from the decrement, the machine
/// takes two steps per unit of the cell and stops one past the loop.
proof fn lemma_zero_cell_loop_body(s: StateV)
    requires
        s.ip == 1,
        s.head < s.tape.len(),
        s.tape[s.head as int] > 0,
    ensures
        run_v(zero_cell_program(), s, (2 * (s.tape[s.head as int] as nat)) as nat) == RunV::Done(
            StateV { tape: s.tape.update(s.head as int, 0u8), ip: 3, ..s },
        ),
    decreases s.tape[s.head as int],
{
    let p = zero_cell_program();
    let v = s.tape[s.head as int];
    let decd = wrap_dec(v);
    assert(decd == v - 1);
    let s1 = StateV { tape: s.tape.update(s.head as int, decd), ip: 2, ..s };
    assert(step_v(p, s) == StepV::Next(s1));
    assert(run_v(p, s, (2 * (v as nat)) as nat) == run_v(p, s1, (2 * (v as nat) - 1) as nat));
    if v == 1 {
        let s2 = StateV { ip: 3, ..s1 };
        assert(step_v(p, s1) == StepV::Next(s2));
        assert(run_v(p, s1, 1) == run_v(p, s2, 0));
        assert(run_v(p, s2, 0) == RunV::Done(s2));
        assert(s2 =~= (StateV { tape: s.tape.update(s.head as int, 0u8), ip: 3, ..s }));
    } else {
        let s2 = StateV { ip: (p.pairs[2usize] + 1) as nat, ..s1 };
        assert(step_v(p, s1) == StepV::Next(s2));
        assert(run_v(p, s1, (2 * (v as nat) - 1) as nat) == run_v(
            p,
            s2,
            (2 * (v as nat) - 2) as nat,
        ));
        assert(s2.ip == 1 && s2.tape[s2.head as int] == v - 1);
        lemma_zero_cell_loop_body(s2);
        assert(s2.tape.update(s2.head as int, 0u8) =~= s.tape.update(s.head as int, 0u8));
        assert((StateV { tape: s2.tape.update(s2.head as int, 0u8), ip: 3, ..s2 }) =~= (StateV {
            tape: s.tape.update(s.head as int, 0u8),
            ip: 3,
            ..s
        }));
    }
}

/// The initial state of an interpreter over the given input: a one-cell
/// zero tape, everything else at its starting point.
pub open spec fn initial_state(input: Seq<u8>) -> StateV {
    StateV {
        tape: seq![0u8],
        head: 0,
        ip: 0,
        input,
        in_pos: 0,
        output: Seq::empty(),
        level: None,
        markers: Map::empty(),
        diags: Seq::empty(),
    }
}

/// An interpreter: a linked program together with the machine state it
/// drives.
#[derive(Debug)]
pub struct Interpreter {
    program: Program,
    input: Vec<u8>,
    input_pos: usize,
    output: Vec<u8>,
    diagnostics: Vec<String>,
    instruction_pointer: usize,
    tape_pointer: usize,
    tape: Vec<u8>,
    printing_level: Option<u8>,
    markers: Vec<(String, Marker)>,
}

impl Interpreter {
    /// The program being run.
    pub closed spec fn prog(&self) -> ProgramV {
        self.program@
    }

    /// The machine state.
    pub closed spec fn st(&self) -> StateV {
        StateV {
            tape: self.tape@,
            head: self.tape_pointer as nat,
            ip: self.instruction_pointer as nat,
            input: self.input@,
            in_pos: self.input_pos as nat,
            output: self.output@,
            level: self.printing_level,
            markers: markers_map(self.markers@),
            diags: self.diagnostics.deep_view(),
        }
    }

    /// The interpreter's internal invariant: the program is linked, the
    /// head rests on an existing cell, the instruction pointer never passes
    /// one beyond the program, and marker names are unique.
    pub closed spec fn wf(&self) -> bool {
        &&& self.program@.wf()
        &&& (self.tape_pointer as int) < self.tape@.len()
        &&& (self.instruction_pointer as int) <= self.program@.actions.len()
        &&& (self.input_pos as int) <= self.input@.len()
        &&& unique_marker_names(self.markers@)
    }

    /// A fresh interpreter over a linked program and an input byte string.
    pub fn new(program: Program, input: Vec<u8>) -> (r: Interpreter)
        requires
            program@.wf(),
        ensures
            r.wf(),
            r.prog() == program@,
            r.st() == initial_state(input@),
    {
        let mut tape: Vec<u8> = Vec::new();
        tape.push(0);
        let r = Interpreter {
            program,
            input,
            input_pos: 0,
            output: Vec::new(),
            diagnostics: Vec::new(),
            instruction_pointer: 0,
            tape_pointer: 0,
            tape,
            printing_level: None,
            markers: Vec::new(),
        };
        proof {
            assert(r.st().tape =~= seq![0u8]);
            assert(r.st().markers =~= Map::<Seq<char>, MarkerV>::empty());
            assert(r.st().diags =~= Seq::<Seq<char>>::empty());
            assert(r.st() =~= initial_state(r.st().input));
        }
        r
    }

    /// Echo comments whose importance level is at least `level`.
    pub fn set_print_level(&mut self, level: u8)
        ensures
            final(self).st() == (StateV { level: Some(level), ..old(self).st() }),
            final(self).prog() == old(self).prog(),
            old(self).wf() ==> final(self).wf(),
    {
        self.printing_level = Some(level);
        proof {
            assert(self.st() =~= (StateV { level: Some(level), ..old(self).st() }));
        }
    }

    /// The bytes written by `.` instructions so far, in program order.
    pub fn output(&self) -> (r: &Vec<u8>)
        ensures
            r@ == self.st().output,
    {
        &self.output
    }

    /// The diagnostic lines emitted so far: echoed comments, in program
    /// order.
    pub fn diagnostics(&self) -> (r: &Vec<String>)
        ensures
            r.deep_view() == self.st().diags,
    {
        &self.diagnostics
    }

    /// A read-only view of the tape and the head position.
    pub fn tape(&self) -> (r: Tape<'_>)
        ensures
            r@.cells == self.st().tape,
            r@.at == self.st().head,
    {
        Tape { at: self.tape_pointer, cells: self.tape.as_slice() }
    }
}

/// A read-only view of a tape: its cells and the current head position.
pub struct Tape<'a> {
    at: usize,
    cells: &'a [u8],
}

/// The mathematical value of a [`Tape`].
#[verifier::ext_equal]
pub struct TapeV {
    pub at: nat,
    pub cells: Seq<u8>,
}

impl View for Tape<'_> {
    type V = TapeV;

    closed spec fn view(&self) -> TapeV {
        TapeV { at: self.at as nat, cells: self.cells@ }
    }
}

impl Tape<'_> {
    /// The number of cells.
    pub fn len(&self) -> (r: usize)
        ensures
            r as int == self@.cells.len(),
    {
        self.cells.len()
    }

    /// The head: the current tape index.
    pub fn at(&self) -> (r: usize)
        ensures
            r as nat == self@.at,
    {
        self.at
    }

    /// The value of cell `i`.
    pub fn get(&self, i: usize) -> (r: u8)
        requires
            (i as int) < self@.cells.len(),
        ensures
            r == self@.cells[i as int],
    {
        self.cells[i]
    }

    /// Render this tape with the head cell bracketed: `[ 0 5 [ 42] 7 0 ]`.
    pub fn render(&self) -> (r: String)
        ensures
            r@ == crate::text::tape_text(self@.cells, self@.at as int),
    {
        crate::text::tape_string(self.cells, self.at)
    }
}

/// What reading the expected head position of a failed marker assertion
/// shows: the digits when the target exists, a note otherwise.
pub open spec fn expected_cell_text(base: nat, offset: int) -> Seq<char> {
    if 0 <= base + offset <= usize::MAX {
        crate::text::dec_digits((base + offset) as nat)
    } else {
        "out of range"@
    }
}

/// The diagnostic text of a fatal error: the violated invariant, the
/// expected and observed positions, the creation site of any referenced
/// marker, and a rendering of the tape with the head cell bracketed.
pub open spec fn err_message(e: ErrV) -> Seq<char> {
    match e {
        ErrV::PointerUnderflow => "tape pointer underflow"@,
        ErrV::TapeLimit => "tape pointer beyond addressable range"@,
        ErrV::DuplicateMarker { name } => "marker \""@ + name + "\" already exists"@,
        ErrV::MissingMarker { name } => "marker \""@ + name + "\" does not exist"@,
        ErrV::PositionMismatch { expected, found, source, tape } => "mismatched positions\nexpected: "@
            + crate::text::dec_digits(expected) + "\nactual  : "@ + crate::text::dec_digits(found)
            + "\nsource  : "@ + source + "\n"@ + crate::text::tape_text(tape, found as int),
        ErrV::MarkerMismatch { name, base, created, offset, found, source, tape } => "mismatched marker, offset "@
            + crate::text::dec_digits_signed(offset) + "\n["@ + created + "] placed marker \""@
            + name + "\" at "@ + crate::text::dec_digits(base) + "\nexpected: "@
            + expected_cell_text(base, offset) + "\nfound   : "@ + crate::text::dec_digits(found)
            + "\nsource  : "@ + source + "\n"@ + crate::text::tape_text(tape, found as int),
    }
}

impl RunError {
    /// The diagnostic text of this error.
    pub fn message(&self) -> (r: String)
        ensures
            r@ == err_message(self@),
    {
        match self {
            RunError::PointerUnderflow => "tape pointer underflow".to_owned(),
            RunError::TapeLimit => "tape pointer beyond addressable range".to_owned(),
            RunError::DuplicateMarker { name } => {
                let mut s = "marker \"".to_owned();
                s.append(name.as_str());
                s.append("\" already exists");
                s
            },
            RunError::MissingMarker { name } => {
                let mut s = "marker \"".to_owned();
                s.append(name.as_str());
                s.append("\" does not exist");
                s
            },
            RunError::PositionMismatch { expected, found, source, tape } => {
                let mut s = "mismatched positions\nexpected: ".to_owned();
                crate::text::push_dec(*expected as u64, &mut s);
                s.append("\nactual  : ");
                crate::text::push_dec(*found as u64, &mut s);
                s.append("\nsource  : ");
                s.append(source.as_str());
                s.append("\n");
                let rendered = crate::text::tape_string(tape.as_slice(), *found);
                s.append(rendered.as_str());
                proof {
                    assert(s@ =~= err_message(self@));
                }
                s
            },
            RunError::MarkerMismatch { name, base, created, offset, found, source, tape } => {
                let mut s = "mismatched marker, offset ".to_owned();
                if *offset < 0 {
                    s.append("-");
                    let mag: usize = (-(*offset + 1)) as usize + 1;
                    crate::text::push_dec(mag as u64, &mut s);
                    proof {
                        reveal_strlit("-");
                        assert("-"@ =~= seq!['-']);
                        assert(s@ =~= "mismatched marker, offset "@ + crate::text::dec_digits_signed(
                            *offset as int,
                        ));
                    }
                } else {
                    crate::text::push_dec(*offset as u64, &mut s);
                }
                s.append("\n[");
                s.append(created.as_str());
                s.append("] placed marker \"");
                s.append(name.as_str());
                s.append("\" at ");
                crate::text::push_dec(*base as u64, &mut s);
                s.append("\nexpected: ");
                if *offset >= 0 {
                    let mag = *offset as usize;
                    if *base <= usize::MAX - mag {
                        crate::text::push_dec((*base + mag) as u64, &mut s);
                    } else {
                        s.append("out of range");
                    }
                } else {
                    let mag: usize = (-(*offset + 1)) as usize + 1;
                    if *base >= mag {
                        crate::text::push_dec((*base - mag) as u64, &mut s);
                    } else {
                        s.append("out of range");
                    }
                }
                s.append("\nfound   : ");
                crate::text::push_dec(*found as u64, &mut s);
                s.append("\nsource  : ");
                s.append(source.as_str());
                s.append("\n");
                let rendered = crate::text::tape_string(tape.as_slice(), *found);
                s.append(rendered.as_str());
                proof {
                    assert(s@ =~= err_message(self@));
                }
                s
            },
        }
    }
}

/// Append zero cells until the tape is at least `target_len` cells long.
fn grow_tape(tape: &mut Vec<u8>, target_len: usize)
    ensures
        final(tape)@ == (if old(tape)@.len() >= target_len {
            old(tape)@
        } else {
            old(tape)@ + Seq::new((target_len - old(tape)@.len()) as nat, |k: int| 0u8)
        }),
{
    let ghost base = tape@;
    #[verifier::loop_isolation(false)]
    while tape.len() < target_len
        invariant
            base.len() <= tape@.len(),
            base.len() >= target_len ==> tape@.len() == base.len(),
            base.len() < target_len ==> tape@.len() <= target_len,
            forall|k: int| 0 <= k < base.len() ==> tape@[k] == base[k],
            forall|k: int| base.len() <= k < tape@.len() ==> tape@[k] == 0u8,
        decreases target_len - tape@.len(),
    {
        tape.push(0);
    }
    proof {
        if base.len() >= target_len {
            assert(tape@ =~= base);
        } else {
            assert(tape@ =~= base + Seq::new((target_len - base.len()) as nat, |k: int| 0u8));
        }
    }
}

/// A fresh copy of a byte vector.
fn copy_bytes(v: &Vec<u8>) -> (r: Vec<u8>)
    ensures
        r@ == v@,
{
    let mut r: Vec<u8> = Vec::new();
    let n = v.len();
    #[verifier::loop_isolation(false)]
    for i in 0..n
        invariant
            r@ == v@.take(i as int),
    {
        r.push(v[i]);
        proof {
            assert(r@ =~= v@.take(i + 1));
        }
    }
    proof {
        assert(v@.take(n as int) =~= v@);
    }
    r
}

/// The index of the marker table entry with the given name, if any.
fn find_marker(markers: &Vec<(String, Marker)>, name: &String) -> (r: Option<usize>)
    ensures
        match r {
            Some(i) => (i as int) < markers@.len() && markers@[i as int].0@ == name@,
            None => forall|i: int|
                0 <= i < markers@.len() ==> (#[trigger] markers@[i as int]).0@ != name@,
        },
{
    let n = markers.len();
    #[verifier::loop_isolation(false)]
    for i in 0..n
        invariant
            forall|k: int| 0 <= k < i ==> (#[trigger] markers@[k]).0@ != name@,
    {
        let pair = &markers[i];
        if pair.0 == *name {
            return Some(i);
        }
    }
    None
}

/// Appending one entry inserts its name.
proof fn lemma_markers_map_push(s: Seq<(String, Marker)>, x: (String, Marker))
    ensures
        markers_map(s.push(x)) == markers_map(s).insert(x.0@, x.1@),
{
    assert(s.push(x).drop_last() =~= s);
    assert(s.push(x).last() == x);
}

impl Interpreter {
    /// Perform the action under the instruction pointer, exactly as
    /// [`step_v`] describes; a fatal error leaves the state unchanged.
    fn step(&mut self) -> (r: Result<(), RunError>)
        requires
            old(self).wf(),
            old(self).st().ip < old(self).prog().actions.len(),
        ensures
            final(self).prog() == old(self).prog(),
            final(self).wf(),
            match r {
                Ok(()) => step_v(old(self).prog(), old(self).st()) == StepV::Next(
                    final(self).st(),
                ),
                Err(e) => step_v(old(self).prog(), old(self).st()) == StepV::Fail(e@)
                    && final(self).st() == old(self).st(),
            },
    {
        let ghost p = self.prog();
        let ghost s0 = self.st();
        let ip = self.instruction_pointer;
        let action = self.program.action_at(ip);
        match action {
            InterpreterAction::Instruction(Instruction::Left) => {
                proof {
                    assert(p.actions[s0.ip as int] == ActionV::Instr(Instruction::Left));
                }
                if self.tape_pointer == 0 {
                    return Err(RunError::PointerUnderflow);
                }
                self.tape_pointer = self.tape_pointer - 1;
                self.instruction_pointer = ip + 1;
                proof {
                    assert(self.st() =~= (StateV {
                        head: (s0.head - 1) as nat,
                        ip: s0.ip + 1,
                        ..s0
                    }));
                }
                Ok(())
            },
            InterpreterAction::Instruction(Instruction::Right) => {
                proof {
                    assert(p.actions[s0.ip as int] == ActionV::Instr(Instruction::Right));
                }
                if self.tape_pointer >= usize::MAX - 1 {
                    return Err(RunError::TapeLimit);
                }
                self.tape_pointer = self.tape_pointer + 1;
                let target = self.tape_pointer + 1;
                grow_tape(&mut self.tape, target);
                self.instruction_pointer = ip + 1;
                proof {
                    let grown = if s0.head + 1 < s0.tape.len() {
                        s0.tape
                    } else {
                        s0.tape + Seq::new((s0.head + 2 - s0.tape.len()) as nat, |k: int| 0u8)
                    };
                    assert(self.tape@ == grown);
                    assert(self.st() =~= (StateV {
                        tape: grown,
                        head: s0.head + 1,
                        ip: s0.ip + 1,
                        ..s0
                    }));
                }
                Ok(())
            },
            InterpreterAction::Instruction(Instruction::Inc) => {
                proof {
                    assert(p.actions[s0.ip as int] == ActionV::Instr(Instruction::Inc));
                }
                let v = self.tape[self.tape_pointer];
                self.tape[self.tape_pointer] = v.wrapping_add(1);
                self.instruction_pointer = ip + 1;
                proof {
                    assert(v.wrapping_add(1) == wrap_inc(v));
                    assert(self.st() =~= (StateV {
                        tape: s0.tape.update(s0.head as int, wrap_inc(v)),
                        ip: s0.ip + 1,
                        ..s0
                    }));
                }
                Ok(())
            },
            InterpreterAction::Instruction(Instruction::Dec) => {
                proof {
                    assert(p.actions[s0.ip as int] == ActionV::Instr(Instruction::Dec));
                }
                let v = self.tape[self.tape_pointer];
                self.tape[self.tape_pointer] = v.wrapping_sub(1);
                self.instruction_pointer = ip + 1;
                proof {
                    assert(v.wrapping_sub(1) == wrap_dec(v));
                    assert(self.st() =~= (StateV {
                        tape: s0.tape.update(s0.head as int, wrap_dec(v)),
                        ip: s0.ip + 1,
                        ..s0
                    }));
                }
                Ok(())
            },
            InterpreterAction::Instruction(Instruction::Input) => {
                proof {
                    assert(p.actions[s0.ip as int] == ActionV::Instr(Instruction::Input));
                }
                if self.input_pos < self.input.len() {
                    let b = self.input[self.input_pos];
                    self.input_pos = self.input_pos + 1;
                    self.tape[self.tape_pointer] = b;
                    self.instruction_pointer = ip + 1;
                    proof {
                        assert(self.st() =~= (StateV {
                            tape: s0.tape.update(s0.head as int, s0.input[s0.in_pos as int]),
                            in_pos: s0.in_pos + 1,
                            ip: s0.ip + 1,
                            ..s0
                        }));
                    }
                } else {
                    self.tape[self.tape_pointer] = 0;
                    self.instruction_pointer = ip + 1;
                    proof {
                        assert(self.st() =~= (StateV {
                            tape: s0.tape.update(s0.head as int, 0u8),
                            ip: s0.ip + 1,
                            ..s0
                        }));
                    }
                }
                Ok(())
            },
            InterpreterAction::Instruction(Instruction::Output) => {
                proof {
                    assert(p.actions[s0.ip as int] == ActionV::Instr(Instruction::Output));
                }
                let b = self.tape[self.tape_pointer];
                self.output.push(b);
                self.instruction_pointer = ip + 1;
                proof {
                    assert(self.st() =~= (StateV {
                        output: s0.output.push(s0.tape[s0.head as int]),
                        ip: s0.ip + 1,
                        ..s0
                    }));
                }
                Ok(())
            },
            InterpreterAction::Instruction(Instruction::Start) => {
                proof {
                    assert(p.actions[s0.ip as int] == ActionV::Instr(Instruction::Start));
                    assert(is_bracket(p.actions[s0.ip as int]));
                    assert(p.pairs.dom().contains(ip));
                }
                if self.tape[self.tape_pointer] == 0 {
                    let matching = self.program.pair_of(ip);
                    self.instruction_pointer = matching + 1;
                    proof {
                        assert(self.st() =~= (StateV {
                            ip: (p.pairs[s0.ip as usize] + 1) as nat,
                            ..s0
                        }));
                    }
                } else {
                    self.instruction_pointer = ip + 1;
                    proof {
                        assert(self.st() =~= (StateV { ip: s0.ip + 1, ..s0 }));
                    }
                }
                Ok(())
            },
            InterpreterAction::Instruction(Instruction::End) => {
                proof {
                    assert(p.actions[s0.ip as int] == ActionV::Instr(Instruction::End));
                    assert(is_bracket(p.actions[s0.ip as int]));
                    assert(p.pairs.dom().contains(ip));
                }
                if self.tape[self.tape_pointer] != 0 {
                    let matching = self.program.pair_of(ip);
                    self.instruction_pointer = matching + 1;
                    proof {
                        assert(self.st() =~= (StateV {
                            ip: (p.pairs[s0.ip as usize] + 1) as nat,
                            ..s0
                        }));
                    }
                } else {
                    self.instruction_pointer = ip + 1;
                    proof {
                        assert(self.st() =~= (StateV { ip: s0.ip + 1, ..s0 }));
                    }
                }
                Ok(())
            },
            InterpreterAction::Comment(text, level) => {
                proof {
                    assert(p.actions[s0.ip as int] == ActionV::Comment(text@, *level));
                }
                let mut echoed = false;
                if let Some(min) = self.printing_level {
                    if *level >= min {
                        echoed = true;
                    }
                }
                if echoed {
                    let mut line = "|> ".to_owned();
                    line.append(text.as_str());
                    let ghost diags0 = self.diagnostics.deep_view();
                    self.diagnostics.push(line);
                    self.instruction_pointer = ip + 1;
                    proof {
                        reveal_strlit("|> ");
                        assert("|> "@ =~= seq!['|', '>', ' ']);
                        assert(self.diagnostics.deep_view() =~= diags0.push(comment_line(text@)));
                        assert(self.st() =~= (StateV {
                            diags: s0.diags.push(comment_line(text@)),
                            ip: s0.ip + 1,
                            ..s0
                        }));
                    }
                } else {
                    self.instruction_pointer = ip + 1;
                    proof {
                        assert(self.st() =~= (StateV { ip: s0.ip + 1, ..s0 }));
                    }
                }
                Ok(())
            },
            InterpreterAction::EndComment => {
                self.instruction_pointer = ip + 1;
                proof {
                    assert(p.actions[s0.ip as int] == ActionV::EndComment);
                    assert(self.st() =~= (StateV { ip: s0.ip + 1, ..s0 }));
                }
                Ok(())
            },
            InterpreterAction::Indent(_) => {
                self.instruction_pointer = ip + 1;
                proof {
                    assert(self.st() =~= (StateV { ip: s0.ip + 1, ..s0 }));
                }
                Ok(())
            },
            InterpreterAction::AddMarker(name, site) => {
                proof {
                    assert(p.actions[s0.ip as int] == ActionV::AddMarker(name@, site@));
                    lemma_markers_map_char(self.markers@);
                }
                match find_marker(&self.markers, name) {
                    Some(_) => {
                        proof {
                            assert(s0.markers.dom().contains(name@));
                        }
                        Err(RunError::DuplicateMarker { name: name.clone() })
                    },
                    None => {
                        proof {
                            assert(!s0.markers.dom().contains(name@));
                        }
                        let ghost ms0 = self.markers@;
                        let entry = (
                            name.clone(),
                            Marker { at: self.tape_pointer, created: site.clone() },
                        );
                        let ghost entry_g = entry;
                        self.markers.push(entry);
                        self.instruction_pointer = ip + 1;
                        proof {
                            lemma_markers_map_push(ms0, entry_g);
                            assert(self.st() =~= (StateV {
                                markers: s0.markers.insert(
                                    name@,
                                    MarkerV { at: s0.head, created: site@ },
                                ),
                                ip: s0.ip + 1,
                                ..s0
                            }));
                        }
                        Ok(())
                    },
                }
            },
            InterpreterAction::RemoveMarker(name) => {
                proof {
                    assert(p.actions[s0.ip as int] == ActionV::RemoveMarker(name@));
                    lemma_markers_map_char(self.markers@);
                }
                match find_marker(&self.markers, name) {
                    Some(i) => {
                        proof {
                            assert(s0.markers.dom().contains(name@));
                        }
                        let ghost ms0 = self.markers@;
                        let _removed = self.markers.swap_remove(i);
                        self.instruction_pointer = ip + 1;
                        proof {
                            lemma_markers_map_swap_remove(ms0, i as int);
                            assert(self.st() =~= (StateV {
                                markers: s0.markers.remove(name@),
                                ip: s0.ip + 1,
                                ..s0
                            }));
                        }
                        Ok(())
                    },
                    None => {
                        proof {
                            assert(!s0.markers.dom().contains(name@));
                        }
                        Err(RunError::MissingMarker { name: name.clone() })
                    },
                }
            },
            InterpreterAction::AssertPosition(cell, message) => {
                proof {
                    assert(p.actions[s0.ip as int] == ActionV::AssertPosition(
                        *cell as nat,
                        message@,
                    ));
                }
                if self.tape_pointer == *cell {
                    self.instruction_pointer = ip + 1;
                    proof {
                        assert(self.st() =~= (StateV { ip: s0.ip + 1, ..s0 }));
                    }
                    Ok(())
                } else {
                    Err(
                        RunError::PositionMismatch {
                            expected: *cell,
                            found: self.tape_pointer,
                            source: message.clone(),
                            tape: copy_bytes(&self.tape),
                        },
                    )
                }
            },
            InterpreterAction::AssertRelativePosition(name, offset, message) => {
                proof {
                    assert(p.actions[s0.ip as int] == ActionV::AssertRelativePosition(
                        name@,
                        *offset as int,
                        message@,
                    ));
                    lemma_markers_map_char(self.markers@);
                }
                match find_marker(&self.markers, name) {
                    Some(i) => {
                        proof {
                            assert(s0.markers.dom().contains(name@));
                            assert(s0.markers[name@] == self.markers@[i as int].1@);
                        }
                        let base = self.markers[i].1.at;
                        let found = self.tape_pointer;
                        let off = *offset;
                        let matched: bool = if off >= 0 {
                            let mag = off as usize;
                            if base <= usize::MAX - mag {
                                found == base + mag
                            } else {
                                false
                            }
                        } else {
                            let mag = (-(off + 1)) as usize + 1;
                            if base >= mag {
                                found == base - mag
                            } else {
                                false
                            }
                        };
                        proof {
                            assert(matched <==> (s0.head as int == s0.markers[name@].at
                                + *offset as int));
                        }
                        if matched {
                            self.instruction_pointer = ip + 1;
                            proof {
                                assert(self.st() =~= (StateV { ip: s0.ip + 1, ..s0 }));
                            }
                            Ok(())
                        } else {
                            Err(
                                RunError::MarkerMismatch {
                                    name: name.clone(),
                                    base,
                                    created: self.markers[i].1.created.clone(),
                                    offset: off,
                                    found,
                                    source: message.clone(),
                                    tape: copy_bytes(&self.tape),
                                },
                            )
                        }
                    },
                    None => {
                        proof {
                            assert(!s0.markers.dom().contains(name@));
                        }
                        Err(RunError::MissingMarker { name: name.clone() })
                    },
                }
            },
        }
    }

    /// Run the machine for at most `max_steps` steps.
    ///
    /// Returns `Ok(true)` when the program ran to completion, `Ok(false)`
    /// when the step bound ran out first, and the fatal error otherwise;
    /// in every case the interpreter followed [`run_v`] exactly.
    pub fn run(&mut self, max_steps: u64) -> (r: Result<bool, RunError>)
        requires
            old(self).wf(),
        ensures
            final(self).wf(),
            final(self).prog() == old(self).prog(),
            match r {
                Ok(true) => exists|n: nat|
                    n <= max_steps && run_v(old(self).prog(), old(self).st(), n) == RunV::Done(
                        final(self).st(),
                    ),
                Ok(false) => run_v(old(self).prog(), old(self).st(), max_steps as nat)
                    == RunV::Running(final(self).st()),
                Err(e) => exists|n: nat|
                    n <= max_steps && run_v(old(self).prog(), old(self).st(), n) == RunV::Failed(
                        final(self).st(),
                        e@,
                    ),
            },
    {
        let ghost p = self.prog();
        let ghost s0 = self.st();
        let total = self.program.action_count();
        let mut steps: u64 = 0;
        proof {
            assert(run_v(p, s0, 0) == (if s0.ip >= p.actions.len() {
                RunV::Done(s0)
            } else {
                RunV::Running(s0)
            }));
        }
        #[verifier::loop_isolation(false)]
        while steps < max_steps && self.instruction_pointer < total
            invariant
                self.wf(),
                self.prog() == p,
                steps <= max_steps,
                run_v(p, s0, steps as nat) == (if self.st().ip >= p.actions.len() {
                    RunV::Done(self.st())
                } else {
                    RunV::Running(self.st())
                }),
            decreases max_steps - steps,
        {
            let ghost cur = self.st();
            proof {
                assert(run_v(p, s0, steps as nat) == RunV::Running(cur));
            }
            match self.step() {
                Ok(()) => {
                    proof {
                        lemma_run_v_compose(p, s0, steps as nat, cur, 1);
                        assert(run_v(p, self.st(), 0) == (if self.st().ip >= p.actions.len() {
                            RunV::Done(self.st())
                        } else {
                            RunV::Running(self.st())
                        }));
                        assert(run_v(p, cur, 1) == run_v(p, self.st(), 0));
                    }
                    steps = steps + 1;
                },
                Err(e) => {
                    proof {
                        lemma_run_v_compose(p, s0, steps as nat, cur, 1);
                        assert(run_v(p, cur, 1) == RunV::Failed(cur, e@));
                        assert(run_v(p, s0, (steps + 1) as nat) == RunV::Failed(self.st(), e@));
                    }
                    return Err(e);
                },
            }
        }
        if self.instruction_pointer < total {
            proof {
                assert(steps == max_steps);
                assert(run_v(p, s0, max_steps as nat) == RunV::Running(self.st()));
            }
            Ok(false)
        } else {
            proof {
                assert(run_v(p, s0, steps as nat) == RunV::Done(self.st()));
            }
            Ok(true)
        }
    }
}

} // verus!
