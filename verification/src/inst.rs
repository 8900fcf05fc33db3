//! The eight primitive instructions of the tape machine and their canonical
//! single-character renderings.

use vstd::prelude::*;

verus! {

/// One primitive tape-machine instruction.
#[derive(Debug, Copy, Clone, Eq, PartialEq, Structural)]
pub enum Instruction {
    /// Move the head one cell to the left (`<`).
    Left,
    /// Move the head one cell to the right (`>`).
    Right,
    /// Increment the current cell, wrapping at 256 (`+`).
    Inc,
    /// Decrement the current cell, wrapping at 0 (`-`).
    Dec,
    /// Read one input byte into the current cell (`,`).
    Input,
    /// Write the current cell to the output sink (`.`).
    Output,
    /// Begin a loop (`[`).
    Start,
    /// End a loop (`]`).
    End,
}

impl Instruction {
    /// The canonical character of this instruction.
    pub open spec fn char_of(self) -> char {
        match self {
            Instruction::Left => '<',
            Instruction::Right => '>',
            Instruction::Inc => '+',
            Instruction::Dec => '-',
            Instruction::Input => ',',
            Instruction::Output => '.',
            Instruction::Start => '[',
            Instruction::End => ']',
        }
    }

    /// The instruction whose canonical character has byte value `b`, if any.
    pub open spec fn spec_from_byte(b: u8) -> Option<Instruction> {
        if b == 60 {
            Some(Instruction::Left)
        } else if b == 62 {
            Some(Instruction::Right)
        } else if b == 43 {
            Some(Instruction::Inc)
        } else if b == 45 {
            Some(Instruction::Dec)
        } else if b == 44 {
            Some(Instruction::Input)
        } else if b == 46 {
            Some(Instruction::Output)
        } else if b == 91 {
            Some(Instruction::Start)
        } else if b == 93 {
            Some(Instruction::End)
        } else {
            None
        }
    }

    /// Render this instruction as its canonical character.
    pub fn as_char(self) -> (c: char)
        ensures
            c == self.char_of(),
    {
        match self {
            Instruction::Left => '<',
            Instruction::Right => '>',
            Instruction::Inc => '+',
            Instruction::Dec => '-',
            Instruction::Input => ',',
            Instruction::Output => '.',
            Instruction::Start => '[',
            Instruction::End => ']',
        }
    }

    /// Render this instruction as a one-character string slice.
    pub fn as_str(self) -> (r: &'static str)
        ensures
            r@ == seq![self.char_of()],
    {
        proof {
            reveal_strlit("<");
            reveal_strlit(">");
            reveal_strlit("+");
            reveal_strlit("-");
            reveal_strlit(",");
            reveal_strlit(".");
            reveal_strlit("[");
            reveal_strlit("]");
        }
        let r = match self {
            Instruction::Left => "<",
            Instruction::Right => ">",
            Instruction::Inc => "+",
            Instruction::Dec => "-",
            Instruction::Input => ",",
            Instruction::Output => ".",
            Instruction::Start => "[",
            Instruction::End => "]",
        };
        proof {
            assert(r@ =~= seq![self.char_of()]);
        }
        r
    }

    /// Parse one byte of program text; every byte outside the alphabet
    /// `<>+-,.[]` is invalid.
    pub fn from_byte(b: u8) -> (r: Option<Instruction>)
        ensures
            r == Instruction::spec_from_byte(b),
    {
        match b {
            60 => Some(Instruction::Left),
            62 => Some(Instruction::Right),
            43 => Some(Instruction::Inc),
            45 => Some(Instruction::Dec),
            44 => Some(Instruction::Input),
            46 => Some(Instruction::Output),
            91 => Some(Instruction::Start),
            93 => Some(Instruction::End),
            _ => None,
        }
    }
}

/// Parsing a byte and rendering the result returns to the same byte, and
/// every instruction's canonical character parses back to that instruction.
pub proof fn lemma_byte_char_round_trip()
    ensures
        forall|i: Instruction| Instruction::spec_from_byte(i.char_of() as u8) == Some(i),
        forall|b: u8|
            Instruction::spec_from_byte(b) is Some ==> (
            #[trigger] Instruction::spec_from_byte(b))->0.char_of() as u8 == b,
{
}

} // verus!
