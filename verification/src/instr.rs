//! The instruction alphabet: which character means what.

use vstd::prelude::*;

verus! {

/// What one character of a stream asks the machine to do.
#[derive(Clone, Copy, Debug, PartialEq, Eq, Structural)]
pub enum Instr {
    /// `H`: move the pointer one cell to the right.
    MoveRight,
    /// `e`: move the pointer one cell to the left.
    MoveLeft,
    /// `l`: add one to the selected cell.
    Increment,
    /// `o`: subtract one from the selected cell.
    Decrement,
    /// `,`: emit the selected cell.
    Output,
    /// `W`: set the selected cell to zero.
    Reset,
    /// `!`: if the selected cell is zero, go on after the matching `?`.
    SkipIfZero,
    /// `?`: if the selected cell is not zero, go back to just after the matching `!`.
    LoopIfNonzero,
    /// `r`: go back to the start of the stream.
    Restart,
    /// `d`: stop.
    Terminate,
    /// Any other character: nothing.
    Nop,
}

/// The optional instructions of the alphabet. A character whose instruction is switched off
/// does nothing.
#[derive(Clone, Copy, Debug, PartialEq, Eq, Structural)]
pub struct Alphabet {
    /// Whether `r` restarts the stream.
    pub restart: bool,
    /// Whether `d` stops the run.
    pub terminate: bool,
}

/// The instruction that `c` stands for under `alphabet`.
pub open spec fn decode_spec(c: char, alphabet: Alphabet) -> Instr {
    if c == 'H' {
        Instr::MoveRight
    } else if c == 'e' {
        Instr::MoveLeft
    } else if c == 'l' {
        Instr::Increment
    } else if c == 'o' {
        Instr::Decrement
    } else if c == ',' {
        Instr::Output
    } else if c == 'W' {
        Instr::Reset
    } else if c == '!' {
        Instr::SkipIfZero
    } else if c == '?' {
        Instr::LoopIfNonzero
    } else if c == 'r' && alphabet.restart {
        Instr::Restart
    } else if c == 'd' && alphabet.terminate {
        Instr::Terminate
    } else {
        Instr::Nop
    }
}

/// Classifies one character of a stream.
pub fn decode(c: char, alphabet: Alphabet) -> (instr: Instr)
    ensures
        instr == decode_spec(c, alphabet),
{
    if c == 'H' {
        Instr::MoveRight
    } else if c == 'e' {
        Instr::MoveLeft
    } else if c == 'l' {
        Instr::Increment
    } else if c == 'o' {
        Instr::Decrement
    } else if c == ',' {
        Instr::Output
    } else if c == 'W' {
        Instr::Reset
    } else if c == '!' {
        Instr::SkipIfZero
    } else if c == '?' {
        Instr::LoopIfNonzero
    } else if c == 'r' && alphabet.restart {
        Instr::Restart
    } else if c == 'd' && alphabet.terminate {
        Instr::Terminate
    } else {
        Instr::Nop
    }
}

} // verus!
