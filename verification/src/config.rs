//! What is fixed before a run starts: the tape's length, the alphabet and the preamble.

use vstd::prelude::*;
use crate::instr::Alphabet;

verus! {

/// The preamble of the standard configuration. Run on a blank tape it emits `Hello,World!`
/// and leaves the pointer on the cell that holds the `!`, as
/// [`lemma_standard_preamble_greets`](crate::greeting::lemma_standard_preamble_greets) shows.
pub const STANDARD_PREAMBLE: &'static str =
    "llllllllllllllllllllllllllllllll!HllHlllHlllHlllHlllHllHllHlllHlllHlllHllleeeeeeeeeeeo?HlHlHlHlHlHlHlHlHlHlHleeeeeeeeeeeHlllllll,Hllll,Hlllllllllll,Hlllllllllll,Hllllllllllllll,Hooooooooooooooooooooo,Hllllllllllllllllllllll,Hllllllllllllll,Hlllllllllllllllll,Hlllllllllll,Hlll,Hllllllllllllllll!Hlleo?Hl,";

/// The preamble of the compact configuration. Run on a blank tape it emits `Hello, World!`
/// and needs five cells, as
/// [`lemma_compact_preamble_greets`](crate::greeting::lemma_compact_preamble_greets) shows.
pub const COMPACT_PREAMBLE: &'static str =
    "llllllll!HlllllllllHlllllllllllllHllllHllllllllllleeeeo?H,Hooo,lllllll,,lll,Hllllllllllll,oooooooooooo,Ho,ee,lll,oooooo,oooooooo,Hl,";

/// The number of cells of the standard configuration.
pub const STANDARD_TAPE_LEN: usize = 1000;

/// The number of cells of the compact configuration.
pub const COMPACT_TAPE_LEN: usize = 10;

/// A configuration of the tape interpreter.
#[derive(Debug)]
pub struct Config {
    /// The number of cells of the tape; at least one.
    pub tape_len: usize,
    /// Which optional instructions are recognised.
    pub alphabet: Alphabet,
    /// The instructions that every stream starts with.
    pub preamble: String,
}

impl Config {
    /// The tape has at least one cell.
    pub open spec fn wf(&self) -> bool {
        self.tape_len > 0
    }

    /// A thousand cells; `d` terminates and `r` does nothing.
    pub fn standard() -> (config: Config)
        ensures
            config.wf(),
            config.tape_len == STANDARD_TAPE_LEN,
            config.alphabet == (Alphabet { restart: false, terminate: true }),
            config.preamble@ == STANDARD_PREAMBLE@,
    {
        Config {
            tape_len: STANDARD_TAPE_LEN,
            alphabet: Alphabet { restart: false, terminate: true },
            preamble: STANDARD_PREAMBLE.to_owned(),
        }
    }

    /// Ten cells; `d` terminates and `r` restarts the stream.
    pub fn compact() -> (config: Config)
        ensures
            config.wf(),
            config.tape_len == COMPACT_TAPE_LEN,
            config.alphabet == (Alphabet { restart: true, terminate: true }),
            config.preamble@ == COMPACT_PREAMBLE@,
    {
        Config {
            tape_len: COMPACT_TAPE_LEN,
            alphabet: Alphabet { restart: true, terminate: true },
            preamble: COMPACT_PREAMBLE.to_owned(),
        }
    }
}

} // verus!
