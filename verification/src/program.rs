//! The two ways in which the caller's text becomes a program.
//!
//! The tape interpreter appends the text to its preamble and takes whatever it is given. The
//! canned message takes no text at all and only ever emits its greeting. Which of the two is
//! in force is decided once, before the text is read, and [`Strategy::assemble`] is the one
//! place where the text is accepted or refused.

use vstd::prelude::*;
use crate::assembly::caller_text;
use crate::config::Config;
use crate::error::Error;
use crate::interp::HelloInterpreter;
use crate::machine::Machine;

verus! {

/// How the caller's text becomes a program.
#[derive(Debug)]
pub enum Strategy {
    /// Append the text to the configuration's preamble and interpret the whole.
    TapeInterpreter(Config),
    /// Refuse any text; emit the greeting and nothing else.
    CannedMessage,
}

/// What assembly hands to execution.
#[derive(Debug)]
pub enum Program {
    /// An interpreter, ready to run its stream from the start.
    Interpreter(HelloInterpreter),
    /// The greeting, to be emitted as it is, with no tape involved.
    Greeting,
}

impl Strategy {
    /// A tape interpreter needs a tape of at least one cell.
    pub open spec fn wf(&self) -> bool {
        match self {
            Strategy::TapeInterpreter(config) => config.wf(),
            Strategy::CannedMessage => true,
        }
    }

    /// Assembles the program for the caller's text.
    ///
    /// The tape interpreter always succeeds: its stream is the preamble followed by the text.
    /// The canned message succeeds on no text and on empty text, and refuses everything else.
    pub fn assemble(&self, user_code: Option<String>) -> (result: Result<Program, Error>)
        requires
            self.wf(),
        ensures
            match *self {
                Strategy::TapeInterpreter(config) => {
                    &&& result matches Ok(Program::Interpreter(interp))
                    &&& interp.wf()
                    &&& interp@ == Machine::initial(config.tape_len as nat)
                    &&& interp.code() == config.preamble@ + caller_text(user_code)
                    &&& interp.alphabet() == config.alphabet
                },
                Strategy::CannedMessage => if caller_text(user_code).len() == 0 {
                    result matches Ok(Program::Greeting)
                } else {
                    result matches Err(Error::UnsupportedCodeSubmitted)
                },
            },
    {
        match self {
            Strategy::TapeInterpreter(config) => Ok(
                Program::Interpreter(HelloInterpreter::with_config(config, user_code)),
            ),
            Strategy::CannedMessage => {
                let supplied = match &user_code {
                    Some(text) => !text.as_str().is_empty(),
                    None => false,
                };
                if supplied {
                    Err(Error::UnsupportedCodeSubmitted)
                } else {
                    Ok(Program::Greeting)
                }
            },
        }
    }
}

} // verus!
