//! The interpreter: a machine state, the stream it runs, and the alphabet it reads it with.

use vstd::prelude::*;
use vstd::pervasive::unreached;
use crate::assembly::{assemble_stream, caller_text};
use crate::bracket::{find_loop_partner, find_skip_partner};
use crate::config::{Config, STANDARD_PREAMBLE, STANDARD_TAPE_LEN};
use crate::error::{Bracket, Error};
use crate::instr::{decode, Alphabet, Instr};
use crate::machine::{emitted, run, step, Ending, Machine, Transition};
use crate::tape::Tape;

verus! {

/// What one call of [`HelloInterpreter::step`] did.
#[derive(Clone, Copy, Debug, PartialEq, Eq, Structural)]
pub enum Event {
    /// An instruction ran and emitted nothing.
    Silent,
    /// An output instruction ran and emitted this byte.
    Emit(u8),
    /// The machine has halted; nothing ran.
    Halted,
}

/// What a call of [`HelloInterpreter::interpret`] did.
#[derive(Debug)]
pub struct Report {
    /// The bytes emitted, in the order in which their instructions ran.
    pub output: Vec<u8>,
    /// The number of instructions that ran.
    pub steps: u64,
    /// Why the call returned.
    pub ending: Ending,
}

/// The event that reports a step which emitted `byte`.
pub open spec fn event_of(byte: Option<u8>) -> Event {
    match byte {
        Some(b) => Event::Emit(b),
        None => Event::Silent,
    }
}

/// A tape machine together with the instruction stream that it executes.
#[derive(Debug)]
pub struct HelloInterpreter {
    tape: Tape,
    code: Vec<char>,
    pc: usize,
    terminated: bool,
    alphabet: Alphabet,
}

impl View for HelloInterpreter {
    type V = Machine;

    closed spec fn view(&self) -> Machine {
        Machine { tape: self.tape@, pc: self.pc as int, terminated: self.terminated }
    }
}

impl HelloInterpreter {
    /// The instruction stream. It never changes.
    pub closed spec fn code(&self) -> Seq<char> {
        self.code@
    }

    /// The alphabet the stream is read with. It never changes.
    pub closed spec fn alphabet(&self) -> Alphabet {
        self.alphabet
    }

    /// The machine is well formed over the stream.
    pub open spec fn wf(&self) -> bool {
        self@.wf(self.code())
    }

    /// The standard interpreter: a blank tape of a thousand cells, and as its stream the
    /// standard preamble followed by the caller's text, if any, with nothing in between.
    pub fn new(user_code: Option<String>) -> (interp: HelloInterpreter)
        ensures
            interp.wf(),
            interp@ == Machine::initial(STANDARD_TAPE_LEN as nat),
            interp.code() == STANDARD_PREAMBLE@ + caller_text(user_code),
            interp.alphabet() == (Alphabet { restart: false, terminate: true }),
    {
        let config = Config::standard();
        HelloInterpreter::with_config(&config, user_code)
    }

    /// An interpreter for `config`: a blank tape of the configured length, and as its stream
    /// the configured preamble followed by the caller's text, if any, with nothing in between.
    pub fn with_config(config: &Config, user_code: Option<String>) -> (interp: HelloInterpreter)
        requires
            config.wf(),
        ensures
            interp.wf(),
            interp@ == Machine::initial(config.tape_len as nat),
            interp.code() == config.preamble@ + caller_text(user_code),
            interp.alphabet() == config.alphabet,
    {
        let code = assemble_stream(config.preamble.as_str(), &user_code);
        HelloInterpreter::from_stream(config.tape_len, config.alphabet, code)
    }

    /// An interpreter that runs `code` as it is, on a blank tape of `tape_len` cells.
    pub fn from_stream(
        tape_len: usize,
        alphabet: Alphabet,
        code: Vec<char>,
    ) -> (interp: HelloInterpreter)
        requires
            tape_len > 0,
        ensures
            interp.wf(),
            interp@ == Machine::initial(tape_len as nat),
            interp.code() == code@,
            interp.alphabet() == alphabet,
    {
        HelloInterpreter { tape: Tape::new(tape_len), code, pc: 0, terminated: false, alphabet }
    }

    /// The tape as it stands.
    pub fn tape(&self) -> (tape: &Tape)
        ensures
            tape@ == self@.tape,
    {
        &self.tape
    }

    /// The index of the next instruction.
    pub fn pc(&self) -> (pc: usize)
        ensures
            pc == self@.pc,
    {
        self.pc
    }

    /// The instruction stream.
    pub fn stream(&self) -> (stream: &Vec<char>)
        ensures
            stream@ == self.code(),
    {
        &self.code
    }

    /// Whether the machine has halted: a terminate instruction ran, or the program counter
    /// is at the end of the stream.
    pub fn is_halted(&self) -> (halted: bool)
        ensures
            halted == self@.halted(self.code()),
    {
        self.terminated || self.pc >= self.code.len()
    }

    /// Runs the instruction at the program counter, if the machine has not halted.
    ///
    /// A bracket instruction that has to jump and has no partner is an error, and leaves the
    /// machine as it was.
    pub fn step(&mut self) -> (result: Result<Event, Error>)
        requires
            old(self).wf(),
        ensures
            final(self).wf(),
            final(self).code() == old(self).code(),
            final(self).alphabet() == old(self).alphabet(),
            final(self)@.tape.cells.len() == old(self)@.tape.cells.len(),
            old(self)@.halted(old(self).code()) ==> {
                &&& result == Ok::<Event, Error>(Event::Halted)
                &&& final(self)@ == old(self)@
            },
            !old(self)@.halted(old(self).code()) ==> match step(
                old(self).code(),
                old(self).alphabet(),
                old(self)@,
            ) {
                Transition::Next(next, byte) => {
                    &&& result == Ok::<Event, Error>(event_of(byte))
                    &&& final(self)@ == next
                },
                Transition::Fault(bracket) => {
                    &&& result == Err::<Event, Error>(Error::UnmatchedBracket(bracket))
                    &&& final(self)@ == old(self)@
                },
            },
    {
        if self.terminated || self.pc >= self.code.len() {
            return Ok(Event::Halted);
        }
        proof {
            crate::machine::lemma_step_keeps_wf(self.code@, self.alphabet, self@);
        }
        let mut event = Event::Silent;
        match decode(self.code[self.pc], self.alphabet) {
            Instr::MoveRight => {
                self.tape.move_right();
            },
            Instr::MoveLeft => {
                self.tape.move_left();
            },
            Instr::Increment => {
                self.tape.increment();
            },
            Instr::Decrement => {
                self.tape.decrement();
            },
            Instr::Output => {
                event = Event::Emit(self.tape.read());
            },
            Instr::Reset => {
                self.tape.reset();
            },
            Instr::SkipIfZero => {
                if self.tape.read() == 0 {
                    match find_skip_partner(self.code.as_slice(), self.pc) {
                        Some(partner) => {
                            self.pc = partner;
                        },
                        None => {
                            return Err(Error::UnmatchedBracket(Bracket::Skip));
                        },
                    }
                }
            },
            Instr::LoopIfNonzero => {
                if self.tape.read() != 0 {
                    match find_loop_partner(self.code.as_slice(), self.pc) {
                        Some(partner) => {
                            self.pc = partner;
                        },
                        None => {
                            return Err(Error::UnmatchedBracket(Bracket::Loop));
                        },
                    }
                }
            },
            Instr::Restart => {
                self.pc = 0;
                return Ok(event);
            },
            Instr::Terminate => {
                self.terminated = true;
                return Ok(event);
            },
            Instr::Nop => {},
        }
        self.pc = self.pc + 1;
        Ok(event)
    }

    /// Runs the machine until it halts, a bracket has no partner, or `max_steps` instructions
    /// have run, and reports what was emitted on the way.
    pub fn interpret(&mut self, max_steps: u64) -> (report: Report)
        requires
            old(self).wf(),
        ensures
            final(self).wf(),
            final(self).code() == old(self).code(),
            final(self).alphabet() == old(self).alphabet(),
            final(self)@.tape.cells.len() == old(self)@.tape.cells.len(),
            ({
                let trace = run(
                    old(self).code(),
                    old(self).alphabet(),
                    old(self)@,
                    max_steps as nat,
                );
                &&& final(self)@ == trace.machine
                &&& report.output@ == trace.output
                &&& report.steps == trace.steps
                &&& report.ending == trace.ending
            }),
    {
        let mut output: Vec<u8> = Vec::new();
        let mut steps: u64 = 0;
        let ghost code = self.code();
        let ghost alphabet = self.alphabet();
        let ghost whole = run(code, alphabet, self@, max_steps as nat);
        loop
            invariant
                self.wf(),
                code == old(self).code(),
                alphabet == old(self).alphabet(),
                whole == run(code, alphabet, old(self)@, max_steps as nat),
                self.code() == code,
                self.alphabet() == alphabet,
                self@.tape.cells.len() == old(self)@.tape.cells.len(),
                steps <= max_steps,
                ({
                    let rest = run(code, alphabet, self@, (max_steps - steps) as nat);
                    &&& whole.machine == rest.machine
                    &&& whole.output == output@ + rest.output
                    &&& whole.steps == steps + rest.steps
                    &&& whole.ending == rest.ending
                }),
            decreases max_steps - steps,
        {
            if self.terminated {
                return Report { output, steps, ending: Ending::Terminated };
            }
            if self.pc >= self.code.len() {
                return Report { output, steps, ending: Ending::EndOfStream };
            }
            if steps == max_steps {
                return Report { output, steps, ending: Ending::OutOfSteps };
            }
            let ghost before = output@;
            let ghost before_step = self@;
            let ghost rest = run(code, alphabet, self@, (max_steps - steps) as nat);
            match self.step() {
                Ok(Event::Emit(byte)) => {
                    output.push(byte);
                },
                Ok(Event::Silent) => {},
                Ok(Event::Halted) => {
                    unreached::<()>();
                },
                Err(Error::UnmatchedBracket(bracket)) => {
                    return Report { output, steps, ending: Ending::Unmatched(bracket) };
                },
                Err(_) => {
                    unreached::<()>();
                },
            }
            steps = steps + 1;
            proof {
                let next = run(code, alphabet, self@, (max_steps - steps) as nat);
                let byte = step(code, alphabet, before_step)->Next_1;
                assert(output@ == before + emitted(byte));
                assert(rest.output == emitted(byte) + next.output);
                assert(before + (emitted(byte) + next.output) =~= (before + emitted(byte))
                    + next.output);
            }
        }
    }
}

} // verus!
