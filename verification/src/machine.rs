//! The machine as mathematics: its states, one step, and a run of bounded length.

use vstd::prelude::*;
use crate::bracket::{loop_partner, skip_partner};
use crate::error::Bracket;
use crate::instr::{decode_spec, Alphabet, Instr};
use crate::tape::TapeState;

verus! {

/// A state of the machine over some stream.
pub struct Machine {
    /// The tape and its pointer.
    pub tape: TapeState,
    /// The index of the next instruction.
    pub pc: int,
    /// Whether a terminate instruction has run.
    pub terminated: bool,
}

/// What one step of a machine that has not halted leads to.
pub enum Transition {
    /// The machine goes on in the given state, after emitting the byte if there is one.
    Next(Machine, Option<u8>),
    /// A bracket instruction had to jump and has no partner; the machine stays as it is.
    Fault(Bracket),
}

/// How a run ends.
#[derive(Clone, Copy, Debug, PartialEq, Eq, Structural)]
pub enum Ending {
    /// The program counter reached the end of the stream.
    EndOfStream,
    /// A terminate instruction ran.
    Terminated,
    /// A bracket instruction had to jump and has no partner.
    Unmatched(Bracket),
    /// The step budget was used up before the machine halted.
    OutOfSteps,
}

/// A run: where the machine stands at its end, what it emitted, in order, and how many steps
/// it made.
pub struct Trace {
    pub machine: Machine,
    pub output: Seq<u8>,
    pub steps: nat,
    pub ending: Ending,
}

impl Trace {
    /// This run followed by `rest`: the output of both, the steps of both, and the end
    /// of `rest`.
    pub open spec fn followed_by(self, rest: Trace) -> Trace {
        Trace {
            machine: rest.machine,
            output: self.output + rest.output,
            steps: self.steps + rest.steps,
            ending: rest.ending,
        }
    }
}

impl Machine {
    /// The state before the first step: a blank tape of `tape_len` cells, the pointer and
    /// the program counter at zero.
    pub open spec fn initial(tape_len: nat) -> Machine {
        Machine { tape: TapeState::blank(tape_len), pc: 0, terminated: false }
    }

    /// The pointer selects a cell and the program counter is inside the stream or at its
    /// end.
    pub open spec fn wf(self, code: Seq<char>) -> bool {
        &&& self.tape.wf()
        &&& 0 <= self.pc <= code.len()
    }

    /// The machine makes no further step.
    pub open spec fn halted(self, code: Seq<char>) -> bool {
        self.terminated || self.pc >= code.len()
    }

    /// How a run of no steps from this machine ends.
    pub open spec fn standing(self, code: Seq<char>) -> Ending {
        if self.terminated {
            Ending::Terminated
        } else if self.pc >= code.len() {
            Ending::EndOfStream
        } else {
            Ending::OutOfSteps
        }
    }

    /// The same machine with another tape and the program counter one further.
    pub open spec fn advance(self, tape: TapeState) -> Machine {
        Machine { tape, pc: self.pc + 1, ..self }
    }

    /// The same machine with the program counter at `pc`.
    pub open spec fn jump(self, pc: int) -> Machine {
        Machine { pc, ..self }
    }
}

/// One step of a machine that has not halted: the effect of the instruction at its program
/// counter.
pub open spec fn step(code: Seq<char>, alphabet: Alphabet, m: Machine) -> Transition {
    match decode_spec(code[m.pc], alphabet) {
        Instr::MoveRight => Transition::Next(m.advance(m.tape.move_right()), None),
        Instr::MoveLeft => Transition::Next(m.advance(m.tape.move_left()), None),
        Instr::Increment => Transition::Next(m.advance(m.tape.increment()), None),
        Instr::Decrement => Transition::Next(m.advance(m.tape.decrement()), None),
        Instr::Output => Transition::Next(m.advance(m.tape), Some(m.tape.current())),
        Instr::Reset => Transition::Next(m.advance(m.tape.reset()), None),
        Instr::SkipIfZero => if m.tape.current() == 0 {
            match skip_partner(code, m.pc) {
                Some(j) => Transition::Next(m.jump(j + 1), None),
                None => Transition::Fault(Bracket::Skip),
            }
        } else {
            Transition::Next(m.advance(m.tape), None)
        },
        Instr::LoopIfNonzero => if m.tape.current() != 0 {
            match loop_partner(code, m.pc) {
                Some(i) => Transition::Next(m.jump(i + 1), None),
                None => Transition::Fault(Bracket::Loop),
            }
        } else {
            Transition::Next(m.advance(m.tape), None)
        },
        Instr::Restart => Transition::Next(m.jump(0), None),
        Instr::Terminate => Transition::Next(Machine { terminated: true, ..m }, None),
        Instr::Nop => Transition::Next(m.advance(m.tape), None),
    }
}

/// The bytes that one step emits: one or none.
pub open spec fn emitted(byte: Option<u8>) -> Seq<u8> {
    match byte {
        Some(b) => seq![b],
        None => Seq::empty(),
    }
}

/// The run of at most `budget` steps from `m`. It ends when the machine has halted, when a
/// step faults, or when the budget is used up, whichever comes first.
pub open spec fn run(code: Seq<char>, alphabet: Alphabet, m: Machine, budget: nat) -> Trace
    decreases budget,
{
    if m.halted(code) || budget == 0 {
        Trace { machine: m, output: Seq::empty(), steps: 0, ending: m.standing(code) }
    } else {
        match step(code, alphabet, m) {
            Transition::Fault(bracket) => Trace {
                machine: m,
                output: Seq::empty(),
                steps: 0,
                ending: Ending::Unmatched(bracket),
            },
            Transition::Next(next, byte) => {
                let rest = run(code, alphabet, next, (budget - 1) as nat);
                Trace {
                    machine: rest.machine,
                    output: emitted(byte) + rest.output,
                    steps: rest.steps + 1,
                    ending: rest.ending,
                }
            },
        }
    }
}

/// A step keeps the machine well formed: the pointer stays on the tape, the tape keeps its
/// length, and the program counter stays inside the stream or at its end.
pub proof fn lemma_step_keeps_wf(code: Seq<char>, alphabet: Alphabet, m: Machine)
    requires
        m.wf(code),
        !m.halted(code),
    ensures
        step(code, alphabet, m) matches Transition::Next(next, _) ==> {
            &&& next.wf(code)
            &&& next.tape.cells.len() == m.tape.cells.len()
        },
{
    let len = m.tape.cells.len() as int;
    crate::tape::lemma_right_wraps(m.tape.pointer, len);
    crate::tape::lemma_left_wraps(m.tape.pointer, len);
    if decode_spec(code[m.pc], alphabet) == Instr::SkipIfZero && m.tape.current() == 0 {
        if let Some(j) = skip_partner(code, m.pc) {
            assert(crate::bracket::is_skip_partner(code, m.pc, j));
        }
    }
    if decode_spec(code[m.pc], alphabet) == Instr::LoopIfNonzero && m.tape.current() != 0 {
        if let Some(i) = loop_partner(code, m.pc) {
            assert(crate::bracket::is_loop_partner(code, m.pc, i));
        }
    }
}

/// A run keeps the machine well formed and never makes more steps than its budget.
pub proof fn lemma_run_keeps_wf(code: Seq<char>, alphabet: Alphabet, m: Machine, budget: nat)
    requires
        m.wf(code),
    ensures
        run(code, alphabet, m, budget).machine.wf(code),
        run(code, alphabet, m, budget).machine.tape.cells.len() == m.tape.cells.len(),
        run(code, alphabet, m, budget).steps <= budget,
    decreases budget,
{
    if !m.halted(code) && budget > 0 {
        lemma_step_keeps_wf(code, alphabet, m);
        if let Transition::Next(next, _) = step(code, alphabet, m) {
            lemma_run_keeps_wf(code, alphabet, next, (budget - 1) as nat);
        }
    }
}

} // verus!
