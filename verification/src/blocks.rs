//! Runs taken block by block: what a stretch of like instructions adds to a run.
//!
//! Each law here takes a run that has used up its budget and lengthens it by one block. In
//! this way the run of a given stream on a given tape is followed from its first step to its
//! last without unfolding it step by step.

use vstd::prelude::*;
use crate::bracket::loop_partner;
use crate::instr::Alphabet;
use crate::laws::lemma_run_split;
use crate::machine::{emitted, lemma_step_keeps_wf, run, step, Ending, Machine, Trace};
use crate::tape::{lemma_move_left_by, lemma_move_right_by, lemma_offsets_add_up};

verus! {

/// `trace` is the run of exactly `trace.steps` steps from `start`.
#[verifier::opaque]
pub open spec fn is_run(
    code: Seq<char>,
    alphabet: Alphabet,
    start: Machine,
    trace: Trace,
) -> bool {
    &&& start.wf(code)
    &&& run(code, alphabet, start, trace.steps) == trace
}

/// `trace` is the run of exactly `trace.steps` steps from `start`, and the machine has
/// neither halted nor met a bracket without a partner.
pub open spec fn reaches(
    code: Seq<char>,
    alphabet: Alphabet,
    start: Machine,
    trace: Trace,
) -> bool {
    &&& is_run(code, alphabet, start, trace)
    &&& trace.ending == Ending::OutOfSteps
    &&& trace.machine.wf(code)
    &&& !trace.machine.halted(code)
}

/// The run of no steps.
pub proof fn lemma_begin(code: Seq<char>, alphabet: Alphabet, start: Machine) -> (trace: Trace)
    requires
        start.wf(code),
        !start.halted(code),
    ensures
        reaches(code, alphabet, start, trace),
        trace == (Trace {
            machine: start,
            output: Seq::empty(),
            steps: 0,
            ending: Ending::OutOfSteps,
        }),
{
    reveal(is_run);
    run(code, alphabet, start, 0)
}

/// One more step: the run goes on with what the step at its end leads to.
pub proof fn lemma_then_step(
    code: Seq<char>,
    alphabet: Alphabet,
    start: Machine,
    trace: Trace,
) -> (next: Trace)
    requires
        reaches(code, alphabet, start, trace),
        step(code, alphabet, trace.machine) is Next,
    ensures
        is_run(code, alphabet, start, next),
        next == (Trace {
            machine: step(code, alphabet, trace.machine)->Next_0,
            output: trace.output + emitted(step(code, alphabet, trace.machine)->Next_1),
            steps: trace.steps + 1,
            ending: next.machine.standing(code),
        }),
        next.machine.wf(code),
        next.machine.tape.cells.len() == trace.machine.tape.cells.len(),
{
    reveal(is_run);
    lemma_run_split(code, alphabet, start, trace.steps, 1);
    lemma_step_keeps_wf(code, alphabet, trace.machine);
    reveal_with_fuel(run, 2);
    let last = run(code, alphabet, trace.machine, 1);
    let next = trace.followed_by(last);
    assert(last.output =~= emitted(step(code, alphabet, trace.machine)->Next_1));
    next
}

/// A stretch of `n` increments adds `n` to the selected cell and does nothing else.
pub proof fn lemma_then_increments(
    code: Seq<char>,
    alphabet: Alphabet,
    start: Machine,
    trace: Trace,
    n: nat,
) -> (next: Trace)
    requires
        reaches(code, alphabet, start, trace),
        trace.machine.pc + n <= code.len(),
        forall|k: int| trace.machine.pc <= k < trace.machine.pc + n ==> code[k] == 'l',
    ensures
        is_run(code, alphabet, start, next),
        next == (Trace {
            machine: Machine {
                tape: trace.machine.tape.offset(n as int),
                pc: trace.machine.pc + n,
                terminated: false,
            },
            output: trace.output,
            steps: trace.steps + n,
            ending: next.machine.standing(code),
        }),
        next.machine.wf(code),
    decreases n,
{
    lemma_offsets_add_up(trace.machine.tape, n - 1, 1);
    if n == 0 {
        trace
    } else {
        let most = lemma_then_increments(code, alphabet, start, trace, (n - 1) as nat);
        lemma_offsets_add_up(most.machine.tape, 1, 0);
        let next = lemma_then_step(code, alphabet, start, most);
        assert(next.output =~= trace.output);
        next
    }
}

/// A stretch of `n` decrements takes `n` off the selected cell and does nothing else.
pub proof fn lemma_then_decrements(
    code: Seq<char>,
    alphabet: Alphabet,
    start: Machine,
    trace: Trace,
    n: nat,
) -> (next: Trace)
    requires
        reaches(code, alphabet, start, trace),
        trace.machine.pc + n <= code.len(),
        forall|k: int| trace.machine.pc <= k < trace.machine.pc + n ==> code[k] == 'o',
    ensures
        is_run(code, alphabet, start, next),
        next == (Trace {
            machine: Machine {
                tape: trace.machine.tape.offset(-(n as int)),
                pc: trace.machine.pc + n,
                terminated: false,
            },
            output: trace.output,
            steps: trace.steps + n,
            ending: next.machine.standing(code),
        }),
        next.machine.wf(code),
    decreases n,
{
    lemma_offsets_add_up(trace.machine.tape, -(n - 1), -1);
    if n == 0 {
        trace
    } else {
        let most = lemma_then_decrements(code, alphabet, start, trace, (n - 1) as nat);
        lemma_offsets_add_up(most.machine.tape, 1, 0);
        let next = lemma_then_step(code, alphabet, start, most);
        assert(next.output =~= trace.output);
        next
    }
}

/// A stretch of `n` moves to the right moves the pointer `n` cells to the right, round the
/// end of the tape, and does nothing else.
pub proof fn lemma_then_moves_right(
    code: Seq<char>,
    alphabet: Alphabet,
    start: Machine,
    trace: Trace,
    n: nat,
) -> (next: Trace)
    requires
        reaches(code, alphabet, start, trace),
        trace.machine.pc + n <= code.len(),
        forall|k: int| trace.machine.pc <= k < trace.machine.pc + n ==> code[k] == 'H',
    ensures
        is_run(code, alphabet, start, next),
        next == (Trace {
            machine: Machine {
                tape: trace.machine.tape.move_right_by(n),
                pc: trace.machine.pc + n,
                terminated: false,
            },
            output: trace.output,
            steps: trace.steps + n,
            ending: next.machine.standing(code),
        }),
        next.machine.wf(code),
        next.machine.tape.cells == trace.machine.tape.cells,
        next.machine.tape.pointer == (trace.machine.tape.pointer + n) % (
            trace.machine.tape.cells.len() as int
        ),
        trace.machine.tape.pointer + n < trace.machine.tape.cells.len()
            ==> next.machine.tape.pointer == trace.machine.tape.pointer + n,
    decreases n,
{
    lemma_move_right_by(trace.machine.tape, n);
    if trace.machine.tape.pointer + n < trace.machine.tape.cells.len() {
        vstd::arithmetic::div_mod::lemma_small_mod(
            (trace.machine.tape.pointer + n) as nat,
            trace.machine.tape.cells.len(),
        );
    }
    if n == 0 {
        trace
    } else {
        let most = lemma_then_moves_right(code, alphabet, start, trace, (n - 1) as nat);
        let next = lemma_then_step(code, alphabet, start, most);
        assert(next.output =~= trace.output);
        next
    }
}

/// A stretch of `n` moves to the left moves the pointer `n` cells to the left, round the
/// start of the tape, and does nothing else.
pub proof fn lemma_then_moves_left(
    code: Seq<char>,
    alphabet: Alphabet,
    start: Machine,
    trace: Trace,
    n: nat,
) -> (next: Trace)
    requires
        reaches(code, alphabet, start, trace),
        trace.machine.pc + n <= code.len(),
        forall|k: int| trace.machine.pc <= k < trace.machine.pc + n ==> code[k] == 'e',
    ensures
        is_run(code, alphabet, start, next),
        next == (Trace {
            machine: Machine {
                tape: trace.machine.tape.move_left_by(n),
                pc: trace.machine.pc + n,
                terminated: false,
            },
            output: trace.output,
            steps: trace.steps + n,
            ending: next.machine.standing(code),
        }),
        next.machine.wf(code),
        next.machine.tape.cells == trace.machine.tape.cells,
        next.machine.tape.pointer == (trace.machine.tape.pointer - n) % (
            trace.machine.tape.cells.len() as int
        ),
        n <= trace.machine.tape.pointer ==> next.machine.tape.pointer
            == trace.machine.tape.pointer - n,
    decreases n,
{
    lemma_move_left_by(trace.machine.tape, n);
    if n <= trace.machine.tape.pointer {
        vstd::arithmetic::div_mod::lemma_small_mod(
            (trace.machine.tape.pointer - n) as nat,
            trace.machine.tape.cells.len(),
        );
    }
    if n == 0 {
        trace
    } else {
        let most = lemma_then_moves_left(code, alphabet, start, trace, (n - 1) as nat);
        let next = lemma_then_step(code, alphabet, start, most);
        assert(next.output =~= trace.output);
        next
    }
}

/// An output instruction emits the selected cell and does nothing else.
pub proof fn lemma_then_output(
    code: Seq<char>,
    alphabet: Alphabet,
    start: Machine,
    trace: Trace,
) -> (next: Trace)
    requires
        reaches(code, alphabet, start, trace),
        code[trace.machine.pc] == ',',
    ensures
        is_run(code, alphabet, start, next),
        next == (Trace {
            machine: Machine { pc: trace.machine.pc + 1, ..trace.machine },
            output: trace.output.push(trace.machine.tape.current()),
            steps: trace.steps + 1,
            ending: next.machine.standing(code),
        }),
        next.machine.wf(code),
{
    let next = lemma_then_step(code, alphabet, start, trace);
    assert(next.output =~= trace.output.push(trace.machine.tape.current()));
    next
}

/// A bracket that need not jump is passed over: a `!` on a cell that is not zero, or a `?` on
/// a cell that is zero.
pub proof fn lemma_then_passes_bracket(
    code: Seq<char>,
    alphabet: Alphabet,
    start: Machine,
    trace: Trace,
) -> (next: Trace)
    requires
        reaches(code, alphabet, start, trace),
        if trace.machine.tape.current() == 0 {
            code[trace.machine.pc] == '?'
        } else {
            code[trace.machine.pc] == '!'
        },
    ensures
        is_run(code, alphabet, start, next),
        next == (Trace {
            machine: Machine { pc: trace.machine.pc + 1, ..trace.machine },
            output: trace.output,
            steps: trace.steps + 1,
            ending: next.machine.standing(code),
        }),
        next.machine.wf(code),
{
    let next = lemma_then_step(code, alphabet, start, trace);
    assert(next.output =~= trace.output);
    next
}

/// A `?` on a cell that is not zero goes back to just after its partner.
pub proof fn lemma_then_loops_back(
    code: Seq<char>,
    alphabet: Alphabet,
    start: Machine,
    trace: Trace,
    partner: int,
) -> (next: Trace)
    requires
        reaches(code, alphabet, start, trace),
        code[trace.machine.pc] == '?',
        trace.machine.tape.current() != 0,
        loop_partner(code, trace.machine.pc) == Some(partner),
    ensures
        is_run(code, alphabet, start, next),
        next == (Trace {
            machine: Machine { pc: partner + 1, ..trace.machine },
            output: trace.output,
            steps: trace.steps + 1,
            ending: Ending::OutOfSteps,
        }),
        next.machine.wf(code),
{
    assert(crate::bracket::is_loop_partner(code, trace.machine.pc, partner));
    let next = lemma_then_step(code, alphabet, start, trace);
    assert(next.output =~= trace.output);
    next
}

} // verus!
