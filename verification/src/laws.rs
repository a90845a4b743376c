//! What holds of every run: a run can be cut in two, a finished run does not depend on its
//! budget, text appended to a stream changes nothing of what the stream does before it
//! reaches that text, and a well-formed stream never meets a bracket without a partner.

use vstd::prelude::*;
use crate::bracket::{
    balanced,
    depth,
    is_loop_partner,
    is_skip_partner,
    lemma_balanced_loop_has_partner,
    lemma_balanced_skip_has_partner,
    lemma_loop_partner_unique,
    lemma_skip_partner_unique,
    loop_partner,
    skip_partner,
};
use crate::error::Bracket;
use crate::instr::{decode_spec, Alphabet, Instr};
use crate::machine::{
    lemma_run_keeps_wf,
    lemma_step_keeps_wf,
    run,
    step,
    Ending,
    Machine,
    Transition,
};

verus! {

/// The depth inside a stream does not depend on what follows the stream.
pub proof fn lemma_depth_of_prefix(head: Seq<char>, tail: Seq<char>, k: int)
    requires
        k <= head.len(),
    ensures
        depth(head + tail, k) == depth(head, k),
    decreases k,
{
    if k > 0 {
        lemma_depth_of_prefix(head, tail, k - 1);
    }
}

/// A forward scan that ends inside a stream ends at the same place when text is appended to
/// the stream.
pub proof fn lemma_skip_partner_survives(head: Seq<char>, tail: Seq<char>, i: int)
    requires
        skip_partner(head, i) is Some,
    ensures
        skip_partner(head + tail, i) == skip_partner(head, i),
{
    let j = skip_partner(head, i)->Some_0;
    assert(is_skip_partner(head, i, j));
    assert forall|k: int| i < k <= j + 1 implies #[trigger] depth(head + tail, k) == depth(
        head,
        k,
    ) by {
        lemma_depth_of_prefix(head, tail, k);
    }
    assert(is_skip_partner(head + tail, i, j));
    lemma_skip_partner_unique(head + tail, i, j, skip_partner(head + tail, i)->Some_0);
}

/// A backward scan does not depend on what follows the place it starts from.
pub proof fn lemma_loop_partner_of_prefix(head: Seq<char>, tail: Seq<char>, j: int)
    requires
        0 <= j < head.len(),
    ensures
        loop_partner(head + tail, j) == loop_partner(head, j),
{
    assert forall|k: int|
        #![trigger depth(head + tail, k)]
        #![trigger depth(head, k)]
        0 <= k <= j implies depth(head + tail, k) == depth(head, k) by {
        lemma_depth_of_prefix(head, tail, k);
    }
    assert forall|i: int| is_loop_partner(head + tail, j, i) == is_loop_partner(head, j, i) by {
        if 0 <= i < j {
            assert(depth(head + tail, i) == depth(head, i));
            assert(depth(head + tail, j) == depth(head, j));
        }
    }
    if loop_partner(head, j) is Some {
        let i = loop_partner(head, j)->Some_0;
        assert(is_loop_partner(head + tail, j, i));
        lemma_loop_partner_unique(head + tail, j, i, loop_partner(head + tail, j)->Some_0);
    } else {
        assert forall|i: int| !is_loop_partner(head + tail, j, i) by {
            assert(!is_loop_partner(head, j, i));
        }
    }
}

/// A step inside a stream is the same step when text is appended to the stream, unless the
/// step is a forward scan that runs off the end of the stream.
pub proof fn lemma_step_of_prefix(
    head: Seq<char>,
    tail: Seq<char>,
    alphabet: Alphabet,
    m: Machine,
)
    requires
        m.wf(head),
        !m.halted(head),
    ensures
        step(head, alphabet, m) != Transition::Fault(Bracket::Skip) ==> step(
            head + tail,
            alphabet,
            m,
        ) == step(head, alphabet, m),
{
    assert((head + tail)[m.pc] == head[m.pc]);
    lemma_loop_partner_of_prefix(head, tail, m.pc);
    if skip_partner(head, m.pc) is Some {
        lemma_skip_partner_survives(head, tail, m.pc);
    }
}

/// A run can be cut in two: the run of `first + second` steps is the run of `first` steps,
/// followed by the run from where that one stopped with the steps that it left.
pub proof fn lemma_run_split(
    code: Seq<char>,
    alphabet: Alphabet,
    m: Machine,
    first: nat,
    second: nat,
)
    ensures
        ({
            let head = run(code, alphabet, m, first);
            &&& head.steps <= first
            &&& run(code, alphabet, m, first + second) == head.followed_by(
                run(code, alphabet, head.machine, (first + second - head.steps) as nat),
            )
        }),
    decreases first,
{
    let head = run(code, alphabet, m, first);
    let whole = run(code, alphabet, m, first + second);
    let rest = run(code, alphabet, head.machine, (first + second - head.steps) as nat);
    if m.terminated || m.pc >= code.len() || first == 0 {
        assert(head.followed_by(rest).output =~= whole.output);
    } else {
        match step(code, alphabet, m) {
            Transition::Fault(_) => {
                assert(head.followed_by(rest).output =~= whole.output);
            },
            Transition::Next(next, byte) => {
                lemma_run_split(code, alphabet, next, (first - 1) as nat, second);
                let inner = run(code, alphabet, next, (first - 1) as nat);
                assert(rest == run(
                    code,
                    alphabet,
                    inner.machine,
                    (first - 1 + second - inner.steps) as nat,
                ));
                assert(run(code, alphabet, next, (first + second - 1) as nat) == inner.followed_by(
                    rest,
                ));
                assert(head.followed_by(rest).output =~= whole.output);
            },
        }
    }
}

/// A run that ended for another reason than its budget is the same run under any larger
/// budget.
pub proof fn lemma_finished_run_is_stable(
    code: Seq<char>,
    alphabet: Alphabet,
    m: Machine,
    budget: nat,
    more: nat,
)
    requires
        run(code, alphabet, m, budget).ending != Ending::OutOfSteps,
    ensures
        run(code, alphabet, m, budget + more) == run(code, alphabet, m, budget),
    decreases budget,
{
    if !m.terminated && m.pc < code.len() && budget > 0 {
        if let Transition::Next(next, _) = step(code, alphabet, m) {
            lemma_finished_run_is_stable(code, alphabet, next, (budget - 1) as nat, more);
        }
    }
}

/// Text appended to a stream does not change what the stream does: the run of `head + tail`
/// is the run of `head`, followed by the run of `head + tail` from where that one stopped
/// with the steps that it left.
pub proof fn lemma_run_of_extended_stream(
    head: Seq<char>,
    tail: Seq<char>,
    alphabet: Alphabet,
    m: Machine,
    budget: nat,
)
    requires
        m.wf(head),
    ensures
        ({
            let first = run(head, alphabet, m, budget);
            &&& first.steps <= budget
            &&& run(head + tail, alphabet, m, budget) == first.followed_by(
                run(head + tail, alphabet, first.machine, (budget - first.steps) as nat),
            )
        }),
    decreases budget,
{
    let code = head + tail;
    let first = run(head, alphabet, m, budget);
    let whole = run(code, alphabet, m, budget);
    let rest = run(code, alphabet, first.machine, (budget - first.steps) as nat);
    if m.terminated || m.pc >= head.len() || budget == 0 {
        assert(first.followed_by(rest).output =~= whole.output);
    } else {
        lemma_step_of_prefix(head, tail, alphabet, m);
        lemma_step_keeps_wf(head, alphabet, m);
        match step(head, alphabet, m) {
            Transition::Fault(_) => {
                assert(first.followed_by(rest).output =~= whole.output);
            },
            Transition::Next(next, byte) => {
                lemma_run_of_extended_stream(head, tail, alphabet, next, (budget - 1) as nat);
                let inner = run(head, alphabet, next, (budget - 1) as nat);
                assert(rest == run(
                    code,
                    alphabet,
                    inner.machine,
                    (budget - 1 - inner.steps) as nat,
                ));
                assert(run(code, alphabet, next, (budget - 1) as nat) == inner.followed_by(rest));
                assert(first.followed_by(rest).output =~= whole.output);
            },
        }
    }
}

/// What a stream emits is the start of what the stream with text appended emits. If the
/// stream ends by a terminate instruction, by a backward scan without a partner or by its
/// budget, the appended text changes nothing at all.
pub proof fn lemma_appended_text_keeps_output(
    head: Seq<char>,
    tail: Seq<char>,
    alphabet: Alphabet,
    m: Machine,
    budget: nat,
)
    requires
        m.wf(head),
    ensures
        run(head, alphabet, m, budget).output.is_prefix_of(
            run(head + tail, alphabet, m, budget).output,
        ),
        run(head, alphabet, m, budget).ending == Ending::Terminated || run(
            head,
            alphabet,
            m,
            budget,
        ).ending == Ending::Unmatched(Bracket::Loop) || run(head, alphabet, m, budget).ending
            == Ending::OutOfSteps ==> run(head + tail, alphabet, m, budget) == run(
            head,
            alphabet,
            m,
            budget,
        ),
{
    let code = head + tail;
    let first = run(head, alphabet, m, budget);
    let rest = run(code, alphabet, first.machine, (budget - first.steps) as nat);
    lemma_run_of_extended_stream(head, tail, alphabet, m, budget);
    lemma_run_keeps_wf(head, alphabet, m, budget);
    assert((first.output + rest.output).subrange(0, first.output.len() as int)
        =~= first.output);
    lemma_run_end(head, alphabet, m, budget);
    if first.ending == Ending::Terminated {
        assert(first.output + rest.output =~= first.output);
    } else if first.ending == Ending::OutOfSteps {
        assert(first.output + rest.output =~= first.output);
    } else if first.ending == Ending::Unmatched(Bracket::Loop) {
        lemma_step_of_prefix(head, tail, alphabet, first.machine);
        assert(first.output + rest.output =~= first.output);
    }
}

/// Once a stream has run to its end, what it emitted comes first in every longer run of the
/// stream with text appended: the appended text can add to the output and cannot change it.
pub proof fn lemma_finished_output_comes_first(
    head: Seq<char>,
    tail: Seq<char>,
    alphabet: Alphabet,
    m: Machine,
    budget: nat,
    more: nat,
)
    requires
        m.wf(head),
        run(head, alphabet, m, budget).ending != Ending::OutOfSteps,
    ensures
        run(head, alphabet, m, budget).output.is_prefix_of(
            run(head + tail, alphabet, m, budget + more).output,
        ),
{
    lemma_finished_run_is_stable(head, alphabet, m, budget, more);
    lemma_appended_text_keeps_output(head, tail, alphabet, m, budget + more);
}

/// How a run ends tells where the machine stands at its end.
pub proof fn lemma_run_end(code: Seq<char>, alphabet: Alphabet, m: Machine, budget: nat)
    requires
        m.wf(code),
    ensures
        ({
            let trace = run(code, alphabet, m, budget);
            match trace.ending {
                Ending::Terminated => trace.machine.terminated,
                Ending::EndOfStream => !trace.machine.terminated && trace.machine.pc
                    == code.len(),
                Ending::OutOfSteps => !trace.machine.halted(code) && trace.steps == budget,
                Ending::Unmatched(bracket) => {
                    &&& !trace.machine.halted(code)
                    &&& trace.steps < budget
                    &&& step(code, alphabet, trace.machine) == Transition::Fault(bracket)
                },
            }
        }),
    decreases budget,
{
    if !m.halted(code) && budget > 0 {
        lemma_step_keeps_wf(code, alphabet, m);
        if let Transition::Next(next, _) = step(code, alphabet, m) {
            lemma_run_end(code, alphabet, next, (budget - 1) as nat);
        }
    }
}

/// In a well-formed stream every bracket that has to jump has a partner: no run ends on an
/// unmatched bracket.
pub proof fn lemma_well_formed_stream_never_faults(
    code: Seq<char>,
    alphabet: Alphabet,
    m: Machine,
    budget: nat,
)
    requires
        balanced(code),
        m.wf(code),
    ensures
        !(run(code, alphabet, m, budget).ending is Unmatched),
    decreases budget,
{
    if !m.halted(code) && budget > 0 {
        lemma_step_keeps_wf(code, alphabet, m);
        match decode_spec(code[m.pc], alphabet) {
            Instr::SkipIfZero => {
                lemma_balanced_skip_has_partner(code, m.pc);
            },
            Instr::LoopIfNonzero => {
                lemma_balanced_loop_has_partner(code, m.pc);
            },
            _ => {},
        }
        if let Transition::Next(next, _) = step(code, alphabet, m) {
            lemma_well_formed_stream_never_faults(code, alphabet, next, (budget - 1) as nat);
        }
    }
}

} // verus!
