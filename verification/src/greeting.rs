//! What the built-in preambles emit, followed block by block.
//!
//! Each preamble is cut into a few pieces. A piece is a stretch of the stream that is run
//! once, or the body of a loop, which is run once for each value of a counter.

use vstd::prelude::*;
use crate::blocks::{
    is_run,
    lemma_begin,
    lemma_then_decrements,
    lemma_then_increments,
    lemma_then_loops_back,
    lemma_then_moves_left,
    lemma_then_moves_right,
    lemma_then_output,
    lemma_then_passes_bracket,
    reaches,
};
use crate::bracket::lemma_plain_block_pairs;
use crate::config::{COMPACT_PREAMBLE, COMPACT_TAPE_LEN, STANDARD_PREAMBLE, STANDARD_TAPE_LEN};
use crate::instr::Alphabet;
use crate::laws::{lemma_finished_output_comes_first, lemma_finished_run_is_stable};
use crate::machine::{run, Ending, Machine, Trace};
use crate::tape::TapeState;

verus! {

/// The characters of `code` from position `at` on are those of `text`.
pub open spec fn holds_at(code: Seq<char>, at: int, text: Seq<char>) -> bool {
    &&& 0 <= at
    &&& at + text.len() <= code.len()
    &&& forall|k: int| at <= k < at + text.len() ==> #[trigger] code[k] == text[k - at]
}

/// The cells of a tape of `len` cells that holds `vals` in its first cells and zero in
/// the others.
pub open spec fn cells_with(vals: Seq<u8>, len: nat) -> Seq<u8> {
    Seq::new(
        len,
        |k: int|
            if k < vals.len() {
                vals[k]
            } else {
                0u8
            },
    )
}

/// The bytes that stand for the characters of `text`.
pub open spec fn bytes_of(text: Seq<char>) -> Seq<u8> {
    text.map_values(|c: char| c as u8)
}

/// What the standard preamble emits.
pub open spec fn standard_greeting() -> Seq<u8> {
    bytes_of("Hello,World!"@)
}

/// What the compact preamble emits.
pub open spec fn compact_greeting() -> Seq<u8> {
    bytes_of("Hello, World!"@)
}

/// A running machine on a tape of a thousand cells.
pub open spec fn standard_machine(pc: int, pointer: int, vals: Seq<u8>) -> Machine {
    Machine {
        tape: TapeState { cells: cells_with(vals, STANDARD_TAPE_LEN as nat), pointer },
        pc,
        terminated: false,
    }
}

/// A running machine on a tape of ten cells.
pub open spec fn compact_machine(pc: int, pointer: int, vals: Seq<u8>) -> Machine {
    Machine {
        tape: TapeState { cells: cells_with(vals, COMPACT_TAPE_LEN as nat), pointer },
        pc,
        terminated: false,
    }
}

/// The first cells of the standard tape after `i` rounds of the first loop: the counter,
/// then the eleven cells of the letters, each at two or three times the number of rounds.
pub open spec fn standard_fill(i: int) -> Seq<u8> {
    seq![
        (32 - i) as u8,
        (2 * i) as u8,
        (3 * i) as u8,
        (3 * i) as u8,
        (3 * i) as u8,
        (3 * i) as u8,
        (2 * i) as u8,
        (2 * i) as u8,
        (3 * i) as u8,
        (3 * i) as u8,
        (3 * i) as u8,
        (3 * i) as u8,
    ]
}

/// The first cells of the standard tape once the letters are emitted, with the counter of
/// the second loop and the cell that it fills after `i` rounds.
pub open spec fn standard_letters(i: int) -> Seq<u8> {
    seq![
        0u8,
        72u8,
        101u8,
        108u8,
        108u8,
        111u8,
        44u8,
        87u8,
        111u8,
        114u8,
        108u8,
        100u8,
        (16 - i) as u8,
        (2 * i) as u8,
    ]
}

/// The first cells of the compact tape after `i` rounds of its loop: the counter, then the
/// four cells that the letters are made from.
pub open spec fn compact_fill(i: int) -> Seq<u8> {
    seq![(8 - i) as u8, (9 * i) as u8, (13 * i) as u8, (4 * i) as u8, (11 * i) as u8]
}

/// One round of the first loop of the standard preamble, up to its `?`.
proof fn lemma_standard_fill_round(
    code: Seq<char>,
    alphabet: Alphabet,
    start: Machine,
    t: Trace,
    i: int,
) -> (next: Trace)
    requires
        holds_at(code, 32, "!HllHlllHlllHlllHlllHllHllHlllHlllHlllHllleeeeeeeeeeeo?"@),
        reaches(code, alphabet, start, t),
        0 <= i < 32,
        t.machine == standard_machine(33, 0, standard_fill(i)),
    ensures
        reaches(code, alphabet, start, next),
        next.machine == standard_machine(86, 0, standard_fill(i + 1)),
        next.steps == t.steps + 53,
        next.output == t.output,
{
    reveal_strlit("!HllHlllHlllHlllHlllHllHllHlllHlllHlllHllleeeeeeeeeeeo?");
    let t = lemma_then_moves_right(code, alphabet, start, t, 1);
    let t = lemma_then_increments(code, alphabet, start, t, 2);
    let t = lemma_then_moves_right(code, alphabet, start, t, 1);
    let t = lemma_then_increments(code, alphabet, start, t, 3);
    let t = lemma_then_moves_right(code, alphabet, start, t, 1);
    let t = lemma_then_increments(code, alphabet, start, t, 3);
    let t = lemma_then_moves_right(code, alphabet, start, t, 1);
    let t = lemma_then_increments(code, alphabet, start, t, 3);
    let t = lemma_then_moves_right(code, alphabet, start, t, 1);
    let t = lemma_then_increments(code, alphabet, start, t, 3);
    let t = lemma_then_moves_right(code, alphabet, start, t, 1);
    let t = lemma_then_increments(code, alphabet, start, t, 2);
    let t = lemma_then_moves_right(code, alphabet, start, t, 1);
    let t = lemma_then_increments(code, alphabet, start, t, 2);
    let t = lemma_then_moves_right(code, alphabet, start, t, 1);
    let t = lemma_then_increments(code, alphabet, start, t, 3);
    let t = lemma_then_moves_right(code, alphabet, start, t, 1);
    let t = lemma_then_increments(code, alphabet, start, t, 3);
    let t = lemma_then_moves_right(code, alphabet, start, t, 1);
    let t = lemma_then_increments(code, alphabet, start, t, 3);
    let t = lemma_then_moves_right(code, alphabet, start, t, 1);
    let t = lemma_then_increments(code, alphabet, start, t, 3);
    let t = lemma_then_moves_left(code, alphabet, start, t, 11);
    let t = lemma_then_decrements(code, alphabet, start, t, 1);
    assert(t.machine.tape.cells =~= cells_with(standard_fill(i + 1), STANDARD_TAPE_LEN as nat));
    t
}

/// The first `i` rounds of the first loop of the standard preamble, each with its way back.
proof fn lemma_standard_fill_rounds(
    code: Seq<char>,
    alphabet: Alphabet,
    start: Machine,
    t: Trace,
    i: int,
) -> (next: Trace)
    requires
        holds_at(code, 32, "!HllHlllHlllHlllHlllHllHllHlllHlllHlllHllleeeeeeeeeeeo?"@),
        reaches(code, alphabet, start, t),
        0 <= i < 32,
        t.machine == standard_machine(33, 0, standard_fill(0)),
    ensures
        reaches(code, alphabet, start, next),
        next.machine == standard_machine(33, 0, standard_fill(i)),
        next.steps == t.steps + 54 * i,
        next.output == t.output,
    decreases i,
{
    if i == 0 {
        t
    } else {
        reveal_strlit("!HllHlllHlllHlllHlllHllHllHlllHlllHlllHllleeeeeeeeeeeo?");
        let t = lemma_standard_fill_rounds(code, alphabet, start, t, i - 1);
        let t = lemma_standard_fill_round(code, alphabet, start, t, i - 1);
        lemma_plain_block_pairs(code, 32, 86);
        lemma_then_loops_back(code, alphabet, start, t, 32)
    }
}

/// The stretch of the standard preamble that adds one to each of the eleven letter cells.
proof fn lemma_standard_lift(
    code: Seq<char>,
    alphabet: Alphabet,
    start: Machine,
    t: Trace,
) -> (next: Trace)
    requires
        holds_at(code, 87, "HlHlHlHlHlHlHlHlHlHlHleeeeeeeeeee"@),
        reaches(code, alphabet, start, t),
        t.machine == standard_machine(87, 0, standard_fill(32)),
    ensures
        is_run(code, alphabet, start, next),
        next.ending == next.machine.standing(code),
        next.machine == standard_machine(
            120,
            0,
            seq![0u8, 65u8, 97u8, 97u8, 97u8, 97u8, 65u8, 65u8, 97u8, 97u8, 97u8, 97u8],
        ),
        next.steps == t.steps + 33,
        next.output == t.output,
{
    reveal_strlit("HlHlHlHlHlHlHlHlHlHlHleeeeeeeeeee");
    let t = lemma_then_moves_right(code, alphabet, start, t, 1);
    let t = lemma_then_increments(code, alphabet, start, t, 1);
    let t = lemma_then_moves_right(code, alphabet, start, t, 1);
    let t = lemma_then_increments(code, alphabet, start, t, 1);
    let t = lemma_then_moves_right(code, alphabet, start, t, 1);
    let t = lemma_then_increments(code, alphabet, start, t, 1);
    let t = lemma_then_moves_right(code, alphabet, start, t, 1);
    let t = lemma_then_increments(code, alphabet, start, t, 1);
    let t = lemma_then_moves_right(code, alphabet, start, t, 1);
    let t = lemma_then_increments(code, alphabet, start, t, 1);
    let t = lemma_then_moves_right(code, alphabet, start, t, 1);
    let t = lemma_then_increments(code, alphabet, start, t, 1);
    let t = lemma_then_moves_right(code, alphabet, start, t, 1);
    let t = lemma_then_increments(code, alphabet, start, t, 1);
    let t = lemma_then_moves_right(code, alphabet, start, t, 1);
    let t = lemma_then_increments(code, alphabet, start, t, 1);
    let t = lemma_then_moves_right(code, alphabet, start, t, 1);
    let t = lemma_then_increments(code, alphabet, start, t, 1);
    let t = lemma_then_moves_right(code, alphabet, start, t, 1);
    let t = lemma_then_increments(code, alphabet, start, t, 1);
    let t = lemma_then_moves_right(code, alphabet, start, t, 1);
    let t = lemma_then_increments(code, alphabet, start, t, 1);
    let t = lemma_then_moves_left(code, alphabet, start, t, 11);
    assert(t.machine.tape.cells =~= cells_with(
        seq![0u8, 65u8, 97u8, 97u8, 97u8, 97u8, 65u8, 65u8, 97u8, 97u8, 97u8, 97u8],
        STANDARD_TAPE_LEN as nat,
    ));
    t
}

/// The stretch of the standard preamble that brings each letter cell to its letter and
/// emits it.
proof fn lemma_standard_letters(
    code: Seq<char>,
    alphabet: Alphabet,
    start: Machine,
    t: Trace,
) -> (next: Trace)
    requires
        holds_at(code, 120, "Hlllllll,Hllll,Hlllllllllll,Hlllllllllll,Hllllllllllllll,Hooooooooooooooooooooo,Hllllllllllllllllllllll,Hllllllllllllll,Hlllllllllllllllll,Hlllllllllll,Hlll,"@),
        reaches(code, alphabet, start, t),
        t.machine == standard_machine(
            120,
            0,
            seq![0u8, 65u8, 97u8, 97u8, 97u8, 97u8, 65u8, 65u8, 97u8, 97u8, 97u8, 97u8],
        ),
    ensures
        is_run(code, alphabet, start, next),
        next.ending == next.machine.standing(code),
        next.machine == standard_machine(
            277,
            11,
            seq![0u8, 72u8, 101u8, 108u8, 108u8, 111u8, 44u8, 87u8, 111u8, 114u8, 108u8, 100u8],
        ),
        next.steps == t.steps + 157,
        next.output == t.output + bytes_of("Hello,World"@),
{
    reveal_strlit("Hlllllll,Hllll,Hlllllllllll,Hlllllllllll,Hllllllllllllll,Hooooooooooooooooooooo,Hllllllllllllllllllllll,Hllllllllllllll,Hlllllllllllllllll,Hlllllllllll,Hlll,");
    reveal_strlit("Hello,World");
    let before = t.output;
    let t = lemma_then_moves_right(code, alphabet, start, t, 1);
    let t = lemma_then_increments(code, alphabet, start, t, 7);
    let t = lemma_then_output(code, alphabet, start, t);
    let t = lemma_then_moves_right(code, alphabet, start, t, 1);
    let t = lemma_then_increments(code, alphabet, start, t, 4);
    let t = lemma_then_output(code, alphabet, start, t);
    let t = lemma_then_moves_right(code, alphabet, start, t, 1);
    let t = lemma_then_increments(code, alphabet, start, t, 11);
    let t = lemma_then_output(code, alphabet, start, t);
    let t = lemma_then_moves_right(code, alphabet, start, t, 1);
    let t = lemma_then_increments(code, alphabet, start, t, 11);
    let t = lemma_then_output(code, alphabet, start, t);
    let t = lemma_then_moves_right(code, alphabet, start, t, 1);
    let t = lemma_then_increments(code, alphabet, start, t, 14);
    let t = lemma_then_output(code, alphabet, start, t);
    let t = lemma_then_moves_right(code, alphabet, start, t, 1);
    let t = lemma_then_decrements(code, alphabet, start, t, 21);
    let t = lemma_then_output(code, alphabet, start, t);
    let t = lemma_then_moves_right(code, alphabet, start, t, 1);
    let t = lemma_then_increments(code, alphabet, start, t, 22);
    let t = lemma_then_output(code, alphabet, start, t);
    let t = lemma_then_moves_right(code, alphabet, start, t, 1);
    let t = lemma_then_increments(code, alphabet, start, t, 14);
    let t = lemma_then_output(code, alphabet, start, t);
    let t = lemma_then_moves_right(code, alphabet, start, t, 1);
    let t = lemma_then_increments(code, alphabet, start, t, 17);
    let t = lemma_then_output(code, alphabet, start, t);
    let t = lemma_then_moves_right(code, alphabet, start, t, 1);
    let t = lemma_then_increments(code, alphabet, start, t, 11);
    let t = lemma_then_output(code, alphabet, start, t);
    let t = lemma_then_moves_right(code, alphabet, start, t, 1);
    let t = lemma_then_increments(code, alphabet, start, t, 3);
    let t = lemma_then_output(code, alphabet, start, t);
    assert(t.machine.tape.cells =~= cells_with(
        seq![0u8, 72u8, 101u8, 108u8, 108u8, 111u8, 44u8, 87u8, 111u8, 114u8, 108u8, 100u8],
        STANDARD_TAPE_LEN as nat,
    ));
    assert(t.output =~= before + bytes_of("Hello,World"@));
    t
}

/// One round of the second loop of the standard preamble, up to its `?`.
proof fn lemma_standard_mark_round(
    code: Seq<char>,
    alphabet: Alphabet,
    start: Machine,
    t: Trace,
    i: int,
) -> (next: Trace)
    requires
        holds_at(code, 277, "Hllllllllllllllll!Hlleo?Hl,"@),
        reaches(code, alphabet, start, t),
        0 <= i < 16,
        t.machine == standard_machine(295, 12, standard_letters(i)),
    ensures
        reaches(code, alphabet, start, next),
        next.machine == standard_machine(300, 12, standard_letters(i + 1)),
        next.steps == t.steps + 5,
        next.output == t.output,
{
    reveal_strlit("Hllllllllllllllll!Hlleo?Hl,");
    let t = lemma_then_moves_right(code, alphabet, start, t, 1);
    let t = lemma_then_increments(code, alphabet, start, t, 2);
    let t = lemma_then_moves_left(code, alphabet, start, t, 1);
    let t = lemma_then_decrements(code, alphabet, start, t, 1);
    assert(t.machine.tape.cells =~= cells_with(
        standard_letters(i + 1),
        STANDARD_TAPE_LEN as nat,
    ));
    t
}

/// The first `i` rounds of the second loop of the standard preamble, each with its way
/// back.
proof fn lemma_standard_mark_rounds(
    code: Seq<char>,
    alphabet: Alphabet,
    start: Machine,
    t: Trace,
    i: int,
) -> (next: Trace)
    requires
        holds_at(code, 277, "Hllllllllllllllll!Hlleo?Hl,"@),
        reaches(code, alphabet, start, t),
        0 <= i < 16,
        t.machine == standard_machine(295, 12, standard_letters(0)),
    ensures
        reaches(code, alphabet, start, next),
        next.machine == standard_machine(295, 12, standard_letters(i)),
        next.steps == t.steps + 6 * i,
        next.output == t.output,
    decreases i,
{
    if i == 0 {
        t
    } else {
        reveal_strlit("Hllllllllllllllll!Hlleo?Hl,");
        let t = lemma_standard_mark_rounds(code, alphabet, start, t, i - 1);
        let t = lemma_standard_mark_round(code, alphabet, start, t, i - 1);
        lemma_plain_block_pairs(code, 294, 300);
        lemma_then_loops_back(code, alphabet, start, t, 294)
    }
}

/// The run of the standard preamble on a blank tape, from its first step to its last.
proof fn lemma_standard_run(code: Seq<char>, alphabet: Alphabet) -> (t: Trace)
    requires
        code.len() == 304,
        holds_at(code, 0, "llllllllllllllllllllllllllllllll!"@),
        holds_at(code, 32, "!HllHlllHlllHlllHlllHllHllHlllHlllHlllHllleeeeeeeeeeeo?"@),
        holds_at(code, 87, "HlHlHlHlHlHlHlHlHlHlHleeeeeeeeeee"@),
        holds_at(code, 120, "Hlllllll,Hllll,Hlllllllllll,Hlllllllllll,Hllllllllllllll,Hooooooooooooooooooooo,Hllllllllllllllllllllll,Hllllllllllllll,Hlllllllllllllllll,Hlllllllllll,Hlll,"@),
        holds_at(code, 277, "Hllllllllllllllll!Hlleo?Hl,"@),
    ensures
        is_run(code, alphabet, Machine::initial(STANDARD_TAPE_LEN as nat), t),
        t.machine == standard_machine(304, 13, standard_letters(16).update(13, 33u8)),
        t.output == standard_greeting(),
        t.steps == 2068,
        t.ending == Ending::EndOfStream,
{
    reveal_strlit("llllllllllllllllllllllllllllllll!");
    reveal_strlit("!HllHlllHlllHlllHlllHllHllHlllHlllHlllHllleeeeeeeeeeeo?");
    reveal_strlit("Hllllllllllllllll!Hlleo?Hl,");
    reveal_strlit("Hello,World");
    reveal_strlit("Hello,World!");
    let start = Machine::initial(STANDARD_TAPE_LEN as nat);
    let t = lemma_begin(code, alphabet, start);
    let t = lemma_then_increments(code, alphabet, start, t, 32);
    let t = lemma_then_passes_bracket(code, alphabet, start, t);
    assert(t.machine.tape.cells =~= cells_with(standard_fill(0), STANDARD_TAPE_LEN as nat));
    let t = lemma_standard_fill_rounds(code, alphabet, start, t, 31);
    let t = lemma_standard_fill_round(code, alphabet, start, t, 31);
    let t = lemma_then_passes_bracket(code, alphabet, start, t);
    let t = lemma_standard_lift(code, alphabet, start, t);
    let t = lemma_standard_letters(code, alphabet, start, t);
    let t = lemma_then_moves_right(code, alphabet, start, t, 1);
    let t = lemma_then_increments(code, alphabet, start, t, 16);
    let t = lemma_then_passes_bracket(code, alphabet, start, t);
    assert(t.machine.tape.cells =~= cells_with(standard_letters(0), STANDARD_TAPE_LEN as nat));
    let t = lemma_standard_mark_rounds(code, alphabet, start, t, 15);
    let t = lemma_standard_mark_round(code, alphabet, start, t, 15);
    let t = lemma_then_passes_bracket(code, alphabet, start, t);
    let t = lemma_then_moves_right(code, alphabet, start, t, 1);
    let t = lemma_then_increments(code, alphabet, start, t, 1);
    let t = lemma_then_output(code, alphabet, start, t);
    assert(t.machine.tape.cells =~= cells_with(
        standard_letters(16).update(13, 33u8),
        STANDARD_TAPE_LEN as nat,
    ));
    assert(t.output =~= standard_greeting());
    t
}

/// The standard preamble, run on a blank tape under any alphabet, emits `Hello,World!` in
/// 2068 steps and ends at the end of the stream, with the pointer on the cell of the `!`.
pub proof fn lemma_standard_preamble_greets(alphabet: Alphabet, budget: nat)
    requires
        budget >= 2068,
    ensures
        run(STANDARD_PREAMBLE@, alphabet, Machine::initial(STANDARD_TAPE_LEN as nat), budget)
            == (Trace {
            machine: standard_machine(304, 13, standard_letters(16).update(13, 33u8)),
            output: standard_greeting(),
            steps: 2068,
            ending: Ending::EndOfStream,
        }),
{
    reveal_strlit("llllllllllllllllllllllllllllllll!HllHlllHlllHlllHlllHllHllHlllHlllHlllHllleeeeeeeeeeeo?HlHlHlHlHlHlHlHlHlHlHleeeeeeeeeeeHlllllll,Hllll,Hlllllllllll,Hlllllllllll,Hllllllllllllll,Hooooooooooooooooooooo,Hllllllllllllllllllllll,Hllllllllllllll,Hlllllllllllllllll,Hlllllllllll,Hlll,Hllllllllllllllll!Hlleo?Hl,");
    reveal_strlit("llllllllllllllllllllllllllllllll!");
    reveal_strlit("!HllHlllHlllHlllHlllHllHllHlllHlllHlllHllleeeeeeeeeeeo?");
    reveal_strlit("HlHlHlHlHlHlHlHlHlHlHleeeeeeeeeee");
    reveal_strlit("Hlllllll,Hllll,Hlllllllllll,Hlllllllllll,Hllllllllllllll,Hooooooooooooooooooooo,Hllllllllllllllllllllll,Hllllllllllllll,Hlllllllllllllllll,Hlllllllllll,Hlll,");
    reveal_strlit("Hllllllllllllllll!Hlleo?Hl,");
    let t = lemma_standard_run(STANDARD_PREAMBLE@, alphabet);
    reveal(is_run);
    lemma_finished_run_is_stable(
        STANDARD_PREAMBLE@,
        alphabet,
        Machine::initial(STANDARD_TAPE_LEN as nat),
        2068,
        (budget - 2068) as nat,
    );
}

/// Whatever text follows the standard preamble, a run of 2068 steps or more on a blank tape
/// emits `Hello,World!` before anything else.
pub proof fn lemma_standard_greeting_comes_first(
    text: Seq<char>,
    alphabet: Alphabet,
    budget: nat,
)
    requires
        budget >= 2068,
    ensures
        standard_greeting().is_prefix_of(
            run(
                STANDARD_PREAMBLE@ + text,
                alphabet,
                Machine::initial(STANDARD_TAPE_LEN as nat),
                budget,
            ).output,
        ),
{
    lemma_standard_preamble_greets(alphabet, 2068);
    lemma_finished_output_comes_first(
        STANDARD_PREAMBLE@,
        text,
        alphabet,
        Machine::initial(STANDARD_TAPE_LEN as nat),
        2068,
        (budget - 2068) as nat,
    );
}

/// One round of the loop of the compact preamble, up to its `?`.
proof fn lemma_compact_fill_round(
    code: Seq<char>,
    alphabet: Alphabet,
    start: Machine,
    t: Trace,
    i: int,
) -> (next: Trace)
    requires
        holds_at(code, 8, "!HlllllllllHlllllllllllllHllllHllllllllllleeeeo?"@),
        reaches(code, alphabet, start, t),
        0 <= i < 8,
        t.machine == compact_machine(9, 0, compact_fill(i)),
    ensures
        reaches(code, alphabet, start, next),
        next.machine == compact_machine(55, 0, compact_fill(i + 1)),
        next.steps == t.steps + 46,
        next.output == t.output,
{
    reveal_strlit("!HlllllllllHlllllllllllllHllllHllllllllllleeeeo?");
    let t = lemma_then_moves_right(code, alphabet, start, t, 1);
    let t = lemma_then_increments(code, alphabet, start, t, 9);
    let t = lemma_then_moves_right(code, alphabet, start, t, 1);
    let t = lemma_then_increments(code, alphabet, start, t, 13);
    let t = lemma_then_moves_right(code, alphabet, start, t, 1);
    let t = lemma_then_increments(code, alphabet, start, t, 4);
    let t = lemma_then_moves_right(code, alphabet, start, t, 1);
    let t = lemma_then_increments(code, alphabet, start, t, 11);
    let t = lemma_then_moves_left(code, alphabet, start, t, 4);
    let t = lemma_then_decrements(code, alphabet, start, t, 1);
    assert(t.machine.tape.cells =~= cells_with(compact_fill(i + 1), COMPACT_TAPE_LEN as nat));
    t
}

/// The first `i` rounds of the loop of the compact preamble, each with its way back.
proof fn lemma_compact_fill_rounds(
    code: Seq<char>,
    alphabet: Alphabet,
    start: Machine,
    t: Trace,
    i: int,
) -> (next: Trace)
    requires
        holds_at(code, 8, "!HlllllllllHlllllllllllllHllllHllllllllllleeeeo?"@),
        reaches(code, alphabet, start, t),
        0 <= i < 8,
        t.machine == compact_machine(9, 0, compact_fill(0)),
    ensures
        reaches(code, alphabet, start, next),
        next.machine == compact_machine(9, 0, compact_fill(i)),
        next.steps == t.steps + 47 * i,
        next.output == t.output,
    decreases i,
{
    if i == 0 {
        t
    } else {
        reveal_strlit("!HlllllllllHlllllllllllllHllllHllllllllllleeeeo?");
        let t = lemma_compact_fill_rounds(code, alphabet, start, t, i - 1);
        let t = lemma_compact_fill_round(code, alphabet, start, t, i - 1);
        lemma_plain_block_pairs(code, 8, 55);
        lemma_then_loops_back(code, alphabet, start, t, 8)
    }
}

/// The stretch of the compact preamble that makes each letter in turn and emits it.
proof fn lemma_compact_letters(
    code: Seq<char>,
    alphabet: Alphabet,
    start: Machine,
    t: Trace,
) -> (next: Trace)
    requires
        holds_at(code, 56, "H,Hooo,lllllll,,lll,Hllllllllllll,oooooooooooo,Ho,ee,lll,oooooo,oooooooo,Hl,"@),
        reaches(code, alphabet, start, t),
        code.len() == 132,
        t.machine == compact_machine(56, 0, compact_fill(8)),
    ensures
        is_run(code, alphabet, start, next),
        next.ending == Ending::EndOfStream,
        next.machine == compact_machine(132, 3, seq![0u8, 72u8, 100u8, 33u8, 87u8]),
        next.steps == t.steps + 76,
        next.output == t.output + compact_greeting(),
{
    reveal_strlit("H,Hooo,lllllll,,lll,Hllllllllllll,oooooooooooo,Ho,ee,lll,oooooo,oooooooo,Hl,");
    reveal_strlit("Hello, World!");
    let before = t.output;
    let t = lemma_then_moves_right(code, alphabet, start, t, 1);
    let t = lemma_then_output(code, alphabet, start, t);
    let t = lemma_then_moves_right(code, alphabet, start, t, 1);
    let t = lemma_then_decrements(code, alphabet, start, t, 3);
    let t = lemma_then_output(code, alphabet, start, t);
    let t = lemma_then_increments(code, alphabet, start, t, 7);
    let t = lemma_then_output(code, alphabet, start, t);
    let t = lemma_then_output(code, alphabet, start, t);
    let t = lemma_then_increments(code, alphabet, start, t, 3);
    let t = lemma_then_output(code, alphabet, start, t);
    let t = lemma_then_moves_right(code, alphabet, start, t, 1);
    let t = lemma_then_increments(code, alphabet, start, t, 12);
    let t = lemma_then_output(code, alphabet, start, t);
    let t = lemma_then_decrements(code, alphabet, start, t, 12);
    let t = lemma_then_output(code, alphabet, start, t);
    let t = lemma_then_moves_right(code, alphabet, start, t, 1);
    let t = lemma_then_decrements(code, alphabet, start, t, 1);
    let t = lemma_then_output(code, alphabet, start, t);
    let t = lemma_then_moves_left(code, alphabet, start, t, 2);
    let t = lemma_then_output(code, alphabet, start, t);
    let t = lemma_then_increments(code, alphabet, start, t, 3);
    let t = lemma_then_output(code, alphabet, start, t);
    let t = lemma_then_decrements(code, alphabet, start, t, 6);
    let t = lemma_then_output(code, alphabet, start, t);
    let t = lemma_then_decrements(code, alphabet, start, t, 8);
    let t = lemma_then_output(code, alphabet, start, t);
    let t = lemma_then_moves_right(code, alphabet, start, t, 1);
    let t = lemma_then_increments(code, alphabet, start, t, 1);
    let t = lemma_then_output(code, alphabet, start, t);
    assert(t.machine.tape.cells =~= cells_with(
        seq![0u8, 72u8, 100u8, 33u8, 87u8],
        COMPACT_TAPE_LEN as nat,
    ));
    assert(t.output =~= before + compact_greeting());
    t
}

/// The run of the compact preamble on a blank tape, from its first step to its last.
proof fn lemma_compact_run(code: Seq<char>, alphabet: Alphabet) -> (t: Trace)
    requires
        code.len() == 132,
        holds_at(code, 0, "llllllll!"@),
        holds_at(code, 8, "!HlllllllllHlllllllllllllHllllHllllllllllleeeeo?"@),
        holds_at(code, 56, "H,Hooo,lllllll,,lll,Hllllllllllll,oooooooooooo,Ho,ee,lll,oooooo,oooooooo,Hl,"@),
    ensures
        is_run(code, alphabet, Machine::initial(COMPACT_TAPE_LEN as nat), t),
        t.machine == compact_machine(132, 3, seq![0u8, 72u8, 100u8, 33u8, 87u8]),
        t.output == compact_greeting(),
        t.steps == 461,
        t.ending == Ending::EndOfStream,
{
    reveal_strlit("llllllll!");
    reveal_strlit("!HlllllllllHlllllllllllllHllllHllllllllllleeeeo?");
    let start = Machine::initial(COMPACT_TAPE_LEN as nat);
    let t = lemma_begin(code, alphabet, start);
    let t = lemma_then_increments(code, alphabet, start, t, 8);
    let t = lemma_then_passes_bracket(code, alphabet, start, t);
    assert(t.machine.tape.cells =~= cells_with(compact_fill(0), COMPACT_TAPE_LEN as nat));
    let t = lemma_compact_fill_rounds(code, alphabet, start, t, 7);
    let t = lemma_compact_fill_round(code, alphabet, start, t, 7);
    let t = lemma_then_passes_bracket(code, alphabet, start, t);
    let t = lemma_compact_letters(code, alphabet, start, t);
    assert(t.output =~= compact_greeting());
    t
}

/// The compact preamble, run on a blank tape under any alphabet, emits `Hello, World!` in
/// 461 steps and ends at the end of the stream.
pub proof fn lemma_compact_preamble_greets(alphabet: Alphabet, budget: nat)
    requires
        budget >= 461,
    ensures
        run(COMPACT_PREAMBLE@, alphabet, Machine::initial(COMPACT_TAPE_LEN as nat), budget)
            == (Trace {
            machine: compact_machine(132, 3, seq![0u8, 72u8, 100u8, 33u8, 87u8]),
            output: compact_greeting(),
            steps: 461,
            ending: Ending::EndOfStream,
        }),
{
    reveal_strlit("llllllll!HlllllllllHlllllllllllllHllllHllllllllllleeeeo?H,Hooo,lllllll,,lll,Hllllllllllll,oooooooooooo,Ho,ee,lll,oooooo,oooooooo,Hl,");
    reveal_strlit("llllllll!");
    reveal_strlit("!HlllllllllHlllllllllllllHllllHllllllllllleeeeo?");
    reveal_strlit("H,Hooo,lllllll,,lll,Hllllllllllll,oooooooooooo,Ho,ee,lll,oooooo,oooooooo,Hl,");
    let t = lemma_compact_run(COMPACT_PREAMBLE@, alphabet);
    reveal(is_run);
    lemma_finished_run_is_stable(
        COMPACT_PREAMBLE@,
        alphabet,
        Machine::initial(COMPACT_TAPE_LEN as nat),
        461,
        (budget - 461) as nat,
    );
}

/// Whatever text follows the compact preamble, a run of 461 steps or more on a blank tape
/// emits `Hello, World!` before anything else.
pub proof fn lemma_compact_greeting_comes_first(
    text: Seq<char>,
    alphabet: Alphabet,
    budget: nat,
)
    requires
        budget >= 461,
    ensures
        compact_greeting().is_prefix_of(
            run(
                COMPACT_PREAMBLE@ + text,
                alphabet,
                Machine::initial(COMPACT_TAPE_LEN as nat),
                budget,
            ).output,
        ),
{
    lemma_compact_preamble_greets(alphabet, 461);
    lemma_finished_output_comes_first(
        COMPACT_PREAMBLE@,
        text,
        alphabet,
        Machine::initial(COMPACT_TAPE_LEN as nat),
        461,
        (budget - 461) as nat,
    );
}

} // verus!
