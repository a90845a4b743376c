use hwl::error::{Bracket, Error};
use hwl::instr::{decode, Alphabet, Instr};
use hwl::interp::Event;
use hwl::machine::Ending;
use hwl::HelloInterpreter;

const BOTH: Alphabet = Alphabet { restart: true, terminate: true };
const NEITHER: Alphabet = Alphabet { restart: false, terminate: false };
const TERMINATE_ONLY: Alphabet = Alphabet { restart: false, terminate: true };

fn machine(text: &str, tape_len: usize, alphabet: Alphabet) -> HelloInterpreter {
    HelloInterpreter::from_stream(tape_len, alphabet, text.chars().collect())
}

fn outcome(
    text: &str,
    tape_len: usize,
    alphabet: Alphabet,
    max_steps: u64,
) -> (Vec<u8>, Ending, u64) {
    let mut interp = machine(text, tape_len, alphabet);
    let report = interp.interpret(max_steps);
    (report.output, report.ending, report.steps)
}

#[test]
fn decode_reads_the_alphabet() {
    assert_eq!(decode('H', BOTH), Instr::MoveRight);
    assert_eq!(decode('e', BOTH), Instr::MoveLeft);
    assert_eq!(decode('l', BOTH), Instr::Increment);
    assert_eq!(decode('o', BOTH), Instr::Decrement);
    assert_eq!(decode(',', BOTH), Instr::Output);
    assert_eq!(decode('W', BOTH), Instr::Reset);
    assert_eq!(decode('!', BOTH), Instr::SkipIfZero);
    assert_eq!(decode('?', BOTH), Instr::LoopIfNonzero);
    assert_eq!(decode('r', BOTH), Instr::Restart);
    assert_eq!(decode('d', BOTH), Instr::Terminate);
}

#[test]
fn decode_ignores_what_is_switched_off() {
    assert_eq!(decode('r', NEITHER), Instr::Nop);
    assert_eq!(decode('d', NEITHER), Instr::Nop);
    assert_eq!(decode('r', TERMINATE_ONLY), Instr::Nop);
    assert_eq!(decode('d', TERMINATE_ONLY), Instr::Terminate);
    assert_eq!(decode('H', NEITHER), Instr::MoveRight);
}

#[test]
fn decode_takes_anything_else_as_nothing() {
    for c in ['h', 'E', 'L', 'O', 'w', ' ', '.', '\n', '0', 'R', 'D', 'é', '世', '\u{0}'] {
        assert_eq!(decode(c, BOTH), Instr::Nop, "{:?}", c);
    }
}

#[test]
fn fresh_machine_stands_at_the_start() {
    let interp = machine("l,", 7, BOTH);
    assert_eq!(interp.pc(), 0);
    assert_eq!(interp.tape().pointer(), 0);
    assert_eq!(interp.tape().len(), 7);
    assert_eq!(interp.tape().read(), 0);
    assert!(!interp.is_halted());
    assert_eq!(interp.stream(), &vec!['l', ',']);
}

#[test]
fn empty_stream_is_halted_at_once() {
    let mut interp = machine("", 1, BOTH);
    assert!(interp.is_halted());
    assert_eq!(interp.step(), Ok(Event::Halted));
    let report = interp.interpret(10);
    assert_eq!(report.output, Vec::<u8>::new());
    assert_eq!(report.steps, 0);
    assert_eq!(report.ending, Ending::EndOfStream);
}

#[test]
fn step_runs_one_instruction() {
    let mut interp = machine("l,H", 3, BOTH);
    assert_eq!(interp.step(), Ok(Event::Silent));
    assert_eq!((interp.pc(), interp.tape().read()), (1, 1));
    assert_eq!(interp.step(), Ok(Event::Emit(1)));
    assert_eq!(interp.pc(), 2);
    assert_eq!(interp.step(), Ok(Event::Silent));
    assert_eq!((interp.pc(), interp.tape().pointer()), (3, 1));
    assert!(interp.is_halted());
    assert_eq!(interp.step(), Ok(Event::Halted));
    assert_eq!((interp.pc(), interp.tape().pointer()), (3, 1));
}

#[test]
fn cell_arithmetic_wraps() {
    assert_eq!(outcome("o,", 1, BOTH, 100), (vec![255], Ending::EndOfStream, 2));
    assert_eq!(outcome("o,l,", 1, BOTH, 100), (vec![255, 0], Ending::EndOfStream, 4));
    let text = "l".repeat(256) + ",";
    assert_eq!(outcome(&text, 1, BOTH, 1000), (vec![0], Ending::EndOfStream, 257));
    let text = "l".repeat(255) + ",l,";
    assert_eq!(outcome(&text, 1, BOTH, 1000), (vec![255, 0], Ending::EndOfStream, 258));
}

#[test]
fn pointer_wraps_at_both_ends() {
    assert_eq!(outcome("el,H,", 10, BOTH, 100), (vec![1, 0], Ending::EndOfStream, 5));
    let mut interp = machine("e", 10, BOTH);
    interp.interpret(100);
    assert_eq!(interp.tape().pointer(), 9);
    let mut interp = machine("HHHHHHHHHH", 10, BOTH);
    for expected in [1, 2, 3, 4, 5, 6, 7, 8, 9, 0] {
        assert_eq!(interp.step(), Ok(Event::Silent));
        assert_eq!(interp.tape().pointer(), expected);
    }
}

#[test]
fn as_many_moves_as_cells_return_the_pointer() {
    for len in [1usize, 10, 1000] {
        let mut interp = machine(&("HH".to_string() + &"H".repeat(len)), len, BOTH);
        interp.interpret(2);
        let start = interp.tape().pointer();
        let report = interp.interpret(1_000_000);
        assert_eq!(report.steps, len as u64);
        assert_eq!(interp.tape().pointer(), start);
        let mut interp = machine(&"e".repeat(len), len, BOTH);
        interp.interpret(1_000_000);
        assert_eq!(interp.tape().pointer(), 0);
    }
}

#[test]
fn reset_zeroes_the_cell() {
    assert_eq!(outcome("lll,W,", 1, BOTH, 100), (vec![3, 0], Ending::EndOfStream, 6));
}

#[test]
fn output_is_in_execution_order() {
    assert_eq!(outcome("l,l,l,o,", 1, BOTH, 100), (vec![1, 2, 3, 2], Ending::EndOfStream, 8));
}

#[test]
fn loop_multiplies() {
    assert_eq!(outcome("lll!Hllllleo?H,", 3, BOTH, 1000), (vec![15], Ending::EndOfStream, 33));
}

#[test]
fn nested_loops_multiply_twice() {
    assert_eq!(outcome("ll!Hll!Hllleo?eo?HH,", 3, BOTH, 1000), (vec![12], Ending::EndOfStream, 48));
}

#[test]
fn skip_on_zero_lands_after_the_partner() {
    let mut interp = machine("!lll?,", 2, BOTH);
    assert_eq!(interp.step(), Ok(Event::Silent));
    assert_eq!(interp.pc(), 5);
    assert_eq!(interp.step(), Ok(Event::Emit(0)));
    assert!(interp.is_halted());
}

#[test]
fn skip_on_nonzero_goes_on() {
    let mut interp = machine("l!o?,", 2, BOTH);
    interp.step().unwrap();
    assert_eq!(interp.step(), Ok(Event::Silent));
    assert_eq!(interp.pc(), 2);
}

#[test]
fn loop_on_nonzero_lands_after_the_partner() {
    let mut interp = machine("ll!o?,", 2, BOTH);
    interp.interpret(4);
    assert_eq!((interp.pc(), interp.tape().read()), (4, 1));
    assert_eq!(interp.step(), Ok(Event::Silent));
    assert_eq!(interp.pc(), 3);
    interp.step().unwrap();
    assert_eq!((interp.pc(), interp.tape().read()), (4, 0));
    assert_eq!(interp.step(), Ok(Event::Silent));
    assert_eq!(interp.pc(), 5);
}

#[test]
fn skip_marker_without_partner_is_fatal() {
    assert_eq!(outcome("!", 1, BOTH, 100), (vec![], Ending::Unmatched(Bracket::Skip), 0));
    assert_eq!(outcome("l,W!l,", 1, BOTH, 100), (vec![1], Ending::Unmatched(Bracket::Skip), 3));
    let mut interp = machine("!", 1, BOTH);
    assert_eq!(interp.step(), Err(Error::UnmatchedBracket(Bracket::Skip)));
    assert_eq!(interp.pc(), 0);
    assert!(!interp.is_halted());
    assert_eq!(interp.step(), Err(Error::UnmatchedBracket(Bracket::Skip)));
}

#[test]
fn loop_marker_without_partner_is_fatal() {
    assert_eq!(outcome("l?", 1, BOTH, 100), (vec![], Ending::Unmatched(Bracket::Loop), 1));
    assert_eq!(outcome("?l,?", 1, BOTH, 100), (vec![1], Ending::Unmatched(Bracket::Loop), 3));
    let mut interp = machine("l?", 1, BOTH);
    interp.step().unwrap();
    assert_eq!(interp.step(), Err(Error::UnmatchedBracket(Bracket::Loop)));
    assert_eq!((interp.pc(), interp.tape().read()), (1, 1));
}

#[test]
fn unmatched_marker_that_need_not_jump_is_passed_over() {
    assert_eq!(outcome("l!,", 1, BOTH, 100), (vec![1], Ending::EndOfStream, 3));
    assert_eq!(outcome("?,", 1, BOTH, 100), (vec![0], Ending::EndOfStream, 2));
}

#[test]
fn unknown_characters_do_nothing() {
    assert_eq!(outcome("abc xyz,", 1, TERMINATE_ONLY, 100), (vec![0], Ending::EndOfStream, 8));
    assert_eq!(outcome("lé世,", 1, BOTH, 100), (vec![1], Ending::EndOfStream, 4));
    let mut interp = machine("x", 4, BOTH);
    assert_eq!(interp.step(), Ok(Event::Silent));
    assert_eq!((interp.pc(), interp.tape().pointer(), interp.tape().read()), (1, 0, 0));
}

#[test]
fn terminate_stops_at_once() {
    assert_eq!(outcome("l,d,l,", 1, BOTH, 100), (vec![1], Ending::Terminated, 3));
    let mut interp = machine("d,", 1, BOTH);
    assert_eq!(interp.step(), Ok(Event::Silent));
    assert!(interp.is_halted());
    assert_eq!(interp.pc(), 0);
    assert_eq!(interp.step(), Ok(Event::Halted));
}

#[test]
fn terminate_switched_off_does_nothing() {
    assert_eq!(outcome("l,d,", 1, NEITHER, 100), (vec![1, 1], Ending::EndOfStream, 4));
}

#[test]
fn restart_goes_back_to_the_start() {
    assert_eq!(outcome("l,r", 1, BOTH, 9), (vec![1, 2, 3], Ending::OutOfSteps, 9));
    let mut interp = machine("Hr", 3, BOTH);
    interp.interpret(2);
    assert_eq!((interp.pc(), interp.tape().pointer()), (0, 1));
}

#[test]
fn restart_switched_off_does_nothing() {
    assert_eq!(outcome("l,r", 1, TERMINATE_ONLY, 9), (vec![1], Ending::EndOfStream, 3));
}

#[test]
fn endless_loop_uses_up_the_budget() {
    assert_eq!(outcome("l!?", 1, BOTH, 100), (vec![], Ending::OutOfSteps, 100));
    assert_eq!(outcome("l!!?", 2, BOTH, 1000), (vec![], Ending::OutOfSteps, 1000));
}

#[test]
fn zero_budget_runs_nothing() {
    assert_eq!(outcome("l,", 1, BOTH, 0), (vec![], Ending::OutOfSteps, 0));
    assert_eq!(outcome("", 1, BOTH, 0), (vec![], Ending::EndOfStream, 0));
}

#[test]
fn halted_machine_reports_its_end_again() {
    let mut interp = machine("l,d", 1, BOTH);
    let first = interp.interpret(100);
    assert_eq!((first.output, first.ending, first.steps), (vec![1], Ending::Terminated, 3));
    let again = interp.interpret(100);
    assert_eq!((again.output, again.ending, again.steps), (vec![], Ending::Terminated, 0));
}

#[test]
fn run_in_two_parts_is_the_run_in_one() {
    let text = "ll!Hll!Hllleo?eo?HH,l,l,";
    let whole = outcome(text, 3, BOTH, 1000);
    for cut in [0u64, 1, 7, 20, 47, 48, 49, 52, 53, 60] {
        let mut interp = machine(text, 3, BOTH);
        let first = interp.interpret(cut);
        let second = interp.interpret(1000 - cut);
        let mut output = first.output;
        output.extend(second.output);
        assert_eq!((output, second.ending, first.steps + second.steps), whole, "cut at {}", cut);
    }
}

#[test]
fn steps_and_interpret_agree() {
    let text = "lll!Hllllleo?H,";
    let mut stepped = machine(text, 3, BOTH);
    let mut output = Vec::new();
    let mut steps = 0u64;
    loop {
        match stepped.step() {
            Ok(Event::Silent) => steps += 1,
            Ok(Event::Emit(byte)) => {
                steps += 1;
                output.push(byte);
            }
            Ok(Event::Halted) => break,
            Err(error) => panic!("{:?}", error),
        }
    }
    assert_eq!((output, Ending::EndOfStream, steps), outcome(text, 3, BOTH, 1000));
}

#[test]
fn tape_keeps_its_length() {
    let mut interp = machine("HHHHeeeeeeeelolW!?", 5, BOTH);
    interp.interpret(1000);
    assert_eq!(interp.tape().len(), 5);
    assert!(interp.tape().pointer() < 5);
}
