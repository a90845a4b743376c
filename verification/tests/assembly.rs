use hwl::assembly::{assemble_stream, greeting, GREETING};
use hwl::config::{
    Config, COMPACT_PREAMBLE, COMPACT_TAPE_LEN, STANDARD_PREAMBLE, STANDARD_TAPE_LEN,
};
use hwl::error::{Bracket, Error};
use hwl::instr::Alphabet;
use hwl::HelloInterpreter;

fn chars_of(text: &str) -> Vec<char> {
    text.chars().collect()
}

#[test]
fn stream_without_text_is_the_preamble() {
    assert_eq!(assemble_stream("Hl,", &None), chars_of("Hl,"));
    assert_eq!(assemble_stream("Hl,", &Some(String::new())), chars_of("Hl,"));
}

#[test]
fn stream_with_text_has_no_delimiter() {
    assert_eq!(assemble_stream("Hl,", &Some(String::from("ee?"))), chars_of("Hl,ee?"));
    assert_eq!(assemble_stream("", &Some(String::from("d"))), chars_of("d"));
    assert_eq!(assemble_stream("", &None), Vec::<char>::new());
}

#[test]
fn stream_takes_the_text_as_it_is() {
    let text = String::from(" ?? not code é世 \t!");
    let stream = assemble_stream("l", &Some(text.clone()));
    assert_eq!(stream.len(), 1 + text.chars().count());
    assert_eq!(stream, chars_of(&format!("l{}", text)));
}

#[test]
fn new_appends_the_text_to_the_standard_preamble() {
    let interp = HelloInterpreter::new(Some(String::from(",x,")));
    assert_eq!(interp.stream(), &chars_of(&format!("{}{}", STANDARD_PREAMBLE, ",x,")));
    assert_eq!(interp.tape().len(), 1000);
    assert_eq!(interp.pc(), 0);
    let interp = HelloInterpreter::new(None);
    assert_eq!(interp.stream(), &chars_of(STANDARD_PREAMBLE));
}

#[test]
fn with_config_appends_the_text_to_the_configured_preamble() {
    let config = Config {
        tape_len: 4,
        alphabet: Alphabet { restart: false, terminate: false },
        preamble: String::from("l,"),
    };
    let mut interp = HelloInterpreter::with_config(&config, Some(String::from("d,")));
    assert_eq!(interp.stream(), &chars_of("l,d,"));
    assert_eq!(interp.tape().len(), 4);
    let report = interp.interpret(100);
    assert_eq!(report.output, vec![1, 1]);
}

#[test]
fn standard_configuration() {
    let config = Config::standard();
    assert_eq!(config.tape_len, 1000);
    assert_eq!(STANDARD_TAPE_LEN, 1000);
    assert_eq!(config.alphabet, Alphabet { restart: false, terminate: true });
    assert_eq!(config.preamble, STANDARD_PREAMBLE);
    assert_eq!(STANDARD_PREAMBLE.len(), 304);
}

#[test]
fn compact_configuration() {
    let config = Config::compact();
    assert_eq!(config.tape_len, 10);
    assert_eq!(COMPACT_TAPE_LEN, 10);
    assert_eq!(config.alphabet, Alphabet { restart: true, terminate: true });
    assert_eq!(config.preamble, COMPACT_PREAMBLE);
    assert_eq!(COMPACT_PREAMBLE.len(), 132);
}

#[test]
fn preambles_hold_instructions_only() {
    for preamble in [STANDARD_PREAMBLE, COMPACT_PREAMBLE] {
        assert!(preamble.chars().all(|c| "HeloW,!?".contains(c)));
        assert!(!preamble.contains('d'));
        assert!(!preamble.contains('r'));
    }
}

#[test]
fn greeting_text() {
    assert_eq!(GREETING, "Hello, World!\n");
    assert_eq!(greeting(), GREETING);
}

#[test]
fn diagnostics_are_single_lines() {
    let all = [
        Error::InputReadFailure,
        Error::UnsupportedCodeSubmitted,
        Error::UnmatchedBracket(Bracket::Skip),
        Error::UnmatchedBracket(Bracket::Loop),
    ];
    for error in all {
        let line = error.message();
        assert!(!line.is_empty());
        assert!(!line.contains('\n'));
        assert!(line.starts_with("Error: "));
    }
}

#[test]
fn diagnostic_of_each_failure() {
    assert_eq!(Error::InputReadFailure.message(), "Error: invalid input");
    assert_eq!(Error::UnsupportedCodeSubmitted.message(), "Error: this build takes no code");
    assert_eq!(Error::UnmatchedBracket(Bracket::Skip).message(), "Error: no matching `?`");
    assert_eq!(Error::UnmatchedBracket(Bracket::Loop).message(), "Error: no matching `!`");
}
