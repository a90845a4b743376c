//! Program assembly: the instruction stream of the tape interpreter, and the greeting of the
//! canned message.

use vstd::prelude::*;

verus! {

/// What the canned message emits.
pub const GREETING: &'static str = "Hello, World!\n";

/// The text that the caller supplied; none is the empty text.
pub open spec fn caller_text(user_code: Option<String>) -> Seq<char> {
    match user_code {
        Some(text) => text@,
        None => Seq::empty(),
    }
}

/// Appends the characters of `text` to `stream`.
fn push_chars(stream: &mut Vec<char>, text: &str)
    ensures
        final(stream)@ == old(stream)@ + text@,
{
    let ghost before = stream@;
    let chars = text.chars();
    for c in iter: chars
        invariant
            stream@ == before + iter.seq().take(iter.index()),
    {
        stream.push(c);
        assert(iter.seq().take(iter.index() + 1) == iter.seq().take(iter.index()).push(c));
    }
}

/// The instruction stream: `preamble`, then the caller's text if there is any, with nothing
/// in between. The text is taken as it is, whatever it holds.
pub fn assemble_stream(preamble: &str, user_code: &Option<String>) -> (stream: Vec<char>)
    ensures
        stream@ == preamble@ + caller_text(*user_code),
{
    let mut stream: Vec<char> = Vec::new();
    push_chars(&mut stream, preamble);
    match user_code {
        Some(text) => {
            push_chars(&mut stream, text.as_str());
        },
        None => {
            assert(stream@ + Seq::<char>::empty() == stream@);
        },
    }
    stream
}

/// The greeting of the canned message.
pub fn greeting() -> (text: String)
    ensures
        text@ == GREETING@,
{
    GREETING.to_owned()
}

} // verus!
