//! The failures that end a run, and the one-line diagnostic of each.

use vstd::prelude::*;

verus! {

/// Which of the two bracket instructions is meant.
#[derive(Clone, Copy, Debug, PartialEq, Eq, Structural)]
pub enum Bracket {
    /// `!`, which needs a `?` after it.
    Skip,
    /// `?`, which needs a `!` before it.
    Loop,
}

/// A failure that ends the run. None of them is retried.
#[derive(Clone, Copy, Debug, PartialEq, Eq, Structural)]
pub enum Error {
    /// The input channel could not be read; nothing was executed.
    InputReadFailure,
    /// The caller supplied text where the assembly strategy takes none.
    UnsupportedCodeSubmitted,
    /// A bracket instruction had to jump and has no partner inside the stream.
    UnmatchedBracket(Bracket),
}

impl Error {
    /// The text of the diagnostic line, without a line end.
    pub open spec fn message_text(self) -> Seq<char> {
        match self {
            Error::InputReadFailure => "Error: invalid input"@,
            Error::UnsupportedCodeSubmitted => "Error: this build takes no code"@,
            Error::UnmatchedBracket(Bracket::Skip) => "Error: no matching `?`"@,
            Error::UnmatchedBracket(Bracket::Loop) => "Error: no matching `!`"@,
        }
    }

    /// The diagnostic line for this failure: its text, which holds no line end.
    pub fn message(&self) -> (line: String)
        ensures
            line@ == self.message_text(),
            forall|i: int| 0 <= i < line@.len() ==> line@[i] != '\n',
    {
        proof {
            reveal_strlit("Error: invalid input");
            reveal_strlit("Error: this build takes no code");
            reveal_strlit("Error: no matching `?`");
            reveal_strlit("Error: no matching `!`");
        }
        match self {
            Error::InputReadFailure => "Error: invalid input".to_owned(),
            Error::UnsupportedCodeSubmitted => "Error: this build takes no code".to_owned(),
            Error::UnmatchedBracket(Bracket::Skip) => "Error: no matching `?`".to_owned(),
            Error::UnmatchedBracket(Bracket::Loop) => "Error: no matching `!`".to_owned(),
        }
    }
}

} // verus!
