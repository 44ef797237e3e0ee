//! The refusals of the program.

use vstd::prelude::*;

verus! {

/// Why an operation was refused. A refused operation leaves every account as it was.
#[derive(Clone, Copy, Debug, PartialEq, Eq, Structural)]
pub enum ProgramError {
    /// The signer is not the authority of the account it tried to change.
    E000,
    /// The declared input length exceeds the session buffer.
    E001,
    /// The forward pass would read a cell that a parameter blob, or the hidden
    /// vector, does not hold.
    IndexOutOfRange,
}

impl ProgramError {
    /// The text shown to a caller for each refusal.
    pub open spec fn message_text(self) -> Seq<char> {
        match self {
            ProgramError::E000 => "Invalid authority"@,
            ProgramError::E001 => "Input too long"@,
            ProgramError::IndexOutOfRange => "Index out of range"@,
        }
    }

    /// Human-readable description of the refusal.
    pub fn message(&self) -> (text: String)
        ensures
            text@ == self.message_text(),
    {
        match self {
            ProgramError::E000 => "Invalid authority".to_string(),
            ProgramError::E001 => "Input too long".to_string(),
            ProgramError::IndexOutOfRange => "Index out of range".to_string(),
        }
    }
}

} // verus!
