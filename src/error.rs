use vstd::prelude::*;
use vstd::string::StringExecFns;

use crate::text::{decimal, decimal_string};

verus! {

/// Why a command could not be carried out.
#[derive(Debug, Clone, Copy, PartialEq, Eq, Structural)]
pub enum CommandError {
    /// No task carries this identifier.
    NotFound(usize),
    /// The description holds nothing but whitespace.
    InvalidInput,
    /// The greatest identifier in use is the largest `usize`, so no new one is left.
    IdsExhausted,
}

/// Why a stored collection was refused.
#[derive(Debug, Clone, Copy, PartialEq, Eq, Structural)]
pub enum StoreError {
    /// A task carries the identifier 0.
    ZeroId,
    /// Two tasks carry this identifier.
    DuplicateId(usize),
}

impl CommandError {
    /// The text that reports this error.
    pub open spec fn text(&self) -> Seq<char> {
        match *self {
            CommandError::NotFound(id) => "Task #"@ + decimal(id as nat) + " not found."@,
            CommandError::InvalidInput => "The task description is empty."@,
            CommandError::IdsExhausted => "No task identifier is left."@,
        }
    }

    /// The text that reports this error.
    pub fn message(&self) -> (r: String)
        ensures
            r@ == self.text(),
    {
        match *self {
            CommandError::NotFound(id) => {
                String::from_str("Task #").concat(decimal_string(id).as_str()).concat(" not found.")
            },
            CommandError::InvalidInput => String::from_str("The task description is empty."),
            CommandError::IdsExhausted => String::from_str("No task identifier is left."),
        }
    }
}

impl StoreError {
    /// The text that reports this error.
    pub open spec fn text(&self) -> Seq<char> {
        match *self {
            StoreError::ZeroId => "a task has the identifier 0"@,
            StoreError::DuplicateId(id) => "two tasks have the identifier "@ + decimal(id as nat),
        }
    }

    /// The text that reports this error.
    pub fn message(&self) -> (r: String)
        ensures
            r@ == self.text(),
    {
        match *self {
            StoreError::ZeroId => String::from_str("a task has the identifier 0"),
            StoreError::DuplicateId(id) => {
                String::from_str("two tasks have the identifier ").concat(decimal_string(id).as_str())
            },
        }
    }
}

} // verus!
