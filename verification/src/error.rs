//! The ways in which a command of the task manager can fail.

use crate::text::{decimal_digits, decimal_string};
use vstd::prelude::*;
use vstd::string::*;

verus! {

/// Every failure the task manager reports.
#[derive(Debug)]
pub enum TodoError {
    /// Reading or writing the data file failed; the text says how.
    Io(String),
    /// The data could not be turned into or out of its stored form.
    Json(String),
    /// A text could not be read as a date; the text says why.
    DateParse(String),
    /// No task has this identifier.
    TaskNotFound(u64),
    /// A priority outside 1 to 5.
    InvalidPriority(u8),
    /// A tag that is empty once white space is removed.
    InvalidTag(String),
    /// The data file exists but does not hold task data.
    DataCorruption(String),
}

impl TodoError {
    /// The text shown for the failure.
    pub open spec fn message_text(self) -> Seq<char> {
        match self {
            TodoError::Io(m) => "IO error: "@ + m@,
            TodoError::Json(m) => "JSON serialization error: "@ + m@,
            TodoError::DateParse(m) => "Date parsing error: "@ + m@,
            TodoError::TaskNotFound(id) => "Task not found with ID: "@ + decimal_digits(id as nat),
            TodoError::InvalidPriority(p) => "Invalid priority value: "@ + decimal_digits(p as nat)
                + ". Priority must be between 1 and 5"@,
            TodoError::InvalidTag(t) => "Invalid tag: "@ + t@ + ". Tags cannot be empty"@,
            TodoError::DataCorruption(m) => "Data file corruption: "@ + m@,
        }
    }

    /// The text shown for the failure.
    pub fn message(&self) -> (r: String)
        ensures
            r@ == self.message_text(),
    {
        match self {
            TodoError::Io(m) => {
                let mut text = String::from_str("IO error: ");
                text.append(m.as_str());
                text
            },
            TodoError::Json(m) => {
                let mut text = String::from_str("JSON serialization error: ");
                text.append(m.as_str());
                text
            },
            TodoError::DateParse(m) => {
                let mut text = String::from_str("Date parsing error: ");
                text.append(m.as_str());
                text
            },
            TodoError::TaskNotFound(id) => {
                let mut text = String::from_str("Task not found with ID: ");
                text.append(decimal_string(*id).as_str());
                text
            },
            TodoError::InvalidPriority(p) => {
                let mut text = String::from_str("Invalid priority value: ");
                text.append(decimal_string(*p as u64).as_str());
                text.append(". Priority must be between 1 and 5");
                text
            },
            TodoError::InvalidTag(t) => {
                let mut text = String::from_str("Invalid tag: ");
                text.append(t.as_str());
                text.append(". Tags cannot be empty");
                text
            },
            TodoError::DataCorruption(m) => {
                let mut text = String::from_str("Data file corruption: ");
                text.append(m.as_str());
                text
            },
        }
    }
}

/// What the operations of the task manager return.
pub type Result<T> = std::result::Result<T, TodoError>;

} // verus!
