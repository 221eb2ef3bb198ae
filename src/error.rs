use vstd::prelude::*;

verus! {

/// What can go wrong in the task store and around it.
#[derive(Debug)]
pub enum TaskError {
    NotFound,
    InvalidTaskId,
    ParseUpdateError,
    NoFile,
    ParseBoolError,
    InvalidDueDateFormat,
    Io(String),
    Yaml(String),
    InvalidInput(String),
}

/// The message shown for an error.
pub open spec fn error_text(e: TaskError) -> Seq<char> {
    match e {
        TaskError::NotFound => "Task not found"@,
        TaskError::InvalidTaskId => "Invalid task ID"@,
        TaskError::ParseUpdateError => "Erroring in parsing update"@,
        TaskError::NoFile => "No file found"@,
        TaskError::ParseBoolError => "Error parsing string to boolean"@,
        TaskError::InvalidDueDateFormat => "Invalid due date format"@,
        TaskError::Io(m) => "IO error: "@ + m@,
        TaskError::Yaml(m) => "YAML error: "@ + m@,
        TaskError::InvalidInput(m) => "Invalid input: "@ + m@,
    }
}

impl TaskError {
    /// The message shown for this error.
    pub fn to_text(&self) -> (r: String)
        ensures
            r@ == error_text(*self),
    {
        match self {
            TaskError::NotFound => String::from_str("Task not found"),
            TaskError::InvalidTaskId => String::from_str("Invalid task ID"),
            TaskError::ParseUpdateError => String::from_str("Erroring in parsing update"),
            TaskError::NoFile => String::from_str("No file found"),
            TaskError::ParseBoolError => String::from_str("Error parsing string to boolean"),
            TaskError::InvalidDueDateFormat => String::from_str("Invalid due date format"),
            TaskError::Io(m) => String::from_str("IO error: ").concat(m.as_str()),
            TaskError::Yaml(m) => String::from_str("YAML error: ").concat(m.as_str()),
            TaskError::InvalidInput(m) => String::from_str("Invalid input: ").concat(m.as_str()),
        }
    }
}

} // verus!
