//! What a tool reports when it fails.
use vstd::prelude::*;
use vstd::string::*;

verus! {

#[derive(Debug)]
pub struct ToolError {
    pub code: String,
    pub message: String,
    pub stage: String,
}

/// Code, message and stage.
pub type Failure = (Seq<char>, Seq<char>, Seq<char>);

impl ToolError {
    pub open spec fn shown(self) -> Failure {
        (self.code@, self.message@, self.stage@)
    }

    pub open spec fn says(self, code: Seq<char>, message: Seq<char>, stage: Seq<char>) -> bool {
        self.code@ == code && self.message@ == message && self.stage@ == stage
    }

    pub fn new(code: &str, message: &str, stage: &str) -> (r: Self)
        ensures
            r.says(code@, message@, stage@),
    {
        ToolError { code: code.to_owned(), message: message.to_owned(), stage: stage.to_owned() }
    }
}

/// What is reported of arguments that a tool cannot take.
pub open spec fn bad_arguments(message: Seq<char>) -> Failure {
    ("bad_tool_arguments"@, message, "tool"@)
}

pub fn reject_bad_arguments(message: &str) -> (r: ToolError)
    ensures
        r.shown() == bad_arguments(message@),
{
    ToolError::new("bad_tool_arguments", message, "tool")
}

} // verus!
