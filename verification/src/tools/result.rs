//! The outcome of one tool invocation.
use vstd::prelude::*;

verus! {

/// What a tool hands back to the agent: success, its output, and an error message.
pub struct ToolResult {
    pub success: bool,
    pub output: String,
    pub error: Option<String>,
}

/// Whether `t` is a failure with empty output and exactly the error `message`.
pub open spec fn fails_with(t: ToolResult, message: Seq<char>) -> bool {
    &&& !t.success
    &&& t.output@.len() == 0
    &&& match t.error {
        Some(e) => e@ == message,
        None => false,
    }
}

impl ToolResult {
    /// A failed result with empty output and the given error message.
    pub fn failure(message: String) -> (r: ToolResult)
        ensures
            fails_with(r, message@),
    {
        ToolResult { success: false, output: String::new(), error: Some(message) }
    }

    /// A successful result with the given output and no error.
    pub fn ok(output: String) -> (r: ToolResult)
        ensures
            r.success,
            r.output@ == output@,
            r.error is None,
    {
        ToolResult { success: true, output, error: None }
    }
}

} // verus!
