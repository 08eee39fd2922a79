//! The fill-in-the-middle edit tool: its name, description and the checks
//! it makes on its input before the endpoint is wired in.

use vstd::prelude::*;

verus! {

/// Fill-in-the-middle edit tool (DeepSeek `/beta` FIM endpoint).
pub struct FimEditTool;

/// What the tool reads of its JSON input: the `path` field, when it is a
/// JSON string.
pub struct FimEditInput {
    pub path: Option<String>,
}

/// A tool's successful output.
pub struct ToolResult {
    pub content: String,
}

/// Why a tool call failed.
pub enum ToolError {
    /// The input did not have the shape the tool needs.
    InvalidInput { message: String },
}

impl ToolResult {
    /// A plain-text result.
    pub fn text(content: &str) -> (r: ToolResult)
        ensures
            r.content@ == content@,
    {
        ToolResult { content: content.to_owned() }
    }
}

impl ToolError {
    /// An invalid-input error with the given message.
    pub fn invalid_input(message: &str) -> (e: ToolError)
        ensures
            e matches ToolError::InvalidInput { message: m } && m@ == message@,
    {
        ToolError::InvalidInput { message: message.to_owned() }
    }
}

/// The text the tool answers with while the endpoint is not wired in.
pub open spec fn fim_stub_reply() -> Seq<char> {
    "FIM edit stub — wire to /beta endpoint in follow-up"@
}

impl FimEditTool {
    /// The tool's name, `fim_edit`.
    pub fn name(&self) -> (r: &'static str)
        ensures
            r@ == "fim_edit"@,
    {
        "fim_edit"
    }

    /// The tool's one-line description.
    pub fn description(&self) -> (r: &'static str)
        ensures
            r@ == "Fill-in-the-middle edit via DeepSeek /beta FIM endpoint"@,
    {
        "Fill-in-the-middle edit via DeepSeek /beta FIM endpoint"
    }

    /// Runs the tool on its input: an input without a string `path` is
    /// rejected as invalid with `missing path`; otherwise the tool answers
    /// with its stub text.
    pub fn execute(&self, input: &FimEditInput) -> (r: Result<ToolResult, ToolError>)
        ensures
            input.path is None <==> r is Err,
            r matches Err(ToolError::InvalidInput { message }) ==> message@ == "missing path"@,
            r matches Ok(out) ==> out.content@ == fim_stub_reply(),
    {
        match &input.path {
            None => Err(ToolError::invalid_input("missing path")),
            Some(_path) => Ok(ToolResult::text("FIM edit stub — wire to /beta endpoint in follow-up")),
        }
    }
}

} // verus!
