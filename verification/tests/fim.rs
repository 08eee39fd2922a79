use deepseek_tui::fim::{FimEditInput, FimEditTool, ToolError};

#[test]
fn fim_tool_names_itself() {
    let tool = FimEditTool;
    assert_eq!(tool.name(), "fim_edit");
    assert_eq!(tool.description(), "Fill-in-the-middle edit via DeepSeek /beta FIM endpoint");
}

#[test]
fn fim_execute_requires_a_path() {
    let tool = FimEditTool;
    match tool.execute(&FimEditInput { path: None }) {
        Err(ToolError::InvalidInput { message }) => assert_eq!(message, "missing path"),
        Ok(_) => panic!("a missing path must be rejected"),
    }
}

#[test]
fn fim_execute_answers_with_stub() {
    let tool = FimEditTool;
    match tool.execute(&FimEditInput { path: Some("src/main.rs".to_string()) }) {
        Ok(out) => assert_eq!(out.content, "FIM edit stub — wire to /beta endpoint in follow-up"),
        Err(_) => panic!("a string path is accepted"),
    }
}
