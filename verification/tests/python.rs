use sapiens::python::{
    execution_failed, has_forbidden_keyword, prepare_code, python_description, tools_class_code,
    PythonToolInput, PythonToolOutput,
};
use sapiens::tools::{Describe, Format, FormatPart, ToolDescription, ToolUseError};

fn tool(name: &str, inputs: &[&str]) -> (String, ToolDescription) {
    let parts = inputs.iter().map(|k| FormatPart::new(k, "a part")).collect();
    (
        name.to_string(),
        ToolDescription::new(name, "A tool to test stuffs.", "", Format::new(parts), Format::new(vec![])),
    )
}

#[test]
fn forbidden_words_are_found() {
    assert!(has_forbidden_keyword("f = open('/etc/passwd')"));
    assert!(has_forbidden_keyword("exec('1')"));
    assert!(has_forbidden_keyword("x = eval(y)"));
    assert!(has_forbidden_keyword("reopened = 1"));
    assert!(has_forbidden_keyword("open"));
    assert!(!has_forbidden_keyword(""));
    assert!(!has_forbidden_keyword("print('hello')"));
    assert!(!has_forbidden_keyword("Open EXEC Eval"));
    assert!(!has_forbidden_keyword("ope n exe c eva l"));
}

#[test]
fn forbidden_code_is_refused() {
    assert_eq!(
        prepare_code(None, "import os; os.open('x', 0)"),
        Err(ToolUseError::ToolInvocationFailed(
            "Python code contains forbidden keywords such as open|exec|eval".to_string()
        ))
    );
    assert_eq!(
        prepare_code(Some(&vec![]), "eval('1')"),
        Err(ToolUseError::ToolInvocationFailed(
            "Python code contains forbidden keywords such as open|exec|eval".to_string()
        ))
    );
}

#[test]
fn code_without_tools_is_left_as_it_is() {
    assert_eq!(prepare_code(None, "print('hello')"), Ok("print('hello')".to_string()));
}

#[test]
fn the_class_of_no_tools() {
    assert_eq!(
        tools_class_code(&vec![]),
        "class Tools:\n    def __init__(self, toolbox):\n        self.toolbox = toolbox\n    def list(self):\n        return self.toolbox.list()\ntools = Tools(toolbox)\n"
    );
}

#[test]
fn the_class_of_the_tools() {
    let tools = vec![tool("Dummy", &["blah"]), tool("LightStatusTool", &["light_filter", "other"]), tool("Conclude", &[])];
    let expected = "class Tools:\n    def __init__(self, toolbox):\n        self.toolbox = toolbox\n    def dummy(self, blah):\n        return self.toolbox.invoke(\"Dummy\", {\"blah\": blah})\n    def Dummy(self, blah):\n        return self.toolbox.invoke(\"Dummy\", {\"blah\": blah})\n    def light_status_tool(self, light_filter, other):\n        return self.toolbox.invoke(\"LightStatusTool\", {\"light_filter\": light_filter, \"other\": other})\n    def LightStatusTool(self, light_filter, other):\n        return self.toolbox.invoke(\"LightStatusTool\", {\"light_filter\": light_filter, \"other\": other})\n    def conclude:\n        return self.toolbox.invoke(\"Conclude\", {})\n    def Conclude:\n        return self.toolbox.invoke(\"Conclude\", {})\n    def list(self):\n        return self.toolbox.list()\ntools = Tools(toolbox)\n";
    assert_eq!(tools_class_code(&tools), expected);
}

#[test]
fn the_class_stands_before_the_code() {
    let tools = vec![tool("Dummy", &["blah"])];
    let code = prepare_code(Some(&tools), "print(tools.dummy(blah='x'))").unwrap();
    assert_eq!(code, format!("{}\nprint(tools.dummy(blah='x'))", tools_class_code(&tools)));
}

#[test]
fn the_python_tool_is_described() {
    let description = python_description();
    assert_eq!(description.name, "SandboxedPython");
    assert_eq!(
        description.description,
        "A tool that executes sandboxed Python code. Only stdout and stderr are captured and made available. "
    );
    assert!(description.description_context.ends_with("open|exec|eval are forbidden."));
    let input: Vec<(String, String)> =
        description.input_format.parts.into_iter().map(|p| (p.key, p.purpose)).collect();
    assert_eq!(input, vec![("code".to_string(), "The Python code to execute. MANDATORY".to_string())]);
    let output: Vec<String> = description.output_format.parts.into_iter().map(|p| p.key).collect();
    assert_eq!(output, vec!["stdout", "stderr"]);
    assert_eq!(PythonToolInput::describe().parts.len(), 1);
    assert_eq!(PythonToolOutput::describe().parts.len(), 2);
}

#[test]
fn a_failed_execution_is_reported() {
    assert_eq!(
        execution_failed("NameError: name 'x' is not defined"),
        ToolUseError::ToolInvocationFailed(
            "Python code execution failed: NameError: name 'x' is not defined".to_string()
        )
    );
}
