use pyo3::types::PyDict;
use pyo3::{PyResult, Python};
use sapiens::python::{execution_failed, prepare_code, python_description};
use sapiens::tools::{
    invoke_tool, AdvancedTool, BasicToolbox, ToolDescription, ToolUseError, Toolbox,
};
use sapiens::value::Yaml;

/// A tool that runs Python code and captures what the code prints. The code cannot
/// reach the other tools.
struct PythonTool;

impl PythonTool {
    fn run(&self, toolbox: Option<&BasicToolbox>, input: Yaml) -> Result<Yaml, ToolUseError> {
        let code = match input {
            Yaml::Mapping(entries) => entries.into_iter().find_map(|(k, v)| match (k, v) {
                (Yaml::String(k), Yaml::String(v)) if k == "code" => Some(v),
                _ => None,
            }),
            _ => None,
        };
        let code = code.ok_or(ToolUseError::InvalidYaml("missing field `code`".to_string()))?;
        let descriptions = toolbox.map(|toolbox| toolbox.describe());
        let code = prepare_code(descriptions.as_ref(), &code)?;

        let res: PyResult<(String, String)> = Python::with_gil(|py| {
            let globals = PyDict::new(py);
            globals.set_item("toolbox", py.None())?;
            let sys = py.import("sys")?;
            let io = py.import("io")?;
            let stdout = io.getattr("StringIO")?.call0()?;
            let stderr = io.getattr("StringIO")?.call0()?;
            sys.setattr("stdout", stdout)?;
            sys.setattr("stderr", stderr)?;
            py.run(&code, Some(globals), None)?;
            let stdout: String = stdout.call_method0("getvalue")?.extract()?;
            let stderr: String = stderr.call_method0("getvalue")?.extract()?;
            Ok((stdout, stderr))
        });

        let (stdout, stderr) = res.map_err(|e| execution_failed(&e.to_string()))?;
        Ok(Yaml::Mapping(vec![
            (Yaml::String("stdout".to_string()), Yaml::String(stdout)),
            (Yaml::String("stderr".to_string()), Yaml::String(stderr)),
        ]))
    }
}

impl AdvancedTool for PythonTool {
    fn description(&self) -> ToolDescription {
        python_description()
    }

    fn invoke(&self, input: Yaml) -> Result<Yaml, ToolUseError> {
        self.run(None, input)
    }

    fn invoke_with_toolbox(&self, toolbox: &BasicToolbox, input: Yaml) -> Result<Yaml, ToolUseError> {
        self.run(Some(toolbox), input)
    }
}

#[test]
fn test_tool_invocation() {
    let data = "# Action\n```yaml        \ncommand: SandboxedPython\ninput:\n    code: |\n        print(\"Hello world!\")          \n```\n";

    let mut toolbox = Toolbox::default();
    toolbox.add_advanced_tool(PythonTool);

    let (name, output) = invoke_tool(&toolbox, data);
    assert_eq!(name, "SandboxedPython");
    assert_eq!(output.unwrap(), "stdout: |\n  Hello world!\nstderr: ''\n");
}

#[test]
fn python_code_with_a_forbidden_word_is_not_run() {
    let data = "```yaml\ncommand: SandboxedPython\ninput:\n    code: |\n        print(eval(\"1 + 1\"))\n```\n";

    let mut toolbox = Toolbox::default();
    toolbox.add_advanced_tool(PythonTool);

    let (name, output) = invoke_tool(&toolbox, data);
    assert_eq!(name, "SandboxedPython");
    assert_eq!(
        output,
        Err(ToolUseError::ToolInvocationFailed(
            "Python code contains forbidden keywords such as open|exec|eval".to_string()
        ))
    );
}

#[test]
fn python_code_that_fails_is_reported() {
    let data = "```yaml\ncommand: SandboxedPython\ninput:\n    code: |\n        print(unknown_name)\n```\n";

    let mut toolbox = Toolbox::default();
    toolbox.add_advanced_tool(PythonTool);

    let (_, output) = invoke_tool(&toolbox, data);
    match output {
        Err(ToolUseError::ToolInvocationFailed(reason)) => {
            assert!(reason.starts_with("Python code execution failed: NameError"), "{}", reason)
        }
        other => panic!("{:?}", other),
    }
}

#[test]
fn test_multiple_tool_invocations() {
    let data = "# Action\n```yaml        \ncommand: SandboxedPython\ninput:\n    code: |\n        print(\"Hello world 1!\")          \n```\n\n# And another action\n```yaml        \ncommand: SandboxedPython\ninput:\n    code: |\n        print(\"Hello world 2!\")          \n```\n\n# And yet another action\n```        \ncommand: SandboxedPython\ninput:\n    code: |\n        print(\"Hello world 3!\")          \n```\n";

    let mut toolbox = Toolbox::default();
    toolbox.add_advanced_tool(PythonTool);

    let (name, output) = invoke_tool(&toolbox, data);
    assert_eq!(name, "SandboxedPython");
    assert_eq!(output.unwrap(), "stdout: |\n  Hello world 3!\nstderr: ''\n");
}
