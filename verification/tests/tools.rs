use sapiens::tools::{
    collect_terminations, invoke_from_toolbox, invoke_simple_from_toolbox, invoke_tool,
    merge_descriptions, render_result, AdvancedTool, BasicToolbox, Format, FormatPart,
    ProtoToolDescribe, ProtoToolInvoke, TerminalTool, TerminationMessage, Tier, Tool,
    ToolDescription, ToolUseError, Toolbox,
};
use sapiens::value::Yaml;
use std::cell::RefCell;

fn text(s: &str) -> Yaml {
    Yaml::String(s.to_string())
}

fn mapping(entries: Vec<(&str, Yaml)>) -> Yaml {
    Yaml::Mapping(entries.into_iter().map(|(k, v)| (text(k), v)).collect())
}

fn describe(name: &str, purpose: &str) -> ToolDescription {
    ToolDescription::new(
        name,
        purpose,
        "",
        Format::new(vec![FormatPart::new("x", "what is taken")]),
        Format::new(vec![FormatPart::new("y", "what is given")]),
    )
}

/// Gives its input back.
struct Echo;

impl Tool for Echo {
    fn description(&self) -> ToolDescription {
        describe("Echo", "Gives its input back.")
    }

    fn invoke(&self, input: Yaml) -> Result<Yaml, ToolUseError> {
        Ok(input)
    }
}

/// Gives a fixed text under a name of its choice.
struct Fixed(&'static str, &'static str);

impl Tool for Fixed {
    fn description(&self) -> ToolDescription {
        describe(self.0, "simple")
    }

    fn invoke(&self, _input: Yaml) -> Result<Yaml, ToolUseError> {
        Ok(text(self.1))
    }
}

/// Always fails.
struct Broken;

impl Tool for Broken {
    fn description(&self) -> ToolDescription {
        describe("Broken", "Always fails.")
    }

    fn invoke(&self, _input: Yaml) -> Result<Yaml, ToolUseError> {
        Err(ToolUseError::ToolInvocationFailed("out of order".to_string()))
    }
}

/// Ends the task with the conclusion that it is given.
struct Conclude {
    name: &'static str,
    done: RefCell<Option<TerminationMessage>>,
}

impl Conclude {
    fn new(name: &'static str) -> Self {
        Conclude { name, done: RefCell::new(None) }
    }
}

impl TerminalTool for Conclude {
    fn description(&self) -> ToolDescription {
        describe(self.name, "terminal")
    }

    fn invoke(&self, input: Yaml) -> Result<Yaml, ToolUseError> {
        let conclusion = match input {
            Yaml::String(s) => s,
            _ => return Err(ToolUseError::InvalidInput("a text is expected".to_string())),
        };
        *self.done.borrow_mut() = Some(TerminationMessage {
            conclusion,
            original_question: "What?".to_string(),
        });
        Ok(text("terminal"))
    }

    fn is_done(&self) -> bool {
        self.done.borrow().is_some()
    }

    fn take_done(&self) -> Option<TerminationMessage> {
        self.done.borrow_mut().take()
    }
}

/// A terminal tool that keeps the defaults.
struct Quiet;

impl TerminalTool for Quiet {
    fn description(&self) -> ToolDescription {
        describe("Quiet", "terminal")
    }

    fn invoke(&self, input: Yaml) -> Result<Yaml, ToolUseError> {
        Ok(input)
    }
}

/// Invokes the tool whose name it is given, through the tools that it is handed.
struct Relay(&'static str);

impl AdvancedTool for Relay {
    fn description(&self) -> ToolDescription {
        describe(self.0, "advanced")
    }

    fn invoke(&self, _input: Yaml) -> Result<Yaml, ToolUseError> {
        Ok(text("alone"))
    }

    fn invoke_with_toolbox(&self, toolbox: &BasicToolbox, input: Yaml) -> Result<Yaml, ToolUseError> {
        match input {
            Yaml::String(name) => invoke_simple_from_toolbox(toolbox, &name, text("relayed")),
            _ => Ok(text("advanced")),
        }
    }
}

/// Something meant to become a tool: it describes itself and can be invoked.
struct Proto;

impl ProtoToolDescribe for Proto {
    fn description(&self) -> ToolDescription {
        describe("Proto", "becomes a tool")
    }
}

impl ProtoToolInvoke for Proto {
    fn invoke(&self, input: Yaml) -> Result<Yaml, ToolUseError> {
        match input {
            Yaml::String(s) => Ok(text(&format!("proto: {}", s))),
            _ => Err(ToolUseError::InvalidInput("a text is expected".to_string())),
        }
    }
}

#[test]
fn what_describes_itself_and_can_be_invoked_is_a_tool() {
    assert_eq!(Tool::description(&Proto).name, "Proto");
    assert_eq!(Tool::description(&Proto).description, "becomes a tool");
    assert_eq!(Tool::invoke(&Proto, text("x")), Ok(text("proto: x")));
    assert_eq!(
        Tool::invoke(&Proto, Yaml::Null),
        Err(ToolUseError::InvalidInput("a text is expected".to_string()))
    );
    let mut toolbox = Toolbox::new();
    toolbox.add_tool(Proto);
    assert_eq!(toolbox.resolve("Proto"), Some(Tier::Simple));
    assert_eq!(invoke_from_toolbox(&toolbox, "Proto", text("y")), Ok(text("proto: y")));
    let described: Vec<(String, String)> =
        toolbox.describe().into_iter().map(|d| (d.0, d.1.description)).collect();
    assert_eq!(described, vec![("Proto".to_string(), "becomes a tool".to_string())]);
}

#[test]
fn an_empty_toolbox_finds_nothing() {
    let toolbox = Toolbox::new();
    assert_eq!(toolbox.resolve("Echo"), None);
    assert_eq!(
        invoke_from_toolbox(&toolbox, "Echo", Yaml::Null),
        Err(ToolUseError::ToolNotFound("Echo".to_string()))
    );
    assert_eq!(
        invoke_simple_from_toolbox(toolbox.basic(), "Echo", Yaml::Null),
        Err(ToolUseError::ToolNotFound("Echo".to_string()))
    );
    assert!(toolbox.describe().is_empty());
    assert!(toolbox.termination_messages().is_empty());
}

#[test]
fn the_default_toolbox_is_empty() {
    let toolbox = Toolbox::default();
    assert!(toolbox.describe().is_empty());
    assert!(BasicToolbox::default().describe().is_empty());
}

#[test]
fn tools_are_found_in_their_tiers() {
    let mut toolbox = Toolbox::new();
    toolbox.add_tool(Echo);
    toolbox.add_terminal_tool(Conclude::new("Conclude"));
    toolbox.add_advanced_tool(Relay("Relay"));
    assert_eq!(toolbox.resolve("Echo"), Some(Tier::Simple));
    assert_eq!(toolbox.resolve("Conclude"), Some(Tier::Terminal));
    assert_eq!(toolbox.resolve("Relay"), Some(Tier::Advanced));
    assert_eq!(toolbox.resolve("echo"), None);
    assert_eq!(toolbox.basic().resolve("Echo"), Some(Tier::Simple));
    assert_eq!(toolbox.basic().resolve("Conclude"), Some(Tier::Terminal));
    assert_eq!(toolbox.basic().resolve("Relay"), None);
}

#[test]
fn the_advanced_tool_comes_first() {
    let mut toolbox = Toolbox::new();
    toolbox.add_tool(Fixed("Same", "simple"));
    toolbox.add_terminal_tool(Conclude::new("Same"));
    toolbox.add_advanced_tool(Relay("Same"));
    assert_eq!(toolbox.resolve("Same"), Some(Tier::Advanced));
    assert_eq!(invoke_from_toolbox(&toolbox, "Same", Yaml::Null), Ok(text("advanced")));
}

#[test]
fn the_terminal_tool_comes_before_the_simple_one() {
    let mut toolbox = Toolbox::new();
    toolbox.add_tool(Fixed("Same", "simple"));
    toolbox.add_terminal_tool(Conclude::new("Same"));
    assert_eq!(toolbox.resolve("Same"), Some(Tier::Terminal));
    assert_eq!(invoke_from_toolbox(&toolbox, "Same", text("done")), Ok(text("terminal")));
    assert_eq!(
        invoke_simple_from_toolbox(toolbox.basic(), "Same", text("done")),
        Ok(text("terminal"))
    );
}

#[test]
fn an_advanced_tool_reaches_no_advanced_tool() {
    let mut toolbox = Toolbox::new();
    toolbox.add_tool(Echo);
    toolbox.add_advanced_tool(Relay("Relay"));
    toolbox.add_advanced_tool(Relay("Other"));
    // through the toolbox the advanced tool is found
    assert_eq!(invoke_from_toolbox(&toolbox, "Other", Yaml::Null), Ok(text("advanced")));
    // through an advanced tool it is not
    assert_eq!(
        invoke_from_toolbox(&toolbox, "Relay", text("Other")),
        Err(ToolUseError::ToolNotFound("Other".to_string()))
    );
    assert_eq!(
        invoke_from_toolbox(&toolbox, "Relay", text("Relay")),
        Err(ToolUseError::ToolNotFound("Relay".to_string()))
    );
    // a simple tool is
    assert_eq!(invoke_from_toolbox(&toolbox, "Relay", text("Echo")), Ok(text("relayed")));
}

#[test]
fn a_name_of_both_tiers_is_simple_for_an_advanced_tool() {
    let mut toolbox = Toolbox::new();
    toolbox.add_tool(Fixed("Same", "simple"));
    toolbox.add_advanced_tool(Relay("Same"));
    assert_eq!(invoke_from_toolbox(&toolbox, "Same", text("Same")), Ok(text("simple")));
}

#[test]
fn a_tool_of_the_same_name_replaces_the_first() {
    let mut toolbox = Toolbox::new();
    toolbox.add_tool(Fixed("Same", "first"));
    toolbox.add_tool(Echo);
    toolbox.add_tool(Fixed("Same", "second"));
    assert_eq!(invoke_from_toolbox(&toolbox, "Same", Yaml::Null), Ok(text("second")));
    let names: Vec<String> = toolbox.describe().into_iter().map(|d| d.0).collect();
    assert_eq!(names, vec!["Same", "Echo"]);
}

#[test]
fn a_tool_that_is_added_leaves_the_others() {
    let mut toolbox = Toolbox::new();
    toolbox.add_tool(Fixed("Same", "first"));
    toolbox.add_tool(Echo);
    assert_eq!(invoke_from_toolbox(&toolbox, "Echo", text("one")), Ok(text("one")));
    toolbox.add_tool(Fixed("Same", "second"));
    toolbox.add_tool(Fixed("Other", "third"));
    toolbox.add_advanced_tool(Relay("Relay"));
    assert_eq!(invoke_from_toolbox(&toolbox, "Echo", text("two")), Ok(text("two")));
    assert_eq!(invoke_simple_from_toolbox(toolbox.basic(), "Echo", text("three")), Ok(text("three")));
    assert_eq!(invoke_from_toolbox(&toolbox, "Same", Yaml::Null), Ok(text("second")));
    assert_eq!(invoke_from_toolbox(&toolbox, "Other", Yaml::Null), Ok(text("third")));
}

#[test]
fn tools_are_added_under_a_given_name() {
    let mut toolbox = Toolbox::new();
    toolbox.register_tool("Parrot".to_string(), Box::new(Echo));
    toolbox.register_terminal_tool("End".to_string(), Box::new(Conclude::new("Conclude")));
    toolbox.register_advanced_tool("Pass".to_string(), Box::new(Relay("Relay")));
    assert_eq!(toolbox.resolve("Parrot"), Some(Tier::Simple));
    assert_eq!(toolbox.resolve("Echo"), None);
    assert_eq!(toolbox.resolve("End"), Some(Tier::Terminal));
    assert_eq!(toolbox.resolve("Pass"), Some(Tier::Advanced));
    let described: Vec<(String, String)> =
        toolbox.describe().into_iter().map(|d| (d.0, d.1.name)).collect();
    assert_eq!(
        described,
        vec![
            ("Pass".to_string(), "Relay".to_string()),
            ("Parrot".to_string(), "Echo".to_string()),
            ("End".to_string(), "Conclude".to_string()),
        ]
    );
}

#[test]
fn each_name_is_described_once() {
    let mut toolbox = Toolbox::new();
    toolbox.add_tool(Fixed("Same", "simple"));
    toolbox.add_tool(Echo);
    toolbox.add_terminal_tool(Conclude::new("Same"));
    toolbox.add_terminal_tool(Conclude::new("Conclude"));
    toolbox.add_advanced_tool(Relay("Same"));
    let described: Vec<(String, String)> =
        toolbox.describe().into_iter().map(|d| (d.0, d.1.description)).collect();
    assert_eq!(
        described,
        vec![
            ("Same".to_string(), "advanced".to_string()),
            ("Echo".to_string(), "Gives its input back.".to_string()),
            ("Conclude".to_string(), "terminal".to_string()),
        ]
    );
    let basic: Vec<(String, String)> =
        toolbox.basic().describe().into_iter().map(|d| (d.0, d.1.description)).collect();
    assert_eq!(
        basic,
        vec![
            ("Same".to_string(), "simple".to_string()),
            ("Echo".to_string(), "Gives its input back.".to_string()),
            ("Conclude".to_string(), "terminal".to_string()),
        ]
    );
}

#[test]
fn merged_descriptions_keep_the_first_of_a_name() {
    let first = vec![("a".to_string(), describe("a", "1")), ("b".to_string(), describe("b", "2"))];
    let second = vec![
        ("b".to_string(), describe("b", "3")),
        ("c".to_string(), describe("c", "4")),
        ("c".to_string(), describe("c", "5")),
    ];
    let all: Vec<(String, String)> =
        merge_descriptions(first, second).into_iter().map(|d| (d.0, d.1.description)).collect();
    assert_eq!(
        all,
        vec![
            ("a".to_string(), "1".to_string()),
            ("b".to_string(), "2".to_string()),
            ("c".to_string(), "4".to_string()),
        ]
    );
}

#[test]
fn termination_messages_are_taken_once() {
    let mut toolbox = Toolbox::new();
    toolbox.add_terminal_tool(Conclude::new("Conclude"));
    toolbox.add_terminal_tool(Quiet);
    toolbox.add_terminal_tool(Conclude::new("Finish"));
    assert!(toolbox.termination_messages().is_empty());
    assert_eq!(invoke_from_toolbox(&toolbox, "Finish", text("first")), Ok(text("terminal")));
    assert_eq!(invoke_from_toolbox(&toolbox, "Conclude", text("second")), Ok(text("terminal")));
    let messages = toolbox.termination_messages();
    let conclusions: Vec<&str> = messages.iter().map(|m| m.conclusion.as_str()).collect();
    assert_eq!(conclusions, vec!["second", "first"]);
    assert!(toolbox.termination_messages().is_empty());
}

#[test]
fn a_terminal_tool_is_not_done_by_default() {
    assert!(!Quiet.is_done());
    assert_eq!(Quiet.take_done(), None);
}

#[test]
fn terminations_are_kept_in_order() {
    let message = |c: &str| TerminationMessage {
        conclusion: c.to_string(),
        original_question: "What?".to_string(),
    };
    let polled = vec![None, Some(message("a")), None, None, Some(message("b")), Some(message("c"))];
    assert_eq!(collect_terminations(polled), vec![message("a"), message("b"), message("c")]);
    assert_eq!(collect_terminations(vec![None, None]), vec![]);
    assert_eq!(collect_terminations(vec![]), vec![]);
}

#[test]
fn the_output_of_a_tool_is_written_as_yaml() {
    let output = mapping(vec![("stdout", text("Hello world!\n")), ("stderr", text(""))]);
    assert_eq!(render_result(Ok(output)), Ok("stdout: |\n  Hello world!\nstderr: ''\n".to_string()));
    assert_eq!(render_result(Ok(text("plain"))), Ok("plain\n".to_string()));
    assert_eq!(
        render_result(Ok(Yaml::Sequence(vec![Yaml::Bool(true), Yaml::Null]))),
        Ok("- true\n- null\n".to_string())
    );
}

#[test]
fn an_output_that_cannot_be_written_is_invalid_yaml() {
    let tag = |name: &str| serde_yaml::value::Tag::new(name);
    let nested = Yaml::Tagged(tag("outer"), Box::new(Yaml::Tagged(tag("inner"), Box::new(Yaml::Null))));
    let report = render_result(Ok(nested));
    assert!(matches!(report, Err(ToolUseError::InvalidYaml(_))), "{:?}", report);
    let flat = Yaml::Tagged(tag("only"), Box::new(text("x")));
    assert_eq!(render_result(Ok(flat)), Ok("!only x\n".to_string()));
}

#[test]
fn the_error_of_a_tool_is_handed_on() {
    let e = ToolUseError::ToolInvocationFailed("out of order".to_string());
    assert_eq!(
        render_result(Err(e)),
        Err(ToolUseError::ToolInvocationFailed("out of order".to_string()))
    );
}

#[test]
fn invoke_tool_gives_the_name_and_the_output() {
    let mut toolbox = Toolbox::new();
    toolbox.add_tool(Echo);
    let reply = "# Action\n```yaml\ncommand: Echo\ninput:\n  stdout: |\n    Hello world!\n  stderr: ''\n```\n";
    assert_eq!(
        invoke_tool(&toolbox, reply),
        ("Echo".to_string(), Ok("stdout: |\n  Hello world!\nstderr: ''\n".to_string()))
    );
}

#[test]
fn invoke_tool_uses_the_last_of_the_invocations() {
    let mut toolbox = Toolbox::new();
    toolbox.add_tool(Echo);
    let reply = "# Action\n```yaml\ncommand: Echo\ninput: Hello world 1!\n```\n\n# And another action\n```yaml\ncommand: Echo\ninput: Hello world 2!\n```\n";
    assert_eq!(invoke_tool(&toolbox, reply), ("Echo".to_string(), Ok("Hello world 2!\n".to_string())));
}

#[test]
fn invoke_tool_names_the_tool_that_is_not_found() {
    let toolbox = Toolbox::new();
    let reply = "```yaml\ncommand: Missing\ninput: {}\n```\n";
    assert_eq!(
        invoke_tool(&toolbox, reply),
        ("Missing".to_string(), Err(ToolUseError::ToolNotFound("Missing".to_string())))
    );
}

#[test]
fn invoke_tool_hands_on_the_failure_of_the_tool() {
    let mut toolbox = Toolbox::new();
    toolbox.add_tool(Broken);
    let reply = "```yaml\ncommand: Broken\ninput: {}\n```\n";
    assert_eq!(
        invoke_tool(&toolbox, reply),
        (
            "Broken".to_string(),
            Err(ToolUseError::ToolInvocationFailed("out of order".to_string()))
        )
    );
}

#[test]
fn invoke_tool_without_action() {
    let toolbox = Toolbox::new();
    let (name, result) = invoke_tool(&toolbox, "No action here.");
    assert_eq!(name, "unknown");
    assert!(matches!(result, Err(ToolUseError::InvalidInput(_))), "{:?}", result);
    let (name, result) = invoke_tool(&toolbox, "```yaml\nnote: nothing\n```\n");
    assert_eq!(name, "unknown");
    assert_eq!(result, Err(ToolUseError::InvalidInput("No Action found".to_string())));
}

#[test]
fn invoke_tool_refuses_an_output_entry() {
    let mut toolbox = Toolbox::new();
    toolbox.add_tool(Echo);
    let reply = "```yaml\ncommand: Echo\ninput: a\noutput: a\n```\n";
    assert_eq!(
        invoke_tool(&toolbox, reply),
        (
            "unknown".to_string(),
            Err(ToolUseError::ToolInvocationFailed(
                "The Action cannot have an `output` field. Only `command` and `input` are allowed."
                    .to_string()
            ))
        )
    );
}

#[test]
fn tool_error_messages() {
    assert_eq!(ToolUseError::ToolNotFound("Echo".to_string()).to_string(), "Tool not found: Echo");
    assert_eq!(
        ToolUseError::ToolInvocationFailed("boom".to_string()).to_string(),
        "Tool invocation failed: boom"
    );
    assert_eq!(ToolUseError::InvalidYaml("bad".to_string()).to_string(), "Invalid YAML");
    assert_eq!(ToolUseError::InvalidInput("bad".to_string()).to_string(), "Invalid input: bad");
}
