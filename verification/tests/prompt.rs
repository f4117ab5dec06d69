use sapiens::context::{ChatHistory, Role};
use sapiens::prompt::{
    build_task_prompt, create_system_prompt, create_tool_description, create_tool_warm_up,
    debug_text, name_before, preamble_prompts, sort_by_name, tool_description_prompt,
    tool_warm_up, Manager, Task, FORMAT, PREFIX, PROTO_EXCHANGE_2, PROTO_EXCHANGE_3,
    PROTO_EXCHANGE_4, TOOL_PREFIX,
};
use sapiens::tools::{Format, FormatPart, Tool, ToolDescription, ToolUseError, Toolbox};
use sapiens::value::Yaml;
use std::rc::Rc;

const TURN: &str = "# Your turn\nOriginal question: Sort in ascending order: [2, 3, 1, 4, 5]\nDo you have the answer? Use the Conclude Tool to terminate the task.\nObservations, Orientation, Decision, The ONLY Action?";

struct Named(&'static str);

impl Tool for Named {
    fn description(&self) -> ToolDescription {
        ToolDescription::new(
            self.0,
            "A tool to test stuffs.",
            "Use this to test: stuffs.",
            Format::new(vec![FormatPart::new("blah", "The blah to test.")]),
            Format::new(vec![
                FormatPart::new("something", "The something."),
                FormatPart::new("other", "The rest."),
            ]),
        )
    }

    fn invoke(&self, input: Yaml) -> Result<Yaml, ToolUseError> {
        Ok(input)
    }
}

fn plain(name: &str) -> ToolDescription {
    ToolDescription::new(name, "", "", Format::new(vec![]), Format::new(vec![]))
}

#[test]
fn system_prompt() {
    assert_eq!(
        create_system_prompt(),
        "You are an automated agent named Sapiens interacting with the WORLD. Listen to the WORLD!"
    );
}

#[test]
fn prompt_of_a_task() {
    let task = build_task_prompt("Sort in ascending order: [2, 3, 1, 4, 5]");
    assert_eq!(task.question(), "Sort in ascending order: [2, 3, 1, 4, 5]");
    assert_eq!(task.to_prompt(), TURN);
    assert_eq!(task.to_string(), TURN);
}

#[test]
fn prompt_of_a_success() {
    let task = Task::new("Sort in ascending order: [2, 3, 1, 4, 5]");
    assert_eq!(
        task.action_success_prompt("SandboxedPython", "stdout: ''\n"),
        format!("# Action SandboxedPython result: \n```yaml\nstdout: ''\n```\n{}", TURN)
    );
}

#[test]
fn prompt_of_a_failure() {
    let task = Task::new("Sort in ascending order: [2, 3, 1, 4, 5]");
    let e = ToolUseError::ToolNotFound("Sorter".to_string());
    assert_eq!(
        task.action_failed_prompt("Sorter", &e),
        format!(
            "# Action Sorter failed with:\nToolNotFound(\"Sorter\")\nWhat was incorrect in previous response?\n{}",
            TURN
        )
    );
}

#[test]
fn errors_are_written_as_debug_writes_them() {
    assert_eq!(
        debug_text(&ToolUseError::ToolInvocationFailed("a \"b\"\nc\\d".to_string())),
        "ToolInvocationFailed(\"a \\\"b\\\"\\nc\\\\d\")"
    );
    assert_eq!(debug_text(&ToolUseError::InvalidYaml("bad".to_string())), "InvalidYaml(\"bad\")");
    assert_eq!(debug_text(&ToolUseError::InvalidInput("".to_string())), "InvalidInput(\"\")");
}

#[test]
fn names_are_ordered_by_their_bytes() {
    assert!(name_before("", ""));
    assert!(name_before("", "a"));
    assert!(!name_before("a", ""));
    assert!(name_before("a", "a"));
    assert!(name_before("a", "aa"));
    assert!(!name_before("aa", "a"));
    assert!(name_before("B", "a"));
    assert!(!name_before("a", "B"));
    assert!(name_before("ab", "b"));
    assert!(name_before("z", "é"));
    assert!(!name_before("é", "z"));
}

#[test]
fn descriptions_are_sorted_by_name() {
    let names = ["b", "a", "B", "aa", "", "é", "a"];
    let sorted: Vec<String> = sort_by_name(names.iter().map(|n| plain(n)).collect())
        .into_iter()
        .map(|d| d.name)
        .collect();
    assert_eq!(sorted, vec!["", "B", "a", "a", "aa", "b", "é"]);
    assert!(sort_by_name(vec![]).is_empty());
}

#[test]
fn tools_are_described_as_yaml() {
    let prompt = tool_description_prompt(vec![Named("Zed").description(), Named("Dummy").description()]);
    let expected = "\n# The following are the ONLY Tools you can use for your Actions:\n- name: Dummy\n  description: A tool to test stuffs.\n  description_context: 'Use this to test: stuffs.'\n  input_format:\n    blah: The blah to test.\n  output_format:\n    something: The something.\n    other: The rest.\n- name: Zed\n  description: A tool to test stuffs.\n  description_context: 'Use this to test: stuffs.'\n  input_format:\n    blah: The blah to test.\n  output_format:\n    something: The something.\n    other: The rest.\n";
    assert_eq!(prompt, Ok(expected.to_string()));
}

#[test]
fn no_tools_are_described_as_an_empty_list() {
    assert_eq!(tool_description_prompt(vec![]), Ok(format!("{}[]\n", TOOL_PREFIX)));
    assert_eq!(create_tool_description(&Toolbox::new()), Ok(format!("{}[]\n", TOOL_PREFIX)));
}

#[test]
fn the_tools_of_a_toolbox_are_described() {
    let mut toolbox = Toolbox::new();
    toolbox.add_tool(Named("Second"));
    toolbox.add_tool(Named("First"));
    let prompt = create_tool_description(&toolbox).unwrap();
    assert!(prompt.starts_with(TOOL_PREFIX));
    let first = prompt.find("- name: First").unwrap();
    let second = prompt.find("- name: Second").unwrap();
    assert!(first < second);
}

#[test]
fn the_warm_up_is_trimmed() {
    let warm_up = tool_warm_up("\n# Tools:\n- name: Dummy\n \n\t\n");
    assert_eq!(warm_up, format!("{}{}\n# Tools:\n- name: Dummy", PREFIX, FORMAT));
    let of_toolbox = create_tool_warm_up(&Toolbox::new()).unwrap();
    assert_eq!(of_toolbox, format!("{}{}{}[]", PREFIX, FORMAT, TOOL_PREFIX));
}

#[test]
fn the_preamble_has_seven_messages() {
    let prompts = preamble_prompts("warm up".to_string());
    let roles: Vec<Role> = prompts.iter().map(|p| p.0).collect();
    assert_eq!(
        roles,
        vec![
            Role::System,
            Role::User,
            Role::Assistant,
            Role::User,
            Role::Assistant,
            Role::User,
            Role::Assistant
        ]
    );
    assert_eq!(prompts[0].1, create_system_prompt());
    assert_eq!(prompts[1].1, "warm up");
    assert_eq!(prompts[2].1, "Understood.");
    assert_eq!(prompts[3].1, TURN);
    assert_eq!(prompts[4].1, PROTO_EXCHANGE_2);
    assert_eq!(prompts[5].1, format!("{}{}", PROTO_EXCHANGE_3, TURN));
    assert_eq!(prompts[6].1, PROTO_EXCHANGE_4);
    assert!(prompts[4].1.starts_with("## Observations:") && prompts[4].1.ends_with("```"));
    assert!(prompts[5].1.starts_with("# Action SandboxedPython result:"));
}

#[test]
fn the_manager_fills_a_chat_history() {
    let mut toolbox = Toolbox::new();
    toolbox.add_tool(Named("Dummy"));
    let manager = Manager::new(Rc::new(toolbox));
    let mut history = ChatHistory::new("gpt-3.5-turbo".to_string(), 256);
    assert_eq!(manager.populate_chat_history(&mut history), Ok(()));
    let entries = history.iter();
    assert_eq!(entries.len(), 7);
    assert_eq!(entries[0].msg, manager.create_system_prompt());
    assert_eq!(entries[1].msg, manager.create_tool_warm_up().unwrap());
    assert!(entries[1].msg.contains("- name: Dummy"));
    assert!(history.prompt_num_tokens() > 500);
    assert_eq!(manager.build_task_prompt("Why?").question(), "Why?");
}

#[test]
fn the_manager_leaves_an_uncountable_history_alone() {
    let manager = Manager::new(Rc::new(Toolbox::new()));
    let mut history = ChatHistory::new("text-davinci-003".to_string(), 256);
    assert_eq!(
        manager.populate_chat_history(&mut history),
        Err(sapiens::prompt::PromptError::ChatHistory(sapiens::context::Error::TokenCount))
    );
    assert_eq!(history.iter().len(), 0);
}
