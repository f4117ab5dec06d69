use sapiens::context::{ChatEntry, ChatHistory, Role};
use sapiens::invocation::InvocationError;
use sapiens::runner::{
    model_response, to_decimal, Chain, Config, Error, ModelResponse, Step,
    TaskChain, Usage, MAX_RESPONSE_CHAR,
};
use sapiens::tools::{
    Format, FormatPart, TerminalTool, TerminationMessage, Tool, ToolDescription, ToolUseError,
    Toolbox,
};
use sapiens::value::Yaml;
use std::cell::RefCell;

const QUESTION: &str = "What is six times seven?";

const TURN: &str = "# Your turn\nOriginal question: What is six times seven?\nDo you have the answer? Use the Conclude Tool to terminate the task.\nObservations, Orientation, Decision, The ONLY Action?";

fn text(s: &str) -> Yaml {
    Yaml::String(s.to_string())
}

/// Gives its input back.
struct Echo;

impl Tool for Echo {
    fn description(&self) -> ToolDescription {
        ToolDescription::new(
            "Echo",
            "Gives its input back.",
            "Use this to repeat.",
            Format::new(vec![FormatPart::new("text", "What to repeat.")]),
            Format::new(vec![FormatPart::new("text", "The same.")]),
        )
    }

    fn invoke(&self, input: Yaml) -> Result<Yaml, ToolUseError> {
        Ok(input)
    }
}

/// Gives a text of 5000 characters.
struct Verbose;

impl Tool for Verbose {
    fn description(&self) -> ToolDescription {
        ToolDescription::new("Verbose", "Says a lot.", "", Format::new(vec![]), Format::new(vec![]))
    }

    fn invoke(&self, _input: Yaml) -> Result<Yaml, ToolUseError> {
        Ok(text(&"x".repeat(5000)))
    }
}

/// Ends the task with the conclusion that it is given.
struct Conclude {
    done: RefCell<Option<TerminationMessage>>,
}

impl Conclude {
    fn new() -> Self {
        Conclude { done: RefCell::new(None) }
    }
}

impl TerminalTool for Conclude {
    fn description(&self) -> ToolDescription {
        ToolDescription::new(
            "Conclude",
            "Ends the task.",
            "Use this when you have the answer.",
            Format::new(vec![FormatPart::new("conclusion", "The answer.")]),
            Format::new(vec![]),
        )
    }

    fn invoke(&self, input: Yaml) -> Result<Yaml, ToolUseError> {
        let conclusion = match input {
            Yaml::Mapping(entries) => entries.into_iter().find_map(|(k, v)| match (k, v) {
                (Yaml::String(k), Yaml::String(v)) if k == "conclusion" => Some(v),
                _ => None,
            }),
            _ => None,
        };
        match conclusion {
            Some(conclusion) => {
                *self.done.borrow_mut() = Some(TerminationMessage {
                    conclusion,
                    original_question: QUESTION.to_string(),
                });
                Ok(Yaml::Null)
            }
            None => Err(ToolUseError::InvalidInput("a conclusion is expected".to_string())),
        }
    }

    fn is_done(&self) -> bool {
        self.done.borrow().is_some()
    }

    fn take_done(&self) -> Option<TerminationMessage> {
        self.done.borrow_mut().take()
    }
}

fn toolbox() -> Toolbox {
    let mut toolbox = Toolbox::new();
    toolbox.add_tool(Echo);
    toolbox.add_tool(Verbose);
    toolbox.add_terminal_tool(Conclude::new());
    toolbox
}

fn task(max_steps: usize) -> TaskChain {
    let config = Config {
        model: "gpt-3.5-turbo".to_string(),
        min_token_for_completion: 256,
        max_steps,
    };
    let chain = Chain::new(toolbox(), config).unwrap();
    chain.start_task(QUESTION.to_string()).unwrap()
}

fn reply(msg: &str) -> Result<ModelResponse, Error> {
    Ok(ModelResponse { msg: msg.to_string(), usage: None })
}

fn going_on(step: Step) -> TaskChain {
    match step {
        Step::Continuing(task) => task,
        Step::Terminal(messages) => panic!("terminal: {:?}", messages),
        Step::Fatal(e) => panic!("fatal: {:?}", e),
        Step::Incomplete => panic!("incomplete"),
    }
}

fn last_two(task: &TaskChain) -> (ChatEntry, ChatEntry) {
    let entries = task.chat_history().iter();
    let n = entries.len();
    (entries[n - 2].clone(), entries[n - 1].clone())
}

#[test]
fn a_task_starts_with_its_question() {
    let task = task(5);
    assert_eq!(task.steps(), 0);
    assert!(task.can_step());
    let entries = task.chat_history().iter();
    assert_eq!(entries.len(), 8);
    assert_eq!(entries[7].role, Role::User);
    assert_eq!(entries[7].msg, TURN);
    assert_eq!(task.chat_history().chitchat_len(), 1);
}

#[test]
fn a_conclusion_ends_the_task_at_once() {
    let task = task(5);
    let answer = "## The ONLY Action:\n```yaml\ncommand: Conclude\ninput:\n  conclusion: \"42\"\n```\n";
    match task.step(reply(answer)) {
        Step::Terminal(messages) => {
            assert_eq!(
                messages,
                vec![TerminationMessage {
                    conclusion: "42".to_string(),
                    original_question: QUESTION.to_string(),
                }]
            );
        }
        _ => panic!("the task did not end"),
    }
}

#[test]
fn a_reply_without_block_is_answered_with_a_correction() {
    let task = task(5);
    let task = going_on(task.step(reply("I think that the answer is 42.")));
    assert_eq!(task.steps(), 1);
    assert_eq!(task.is_terminal(), None);
    let (said, told) = last_two(&task);
    assert_eq!(said.role, Role::Assistant);
    assert_eq!(said.msg, "I think that the answer is 42.");
    assert_eq!(told.role, Role::User);
    assert!(told.msg.starts_with("# Action unknown failed with:\nInvalidInput(\""), "{}", told.msg);
    assert!(told.msg.ends_with(&format!("\nWhat was incorrect in previous response?\n{}", TURN)));
    // the next query is the second step
    let task = going_on(task.step(reply("```yaml\ncommand: Echo\ninput: again\n```")));
    assert_eq!(task.steps(), 2);
}

#[test]
fn a_result_that_is_too_long_is_replaced_by_a_correction() {
    let task = task(5);
    let task = going_on(task.step(reply("```yaml\ncommand: Verbose\ninput: {}\n```")));
    let (_, told) = last_two(&task);
    // the 5000 characters and the end of the line
    let size = 5001;
    assert_eq!(
        told.msg,
        format!(
            "# Action Verbose failed with:\nToolInvocationFailed(\"The response is too long ({}B). Max allowed is 2048B. Ask for a shorter response or use SandboxedPython Tool to process the response the data.\")\nWhat was incorrect in previous response?\n{}",
            size, TURN
        )
    );
    assert_eq!(told.role, Role::User);
    assert!(!told.msg.contains("xxxx"));
}

#[test]
fn a_result_of_the_largest_size_is_handed_to_the_model() {
    // the text of the result is the characters and the end of the line: 2048 bytes
    let long = "x".repeat(2047);
    let task = going_on(task(5).step(reply(&format!("```yaml\ncommand: Echo\ninput: {}\n```", long))));
    let (_, told) = last_two(&task);
    assert_eq!(told.msg, format!("# Action Echo result: \n```yaml\n{}\n```\n{}", long, TURN));
}

#[test]
fn a_result_over_the_largest_size_is_not_handed_to_the_model() {
    // one character more: 2049 bytes
    let long = "x".repeat(2048);
    let task = going_on(task(5).step(reply(&format!("```yaml\ncommand: Echo\ninput: {}\n```", long))));
    let (_, told) = last_two(&task);
    assert!(
        told.msg.starts_with(
            "# Action Echo failed with:\nToolInvocationFailed(\"The response is too long (2049B). Max allowed is 2048B."
        ),
        "{}",
        told.msg
    );
}

#[test]
fn a_result_is_handed_to_the_model() {
    let task = task(5);
    let task = going_on(task.step(reply("```yaml\ncommand: Echo\ninput:\n  text: hello\n```")));
    let (said, told) = last_two(&task);
    assert_eq!(said.msg, "```yaml\ncommand: Echo\ninput:\n  text: hello\n```");
    assert_eq!(told.msg, format!("# Action Echo result: \n```yaml\ntext: hello\n```\n{}", TURN));
    assert_eq!(task.steps(), 1);
}

#[test]
fn a_tool_that_is_not_found_is_named() {
    let task = task(5);
    let task = going_on(task.step(reply("```yaml\ncommand: Missing\ninput: {}\n```")));
    let (_, told) = last_two(&task);
    assert_eq!(
        told.msg,
        format!(
            "# Action Missing failed with:\nToolNotFound(\"Missing\")\nWhat was incorrect in previous response?\n{}",
            TURN
        )
    );
}

#[test]
fn a_tool_that_fails_is_named() {
    let task = task(5);
    let task = going_on(task.step(reply("```yaml\ncommand: Conclude\ninput: {}\n```")));
    let (_, told) = last_two(&task);
    assert_eq!(
        told.msg,
        format!(
            "# Action Conclude failed with:\nInvalidInput(\"a conclusion is expected\")\nWhat was incorrect in previous response?\n{}",
            TURN
        )
    );
    assert_eq!(task.is_terminal(), None);
}

#[test]
fn an_output_entry_is_answered_with_a_correction() {
    let task = task(5);
    let task = going_on(task.step(reply("```yaml\ncommand: Echo\ninput: a\noutput: a\n```")));
    let (_, told) = last_two(&task);
    assert_eq!(
        told.msg,
        format!(
            "# Action unknown failed with:\nToolInvocationFailed(\"The Action cannot have an `output` field. Only `command` and `input` are allowed.\")\nWhat was incorrect in previous response?\n{}",
            TURN
        )
    );
}

#[test]
fn a_model_that_cannot_be_reached_is_fatal() {
    let task = task(5);
    match task.step(Err(Error::Model("connection reset".to_string()))) {
        Step::Fatal(e) => assert_eq!(e, Error::Model("connection reset".to_string())),
        _ => panic!("the task did not fail"),
    }
}

#[test]
fn a_model_without_completion_is_fatal() {
    assert_eq!(model_response(vec![], None), Err(Error::NoResponseFromModel));
    let task = task(5);
    match task.step(model_response(vec![], None)) {
        Step::Fatal(e) => assert_eq!(e, Error::NoResponseFromModel),
        _ => panic!("the task did not fail"),
    }
}

#[test]
fn the_first_completion_is_heard() {
    let usage = Usage { prompt_tokens: 10, completion_tokens: 5, total_tokens: 15 };
    let response =
        model_response(vec!["first".to_string(), "second".to_string()], Some(usage)).unwrap();
    assert_eq!(response.msg, "first");
    assert_eq!(response.usage, Some(usage));
}

#[test]
fn the_steps_run_out() {
    let task = task(2);
    let task = going_on(task.step(reply("```yaml\ncommand: Echo\ninput: one\n```")));
    assert!(task.can_step());
    assert!(matches!(task.step(reply("```yaml\ncommand: Echo\ninput: two\n```")), Step::Incomplete));
}

#[test]
fn no_step_is_taken_without_steps() {
    let task = task(0);
    assert!(!task.can_step());
    assert!(matches!(task.step(reply("```yaml\ncommand: Conclude\ninput:\n  conclusion: x\n```")), Step::Incomplete));
}

#[test]
fn a_conclusion_in_the_last_step_ends_the_task() {
    let task = task(1);
    let answer = "```yaml\ncommand: Conclude\ninput:\n  conclusion: done\n```";
    assert!(matches!(task.step(reply(answer)), Step::Terminal(_)));
}

#[test]
fn the_request_holds_the_messages() {
    let task = task(5);
    let request = task.prepare_chat_completion_request();
    assert_eq!(request.model, "gpt-3.5-turbo");
    assert_eq!(request.n, 1);
    assert_eq!(request.max_tokens, 256);
    assert_eq!(request.messages.len(), 8);
    assert_eq!(request.messages[0].role, Role::System);
    assert_eq!(request.messages[7].msg, TURN);
}

#[test]
fn on_tool_success_adds_the_reply_and_the_result() {
    let mut task = task(5);
    let query = ChatEntry { role: Role::Assistant, msg: "I invoke Echo.".to_string() };
    let entry = task.on_tool_success("Echo", query, "text: hello\n".to_string()).unwrap();
    assert_eq!(entry.role, Role::User);
    assert_eq!(entry.msg, format!("# Action Echo result: \n```yaml\ntext: hello\n```\n{}", TURN));
    let (said, told) = last_two(&task);
    assert_eq!(said.msg, "I invoke Echo.");
    assert_eq!(told.msg, entry.msg);
}

#[test]
fn on_tool_success_refuses_a_long_result() {
    let mut task = task(5);
    let query = ChatEntry { role: Role::Assistant, msg: "I invoke Echo.".to_string() };
    // a result of the largest size is handed on as it is
    let fits = task.on_tool_success("Echo", query.clone(), "y".repeat(MAX_RESPONSE_CHAR)).unwrap();
    assert_eq!(
        fits.msg,
        format!("# Action Echo result: \n```yaml\n{}```\n{}", "y".repeat(2048), TURN)
    );
    // one byte more is not
    match task.on_tool_success("Echo", query, "y".repeat(MAX_RESPONSE_CHAR + 1)) {
        Err(Error::ActionResponseTooLong(message)) => {
            assert!(message.contains("The response is too long (2049B). Max allowed is 2048B."));
            let (_, told) = last_two(&task);
            assert_eq!(told.msg, message);
        }
        other => panic!("{:?}", other),
    }
}

#[test]
fn on_tool_failure_adds_the_reply_and_the_error() {
    let mut task = task(5);
    let query = ChatEntry { role: Role::Assistant, msg: "I invoke Echo.".to_string() };
    let e = ToolUseError::ToolInvocationFailed("boom".to_string());
    let entry = task.on_tool_failure(&"Echo".to_string(), query, e).unwrap();
    assert_eq!(
        entry.msg,
        format!(
            "# Action Echo failed with:\nToolInvocationFailed(\"boom\")\nWhat was incorrect in previous response?\n{}",
            TURN
        )
    );
    let (said, told) = last_two(&task);
    assert_eq!(said.msg, "I invoke Echo.");
    assert_eq!(told.msg, entry.msg);
}

#[test]
fn on_invocation_failure_adds_the_reply_and_the_error() {
    let mut task = task(5);
    let query = ChatEntry { role: Role::Assistant, msg: "Nothing.".to_string() };
    let e = InvocationError::ExtractionFailure("No Action found".to_string());
    let entry = task.on_invocation_failure(query, e).unwrap();
    assert_eq!(
        entry.msg,
        format!(
            "# Action unknown failed with:\nInvalidInput(\"No Action found\")\nWhat was incorrect in previous response?\n{}",
            TURN
        )
    );
}

#[test]
fn invoke_tool_of_a_task() {
    let task = task(5);
    assert_eq!(
        task.invoke_tool("```yaml\ncommand: Echo\ninput: hi\n```"),
        ("Echo".to_string(), Ok("hi\n".to_string()))
    );
}

#[test]
fn is_terminal_takes_the_messages() {
    let task = task(5);
    assert_eq!(task.is_terminal(), None);
    let (name, result) = task.invoke_tool("```yaml\ncommand: Conclude\ninput:\n  conclusion: yes\n```");
    assert_eq!(name, "Conclude");
    assert!(result.is_ok());
    let messages = task.is_terminal().unwrap();
    assert_eq!(messages.len(), 1);
    assert_eq!(messages[0].conclusion, "yes");
    assert_eq!(task.is_terminal(), None);
}

#[test]
fn tasks_of_a_chain_have_their_own_history() {
    let config = Config { model: "gpt-3.5-turbo".to_string(), min_token_for_completion: 256, max_steps: 3 };
    let chain = Chain::new(toolbox(), config).unwrap();
    let first = chain.start_task("One?".to_string()).unwrap();
    let first = going_on(first.step(reply("```yaml\ncommand: Echo\ninput: one\n```")));
    let second = chain.start_task("Two?".to_string()).unwrap();
    assert_eq!(first.chat_history().iter().len(), 10);
    assert_eq!(second.chat_history().iter().len(), 8);
    assert_eq!(second.steps(), 0);
}

#[test]
fn a_question_that_does_not_fit_is_refused() {
    let config = Config { model: "gpt-3.5-turbo".to_string(), min_token_for_completion: 256, max_steps: 3 };
    let history = ChatHistory::with_context_size("gpt-3.5-turbo".to_string(), 300, 256);
    let chain = Chain::with_history(toolbox(), config, history).unwrap();
    match chain.start_task(QUESTION.to_string()) {
        Err(e) => assert_eq!(e, Error::ChatHistory(sapiens::context::Error::PromptTooLong)),
        Ok(_) => panic!("the task started"),
    }
}

#[test]
fn numbers_in_decimal() {
    assert_eq!(to_decimal(0), "0");
    assert_eq!(to_decimal(7), "7");
    assert_eq!(to_decimal(10), "10");
    assert_eq!(to_decimal(2048), "2048");
    assert_eq!(to_decimal(1234567890), "1234567890");
    assert_eq!(to_decimal(usize::MAX), usize::MAX.to_string());
}

#[test]
fn task_error_messages() {
    assert_eq!(
        Error::ChatHistory(sapiens::context::Error::PromptTooLong).to_string(),
        "The prompt is too long"
    );
    assert_eq!(Error::NoResponseFromModel.to_string(), "No response from the model");
    assert_eq!(Error::Model("down".to_string()).to_string(), "The model could not be reached: down");
    assert_eq!(
        Error::ActionResponseTooLong("much".to_string()).to_string(),
        "The response is too long: much"
    );
}

#[test]
fn a_response_is_cloned() {
    let usage = Usage { prompt_tokens: 1, completion_tokens: 2, total_tokens: 3 };
    let response = ModelResponse { msg: "hi".to_string(), usage: Some(usage) };
    let copy = response.clone();
    assert_eq!(copy.msg, "hi");
    assert_eq!(copy.usage, Some(usage));
}
