//! The loop of a task: query the model, find the action in its reply, invoke the
//! tool, tell the model what came of it, until a terminal tool ends the task, a
//! fatal error occurs or the steps are used up.
//!
//! The model is queried by the caller. One step of the loop is a function from the
//! task and the reply of the model to the task after the step.
use crate::context::{ChatEntry, ChatHistory, HistoryState, Message, Role};
use crate::invocation::{find_invocation, parse, Invocation, InvocationError, Selection};
use crate::prompt::{failure_prompt, success_prompt, task_prompt, Manager, PromptError, Task};
use crate::tools::{
    fault_of, invoke_from_toolbox, render_result, result_view, TerminationMessage, ToolFault,
    ToolUseError, Toolbox, ToolboxView,
};
use crate::value::{Node, Yaml};
use std::rc::Rc;
use vstd::prelude::*;
use vstd::utf8::encode_utf8;

verus! {

/// The largest size, in bytes, of the result of an action, written as text, that is
/// handed to the model.
pub const MAX_RESPONSE_CHAR: usize = 2048;

/// What a chain is set up with.
#[derive(Debug)]
pub struct Config {
    /// The model
    pub model: String,
    /// The number of tokens kept free for the completion
    pub min_token_for_completion: usize,
    /// The largest number of steps of a task
    pub max_steps: usize,
}

impl Clone for Config {
    fn clone(&self) -> (copy: Self)
        ensures
            copy == *self,
    {
        Config {
            model: self.model.clone(),
            min_token_for_completion: self.min_token_for_completion,
            max_steps: self.max_steps,
        }
    }
}

/// Token usage
#[derive(Debug, Clone, Copy, PartialEq, Eq)]
pub struct Usage {
    /// The number of tokens used for the prompt
    pub prompt_tokens: u32,
    /// The number of tokens used for the completion
    pub completion_tokens: u32,
    /// The total number of tokens used
    pub total_tokens: u32,
}

/// Response from a language model
#[derive(Debug, PartialEq)]
pub struct ModelResponse {
    /// The message
    pub msg: String,
    /// The usage
    pub usage: Option<Usage>,
}

impl Clone for ModelResponse {
    fn clone(&self) -> (copy: Self)
        ensures
            copy == *self,
    {
        ModelResponse { msg: self.msg.clone(), usage: self.usage }
    }
}

/// What is sent to the model: the messages, the model, and the sizes.
#[derive(Debug)]
pub struct ChatRequest {
    /// The model
    pub model: String,
    /// The messages, the pinned ones first
    pub messages: Vec<ChatEntry>,
    /// The number of completions asked for
    pub n: u8,
    /// The largest number of tokens of the completion
    pub max_tokens: u16,
}

/// Why a task failed.
#[derive(Debug, PartialEq)]
pub enum Error {
    /// The chat history did not take a message
    ChatHistory(crate::context::Error),
    /// The model gave no reply
    NoResponseFromModel,
    /// The model could not be reached
    Model(String),
    /// The result of an action was too long to be handed to the model
    ActionResponseTooLong(String),
}

/// Why a task failed, as specifications see it.
pub enum Failure {
    ChatHistory(crate::context::Error),
    NoResponseFromModel,
    Model(Seq<char>),
    ActionResponseTooLong(Seq<char>),
}

impl View for Error {
    type V = Failure;

    open spec fn view(&self) -> Failure {
        match self {
            Error::ChatHistory(e) => Failure::ChatHistory(*e),
            Error::NoResponseFromModel => Failure::NoResponseFromModel,
            Error::Model(reason) => Failure::Model(reason@),
            Error::ActionResponseTooLong(message) => Failure::ActionResponseTooLong(message@),
        }
    }
}

impl Failure {
    /// The message that describes the error.
    pub open spec fn message(self) -> Seq<char> {
        match self {
            Failure::ChatHistory(e) => e.message(),
            Failure::NoResponseFromModel => "No response from the model"@,
            Failure::Model(reason) => "The model could not be reached: "@ + reason,
            Failure::ActionResponseTooLong(message) => "The response is too long: "@ + message,
        }
    }
}

impl Error {
    /// The message that describes the error.
    pub fn to_string(&self) -> (s: String)
        ensures
            s@ == self@.message(),
    {
        match self {
            Error::ChatHistory(e) => e.to_string(),
            Error::NoResponseFromModel => "No response from the model".to_owned(),
            Error::Model(reason) => {
                let mut s = "The model could not be reached: ".to_owned();
                s.append(reason.as_str());
                s
            },
            Error::ActionResponseTooLong(message) => {
                let mut s = "The response is too long: ".to_owned();
                s.append(message.as_str());
                s
            },
        }
    }
}

/// The digit for a number below ten.
pub open spec fn digit(d: nat) -> Seq<char> {
    if d == 0 {
        "0"@
    } else if d == 1 {
        "1"@
    } else if d == 2 {
        "2"@
    } else if d == 3 {
        "3"@
    } else if d == 4 {
        "4"@
    } else if d == 5 {
        "5"@
    } else if d == 6 {
        "6"@
    } else if d == 7 {
        "7"@
    } else if d == 8 {
        "8"@
    } else {
        "9"@
    }
}

/// A number written in decimal.
pub open spec fn decimal(n: nat) -> Seq<char>
    decreases n,
{
    if n < 10 {
        digit(n)
    } else {
        decimal(n / 10) + digit(n % 10)
    }
}

/// The digit for a number below ten.
fn digit_text(d: usize) -> (text: &'static str)
    requires
        d < 10,
    ensures
        text@ == digit(d as nat),
{
    if d == 0 {
        "0"
    } else if d == 1 {
        "1"
    } else if d == 2 {
        "2"
    } else if d == 3 {
        "3"
    } else if d == 4 {
        "4"
    } else if d == 5 {
        "5"
    } else if d == 6 {
        "6"
    } else if d == 7 {
        "7"
    } else if d == 8 {
        "8"
    } else {
        "9"
    }
}

/// Writes a number in decimal.
pub fn to_decimal(n: usize) -> (text: String)
    ensures
        text@ == decimal(n as nat),
    decreases n,
{
    if n < 10 {
        digit_text(n).to_owned()
    } else {
        let mut text = to_decimal(n / 10);
        text.append(digit_text(n % 10));
        text
    }
}

/// The error that stands for a result that is too long to be handed to the model.
pub open spec fn too_long(size: nat) -> ToolFault {
    ToolFault::ToolInvocationFailed(
        "The response is too long ("@ + decimal(size) + "B). Max allowed is "@ + decimal(
            MAX_RESPONSE_CHAR as nat,
        )
            + "B. Ask for a shorter response or use SandboxedPython Tool to process the response the data."@,
    )
}

/// The error that stands for a result that is too long to be handed to the model.
fn too_long_error(size: usize) -> (e: ToolUseError)
    ensures
        e@ == too_long(size as nat),
{
    let mut reason = "The response is too long (".to_owned();
    reason.append(to_decimal(size).as_str());
    reason.append("B). Max allowed is ");
    reason.append(to_decimal(MAX_RESPONSE_CHAR).as_str());
    reason.append(
        "B. Ask for a shorter response or use SandboxedPython Tool to process the response the data.",
    );
    ToolUseError::ToolInvocationFailed(reason)
}

/// What the model was heard to say: the first of its completions, with the usage
/// that it reports.
///
/// Fails with `NoResponseFromModel` where the model gave no completion.
pub fn model_response(completions: Vec<String>, usage: Option<Usage>) -> (response: Result<
    ModelResponse,
    Error,
>)
    ensures
        completions@.len() == 0 ==> response == Err::<ModelResponse, Error>(
            Error::NoResponseFromModel,
        ),
        completions@.len() > 0 ==> response == Ok::<ModelResponse, Error>(
            ModelResponse { msg: completions@[0], usage },
        ),
{
    let mut completions = completions;
    if completions.len() == 0 {
        Err(Error::NoResponseFromModel)
    } else {
        let msg = completions.swap_remove(0);
        Ok(ModelResponse { msg, usage })
    }
}

/// A message of the user.
pub open spec fn user(text: Seq<char>) -> Message {
    Message { role: Role::User, content: text }
}

/// A message of the model.
pub open spec fn assistant(text: Seq<char>) -> Message {
    Message { role: Role::Assistant, content: text }
}

/// Whether the result of an action, written as text, is too long to be handed to the
/// model: it takes more bytes than the largest size.
pub open spec fn result_too_long(result: Seq<char>) -> bool {
    encode_utf8(result).len() > MAX_RESPONSE_CHAR
}

/// The message that tells the model what came of an action: the result, or, where the
/// result is too long, that it is too long and how long it is.
pub open spec fn result_message(tool_name: Seq<char>, result: Seq<char>, task: Seq<char>) -> Seq<
    char,
> {
    if result_too_long(result) {
        failure_prompt(tool_name, too_long(encode_utf8(result).len()), task)
    } else {
        success_prompt(tool_name, result, task)
    }
}

/// Calls `Rc::clone`. Trusted: the result points to the same toolbox.
#[verifier::external_body]
fn share(toolbox: &Rc<Toolbox>) -> (shared: Rc<Toolbox>)
    ensures
        shared == *toolbox,
{
    toolbox.clone()
}

/// A chain - not yet specialized to a task
pub struct Chain {
    toolbox: Rc<Toolbox>,
    /// The largest number of steps of a task
    max_steps: usize,
    /// With the initial prompt
    chat_history: ChatHistory,
}

/// A chain as specifications see it.
pub struct ChainView {
    pub toolbox: ToolboxView,
    pub max_steps: nat,
    pub history: HistoryState,
}

impl View for Chain {
    type V = ChainView;

    closed spec fn view(&self) -> ChainView {
        ChainView {
            toolbox: self.toolbox@,
            max_steps: self.max_steps as nat,
            history: self.chat_history@,
        }
    }
}

impl Chain {
    /// The toolbox of the chain.
    pub closed spec fn toolbox(&self) -> Toolbox {
        *self.toolbox
    }

    /// The toolbox of the chain holds the tools whose names the chain knows.
    pub proof fn lemma_toolbox(&self)
        ensures
            self.toolbox()@ == self@.toolbox,
    {
    }

    /// Create a new chain: its chat history holds the pinned messages that describe
    /// the tools of the toolbox and the format of a reply.
    pub fn new(toolbox: Toolbox, config: Config) -> (chain: Result<Self, PromptError>)
        ensures
            chain matches Ok(c) ==> {
                &&& c.toolbox() == toolbox
                &&& c@.toolbox == toolbox@
                &&& c@.max_steps == config.max_steps
                &&& c@.history.chitchat.len() == 0
                &&& c@.history.model == config.model@
                &&& c@.history.max_token == crate::context::context_size(config.model@)
                &&& c@.history.min_token_for_completion == config.min_token_for_completion
                &&& c@.history.wf()
                &&& crate::prompt::seeded(
                    c@.history,
                    HistoryState::empty(
                        config.model@,
                        crate::context::context_size(config.model@),
                        config.min_token_for_completion as nat,
                    ),
                    toolbox,
                )
            },
            chain matches Err(PromptError::ToolDescription(reason)) ==> crate::prompt::cannot_describe(
                reason@,
                toolbox,
            ),
            chain matches Err(PromptError::ChatHistory(e)) ==> e == crate::context::Error::TokenCount
                && crate::prompt::uncountable(
                HistoryState::empty(
                    config.model@,
                    crate::context::context_size(config.model@),
                    config.min_token_for_completion as nat,
                ),
                toolbox,
            ),
    {
        let chat_history = ChatHistory::new(config.model.clone(), config.min_token_for_completion);
        Self::with_history(toolbox, config, chat_history)
    }

    /// Create a new chain on a chat history, to which the pinned messages are added
    /// that describe the tools of the toolbox and the format of a reply.
    pub fn with_history(toolbox: Toolbox, config: Config, chat_history: ChatHistory) -> (chain: Result<
        Self,
        PromptError,
    >)
        ensures
            chain matches Ok(c) ==> {
                &&& c.toolbox() == toolbox
                &&& c@.toolbox == toolbox@
                &&& c@.max_steps == config.max_steps
                &&& (chat_history@.wf() ==> c@.history.wf())
                &&& crate::prompt::seeded(c@.history, chat_history@, toolbox)
            },
            chain matches Err(PromptError::ToolDescription(reason)) ==> crate::prompt::cannot_describe(
                reason@,
                toolbox,
            ),
            chain matches Err(PromptError::ChatHistory(e)) ==> e == crate::context::Error::TokenCount
                && crate::prompt::uncountable(chat_history@, toolbox),
    {
        let mut chat_history = chat_history;
        let toolbox = Rc::new(toolbox);
        // Add the prompts to the chat history
        let prompt_manager = Manager::new(share(&toolbox));
        match prompt_manager.populate_chat_history(&mut chat_history) {
            Ok(_) => Ok(Self { toolbox, max_steps: config.max_steps, chat_history }),
            Err(e) => Err(e),
        }
    }

    /// Start a task: the question is added to a copy of the chat history.
    ///
    /// Fails where the chat history does not take the question.
    pub fn start_task(&self, task: String) -> (chain: Result<TaskChain, Error>)
        ensures
            match self@.history.add_chitchat_result(user(task_prompt(task@))) {
                Ok(_) => chain matches Ok(c) && c.toolbox() == self.toolbox() && c@ == (TaskView {
                    history: self@.history.add_chitchat(user(task_prompt(task@))),
                    task: task@,
                    steps: 0,
                    max_steps: self@.max_steps,
                    toolbox: self@.toolbox,
                }),
                Err(e) => chain matches Err(failure) && failure@ == Failure::ChatHistory(e),
            },
    {
        let task = Task::new(task.as_str());
        let entry = ChatEntry { msg: task.to_string(), role: Role::User };
        // clone and update
        let mut chain = Chain {
            toolbox: share(&self.toolbox),
            max_steps: self.max_steps,
            chat_history: self.chat_history.duplicate(),
        };
        match chain.chat_history.add_chitchat(entry) {
            Ok(_) => Ok(TaskChain { chain, task, steps: 0 }),
            Err(e) => Err(Error::ChatHistory(e)),
        }
    }
}

/// A chain for a specific task
pub struct TaskChain {
    chain: Chain,
    task: Task,
    /// The number of steps taken
    steps: usize,
}

/// A task as specifications see it.
pub struct TaskView {
    /// The messages
    pub history: HistoryState,
    /// The question
    pub task: Seq<char>,
    /// The number of steps taken
    pub steps: nat,
    /// The largest number of steps
    pub max_steps: nat,
    /// The tools
    pub toolbox: ToolboxView,
}

impl View for TaskChain {
    type V = TaskView;

    closed spec fn view(&self) -> TaskView {
        TaskView {
            history: self.chain.chat_history@,
            task: self.task@,
            steps: self.steps as nat,
            max_steps: self.chain.max_steps as nat,
            toolbox: self.chain.toolbox@,
        }
    }
}

/// What a step of a task gave, as specifications see it.
pub enum StepView {
    Continuing(TaskView),
    Terminal(Seq<TerminationMessage>),
    Fatal(Failure),
    Incomplete,
}

impl TaskView {
    /// The task with another chat history.
    pub open spec fn with_history(self, history: HistoryState) -> Self {
        TaskView { history, ..self }
    }

    /// The task after a message was added to its chat history.
    pub open spec fn add(self, message: Message) -> Self {
        self.with_history(self.history.add_chitchat(message))
    }

    /// The task after two messages were added to its chat history, the second only
    /// where the first was taken.
    pub open spec fn add_both(self, first: Message, second: Message) -> Self {
        if self.history.add_chitchat_result(first) is Err {
            self.add(first)
        } else {
            self.add(first).add(second)
        }
    }

    /// Why the chat history did not take one of two messages, if it did not.
    pub open spec fn add_both_error(self, first: Message, second: Message) -> Option<
        crate::context::Error,
    > {
        match self.history.add_chitchat_result(first) {
            Err(e) => Some(e),
            Ok(_) => match self.add(first).history.add_chitchat_result(second) {
                Err(e) => Some(e),
                Ok(_) => None,
            },
        }
    }

    /// Whether a step can be taken.
    pub open spec fn can_step(self) -> bool {
        self.steps < self.max_steps
    }

    /// The end of a step in which the model is told something: a fatal error where the
    /// chat history does not take the message; else the task goes on, unless its steps
    /// are used up.
    pub open spec fn told(self, text: Seq<char>) -> StepView {
        match self.history.add_chitchat_result(user(text)) {
            Err(e) => StepView::Fatal(Failure::ChatHistory(e)),
            Ok(_) => if self.steps >= self.max_steps {
                StepView::Incomplete
            } else {
                StepView::Continuing(self.add(user(text)))
            },
        }
    }

    /// The end of a step in which the action failed, or none was found.
    pub open spec fn failed(self, tool_name: Seq<char>, fault: ToolFault) -> StepView {
        self.told(failure_prompt(tool_name, fault, self.task))
    }

    /// The end of a step in which a tool was invoked. Where the tool failed, the model
    /// is told so. Else the task ends where a terminal tool gave a termination
    /// message; where none did, the model is told the result of the tool, or that the
    /// result cannot be written as YAML.
    pub open spec fn dispatched(
        self,
        tool_name: Seq<char>,
        result: Result<Node, ToolFault>,
        terminations: Seq<TerminationMessage>,
    ) -> StepView {
        match result {
            Err(fault) => self.failed(tool_name, fault),
            Ok(output) => if terminations.len() > 0 {
                StepView::Terminal(terminations)
            } else {
                match crate::value::yaml_text(output) {
                    Ok(text) => self.told(result_message(tool_name, text, self.task)),
                    Err(reason) => self.failed(tool_name, ToolFault::InvalidYaml(reason)),
                }
            },
        }
    }

    /// The task after the reply of the model was counted as a step and added to the
    /// chat history.
    pub open spec fn heard(self, reply: Seq<char>) -> Self {
        TaskView { steps: self.steps + 1, ..self.add(assistant(reply)) }
    }

    /// The end of a step in which no invocation was found in the reply.
    pub open spec fn invalid(self, error: InvocationError) -> StepView {
        self.failed("unknown"@, fault_of(error))
    }
}

/// What a step of a task gave.
pub enum Step {
    /// The task goes on: the model is to be queried again
    Continuing(TaskChain),
    /// A terminal tool ended the task, with these messages
    Terminal(Vec<TerminationMessage>),
    /// The task failed
    Fatal(Error),
    /// The steps are used up, and the task has no conclusion
    Incomplete,
}

impl View for Step {
    type V = StepView;

    open spec fn view(&self) -> StepView {
        match self {
            Step::Continuing(task) => StepView::Continuing(task@),
            Step::Terminal(messages) => StepView::Terminal(messages@),
            Step::Fatal(e) => StepView::Fatal(e@),
            Step::Incomplete => StepView::Incomplete,
        }
    }
}

impl TaskChain {
    /// Add a chat entry to the chat history
    fn add_to_chat_history(&mut self, entry: ChatEntry) -> (r: Result<usize, Error>)
        ensures
            final(self)@ == old(self)@.add(entry@),
            final(self).toolbox() == old(self).toolbox(),
            match old(self)@.history.add_chitchat_result(entry@) {
                Ok(n) => r == Ok::<usize, Error>(n),
                Err(e) => r == Err::<usize, Error>(Error::ChatHistory(e)),
            },
    {
        match self.chain.chat_history.add_chitchat(entry) {
            Ok(n) => Ok(n),
            Err(e) => Err(Error::ChatHistory(e)),
        }
    }

    /// What is sent to the model: the messages of the chat history, the pinned ones
    /// first, for one completion of at most the number of tokens kept for it.
    pub fn prepare_chat_completion_request(&self) -> (request: ChatRequest)
        ensures
            request.model@ == self@.history.model,
            crate::context::messages(request.messages@) == self@.history.all(),
            request.n == 1,
            request.max_tokens as nat == self@.history.min_token_for_completion % 0x1_0000,
    {
        let entries = self.chain.chat_history.iter();
        let mut messages: Vec<ChatEntry> = Vec::new();
        let mut i: usize = 0;
        while i < entries.len()
            invariant
                i <= entries.len(),
                messages@.len() == i,
                entries@.len() == self@.history.all().len(),
                forall|j: int| 0 <= j < entries@.len() ==> (#[trigger] entries@[j])@ == self@.history.all()[j],
                forall|j: int| 0 <= j < i ==> (#[trigger] messages@[j])@ == self@.history.all()[j],
            decreases entries.len() - i,
        {
            messages.push(entries[i].clone());
            i += 1;
        }
        assert(crate::context::messages(messages@) == self@.history.all());
        ChatRequest {
            model: self.chain.chat_history.model().to_owned(),
            messages,
            n: 1,
            max_tokens: (self.chain.chat_history.min_token_for_completion() % 0x1_0000) as u16,
        }
    }

    /// Try to find the tool invocation from the chat message and invoke the
    /// corresponding tool.
    ///
    /// See [`crate::tools::invoke_tool`] for more details.
    pub fn invoke_tool(&self, data: &str) -> (outcome: (String, Result<String, ToolUseError>))
        ensures
            match parse(data@) {
                Some(Selection::Chosen(invocation)) => {
                    &&& outcome.0@ == invocation.command
                    &&& exists|input: Yaml, result: Result<Yaml, ToolUseError>|
                        {
                            &&& input@ == invocation.input
                            &&& #[trigger] self.toolbox().dispatches(
                                invocation.command,
                                input,
                                result,
                            )
                            &&& crate::tools::report_view(outcome.1) == crate::tools::rendered(
                                result_view(result),
                            )
                        }
                    &&& self@.toolbox.resolve(invocation.command) is None ==> (outcome.1 matches Err(
                        e,
                    ) && e@ == ToolFault::ToolNotFound(invocation.command))
                },
                Some(Selection::NoAction) => {
                    &&& outcome.0@ == "unknown"@
                    &&& outcome.1 matches Err(e) && e@ == ToolFault::InvalidInput("No Action found"@)
                },
                Some(Selection::ForbiddenField) => {
                    &&& outcome.0@ == "unknown"@
                    &&& outcome.1 matches Err(e) && e@ == fault_of(InvocationError::ForbiddenField)
                },
                None => {
                    &&& outcome.0@ == "unknown"@
                    &&& outcome.1 matches Err(ToolUseError::InvalidInput(_))
                },
            },
    {
        let outcome = crate::tools::invoke_tool(&self.chain.toolbox, data);
        proof {
            if let Some(Selection::Chosen(invocation)) = parse(data@) {
                let (input, result) = choose|input: Yaml, result: Result<Yaml, ToolUseError>|
                    {
                        &&& input@ == invocation.input
                        &&& #[trigger] self.chain.toolbox.dispatches(
                            invocation.command,
                            input,
                            result,
                        )
                        &&& crate::tools::report_view(outcome.1) == crate::tools::rendered(
                            result_view(result),
                        )
                    };
                assert(self.toolbox().dispatches(invocation.command, input, result));
            }
        }
        outcome
    }

    /// Generate a new prompt for the assistant based on the response from the
    /// Tool.
    ///
    /// The reply of the model and then the prompt are added to the chat history. If
    /// the response takes more than `MAX_RESPONSE_CHAR` bytes, an error message is added
    /// to the chat history in place of the prompt, and `ActionResponseTooLong` is
    /// returned with it.
    pub fn on_tool_success(&mut self, tool_name: &str, query: ChatEntry, result: String) -> (r: Result<
        ChatEntry,
        Error,
    >)
        ensures
            final(self).toolbox() == old(self).toolbox(),
            final(self)@ == old(self)@.add_both(
                query@,
                user(result_message(tool_name@, result@, old(self)@.task)),
            ),
            match old(self)@.add_both_error(
                query@,
                user(result_message(tool_name@, result@, old(self)@.task)),
            ) {
                Some(e) => r matches Err(failure) && failure@ == Failure::ChatHistory(e),
                None => if result_too_long(result@) {
                    r matches Err(failure) && failure@ == Failure::ActionResponseTooLong(
                        result_message(tool_name@, result@, old(self)@.task),
                    )
                } else {
                    r matches Ok(entry) && entry@ == user(
                        result_message(tool_name@, result@, old(self)@.task),
                    )
                },
            },
    {
        // add the query to the chat history
        match self.add_to_chat_history(query) {
            Err(e) => {
                return Err(e);
            },
            Ok(_) => {},
        }
        // if the response is too long, we add an error message to the chat history
        // instead
        let size = result.as_str().as_bytes().len();
        if size > MAX_RESPONSE_CHAR {
            let e = too_long_error(size);
            let msg = self.task.action_failed_prompt(tool_name, &e);
            // add an error message to the chat history
            match self.add_to_chat_history(ChatEntry { msg: msg.clone(), role: Role::User }) {
                Err(e) => {
                    return Err(e);
                },
                Ok(_) => {},
            }
            return Err(Error::ActionResponseTooLong(msg));
        }
        // add the response to the chat history
        let msg = self.task.action_success_prompt(tool_name, result.as_str());
        let entry = ChatEntry { msg, role: Role::User };
        match self.add_to_chat_history(entry.clone()) {
            Err(e) => Err(e),
            Ok(_) => Ok(entry),
        }
    }

    /// Generate a new prompt for the assistant based on the error from the
    /// Tool invocation.
    ///
    /// The reply of the model and then the prompt are added to the chat history.
    pub fn on_tool_failure(&mut self, tool_name: &String, query: ChatEntry, e: ToolUseError) -> (r: Result<
        ChatEntry,
        Error,
    >)
        ensures
            final(self).toolbox() == old(self).toolbox(),
            final(self)@ == old(self)@.add_both(
                query@,
                user(failure_prompt(tool_name@, e@, old(self)@.task)),
            ),
            match old(self)@.add_both_error(
                query@,
                user(failure_prompt(tool_name@, e@, old(self)@.task)),
            ) {
                Some(e) => r matches Err(failure) && failure@ == Failure::ChatHistory(e),
                None => r matches Ok(entry) && entry@ == user(
                    failure_prompt(tool_name@, e@, old(self)@.task),
                ),
            },
    {
        // add the query to the chat history
        match self.add_to_chat_history(query) {
            Err(e) => {
                return Err(e);
            },
            Ok(_) => {},
        }
        // add the error message to the chat history
        let msg = self.task.action_failed_prompt(tool_name.as_str(), &e);
        let entry = ChatEntry { msg, role: Role::User };
        match self.add_to_chat_history(entry.clone()) {
            Err(e) => Err(e),
            Ok(_) => Ok(entry),
        }
    }

    /// Generate a new prompt for the assistant based on the invocation parsing.
    ///
    /// The reply of the model and then the prompt are added to the chat history.
    pub fn on_invocation_failure(&mut self, query: ChatEntry, e: InvocationError) -> (r: Result<
        ChatEntry,
        Error,
    >)
        ensures
            final(self).toolbox() == old(self).toolbox(),
            final(self)@ == old(self)@.add_both(
                query@,
                user(failure_prompt("unknown"@, fault_of(e), old(self)@.task)),
            ),
            match old(self)@.add_both_error(
                query@,
                user(failure_prompt("unknown"@, fault_of(e), old(self)@.task)),
            ) {
                Some(e) => r matches Err(failure) && failure@ == Failure::ChatHistory(e),
                None => r matches Ok(entry) && entry@ == user(
                    failure_prompt("unknown"@, fault_of(e), old(self)@.task),
                ),
            },
    {
        let tool_name = "unknown".to_owned();
        self.on_tool_failure(&tool_name, query, ToolUseError::from_invocation_error(e))
    }

    /// The toolbox of the task.
    pub closed spec fn toolbox(&self) -> Toolbox {
        *self.chain.toolbox
    }

    /// The toolbox of the task holds the tools whose names the task knows.
    pub proof fn lemma_toolbox(&self)
        ensures
            self.toolbox()@ == self@.toolbox,
    {
    }

    /// Return the termination messages if the chain is terminated or `None`
    ///
    /// Each terminal tool is asked for its message once, and what it gives is cleared.
    /// The messages are those that the tools gave, in the order in which the tools
    /// were added; `None` where no tool gave one.
    pub fn is_terminal(&self) -> (messages: Option<Vec<TerminationMessage>>)
        ensures
            exists|polled: Seq<Option<TerminationMessage>>|
                #[trigger] self.toolbox().answers(polled) && match messages {
                    Some(given) => given@ == crate::tools::present(polled) && given@.len() > 0,
                    None => crate::tools::present(polled).len() == 0,
                },
            messages matches Some(m) ==> 0 < m@.len() <= self@.toolbox.basic.terminal.len(),
    {
        let t = self.chain.toolbox.termination_messages();
        proof {
            let polled = choose|polled: Seq<Option<TerminationMessage>>|
                #[trigger] self.chain.toolbox.answers(polled) && t@ == crate::tools::present(
                    polled,
                );
            assert(self.toolbox().answers(polled));
        }
        if t.len() == 0 {
            None
        } else {
            Some(t)
        }
    }

    /// Return the chat history
    pub fn chat_history(&self) -> (history: &ChatHistory)
        ensures
            history@ == self@.history,
    {
        &self.chain.chat_history
    }

    /// The number of steps taken
    pub fn steps(&self) -> (steps: usize)
        ensures
            steps == self@.steps,
    {
        self.steps
    }

    /// Whether a step can be taken: the steps are not used up.
    pub fn can_step(&self) -> (can: bool)
        ensures
            can == self@.can_step(),
    {
        self.steps < self.chain.max_steps
    }

    /// Ends a step in which the model is told something.
    fn tell(self, text: String) -> (step: Step)
        ensures
            step@ == self@.told(text@),
            step matches Step::Continuing(next) ==> next.toolbox() == self.toolbox(),
    {
        let mut task = self;
        match task.add_to_chat_history(ChatEntry { role: Role::User, msg: text }) {
            Err(e) => Step::Fatal(e),
            Ok(_) => if task.steps >= task.chain.max_steps {
                Step::Incomplete
            } else {
                Step::Continuing(task)
            },
        }
    }

    /// Ends a step in which the action failed: the model is told so.
    pub fn on_failed(self, tool_name: &str, e: ToolUseError) -> (step: Step)
        ensures
            step@ == self@.failed(tool_name@, e@),
            step matches Step::Continuing(next) ==> next.toolbox() == self.toolbox(),
    {
        let text = self.task.action_failed_prompt(tool_name, &e);
        self.tell(text)
    }

    /// Ends a step in which no invocation was found in the reply: the model is told
    /// so.
    pub fn on_invalid(self, e: InvocationError) -> (step: Step)
        ensures
            step@ == self@.invalid(e),
            step matches Step::Continuing(next) ==> next.toolbox() == self.toolbox(),
    {
        self.on_failed("unknown", ToolUseError::from_invocation_error(e))
    }

    /// Ends a step in which a tool was invoked, given the result of the tool and the
    /// termination messages that the terminal tools gave after it.
    pub fn on_dispatched(
        self,
        tool_name: &str,
        result: Result<Yaml, ToolUseError>,
        terminations: Vec<TerminationMessage>,
    ) -> (step: Step)
        ensures
            step@ == self@.dispatched(tool_name@, result_view(result), terminations@),
            step matches Step::Continuing(next) ==> next.toolbox() == self.toolbox(),
    {
        match result {
            Err(e) => self.on_failed(tool_name, e),
            Ok(output) => {
                if terminations.len() > 0 {
                    return Step::Terminal(terminations);
                }
                match render_result(Ok(output)) {
                    Err(e) => self.on_failed(tool_name, e),
                    Ok(text) => {
                        let size = text.as_str().as_bytes().len();
                        if size > MAX_RESPONSE_CHAR {
                            self.on_failed(tool_name, too_long_error(size))
                        } else {
                            let message = self.task.action_success_prompt(
                                tool_name,
                                text.as_str(),
                            );
                            self.tell(message)
                        }
                    },
                }
            },
        }
    }

    /// Whether a step ends in this way after the tool of an action gave this result:
    /// where the tool failed, the terminal tools are not asked; else the step ends as
    /// it does for the result and the termination messages among the answers that the
    /// terminal tools give when each is asked once.
    pub open spec fn polled_after(
        &self,
        heard: TaskView,
        tool_name: Seq<char>,
        result: Result<Yaml, ToolUseError>,
        step: StepView,
    ) -> bool {
        match result {
            Err(_) => step == heard.dispatched(tool_name, result_view(result), Seq::empty()),
            Ok(_) => exists|polled: Seq<Option<TerminationMessage>>|
                #[trigger] self.toolbox().answers(polled) && step == heard.dispatched(
                    tool_name,
                    result_view(result),
                    crate::tools::present(polled),
                ),
        }
    }

    /// Takes a step of the task with the reply of the model, or with the error for
    /// which there is none.
    ///
    /// Where the steps are used up, nothing is done. Else the step is counted. Where
    /// the model gave no reply, the task fails with the error. Else the reply is added to the
    /// chat history, the action is looked for in the reply and its tool is invoked;
    /// where the tool succeeds, each terminal tool is asked once for its termination
    /// message, and where one gives a message, the task ends with the messages. Else
    /// the model is told what came of the action, or what was wrong with its reply,
    /// and the task goes on, unless its steps are now used up.
    pub fn step(self, event: Result<ModelResponse, Error>) -> (step: Step)
        ensures
            !self@.can_step() ==> step@ == StepView::Incomplete,
            step matches Step::Continuing(next) ==> next.toolbox() == self.toolbox(),
            step@ matches StepView::Continuing(next) ==> {
                &&& next.steps == self@.steps + 1
                &&& next.can_step()
                &&& next.max_steps == self@.max_steps
                &&& next.task == self@.task
                &&& next.toolbox == self@.toolbox
                &&& next.history.prompt == self@.history.prompt
                &&& next.history.prompt_num_tokens == self@.history.prompt_num_tokens
            },
            self@.can_step() ==> match event {
                Err(e) => step@ == StepView::Fatal(e@),
                Ok(response) => match self@.history.add_chitchat_result(
                    assistant(response.msg@),
                ) {
                    Err(e) => step@ == StepView::Fatal(Failure::ChatHistory(e)),
                    Ok(_) => {
                        let heard = self@.heard(response.msg@);
                        match parse(response.msg@) {
                            None => exists|reason: Seq<char>|
                                step@ == heard.failed("unknown"@, ToolFault::InvalidInput(reason)),
                            Some(Selection::NoAction) => step@ == heard.failed(
                                "unknown"@,
                                ToolFault::InvalidInput("No Action found"@),
                            ),
                            Some(Selection::ForbiddenField) => step@ == heard.failed(
                                "unknown"@,
                                fault_of(InvocationError::ForbiddenField),
                            ),
                            Some(Selection::Chosen(invocation)) => {
                                &&& self@.toolbox.resolve(invocation.command) is None ==> step@
                                    == heard.failed(
                                    invocation.command,
                                    ToolFault::ToolNotFound(invocation.command),
                                )
                                &&& exists|input: Yaml, result: Result<Yaml, ToolUseError>|
                                    {
                                        &&& input@ == invocation.input
                                        &&& #[trigger] self.toolbox().dispatches(
                                            invocation.command,
                                            input,
                                            result,
                                        )
                                        &&& self.polled_after(
                                            heard,
                                            invocation.command,
                                            result,
                                            step@,
                                        )
                                    }
                            },
                        }
                    },
                },
            },
    {
        let mut task = self;
        if task.steps >= task.chain.max_steps {
            return Step::Incomplete;
        }
        let response = match event {
            Err(e) => {
                return Step::Fatal(e);
            },
            Ok(response) => response,
        };
        task.steps = task.steps + 1;
        let reply = response.msg;
        match task.add_to_chat_history(ChatEntry { role: Role::Assistant, msg: reply.clone() }) {
            Err(e) => {
                return Step::Fatal(e);
            },
            Ok(_) => {},
        }
        assert(task@ == self@.heard(reply@));
        match find_invocation(reply.as_str()) {
            Err(e) => {
                proof {
                    if parse(reply@) is None {
                        assert(fault_of(e) == ToolFault::InvalidInput(e->ExtractionFailure_0@));
                    }
                }
                task.on_invalid(e)
            },
            Ok(invocation) => {
                let Invocation { command, input } = invocation;
                let result = invoke_from_toolbox(&task.chain.toolbox, command.as_str(), input);
                let terminations = match &result {
                    Ok(_) => task.chain.toolbox.termination_messages(),
                    Err(_) => Vec::new(),
                };
                let ghost heard = task@;
                let step = task.on_dispatched(command.as_str(), result, terminations);
                proof {
                    assert(self.toolbox().dispatches(command@, input, result));
                    if result is Ok {
                        let polled = choose|polled: Seq<Option<TerminationMessage>>|
                            #[trigger] self.toolbox().answers(polled) && terminations@
                                == crate::tools::present(polled);
                        assert(self.toolbox().answers(polled));
                    }
                    assert(self.polled_after(heard, command@, result, step@));
                }
                step
            },
        }
    }
}

} // verus!
