//! The prompts: the pinned preamble that teaches the model the loop and the format
//! of an action, and the messages that hand it the question, the result of an
//! action or what was wrong with its reply.
use crate::context::{ChatHistory, Error, Role};
use crate::tools::{ToolDescription, ToolDescriptionView, ToolFault, ToolUseError, Toolbox};
use std::rc::Rc;
use vstd::prelude::*;
use vstd::utf8::encode_utf8;

verus! {

/// The persona of the agent.
pub const SYSTEM_PROMPT: &'static str =
    "You are an automated agent named Sapiens interacting with the WORLD. Listen to the WORLD!";

/// What the agent is and how it proceeds.
pub const PREFIX: &'static str =
    r"You are Sapiens, a large language model assisting the WORLD. Use available tools to answer the question as best as you can.
You will proceed iteratively using an OODA loop.

Action result will be provided to you. The loop will repeated until you have the answer to the original question. No task is complete until the Conclude Tool is used to provide the answer.
You cannot use jinja2 templating in your response. Be concise. 
";

/// The heading of the list of tools.
pub const TOOL_PREFIX: &'static str = r"
# The following are the ONLY Tools you can use for your Actions:
";

/// The format of a reply.
pub const FORMAT: &'static str = r"
# Format of your response

Please use the following format for your response - no need to be verbose. Comments are in bold and should be removed from your response.
====================
## Observations: 
**What do you know to be true? What do you you don't know? What are your sources? Note down important information for later.**
- ...
## Orientation: 
**Plan the intermediate objectives to answer the original question. Maintain a list of current objectives updated as you go.**
- ...
## Decision: 
**Decide what to do first to answer the question. Why? How will you if it succeeds? How will you if it fails?**
- ...
## The ONLY Action: 
**Take a single Action consisting of exactly one tool invocation (`command` and `input`). The available Tools listed below. Use Conclude Tool when you have the final answer to the original question. Never give more than one `command` and one `input` fields. Never give more than one YAML.**  
```yaml
command: <ToolName>
input:
  <... using the `input_format` for the Tool ...>
```
====================
";

/// The acknowledgment of the warm-up by the model.
pub const UNDERSTOOD: &'static str = "Understood.";

/// The question of the worked example.
pub const WARMUP_QUESTION: &'static str = "Sort in ascending order: [2, 3, 1, 4, 5]";

/// The first reply of the worked example: an action.
pub const PROTO_EXCHANGE_2: &'static str =
    r#"## Observations:
- The given list to sort is [2, 3, 1, 4, 5].
- I need to sort this list in ascending order.
## Orientation:
- SandboxedPython can be used to sort the list.
- I need to use the Conclude Tool to terminate the task when I have the sorted list
- I need to provide the conclusion in plain text to the Conclude Tool.
## Decision:
- We can use the sorted() function of Python to sort the list.
## The ONLY Action:
```yaml
command: SandboxedPython
input:
  code: |
    lst = [2, 3, 1, 4, 5]
    sorted_list = sorted(lst)
    print(f"The sorted list is {sorted_list}")
```"#;

/// The result of the action of the worked example.
pub const PROTO_EXCHANGE_3: &'static str =
    r"# Action SandboxedPython result:
```yaml
stdout: |
  The sorted list is [1, 2, 3, 4, 5]
stderr: ''
```
";

/// The second reply of the worked example: the conclusion.
pub const PROTO_EXCHANGE_4: &'static str =
    r"## Observations:
- We needed to sort the list in ascending order.
- We have the result of the Action.
- We have the sorted list: [1, 2, 3, 4, 5].
## Orientation:
- I know the answer to the original question.
## Decision:
- Use the Conclude Tool to terminate the task with the sorted list.
## The ONLY Action:
```yaml
command: Conclude
input:
  original_question: |
    Sort in ascending order: [2, 3, 1, 4, 5]
  conclusion: |
    The ascending sorted list is [1, 2, 3, 4, 5].
```";

/// What the standard library's `Debug` writes for a text: the text between double
/// quotes, with its special characters escaped.
pub uninterp spec fn debug_quoted(text: Seq<char>) -> Seq<char>;

/// Formats a text with `{:?}`. Trusted: the result is what the standard library's
/// `Debug` for `str` writes.
#[verifier::external_body]
fn debug_quote(text: &str) -> (quoted: String)
    ensures
        quoted@ == debug_quoted(text@),
{
    format!("{:?}", text)
}

/// Whether a character is white space: one of the 25 characters with the Unicode
/// property `White_Space`.
pub open spec fn is_white_space(c: char) -> bool {
    ||| c == '\u{9}' || c == '\u{a}' || c == '\u{b}' || c == '\u{c}' || c == '\u{d}'
    ||| c == '\u{20}' || c == '\u{85}' || c == '\u{a0}' || c == '\u{1680}'
    ||| c == '\u{2000}' || c == '\u{2001}' || c == '\u{2002}' || c == '\u{2003}'
    ||| c == '\u{2004}' || c == '\u{2005}' || c == '\u{2006}' || c == '\u{2007}'
    ||| c == '\u{2008}' || c == '\u{2009}' || c == '\u{200a}'
    ||| c == '\u{2028}' || c == '\u{2029}' || c == '\u{202f}' || c == '\u{205f}'
    ||| c == '\u{3000}'
}

/// A text without the white space at its beginning.
pub open spec fn trimmed_start(text: Seq<char>) -> Seq<char>
    decreases text.len(),
{
    if text.len() > 0 && is_white_space(text[0]) {
        trimmed_start(text.drop_first())
    } else {
        text
    }
}

/// A text without the white space at its end.
pub open spec fn trimmed_end(text: Seq<char>) -> Seq<char>
    decreases text.len(),
{
    if text.len() > 0 && is_white_space(text.last()) {
        trimmed_end(text.drop_last())
    } else {
        text
    }
}

/// A text without the white space at its ends.
pub open spec fn trimmed(text: Seq<char>) -> Seq<char> {
    trimmed_end(trimmed_start(text))
}

/// Calls `str::trim`. Trusted: the result is the text without the white space at its
/// ends, white space being the characters with the Unicode property `White_Space`.
#[verifier::external_body]
fn trim(text: &str) -> (inner: &str)
    ensures
        inner@ == trimmed(text@),
{
    text.trim()
}

/// The text that `serde_yaml::to_string` writes for a list of tool descriptions, each
/// written as `llm_chain::tools::ToolDescription` is: its name, its description, the
/// context of its description, and its input and output formats, each format a
/// mapping from the keys of its parts to their purposes. Where it reports an error,
/// the message of the error.
pub uninterp spec fn descriptions_text(descriptions: Seq<ToolDescriptionView>) -> Result<
    Seq<char>,
    Seq<char>,
>;

/// What a list of descriptions stands for.
pub open spec fn description_views(descriptions: Seq<ToolDescription>) -> Seq<ToolDescriptionView> {
    descriptions.map_values(|d: ToolDescription| d@)
}

/// Calls `serde_yaml::to_string` on the descriptions, each turned into a
/// `llm_chain::tools::ToolDescription`. Trusted: the result is the text that this
/// function writes, or the message of the error that it reports.
#[verifier::external_body]
fn descriptions_yaml(descriptions: &Vec<ToolDescription>) -> (text: Result<String, String>)
    ensures
        crate::value::text_view(text) == descriptions_text(description_views(descriptions@)),
{
    let converted: Vec<llm_chain::tools::ToolDescription> = descriptions.iter().map(
        |d| {
            let input: Vec<llm_chain::tools::FormatPart> = d.input_format.parts.iter().map(
                |p| (p.key.as_str(), p.purpose.as_str()).into(),
            ).collect();
            let output: Vec<llm_chain::tools::FormatPart> = d.output_format.parts.iter().map(
                |p| (p.key.as_str(), p.purpose.as_str()).into(),
            ).collect();
            llm_chain::tools::ToolDescription::new(&d.name, &d.description, &d.description_context, input.into(), output.into())
        },
    ).collect();
    serde_yaml::to_string(&converted).map_err(|e| e.to_string())
}

/// Whether the bytes of one text come before those of another, or are the same,
/// in the order of a dictionary, looking at the bytes from a place on.
pub open spec fn bytes_le_from(a: Seq<u8>, b: Seq<u8>, i: int) -> bool
    decreases a.len() - i,
{
    if i < 0 || i >= a.len() {
        true
    } else if i >= b.len() {
        false
    } else if a[i] != b[i] {
        a[i] < b[i]
    } else {
        bytes_le_from(a, b, i + 1)
    }
}

/// The order of names: that of their bytes, as in a dictionary.
pub open spec fn name_le(a: Seq<char>, b: Seq<char>) -> bool {
    bytes_le_from(encode_utf8(a), encode_utf8(b), 0)
}

/// Of two texts one comes before the other, or they are the same.
pub proof fn lemma_bytes_le_total(a: Seq<u8>, b: Seq<u8>, i: int)
    requires
        0 <= i,
    ensures
        bytes_le_from(a, b, i) || bytes_le_from(b, a, i),
        bytes_le_from(a, a, i),
    decreases a.len() - i,
{
    if i < a.len() && i < b.len() && a[i] == b[i] {
        lemma_bytes_le_total(a, b, i + 1);
    }
    if i < a.len() {
        lemma_bytes_le_total(a, a, i + 1);
    }
}

/// What comes before a text comes before what the text comes before.
pub proof fn lemma_bytes_le_transitive(a: Seq<u8>, b: Seq<u8>, c: Seq<u8>, i: int)
    requires
        0 <= i,
        bytes_le_from(a, b, i),
        bytes_le_from(b, c, i),
    ensures
        bytes_le_from(a, c, i),
    decreases a.len() - i,
{
    if i < a.len() && a[i] == b[i] && b[i] == c[i] {
        lemma_bytes_le_transitive(a, b, c, i + 1);
    }
}

/// Whether a name comes before another, or is the same.
pub fn name_before(a: &str, b: &str) -> (before: bool)
    ensures
        before == name_le(a@, b@),
{
    let x = a.as_bytes();
    let y = b.as_bytes();
    let mut i: usize = 0;
    while i < x.len()
        invariant
            i <= x.len(),
            x@ == encode_utf8(a@),
            y@ == encode_utf8(b@),
            name_le(a@, b@) == bytes_le_from(x@, y@, i as int),
        decreases x.len() - i,
    {
        if i >= y.len() {
            return false;
        }
        if x[i] != y[i] {
            return x[i] < y[i];
        }
        i += 1;
    }
    true
}

/// Whether descriptions stand in the order of their names.
pub open spec fn sorted_by_name(descriptions: Seq<ToolDescription>) -> bool {
    forall|i: int, j: int|
        0 <= i < j < descriptions.len() ==> name_le(
            #[trigger] descriptions[i].name@,
            #[trigger] descriptions[j].name@,
        )
}

/// The place of a description whose name comes before those of all the others.
fn first_by_name(descriptions: &Vec<ToolDescription>) -> (best: usize)
    requires
        descriptions@.len() > 0,
    ensures
        best < descriptions@.len(),
        forall|j: int|
            0 <= j < descriptions@.len() ==> name_le(
                descriptions@[best as int].name@,
                #[trigger] descriptions@[j].name@,
            ),
{
    let mut best: usize = 0;
    let mut k: usize = 1;
    proof {
        lemma_bytes_le_total(
            encode_utf8(descriptions@[0].name@),
            encode_utf8(descriptions@[0].name@),
            0,
        );
    }
    while k < descriptions.len()
        invariant
            best < k <= descriptions@.len(),
            forall|j: int|
                0 <= j < k ==> name_le(
                    descriptions@[best as int].name@,
                    #[trigger] descriptions@[j].name@,
                ),
        decreases descriptions.len() - k,
    {
        if !name_before(descriptions[best].name.as_str(), descriptions[k].name.as_str()) {
            proof {
                let old_best = encode_utf8(descriptions@[best as int].name@);
                let new_best = encode_utf8(descriptions@[k as int].name@);
                lemma_bytes_le_total(old_best, new_best, 0);
                lemma_bytes_le_total(new_best, new_best, 0);
                assert forall|j: int| 0 <= j < k + 1 implies name_le(
                    descriptions@[k as int].name@,
                    #[trigger] descriptions@[j].name@,
                ) by {
                    if j < k {
                        lemma_bytes_le_transitive(
                            new_best,
                            old_best,
                            encode_utf8(descriptions@[j].name@),
                            0,
                        );
                    }
                }
            }
            best = k;
        }
        k += 1;
    }
    best
}

/// An empty list holds nothing, however often.
proof fn lemma_empty_multiset(descriptions: Seq<ToolDescription>)
    requires
        descriptions.len() == 0,
    ensures
        descriptions.to_multiset() == vstd::multiset::Multiset::<ToolDescription>::empty(),
{
    broadcast use vstd::multiset::group_multiset_axioms;

    vstd::seq_lib::to_multiset_len(descriptions);
    vstd::multiset::lemma_multiset_empty_len(descriptions.to_multiset());
    assert(descriptions.to_multiset() =~= vstd::multiset::Multiset::<ToolDescription>::empty());
}

/// Puts descriptions in the order of their names.
pub fn sort_by_name(descriptions: Vec<ToolDescription>) -> (sorted: Vec<ToolDescription>)
    ensures
        sorted_by_name(sorted@),
        sorted@.to_multiset() == descriptions@.to_multiset(),
{
    let mut rest = descriptions;
    let mut sorted: Vec<ToolDescription> = Vec::new();
    proof {
        lemma_empty_multiset(sorted@);
        assert(sorted@.to_multiset().add(rest@.to_multiset()) =~= rest@.to_multiset());
    }
    while rest.len() > 0
        invariant
            sorted@.to_multiset().add(rest@.to_multiset()) == descriptions@.to_multiset(),
            sorted_by_name(sorted@),
            forall|i: int, j: int|
                0 <= i < sorted@.len() && 0 <= j < rest@.len() ==> name_le(
                    #[trigger] sorted@[i].name@,
                    #[trigger] rest@[j].name@,
                ),
        decreases rest.len(),
    {
        let best = first_by_name(&rest);
        let ghost before = rest@;
        let ghost done = sorted@;
        let next = rest.remove(best);
        sorted.push(next);
        proof {
            broadcast use vstd::multiset::group_multiset_axioms;

            assert(rest@ == before.remove(best as int));
            assert(sorted@ == done.push(next));
            assert(before[best as int] == next);
            assert(before.contains(next));
            vstd::seq_lib::to_multiset_remove(before, best as int);
            vstd::seq_lib::to_multiset_contains(before, next);
            vstd::seq_lib::to_multiset_build(done, next);
            assert(sorted@.to_multiset().add(rest@.to_multiset()) =~= done.to_multiset().add(
                before.to_multiset(),
            ));
            assert forall|i: int, j: int|
                0 <= i < sorted@.len() && 0 <= j < rest@.len() implies name_le(
                #[trigger] sorted@[i].name@,
                #[trigger] rest@[j].name@,
            ) by {
                let place = if j < best {
                    j
                } else {
                    j + 1
                };
                assert(rest@[j] == before[place]);
                if i < done.len() {
                    assert(sorted@[i] == done[i]);
                }
            }
            assert forall|i: int, j: int| 0 <= i < j < sorted@.len() implies name_le(
                #[trigger] sorted@[i].name@,
                #[trigger] sorted@[j].name@,
            ) by {
                assert(sorted@[i] == done[i]);
                if j < done.len() {
                    assert(sorted@[j] == done[j]);
                } else {
                    assert(sorted@[j] == before[best as int]);
                }
            }
        }
    }
    proof {
        lemma_empty_multiset(rest@);
        assert(sorted@.to_multiset().add(rest@.to_multiset()) =~= sorted@.to_multiset());
    }
    sorted
}

/// Takes the descriptions out of a list of named descriptions.
fn descriptions_of(named: Vec<(String, ToolDescription)>) -> (descriptions: Vec<ToolDescription>)
    ensures
        descriptions@ == named@.map_values(|d: (String, ToolDescription)| d.1),
{
    let mut named = named;
    let ghost all = named@.map_values(|d: (String, ToolDescription)| d.1);
    let mut descriptions: Vec<ToolDescription> = Vec::new();
    while named.len() > 0
        invariant
            all == descriptions@ + named@.map_values(|d: (String, ToolDescription)| d.1),
        decreases named.len(),
    {
        let ghost before = named@;
        let next = named.remove(0);
        assert(named@ == before.drop_first());
        descriptions.push(next.1);
    }
    descriptions
}

/// The text that describes a question to the model.
pub open spec fn task_prompt(task: Seq<char>) -> Seq<char> {
    "# Your turn\nOriginal question: "@ + task
        + "\nDo you have the answer? Use the Conclude Tool to terminate the task.\nObservations, Orientation, Decision, The ONLY Action?"@
}

/// The text that hands the result of an action to the model.
pub open spec fn success_prompt(tool_name: Seq<char>, result: Seq<char>, task: Seq<char>) -> Seq<
    char,
> {
    "# Action "@ + tool_name + " result: \n```yaml\n"@ + result + "```\n"@ + task_prompt(task)
}

/// The text that names an error of a tool, as `{:?}` writes it.
pub open spec fn fault_text(fault: ToolFault) -> Seq<char> {
    match fault {
        ToolFault::ToolNotFound(name) => "ToolNotFound("@ + debug_quoted(name) + ")"@,
        ToolFault::ToolInvocationFailed(reason) => "ToolInvocationFailed("@ + debug_quoted(reason)
            + ")"@,
        ToolFault::InvalidYaml(reason) => "InvalidYaml("@ + debug_quoted(reason) + ")"@,
        ToolFault::InvalidInput(reason) => "InvalidInput("@ + debug_quoted(reason) + ")"@,
    }
}

/// The text that tells the model that an action failed, and why.
pub open spec fn failure_prompt(tool_name: Seq<char>, fault: ToolFault, task: Seq<char>) -> Seq<
    char,
> {
    "# Action "@ + tool_name + " failed with:\n"@ + fault_text(fault)
        + "\nWhat was incorrect in previous response?\n"@ + task_prompt(task)
}

/// The text that names an error of a tool, as `{:?}` writes it.
pub fn debug_text(e: &ToolUseError) -> (text: String)
    ensures
        text@ == fault_text(e@),
{
    let (mut text, detail) = match e {
        ToolUseError::ToolNotFound(name) => ("ToolNotFound(".to_owned(), name),
        ToolUseError::ToolInvocationFailed(reason) => ("ToolInvocationFailed(".to_owned(), reason),
        ToolUseError::InvalidYaml(reason) => ("InvalidYaml(".to_owned(), reason),
        ToolUseError::InvalidInput(reason) => ("InvalidInput(".to_owned(), reason),
    };
    let quoted = debug_quote(detail.as_str());
    text.append(quoted.as_str());
    text.append(")");
    text
}

/// Task-related prompts
#[derive(Debug)]
pub struct Task {
    task: String,
}

impl View for Task {
    type V = Seq<char>;

    closed spec fn view(&self) -> Seq<char> {
        self.task@
    }
}

impl Task {
    /// The prompts for a question
    pub fn new(task: &str) -> (t: Task)
        ensures
            t@ == task@,
    {
        Task { task: task.to_owned() }
    }

    /// The question
    pub fn question(&self) -> (task: &str)
        ensures
            task@ == self@,
    {
        self.task.as_str()
    }

    /// Create the prompt for the task
    pub fn to_prompt(&self) -> (prompt: String)
        ensures
            prompt@ == task_prompt(self@),
    {
        let mut prompt = "# Your turn\nOriginal question: ".to_owned();
        prompt.append(self.task.as_str());
        prompt.append(
            "\nDo you have the answer? Use the Conclude Tool to terminate the task.\nObservations, Orientation, Decision, The ONLY Action?",
        );
        prompt
    }

    /// The prompt for the task
    pub fn to_string(&self) -> (prompt: String)
        ensures
            prompt@ == task_prompt(self@),
    {
        self.to_prompt()
    }

    /// Create the prompt to react to an action failure
    pub fn action_failed_prompt(&self, tool_name: &str, e: &ToolUseError) -> (prompt: String)
        ensures
            prompt@ == failure_prompt(tool_name@, e@, self@),
    {
        let mut prompt = "# Action ".to_owned();
        prompt.append(tool_name);
        prompt.append(" failed with:\n");
        prompt.append(debug_text(e).as_str());
        prompt.append("\nWhat was incorrect in previous response?\n");
        prompt.append(self.to_prompt().as_str());
        prompt
    }

    /// Create the prompt to react to an action success
    pub fn action_success_prompt(&self, tool_name: &str, result: &str) -> (prompt: String)
        ensures
            prompt@ == success_prompt(tool_name@, result@, self@),
    {
        let mut prompt = "# Action ".to_owned();
        prompt.append(tool_name);
        prompt.append(" result: \n```yaml\n");
        prompt.append(result);
        prompt.append("```\n");
        prompt.append(self.to_prompt().as_str());
        prompt
    }
}

/// Create the 'system' prompt to describe the roles.
pub fn create_system_prompt() -> (prompt: String)
    ensures
        prompt@ == SYSTEM_PROMPT@,
{
    SYSTEM_PROMPT.to_owned()
}

/// Create the prompt for the task
pub fn build_task_prompt(task: &str) -> (t: Task)
    ensures
        t@ == task@,
{
    Task::new(task)
}

/// Whether a text is the prompt that describes the given tools to the model: the
/// heading, then the descriptions as YAML, in the order of their names.
pub open spec fn is_tool_description(text: Seq<char>, descriptions: Seq<ToolDescription>) -> bool {
    exists|sorted: Seq<ToolDescription>|
        {
            &&& sorted_by_name(sorted)
            &&& sorted.to_multiset() == descriptions.to_multiset()
            &&& descriptions_text(description_views(sorted)) == Ok::<Seq<char>, Seq<char>>(
                text.skip(TOOL_PREFIX@.len() as int),
            )
            &&& text.take(TOOL_PREFIX@.len() as int) == TOOL_PREFIX@
        }
}

/// Whether the given tools cannot be described to the model, because their
/// descriptions in the order of their names cannot be written as YAML, for the given
/// reason.
pub open spec fn no_tool_description(reason: Seq<char>, descriptions: Seq<ToolDescription>) -> bool {
    exists|sorted: Seq<ToolDescription>|
        {
            &&& sorted_by_name(sorted)
            &&& sorted.to_multiset() == descriptions.to_multiset()
            &&& descriptions_text(description_views(sorted)) == Err::<Seq<char>, Seq<char>>(reason)
        }
}

/// The prompt that describes the given tools: the heading, then the descriptions as
/// YAML, in the order of their names.
///
/// Fails where the descriptions cannot be written as YAML, with the reason.
pub fn tool_description_prompt(descriptions: Vec<ToolDescription>) -> (prompt: Result<
    String,
    String,
>)
    ensures
        match prompt {
            Ok(text) => is_tool_description(text@, descriptions@),
            Err(reason) => no_tool_description(reason@, descriptions@),
        },
{
    let sorted = sort_by_name(descriptions);
    match descriptions_yaml(&sorted) {
        Ok(yaml) => {
            let mut prompt = TOOL_PREFIX.to_owned();
            prompt.append(yaml.as_str());
            proof {
                assert(prompt@.skip(TOOL_PREFIX@.len() as int) == yaml@);
                assert(prompt@.take(TOOL_PREFIX@.len() as int) == TOOL_PREFIX@);
            }
            Ok(prompt)
        },
        Err(reason) => Err(reason),
    }
}

/// The descriptions of a list of named descriptions.
pub open spec fn unnamed(named: Seq<(String, ToolDescription)>) -> Seq<ToolDescription> {
    named.map_values(|d: (String, ToolDescription)| d.1)
}

/// Whether a text is a prompt that describes the tools of a toolbox to the model: the
/// heading, then descriptions as YAML, in the order of their names; one for each
/// name under which the toolbox holds a tool, given by the tool that is described
/// under that name.
pub open spec fn describes(text: Seq<char>, toolbox: Toolbox) -> bool {
    exists|named: Seq<(String, ToolDescription)>|
        toolbox.self_described(named) && is_tool_description(text, #[trigger] unnamed(named))
}

/// Whether the tools of a toolbox cannot be described to the model for the given
/// reason: descriptions that the tools give of themselves, one for each name under
/// which the toolbox holds a tool, cannot be written as YAML in the order of their
/// names, and the reason is the message of the error that says so.
pub open spec fn cannot_describe(reason: Seq<char>, toolbox: Toolbox) -> bool {
    exists|named: Seq<(String, ToolDescription)>|
        toolbox.self_described(named) && no_tool_description(reason, #[trigger] unnamed(named))
}

/// Create the prompt describing the tools of a toolbox, as the tools describe
/// themselves when they are asked
///
/// Fails where the descriptions cannot be written as YAML, with the reason.
pub fn create_tool_description(toolbox: &Toolbox) -> (prompt: Result<String, String>)
    ensures
        match prompt {
            Ok(text) => describes(text@, *toolbox),
            Err(reason) => cannot_describe(reason@, *toolbox),
        },
{
    let named = toolbox.describe();
    let ghost names = named@;
    let descriptions = descriptions_of(named);
    assert(descriptions@ == unnamed(names));
    let prompt = tool_description_prompt(descriptions);
    prompt
}

/// The prompt that describes the tools and how to use them, for the text that
/// describes the tools: what the agent is, the format of a reply and that text,
/// without the white space at the ends.
pub open spec fn warm_up(tool_prompt: Seq<char>) -> Seq<char> {
    trimmed(PREFIX@ + FORMAT@ + tool_prompt)
}

/// The prompt that describes the tools and how to use them, for the text that
/// describes the tools
pub fn tool_warm_up(tool_prompt: &str) -> (prompt: String)
    ensures
        prompt@ == warm_up(tool_prompt@),
{
    let mut prompt = PREFIX.to_owned();
    prompt.append(FORMAT);
    prompt.append(tool_prompt);
    trim(prompt.as_str()).to_owned()
}

/// Whether a text is a prompt that describes the tools of a toolbox and how to use
/// them.
pub open spec fn is_warm_up(text: Seq<char>, toolbox: Toolbox) -> bool {
    exists|tool_prompt: Seq<char>|
        describes(tool_prompt, toolbox) && text == #[trigger] warm_up(tool_prompt)
}

/// Create the prompt describing the tools and how to use them
///
/// Fails where the descriptions cannot be written as YAML, with the reason.
pub fn create_tool_warm_up(toolbox: &Toolbox) -> (prompt: Result<String, String>)
    ensures
        match prompt {
            Ok(text) => is_warm_up(text@, *toolbox),
            Err(reason) => cannot_describe(reason@, *toolbox),
        },
{
    match create_tool_description(toolbox) {
        Ok(tool_prompt) => {
            let text = tool_warm_up(tool_prompt.as_str());
            assert(text@ == warm_up(tool_prompt@));
            Ok(text)
        },
        Err(reason) => Err(reason),
    }
}

/// Whether a chat history is another to which the pinned messages were added that
/// describe the tools of a toolbox.
pub open spec fn seeded(
    after: crate::context::HistoryState,
    before: crate::context::HistoryState,
    toolbox: Toolbox,
) -> bool {
    exists|warm_up_prompt: Seq<char>|
        {
            &&& is_warm_up(warm_up_prompt, toolbox)
            &&& after == before.add_prompts(#[trigger] preamble(warm_up_prompt))
            &&& crate::context::token_count(before.model, before.prompt + preamble(warm_up_prompt))
                is Some
        }
}

/// Whether the pinned messages that describe the tools of a toolbox cannot be added
/// to a chat history, because the tokens of the pinned messages that it would then
/// hold cannot be counted.
pub open spec fn uncountable(before: crate::context::HistoryState, toolbox: Toolbox) -> bool {
    exists|warm_up_prompt: Seq<char>|
        {
            &&& is_warm_up(warm_up_prompt, toolbox)
            &&& crate::context::token_count(
                before.model,
                before.prompt + #[trigger] preamble(warm_up_prompt),
            ) is None
        }
}

/// The pinned messages: the persona, the warm-up with the tools and the format of a
/// reply, its acknowledgment, and a worked example of a question, an action, its
/// result and the conclusion.
pub open spec fn preamble(warm_up_prompt: Seq<char>) -> Seq<crate::context::Message> {
    seq![
        crate::context::Message { role: Role::System, content: SYSTEM_PROMPT@ },
        crate::context::Message { role: Role::User, content: warm_up_prompt },
        crate::context::Message { role: Role::Assistant, content: UNDERSTOOD@ },
        crate::context::Message { role: Role::User, content: task_prompt(WARMUP_QUESTION@) },
        crate::context::Message { role: Role::Assistant, content: PROTO_EXCHANGE_2@ },
        crate::context::Message {
            role: Role::User,
            content: PROTO_EXCHANGE_3@ + task_prompt(WARMUP_QUESTION@),
        },
        crate::context::Message { role: Role::Assistant, content: PROTO_EXCHANGE_4@ },
    ]
}

/// The pinned messages for a warm-up prompt.
pub fn preamble_prompts(warm_up_prompt: String) -> (prompts: Vec<(Role, String)>)
    ensures
        crate::context::prompt_messages(prompts@) == preamble(warm_up_prompt@),
{
    let warmup_task = Task::new(WARMUP_QUESTION);
    let mut result = PROTO_EXCHANGE_3.to_owned();
    result.append(warmup_task.to_prompt().as_str());
    let mut prompts: Vec<(Role, String)> = Vec::new();
    prompts.push((Role::System, create_system_prompt()));
    prompts.push((Role::User, warm_up_prompt));
    prompts.push((Role::Assistant, UNDERSTOOD.to_owned()));
    prompts.push((Role::User, warmup_task.to_prompt()));
    prompts.push((Role::Assistant, PROTO_EXCHANGE_2.to_owned()));
    prompts.push((Role::User, result));
    prompts.push((Role::Assistant, PROTO_EXCHANGE_4.to_owned()));
    assert(crate::context::prompt_messages(prompts@) == preamble(warm_up_prompt@));
    prompts
}

/// Why the pinned messages could not be added to a chat history.
#[derive(Debug, PartialEq)]
pub enum PromptError {
    /// The descriptions of the tools cannot be written as YAML
    ToolDescription(String),
    /// The chat history did not take the messages
    ChatHistory(Error),
}

/// Prompt manager
pub struct Manager {
    toolbox: Rc<Toolbox>,
}

impl Manager {
    /// Create a new prompt manager
    pub fn new(toolbox: Rc<Toolbox>) -> (manager: Self)
        ensures
            manager.toolbox() == toolbox,
    {
        Self { toolbox }
    }

    /// The toolbox whose tools the prompts describe
    pub closed spec fn toolbox(&self) -> Rc<Toolbox> {
        self.toolbox
    }

    /// Create the prompt describing the tools
    pub fn create_tool_description(&self) -> (prompt: Result<String, String>)
        ensures
            match prompt {
                Ok(text) => describes(text@, *self.toolbox()),
                Err(reason) => cannot_describe(reason@, *self.toolbox()),
            },
    {
        create_tool_description(&self.toolbox)
    }

    /// Create the prompt describing the tools and how to use them
    pub fn create_tool_warm_up(&self) -> (prompt: Result<String, String>)
        ensures
            match prompt {
                Ok(text) => is_warm_up(text@, *self.toolbox()),
                Err(reason) => cannot_describe(reason@, *self.toolbox()),
            },
    {
        create_tool_warm_up(&self.toolbox)
    }

    /// Create the prompt for the task
    pub fn build_task_prompt(&self, task: &str) -> (t: Task)
        ensures
            t@ == task@,
    {
        Task::new(task)
    }

    /// Create the 'system' prompt to describe the roles.
    pub fn create_system_prompt(&self) -> (prompt: String)
        ensures
            prompt@ == SYSTEM_PROMPT@,
    {
        create_system_prompt()
    }

    /// Adds the pinned messages to a chat history: the persona, the warm-up with the
    /// tools of the toolbox, its acknowledgment and the worked example.
    ///
    /// Where the tools cannot be described or the messages cannot be counted, the
    /// history is left as it was.
    pub fn populate_chat_history(&self, chat_history: &mut ChatHistory) -> (r: Result<
        (),
        PromptError,
    >)
        ensures
            match r {
                Ok(_) => seeded(final(chat_history)@, old(chat_history)@, *self.toolbox()),
                Err(_) => final(chat_history)@ == old(chat_history)@,
            },
            r matches Err(PromptError::ToolDescription(reason)) ==> cannot_describe(
                reason@,
                *self.toolbox(),
            ),
            r matches Err(PromptError::ChatHistory(e)) ==> e == Error::TokenCount && uncountable(
                old(chat_history)@,
                *self.toolbox(),
            ),
            old(chat_history)@.wf() ==> final(chat_history)@.wf(),
    {
        match self.create_tool_warm_up() {
            Ok(warm_up_prompt) => {
                let ghost text = warm_up_prompt@;
                let prompts = preamble_prompts(warm_up_prompt);
                match chat_history.add_prompts(prompts.as_slice()) {
                    Ok(_) => {
                        assert(chat_history@ == old(chat_history)@.add_prompts(preamble(text)));
                        Ok(())
                    },
                    Err(e) => {
                        assert(crate::context::token_count(
                            old(chat_history)@.model,
                            old(chat_history)@.prompt + preamble(text),
                        ) is None);
                        Err(PromptError::ChatHistory(e))
                    },
                }
            },
            Err(reason) => Err(PromptError::ToolDescription(reason)),
        }
    }
}

} // verus!
