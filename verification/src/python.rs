//! What the tool that runs Python code decides before the code runs: whether the
//! code is accepted, and the code that is put in front of it so that it can invoke
//! the other tools by their names.
use crate::tools::{
    Describe, Format, FormatPart, ToolDescription, ToolDescriptionView, ToolFault, ToolUseError,
};
use vstd::prelude::*;

verus! {

/// The input of the Python tool
#[derive(Debug, PartialEq)]
pub struct PythonToolInput {
    /// The Python code to execute.
    pub code: String,
}

/// The output of the Python tool
#[derive(Debug, PartialEq)]
pub struct PythonToolOutput {
    /// The stdout of the executed Python code.
    pub stdout: String,
    /// The stderr output of the Python code execution.
    pub stderr: String,
}

/// The format of the input of the Python tool.
pub open spec fn python_input_format() -> Seq<(Seq<char>, Seq<char>)> {
    seq![("code"@, "The Python code to execute. MANDATORY"@)]
}

/// The format of the output of the Python tool.
pub open spec fn python_output_format() -> Seq<(Seq<char>, Seq<char>)> {
    seq![
        ("stdout"@, "The stdout of the executed Python code."@),
        ("stderr"@, "The stderr output of the Python code execution."@),
    ]
}

impl Describe for PythonToolInput {
    fn describe() -> (format: Format)
        ensures
            format@ == python_input_format(),
    {
        let mut parts: Vec<FormatPart> = Vec::new();
        parts.push(FormatPart::new("code", "The Python code to execute. MANDATORY"));
        let format = Format::new(parts);
        assert(format@ == python_input_format());
        format
    }
}

impl Describe for PythonToolOutput {
    fn describe() -> (format: Format)
        ensures
            format@ == python_output_format(),
    {
        let mut parts: Vec<FormatPart> = Vec::new();
        parts.push(FormatPart::new("stdout", "The stdout of the executed Python code."));
        parts.push(FormatPart::new("stderr", "The stderr output of the Python code execution."));
        let format = Format::new(parts);
        assert(format@ == python_output_format());
        format
    }
}

/// The name of the Python tool.
pub const PYTHON_NAME: &'static str = "SandboxedPython";

/// What the Python tool is for.
pub const PYTHON_DESCRIPTION: &'static str =
    "A tool that executes sandboxed Python code. Only stdout and stderr are captured and made available. ";

/// How to use the Python tool.
pub const PYTHON_CONTEXT: &'static str =
    r#"Use this to transform data. To use other Tools from here: `input = {...}; output = tools.tool_name(**input); print(output["field_xxx"])`. The `output` is a object. open|exec|eval are forbidden."#;

/// The description of the Python tool.
pub fn python_description() -> (description: ToolDescription)
    ensures
        description@ == (ToolDescriptionView {
            name: PYTHON_NAME@,
            description: PYTHON_DESCRIPTION@,
            description_context: PYTHON_CONTEXT@,
            input_format: python_input_format(),
            output_format: python_output_format(),
        }),
{
    ToolDescription::new(
        PYTHON_NAME,
        PYTHON_DESCRIPTION,
        PYTHON_CONTEXT,
        PythonToolInput::describe(),
        PythonToolOutput::describe(),
    )
}

/// The pattern of the words that code may not hold.
pub const FORBIDDEN_KEYWORDS: &'static str = "open|exec|eval";

/// Whether a word stands somewhere in a text.
pub open spec fn contains_text(text: Seq<char>, word: Seq<char>) -> bool {
    exists|i: int|
        0 <= i && i + word.len() <= text.len() && #[trigger] text.subrange(i, i + word.len())
            == word
}

/// Whether a text holds one of the forbidden words.
pub open spec fn is_forbidden(code: Seq<char>) -> bool {
    contains_text(code, "open"@) || contains_text(code, "exec"@) || contains_text(code, "eval"@)
}

/// Whether `regex::Regex::is_match` finds a match of a pattern somewhere in a text;
/// `None` where `regex::Regex::new` refuses the pattern.
pub uninterp spec fn regex_match(pattern: Seq<char>, text: Seq<char>) -> Option<bool>;

/// Calls `regex::Regex::new` on the pattern and `is_match` on the text. Trusted: the
/// result is what these give; and for the pattern `open|exec|eval`, which is accepted,
/// a match is found where one of the three words stands somewhere in the text.
#[verifier::external_body]
fn regex_is_match(pattern: &str, text: &str) -> (found: Option<bool>)
    ensures
        found == regex_match(pattern@, text@),
        pattern@ == FORBIDDEN_KEYWORDS@ ==> found == Some(is_forbidden(text@)),
{
    regex::Regex::new(pattern).ok().map(|re| re.is_match(text))
}

/// Whether code holds one of the forbidden words: `open`, `exec` or `eval`.
pub fn has_forbidden_keyword(code: &str) -> (forbidden: bool)
    ensures
        forbidden == is_forbidden(code@),
{
    match regex_is_match(FORBIDDEN_KEYWORDS, code) {
        Some(found) => found,
        None => true,
    }
}

/// The cases in which the name of a tool is written as the name of a method.
#[derive(Clone, Copy, Debug, PartialEq, Eq, Structural)]
pub enum Case {
    /// Lower case words joined by `_`
    Snake,
    /// Capitalized words joined without anything between them
    Pascal,
}

/// What `convert_case::Casing::to_case` gives for a text and a case.
pub uninterp spec fn cased(text: Seq<char>, case: Case) -> Seq<char>;

/// Calls `convert_case::Casing::to_case`. Trusted: the result is what that function
/// gives for the text and the case.
#[verifier::external_body]
fn to_case(text: &str, case: Case) -> (converted: String)
    ensures
        converted@ == cased(text@, case),
{
    match case {
        Case::Snake => convert_case::Casing::to_case(&text, convert_case::Case::Snake),
        Case::Pascal => convert_case::Casing::to_case(&text, convert_case::Case::Pascal),
    }
}

/// Texts joined by a separator.
pub open spec fn joined(parts: Seq<Seq<char>>, separator: Seq<char>) -> Seq<char>
    decreases parts.len(),
{
    if parts.len() == 0 {
        Seq::empty()
    } else if parts.len() == 1 {
        parts[0]
    } else {
        joined(parts.drop_last(), separator) + separator + parts.last()
    }
}

/// The parameters of the method of a tool: the keys of its input.
pub open spec fn parameters(format: Seq<(Seq<char>, Seq<char>)>) -> Seq<char> {
    joined(format.map_values(|p: (Seq<char>, Seq<char>)| p.0), ", "@)
}

/// The entries of the dictionary that the method of a tool hands to the tool: each
/// key of its input with the parameter of that name.
pub open spec fn arguments(format: Seq<(Seq<char>, Seq<char>)>) -> Seq<char> {
    joined(format.map_values(|p: (Seq<char>, Seq<char>)| "\""@ + p.0 + "\": "@ + p.0), ", "@)
}

/// The signature of the method of a tool: nothing where the tool has no input.
pub open spec fn signature(format: Seq<(Seq<char>, Seq<char>)>) -> Seq<char> {
    if parameters(format).len() == 0 {
        Seq::empty()
    } else {
        "(self, "@ + parameters(format) + ")"@
    }
}

/// The method by which Python code invokes a tool.
pub open spec fn method(
    method_name: Seq<char>,
    tool_name: Seq<char>,
    format: Seq<(Seq<char>, Seq<char>)>,
) -> Seq<char> {
    "    def "@ + method_name + signature(format) + ":\n        return self.toolbox.invoke(\""@
        + tool_name + "\", {"@ + arguments(format) + "})\n"@
}

/// The methods of the tools: for each tool one under its name in snake case and one
/// under its name in Pascal case.
pub open spec fn methods(tools: Seq<(String, ToolDescription)>) -> Seq<char>
    decreases tools.len(),
{
    if tools.len() == 0 {
        Seq::empty()
    } else {
        let name = tools.last().0@;
        let format = tools.last().1@.input_format;
        methods(tools.drop_last()) + method(cased(name, Case::Snake), name, format) + method(
            cased(name, Case::Pascal),
            name,
            format,
        )
    }
}

/// The beginning of the class of the tools.
pub const CLASS_HEAD: &'static str =
    "class Tools:\n    def __init__(self, toolbox):\n        self.toolbox = toolbox\n";

/// The end of the class of the tools, and the object of that class.
pub const CLASS_TAIL: &'static str =
    "    def list(self):\n        return self.toolbox.list()\ntools = Tools(toolbox)\n";

/// The Python code that gives access to the tools: a class with two methods for each
/// tool and one that lists the tools, and an object of that class.
pub open spec fn tools_class(tools: Seq<(String, ToolDescription)>) -> Seq<char> {
    CLASS_HEAD@ + methods(tools) + CLASS_TAIL@
}

/// The keys of a format, or the entries of the dictionary for them, joined by commas.
fn join_parts(format: &Format, as_arguments: bool) -> (text: String)
    ensures
        text@ == if as_arguments {
            arguments(format@)
        } else {
            parameters(format@)
        },
{
    let ghost parts = if as_arguments {
        format@.map_values(|p: (Seq<char>, Seq<char>)| "\""@ + p.0 + "\": "@ + p.0)
    } else {
        format@.map_values(|p: (Seq<char>, Seq<char>)| p.0)
    };
    let mut text = String::new();
    let mut i: usize = 0;
    while i < format.parts.len()
        invariant
            i <= format.parts.len(),
            parts.len() == format.parts@.len(),
            forall|j: int|
                0 <= j < parts.len() ==> #[trigger] parts[j] == if as_arguments {
                    "\""@ + format.parts@[j].key@ + "\": "@ + format.parts@[j].key@
                } else {
                    format.parts@[j].key@
                },
            text@ == joined(parts.take(i as int), ", "@),
        decreases format.parts.len() - i,
    {
        let ghost before = text@;
        if i > 0 {
            text.append(", ");
        }
        if as_arguments {
            text.append("\"");
            text.append(format.parts[i].key.as_str());
            text.append("\": ");
        }
        text.append(format.parts[i].key.as_str());
        proof {
            let next = parts.take(i as int + 1);
            assert(next.drop_last() == parts.take(i as int));
            assert(next.last() == parts[i as int]);
            if i == 0 {
                assert(before == Seq::<char>::empty());
                assert(text@ == parts[0]);
            } else {
                assert(text@ == before + ", "@ + parts[i as int]);
            }
        }
        i += 1;
    }
    assert(parts.take(i as int) == parts);
    text
}

/// The method by which Python code invokes a tool.
fn method_code(method_name: &str, tool_name: &str, format: &Format) -> (code: String)
    ensures
        code@ == method(method_name@, tool_name@, format@),
{
    let inputs = join_parts(format, false);
    let mut code = "    def ".to_owned();
    code.append(method_name);
    if inputs.as_str().as_bytes().len() > 0 {
        code.append("(self, ");
        code.append(inputs.as_str());
        code.append(")");
    } else {
        proof {
            vstd::utf8::encode_utf8_decode_utf8(inputs@);
            assert(inputs@ == Seq::<char>::empty());
            assert(code@ + Seq::<char>::empty() == code@);
        }
    }
    proof {
        if inputs@.len() == 0 {
            assert(vstd::utf8::encode_utf8(inputs@) == Seq::<u8>::empty());
        }
    }
    code.append(":\n        return self.toolbox.invoke(\"");
    code.append(tool_name);
    code.append("\", {");
    code.append(join_parts(format, true).as_str());
    code.append("})\n");
    code
}

/// The Python code that gives access to the tools: a class with two methods for each
/// tool, one under its name in snake case and one under its name in Pascal case, and
/// one that lists the tools, and an object of that class.
pub fn tools_class_code(tools: &Vec<(String, ToolDescription)>) -> (code: String)
    ensures
        code@ == tools_class(tools@),
{
    let mut code = CLASS_HEAD.to_owned();
    let mut i: usize = 0;
    while i < tools.len()
        invariant
            i <= tools.len(),
            code@ == CLASS_HEAD@ + methods(tools@.take(i as int)),
        decreases tools.len() - i,
    {
        let name = tools[i].0.as_str();
        let format = &tools[i].1.input_format;
        // in snake case
        code.append(method_code(to_case(name, Case::Snake).as_str(), name, format).as_str());
        // in Pascal case
        code.append(method_code(to_case(name, Case::Pascal).as_str(), name, format).as_str());
        proof {
            let next = tools@.take(i as int + 1);
            assert(next.drop_last() == tools@.take(i as int));
            assert(next.last() == tools@[i as int]);
        }
        i += 1;
    }
    assert(tools@.take(i as int) == tools@);
    // add list function
    code.append(CLASS_TAIL);
    code
}

/// The error for code that holds a forbidden word.
pub open spec fn forbidden_code() -> ToolFault {
    ToolFault::ToolInvocationFailed(
        "Python code contains forbidden keywords such as open|exec|eval"@,
    )
}

/// The code that is run for the code of the model: the code that gives access to
/// the given tools, an empty line and the code of the model.
pub open spec fn prepared(tools: Seq<(String, ToolDescription)>, code: Seq<char>) -> Seq<char> {
    tools_class(tools) + "\n"@ + code
}

/// The code that is run for the code of the model, for the descriptions of the tools
/// that the code may invoke, if there are any.
///
/// Fails where the code of the model holds a forbidden word.
pub fn prepare_code(tools: Option<&Vec<(String, ToolDescription)>>, code: &str) -> (r: Result<
    String,
    ToolUseError,
>)
    ensures
        is_forbidden(code@) ==> (r matches Err(e) && e@ == forbidden_code()),
        !is_forbidden(code@) ==> (r matches Ok(text) && text@ == match tools {
            Some(tools) => prepared(tools@, code@),
            None => code@,
        }),
{
    if has_forbidden_keyword(code) {
        return Err(
            ToolUseError::ToolInvocationFailed(
                "Python code contains forbidden keywords such as open|exec|eval".to_owned(),
            ),
        );
    }
    match tools {
        // dynamically add functions to a `tools` module
        Some(tools) => {
            // prepend the tool class code to the user code
            let mut text = tools_class_code(tools);
            text.append("\n");
            text.append(code);
            Ok(text)
        },
        None => Ok(code.to_owned()),
    }
}

/// The error for code whose execution failed, with the message of the interpreter.
pub fn execution_failed(message: &str) -> (e: ToolUseError)
    ensures
        e@ == ToolFault::ToolInvocationFailed("Python code execution failed: "@ + message@),
{
    let mut reason = "Python code execution failed: ".to_owned();
    reason.append(message);
    ToolUseError::ToolInvocationFailed(reason)
}

} // verus!
