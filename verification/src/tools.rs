//! Tools, the toolbox that holds them in three tiers, and the rules by which a
//! name is resolved to a tool.
//!
//! A simple tool takes a value and gives one. An advanced tool is also handed the
//! simple and the terminal tools of the toolbox and may invoke them, never an
//! advanced one, so that a tool is never more than one call away from the task. A
//! terminal tool can end the task.
use crate::invocation::{find_invocation, Invocation, InvocationError};
use crate::value::{same_text, to_yaml_string, yaml_text, Node, Yaml};
use vstd::prelude::*;

verus! {

/// Error while using a tool
#[derive(Debug, PartialEq)]
pub enum ToolUseError {
    /// Tool not found
    ToolNotFound(String),
    /// Tool invocation failed
    ToolInvocationFailed(String),
    /// Invalid YAML
    InvalidYaml(String),
    /// Invalid input
    InvalidInput(String),
}

/// An error of a tool as specifications see it.
pub enum ToolFault {
    ToolNotFound(Seq<char>),
    ToolInvocationFailed(Seq<char>),
    InvalidYaml(Seq<char>),
    InvalidInput(Seq<char>),
}

impl View for ToolUseError {
    type V = ToolFault;

    open spec fn view(&self) -> ToolFault {
        match self {
            ToolUseError::ToolNotFound(name) => ToolFault::ToolNotFound(name@),
            ToolUseError::ToolInvocationFailed(reason) => ToolFault::ToolInvocationFailed(reason@),
            ToolUseError::InvalidYaml(reason) => ToolFault::InvalidYaml(reason@),
            ToolUseError::InvalidInput(reason) => ToolFault::InvalidInput(reason@),
        }
    }
}

impl ToolFault {
    /// The message that describes the error.
    pub open spec fn message(self) -> Seq<char> {
        match self {
            ToolFault::ToolNotFound(name) => "Tool not found: "@ + name,
            ToolFault::ToolInvocationFailed(reason) => "Tool invocation failed: "@ + reason,
            ToolFault::InvalidYaml(_) => "Invalid YAML"@,
            ToolFault::InvalidInput(reason) => "Invalid input: "@ + reason,
        }
    }
}

impl ToolUseError {
    /// The message that describes the error.
    pub fn to_string(&self) -> (s: String)
        ensures
            s@ == self@.message(),
    {
        match self {
            ToolUseError::ToolNotFound(name) => {
                let mut s = "Tool not found: ".to_owned();
                s.append(name.as_str());
                s
            },
            ToolUseError::ToolInvocationFailed(reason) => {
                let mut s = "Tool invocation failed: ".to_owned();
                s.append(reason.as_str());
                s
            },
            ToolUseError::InvalidYaml(_) => "Invalid YAML".to_owned(),
            ToolUseError::InvalidInput(reason) => {
                let mut s = "Invalid input: ".to_owned();
                s.append(reason.as_str());
                s
            },
        }
    }
}

/// The error that stands for a reply in which no invocation was found.
pub open spec fn fault_of(error: InvocationError) -> ToolFault {
    match error {
        InvocationError::ExtractionFailure(reason) => ToolFault::InvalidInput(reason@),
        InvocationError::ForbiddenField => ToolFault::ToolInvocationFailed(error.message()),
    }
}

impl ToolUseError {
    /// The error that stands for a reply in which no invocation was found.
    pub fn from_invocation_error(error: InvocationError) -> (e: ToolUseError)
        ensures
            e@ == fault_of(error),
    {
        match error {
            InvocationError::ExtractionFailure(reason) => ToolUseError::InvalidInput(reason),
            InvocationError::ForbiddenField => ToolUseError::ToolInvocationFailed(
                error.to_string(),
            ),
        }
    }
}

/// One part of the input or the output of a tool.
#[derive(Debug)]
pub struct FormatPart {
    /// The name of the part
    pub key: String,
    /// What the part is for
    pub purpose: String,
}

impl FormatPart {
    /// Creates a new `FormatPart` with the given key and purpose.
    pub fn new(key: &str, purpose: &str) -> (part: FormatPart)
        ensures
            part.key@ == key@,
            part.purpose@ == purpose@,
    {
        FormatPart { key: key.to_owned(), purpose: purpose.to_owned() }
    }
}

/// The format of the input or the output of a tool.
#[derive(Debug)]
pub struct Format {
    /// The parts, in order
    pub parts: Vec<FormatPart>,
}

impl View for Format {
    type V = Seq<(Seq<char>, Seq<char>)>;

    open spec fn view(&self) -> Seq<(Seq<char>, Seq<char>)> {
        self.parts@.map_values(|p: FormatPart| (p.key@, p.purpose@))
    }
}

impl Format {
    /// Creates a new `Format` with the given parts.
    pub fn new(parts: Vec<FormatPart>) -> (format: Format)
        ensures
            format.parts == parts,
    {
        Format { parts }
    }
}

/// A type that says how it is written down as the input or the output of a tool.
pub trait Describe {
    /// The format of the type
    fn describe() -> Format;
}

/// The description of a tool: its name, what it is for, how to use it, and the
/// formats of its input and output.
#[derive(Debug)]
pub struct ToolDescription {
    /// The name, by which the tool is invoked
    pub name: String,
    /// What the tool is for
    pub description: String,
    /// How to use the tool
    pub description_context: String,
    /// The format of the input
    pub input_format: Format,
    /// The format of the output
    pub output_format: Format,
}

/// The description of a tool as specifications see it.
pub struct ToolDescriptionView {
    pub name: Seq<char>,
    pub description: Seq<char>,
    pub description_context: Seq<char>,
    pub input_format: Seq<(Seq<char>, Seq<char>)>,
    pub output_format: Seq<(Seq<char>, Seq<char>)>,
}

impl View for ToolDescription {
    type V = ToolDescriptionView;

    open spec fn view(&self) -> ToolDescriptionView {
        ToolDescriptionView {
            name: self.name@,
            description: self.description@,
            description_context: self.description_context@,
            input_format: self.input_format@,
            output_format: self.output_format@,
        }
    }
}

impl ToolDescription {
    /// Creates a new `ToolDescription` with the given name, description, context, and formats.
    pub fn new(
        name: &str,
        description: &str,
        description_context: &str,
        input_format: Format,
        output_format: Format,
    ) -> (d: ToolDescription)
        ensures
            d@ == (ToolDescriptionView {
                name: name@,
                description: description@,
                description_context: description_context@,
                input_format: input_format@,
                output_format: output_format@,
            }),
    {
        ToolDescription {
            name: name.to_owned(),
            description: description.to_owned(),
            description_context: description_context.to_owned(),
            input_format,
            output_format,
        }
    }
}

/// Something meant to become a [`Tool`] - description
pub trait ProtoToolDescribe {
    /// the description of the tool
    fn description(&self) -> ToolDescription;
}

/// Something meant to become a [`Tool`] - invocation
pub trait ProtoToolInvoke {
    /// Invoke the tool
    fn invoke(&self, input: Yaml) -> Result<Yaml, ToolUseError>;
}

/// A Tool - the most basic kind of tools. See [`AdvancedTool`] and
/// [`TerminalTool`] for more.
pub trait Tool {
    /// the description of the tool
    fn description(&self) -> ToolDescription;

    /// Invoke the tool
    fn invoke(&self, input: Yaml) -> Result<Yaml, ToolUseError>;
}

/// What is meant to become a tool is a tool: it is described as it describes itself,
/// and invoking it gives what its invocation gives.
impl<T: ProtoToolDescribe + ProtoToolInvoke> Tool for T {
    fn description(&self) -> (description: ToolDescription)
        ensures
            call_ensures(<T as ProtoToolDescribe>::description, (self,), description),
    {
        ProtoToolDescribe::description(self)
    }

    fn invoke(&self, input: Yaml) -> (result: Result<Yaml, ToolUseError>)
        ensures
            call_ensures(<T as ProtoToolInvoke>::invoke, (self, input), result),
    {
        ProtoToolInvoke::invoke(self, input)
    }
}

/// A termination message
///
/// This is the message that is sent to the user when a chain of exchanges
/// terminates.
#[derive(Debug, PartialEq)]
pub struct TerminationMessage {
    /// The final answer, as text.
    pub conclusion: String,
    /// The original question that was asked to the user.
    pub original_question: String,
}

/// A tool that can end a chain of exchanges
pub trait TerminalTool {
    /// the description of the tool
    fn description(&self) -> ToolDescription;

    /// Invoke the tool
    fn invoke(&self, input: Yaml) -> Result<Yaml, ToolUseError>;

    /// done flag. A tool that does not say otherwise is never done.
    fn is_done(&self) -> (done: bool)
        default_ensures
            !done,
    {
        false
    }

    /// Take the done flag. A tool that does not say otherwise has no termination
    /// message to give.
    fn take_done(&self) -> (message: Option<TerminationMessage>)
        default_ensures
            message is None,
    {
        None
    }
}

/// Whether a terminal tool that is asked for its termination message can give this
/// answer.
pub open spec fn takes_done<T: TerminalTool + ?Sized>(
    tool: &T,
    answer: Option<TerminationMessage>,
) -> bool {
    call_ensures(<T as TerminalTool>::take_done, (tool,), answer)
}

/// Asks a terminal tool for its termination message.
fn take_done_of<T: TerminalTool + ?Sized>(tool: &T) -> (answer: Option<TerminationMessage>)
    ensures
        takes_done(tool, answer),
{
    tool.take_done()
}

/// A tool that can invoke the simple and the terminal tools of a [`Toolbox`]
pub trait AdvancedTool {
    /// the description of the tool
    fn description(&self) -> ToolDescription;

    /// Invoke the tool
    fn invoke(&self, input: Yaml) -> Result<Yaml, ToolUseError>;

    /// Invoke the tool with the tools that it may invoke in turn
    fn invoke_with_toolbox(&self, toolbox: &BasicToolbox, input: Yaml) -> Result<
        Yaml,
        ToolUseError,
    >;
}

/// Whether a tool that is asked to describe itself can give this description.
pub open spec fn describes_tool<T: Tool + ?Sized>(tool: &T, description: ToolDescription) -> bool {
    call_ensures(<T as Tool>::description, (tool,), description)
}

/// Whether a terminal tool that is asked to describe itself can give this
/// description.
pub open spec fn describes_terminal_tool<T: TerminalTool + ?Sized>(
    tool: &T,
    description: ToolDescription,
) -> bool {
    call_ensures(<T as TerminalTool>::description, (tool,), description)
}

/// Whether an advanced tool that is asked to describe itself can give this
/// description.
pub open spec fn describes_advanced_tool<T: AdvancedTool + ?Sized>(
    tool: &T,
    description: ToolDescription,
) -> bool {
    call_ensures(<T as AdvancedTool>::description, (tool,), description)
}

/// Asks a tool to describe itself.
fn description_of_tool<T: Tool + ?Sized>(tool: &T) -> (description: ToolDescription)
    ensures
        describes_tool(tool, description),
{
    tool.description()
}

/// Asks a terminal tool to describe itself.
fn description_of_terminal_tool<T: TerminalTool + ?Sized>(tool: &T) -> (description:
    ToolDescription)
    ensures
        describes_terminal_tool(tool, description),
{
    tool.description()
}

/// Asks an advanced tool to describe itself.
fn description_of_advanced_tool<T: AdvancedTool + ?Sized>(tool: &T) -> (description:
    ToolDescription)
    ensures
        describes_advanced_tool(tool, description),
{
    tool.description()
}

/// Whether a tool that is invoked with this input can give this result.
pub open spec fn invokes_tool<T: Tool + ?Sized>(
    tool: &T,
    input: Yaml,
    result: Result<Yaml, ToolUseError>,
) -> bool {
    call_ensures(<T as Tool>::invoke, (tool, input), result)
}

/// Whether a terminal tool that is invoked with this input can give this result.
pub open spec fn invokes_terminal_tool<T: TerminalTool + ?Sized>(
    tool: &T,
    input: Yaml,
    result: Result<Yaml, ToolUseError>,
) -> bool {
    call_ensures(<T as TerminalTool>::invoke, (tool, input), result)
}

/// Whether an advanced tool that is invoked with this input, and handed these tools
/// to invoke in turn, can give this result.
pub open spec fn invokes_advanced_tool<T: AdvancedTool + ?Sized>(
    tool: &T,
    toolbox: &BasicToolbox,
    input: Yaml,
    result: Result<Yaml, ToolUseError>,
) -> bool {
    call_ensures(<T as AdvancedTool>::invoke_with_toolbox, (tool, toolbox, input), result)
}

/// Invokes a tool.
fn invoke_tool_of<T: Tool + ?Sized>(tool: &T, input: Yaml) -> (result: Result<Yaml, ToolUseError>)
    ensures
        invokes_tool(tool, input, result),
{
    tool.invoke(input)
}

/// Invokes a terminal tool.
fn invoke_terminal_tool_of<T: TerminalTool + ?Sized>(tool: &T, input: Yaml) -> (result: Result<
    Yaml,
    ToolUseError,
>)
    ensures
        invokes_terminal_tool(tool, input, result),
{
    tool.invoke(input)
}

/// Invokes an advanced tool and hands it the tools that it may invoke in turn.
fn invoke_advanced_tool_of<T: AdvancedTool + ?Sized>(
    tool: &T,
    toolbox: &BasicToolbox,
    input: Yaml,
) -> (result: Result<Yaml, ToolUseError>)
    ensures
        invokes_advanced_tool(tool, toolbox, input, result),
{
    tool.invoke_with_toolbox(toolbox, input)
}

/// A tool under the name it was added with.
struct Slot<T> {
    name: String,
    tool: T,
}

/// A simple tool under the name it was added with.
type SimpleSlot = Slot<Box<dyn Tool>>;

/// A terminal tool under the name it was added with.
type TerminalSlot = Slot<Box<dyn TerminalTool>>;

/// An advanced tool under the name it was added with.
type AdvancedSlot = Slot<Box<dyn AdvancedTool>>;

/// Puts a tool under a name. The tool is of any type: where a boxed tool is handed
/// to a function that asks for a boxed tool, the verifier no longer knows it to be
/// the same tool.
fn slot_of<T>(name: String, tool: T) -> (slot: Slot<T>)
    ensures
        slot.name == name,
        slot.tool == tool,
{
    Slot { name, tool }
}

/// Calls `Box::new` on a simple tool and makes the box a trait object, which is put
/// under a name. Trusted: the trait object is the tool, that is, a call of one of its
/// methods is a call of that method of the tool: invoked, or asked to describe itself,
/// it can give what the tool can give, and nothing else.
#[verifier::external_body]
fn simple_slot_of<T: Tool + 'static>(name: String, tool: T) -> (slot: SimpleSlot)
    ensures
        slot.name == name,
        forall|input: Yaml, result: Result<Yaml, ToolUseError>| #[trigger]
            invokes_tool(&*slot.tool, input, result) == invokes_tool(&tool, input, result),
        forall|description: ToolDescription| #[trigger]
            describes_tool(&*slot.tool, description) == describes_tool(&tool, description),
{
    Slot { name, tool: Box::new(tool) }
}

/// Calls `Box::new` on a terminal tool and makes the box a trait object, which is put
/// under a name. Trusted: the trait object is the tool, that is, a call of one of its
/// methods is a call of that method of the tool: invoked, asked to describe itself or
/// asked for its termination message, it can give what the tool can give, and nothing
/// else.
#[verifier::external_body]
fn terminal_slot_of<T: TerminalTool + 'static>(name: String, tool: T) -> (slot: TerminalSlot)
    ensures
        slot.name == name,
        forall|input: Yaml, result: Result<Yaml, ToolUseError>| #[trigger]
            invokes_terminal_tool(&*slot.tool, input, result) == invokes_terminal_tool(
                &tool,
                input,
                result,
            ),
        forall|description: ToolDescription| #[trigger]
            describes_terminal_tool(&*slot.tool, description) == describes_terminal_tool(
                &tool,
                description,
            ),
        forall|answer: Option<TerminationMessage>| #[trigger]
            takes_done(&*slot.tool, answer) == takes_done(&tool, answer),
{
    Slot { name, tool: Box::new(tool) }
}

/// Calls `Box::new` on an advanced tool and makes the box a trait object, which is
/// put under a name. Trusted: the trait object is the tool, that is, a call of one of
/// its methods is a call of that method of the tool: invoked with tools handed to it,
/// or asked to describe itself, it can give what the tool can give, and nothing else.
#[verifier::external_body]
fn advanced_slot_of<T: AdvancedTool + 'static>(name: String, tool: T) -> (slot: AdvancedSlot)
    ensures
        slot.name == name,
        forall|basic: BasicToolbox, input: Yaml, result: Result<Yaml, ToolUseError>| #[trigger]
            invokes_advanced_tool(&*slot.tool, &basic, input, result) == invokes_advanced_tool(
                &tool,
                &basic,
                input,
                result,
            ),
        forall|description: ToolDescription| #[trigger]
            describes_advanced_tool(&*slot.tool, description) == describes_advanced_tool(
                &tool,
                description,
            ),
{
    Slot { name, tool: Box::new(tool) }
}

/// Whether a place is that of the first tool under a name.
spec fn is_first<T>(slots: Seq<Slot<T>>, name: Seq<char>, i: int) -> bool {
    &&& 0 <= i < slots.len()
    &&& slots[i].name@ == name
    &&& forall|j: int| 0 <= j < i ==> (#[trigger] slots[j]).name@ != name
}

/// The tiers of a toolbox.
#[derive(Clone, Copy, Debug, PartialEq, Eq, Structural)]
pub enum Tier {
    /// The tools that are handed the simple and the terminal tools
    Advanced,
    /// The tools that can end the task
    Terminal,
    /// The other tools
    Simple,
}

/// The tools that an advanced tool may invoke, as specifications see them: the
/// names of the tools, tier by tier, in the order in which they were first added.
pub struct BasicToolboxView {
    pub terminal: Seq<Seq<char>>,
    pub simple: Seq<Seq<char>>,
}

/// A toolbox as specifications see it: the names of its tools, tier by tier, in
/// the order in which they were first added.
pub struct ToolboxView {
    pub basic: BasicToolboxView,
    pub advanced: Seq<Seq<char>>,
}

/// The names of a tier after a tool was added under a name: a tool of that name
/// is replaced, and the names stay as they are; else the name is added at the end.
pub open spec fn register(names: Seq<Seq<char>>, name: Seq<char>) -> Seq<Seq<char>> {
    if names.contains(name) {
        names
    } else {
        names.push(name)
    }
}

impl BasicToolboxView {
    /// No tools.
    pub open spec fn empty() -> Self {
        BasicToolboxView { terminal: Seq::empty(), simple: Seq::empty() }
    }

    /// No name stands twice in a tier.
    pub open spec fn wf(self) -> bool {
        &&& self.terminal.no_duplicates()
        &&& self.simple.no_duplicates()
    }

    /// The tier in which a name is found when an advanced tool invokes a tool: the
    /// terminal tools come first, then the simple ones.
    pub open spec fn resolve(self, name: Seq<char>) -> Option<Tier> {
        if self.terminal.contains(name) {
            Some(Tier::Terminal)
        } else if self.simple.contains(name) {
            Some(Tier::Simple)
        } else {
            None
        }
    }

    /// The tools after a simple tool was added under a name.
    pub open spec fn add_tool(self, name: Seq<char>) -> Self {
        BasicToolboxView { simple: register(self.simple, name), ..self }
    }

    /// The tools after a terminal tool was added under a name.
    pub open spec fn add_terminal_tool(self, name: Seq<char>) -> Self {
        BasicToolboxView { terminal: register(self.terminal, name), ..self }
    }
}

impl ToolboxView {
    /// A toolbox without tools.
    pub open spec fn empty() -> Self {
        ToolboxView { basic: BasicToolboxView::empty(), advanced: Seq::empty() }
    }

    /// No name stands twice in a tier.
    pub open spec fn wf(self) -> bool {
        &&& self.basic.wf()
        &&& self.advanced.no_duplicates()
    }

    /// The tier in which a name is found when the task invokes a tool: the advanced
    /// tools come first, then the terminal ones, then the simple ones.
    pub open spec fn resolve(self, name: Seq<char>) -> Option<Tier> {
        if self.advanced.contains(name) {
            Some(Tier::Advanced)
        } else {
            self.basic.resolve(name)
        }
    }

    /// The tier in which a name is found when an advanced tool invokes a tool: the
    /// terminal tools come first, then the simple ones. The advanced tools are not
    /// looked at.
    pub open spec fn resolve_simple(self, name: Seq<char>) -> Option<Tier> {
        self.basic.resolve(name)
    }

    /// The toolbox after a simple tool was added under a name.
    pub open spec fn add_tool(self, name: Seq<char>) -> Self {
        ToolboxView { basic: self.basic.add_tool(name), ..self }
    }

    /// The toolbox after a terminal tool was added under a name.
    pub open spec fn add_terminal_tool(self, name: Seq<char>) -> Self {
        ToolboxView { basic: self.basic.add_terminal_tool(name), ..self }
    }

    /// The toolbox after an advanced tool was added under a name.
    pub open spec fn add_advanced_tool(self, name: Seq<char>) -> Self {
        ToolboxView { advanced: register(self.advanced, name), ..self }
    }
}

/// Adding a name to a tier leaves no name twice in it.
pub proof fn lemma_register_no_duplicates(names: Seq<Seq<char>>, name: Seq<char>)
    requires
        names.no_duplicates(),
    ensures
        register(names, name).no_duplicates(),
        register(names, name).contains(name),
        forall|other: Seq<char>| names.contains(other) ==> register(names, name).contains(other),
{
    let after = register(names, name);
    if !names.contains(name) {
        assert(after[names.len() as int] == name);
        assert forall|other: Seq<char>| names.contains(other) implies after.contains(other) by {
            let i = choose|i: int| 0 <= i < names.len() && names[i] == other;
            assert(after[i] == other);
        }
    }
}

/// A name that is the name of an advanced tool is resolved to the advanced tier
/// when the task invokes it, whatever the other tiers hold, and to no advanced
/// tool when an advanced tool invokes it: then the name is resolved as if the
/// toolbox had no advanced tools.
pub proof fn lemma_dispatch_precedence(toolbox: ToolboxView, name: Seq<char>)
    ensures
        toolbox.advanced.contains(name) ==> toolbox.resolve(name) == Some(Tier::Advanced),
        toolbox.resolve_simple(name) != Some(Tier::Advanced),
        toolbox.resolve_simple(name) == (ToolboxView { advanced: Seq::empty(), ..toolbox }).resolve(
            name,
        ),
        toolbox.advanced.contains(name) && !toolbox.basic.terminal.contains(name)
            && !toolbox.basic.simple.contains(name) ==> toolbox.resolve_simple(name) is None,
        !toolbox.advanced.contains(name) ==> toolbox.resolve(name) == toolbox.resolve_simple(name),
{
    let without = ToolboxView { advanced: Seq::empty(), ..toolbox };
    assert(!without.advanced.contains(name));
}

/// The tools that an advanced tool may invoke: the terminal and the simple ones.
pub struct BasicToolbox {
    /// The terminal tools - the one that can terminate a chain of exchanges
    terminal_tools: Vec<TerminalSlot>,
    /// The tools - the other tools
    tools: Vec<SimpleSlot>,
}

impl View for BasicToolbox {
    type V = BasicToolboxView;

    closed spec fn view(&self) -> BasicToolboxView {
        BasicToolboxView {
            terminal: self.terminal_tools@.map_values(|s: TerminalSlot| s.name@),
            simple: self.tools@.map_values(|s: SimpleSlot| s.name@),
        }
    }
}

/// Toolbox
///
/// a [`Toolbox`] is a collection of [`Tool`], [`TerminalTool`] and
/// [`AdvancedTool`].
pub struct Toolbox {
    /// The terminal tools and the other tools
    basic: BasicToolbox,
    /// The advanced tools - the one that can invoke another tool (not an
    /// advanced one)
    advanced_tools: Vec<AdvancedSlot>,
}

impl View for Toolbox {
    type V = ToolboxView;

    closed spec fn view(&self) -> ToolboxView {
        ToolboxView {
            basic: self.basic@,
            advanced: self.advanced_tools@.map_values(|s: AdvancedSlot| s.name@),
        }
    }
}

/// The first place of a name among the tools of a tier.
fn find<T>(slots: &Vec<Slot<T>>, name: &str) -> (place: Option<usize>)
    ensures
        match place {
            Some(i) => is_first(slots@, name@, i as int),
            None => !names_of(slots@).contains(name@),
        },
{
    let mut i: usize = 0;
    while i < slots.len()
        invariant
            i <= slots.len(),
            forall|j: int| 0 <= j < i ==> slots@[j].name@ != name@,
        decreases slots.len() - i,
    {
        if same_text(slots[i].name.as_str(), name) {
            return Some(i);
        }
        i += 1;
    }
    None
}

/// Puts a tool under its name among the tools of a tier: in the place of the first
/// tool under that name, or, where there is none, after the others. Gives the place.
fn put<T>(slots: &mut Vec<Slot<T>>, slot: Slot<T>) -> (place: Ghost<int>)
    ensures
        put_at(old(slots)@, final(slots)@, slot.name@, place@),
        final(slots)@[place@] == slot,
        forall|j: int| 0 <= j < place@ ==> (#[trigger] old(slots)@[j]).name@ != slot.name@,
        names_of(final(slots)@) == register(names_of(old(slots)@), slot.name@),
{
    let ghost before = slots@;
    let ghost name = slot.name@;
    match find(slots, slot.name.as_str()) {
        Some(i) => {
            slots[i] = slot;
            assert(names_of(before)[i as int] == name);
            assert(names_of(slots@) == names_of(before));
            Ghost(i as int)
        },
        None => {
            assert forall|j: int| 0 <= j < before.len() implies (#[trigger] before[j]).name@
                != name by {
                assert(names_of(before)[j] == before[j].name@);
            }
            slots.push(slot);
            assert(names_of(slots@) == names_of(before).push(name));
            Ghost(before.len() as int)
        },
    }
}

impl Default for BasicToolbox {
    fn default() -> (toolbox: Self)
        ensures
            toolbox@ == BasicToolboxView::empty(),
    {
        BasicToolbox::new()
    }
}

impl Default for Toolbox {
    fn default() -> (toolbox: Self)
        ensures
            toolbox@ == ToolboxView::empty(),
    {
        Toolbox::new()
    }
}

impl BasicToolbox {
    /// No name stands twice among the terminal tools, nor among the simple tools.
    #[verifier::type_invariant]
    spec fn no_name_twice(self) -> bool {
        &&& names_of(self.terminal_tools@).no_duplicates()
        &&& names_of(self.tools@).no_duplicates()
    }

    /// No tools
    pub fn new() -> (toolbox: BasicToolbox)
        ensures
            toolbox@ == BasicToolboxView::empty(),
    {
        let toolbox = BasicToolbox { terminal_tools: Vec::new(), tools: Vec::new() };
        assert(toolbox@.terminal == Seq::<Seq<char>>::empty());
        assert(toolbox@.simple == Seq::<Seq<char>>::empty());
        toolbox
    }

    /// Puts a simple tool under its name.
    fn put_simple(&mut self, slot: SimpleSlot)
        ensures
            final(self).with_simple(*old(self), slot.name@, &*slot.tool),
    {
        proof {
            use_type_invariant(&*self);
        }
        let mut tools: Vec<SimpleSlot> = Vec::new();
        std::mem::swap(&mut tools, &mut self.tools);
        let place = put(&mut tools, slot);
        proof {
            lemma_register_no_duplicates(names_of(old(self).tools@), slot.name@);
        }
        self.tools = tools;
        proof {
            let name = slot.name@;
            let before = old(self).tools@;
            let after = self.tools@;
            let k = place@;
            assert(self@.simple == register(old(self)@.simple, name));
            assert(old(self)@.wf() && self@.wf());
            assert forall|other: Seq<char>, input: Yaml, result: Result<Yaml, ToolUseError>|
                other != name implies #[trigger] self.invokes_simple(other, input, result) == old(
                self,
            ).invokes_simple(other, input, result) by {
                lemma_put_others(
                    before,
                    after,
                    name,
                    k,
                    other,
                    |tool: Box<dyn Tool>| invokes_tool(&*tool, input, result),
                );
            }
            assert forall|other: Seq<char>, description: ToolDescription|
                other != name implies #[trigger] self.describes_simple(other, description) == old(
                self,
            ).describes_simple(other, description) by {
                lemma_put_others(
                    before,
                    after,
                    name,
                    k,
                    other,
                    |tool: Box<dyn Tool>| describes_tool(&*tool, description),
                );
            }
            assert forall|other: Seq<char>, input: Yaml, result: Result<Yaml, ToolUseError>|
                other != name implies #[trigger] self.dispatches(other, input, result) == old(
                self,
            ).dispatches(other, input, result) by {
                lemma_put_at(before, after, name, k, other);
            }
            assert forall|input: Yaml, result: Result<Yaml, ToolUseError>| #[trigger]
                self.invokes_simple(name, input, result) == invokes_tool(
                    &*slot.tool,
                    input,
                    result,
                ) by {
                lemma_put_name(
                    before,
                    after,
                    name,
                    k,
                    |tool: Box<dyn Tool>| invokes_tool(&*tool, input, result),
                );
            }
            assert forall|description: ToolDescription| #[trigger]
                self.describes_simple(name, description) == describes_tool(
                    &*slot.tool,
                    description,
                ) by {
                lemma_put_name(
                    before,
                    after,
                    name,
                    k,
                    |tool: Box<dyn Tool>| describes_tool(&*tool, description),
                );
            }
        }
    }

    /// Add a tool under a name. A tool that was added under that name before is
    /// replaced, and the other tools are as they were.
    pub fn register_tool(&mut self, name: String, tool: Box<dyn Tool>)
        ensures
            final(self).with_simple(*old(self), name@, &*tool),
            final(self)@ == old(self)@.add_tool(name@),
            final(self)@.wf(),
    {
        let slot = slot_of(name, tool);
        self.put_simple(slot);
    }

    /// Puts a terminal tool under its name.
    fn put_terminal(&mut self, slot: TerminalSlot)
        ensures
            final(self).with_terminal(*old(self), slot.name@, &*slot.tool),
    {
        proof {
            use_type_invariant(&*self);
        }
        let mut tools: Vec<TerminalSlot> = Vec::new();
        std::mem::swap(&mut tools, &mut self.terminal_tools);
        let place = put(&mut tools, slot);
        proof {
            lemma_register_no_duplicates(names_of(old(self).terminal_tools@), slot.name@);
        }
        self.terminal_tools = tools;
        proof {
            let name = slot.name@;
            let before = old(self).terminal_tools@;
            let after = self.terminal_tools@;
            let k = place@;
            assert(self@.terminal == register(old(self)@.terminal, name));
            assert(old(self)@.wf() && self@.wf());
            assert forall|other: Seq<char>, input: Yaml, result: Result<Yaml, ToolUseError>|
                other != name implies #[trigger] self.invokes_terminal(other, input, result) == old(
                self,
            ).invokes_terminal(other, input, result) by {
                lemma_put_others(
                    before,
                    after,
                    name,
                    k,
                    other,
                    |tool: Box<dyn TerminalTool>| invokes_terminal_tool(&*tool, input, result),
                );
            }
            assert forall|other: Seq<char>, description: ToolDescription|
                other != name implies #[trigger] self.describes_terminal(other, description) == old(
                self,
            ).describes_terminal(other, description) by {
                lemma_put_others(
                    before,
                    after,
                    name,
                    k,
                    other,
                    |tool: Box<dyn TerminalTool>| describes_terminal_tool(&*tool, description),
                );
            }
            assert forall|other: Seq<char>, answer: Option<TerminationMessage>|
                other != name implies #[trigger] self.done_under(other, answer) == old(
                self,
            ).done_under(other, answer) by {
                lemma_put_others(
                    before,
                    after,
                    name,
                    k,
                    other,
                    |tool: Box<dyn TerminalTool>| takes_done(&*tool, answer),
                );
            }
            assert forall|other: Seq<char>, input: Yaml, result: Result<Yaml, ToolUseError>|
                other != name implies #[trigger] self.dispatches(other, input, result) == old(
                self,
            ).dispatches(other, input, result) by {
                lemma_put_at(before, after, name, k, other);
            }
            assert forall|input: Yaml, result: Result<Yaml, ToolUseError>| #[trigger]
                self.invokes_terminal(name, input, result) == invokes_terminal_tool(
                    &*slot.tool,
                    input,
                    result,
                ) by {
                lemma_put_name(
                    before,
                    after,
                    name,
                    k,
                    |tool: Box<dyn TerminalTool>| invokes_terminal_tool(&*tool, input, result),
                );
            }
            assert forall|description: ToolDescription| #[trigger]
                self.describes_terminal(name, description) == describes_terminal_tool(
                    &*slot.tool,
                    description,
                ) by {
                lemma_put_name(
                    before,
                    after,
                    name,
                    k,
                    |tool: Box<dyn TerminalTool>| describes_terminal_tool(&*tool, description),
                );
            }
            assert forall|answer: Option<TerminationMessage>| #[trigger]
                self.done_under(name, answer) == takes_done(&*slot.tool, answer) by {
                lemma_put_name(
                    before,
                    after,
                    name,
                    k,
                    |tool: Box<dyn TerminalTool>| takes_done(&*tool, answer),
                );
            }
        }
    }

    /// Add a terminal tool under a name. A terminal tool that was added under that
    /// name before is replaced, and the other tools are as they were.
    pub fn register_terminal_tool(&mut self, name: String, tool: Box<dyn TerminalTool>)
        ensures
            final(self).with_terminal(*old(self), name@, &*tool),
            final(self)@ == old(self)@.add_terminal_tool(name@),
            final(self)@.wf(),
    {
        let slot = slot_of(name, tool);
        self.put_terminal(slot);
    }

    /// The tier in which a name is found
    pub fn resolve(&self, name: &str) -> (tier: Option<Tier>)
        ensures
            tier == self@.resolve(name@),
    {
        match find(&self.terminal_tools, name) {
            Some(i) => {
                assert(self@.terminal[i as int] == name@);
                Some(Tier::Terminal)
            },
            None => match find(&self.tools, name) {
                Some(i) => {
                    assert(self@.simple[i as int] == name@);
                    Some(Tier::Simple)
                },
                None => None,
            },
        }
    }
}

impl Toolbox {
    /// No name stands twice among the advanced tools.
    #[verifier::type_invariant]
    spec fn no_name_twice(self) -> bool {
        names_of(self.advanced_tools@).no_duplicates()
    }

    /// A toolbox without tools
    pub fn new() -> (toolbox: Toolbox)
        ensures
            toolbox@ == ToolboxView::empty(),
    {
        let toolbox = Toolbox { basic: BasicToolbox::new(), advanced_tools: Vec::new() };
        assert(toolbox@.advanced == Seq::<Seq<char>>::empty());
        toolbox
    }

    /// The tools that an advanced tool may invoke
    pub fn basic(&self) -> (basic: &BasicToolbox)
        ensures
            *basic == self.basic_tools(),
            basic@ == self@.basic,
    {
        &self.basic
    }

    /// Puts a simple tool under its name.
    fn put_simple(&mut self, slot: SimpleSlot)
        ensures
            final(self).with_simple(*old(self), slot.name@, &*slot.tool),
    {
        proof {
            use_type_invariant(&*self);
        }
        let mut basic = BasicToolbox::new();
        std::mem::swap(&mut basic, &mut self.basic);
        basic.put_simple(slot);
        self.basic = basic;
    }

    /// Puts a terminal tool under its name.
    fn put_terminal(&mut self, slot: TerminalSlot)
        ensures
            final(self).with_terminal(*old(self), slot.name@, &*slot.tool),
    {
        proof {
            use_type_invariant(&*self);
        }
        let mut basic = BasicToolbox::new();
        std::mem::swap(&mut basic, &mut self.basic);
        basic.put_terminal(slot);
        self.basic = basic;
    }

    /// Puts an advanced tool under its name.
    fn put_advanced(&mut self, slot: AdvancedSlot)
        ensures
            final(self).with_advanced(*old(self), slot.name@, &*slot.tool),
    {
        proof {
            use_type_invariant(&*self);
            use_type_invariant(&self.basic);
        }
        let mut tools: Vec<AdvancedSlot> = Vec::new();
        std::mem::swap(&mut tools, &mut self.advanced_tools);
        let place = put(&mut tools, slot);
        proof {
            lemma_register_no_duplicates(names_of(old(self).advanced_tools@), slot.name@);
        }
        self.advanced_tools = tools;
        proof {
            let name = slot.name@;
            let before = old(self).advanced_tools@;
            let after = self.advanced_tools@;
            let k = place@;
            assert(self@.advanced == register(old(self)@.advanced, name));
            assert(old(self)@.wf() && self@.wf());
            assert forall|
                other: Seq<char>,
                basic: BasicToolbox,
                input: Yaml,
                result: Result<Yaml, ToolUseError>,
            |
                other != name implies #[trigger] self.invokes_advanced_with(
                basic,
                other,
                input,
                result,
            ) == old(self).invokes_advanced_with(basic, other, input, result) by {
                lemma_put_others(
                    before,
                    after,
                    name,
                    k,
                    other,
                    |tool: Box<dyn AdvancedTool>|
                        invokes_advanced_tool(&*tool, &basic, input, result),
                );
            }
            assert forall|other: Seq<char>, description: ToolDescription|
                other != name implies #[trigger] self.describes_advanced(other, description) == old(
                self,
            ).describes_advanced(other, description) by {
                lemma_put_others(
                    before,
                    after,
                    name,
                    k,
                    other,
                    |tool: Box<dyn AdvancedTool>| describes_advanced_tool(&*tool, description),
                );
            }
            assert forall|other: Seq<char>, input: Yaml, result: Result<Yaml, ToolUseError>|
                other != name implies #[trigger] self.dispatches(other, input, result) == old(
                self,
            ).dispatches(other, input, result) by {
                lemma_put_at(before, after, name, k, other);
                lemma_put_others(
                    before,
                    after,
                    name,
                    k,
                    other,
                    |tool: Box<dyn AdvancedTool>|
                        invokes_advanced_tool(&*tool, &self.basic, input, result),
                );
            }
            assert forall|
                basic: BasicToolbox,
                input: Yaml,
                result: Result<Yaml, ToolUseError>,
            | #[trigger]
                self.invokes_advanced_with(basic, name, input, result) == invokes_advanced_tool(
                    &*slot.tool,
                    &basic,
                    input,
                    result,
                ) by {
                lemma_put_name(
                    before,
                    after,
                    name,
                    k,
                    |tool: Box<dyn AdvancedTool>|
                        invokes_advanced_tool(&*tool, &basic, input, result),
                );
            }
            assert forall|description: ToolDescription| #[trigger]
                self.describes_advanced(name, description) == describes_advanced_tool(
                    &*slot.tool,
                    description,
                ) by {
                lemma_put_name(
                    before,
                    after,
                    name,
                    k,
                    |tool: Box<dyn AdvancedTool>| describes_advanced_tool(&*tool, description),
                );
            }
        }
    }

    /// Add a tool under a name. A tool that was added under that name before is
    /// replaced, and the other tools are as they were.
    pub fn register_tool(&mut self, name: String, tool: Box<dyn Tool>)
        ensures
            final(self).with_simple(*old(self), name@, &*tool),
            final(self)@ == old(self)@.add_tool(name@),
            final(self)@.wf(),
    {
        let slot = slot_of(name, tool);
        self.put_simple(slot);
    }

    /// Add a terminal tool under a name. A terminal tool that was added under that
    /// name before is replaced, and the other tools are as they were.
    pub fn register_terminal_tool(&mut self, name: String, tool: Box<dyn TerminalTool>)
        ensures
            final(self).with_terminal(*old(self), name@, &*tool),
            final(self)@ == old(self)@.add_terminal_tool(name@),
            final(self)@.wf(),
    {
        let slot = slot_of(name, tool);
        self.put_terminal(slot);
    }

    /// Add an advanced tool under a name. An advanced tool that was added under that
    /// name before is replaced, and the other tools are as they were.
    pub fn register_advanced_tool(&mut self, name: String, tool: Box<dyn AdvancedTool>)
        ensures
            final(self).with_advanced(*old(self), name@, &*tool),
            final(self)@ == old(self)@.add_advanced_tool(name@),
            final(self)@.wf(),
    {
        let slot = slot_of(name, tool);
        self.put_advanced(slot);
    }

    /// Add a terminal tool
    ///
    /// A [`TerminalTool`] can terminate a chain of exchanges. The tool is added under
    /// the name that its description gives. A terminal tool that was added under that
    /// name before is replaced, and the other tools are as they were.
    pub fn add_terminal_tool<T: TerminalTool + 'static>(&mut self, tool: T)
        ensures
            exists|description: ToolDescription| #[trigger]
                describes_terminal_tool(&tool, description) && final(self).with_terminal(
                    *old(self),
                    description.name@,
                    &tool,
                ),
            final(self)@.wf(),
    {
        let description = description_of_terminal_tool(&tool);
        let slot = terminal_slot_of(description.name, tool);
        self.put_terminal(slot);
        assert(self.with_terminal(*old(self), description.name@, &tool));
    }

    /// Add a tool
    ///
    /// A [`Tool`] can be invoked by an [`AdvancedTool`]. The tool is added under the
    /// name that its description gives. A tool that was added under that name before
    /// is replaced, and the other tools are as they were.
    pub fn add_tool<T: Tool + 'static>(&mut self, tool: T)
        ensures
            exists|description: ToolDescription| #[trigger]
                describes_tool(&tool, description) && final(self).with_simple(
                    *old(self),
                    description.name@,
                    &tool,
                ),
            final(self)@.wf(),
    {
        let description = description_of_tool(&tool);
        let slot = simple_slot_of(description.name, tool);
        self.put_simple(slot);
        assert(self.with_simple(*old(self), description.name@, &tool));
    }

    /// Add an advanced tool
    ///
    /// An [`AdvancedTool`] is a [`Tool`] that can invoke another tool. The tool is
    /// added under the name that its description gives. An advanced tool that was
    /// added under that name before is replaced, and the other tools are as they were.
    pub fn add_advanced_tool<T: AdvancedTool + 'static>(&mut self, tool: T)
        ensures
            exists|description: ToolDescription| #[trigger]
                describes_advanced_tool(&tool, description) && final(self).with_advanced(
                    *old(self),
                    description.name@,
                    &tool,
                ),
            final(self)@.wf(),
    {
        let description = description_of_advanced_tool(&tool);
        let slot = advanced_slot_of(description.name, tool);
        self.put_advanced(slot);
        assert(self.with_advanced(*old(self), description.name@, &tool));
    }

    /// The tier in which a name is found when the task invokes a tool
    pub fn resolve(&self, name: &str) -> (tier: Option<Tier>)
        ensures
            tier == self@.resolve(name@),
    {
        match find(&self.advanced_tools, name) {
            Some(i) => {
                assert(self@.advanced[i as int] == name@);
                Some(Tier::Advanced)
            },
            None => self.basic.resolve(name),
        }
    }
}

/// The names under which tools are described.
pub open spec fn described_names(descriptions: Seq<(String, ToolDescription)>) -> Seq<Seq<char>> {
    descriptions.map_values(|d: (String, ToolDescription)| d.0@)
}

/// The descriptions of two lists as one: those of the first, then each of the second
/// under whose name none stands yet.
pub open spec fn merged(
    first: Seq<(String, ToolDescription)>,
    second: Seq<(String, ToolDescription)>,
) -> Seq<(String, ToolDescription)>
    decreases second.len(),
{
    if second.len() == 0 {
        first
    } else if described_names(first).contains(second[0].0@) {
        merged(first, second.drop_first())
    } else {
        merged(first.push(second[0]), second.drop_first())
    }
}

/// The names of two lists as one: those of the first, then each of the second that
/// is not yet among them.
pub open spec fn merged_names(first: Seq<Seq<char>>, second: Seq<Seq<char>>) -> Seq<Seq<char>>
    decreases second.len(),
{
    if second.len() == 0 {
        first
    } else if first.contains(second[0]) {
        merged_names(first, second.drop_first())
    } else {
        merged_names(first.push(second[0]), second.drop_first())
    }
}

/// The names of a merged list are the merged names of the two lists.
pub proof fn lemma_merged_names(
    first: Seq<(String, ToolDescription)>,
    second: Seq<(String, ToolDescription)>,
)
    ensures
        described_names(merged(first, second)) == merged_names(
            described_names(first),
            described_names(second),
        ),
    decreases second.len(),
{
    if second.len() > 0 {
        let rest = second.drop_first();
        assert(described_names(second)[0] == second[0].0@);
        assert(described_names(second).drop_first() == described_names(rest));
        if described_names(first).contains(second[0].0@) {
            lemma_merged_names(first, rest);
        } else {
            assert(described_names(first.push(second[0])) == described_names(first).push(
                second[0].0@,
            ));
            lemma_merged_names(first.push(second[0]), rest);
        }
    }
}

/// A merged list holds a name where one of the two lists holds it, begins with the
/// first list, and holds no name twice where the first list holds none twice.
pub proof fn lemma_merged(
    first: Seq<(String, ToolDescription)>,
    second: Seq<(String, ToolDescription)>,
)
    ensures
        forall|name: Seq<char>|
            described_names(merged(first, second)).contains(name) <==> described_names(
                first,
            ).contains(name) || described_names(second).contains(name),
        described_names(first).no_duplicates() ==> described_names(
            merged(first, second),
        ).no_duplicates(),
        first.len() <= merged(first, second).len() <= first.len() + second.len(),
        merged(first, second).take(first.len() as int) == first,
    decreases second.len(),
{
    let all = merged(first, second);
    if second.len() == 0 {
        assert(all.take(first.len() as int) == first);
        assert(described_names(second) == Seq::<Seq<char>>::empty());
    } else {
        let head = second[0];
        let rest = second.drop_first();
        let next = if described_names(first).contains(head.0@) {
            first
        } else {
            first.push(head)
        };
        lemma_merged(next, rest);
        assert(all.take(first.len() as int) == all.take(next.len() as int).take(
            first.len() as int,
        ));
        assert(next.take(first.len() as int) == first);
        assert(described_names(second)[0] == head.0@);
        assert forall|name: Seq<char>|
            described_names(all).contains(name) <==> described_names(first).contains(name)
                || described_names(second).contains(name) by {
            if described_names(second).contains(name) {
                let i = choose|i: int|
                    0 <= i < described_names(second).len() && described_names(second)[i] == name;
                if i > 0 {
                    assert(described_names(rest)[i - 1] == name);
                }
            }
            if described_names(rest).contains(name) {
                let i = choose|i: int|
                    0 <= i < described_names(rest).len() && described_names(rest)[i] == name;
                assert(described_names(second)[i + 1] == name);
            }
            if described_names(next).contains(name) && !described_names(first).contains(name) {
                let i = choose|i: int|
                    0 <= i < described_names(next).len() && described_names(next)[i] == name;
                if i < first.len() {
                    assert(described_names(first)[i] == name);
                }
            }
            if described_names(first).contains(name) {
                let i = choose|i: int|
                    0 <= i < described_names(first).len() && described_names(first)[i] == name;
                assert(described_names(next)[i] == name);
            }
            if !described_names(first).contains(head.0@) {
                assert(described_names(next)[first.len() as int] == head.0@);
            }
        }
        if described_names(first).no_duplicates() && !described_names(first).contains(head.0@) {
            assert forall|i: int, j: int|
                0 <= i < next.len() && 0 <= j < next.len() && i != j implies described_names(
                next,
            )[i] != described_names(next)[j] by {
                if i < first.len() && j < first.len() {
                    assert(described_names(first)[i] != described_names(first)[j]);
                } else if i < first.len() {
                    assert(described_names(first)[i] == described_names(next)[i]);
                } else {
                    assert(described_names(first)[j] == described_names(next)[j]);
                }
            }
        }
    }
}

/// Whether a tool is described under a name.
fn is_described(descriptions: &Vec<(String, ToolDescription)>, name: &str) -> (found: bool)
    ensures
        found == described_names(descriptions@).contains(name@),
{
    let mut i: usize = 0;
    while i < descriptions.len()
        invariant
            i <= descriptions.len(),
            forall|j: int| 0 <= j < i ==> described_names(descriptions@)[j] != name@,
        decreases descriptions.len() - i,
    {
        if same_text(descriptions[i].0.as_str(), name) {
            assert(described_names(descriptions@)[i as int] == name@);
            return true;
        }
        i += 1;
    }
    false
}

/// Merges two lists of descriptions: those of the first, then each of the second
/// under whose name none stands yet.
pub fn merge_descriptions(
    first: Vec<(String, ToolDescription)>,
    second: Vec<(String, ToolDescription)>,
) -> (all: Vec<(String, ToolDescription)>)
    ensures
        all@ == merged(first@, second@),
{
    let mut all = first;
    let mut rest = second;
    while rest.len() > 0
        invariant
            merged(first@, second@) == merged(all@, rest@),
        decreases rest.len(),
    {
        let ghost before = rest@;
        let next = rest.remove(0);
        assert(rest@ == before.drop_first());
        if !is_described(&all, next.0.as_str()) {
            all.push(next);
        }
    }
    all
}

/// The names under which the tools of a tier were added.
spec fn names_of<T>(slots: Seq<Slot<T>>) -> Seq<Seq<char>> {
    slots.map_values(|s: Slot<T>| s.name@)
}

/// Whether the tools of a tier are those before but for the one under a name, which was
/// put at a place: that of the first tool under the name, or the end.
spec fn put_at<T>(before: Seq<Slot<T>>, after: Seq<Slot<T>>, name: Seq<char>, k: int) -> bool {
    &&& 0 <= k <= before.len()
    &&& after.len() == if k < before.len() {
        before.len()
    } else {
        before.len() + 1
    }
    &&& after[k].name@ == name
    &&& k < before.len() ==> before[k].name@ == name
    &&& forall|j: int| 0 <= j < before.len() && j != k ==> #[trigger] after[j] == before[j]
}

/// Putting a tool under a name leaves the tools under other names where they
/// were.
proof fn lemma_put_at<T>(
    before: Seq<Slot<T>>,
    after: Seq<Slot<T>>,
    name: Seq<char>,
    k: int,
    other: Seq<char>,
)
    requires
        put_at(before, after, name, k),
        other != name,
    ensures
        names_of(after).contains(other) == names_of(before).contains(other),
        forall|i: int| #[trigger] is_first(after, other, i) == is_first(before, other, i),
        forall|i: int| #[trigger] is_first(before, other, i) ==> after[i] == before[i],
{
    if names_of(before).contains(other) {
        let i = choose|i: int| 0 <= i < before.len() && names_of(before)[i] == other;
        assert(after[i] == before[i]);
        assert(names_of(after)[i] == other);
    }
    if names_of(after).contains(other) {
        let i = choose|i: int| 0 <= i < after.len() && names_of(after)[i] == other;
        assert(after[i] == before[i]);
        assert(names_of(before)[i] == other);
    }
    assert forall|i: int| #[trigger]
        is_first(after, other, i) == is_first(before, other, i) by {
        if is_first(after, other, i) {
            assert(after[i] == before[i]);
            assert forall|j: int| 0 <= j < i implies (#[trigger] before[j]).name@ != other by {
                if j != k {
                    assert(after[j] == before[j]);
                }
            }
        }
        if is_first(before, other, i) {
            assert(after[i] == before[i]);
            assert forall|j: int| 0 <= j < i implies (#[trigger] after[j]).name@ != other by {
                if j != k {
                    assert(after[j] == before[j]);
                }
            }
        }
    }
}

/// Whether something holds of the first tool under a name.
spec fn first_under<T>(slots: Seq<Slot<T>>, name: Seq<char>, holds: spec_fn(T) -> bool) -> bool {
    exists|i: int| #[trigger] is_first(slots, name, i) && holds(slots[i].tool)
}

/// Whether something holds of a tool under a name.
spec fn some_under<T>(slots: Seq<Slot<T>>, name: Seq<char>, holds: spec_fn(T) -> bool) -> bool {
    exists|j: int| 0 <= j < slots.len() && (#[trigger] slots[j]).name@ == name && holds(slots[j].tool)
}

/// Putting a tool under a name changes nothing that holds of the tools under other
/// names.
proof fn lemma_put_others<T>(
    before: Seq<Slot<T>>,
    after: Seq<Slot<T>>,
    name: Seq<char>,
    k: int,
    other: Seq<char>,
    holds: spec_fn(T) -> bool,
)
    requires
        put_at(before, after, name, k),
        other != name,
    ensures
        first_under(after, other, holds) == first_under(before, other, holds),
        some_under(after, other, holds) == some_under(before, other, holds),
{
    lemma_put_at(before, after, name, k, other);
    if first_under(after, other, holds) {
        let i = choose|i: int| #[trigger] is_first(after, other, i) && holds(after[i].tool);
        assert(is_first(before, other, i));
    }
    if first_under(before, other, holds) {
        let i = choose|i: int| #[trigger] is_first(before, other, i) && holds(before[i].tool);
        assert(is_first(after, other, i));
    }
    if some_under(after, other, holds) {
        let j = choose|j: int|
            0 <= j < after.len() && (#[trigger] after[j]).name@ == other && holds(after[j].tool);
        assert(after[j] == before[j]);
    }
    if some_under(before, other, holds) {
        let j = choose|j: int|
            0 <= j < before.len() && (#[trigger] before[j]).name@ == other && holds(
                before[j].tool,
            );
        assert(after[j] == before[j]);
    }
}

/// After a tool was put under a name, what holds of the first tool under the name is
/// what holds of that tool; and, where no name stood twice, so is what holds of a tool
/// under the name.
proof fn lemma_put_name<T>(
    before: Seq<Slot<T>>,
    after: Seq<Slot<T>>,
    name: Seq<char>,
    k: int,
    holds: spec_fn(T) -> bool,
)
    requires
        put_at(before, after, name, k),
        forall|j: int| 0 <= j < k ==> (#[trigger] before[j]).name@ != name,
    ensures
        first_under(after, name, holds) == holds(after[k].tool),
        names_of(before).no_duplicates() ==> some_under(after, name, holds) == holds(
            after[k].tool,
        ),
{
    lemma_put_first(before, after, name, k);
    if first_under(after, name, holds) {
        let i = choose|i: int| #[trigger] is_first(after, name, i) && holds(after[i].tool);
        assert(i == k);
    }
    if names_of(before).no_duplicates() && some_under(after, name, holds) {
        let j = choose|j: int|
            0 <= j < after.len() && (#[trigger] after[j]).name@ == name && holds(after[j].tool);
        assert(j == k);
    }
}

/// After a tool was put under a name at the first place of the name, or at the end
/// where there was none, that place is the first of the name, and the only one where
/// no name stood twice.
proof fn lemma_put_first<T>(before: Seq<Slot<T>>, after: Seq<Slot<T>>, name: Seq<char>, k: int)
    requires
        put_at(before, after, name, k),
        forall|j: int| 0 <= j < k ==> (#[trigger] before[j]).name@ != name,
    ensures
        is_first(after, name, k),
        forall|i: int| #[trigger] is_first(after, name, i) ==> i == k,
        names_of(before).no_duplicates() ==> forall|j: int|
            0 <= j < after.len() && (#[trigger] after[j]).name@ == name ==> j == k,
{
    assert forall|j: int| 0 <= j < k implies (#[trigger] after[j]).name@ != name by {
        assert(after[j] == before[j]);
    }
    if names_of(before).no_duplicates() {
        assert forall|j: int| 0 <= j < after.len() && (#[trigger] after[j]).name@ == name implies j
            == k by {
            if j != k {
                assert(after[j] == before[j]);
                assert(names_of(before)[j] == name);
                assert(names_of(before)[k] == name);
            }
        }
    }
}

/// Whether a description under a name is one that a simple tool of that name gives
/// of itself.
spec fn simple_gives(slots: Seq<SimpleSlot>, entry: (String, ToolDescription)) -> bool {
    exists|j: int|
        0 <= j < slots.len() && (#[trigger] slots[j]).name@ == entry.0@ && describes_tool(
            &*slots[j].tool,
            entry.1,
        )
}

/// Whether a description under a name is one that a terminal tool of that name gives
/// of itself.
spec fn terminal_gives(slots: Seq<TerminalSlot>, entry: (String, ToolDescription)) -> bool {
    exists|j: int|
        0 <= j < slots.len() && (#[trigger] slots[j]).name@ == entry.0@
            && describes_terminal_tool(&*slots[j].tool, entry.1)
}

/// Whether a description under a name is one that an advanced tool of that name gives
/// of itself.
spec fn advanced_gives(slots: Seq<AdvancedSlot>, entry: (String, ToolDescription)) -> bool {
    exists|j: int|
        0 <= j < slots.len() && (#[trigger] slots[j]).name@ == entry.0@
            && describes_advanced_tool(&*slots[j].tool, entry.1)
}

/// Each description of a merged list is one of the first list, or one of the second
/// list under a name that the first list does not hold.
pub proof fn lemma_merged_origin(
    first: Seq<(String, ToolDescription)>,
    second: Seq<(String, ToolDescription)>,
    i: int,
)
    requires
        0 <= i < merged(first, second).len(),
    ensures
        ({
            ||| i < first.len() && merged(first, second)[i] == first[i]
            ||| exists|j: int|
                0 <= j < second.len() && merged(first, second)[i] == #[trigger] second[j]
                    && !described_names(first).contains(second[j].0@)
        }),
    decreases second.len(),
{
    if second.len() > 0 {
        let head = second[0];
        let rest = second.drop_first();
        if described_names(first).contains(head.0@) {
            lemma_merged_origin(first, rest, i);
            if !(i < first.len() && merged(first, rest)[i] == first[i]) {
                let j = choose|j: int|
                    0 <= j < rest.len() && merged(first, rest)[i] == #[trigger] rest[j]
                        && !described_names(first).contains(rest[j].0@);
                assert(second[j + 1] == rest[j]);
            }
        } else {
            let next = first.push(head);
            lemma_merged_origin(next, rest, i);
            if i < next.len() && merged(next, rest)[i] == next[i] {
                if i == first.len() {
                    assert(merged(first, second)[i] == second[0]);
                }
            } else {
                let j = choose|j: int|
                    0 <= j < rest.len() && merged(next, rest)[i] == #[trigger] rest[j]
                        && !described_names(next).contains(rest[j].0@);
                assert(second[j + 1] == rest[j]);
                if described_names(first).contains(rest[j].0@) {
                    let k = choose|k: int|
                        0 <= k < described_names(first).len() && described_names(first)[k]
                            == rest[j].0@;
                    assert(described_names(next)[k] == rest[j].0@);
                }
            }
        }
    }
}

/// Asks each simple tool for its description.
fn describe_simple(slots: &Vec<SimpleSlot>) -> (descriptions: Vec<(String, ToolDescription)>)
    ensures
        described_names(descriptions@) == names_of(slots@),
        forall|i: int|
            0 <= i < descriptions@.len() ==> simple_gives(slots@, #[trigger] descriptions@[i]),
{
    let mut descriptions: Vec<(String, ToolDescription)> = Vec::new();
    let mut i: usize = 0;
    while i < slots.len()
        invariant
            i <= slots.len(),
            described_names(descriptions@) == names_of(slots@).take(i as int),
            forall|j: int|
                0 <= j < descriptions@.len() ==> simple_gives(slots@, #[trigger] descriptions@[j]),
        decreases slots.len() - i,
    {
        let ghost before = descriptions@;
        let description = description_of_tool(&*slots[i].tool);
        let entry = (slots[i].name.clone(), description);
        proof {
            assert(slots@[i as int].name@ == entry.0@);
            assert(simple_gives(slots@, entry));
        }
        descriptions.push(entry);
        assert forall|j: int| 0 <= j < descriptions@.len() implies simple_gives(
            slots@,
            #[trigger] descriptions@[j],
        ) by {
            if j < before.len() {
                assert(descriptions@[j] == before[j]);
            }
        }
        assert(described_names(descriptions@) == described_names(before).push(slots@[i as int].name@));
        assert(names_of(slots@).take(i as int + 1) == names_of(slots@).take(i as int).push(
            slots@[i as int].name@,
        ));
        i += 1;
    }
    assert(names_of(slots@).take(i as int) == names_of(slots@));
    descriptions
}

/// Asks each terminal tool for its description.
fn describe_terminal(slots: &Vec<TerminalSlot>) -> (descriptions: Vec<(String, ToolDescription)>)
    ensures
        described_names(descriptions@) == names_of(slots@),
        forall|i: int|
            0 <= i < descriptions@.len() ==> terminal_gives(slots@, #[trigger] descriptions@[i]),
{
    let mut descriptions: Vec<(String, ToolDescription)> = Vec::new();
    let mut i: usize = 0;
    while i < slots.len()
        invariant
            i <= slots.len(),
            described_names(descriptions@) == names_of(slots@).take(i as int),
            forall|j: int|
                0 <= j < descriptions@.len() ==> terminal_gives(slots@, #[trigger] descriptions@[j]),
        decreases slots.len() - i,
    {
        let ghost before = descriptions@;
        let description = description_of_terminal_tool(&*slots[i].tool);
        let entry = (slots[i].name.clone(), description);
        proof {
            assert(slots@[i as int].name@ == entry.0@);
            assert(terminal_gives(slots@, entry));
        }
        descriptions.push(entry);
        assert forall|j: int| 0 <= j < descriptions@.len() implies terminal_gives(
            slots@,
            #[trigger] descriptions@[j],
        ) by {
            if j < before.len() {
                assert(descriptions@[j] == before[j]);
            }
        }
        assert(described_names(descriptions@) == described_names(before).push(slots@[i as int].name@));
        assert(names_of(slots@).take(i as int + 1) == names_of(slots@).take(
            i as int,
        ).push(slots@[i as int].name@));
        i += 1;
    }
    assert(names_of(slots@).take(i as int) == names_of(slots@));
    descriptions
}

/// Asks each advanced tool for its description.
fn describe_advanced(slots: &Vec<AdvancedSlot>) -> (descriptions: Vec<(String, ToolDescription)>)
    ensures
        described_names(descriptions@) == names_of(slots@),
        forall|i: int|
            0 <= i < descriptions@.len() ==> advanced_gives(slots@, #[trigger] descriptions@[i]),
{
    let mut descriptions: Vec<(String, ToolDescription)> = Vec::new();
    let mut i: usize = 0;
    while i < slots.len()
        invariant
            i <= slots.len(),
            described_names(descriptions@) == names_of(slots@).take(i as int),
            forall|j: int|
                0 <= j < descriptions@.len() ==> advanced_gives(slots@, #[trigger] descriptions@[j]),
        decreases slots.len() - i,
    {
        let ghost before = descriptions@;
        let description = description_of_advanced_tool(&*slots[i].tool);
        let entry = (slots[i].name.clone(), description);
        proof {
            assert(slots@[i as int].name@ == entry.0@);
            assert(advanced_gives(slots@, entry));
        }
        descriptions.push(entry);
        assert forall|j: int| 0 <= j < descriptions@.len() implies advanced_gives(
            slots@,
            #[trigger] descriptions@[j],
        ) by {
            if j < before.len() {
                assert(descriptions@[j] == before[j]);
            }
        }
        assert(described_names(descriptions@) == described_names(before).push(slots@[i as int].name@));
        assert(names_of(slots@).take(i as int + 1) == names_of(slots@).take(
            i as int,
        ).push(slots@[i as int].name@));
        i += 1;
    }
    assert(names_of(slots@).take(i as int) == names_of(slots@));
    descriptions
}

impl BasicToolboxView {
    /// Whether a tool was added under a name.
    pub open spec fn contains(self, name: Seq<char>) -> bool {
        self.terminal.contains(name) || self.simple.contains(name)
    }

    /// The names under which the tools are described: those of the simple tools, then
    /// those of the terminal tools that no simple tool has.
    pub open spec fn names(self) -> Seq<Seq<char>> {
        merged_names(self.simple, self.terminal)
    }
}

impl ToolboxView {
    /// Whether a tool was added under a name.
    pub open spec fn contains(self, name: Seq<char>) -> bool {
        self.advanced.contains(name) || self.basic.contains(name)
    }

    /// The names under which the tools are described: those of the advanced tools,
    /// then those of the simple tools that no advanced tool has, then those of the
    /// terminal tools that no other tool has.
    pub open spec fn names(self) -> Seq<Seq<char>> {
        merged_names(merged_names(self.advanced, self.basic.simple), self.basic.terminal)
    }
}

impl BasicToolbox {
    /// Whether a description under a name is one that the tool gives of itself that
    /// is described under that name: the simple tool of that name, or, where there is
    /// none, the terminal tool of that name.
    pub open spec fn gives(&self, entry: (String, ToolDescription)) -> bool {
        ||| self.describes_simple(entry.0@, entry.1)
        ||| !self@.simple.contains(entry.0@) && self.describes_terminal(entry.0@, entry.1)
    }

    /// Whether these are descriptions that the tools can give of themselves: one under
    /// each name under which tools are described, in the order of these names, each
    /// given by the tool that is described under that name.
    pub open spec fn self_described(&self, named: Seq<(String, ToolDescription)>) -> bool {
        &&& described_names(named) == self@.names()
        &&& forall|i: int| 0 <= i < named.len() ==> self.gives(#[trigger] named[i])
    }

    /// Where each tool gives its name in its description, each description stands
    /// under the name that it bears.
    pub proof fn lemma_described_names(&self, named: Seq<(String, ToolDescription)>)
        requires
            self.self_described(named),
            forall|name: Seq<char>, description: ToolDescription| #[trigger]
                self.describes_simple(name, description) ==> description.name@ == name,
            forall|name: Seq<char>, description: ToolDescription| #[trigger]
                self.describes_terminal(name, description) ==> description.name@ == name,
        ensures
            forall|i: int| 0 <= i < named.len() ==> (#[trigger] named[i]).1.name@ == named[i].0@,
    {
        assert forall|i: int| 0 <= i < named.len() implies (#[trigger] named[i]).1.name@
            == named[i].0@ by {
            assert(self.gives(named[i]));
        }
    }

    /// Get the descriptions of the tools, each under the name that its tool was
    /// added with. Where a simple and a terminal tool have the same name, the
    /// simple one is described.
    pub fn describe(&self) -> (descriptions: Vec<(String, ToolDescription)>)
        ensures
            self.self_described(descriptions@),
            described_names(descriptions@) == self@.names(),
            forall|name: Seq<char>|
                described_names(descriptions@).contains(name) <==> self@.contains(name),
            self@.wf(),
            described_names(descriptions@).no_duplicates(),
    {
        proof {
            use_type_invariant(self);
        }
        let simple = describe_simple(&self.tools);
        let terminal = describe_terminal(&self.terminal_tools);
        proof {
            lemma_merged(simple@, terminal@);
            lemma_merged_names(simple@, terminal@);
            let all = merged(simple@, terminal@);
            assert forall|i: int| 0 <= i < all.len() implies self.gives(#[trigger] all[i]) by {
                lemma_merged_origin(simple@, terminal@, i);
                if i < simple@.len() && all[i] == simple@[i] {
                    assert(simple_gives(self.tools@, simple@[i]));
                } else {
                    let j = choose|j: int|
                        0 <= j < terminal@.len() && all[i] == #[trigger] terminal@[j]
                            && !described_names(simple@).contains(terminal@[j].0@);
                    assert(terminal_gives(self.terminal_tools@, terminal@[j]));
                }
            }
        }
        merge_descriptions(simple, terminal)
    }
}

impl Toolbox {
    /// Whether a description under a name is one that the tool gives of itself that
    /// is described under that name: the advanced tool of that name, or, where there
    /// is none, the simple tool of that name, or, where there is none either, the
    /// terminal tool of that name.
    pub open spec fn gives(&self, entry: (String, ToolDescription)) -> bool {
        ||| self.describes_advanced(entry.0@, entry.1)
        ||| !self@.advanced.contains(entry.0@) && self.basic_tools().gives(entry)
    }

    /// Where each tool gives its name in its description, each description stands
    /// under the name that it bears.
    pub proof fn lemma_described_names(&self, named: Seq<(String, ToolDescription)>)
        requires
            self.self_described(named),
            forall|name: Seq<char>, description: ToolDescription| #[trigger]
                self.describes_advanced(name, description) ==> description.name@ == name,
            forall|name: Seq<char>, description: ToolDescription| #[trigger]
                self.basic_tools().describes_simple(name, description) ==> description.name@
                    == name,
            forall|name: Seq<char>, description: ToolDescription| #[trigger]
                self.basic_tools().describes_terminal(name, description) ==> description.name@
                    == name,
        ensures
            forall|i: int| 0 <= i < named.len() ==> (#[trigger] named[i]).1.name@ == named[i].0@,
    {
        assert forall|i: int| 0 <= i < named.len() implies (#[trigger] named[i]).1.name@
            == named[i].0@ by {
            assert(self.gives(named[i]));
        }
    }

    /// Whether these are descriptions that the tools can give of themselves: one under
    /// each name under which tools are described, in the order of these names, each
    /// given by the tool that is described under that name.
    pub open spec fn self_described(&self, named: Seq<(String, ToolDescription)>) -> bool {
        &&& described_names(named) == self@.names()
        &&& forall|i: int| 0 <= i < named.len() ==> self.gives(#[trigger] named[i])
    }

    /// Get the descriptions of the tools, each under the name that its tool was
    /// added with. Where tools of several tiers have the same name, the advanced
    /// one is described, else the simple one.
    pub fn describe(&self) -> (descriptions: Vec<(String, ToolDescription)>)
        ensures
            self.self_described(descriptions@),
            described_names(descriptions@) == self@.names(),
            forall|name: Seq<char>|
                described_names(descriptions@).contains(name) <==> self@.contains(name),
            self@.wf(),
            described_names(descriptions@).no_duplicates(),
    {
        proof {
            use_type_invariant(self);
            use_type_invariant(&self.basic);
        }
        let advanced = describe_advanced(&self.advanced_tools);
        let simple = describe_simple(&self.basic.tools);
        let terminal = describe_terminal(&self.basic.terminal_tools);
        proof {
            lemma_merged(advanced@, simple@);
            lemma_merged(merged(advanced@, simple@), terminal@);
            lemma_merged_names(advanced@, simple@);
            lemma_merged_names(merged(advanced@, simple@), terminal@);
            let upper = merged(advanced@, simple@);
            let all = merged(upper, terminal@);
            assert forall|i: int| 0 <= i < upper.len() implies self.gives(#[trigger] upper[i]) by {
                lemma_merged_origin(advanced@, simple@, i);
                if i < advanced@.len() && upper[i] == advanced@[i] {
                    assert(advanced_gives(self.advanced_tools@, advanced@[i]));
                } else {
                    let j = choose|j: int|
                        0 <= j < simple@.len() && upper[i] == #[trigger] simple@[j]
                            && !described_names(advanced@).contains(simple@[j].0@);
                    assert(simple_gives(self.basic.tools@, simple@[j]));
                    assert(self.basic.gives(simple@[j]));
                }
            }
            assert forall|i: int| 0 <= i < all.len() implies self.gives(#[trigger] all[i]) by {
                lemma_merged_origin(upper, terminal@, i);
                if i < upper.len() && all[i] == upper[i] {
                    assert(self.gives(upper[i]));
                } else {
                    let j = choose|j: int|
                        0 <= j < terminal@.len() && all[i] == #[trigger] terminal@[j]
                            && !described_names(upper).contains(terminal@[j].0@);
                    assert(terminal_gives(self.basic.terminal_tools@, terminal@[j]));
                    assert(!described_names(advanced@).contains(terminal@[j].0@));
                    assert(!described_names(simple@).contains(terminal@[j].0@));
                    assert(self.basic.gives(terminal@[j]));
                }
            }
        }
        merge_descriptions(merge_descriptions(advanced, simple), terminal)
    }
}

/// The termination messages among what the terminal tools gave when they were
/// asked, in the order in which they were asked.
pub open spec fn present(polled: Seq<Option<TerminationMessage>>) -> Seq<TerminationMessage>
    decreases polled.len(),
{
    if polled.len() == 0 {
        Seq::empty()
    } else {
        match polled.last() {
            Some(message) => present(polled.drop_last()).push(message),
            None => present(polled.drop_last()),
        }
    }
}

/// Keeps the termination messages among what the terminal tools gave.
pub fn collect_terminations(polled: Vec<Option<TerminationMessage>>) -> (messages: Vec<
    TerminationMessage,
>)
    ensures
        messages@ == present(polled@),
{
    let mut polled = polled;
    let ghost all = polled@;
    let mut reversed: Vec<TerminationMessage> = Vec::new();
    while polled.len() > 0
        invariant
            polled@.len() <= all.len(),
            polled@ == all.take(polled@.len() as int),
            present(all) == present(polled@) + reversed@.reverse(),
        decreases polled.len(),
    {
        let ghost before = polled@;
        let ghost kept = reversed@;
        let last = polled.pop();
        proof {
            assert(polled@ == before.drop_last());
            assert(polled@ == all.take(polled@.len() as int));
        }
        match last {
            Some(Some(message)) => {
                reversed.push(message);
                proof {
                    assert(reversed@.reverse() == seq![message] + kept.reverse());
                    assert(present(before) == present(polled@).push(message));
                    assert(present(polled@).push(message) + kept.reverse() == present(polled@)
                        + reversed@.reverse());
                }
            },
            _ => {},
        }
    }
    assert(all.take(0) == Seq::<Option<TerminationMessage>>::empty());
    let mut messages: Vec<TerminationMessage> = Vec::new();
    while reversed.len() > 0
        invariant
            present(all) == messages@ + reversed@.reverse(),
        decreases reversed.len(),
    {
        let ghost before = reversed@;
        let ghost done = messages@;
        let next = reversed.pop();
        match next {
            Some(message) => {
                messages.push(message);
                proof {
                    assert(reversed@ == before.drop_last());
                    assert(before.reverse() == seq![message] + reversed@.reverse());
                    assert(done + before.reverse() == messages@ + reversed@.reverse());
                }
            },
            None => {},
        }
    }
    assert(reversed@.reverse() == Seq::<TerminationMessage>::empty());
    messages
}

/// No more termination messages are kept than terminal tools were asked.
pub proof fn lemma_present_len(polled: Seq<Option<TerminationMessage>>)
    ensures
        present(polled).len() <= polled.len(),
    decreases polled.len(),
{
    if polled.len() > 0 {
        lemma_present_len(polled.drop_last());
    }
}

impl BasicToolbox {
    /// Whether these are answers that the terminal tools can give when each is asked
    /// once for its termination message, in the order in which the tools were first
    /// added: one answer for each tool, the answer at a place one that `takes_done`
    /// holds of for the tool at that place.
    pub closed spec fn answers(&self, polled: Seq<Option<TerminationMessage>>) -> bool {
        &&& polled.len() == self.terminal_tools@.len()
        &&& forall|i: int|
            0 <= i < polled.len() ==> takes_done(
                &*self.terminal_tools@[i].tool,
                #[trigger] polled[i],
            )
    }

    /// There is one answer for each terminal tool, in the order of their names, and
    /// each is one that a terminal tool under the name at its place can give.
    pub proof fn lemma_answers(&self, polled: Seq<Option<TerminationMessage>>)
        requires
            self.answers(polled),
        ensures
            polled.len() == self@.terminal.len(),
            forall|i: int|
                0 <= i < polled.len() ==> self.done_under(self@.terminal[i], #[trigger] polled[i]),
    {
        assert forall|i: int| 0 <= i < polled.len() implies self.done_under(
            self@.terminal[i],
            #[trigger] polled[i],
        ) by {
            assert(self.terminal_tools@[i].name@ == self@.terminal[i]);
        }
    }

    /// Asks each terminal tool for its termination message and clears it.
    fn poll(&self) -> (polled: Vec<Option<TerminationMessage>>)
        ensures
            self.answers(polled@),
    {
        let mut polled: Vec<Option<TerminationMessage>> = Vec::new();
        let mut i: usize = 0;
        while i < self.terminal_tools.len()
            invariant
                i <= self.terminal_tools.len(),
                polled@.len() == i,
                forall|j: int|
                    0 <= j < i ==> takes_done(
                        &*self.terminal_tools@[j].tool,
                        #[trigger] polled@[j],
                    ),
            decreases self.terminal_tools.len() - i,
        {
            let ghost before = polled@;
            let answer = take_done_of(&*self.terminal_tools[i].tool);
            polled.push(answer);
            proof {
                assert(polled@[i as int] == answer);
                assert forall|j: int| 0 <= j < i + 1 implies takes_done(
                    &*self.terminal_tools@[j].tool,
                    #[trigger] polled@[j],
                ) by {
                    if j < i {
                        assert(polled@[j] == before[j]);
                    }
                }
            }
            i += 1;
        }
        polled
    }

    /// Collect the termination messages: each terminal tool is asked once, in the
    /// order in which the tools were added, and what it gives is cleared. The messages
    /// are those that the tools gave, in that order.
    pub fn termination_messages(&self) -> (messages: Vec<TerminationMessage>)
        ensures
            exists|polled: Seq<Option<TerminationMessage>>|
                #[trigger] self.answers(polled) && messages@ == present(polled),
            messages@.len() <= self@.terminal.len(),
    {
        let polled = self.poll();
        proof {
            lemma_present_len(polled@);
        }
        collect_terminations(polled)
    }
}

impl Toolbox {
    /// The tools that an advanced tool may invoke.
    pub closed spec fn basic_tools(&self) -> BasicToolbox {
        self.basic
    }

    /// Whether these are answers that the terminal tools can give when each is asked
    /// once for its termination message, in the order in which the tools were first
    /// added.
    pub open spec fn answers(&self, polled: Seq<Option<TerminationMessage>>) -> bool {
        self.basic_tools().answers(polled)
    }

    /// The tools that an advanced tool may invoke have the names that the toolbox
    /// knows them by.
    pub proof fn lemma_basic_tools(&self)
        ensures
            self.basic_tools()@ == self@.basic,
    {
    }

    /// Collect the termination messages: each terminal tool is asked once, in the
    /// order in which the tools were added, and what it gives is cleared. The messages
    /// are those that the tools gave, in that order.
    pub fn termination_messages(&self) -> (messages: Vec<TerminationMessage>)
        ensures
            exists|polled: Seq<Option<TerminationMessage>>|
                #[trigger] self.answers(polled) && messages@ == present(polled),
            messages@.len() <= self@.basic.terminal.len(),
    {
        let messages = self.basic.termination_messages();
        proof {
            let polled = choose|polled: Seq<Option<TerminationMessage>>|
                #[trigger] self.basic.answers(polled) && messages@ == present(polled);
            assert(self.answers(polled));
        }
        messages
    }
}

impl BasicToolbox {
    /// Whether there is a terminal tool under a name that, invoked with this input,
    /// can give this result.
    pub closed spec fn invokes_terminal(
        &self,
        name: Seq<char>,
        input: Yaml,
        result: Result<Yaml, ToolUseError>,
    ) -> bool {
        first_under(
            self.terminal_tools@,
            name,
            |tool: Box<dyn TerminalTool>| invokes_terminal_tool(&*tool, input, result),
        )
    }

    /// Whether there is a simple tool under a name that, invoked with this input, can
    /// give this result.
    pub closed spec fn invokes_simple(
        &self,
        name: Seq<char>,
        input: Yaml,
        result: Result<Yaml, ToolUseError>,
    ) -> bool {
        first_under(self.tools@, name, |tool: Box<dyn Tool>| invokes_tool(&*tool, input, result))
    }

    /// Whether there is a simple tool under a name that, asked to describe itself, can
    /// give this description.
    pub closed spec fn describes_simple(&self, name: Seq<char>, description: ToolDescription) -> bool {
        some_under(self.tools@, name, |tool: Box<dyn Tool>| describes_tool(&*tool, description))
    }

    /// Whether there is a terminal tool under a name that, asked to describe itself,
    /// can give this description.
    pub closed spec fn describes_terminal(
        &self,
        name: Seq<char>,
        description: ToolDescription,
    ) -> bool {
        some_under(
            self.terminal_tools@,
            name,
            |tool: Box<dyn TerminalTool>| describes_terminal_tool(&*tool, description),
        )
    }

    /// Whether there is a terminal tool under a name that, asked for its termination
    /// message, can give this answer.
    pub closed spec fn done_under(&self, name: Seq<char>, answer: Option<TerminationMessage>) -> bool {
        some_under(
            self.terminal_tools@,
            name,
            |tool: Box<dyn TerminalTool>| takes_done(&*tool, answer),
        )
    }

    /// Whether the simple tool that is invoked under a name is this tool: it can give
    /// what this tool can give, and nothing else.
    pub open spec fn invokes_simple_as<T: Tool + ?Sized>(&self, name: Seq<char>, tool: &T) -> bool {
        forall|input: Yaml, result: Result<Yaml, ToolUseError>| #[trigger]
            self.invokes_simple(name, input, result) == invokes_tool(tool, input, result)
    }

    /// Whether the simple tool under a name is this tool: invoked, or asked to describe
    /// itself, it can give what this tool can give, and nothing else.
    pub open spec fn simple_is<T: Tool + ?Sized>(&self, name: Seq<char>, tool: &T) -> bool {
        &&& self.invokes_simple_as(name, tool)
        &&& forall|description: ToolDescription| #[trigger]
            self.describes_simple(name, description) == describes_tool(tool, description)
    }

    /// Whether the terminal tool that is invoked under a name is this tool: it can
    /// give what this tool can give, and nothing else.
    pub open spec fn invokes_terminal_as<T: TerminalTool + ?Sized>(
        &self,
        name: Seq<char>,
        tool: &T,
    ) -> bool {
        forall|input: Yaml, result: Result<Yaml, ToolUseError>| #[trigger]
            self.invokes_terminal(name, input, result) == invokes_terminal_tool(
                tool,
                input,
                result,
            )
    }

    /// Whether the terminal tool under a name is this tool: invoked, asked to describe
    /// itself or asked for its termination message, it can give what this tool can
    /// give, and nothing else.
    pub open spec fn terminal_is<T: TerminalTool + ?Sized>(&self, name: Seq<char>, tool: &T) -> bool {
        &&& self.invokes_terminal_as(name, tool)
        &&& forall|description: ToolDescription| #[trigger]
            self.describes_terminal(name, description) == describes_terminal_tool(
                tool,
                description,
            )
        &&& forall|answer: Option<TerminationMessage>| #[trigger]
            self.done_under(name, answer) == takes_done(tool, answer)
    }

    /// Whether the simple tools under the names other than this one are those that
    /// stood under them before.
    pub open spec fn same_simple_but(&self, before: BasicToolbox, name: Seq<char>) -> bool {
        &&& forall|other: Seq<char>, input: Yaml, result: Result<Yaml, ToolUseError>|
            other != name ==> #[trigger] self.invokes_simple(other, input, result)
                == before.invokes_simple(other, input, result)
        &&& forall|other: Seq<char>, description: ToolDescription|
            other != name ==> #[trigger] self.describes_simple(other, description)
                == before.describes_simple(other, description)
    }

    /// Whether the simple tools are those that stood under their names before.
    pub open spec fn same_simple(&self, before: BasicToolbox) -> bool {
        &&& self@.simple == before@.simple
        &&& forall|name: Seq<char>, input: Yaml, result: Result<Yaml, ToolUseError>| #[trigger]
            self.invokes_simple(name, input, result) == before.invokes_simple(name, input, result)
        &&& forall|name: Seq<char>, description: ToolDescription| #[trigger]
            self.describes_simple(name, description) == before.describes_simple(name, description)
    }

    /// Whether the terminal tools under the names other than this one are those that
    /// stood under them before.
    pub open spec fn same_terminal_but(&self, before: BasicToolbox, name: Seq<char>) -> bool {
        &&& forall|other: Seq<char>, input: Yaml, result: Result<Yaml, ToolUseError>|
            other != name ==> #[trigger] self.invokes_terminal(other, input, result)
                == before.invokes_terminal(other, input, result)
        &&& forall|other: Seq<char>, description: ToolDescription|
            other != name ==> #[trigger] self.describes_terminal(other, description)
                == before.describes_terminal(other, description)
        &&& forall|other: Seq<char>, answer: Option<TerminationMessage>|
            other != name ==> #[trigger] self.done_under(other, answer) == before.done_under(
                other,
                answer,
            )
    }

    /// Whether the terminal tools are those that stood under their names before.
    pub open spec fn same_terminal(&self, before: BasicToolbox) -> bool {
        &&& self@.terminal == before@.terminal
        &&& forall|name: Seq<char>, input: Yaml, result: Result<Yaml, ToolUseError>| #[trigger]
            self.invokes_terminal(name, input, result) == before.invokes_terminal(
                name,
                input,
                result,
            )
        &&& forall|name: Seq<char>, description: ToolDescription| #[trigger]
            self.describes_terminal(name, description) == before.describes_terminal(
                name,
                description,
            )
        &&& forall|name: Seq<char>, answer: Option<TerminationMessage>| #[trigger]
            self.done_under(name, answer) == before.done_under(name, answer)
        &&& forall|polled: Seq<Option<TerminationMessage>>| #[trigger]
            self.answers(polled) == before.answers(polled)
    }

    /// Whether these are the tools before with this tool put under a name among the
    /// simple tools: in the place of the simple tool that stood under the name, or,
    /// where there was none, after the others. The other tools are as they were.
    pub open spec fn with_simple<T: Tool + ?Sized>(
        &self,
        before: BasicToolbox,
        name: Seq<char>,
        tool: &T,
    ) -> bool {
        &&& self@ == before@.add_tool(name)
        &&& self@.wf()
        &&& self.simple_is(name, tool)
        &&& self.same_simple_but(before, name)
        &&& self.same_terminal(before)
        &&& self.keeps_but(before, name)
    }

    /// Whether these are the tools before with this tool put under a name among the
    /// terminal tools: in the place of the terminal tool that stood under the name, or,
    /// where there was none, after the others. The other tools are as they were.
    pub open spec fn with_terminal<T: TerminalTool + ?Sized>(
        &self,
        before: BasicToolbox,
        name: Seq<char>,
        tool: &T,
    ) -> bool {
        &&& self@ == before@.add_terminal_tool(name)
        &&& self@.wf()
        &&& self.terminal_is(name, tool)
        &&& self.same_terminal_but(before, name)
        &&& self.same_simple(before)
        &&& self.keeps_but(before, name)
    }

    /// There is no tool under a name that the tools of a tier do not hold.
    pub proof fn lemma_unknown_name(&self, name: Seq<char>)
        ensures
            !self@.simple.contains(name) ==> {
                &&& forall|input: Yaml, result: Result<Yaml, ToolUseError>|
                    !#[trigger] self.invokes_simple(name, input, result)
                &&& forall|description: ToolDescription|
                    !#[trigger] self.describes_simple(name, description)
            },
            !self@.terminal.contains(name) ==> {
                &&& forall|input: Yaml, result: Result<Yaml, ToolUseError>|
                    !#[trigger] self.invokes_terminal(name, input, result)
                &&& forall|description: ToolDescription|
                    !#[trigger] self.describes_terminal(name, description)
                &&& forall|answer: Option<TerminationMessage>|
                    !#[trigger] self.done_under(name, answer)
            },
    {
        if !self@.simple.contains(name) {
            assert forall|j: int| 0 <= j < self.tools@.len() implies (#[trigger] self.tools@[j]).name@
                != name by {
                assert(self@.simple[j] == self.tools@[j].name@);
            }
        }
        if !self@.terminal.contains(name) {
            assert forall|j: int| 0 <= j < self.terminal_tools@.len() implies (
            #[trigger] self.terminal_tools@[j]).name@ != name by {
                assert(self@.terminal[j] == self.terminal_tools@[j].name@);
            }
        }
    }

    /// Whether invoking a name with this input can give this result: the result is
    /// one that the terminal tool under that name can give for the input, or, where
    /// there is no terminal tool under that name, one that the simple tool under that
    /// name can give for it; where there is neither, the result is the error
    /// `ToolNotFound` with the name.
    pub open spec fn dispatches(
        &self,
        name: Seq<char>,
        input: Yaml,
        result: Result<Yaml, ToolUseError>,
    ) -> bool {
        match self@.resolve(name) {
            Some(Tier::Terminal) => self.invokes_terminal(name, input, result),
            Some(Tier::Simple) => self.invokes_simple(name, input, result),
            _ => result matches Err(e) && e@ == ToolFault::ToolNotFound(name),
        }
    }

    /// Whether invoking a name other than this one gives what it gave among the tools
    /// before.
    pub open spec fn keeps_but(&self, before: BasicToolbox, name: Seq<char>) -> bool {
        forall|other: Seq<char>, input: Yaml, result: Result<Yaml, ToolUseError>|
            other != name ==> #[trigger] self.dispatches(other, input, result) == before.dispatches(
                other,
                input,
                result,
            )
    }

    /// Among the tools that an advanced tool may invoke, a name goes to the terminal
    /// tool under it, whether there is a simple tool under it or not; without a terminal
    /// tool under it, to the simple tool; and without either, nowhere.
    pub proof fn lemma_dispatch_by_tier(
        &self,
        name: Seq<char>,
        input: Yaml,
        result: Result<Yaml, ToolUseError>,
    )
        ensures
            self@.terminal.contains(name) ==> self.dispatches(name, input, result)
                == self.invokes_terminal(name, input, result),
            !self@.terminal.contains(name) && self@.simple.contains(name) ==> self.dispatches(
                name,
                input,
                result,
            ) == self.invokes_simple(name, input, result),
            !self@.terminal.contains(name) && !self@.simple.contains(name) ==> self.dispatches(
                name,
                input,
                result,
            ) == (result matches Err(e) && e@ == ToolFault::ToolNotFound(name)),
    {
    }
}

impl Toolbox {
    /// Whether there is an advanced tool under a name that, invoked with this input
    /// and handed these tools, can give this result.
    pub closed spec fn invokes_advanced_with(
        &self,
        basic: BasicToolbox,
        name: Seq<char>,
        input: Yaml,
        result: Result<Yaml, ToolUseError>,
    ) -> bool {
        first_under(
            self.advanced_tools@,
            name,
            |tool: Box<dyn AdvancedTool>| invokes_advanced_tool(&*tool, &basic, input, result),
        )
    }

    /// Whether there is an advanced tool under a name that, invoked with this input
    /// and handed the terminal and the simple tools of the toolbox, can give this
    /// result.
    pub open spec fn invokes_advanced(
        &self,
        name: Seq<char>,
        input: Yaml,
        result: Result<Yaml, ToolUseError>,
    ) -> bool {
        self.invokes_advanced_with(self.basic_tools(), name, input, result)
    }

    /// Whether there is an advanced tool under a name that, asked to describe itself,
    /// can give this description.
    pub closed spec fn describes_advanced(
        &self,
        name: Seq<char>,
        description: ToolDescription,
    ) -> bool {
        some_under(
            self.advanced_tools@,
            name,
            |tool: Box<dyn AdvancedTool>| describes_advanced_tool(&*tool, description),
        )
    }

    /// There is no advanced tool under a name that the advanced tools do not hold.
    pub proof fn lemma_unknown_name(&self, name: Seq<char>)
        ensures
            !self@.advanced.contains(name) ==> {
                &&& forall|basic: BasicToolbox, input: Yaml, result: Result<Yaml, ToolUseError>|
                    !#[trigger] self.invokes_advanced_with(basic, name, input, result)
                &&& forall|description: ToolDescription|
                    !#[trigger] self.describes_advanced(name, description)
            },
    {
        if !self@.advanced.contains(name) {
            assert forall|j: int| 0 <= j < self.advanced_tools@.len() implies (
            #[trigger] self.advanced_tools@[j]).name@ != name by {
                assert(self@.advanced[j] == self.advanced_tools@[j].name@);
            }
        }
    }

    /// Whether the advanced tool that is invoked under a name is this tool: with any
    /// tools handed to it, it can give what this tool can give, and nothing else.
    pub open spec fn invokes_advanced_as<T: AdvancedTool + ?Sized>(
        &self,
        name: Seq<char>,
        tool: &T,
    ) -> bool {
        forall|basic: BasicToolbox, input: Yaml, result: Result<Yaml, ToolUseError>| #[trigger]
            self.invokes_advanced_with(basic, name, input, result) == invokes_advanced_tool(
                tool,
                &basic,
                input,
                result,
            )
    }

    /// Whether the advanced tool under a name is this tool: invoked with any tools
    /// handed to it, or asked to describe itself, it can give what this tool can give,
    /// and nothing else.
    pub open spec fn advanced_is<T: AdvancedTool + ?Sized>(&self, name: Seq<char>, tool: &T) -> bool {
        &&& self.invokes_advanced_as(name, tool)
        &&& forall|description: ToolDescription| #[trigger]
            self.describes_advanced(name, description) == describes_advanced_tool(
                tool,
                description,
            )
    }

    /// Whether the advanced tools under the names other than this one are those that
    /// stood under them before.
    pub open spec fn same_advanced_but(&self, before: Toolbox, name: Seq<char>) -> bool {
        &&& forall|
            other: Seq<char>,
            basic: BasicToolbox,
            input: Yaml,
            result: Result<Yaml, ToolUseError>,
        |
            other != name ==> #[trigger] self.invokes_advanced_with(basic, other, input, result)
                == before.invokes_advanced_with(basic, other, input, result)
        &&& forall|other: Seq<char>, description: ToolDescription|
            other != name ==> #[trigger] self.describes_advanced(other, description)
                == before.describes_advanced(other, description)
    }

    /// Whether the advanced tools are those that stood under their names before.
    pub open spec fn same_advanced(&self, before: Toolbox) -> bool {
        &&& self@.advanced == before@.advanced
        &&& forall|
            name: Seq<char>,
            basic: BasicToolbox,
            input: Yaml,
            result: Result<Yaml, ToolUseError>,
        | #[trigger]
            self.invokes_advanced_with(basic, name, input, result) == before.invokes_advanced_with(
                basic,
                name,
                input,
                result,
            )
        &&& forall|name: Seq<char>, description: ToolDescription| #[trigger]
            self.describes_advanced(name, description) == before.describes_advanced(
                name,
                description,
            )
    }

    /// Whether this is the toolbox before with this tool put under a name among the
    /// simple tools: in the place of the simple tool that stood under the name, or,
    /// where there was none, after the others. The other tools are as they were.
    pub open spec fn with_simple<T: Tool + ?Sized>(
        &self,
        before: Toolbox,
        name: Seq<char>,
        tool: &T,
    ) -> bool {
        &&& self@ == before@.add_tool(name)
        &&& self@.wf()
        &&& self.basic_tools().with_simple(before.basic_tools(), name, tool)
        &&& self.same_advanced(before)
    }

    /// Whether this is the toolbox before with this tool put under a name among the
    /// terminal tools: in the place of the terminal tool that stood under the name, or,
    /// where there was none, after the others. The other tools are as they were.
    pub open spec fn with_terminal<T: TerminalTool + ?Sized>(
        &self,
        before: Toolbox,
        name: Seq<char>,
        tool: &T,
    ) -> bool {
        &&& self@ == before@.add_terminal_tool(name)
        &&& self@.wf()
        &&& self.basic_tools().with_terminal(before.basic_tools(), name, tool)
        &&& self.same_advanced(before)
    }

    /// Whether this is the toolbox before with this tool put under a name among the
    /// advanced tools: in the place of the advanced tool that stood under the name, or,
    /// where there was none, after the others. The other tools are as they were.
    pub open spec fn with_advanced<T: AdvancedTool + ?Sized>(
        &self,
        before: Toolbox,
        name: Seq<char>,
        tool: &T,
    ) -> bool {
        &&& self@ == before@.add_advanced_tool(name)
        &&& self@.wf()
        &&& self.advanced_is(name, tool)
        &&& self.same_advanced_but(before, name)
        &&& self.basic_tools() == before.basic_tools()
        &&& self.keeps_but(before, name)
    }

    /// Whether invoking a name with this input can give this result: the result is
    /// one that the advanced tool under that name can give for the input when it is
    /// handed the terminal and the simple tools of the toolbox; where there is no
    /// advanced tool under that name, the result is one that invoking the name among
    /// the terminal and the simple tools can give.
    pub open spec fn dispatches(
        &self,
        name: Seq<char>,
        input: Yaml,
        result: Result<Yaml, ToolUseError>,
    ) -> bool {
        match self@.resolve(name) {
            Some(Tier::Advanced) => self.invokes_advanced(name, input, result),
            _ => self.basic_tools().dispatches(name, input, result),
        }
    }

    /// Whether invoking a name other than this one gives what it gave in the toolbox
    /// before.
    pub open spec fn keeps_but(&self, before: Toolbox, name: Seq<char>) -> bool {
        forall|other: Seq<char>, input: Yaml, result: Result<Yaml, ToolUseError>|
            other != name ==> #[trigger] self.dispatches(other, input, result) == before.dispatches(
                other,
                input,
                result,
            )
    }

    /// A name goes to the advanced tool under it, whether there is a terminal or a
    /// simple tool under it or not. Without an advanced tool under it, it goes where it
    /// goes among the terminal and the simple tools: to the terminal tool under it,
    /// else to the simple tool, else nowhere.
    pub proof fn lemma_dispatch_by_tier(
        &self,
        name: Seq<char>,
        input: Yaml,
        result: Result<Yaml, ToolUseError>,
    )
        ensures
            self@.advanced.contains(name) ==> self.dispatches(name, input, result)
                == self.invokes_advanced(name, input, result),
            !self@.advanced.contains(name) ==> self.dispatches(name, input, result)
                == self.basic_tools().dispatches(name, input, result),
            !self@.advanced.contains(name) && self@.basic.terminal.contains(name)
                ==> self.dispatches(name, input, result) == self.basic_tools().invokes_terminal(
                name,
                input,
                result,
            ),
            self@.resolve(name) is None ==> self.dispatches(name, input, result) == (result matches Err(
                e,
            ) && e@ == ToolFault::ToolNotFound(name)),
    {
    }
}

/// Invoke a tool from the tools that an advanced tool may invoke: a terminal tool
/// of that name, else a simple one.
///
/// Fails with `ToolNotFound` where there is neither. Else the tool is invoked with
/// the input, and the result is that of the tool.
pub fn invoke_simple_from_toolbox(toolbox: &BasicToolbox, name: &str, input: Yaml) -> (result: Result<
    Yaml,
    ToolUseError,
>)
    ensures
        toolbox.dispatches(name@, input, result),
        toolbox@.resolve(name@) is None ==> (result matches Err(e) && e@ == ToolFault::ToolNotFound(
            name@,
        )),
{
    // test if the tool is a terminal tool
    match find(&toolbox.terminal_tools, name) {
        Some(i) => {
            assert(toolbox@.terminal[i as int] == name@);
            let result = invoke_terminal_tool_of(
                &*toolbox.terminal_tools[i].tool,
                input,
            );
            assert(is_first(toolbox.terminal_tools@, name@, i as int));
            result
        },
        None => {
            // the normal tool only
            match find(&toolbox.tools, name) {
                Some(i) => {
                    assert(toolbox@.simple[i as int] == name@);
                    let result = invoke_tool_of(&*toolbox.tools[i].tool, input);
                    assert(is_first(toolbox.tools@, name@, i as int));
                    result
                },
                None => Err(ToolUseError::ToolNotFound(name.to_owned())),
            }
        },
    }
}

/// Invoke a tool from a [`Toolbox`]: an advanced tool of that name, which is handed
/// the terminal and the simple tools, else a terminal tool, else a simple one.
///
/// Fails with `ToolNotFound` where there is none. Else the tool is invoked with the
/// input, and the result is that of the tool.
pub fn invoke_from_toolbox(toolbox: &Toolbox, name: &str, input: Yaml) -> (result: Result<
    Yaml,
    ToolUseError,
>)
    ensures
        toolbox.dispatches(name@, input, result),
        toolbox@.resolve(name@) is None ==> (result matches Err(e) && e@ == ToolFault::ToolNotFound(
            name@,
        )),
{
    // test if the tool is an advanced tool
    match find(&toolbox.advanced_tools, name) {
        Some(i) => {
            assert(toolbox@.advanced[i as int] == name@);
            let result = invoke_advanced_tool_of(
                &*toolbox.advanced_tools[i].tool,
                &toolbox.basic,
                input,
            );
            assert(is_first(toolbox.advanced_tools@, name@, i as int));
            result
        },
        None => invoke_simple_from_toolbox(&toolbox.basic, name, input),
    }
}

/// What is reported of the result of a tool: its output as YAML text, or its error;
/// `InvalidYaml` where the output cannot be written as YAML.
pub open spec fn rendered(result: Result<Node, ToolFault>) -> Result<Seq<char>, ToolFault> {
    match result {
        Ok(output) => match yaml_text(output) {
            Ok(text) => Ok(text),
            Err(reason) => Err(ToolFault::InvalidYaml(reason)),
        },
        Err(fault) => Err(fault),
    }
}

/// The result of a tool as specifications see it.
pub open spec fn result_view(result: Result<Yaml, ToolUseError>) -> Result<Node, ToolFault> {
    match result {
        Ok(output) => Ok(output@),
        Err(e) => Err(e@),
    }
}

/// What is reported of a tool as specifications see it.
pub open spec fn report_view(report: Result<String, ToolUseError>) -> Result<Seq<char>, ToolFault> {
    match report {
        Ok(text) => Ok(text@),
        Err(e) => Err(e@),
    }
}

/// Writes the output of a tool as YAML text, and hands its error on.
pub fn render_result(result: Result<Yaml, ToolUseError>) -> (report: Result<String, ToolUseError>)
    ensures
        report_view(report) == rendered(result_view(result)),
{
    match result {
        Ok(output) => match to_yaml_string(&output) {
            Ok(text) => Ok(text),
            Err(reason) => Err(ToolUseError::InvalidYaml(reason)),
        },
        Err(e) => Err(e),
    }
}

/// Try to find the tool invocation from the chat message and invoke the
/// corresponding tool.
///
/// Gives the name of the tool, `unknown` where no invocation was found, and the
/// output of the tool as YAML text or the error. If multiple tool invocations are
/// found, the last one is used: its command is invoked with its input, and what is
/// reported is the result of that.
pub fn invoke_tool(toolbox: &Toolbox, data: &str) -> (outcome: (String, Result<String, ToolUseError>))
    ensures
        match crate::invocation::parse(data@) {
            Some(crate::invocation::Selection::Chosen(invocation)) => {
                &&& outcome.0@ == invocation.command
                &&& exists|input: Yaml, result: Result<Yaml, ToolUseError>|
                    {
                        &&& input@ == invocation.input
                        &&& #[trigger] toolbox.dispatches(invocation.command, input, result)
                        &&& report_view(outcome.1) == rendered(result_view(result))
                    }
                &&& toolbox@.resolve(invocation.command) is None ==> (outcome.1 matches Err(e) && e@
                    == ToolFault::ToolNotFound(invocation.command))
            },
            Some(crate::invocation::Selection::NoAction) => {
                &&& outcome.0@ == "unknown"@
                &&& outcome.1 matches Err(e) && e@ == ToolFault::InvalidInput("No Action found"@)
            },
            Some(crate::invocation::Selection::ForbiddenField) => {
                &&& outcome.0@ == "unknown"@
                &&& outcome.1 matches Err(e) && e@ == fault_of(InvocationError::ForbiddenField)
            },
            None => {
                &&& outcome.0@ == "unknown"@
                &&& outcome.1 matches Err(ToolUseError::InvalidInput(_))
            },
        },
{
    match find_invocation(data) {
        Ok(invocation) => {
            let Invocation { command, input } = invocation;
            let result = invoke_from_toolbox(toolbox, command.as_str(), input);
            let report = render_result(result);
            (command, report)
        },
        Err(e) => ("unknown".to_owned(), Err(ToolUseError::from_invocation_error(e))),
    }
}

} // verus!
