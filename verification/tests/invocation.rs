use sapiens::invocation::{find_invocation, select_invocation, Invocation, InvocationError};
use sapiens::value::Yaml;

fn text(s: &str) -> Yaml {
    Yaml::String(s.to_string())
}

fn mapping(entries: Vec<(&str, Yaml)>) -> Yaml {
    Yaml::Mapping(entries.into_iter().map(|(k, v)| (text(k), v)).collect())
}

fn candidate(command: &str, input: Yaml) -> Yaml {
    mapping(vec![("command", text(command)), ("input", input)])
}

#[test]
fn the_second_of_two_blocks_is_the_action() {
    let reply = "# Action\n```yaml\ncommand: First\ninput:\n  x: a\n```\n\nSome words\n```yaml\ncommand: Second\ninput:\n  y: b\n```\n";
    let found = find_invocation(reply).unwrap();
    assert_eq!(found.command, "Second");
    assert_eq!(found.input, mapping(vec![("y", text("b"))]));
}

#[test]
fn the_last_of_three_blocks_is_the_action() {
    let reply = "```yaml\ncommand: One\ninput: {}\n```\n\n```yml\ncommand: Two\ninput: {}\n```\n\n```\ncommand: Three\ninput: {}\n```\n";
    assert_eq!(find_invocation(reply).unwrap().command, "Three");
}

#[test]
fn a_block_with_output_is_forbidden() {
    let reply = "```yaml\ncommand: Echo\ninput:\n  x: a\noutput:\n  x: a\n```\n";
    assert_eq!(find_invocation(reply), Err(InvocationError::ForbiddenField));
}

#[test]
fn a_block_with_output_is_forbidden_beside_a_valid_block() {
    let before = "```yaml\ncommand: Echo\ninput:\n  x: a\noutput: done\n```\n\n```yaml\ncommand: Echo\ninput:\n  x: b\n```\n";
    assert_eq!(find_invocation(before), Err(InvocationError::ForbiddenField));
    let after = "```yaml\ncommand: Echo\ninput:\n  x: b\n```\n\n```yaml\ncommand: Echo\ninput:\n  x: a\noutput: done\n```\n";
    assert_eq!(find_invocation(after), Err(InvocationError::ForbiddenField));
}

#[test]
fn an_empty_output_entry_is_forbidden_too() {
    let reply = "```yaml\ncommand: Echo\ninput:\n  x: a\noutput:\n```\n";
    assert_eq!(find_invocation(reply), Err(InvocationError::ForbiddenField));
}

#[test]
fn a_reply_without_block_has_no_action() {
    let found = find_invocation("I do not know what to do.");
    assert!(matches!(found, Err(InvocationError::ExtractionFailure(_))), "{:?}", found);
}

#[test]
fn an_empty_reply_has_no_action() {
    let found = find_invocation("");
    assert!(matches!(found, Err(InvocationError::ExtractionFailure(_))), "{:?}", found);
}

#[test]
fn a_reply_that_is_yaml_as_a_whole() {
    let found = find_invocation("command: Conclude\ninput:\n  conclusion: done\n").unwrap();
    assert_eq!(found.command, "Conclude");
    assert_eq!(found.input, mapping(vec![("conclusion", text("done"))]));
}

#[test]
fn a_json_block_is_read() {
    let reply = "Here it is:\n```json\n{\"command\": \"Echo\", \"input\": {\"x\": true}}\n```\n";
    let found = find_invocation(reply).unwrap();
    assert_eq!(found.command, "Echo");
    assert_eq!(found.input, mapping(vec![("x", Yaml::Bool(true))]));
}

#[test]
fn a_block_of_code_is_passed_over() {
    let reply = "```yaml\ncommand: Echo\ninput: {}\n```\n\n```python\ncommand: Other\ninput: {}\n```\n";
    assert_eq!(find_invocation(reply).unwrap().command, "Echo");
}

#[test]
fn a_block_without_input_is_no_candidate() {
    let reply = "```yaml\ncommand: Echo\n```\n";
    assert_eq!(
        find_invocation(reply),
        Err(InvocationError::ExtractionFailure("No Action found".to_string()))
    );
}

#[test]
fn a_block_whose_command_is_no_text_is_no_candidate() {
    let reply = "```yaml\ncommand:\n  - Echo\ninput: {}\n```\n";
    assert_eq!(
        find_invocation(reply),
        Err(InvocationError::ExtractionFailure("No Action found".to_string()))
    );
}

#[test]
fn a_block_with_output_and_without_command_is_passed_over() {
    let reply = "```yaml\noutput: done\n```\n\n```yaml\ncommand: Echo\ninput: {}\n```\n";
    assert_eq!(find_invocation(reply).unwrap().command, "Echo");
}

#[test]
fn a_block_that_cannot_be_decoded_is_passed_over() {
    let reply = "```yaml\ncommand: [Echo\n```\n\n```yaml\ncommand: Echo\ninput: {}\n```\n";
    assert_eq!(find_invocation(reply).unwrap().command, "Echo");
}

#[test]
fn other_entries_are_left_aside() {
    let reply = "```yaml\nthought: hm\ncommand: Echo\nwhy: because\ninput: 7\n```\n";
    let found = find_invocation(reply).unwrap();
    assert_eq!(found.command, "Echo");
    assert_eq!(found.input, Yaml::Number(serde_yaml::Number::from(7u64)));
}

#[test]
fn select_among_no_blocks() {
    assert_eq!(
        select_invocation(vec![]),
        Err(InvocationError::ExtractionFailure("No Action found".to_string()))
    );
}

#[test]
fn select_the_last_candidate() {
    let documents = vec![
        candidate("First", Yaml::Null),
        candidate("Second", text("x")),
        mapping(vec![("note", text("not an action"))]),
        text("words"),
    ];
    assert_eq!(
        select_invocation(documents),
        Ok(Invocation { command: "Second".to_string(), input: text("x") })
    );
}

#[test]
fn select_takes_input_before_command() {
    let documents = vec![mapping(vec![
        ("input", Yaml::Sequence(vec![Yaml::Bool(false)])),
        ("command", text("Echo")),
    ])];
    assert_eq!(
        select_invocation(documents),
        Ok(Invocation {
            command: "Echo".to_string(),
            input: Yaml::Sequence(vec![Yaml::Bool(false)]),
        })
    );
}

#[test]
fn select_refuses_an_output_entry() {
    let documents = vec![
        mapping(vec![("command", text("Echo")), ("input", Yaml::Null), ("output", Yaml::Null)]),
        candidate("Echo", Yaml::Null),
    ];
    assert_eq!(select_invocation(documents), Err(InvocationError::ForbiddenField));
}

#[test]
fn select_passes_over_what_is_no_candidate() {
    let documents = vec![
        mapping(vec![("command", Yaml::Bool(true)), ("input", Yaml::Null)]),
        mapping(vec![("command", text("Echo"))]),
        mapping(vec![("output", text("x"))]),
        Yaml::Sequence(vec![text("command"), text("input")]),
    ];
    assert_eq!(
        select_invocation(documents),
        Err(InvocationError::ExtractionFailure("No Action found".to_string()))
    );
}

#[test]
fn invocation_error_messages() {
    assert_eq!(
        InvocationError::ExtractionFailure("No Action found".to_string()).to_string(),
        "Invalid input: No Action found"
    );
    assert_eq!(
        InvocationError::ForbiddenField.to_string(),
        "The Action cannot have an `output` field. Only `command` and `input` are allowed."
    );
}
