//! Finds the one action that a reply of the model asks for.
//!
//! A reply holds free text and blocks of YAML. A block that is a mapping with a
//! text under `command` and an entry under `input` is a candidate. The last
//! candidate of the reply is the action, unless a candidate carries an `output`
//! entry: the model may not write down the result of its own action.
use crate::value::{
    entry_nodes, find_key, find_yaml, has_key, lemma_key_index, lookup, nodes, yaml_documents,
    Node, Yaml,
};
use vstd::prelude::*;

verus! {

/// The invocation of a tool: its name and what it is given.
#[derive(Debug, PartialEq)]
pub struct Invocation {
    /// The name of the tool
    pub command: String,
    /// The input of the tool
    pub input: Yaml,
}

/// An invocation as specifications see it.
pub struct InvocationView {
    pub command: Seq<char>,
    pub input: Node,
}

impl View for Invocation {
    type V = InvocationView;

    open spec fn view(&self) -> InvocationView {
        InvocationView { command: self.command@, input: self.input@ }
    }
}

/// Why no invocation was found in a reply.
#[derive(Debug, PartialEq)]
pub enum InvocationError {
    /// No block could be decoded, or none is an invocation. The text says which.
    ExtractionFailure(String),
    /// A block carries an `output` entry.
    ForbiddenField,
}

impl InvocationError {
    /// The message that describes the error.
    pub open spec fn message(self) -> Seq<char> {
        match self {
            InvocationError::ExtractionFailure(reason) => "Invalid input: "@ + reason@,
            InvocationError::ForbiddenField =>
                "The Action cannot have an `output` field. Only `command` and `input` are allowed."@,
        }
    }

    /// The message that describes the error.
    pub fn to_string(&self) -> (s: String)
        ensures
            s@ == self.message(),
    {
        match self {
            InvocationError::ExtractionFailure(reason) => {
                let mut s = "Invalid input: ".to_owned();
                s.append(reason.as_str());
                s
            },
            InvocationError::ForbiddenField =>
                "The Action cannot have an `output` field. Only `command` and `input` are allowed.".to_owned(),
        }
    }
}

/// A block that may be the action: a mapping with a text under `command` and an
/// entry under `input`.
pub open spec fn is_candidate(document: Node) -> bool {
    &&& document matches Node::Mapping(entries)
    &&& lookup(entries, "command"@) matches Some(Node::String(_))
    &&& has_key(entries, "input"@)
}

/// A candidate with an `output` entry.
pub open spec fn is_forbidden(document: Node) -> bool {
    &&& is_candidate(document)
    &&& document matches Node::Mapping(entries)
    &&& has_key(entries, "output"@)
}

/// The invocation that a candidate asks for.
pub open spec fn invocation_of(document: Node) -> InvocationView
    recommends
        is_candidate(document),
{
    InvocationView {
        command: lookup(document->Mapping_0, "command"@).unwrap()->String_0,
        input: lookup(document->Mapping_0, "input"@).unwrap(),
    }
}

/// Whether one of the blocks is a candidate with an `output` entry.
pub open spec fn any_forbidden(documents: Seq<Node>) -> bool {
    exists|i: int| 0 <= i < documents.len() && is_forbidden(#[trigger] documents[i])
}

/// The place of the last candidate among the blocks, or -1 where there is none.
pub open spec fn last_candidate(documents: Seq<Node>) -> int
    decreases documents.len(),
{
    if documents.len() == 0 {
        -1
    } else if is_candidate(documents.last()) {
        documents.len() - 1
    } else {
        last_candidate(documents.drop_last())
    }
}

/// What the blocks of a reply amount to.
pub enum Selection {
    /// The action of the reply
    Chosen(InvocationView),
    /// No block is a candidate
    NoAction,
    /// A candidate carries an `output` entry
    ForbiddenField,
}

/// What the blocks of a reply, in the order of the reply, amount to: nothing
/// where none is a candidate, a failure where a candidate carries an `output` entry,
/// else the invocation of the last candidate.
pub open spec fn select(documents: Seq<Node>) -> Selection {
    if last_candidate(documents) < 0 {
        Selection::NoAction
    } else if any_forbidden(documents) {
        Selection::ForbiddenField
    } else {
        Selection::Chosen(invocation_of(documents[last_candidate(documents)]))
    }
}

/// Whether a result of the parser says what a selection says.
pub open spec fn reports(result: Result<Invocation, InvocationError>, selection: Selection) -> bool {
    match selection {
        Selection::Chosen(invocation) => result matches Ok(found) && found@ == invocation,
        Selection::NoAction => result matches Err(InvocationError::ExtractionFailure(reason))
            && reason@ == "No Action found"@,
        Selection::ForbiddenField => result matches Err(InvocationError::ForbiddenField),
    }
}

/// The place that `last_candidate` gives holds a candidate, and no block after it
/// is one.
pub proof fn lemma_last_candidate(documents: Seq<Node>)
    ensures
        -1 <= last_candidate(documents) < documents.len(),
        last_candidate(documents) >= 0 ==> is_candidate(documents[last_candidate(documents)]),
        forall|j: int|
            last_candidate(documents) < j < documents.len() ==> !is_candidate(
                #[trigger] documents[j],
            ),
    decreases documents.len(),
{
    if documents.len() > 0 && !is_candidate(documents.last()) {
        let front = documents.drop_last();
        lemma_last_candidate(front);
        assert forall|j: int| last_candidate(documents) < j < documents.len() implies !is_candidate(
            #[trigger] documents[j],
        ) by {
            if j < front.len() {
                assert(documents[j] == front[j]);
            }
        }
    }
}

/// Where the last block of a reply is a candidate and no candidate carries an
/// `output` entry, the last block is the action, whatever stands before it.
pub proof fn lemma_last_block_wins(documents: Seq<Node>)
    requires
        documents.len() > 0,
        is_candidate(documents.last()),
        !any_forbidden(documents),
    ensures
        select(documents) == Selection::Chosen(invocation_of(documents.last())),
{
}

/// Of two candidates without an `output` entry the second is the action.
pub proof fn lemma_second_of_two_wins(first: Node, second: Node)
    requires
        is_candidate(first),
        is_candidate(second),
        !is_forbidden(first),
        !is_forbidden(second),
    ensures
        select(seq![first, second]) == Selection::Chosen(invocation_of(second)),
{
    let documents = seq![first, second];
    assert(documents.last() == second);
    assert forall|i: int| 0 <= i < documents.len() implies !is_forbidden(#[trigger] documents[i]) by {
        if i == 0 {
        } else {
        }
    }
}

/// A candidate that carries an `output` entry makes the whole reply fail, whatever
/// other blocks the reply holds.
pub proof fn lemma_forbidden_field_wins(documents: Seq<Node>, i: int)
    requires
        0 <= i < documents.len(),
        is_forbidden(documents[i]),
    ensures
        select(documents) == Selection::ForbiddenField,
{
    lemma_last_candidate(documents);
    if last_candidate(documents) < 0 {
        assert(!is_candidate(documents[i]));
    }
}

/// Whether a block is a candidate, and whether it is one with an `output` entry.
fn classify(document: &Yaml) -> (kind: (bool, bool))
    ensures
        kind.0 == is_candidate(document@),
        kind.1 == is_forbidden(document@),
{
    match document {
        Yaml::Mapping(entries) => {
            let ghost all = entry_nodes(entries@);
            match find_key(entries, "command") {
                Some(c) => {
                    assert(all[c as int].1 == entries@[c as int].1@);
                    match &entries[c].1 {
                        Yaml::String(_) => {
                            let input = find_key(entries, "input").is_some();
                            let output = find_key(entries, "output").is_some();
                            (input, input && output)
                        },
                        _ => (false, false),
                    }
                },
                None => (false, false),
            }
        },
        _ => (false, false),
    }
}

/// Takes the invocation out of a candidate.
fn into_invocation(document: Yaml) -> (invocation: Invocation)
    requires
        is_candidate(document@),
    ensures
        invocation@ == invocation_of(document@),
{
    match document {
        Yaml::Mapping(entries) => {
            let mut entries = entries;
            let ghost all = entry_nodes(entries@);
            proof {
                lemma_key_index(all, "command"@);
                lemma_key_index(all, "input"@);
                reveal_strlit("command");
                reveal_strlit("input");
            }
            let c = find_key(&entries, "command").unwrap();
            let i = find_key(&entries, "input").unwrap();
            assert(c != i) by {
                assert("command"@.len() == 7);
                assert("input"@.len() == 5);
            }
            assert(all[c as int].1 == entries@[c as int].1@);
            assert(all[i as int].1 == entries@[i as int].1@);
            let (first, second) = if c < i {
                let later = entries.remove(i);
                let earlier = entries.remove(c);
                (earlier, later)
            } else {
                let later = entries.remove(c);
                let earlier = entries.remove(i);
                (later, earlier)
            };
            match first.1 {
                Yaml::String(command) => Invocation { command, input: second.1 },
                _ => {
                    assert(false);
                    Invocation { command: String::new(), input: second.1 }
                },
            }
        },
        _ => {
            assert(false);
            Invocation { command: String::new(), input: document }
        },
    }
}

/// Picks the action among the blocks of a reply, which are given in the order of
/// the reply.
pub fn select_invocation(documents: Vec<Yaml>) -> (result: Result<Invocation, InvocationError>)
    ensures
        reports(result, select(nodes(documents@))),
{
    let mut documents = documents;
    let ghost all = nodes(documents@);
    let mut last: Option<usize> = None;
    let mut forbidden = false;
    let mut i: usize = 0;
    while i < documents.len()
        invariant
            i <= documents.len(),
            all == nodes(documents@),
            match last {
                Some(place) => place < i && last_candidate(all.take(i as int)) == place,
                None => last_candidate(all.take(i as int)) == -1,
            },
            forbidden == any_forbidden(all.take(i as int)),
        decreases documents.len() - i,
    {
        let kind = classify(&documents[i]);
        proof {
            let before = all.take(i as int);
            let after = all.take(i as int + 1);
            assert(after.drop_last() == before);
            assert(after.last() == documents@[i as int]@);
            if any_forbidden(before) {
                let j = choose|j: int| 0 <= j < before.len() && is_forbidden(#[trigger] before[j]);
                assert(is_forbidden(after[j]));
            }
            if kind.1 {
                assert(is_forbidden(after[i as int]));
            }
            if any_forbidden(after) && !kind.1 {
                let j = choose|j: int| 0 <= j < after.len() && is_forbidden(#[trigger] after[j]);
                assert(is_forbidden(before[j]));
            }
        }
        if kind.0 {
            last = Some(i);
        }
        if kind.1 {
            forbidden = true;
        }
        i += 1;
    }
    assert(all.take(i as int) == all);
    match last {
        None => Err(InvocationError::ExtractionFailure("No Action found".to_owned())),
        Some(place) => {
            if forbidden {
                Err(InvocationError::ForbiddenField)
            } else {
                proof {
                    lemma_last_candidate(all);
                }
                let document = documents.remove(place);
                Ok(into_invocation(document))
            }
        },
    }
}

/// What the parser gives for a reply: what its blocks amount to, where the search
/// for blocks gives any.
pub open spec fn parse(text: Seq<char>) -> Option<Selection> {
    match yaml_documents(text) {
        Some(documents) => Some(select(documents)),
        None => None,
    }
}

/// Finds the action that a reply asks for.
///
/// Fails with `ExtractionFailure` where no block can be decoded or none is a
/// candidate, and with `ForbiddenField` where a candidate carries an `output`
/// entry.
pub fn find_invocation(text: &str) -> (result: Result<Invocation, InvocationError>)
    ensures
        match parse(text@) {
            Some(selection) => reports(result, selection),
            None => result matches Err(InvocationError::ExtractionFailure(_)),
        },
{
    match find_yaml(text) {
        Ok(documents) => select_invocation(documents),
        Err(e) => Err(InvocationError::ExtractionFailure(e.to_string())),
    }
}

} // verus!
