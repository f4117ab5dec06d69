//! Structured values, as tools take and give them and as the model writes them
//! in the blocks of its replies.
use vstd::prelude::*;
use vstd::utf8::encode_utf8;

verus! {

/// A YAML number, kept as the decoder made it.
#[verifier::external_type_specification]
#[verifier::external_body]
pub struct ExNumber(serde_yaml::Number);

/// A YAML tag, kept as the decoder made it.
#[verifier::external_type_specification]
#[verifier::external_body]
pub struct ExTag(serde_yaml::value::Tag);

/// A YAML value of the decoder.
#[verifier::external_type_specification]
#[verifier::external_body]
pub struct ExYamlValue(serde_yaml::Value);

/// The error of the search for YAML in a text.
#[verifier::external_type_specification]
#[verifier::external_body]
pub struct ExExtractionError(llm_chain::parsing::ExtractionError);

/// A structured value.
#[derive(Debug, PartialEq)]
pub enum Yaml {
    /// Nothing
    Null,
    /// A boolean
    Bool(bool),
    /// A number
    Number(serde_yaml::Number),
    /// A text
    String(String),
    /// A list of values
    Sequence(Vec<Yaml>),
    /// A list of entries, each a key and its value
    Mapping(Vec<(Yaml, Yaml)>),
    /// A value with a tag
    Tagged(serde_yaml::value::Tag, Box<Yaml>),
}

/// A structured value as specifications see it.
pub enum Node {
    Null,
    Bool(bool),
    Number(serde_yaml::Number),
    String(Seq<char>),
    Sequence(Seq<Node>),
    Mapping(Seq<(Node, Node)>),
    Tagged(serde_yaml::value::Tag, Box<Node>),
}

/// What a value stands for.
pub open spec fn node(value: Yaml) -> Node
    decreases value,
{
    match value {
        Yaml::Null => Node::Null,
        Yaml::Bool(b) => Node::Bool(b),
        Yaml::Number(n) => Node::Number(n),
        Yaml::String(s) => Node::String(s@),
        Yaml::Sequence(items) => Node::Sequence(
            Seq::new(
                items@.len(),
                |i: int|
                    if 0 <= i < items@.len() {
                        node(items@[i])
                    } else {
                        Node::Null
                    },
            ),
        ),
        Yaml::Mapping(entries) => Node::Mapping(entry_nodes(entries@)),
        Yaml::Tagged(tag, inner) => Node::Tagged(tag, Box::new(node(*inner))),
    }
}

/// What the entries of a mapping stand for.
pub open spec fn entry_nodes(entries: Seq<(Yaml, Yaml)>) -> Seq<(Node, Node)>
    decreases entries,
{
    Seq::new(
        entries.len(),
        |i: int|
            if 0 <= i < entries.len() {
                (node(entries[i].0), node(entries[i].1))
            } else {
                (Node::Null, Node::Null)
            },
    )
}

impl View for Yaml {
    type V = Node;

    open spec fn view(&self) -> Node {
        node(*self)
    }
}

/// What a list of values stands for.
pub open spec fn nodes(values: Seq<Yaml>) -> Seq<Node> {
    values.map_values(|v: Yaml| v@)
}

/// Whether a value is the given text.
pub open spec fn is_text(value: Node, text: Seq<char>) -> bool {
    value matches Node::String(s) && s == text
}

/// The place of the first entry with the given text as its key, or the number of
/// entries where there is none.
pub open spec fn key_index(entries: Seq<(Node, Node)>, key: Seq<char>) -> nat
    decreases entries.len(),
{
    if entries.len() == 0 {
        0
    } else if is_text(entries[0].0, key) {
        0
    } else {
        1 + key_index(entries.drop_first(), key)
    }
}

/// Whether an entry has the given text as its key.
pub open spec fn has_key(entries: Seq<(Node, Node)>, key: Seq<char>) -> bool {
    key_index(entries, key) < entries.len()
}

/// The value of the first entry with the given text as its key.
pub open spec fn lookup(entries: Seq<(Node, Node)>, key: Seq<char>) -> Option<Node> {
    if has_key(entries, key) {
        Some(entries[key_index(entries, key) as int].1)
    } else {
        None
    }
}

/// No entry before the place that `key_index` gives has the key, and the entry
/// at that place has it.
pub proof fn lemma_key_index(entries: Seq<(Node, Node)>, key: Seq<char>)
    ensures
        key_index(entries, key) <= entries.len(),
        has_key(entries, key) ==> is_text(entries[key_index(entries, key) as int].0, key),
        forall|j: int| 0 <= j < key_index(entries, key) ==> !is_text(#[trigger] entries[j].0, key),
    decreases entries.len(),
{
    if entries.len() > 0 && !is_text(entries[0].0, key) {
        let rest = entries.drop_first();
        lemma_key_index(rest, key);
        assert forall|j: int| 0 <= j < key_index(entries, key) implies !is_text(
            #[trigger] entries[j].0,
            key,
        ) by {
            if j > 0 {
                assert(entries[j] == rest[j - 1]);
            }
        }
    }
}

/// Two texts with the same bytes are the same text.
pub proof fn lemma_same_bytes_same_text(a: Seq<char>, b: Seq<char>)
    requires
        encode_utf8(a) == encode_utf8(b),
    ensures
        a == b,
{
    vstd::utf8::encode_utf8_decode_utf8(a);
    vstd::utf8::encode_utf8_decode_utf8(b);
}

/// Whether two texts are the same.
pub fn same_text(a: &str, b: &str) -> (same: bool)
    ensures
        same == (a@ == b@),
{
    let x = a.as_bytes();
    let y = b.as_bytes();
    if x.len() != y.len() {
        return false;
    }
    let mut i: usize = 0;
    while i < x.len()
        invariant
            i <= x.len(),
            x.len() == y.len(),
            x@ == encode_utf8(a@),
            y@ == encode_utf8(b@),
            x@.take(i as int) == y@.take(i as int),
        decreases x.len() - i,
    {
        if x[i] != y[i] {
            assert(x@[i as int] != y@[i as int]);
            return false;
        }
        assert(x@.take(i as int + 1) == x@.take(i as int).push(x@[i as int]));
        assert(y@.take(i as int + 1) == y@.take(i as int).push(y@[i as int]));
        i += 1;
    }
    proof {
        assert(x@.take(i as int) == x@);
        assert(y@.take(i as int) == y@);
        lemma_same_bytes_same_text(a@, b@);
    }
    true
}

/// Whether a value is the given text.
pub fn value_is_text(value: &Yaml, text: &str) -> (r: bool)
    ensures
        r == is_text(value@, text@),
{
    match value {
        Yaml::String(s) => same_text(s.as_str(), text),
        _ => false,
    }
}

/// The place of the first entry with the given text as its key.
pub fn find_key(entries: &Vec<(Yaml, Yaml)>, key: &str) -> (place: Option<usize>)
    ensures
        match place {
            Some(i) => has_key(entry_nodes(entries@), key@) && i == key_index(
                entry_nodes(entries@),
                key@,
            ),
            None => !has_key(entry_nodes(entries@), key@),
        },
{
    let ghost all = entry_nodes(entries@);
    let mut i: usize = 0;
    assert(all.skip(0) == all);
    while i < entries.len()
        invariant
            i <= entries.len(),
            all == entry_nodes(entries@),
            key_index(all, key@) == i + key_index(all.skip(i as int), key@),
        decreases entries.len() - i,
    {
        assert(all.skip(i as int)[0] == all[i as int]);
        if value_is_text(&entries[i].0, key) {
            return Some(i);
        }
        assert(all.skip(i as int).drop_first() == all.skip(i as int + 1));
        i += 1;
    }
    None
}

/// Turns a value of the YAML decoder into a value of this library, part by part.
/// Trusted; nothing is claimed of the result.
#[verifier::external_body]
fn from_yaml(value: serde_yaml::Value) -> Yaml {
    match value {
        serde_yaml::Value::Null => Yaml::Null,
        serde_yaml::Value::Bool(b) => Yaml::Bool(b),
        serde_yaml::Value::Number(n) => Yaml::Number(n),
        serde_yaml::Value::String(s) => Yaml::String(s),
        serde_yaml::Value::Sequence(s) => Yaml::Sequence(s.into_iter().map(from_yaml).collect()),
        serde_yaml::Value::Mapping(m) => Yaml::Mapping(
            m.into_iter().map(|(k, v)| (from_yaml(k), from_yaml(v))).collect(),
        ),
        serde_yaml::Value::Tagged(t) => Yaml::Tagged(t.tag, Box::new(from_yaml(t.value))),
    }
}

/// Turns a value of this library into a value of the YAML encoder, part by part.
/// Trusted; nothing is claimed of the result.
#[verifier::external_body]
fn to_yaml(value: &Yaml) -> serde_yaml::Value {
    match value {
        Yaml::Null => serde_yaml::Value::Null,
        Yaml::Bool(b) => serde_yaml::Value::Bool(*b),
        Yaml::Number(n) => serde_yaml::Value::Number(n.clone()),
        Yaml::String(s) => serde_yaml::Value::String(s.clone()),
        Yaml::Sequence(s) => serde_yaml::Value::Sequence(s.iter().map(to_yaml).collect()),
        Yaml::Mapping(m) => serde_yaml::Value::Mapping(
            m.iter().map(|(k, v)| (to_yaml(k), to_yaml(v))).collect(),
        ),
        Yaml::Tagged(tag, inner) => serde_yaml::Value::Tagged(
            Box::new(serde_yaml::value::TaggedValue { tag: tag.clone(), value: to_yaml(inner) }),
        ),
    }
}

/// The YAML mappings that `llm_chain::parsing::find_yaml` finds in a text, in the
/// order of the text: the text as a whole where it is one, else those of its code
/// blocks that are marked as YAML or JSON or not marked. `None` where it reports an
/// error, as it does where it finds none.
pub uninterp spec fn yaml_documents(text: Seq<char>) -> Option<Seq<Node>>;

/// Calls `llm_chain::parsing::find_yaml` for YAML mappings. Trusted: the result is what
/// that function gives for the text, each mapping it found turned into a value, and
/// an error where it gives one.
#[verifier::external_body]
pub(crate) fn find_yaml(text: &str) -> (found: Result<Vec<Yaml>, llm_chain::parsing::ExtractionError>)
    ensures
        found matches Ok(documents) ==> yaml_documents(text@) == Some(nodes(documents@)),
        found is Err ==> yaml_documents(text@) is None,
{
    let found = llm_chain::parsing::find_yaml::<serde_yaml::Mapping>(text)?;
    Ok(found.into_iter().map(|m| from_yaml(serde_yaml::Value::Mapping(m))).collect())
}

/// A text or the message of an error, as specifications see them.
pub open spec fn text_view(text: Result<String, String>) -> Result<Seq<char>, Seq<char>> {
    match text {
        Ok(s) => Ok(s@),
        Err(e) => Err(e@),
    }
}

/// What `serde_yaml::to_string` gives for a value: the YAML text that it writes, or
/// the message of the error that it reports.
pub uninterp spec fn yaml_text(value: Node) -> Result<Seq<char>, Seq<char>>;

/// Calls `serde_yaml::to_string`. Trusted: the result is the text that this function
/// writes for the value, or the message of the error that it reports.
#[verifier::external_body]
pub(crate) fn to_yaml_string(value: &Yaml) -> (text: Result<String, String>)
    ensures
        text_view(text) == yaml_text(value@),
{
    serde_yaml::to_string(&to_yaml(value)).map_err(|e| e.to_string())
}

} // verus!
