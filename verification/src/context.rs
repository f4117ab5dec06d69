//! The conversation context sent to the model: a pinned preamble that is never
//! evicted, followed by a rolling tail that is trimmed from its head so that the
//! whole stays within the model's token budget.
use vstd::prelude::*;
use vstd::utf8::encode_utf8;

verus! {

/// The author of a message.
#[derive(Clone, Copy, Debug, PartialEq, Eq, Structural)]
pub enum Role {
    /// Instructions that frame the conversation.
    System,
    /// The side that asks: the task, tool results and corrections.
    User,
    /// The model.
    Assistant,
}

impl Role {
    /// The name under which the role is sent to the model.
    pub open spec fn name(self) -> Seq<char> {
        match self {
            Role::System => "system"@,
            Role::User => "user"@,
            Role::Assistant => "assistant"@,
        }
    }

    /// The name under which the role is sent to the model.
    pub fn as_str(&self) -> (s: &'static str)
        ensures
            s@ == self.name(),
    {
        match self {
            Role::System => "system",
            Role::User => "user",
            Role::Assistant => "assistant",
        }
    }
}

/// A message as specifications see it: who wrote it, and its text.
pub struct Message {
    pub role: Role,
    pub content: Seq<char>,
}

/// A history entry.
#[derive(Debug)]
pub struct ChatEntry {
    /// The role
    pub role: Role,
    /// The message
    pub msg: String,
}

impl View for ChatEntry {
    type V = Message;

    open spec fn view(&self) -> Message {
        Message { role: self.role, content: self.msg@ }
    }
}

impl Clone for ChatEntry {
    fn clone(&self) -> (r: Self)
        ensures
            r == *self,
    {
        ChatEntry { role: self.role, msg: self.msg.clone() }
    }
}

/// The messages that a list of entries stands for.
pub open spec fn messages(entries: Seq<ChatEntry>) -> Seq<Message> {
    entries.map_values(|e: ChatEntry| e@)
}

/// The messages that a list of (role, text) pairs stands for.
pub open spec fn prompt_messages(prompts: Seq<(Role, String)>) -> Seq<Message> {
    prompts.map_values(|p: (Role, String)| Message { role: p.0, content: p.1@ })
}

/// A formatting policy for the entries of a chat history.
pub trait ChatEntryFormatter {
    /// Format the entry
    fn format(&self, entry: &ChatEntry) -> String;
}

/// Whether a formatter may give this line for this entry.
pub open spec fn formats_entry<T: ChatEntryFormatter + ?Sized>(
    formatter: &T,
    entry: ChatEntry,
    line: String,
) -> bool {
    call_ensures(<T as ChatEntryFormatter>::format, (formatter, &entry), line)
}

/// Whether a formatter may give this line for an entry that holds this message.
pub open spec fn formats<T: ChatEntryFormatter + ?Sized>(
    formatter: &T,
    message: Message,
    line: String,
) -> bool {
    exists|entry: ChatEntry| entry@ == message && #[trigger] formats_entry(formatter, entry, line)
}

/// Formats one entry.
fn format_entry<T: ChatEntryFormatter + ?Sized>(formatter: &T, entry: &ChatEntry) -> (line: String)
    ensures
        formats_entry(formatter, *entry, line),
        formats(formatter, entry@, line),
{
    let line = formatter.format(entry);
    assert(formats_entry(formatter, *entry, line));
    line
}

/// An error that can occur when adding to the chat history
#[derive(Clone, Copy, Debug, PartialEq, Eq, Structural)]
pub enum Error {
    /// The pinned prompt alone leaves no room for the completion
    PromptTooLong,
    /// The tokens of the messages cannot be counted for this model
    TokenCount,
}

impl Error {
    /// The message that describes the error.
    pub open spec fn message(self) -> Seq<char> {
        match self {
            Error::PromptTooLong => "The prompt is too long"@,
            Error::TokenCount => "The tokens cannot be counted for this model"@,
        }
    }

    /// The message that describes the error.
    pub fn to_string(&self) -> (s: String)
        ensures
            s@ == self.message(),
    {
        match self {
            Error::PromptTooLong => "The prompt is too long".to_owned(),
            Error::TokenCount => "The tokens cannot be counted for this model".to_owned(),
        }
    }
}

/// The context size, in tokens, of a model: the first matching line of the table
/// of model-name prefixes decides, and an unknown model gets 4096.
pub open spec fn context_size(model: Seq<char>) -> nat {
    if "gpt-4-32k"@.is_prefix_of(model) {
        32768
    } else if "gpt-4"@.is_prefix_of(model) {
        8192
    } else if "gpt-3.5-turbo-16k"@.is_prefix_of(model) {
        16384
    } else if "gpt-3.5-turbo"@.is_prefix_of(model) {
        4096
    } else if "text-davinci-002"@.is_prefix_of(model) || "text-davinci-003"@.is_prefix_of(model) {
        4097
    } else if "ada"@.is_prefix_of(model) || "babbage"@.is_prefix_of(model) || "curie"@.is_prefix_of(
        model,
    ) {
        2049
    } else if "code-cushman-001"@.is_prefix_of(model) {
        2048
    } else if "code-davinci-002"@.is_prefix_of(model) {
        8001
    } else if "davinci"@.is_prefix_of(model) {
        2049
    } else if "text-ada-001"@.is_prefix_of(model) || "text-babbage-001"@.is_prefix_of(model)
        || "text-curie-001"@.is_prefix_of(model) {
        2049
    } else {
        4096
    }
}

/// Calls `tiktoken_rs::model::get_context_size`. Trusted: the result is the entry of
/// that function's prefix table for the model, as `context_size` writes it out.
#[verifier::external_body]
fn get_context_size(model: &str) -> (size: usize)
    ensures
        size == context_size(model@),
{
    tiktoken_rs::model::get_context_size(model)
}

/// What `tiktoken_rs::num_tokens_from_messages` returns for a model and a list of
/// messages without author names: the number of tokens, or `None` where it
/// reports an error.
pub uninterp spec fn num_tokens(model: Seq<char>, messages: Seq<Message>) -> Option<usize>;

/// An upper bound on the number of tokens that a list of messages can take: the
/// tokenizer gives at most one token per byte of text, a role name has at most 9
/// bytes and each message costs at most 4 tokens more.
pub open spec fn encoded_size(messages: Seq<Message>) -> nat
    decreases messages.len(),
{
    if messages.len() == 0 {
        0
    } else {
        encoded_size(messages.drop_last()) + 13 + encode_utf8(messages.last().content).len()
    }
}

/// The size, in bytes, from which on a text is not handed to the tokenizer. The
/// tokenizer splits a text with a backtracking matcher that gives up after a million
/// steps, or with a million places to go back to, and it does not expect that: it
/// stops the program. The matcher takes about one step for each character of a piece,
/// so a text of half that size is split safely.
pub const MAX_TEXT_SIZE: usize = 500_000;

/// Whether each of the messages is short enough for the tokenizer to split it.
pub open spec fn short_texts(messages: Seq<Message>) -> bool {
    forall|i: int|
        0 <= i < messages.len() ==> encode_utf8((#[trigger] messages[i]).content).len()
            < MAX_TEXT_SIZE
}

/// Whether the tokens of the messages can be counted safely: each text is short
/// enough for the tokenizer to split it, and the count is sure to fit the counter of
/// the tokenizer, which is a signed 32-bit integer.
pub open spec fn countable(messages: Seq<Message>) -> bool {
    short_texts(messages) && encoded_size(messages) + 3 <= i32::MAX
}

/// The number of tokens of a list of messages for a model, where it can be had.
pub open spec fn token_count(model: Seq<char>, messages: Seq<Message>) -> Option<usize> {
    if countable(messages) {
        num_tokens(model, messages)
    } else {
        None
    }
}

/// Calls `tiktoken_rs::num_tokens_from_messages` on the entries, each sent under its
/// role's name and without an author name. Trusted: the result is the count that this
/// function gives, `None` standing for its error. Lists with a text that its matcher
/// might give up on, and lists whose count might overflow its 32-bit counter, are left
/// out.
#[verifier::external_body]
fn num_tokens_from_messages(model: &str, entries: &Vec<ChatEntry>) -> (count: Option<usize>)
    requires
        countable(messages(entries@)),
    ensures
        count == num_tokens(model@, messages(entries@)),
{
    let converted: Vec<tiktoken_rs::ChatCompletionRequestMessage> = entries.iter().map(
        |e| tiktoken_rs::ChatCompletionRequestMessage {
            role: e.role.as_str().to_string(),
            content: e.msg.clone(),
            name: None,
        },
    ).collect();
    tiktoken_rs::num_tokens_from_messages(model, &converted).ok()
}

/// The bound grows with each message.
pub proof fn lemma_encoded_size_take(messages: Seq<Message>, k: int)
    requires
        0 <= k <= messages.len(),
    ensures
        encoded_size(messages.take(k)) <= encoded_size(messages),
        k < messages.len() ==> encoded_size(messages.take(k + 1)) == encoded_size(messages.take(k))
            + 13 + encode_utf8(messages[k].content).len(),
    decreases messages.len() - k,
{
    if k < messages.len() {
        assert(messages.take(k + 1).drop_last() == messages.take(k));
        assert(messages.take(k + 1).last() == messages[k]);
        lemma_encoded_size_take(messages, k + 1);
    } else {
        assert(messages.take(k) == messages);
    }
}

/// Counts the tokens that the entries take for the model.
pub fn count_tokens(model: &str, entries: &Vec<ChatEntry>) -> (count: Option<usize>)
    ensures
        count == token_count(model@, messages(entries@)),
{
    let ghost all = messages(entries@);
    let mut size: usize = 3;
    let mut i: usize = 0;
    while i < entries.len()
        invariant
            i <= entries.len(),
            all == messages(entries@),
            size == 3 + encoded_size(all.take(i as int)),
            size <= i32::MAX,
            short_texts(all.take(i as int)),
        decreases entries.len() - i,
    {
        let len = entries[i].msg.as_str().as_bytes().len();
        proof {
            lemma_encoded_size_take(all, i as int);
            lemma_encoded_size_take(all, i as int + 1);
            assert(all[i as int].content == entries@[i as int].msg@);
        }
        if len >= MAX_TEXT_SIZE || size > 0x7fff_ffff - 13 - len {
            return None;
        }
        proof {
            let next = all.take(i as int + 1);
            assert forall|j: int| 0 <= j < next.len() implies encode_utf8(
                (#[trigger] next[j]).content,
            ).len() < MAX_TEXT_SIZE by {
                if j < i {
                    assert(next[j] == all.take(i as int)[j]);
                }
            }
        }
        size = size + 13 + len;
        i += 1;
    }
    assert(all.take(i as int) == all);
    num_tokens_from_messages(model, entries)
}

/// A chat history as specifications see it.
pub struct HistoryState {
    /// The model
    pub model: Seq<char>,
    /// The maximum number of tokens that the model takes
    pub max_token: nat,
    /// The number of tokens kept free for the completion
    pub min_token_for_completion: nat,
    /// The pinned messages, which stay at the top of the history
    pub prompt: Seq<Message>,
    /// The number of tokens that the pinned messages were counted to take
    pub prompt_num_tokens: nat,
    /// The rolling messages, oldest first
    pub chitchat: Seq<Message>,
}

impl HistoryState {
    /// A history without messages.
    pub open spec fn empty(model: Seq<char>, max_token: nat, min_token_for_completion: nat) -> Self {
        HistoryState {
            model,
            max_token,
            min_token_for_completion,
            prompt: Seq::empty(),
            prompt_num_tokens: 0,
            chitchat: Seq::empty(),
        }
    }

    /// The pinned count is that of the pinned messages, once any was added.
    pub open spec fn wf(self) -> bool {
        ||| self.prompt.len() == 0 && self.prompt_num_tokens == 0
        ||| token_count(self.model, self.prompt) == Some(self.prompt_num_tokens as usize)
            && self.prompt_num_tokens <= usize::MAX
    }

    /// The tokens left for the rolling messages: what the model takes, less what is
    /// kept for the completion and what the pinned messages take.
    pub open spec fn budget(self) -> int {
        self.max_token - self.min_token_for_completion - self.prompt_num_tokens
    }

    /// The pinned messages alone exceed what the model takes less what is kept for the
    /// completion.
    pub open spec fn prompt_too_long(self) -> bool {
        self.budget() < 0
    }

    /// The rolling messages can be counted and, with the pinned ones, leave the room
    /// kept for the completion.
    pub open spec fn fits(self, rolling: Seq<Message>) -> bool {
        token_count(self.model, rolling) matches Some(n) && n <= self.budget()
    }

    /// Eviction stops at these rolling messages: at most one is left, or they fit,
    /// or they cannot be counted.
    pub open spec fn settled(self, rolling: Seq<Message>) -> bool {
        rolling.len() <= 1 || token_count(self.model, rolling) is None || self.fits(rolling)
    }

    /// The number of messages that eviction drops from the head of the rolling
    /// messages.
    pub open spec fn evicted(self, rolling: Seq<Message>) -> nat
        decreases rolling.len(),
    {
        if self.settled(rolling) {
            0
        } else {
            1 + self.evicted(rolling.drop_first())
        }
    }

    /// The history after eviction.
    pub open spec fn purge(self) -> Self {
        if self.prompt_too_long() {
            HistoryState { chitchat: Seq::empty(), ..self }
        } else {
            HistoryState { chitchat: self.chitchat.skip(self.evicted(self.chitchat) as int), ..self }
        }
    }

    /// What eviction reports: the number of rolling messages left, or why it failed.
    pub open spec fn purge_result(self) -> Result<usize, Error> {
        let rest = self.purge().chitchat;
        if self.prompt_too_long() {
            Err(Error::PromptTooLong)
        } else if rest.len() > 1 && token_count(self.model, rest) is None {
            Err(Error::TokenCount)
        } else {
            Ok(rest.len() as usize)
        }
    }

    /// The history with one more rolling message, before eviction.
    pub open spec fn push(self, entry: Message) -> Self {
        HistoryState { chitchat: self.chitchat.push(entry), ..self }
    }

    /// The history after a rolling message was added.
    pub open spec fn add_chitchat(self, entry: Message) -> Self {
        self.push(entry).purge()
    }

    /// What adding a rolling message reports.
    pub open spec fn add_chitchat_result(self, entry: Message) -> Result<usize, Error> {
        self.push(entry).purge_result()
    }

    /// The history after pinned messages were added: unchanged where the pinned
    /// messages can then no longer be counted.
    pub open spec fn add_prompts(self, prompts: Seq<Message>) -> Self {
        match token_count(self.model, self.prompt + prompts) {
            Some(n) => HistoryState {
                prompt: self.prompt + prompts,
                prompt_num_tokens: n as nat,
                ..self
            },
            None => self,
        }
    }

    /// The history after each of the entries was added as a rolling message, in turn.
    pub open spec fn add_all(self, entries: Seq<Message>) -> Self
        decreases entries.len(),
    {
        if entries.len() == 0 {
            self
        } else {
            self.add_all(entries.drop_last()).add_chitchat(entries.last())
        }
    }

    /// What the last of the additions of `add_all` reports.
    pub open spec fn add_all_result(self, entries: Seq<Message>) -> Result<usize, Error>
        recommends
            entries.len() > 0,
    {
        self.add_all(entries.drop_last()).add_chitchat_result(entries.last())
    }

    /// All the messages, the pinned ones first.
    pub open spec fn all(self) -> Seq<Message> {
        self.prompt + self.chitchat
    }
}

/// After eviction at most one message is left, or the messages left fit, or they
/// cannot be counted. Eviction never drops the last message.
pub proof fn lemma_evicted_settles(h: HistoryState, rolling: Seq<Message>)
    ensures
        h.evicted(rolling) <= rolling.len(),
        rolling.len() > 0 ==> h.evicted(rolling) < rolling.len(),
        h.settled(rolling.skip(h.evicted(rolling) as int)),
    decreases rolling.len(),
{
    if h.settled(rolling) {
        assert(rolling.skip(0) == rolling);
    } else {
        lemma_evicted_settles(h, rolling.drop_first());
        assert(rolling.drop_first().skip(h.evicted(rolling.drop_first()) as int) == rolling.skip(
            h.evicted(rolling) as int,
        ));
    }
}

/// Eviction only drops messages whose removal was needed: before each dropped
/// message more than one was left, and they did not fit.
pub proof fn lemma_evicted_minimal(h: HistoryState, rolling: Seq<Message>, k: int)
    requires
        0 <= k < h.evicted(rolling),
    ensures
        k < rolling.len(),
        !h.settled(rolling.skip(k)),
    decreases rolling.len(),
{
    if k == 0 {
        assert(rolling.skip(0) == rolling);
    } else {
        lemma_evicted_minimal(h, rolling.drop_first(), k - 1);
        assert(rolling.drop_first().skip(k - 1) == rolling.skip(k));
    }
}

/// Once pinned messages were added, the count that is kept of them is their number of
/// tokens.
pub proof fn lemma_pinned_count(h: HistoryState)
    requires
        h.wf(),
        h.prompt.len() > 0,
    ensures
        token_count(h.model, h.prompt) == Some(h.prompt_num_tokens as usize),
        h.prompt_num_tokens as usize == h.prompt_num_tokens,
{
}

/// Whenever adding a rolling message succeeds, the tokens of the pinned and of the
/// rolling messages together are no more than what the model takes less what is kept
/// for the completion, or a single rolling message is left.
pub proof fn lemma_add_chitchat_within_budget(h: HistoryState, entry: Message)
    ensures
        h.add_chitchat_result(entry) is Ok ==> {
            let after = h.add_chitchat(entry);
            ||| token_count(after.model, after.chitchat) matches Some(n) && after.prompt_num_tokens
                + n <= after.max_token - after.min_token_for_completion
            ||| after.chitchat.len() == 1
        },
{
    let pushed = h.push(entry);
    lemma_evicted_settles(pushed, pushed.chitchat);
}

/// What adding a rolling message comes to, case by case. It fails with
/// `PromptTooLong` exactly where the pinned messages alone exceed the budget, and no
/// rolling message is left then. It fails with `TokenCount` exactly where eviction
/// stopped at two or more rolling messages whose tokens cannot be counted. Else it
/// succeeds, and the messages fit the budget or a single rolling message is left.
pub proof fn lemma_add_chitchat_outcome(h: HistoryState, entry: Message)
    ensures
        ({
            let after = h.add_chitchat(entry);
            match h.add_chitchat_result(entry) {
                Ok(_) => {
                    &&& !h.prompt_too_long()
                    &&& after.fits(after.chitchat) || after.chitchat.len() == 1
                },
                Err(Error::PromptTooLong) => h.prompt_too_long() && after.chitchat.len() == 0,
                Err(Error::TokenCount) => {
                    &&& !h.prompt_too_long()
                    &&& after.chitchat.len() > 1
                    &&& token_count(h.model, after.chitchat) is None
                },
            }
        }),
{
    let pushed = h.push(entry);
    lemma_evicted_settles(pushed, pushed.chitchat);
}

/// After each of a series of additions that succeeds, the messages fit the budget or
/// a single rolling message is left.
pub proof fn lemma_add_all_within_budget(h: HistoryState, entries: Seq<Message>, k: int)
    requires
        1 <= k <= entries.len(),
    ensures
        h.add_all_result(entries.take(k)) is Ok ==> {
            let after = h.add_all(entries.take(k));
            ||| after.fits(after.chitchat)
            ||| after.chitchat.len() == 1
        },
{
    let prefix = entries.take(k);
    let before = h.add_all(prefix.drop_last());
    lemma_add_chitchat_within_budget(before, prefix.last());
}

/// Eviction, and adding rolling messages with the evictions that follow, never change
/// the pinned messages, their count or the limits.
pub proof fn lemma_add_all_keeps_prompt(h: HistoryState, entries: Seq<Message>)
    ensures
        h.purge().prompt == h.prompt,
        h.purge().prompt_num_tokens == h.prompt_num_tokens,
        h.add_all(entries).prompt == h.prompt,
        h.add_all(entries).prompt_num_tokens == h.prompt_num_tokens,
        h.add_all(entries).model == h.model,
        h.add_all(entries).max_token == h.max_token,
        h.add_all(entries).min_token_for_completion == h.min_token_for_completion,
        h.wf() ==> h.add_all(entries).wf(),
    decreases entries.len(),
{
    if entries.len() > 0 {
        lemma_add_all_keeps_prompt(h, entries.drop_last());
    }
}

/// Maintain a chat history that can be truncated (from the head) to ensure
/// we have enough tokens to complete the task
///
/// The prompt is the part of the history that we want to stay at the top of the
/// history. The chitchat is the rest of the history.
///
/// Add the prompting messages to the history with [ChatHistory::add_prompts].
///
/// To ensure we have enough tokens to complete the task, we truncate the
/// chitchat history when new messages are added - with
/// [ChatHistory::add_chitchat].
pub struct ChatHistory {
    /// The model
    model: String,
    /// The maximum number of tokens we can have in the history for the model
    max_token: usize,
    /// The minimum number of tokens we need to complete the task
    min_token_for_completion: usize,
    /// The 'prompt' (aka messages we want to stay at the top of the history)
    prompt: Vec<ChatEntry>,
    /// Num token for the prompt
    prompt_num_tokens: usize,
    /// The other messages
    chitchat: Vec<ChatEntry>,
}

impl View for ChatHistory {
    type V = HistoryState;

    closed spec fn view(&self) -> HistoryState {
        HistoryState {
            model: self.model@,
            max_token: self.max_token as nat,
            min_token_for_completion: self.min_token_for_completion as nat,
            prompt: messages(self.prompt@),
            prompt_num_tokens: self.prompt_num_tokens as nat,
            chitchat: messages(self.chitchat@),
        }
    }
}

impl ChatHistory {
    /// Create a new chat history, with the context size of the model as its limit
    pub fn new(model: String, min_token_for_completion: usize) -> (history: Self)
        ensures
            history@ == HistoryState::empty(
                model@,
                context_size(model@),
                min_token_for_completion as nat,
            ),
    {
        let max_token = get_context_size(model.as_str());
        Self::with_context_size(model, max_token, min_token_for_completion)
    }

    /// Create a new chat history with a limit of its own
    pub fn with_context_size(model: String, max_token: usize, min_token_for_completion: usize) -> (history:
        Self)
        ensures
            history@ == HistoryState::empty(
                model@,
                max_token as nat,
                min_token_for_completion as nat,
            ),
    {
        let history = Self {
            max_token,
            model,
            min_token_for_completion,
            prompt: Vec::new(),
            prompt_num_tokens: 0,
            chitchat: Vec::new(),
        };
        assert(messages(history.prompt@) == Seq::<Message>::empty());
        assert(messages(history.chitchat@) == Seq::<Message>::empty());
        history
    }

    /// add a prompt to the history
    ///
    /// The pinned messages are counted anew. Where they cannot be counted, the
    /// history is left as it was.
    pub fn add_prompts(&mut self, prompts: &[(Role, String)]) -> (r: Result<(), Error>)
        ensures
            final(self)@ == old(self)@.add_prompts(prompt_messages(prompts@)),
            r is Ok <==> token_count(
                old(self)@.model,
                old(self)@.prompt + prompt_messages(prompts@),
            ) is Some,
            r is Err ==> r == Err::<(), Error>(Error::TokenCount),
            old(self)@.wf() ==> final(self)@.wf(),
    {
        let before = self.prompt.len();
        let mut i: usize = 0;
        while i < prompts.len()
            invariant
                i <= prompts.len(),
                before == old(self).prompt@.len(),
                self.prompt@.len() == before + i,
                messages(self.prompt@) == old(self)@.prompt + prompt_messages(prompts@).take(
                    i as int,
                ),
                self.prompt@.take(before as int) == old(self).prompt@,
                self.model == old(self).model,
                self.max_token == old(self).max_token,
                self.min_token_for_completion == old(self).min_token_for_completion,
                self.prompt_num_tokens == old(self).prompt_num_tokens,
                self.chitchat == old(self).chitchat,
            decreases prompts.len() - i,
        {
            let entry = ChatEntry { role: prompts[i].0, msg: prompts[i].1.clone() };
            let ghost pinned = self.prompt@;
            self.prompt.push(entry);
            proof {
                let added = prompt_messages(prompts@);
                assert(entry@ == added[i as int]);
                assert(messages(self.prompt@) == messages(pinned).push(entry@));
                assert(added.take(i as int).push(added[i as int]) == added.take(i as int + 1));
            }
            i += 1;
        }
        assert(prompt_messages(prompts@).take(i as int) == prompt_messages(prompts@));
        match count_tokens(self.model.as_str(), &self.prompt) {
            Some(n) => {
                self.prompt_num_tokens = n;
                Ok(())
            },
            None => {
                self.prompt.truncate(before);
                Err(Error::TokenCount)
            },
        }
    }

    /// add a message to the chitchat history, and prune the history if needed
    /// returns the number of messages in the chitchat history
    pub fn add_chitchat(&mut self, entry: ChatEntry) -> (r: Result<usize, Error>)
        ensures
            final(self)@ == old(self)@.add_chitchat(entry@),
            r == old(self)@.add_chitchat_result(entry@),
            final(self)@.prompt == old(self)@.prompt,
            final(self)@.prompt_num_tokens == old(self)@.prompt_num_tokens,
            r is Ok ==> final(self)@.fits(final(self)@.chitchat) || final(self)@.chitchat.len() == 1,
            r matches Ok(n) ==> n == final(self)@.chitchat.len() && n >= 1,
            r matches Err(e) && e == Error::PromptTooLong ==> final(self)@.chitchat.len() == 0,
            old(self)@.wf() ==> final(self)@.wf(),
    {
        proof {
            lemma_add_chitchat_within_budget(self@, entry@);
            lemma_evicted_settles(self@.push(entry@), self@.push(entry@).chitchat);
        }
        self.chitchat.push(entry);
        assert(messages(self.chitchat@) == messages(old(self).chitchat@).push(entry@));
        self.purge()
    }

    /// Whether the pinned messages alone exceed what the model takes, less what is
    /// kept for the completion.
    pub fn prompt_too_long(&self) -> (r: bool)
        ensures
            r == self@.prompt_too_long(),
    {
        self.min_token_for_completion > self.max_token || self.prompt_num_tokens > self.max_token
            - self.min_token_for_completion
    }

    /// prune the chitchat history starting from the head until we have enough
    /// tokens to complete the task
    pub fn purge(&mut self) -> (r: Result<usize, Error>)
        ensures
            final(self)@ == old(self)@.purge(),
            r == old(self)@.purge_result(),
            r matches Ok(n) ==> n == final(self)@.chitchat.len(),
            old(self)@.wf() ==> final(self)@.wf(),
    {
        if self.prompt_too_long() {
            // we can't even fit the prompt
            self.chitchat.clear();
            assert(messages(self.chitchat@) == Seq::<Message>::empty());
            return Err(Error::PromptTooLong);
        }
        let token_budget = self.max_token - self.min_token_for_completion - self.prompt_num_tokens;
        let ghost start = self@;
        let ghost mut dropped: int = 0;
        assert(start.chitchat.skip(0) == start.chitchat);

        // loop until we have enough available tokens to complete the task
        while self.chitchat.len() > 1
            invariant
                start == old(self)@,
                !start.prompt_too_long(),
                token_budget == start.budget(),
                self@ == (HistoryState { chitchat: self@.chitchat, ..start }),
                0 <= dropped <= start.chitchat.len(),
                self@.chitchat == start.chitchat.skip(dropped),
                start.evicted(start.chitchat) == dropped + start.evicted(self@.chitchat),
            decreases self.chitchat.len(),
        {
            match count_tokens(self.model.as_str(), &self.chitchat) {
                None => {
                    assert(self@.chitchat.skip(0) == self@.chitchat);
                    return Err(Error::TokenCount);
                },
                Some(num_tokens) => {
                    if num_tokens <= token_budget {
                        assert(self@.chitchat.skip(0) == self@.chitchat);
                        return Ok(self.chitchat.len());
                    }
                },
            }
            assert(!start.settled(self@.chitchat));
            let ghost current = self@.chitchat;
            self.chitchat.remove(0);
            proof {
                assert(messages(self.chitchat@) == current.drop_first());
                assert(start.chitchat.skip(dropped).drop_first() == start.chitchat.skip(dropped + 1));
                dropped = dropped + 1;
            }
        }
        assert(start.settled(self@.chitchat));
        Ok(self.chitchat.len())
    }

    /// The pinned and then the rolling messages, in the order in which they were added
    pub fn iter(&self) -> (entries: Vec<&ChatEntry>)
        ensures
            entries@.len() == self@.all().len(),
            forall|i: int| 0 <= i < entries@.len() ==> (#[trigger] entries@[i])@ == self@.all()[i],
    {
        let mut entries: Vec<&ChatEntry> = Vec::new();
        let mut i: usize = 0;
        while i < self.prompt.len()
            invariant
                i <= self.prompt.len(),
                entries@.len() == i,
                forall|j: int| 0 <= j < i ==> (#[trigger] entries@[j])@ == self@.prompt[j],
            decreases self.prompt.len() - i,
        {
            entries.push(&self.prompt[i]);
            i += 1;
        }
        let mut k: usize = 0;
        while k < self.chitchat.len()
            invariant
                k <= self.chitchat.len(),
                entries@.len() == self.prompt.len() + k,
                forall|j: int| 0 <= j < self.prompt.len() ==> (#[trigger] entries@[j])@ == self@.prompt[j],
                forall|j: int|
                    0 <= j < k ==> (#[trigger] entries@[self.prompt.len() + j])@ == self@.chitchat[j],
            decreases self.chitchat.len() - k,
        {
            entries.push(&self.chitchat[k]);
            k += 1;
        }
        assert forall|i: int| 0 <= i < entries@.len() implies (#[trigger] entries@[i])@
            == self@.all()[i] by {
            if i >= self.prompt.len() {
                let j = i - self.prompt.len();
                assert(entries@[self.prompt.len() + j]@ == self@.chitchat[j]);
            }
        }
        entries
    }

    /// format the history using the given formatter: for each message the string that
    /// the formatter gives for it, the pinned ones first
    pub fn format<T>(&self, formatter: &T) -> (lines: Vec<String>) where T: ChatEntryFormatter + ?Sized
        ensures
            lines@.len() == self@.all().len(),
            forall|i: int|
                0 <= i < lines@.len() ==> formats(formatter, self@.all()[i], #[trigger] lines@[i]),
    {
        let entries = self.iter();
        let mut lines: Vec<String> = Vec::new();
        let mut i: usize = 0;
        while i < entries.len()
            invariant
                i <= entries.len(),
                lines@.len() == i,
                entries@.len() == self@.all().len(),
                forall|j: int|
                    0 <= j < entries@.len() ==> (#[trigger] entries@[j])@ == self@.all()[j],
                forall|j: int| 0 <= j < i ==> formats(formatter, self@.all()[j], #[trigger] lines@[j]),
            decreases entries.len() - i,
        {
            let line = format_entry(formatter, entries[i]);
            lines.push(line);
            i += 1;
        }
        lines
    }

    /// The number of rolling messages
    pub fn chitchat_len(&self) -> (n: usize)
        ensures
            n == self@.chitchat.len(),
    {
        self.chitchat.len()
    }

    /// The number of tokens that the pinned messages were counted to take
    pub fn prompt_num_tokens(&self) -> (n: usize)
        ensures
            n == self@.prompt_num_tokens,
    {
        self.prompt_num_tokens
    }

    /// The model
    pub fn model(&self) -> (model: &str)
        ensures
            model@ == self@.model,
    {
        self.model.as_str()
    }

    /// The number of tokens kept free for the completion
    pub fn min_token_for_completion(&self) -> (n: usize)
        ensures
            n == self@.min_token_for_completion,
    {
        self.min_token_for_completion
    }

    /// The maximum number of tokens that the model takes
    pub fn max_token(&self) -> (n: usize)
        ensures
            n == self@.max_token,
    {
        self.max_token
    }

    /// A copy of the history
    pub fn duplicate(&self) -> (copy: Self)
        ensures
            copy@ == self@,
    {
        let copy = ChatHistory {
            model: self.model.clone(),
            max_token: self.max_token,
            min_token_for_completion: self.min_token_for_completion,
            prompt: copy_entries(&self.prompt),
            prompt_num_tokens: self.prompt_num_tokens,
            chitchat: copy_entries(&self.chitchat),
        };
        copy
    }
}

/// A copy of the entries.
fn copy_entries(entries: &Vec<ChatEntry>) -> (copy: Vec<ChatEntry>)
    ensures
        copy@ == entries@,
{
    let mut copy: Vec<ChatEntry> = Vec::new();
    let mut i: usize = 0;
    while i < entries.len()
        invariant
            i <= entries.len(),
            copy@ == entries@.take(i as int),
        decreases entries.len() - i,
    {
        copy.push(entries[i].clone());
        assert(entries@.take(i as int).push(entries@[i as int]) == entries@.take(i as int + 1));
        i += 1;
    }
    assert(entries@.take(i as int) == entries@);
    copy
}

} // verus!
