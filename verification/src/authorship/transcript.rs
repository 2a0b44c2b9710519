//! Transcripts of AI sessions.
use crate::json::{at, items_in, json_of, member, parse, text_in, unsigned_in, Json, JsonView};
use crate::text::{is_blank, lines, lines_of, same, trimmed};
use vstd::prelude::*;

verus! {

broadcast use vstd::seq::group_seq_axioms;

/// Optional token/usage information for a model response.
///
/// This is intentionally flexible to support multiple agent formats.
#[derive(Debug, Clone, Copy, PartialEq)]
pub struct MessageUsage {
    pub input_tokens: Option<u32>,
    pub output_tokens: Option<u32>,
    pub cache_creation_input_tokens: Option<u32>,
    pub cache_read_input_tokens: Option<u32>,
}

impl Default for MessageUsage {
    fn default() -> (r: Self)
        ensures
            r.input_tokens is None,
            r.output_tokens is None,
            r.cache_creation_input_tokens is None,
            r.cache_read_input_tokens is None,
    {
        MessageUsage {
            input_tokens: None,
            output_tokens: None,
            cache_creation_input_tokens: None,
            cache_read_input_tokens: None,
        }
    }
}

impl DeepView for MessageUsage {
    type V = MessageUsage;

    open spec fn deep_view(&self) -> MessageUsage {
        *self
    }
}

/// Represents a single message in an AI transcript
#[derive(Debug, PartialEq)]
pub enum Message {
    User { text: String, timestamp: Option<String> },
    Assistant {
        text: String,
        timestamp: Option<String>,
        /// Optional token usage reported by the agent for this response.
        usage: Option<MessageUsage>,
    },
    ToolUse { name: String, input: Json, timestamp: Option<String> },
}

/// What a message holds.
pub enum MessageView {
    User { text: Seq<char>, timestamp: Option<Seq<char>> },
    Assistant { text: Seq<char>, timestamp: Option<Seq<char>>, usage: Option<MessageUsage> },
    ToolUse { name: Seq<char>, input: JsonView, timestamp: Option<Seq<char>> },
}

impl DeepView for Message {
    type V = MessageView;

    open spec fn deep_view(&self) -> MessageView {
        match *self {
            Message::User { text, timestamp } => MessageView::User {
                text: text@,
                timestamp: timestamp.deep_view(),
            },
            Message::Assistant { text, timestamp, usage } => MessageView::Assistant {
                text: text@,
                timestamp: timestamp.deep_view(),
                usage,
            },
            Message::ToolUse { name, input, timestamp } => MessageView::ToolUse {
                name: name@,
                input: input.deep_view(),
                timestamp: timestamp.deep_view(),
            },
        }
    }
}

impl Clone for Message {
    fn clone(&self) -> (r: Self)
        ensures
            r.deep_view() == self.deep_view(),
    {
        match self {
            Message::User { text, timestamp } => Message::User {
                text: text.clone(),
                timestamp: timestamp.clone(),
            },
            Message::Assistant { text, timestamp, usage } => Message::Assistant {
                text: text.clone(),
                timestamp: timestamp.clone(),
                usage: *usage,
            },
            Message::ToolUse { name, input, timestamp } => Message::ToolUse {
                name: name.clone(),
                input: input.clone(),
                timestamp: timestamp.clone(),
            },
        }
    }
}

impl Message {
    /// Create a user message
    pub fn user(text: String, timestamp: Option<String>) -> (r: Self)
        ensures
            r == (Message::User { text, timestamp }),
    {
        Message::User { text, timestamp }
    }

    /// Create an assistant message
    pub fn assistant(text: String, timestamp: Option<String>) -> (r: Self)
        ensures
            r == (Message::Assistant { text, timestamp, usage: None }),
    {
        Message::Assistant { text, timestamp, usage: None }
    }

    /// Create a tool use message
    pub fn tool_use(name: String, input: Json) -> (r: Self)
        ensures
            r == (Message::ToolUse { name, input, timestamp: None }),
    {
        Message::ToolUse { name, input, timestamp: None }
    }

    /// Get the text content if this is a user or assistant message
    pub fn text(&self) -> (r: Option<&String>)
        ensures
            match *self {
                Message::User { text, .. } => r == Some(&text),
                Message::Assistant { text, .. } => r == Some(&text),
                Message::ToolUse { .. } => r is None,
            },
    {
        match self {
            Message::User { text, .. } => Some(text),
            Message::Assistant { text, .. } => Some(text),
            Message::ToolUse { .. } => None,
        }
    }

    /// Check if this is a tool use message
    pub fn is_tool_use(&self) -> (r: bool)
        ensures
            r == (self is ToolUse),
    {
        match self {
            Message::ToolUse { .. } => true,
            _ => false,
        }
    }
}

/// Represents a complete AI transcript (collection of messages)
#[derive(Debug, PartialEq)]
pub struct AiTranscript {
    pub messages: Vec<Message>,
}

impl DeepView for AiTranscript {
    type V = Seq<MessageView>;

    open spec fn deep_view(&self) -> Seq<MessageView> {
        self.messages.deep_view()
    }
}

/// Copies a list of messages.
pub fn clone_messages(messages: &Vec<Message>) -> (r: Vec<Message>)
    ensures
        r.deep_view() == messages.deep_view(),
{
    let r = messages.clone();
    assert(r.deep_view() =~= messages.deep_view());
    r
}

impl Clone for AiTranscript {
    fn clone(&self) -> (r: Self)
        ensures
            r.deep_view() == self.deep_view(),
    {
        AiTranscript { messages: clone_messages(&self.messages) }
    }
}

impl Default for AiTranscript {
    fn default() -> (r: Self)
        ensures
            r.messages@.len() == 0,
    {
        AiTranscript::new()
    }
}

/// The messages of `s` that are no tool uses, in order.
pub open spec fn spoken(s: Seq<MessageView>) -> Seq<MessageView>
    decreases s.len(),
{
    if s.len() == 0 {
        Seq::empty()
    } else if s.last() is ToolUse {
        spoken(s.drop_last())
    } else {
        spoken(s.drop_last()).push(s.last())
    }
}

/// No tool use is left among the spoken messages.
pub proof fn law_no_tool_use_is_left(s: Seq<MessageView>)
    ensures
        forall|i: int| 0 <= i < spoken(s).len() ==> !((#[trigger] spoken(s)[i]) is ToolUse),
        spoken(s).len() <= s.len(),
    decreases s.len(),
{
    if s.len() > 0 {
        law_no_tool_use_is_left(s.drop_last());
    }
}

/// A transcript without tool uses is left as it is.
pub proof fn law_speech_is_kept(s: Seq<MessageView>)
    requires
        forall|i: int| 0 <= i < s.len() ==> !((#[trigger] s[i]) is ToolUse),
    ensures
        spoken(s) == s,
    decreases s.len(),
{
    if s.len() > 0 {
        law_speech_is_kept(s.drop_last());
        assert(s.drop_last().push(s.last()) =~= s);
    } else {
        assert(spoken(s) =~= s);
    }
}

/// Filtering a transcript twice gives what filtering it once gives.
pub proof fn law_without_tool_use_idempotent(s: Seq<MessageView>)
    ensures
        spoken(spoken(s)) == spoken(s),
{
    law_no_tool_use_is_left(s);
    law_speech_is_kept(spoken(s));
}

impl AiTranscript {
    /// Create a new empty transcript
    pub fn new() -> (r: Self)
        ensures
            r.messages@.len() == 0,
    {
        AiTranscript { messages: Vec::new() }
    }

    /// Add a message to the transcript
    pub fn add_message(&mut self, message: Message)
        ensures
            final(self).messages@ == old(self).messages@.push(message),
            final(self).deep_view() == old(self).deep_view().push(message.deep_view()),
    {
        let ghost before = self.deep_view();
        self.messages.push(message);
        assert(self.deep_view() =~= before.push(message.deep_view()));
    }

    /// Get all messages
    pub fn messages(&self) -> (r: &[Message])
        ensures
            r@ == self.messages@,
    {
        self.messages.as_slice()
    }

    /// Filter out tool use messages
    pub fn without_tool_use(&self) -> (r: Self)
        ensures
            r.deep_view() == spoken(self.deep_view()),
    {
        let mut out = AiTranscript::new();
        let ghost all = self.deep_view();
        let mut i: usize = 0;
        assert(out.deep_view() =~= spoken(all.take(0)));
        while i < self.messages.len()
            invariant
                i <= self.messages@.len(),
                all == self.deep_view(),
                out.deep_view() == spoken(all.take(i as int)),
            decreases self.messages@.len() - i,
        {
            assert(all.take(i + 1).drop_last() =~= all.take(i as int));
            assert(all[i as int] == self.messages@[i as int].deep_view());
            if !self.messages[i].is_tool_use() {
                let copy = self.messages[i].clone();
                out.add_message(copy);
            }
            i = i + 1;
        }
        assert(all.take(all.len() as int) =~= all);
        out
    }
}

// ---------------------------------------------------------------------------------------------
// Session files
// ---------------------------------------------------------------------------------------------
/// The low 32 bits of a count.
pub open spec fn low_bits(n: u64) -> u32 {
    (n % 0x1_0000_0000) as u32
}

/// A count of tokens under `key`.
pub open spec fn token_count(usage: JsonView, key: Seq<char>) -> Option<u32> {
    match member(usage, key) {
        Some(v) => match unsigned_in(v) {
            Some(n) => Some(low_bits(n)),
            None => None,
        },
        None => None,
    }
}

/// The token usage that an entry reports.
pub open spec fn usage_in(entry: JsonView) -> Option<MessageUsage> {
    match member(entry, "message"@) {
        Some(message) => match member(message, "usage"@) {
            Some(usage) => if usage is Object {
                Some(
                    MessageUsage {
                        input_tokens: token_count(usage, "input_tokens"@),
                        output_tokens: token_count(usage, "output_tokens"@),
                        cache_creation_input_tokens: token_count(
                            usage,
                            "cache_creation_input_tokens"@,
                        ),
                        cache_read_input_tokens: token_count(usage, "cache_read_input_tokens"@),
                    },
                )
            } else {
                None
            },
            None => None,
        },
        None => None,
    }
}

/// The model that an entry names, where it is the assistant's.
pub open spec fn model_in(entry: JsonView) -> Option<Seq<char>> {
    if text_in(at(entry, "type"@)) == Some("assistant"@) {
        text_in(at(at(entry, "message"@), "model"@))
    } else {
        None
    }
}

/// The user's message with the text of `v`, where `v` is a text that is not blank.
pub open spec fn user_message(v: JsonView, timestamp: Option<Seq<char>>) -> Seq<MessageView> {
    match text_in(v) {
        Some(text) => if trimmed(text).len() > 0 {
            seq![MessageView::User { text, timestamp }]
        } else {
            Seq::empty()
        },
        None => Seq::empty(),
    }
}

/// The user's messages in the contents of the first `n` of `items`.
pub open spec fn user_messages(
    items: Seq<JsonView>,
    n: nat,
    timestamp: Option<Seq<char>>,
) -> Seq<MessageView>
    decreases n,
{
    if n == 0 {
        Seq::empty()
    } else {
        user_messages(items, (n - 1) as nat, timestamp) + user_message(
            at(items[n - 1], "content"@),
            timestamp,
        )
    }
}

/// The assistant's message in one item of content: a text that is not blank, or the use of a tool
/// that has a name and an object for input.
pub open spec fn assistant_message(
    item: JsonView,
    timestamp: Option<Seq<char>>,
    usage: Option<MessageUsage>,
) -> Seq<MessageView> {
    if text_in(at(item, "type"@)) == Some("text"@) {
        match text_in(at(item, "text"@)) {
            Some(text) => if trimmed(text).len() > 0 {
                seq![MessageView::Assistant { text, timestamp, usage }]
            } else {
                Seq::empty()
            },
            None => Seq::empty(),
        }
    } else if text_in(at(item, "type"@)) == Some("tool_use"@) {
        match text_in(at(item, "name"@)) {
            Some(name) => if at(item, "input"@) is Object {
                seq![MessageView::ToolUse { name, input: at(item, "input"@), timestamp }]
            } else {
                Seq::empty()
            },
            None => Seq::empty(),
        }
    } else {
        Seq::empty()
    }
}

/// The assistant's messages in the first `n` of `items`.
pub open spec fn assistant_messages(
    items: Seq<JsonView>,
    n: nat,
    timestamp: Option<Seq<char>>,
    usage: Option<MessageUsage>,
) -> Seq<MessageView>
    decreases n,
{
    if n == 0 {
        Seq::empty()
    } else {
        assistant_messages(items, (n - 1) as nat, timestamp, usage) + assistant_message(
            items[n - 1],
            timestamp,
            usage,
        )
    }
}

/// The messages that one entry of a session file holds.
pub open spec fn messages_in(entry: JsonView) -> Seq<MessageView> {
    let timestamp = text_in(at(entry, "timestamp"@));
    let content = at(at(entry, "message"@), "content"@);
    if text_in(at(entry, "type"@)) == Some("user"@) {
        if content is Text {
            user_message(content, timestamp)
        } else {
            match items_in(content) {
                Some(items) => user_messages(items, items.len(), timestamp),
                None => Seq::empty(),
            }
        }
    } else if text_in(at(entry, "type"@)) == Some("assistant"@) {
        match items_in(content) {
            Some(items) => assistant_messages(items, items.len(), timestamp, usage_in(entry)),
            None => Seq::empty(),
        }
    } else {
        Seq::empty()
    }
}

/// The messages and the model in the lines of a session file: the messages of all entries in
/// order, and the first model that an entry of the assistant names. There are none where a line
/// that is not blank is not JSON.
pub open spec fn session_in(file: Seq<Seq<char>>) -> Option<
    (Seq<MessageView>, Option<Seq<char>>),
>
    decreases file.len(),
{
    if file.len() == 0 {
        Some((Seq::empty(), None))
    } else {
        match session_in(file.drop_last()) {
            None => None,
            Some((messages, model)) => if trimmed(file.last()).len() == 0 {
                Some((messages, model))
            } else {
                match json_of(file.last()) {
                    None => None,
                    Some(entry) => Some(
                        (
                            messages + messages_in(entry),
                            if model is None {
                                model_in(entry)
                            } else {
                                model
                            },
                        ),
                    ),
                }
            },
        }
    }
}

/// A line that cannot be read makes the whole file unreadable.
proof fn lemma_session_prefix(file: Seq<Seq<char>>, k: int)
    requires
        0 <= k <= file.len(),
        session_in(file.take(k)) is None,
    ensures
        session_in(file) is None,
    decreases file.len() - k,
{
    if k < file.len() {
        assert(file.take(k + 1).drop_last() =~= file.take(k));
        lemma_session_prefix(file, k + 1);
    } else {
        assert(file.take(k) =~= file);
    }
}

/// Reading a session file is reading its lines one after the other: what the first lines hold
/// stays at the start of what the whole file holds, and a model that they name stays the model.
pub proof fn law_session_grows(file: Seq<Seq<char>>, k: int)
    requires
        0 <= k <= file.len(),
        session_in(file) is Some,
    ensures
        session_in(file.take(k)) is Some,
        session_in(file.take(k)).unwrap().0.is_prefix_of(session_in(file).unwrap().0),
        session_in(file.take(k)).unwrap().1 is Some ==> session_in(file).unwrap().1 == session_in(
            file.take(k),
        ).unwrap().1,
    decreases file.len() - k,
{
    if k < file.len() {
        assert(file.take(k + 1).drop_last() =~= file.take(k));
        law_session_grows(file, k + 1);
    } else {
        assert(file.take(k) =~= file);
    }
}

/// The member `key` of an object, and nothing that holds a text or items where there is none.
fn member_at<'a>(value: Option<&'a Json>, key: &str) -> (r: Option<&'a Json>)
    ensures
        match value {
            Some(v) => match r {
                Some(m) => member(v.deep_view(), key@) == Some(m.deep_view()) && at(
                    v.deep_view(),
                    key@,
                ) == m.deep_view(),
                None => member(v.deep_view(), key@) is None && at(v.deep_view(), key@)
                    == JsonView::Null,
            },
            None => r is None,
        },
{
    match value {
        Some(v) => v.get(key),
        None => None,
    }
}

fn text_at(value: Option<&Json>, key: &str) -> (r: Option<String>)
    ensures
        match value {
            Some(v) => r.deep_view() == text_in(at(v.deep_view(), key@)),
            None => r is None,
        },
{
    match member_at(value, key) {
        Some(v) => match v.as_str() {
            Some(t) => Some(t.clone()),
            None => None,
        },
        None => None,
    }
}

fn is_text(value: &Option<String>, wanted: &str) -> (r: bool)
    ensures
        r == (value.deep_view() == Some(wanted@)),
{
    match value {
        Some(t) => same(t.as_str(), wanted),
        None => false,
    }
}

fn tokens(usage: &Json, key: &str) -> (r: Option<u32>)
    ensures
        r == token_count(usage.deep_view(), key@),
{
    match usage.get(key) {
        Some(v) => match v.as_u64() {
            Some(n) => {
                assert(n as u32 == n % 0x1_0000_0000u64) by (bit_vector);
                Some(n as u32)
            },
            None => None,
        },
        None => None,
    }
}

fn usage_of(entry: &Json) -> (r: Option<MessageUsage>)
    ensures
        r == usage_in(entry.deep_view()),
{
    match member_at(entry.get("message"), "usage") {
        Some(usage) => if usage.is_object() {
            Some(
                MessageUsage {
                    input_tokens: tokens(usage, "input_tokens"),
                    output_tokens: tokens(usage, "output_tokens"),
                    cache_creation_input_tokens: tokens(usage, "cache_creation_input_tokens"),
                    cache_read_input_tokens: tokens(usage, "cache_read_input_tokens"),
                },
            )
        } else {
            None
        },
        None => None,
    }
}

/// The model that an entry of a session file names, where it is the assistant's.
pub fn entry_model(entry: &Json) -> (r: Option<String>)
    ensures
        r.deep_view() == model_in(entry.deep_view()),
{
    if is_text(&text_at(Some(entry), "type"), "assistant") {
        text_at(entry.get("message"), "model")
    } else {
        None
    }
}

impl AiTranscript {
    /// Adds the user's message with the text of `v`, where `v` is a text that is not blank.
    fn add_user_text(&mut self, v: Option<&Json>, timestamp: &Option<String>)
        ensures
            final(self).deep_view() == old(self).deep_view() + (match v {
                Some(j) => user_message(j.deep_view(), timestamp.deep_view()),
                None => Seq::empty(),
            }),
    {
        let ghost before = self.deep_view();
        match v {
            Some(j) => match j.as_str() {
                Some(text) => if !is_blank(text.as_str()) {
                    self.add_message(
                        Message::User { text: text.clone(), timestamp: timestamp.clone() },
                    );
                    assert(self.deep_view() =~= before + user_message(
                        j.deep_view(),
                        timestamp.deep_view(),
                    ));
                },
                None => {},
            },
            None => {},
        }
        assert(before + Seq::<MessageView>::empty() =~= before);
    }

    /// Adds the assistant's message in one item of content.
    fn add_assistant_item(
        &mut self,
        item: &Json,
        timestamp: &Option<String>,
        usage: Option<MessageUsage>,
    )
        ensures
            final(self).deep_view() == old(self).deep_view() + assistant_message(
                item.deep_view(),
                timestamp.deep_view(),
                usage,
            ),
    {
        let ghost before = self.deep_view();
        let kind = text_at(Some(item), "type");
        if is_text(&kind, "text") {
            match text_at(Some(item), "text") {
                Some(text) => if !is_blank(text.as_str()) {
                    self.add_message(
                        Message::Assistant { text, timestamp: timestamp.clone(), usage },
                    );
                },
                None => {},
            }
        } else if is_text(&kind, "tool_use") {
            match (text_at(Some(item), "name"), item.get("input")) {
                (Some(name), Some(input)) => if input.is_object() {
                    self.add_message(
                        Message::ToolUse {
                            name,
                            input: input.clone(),
                            timestamp: timestamp.clone(),
                        },
                    );
                },
                _ => {},
            }
        }
        assert(self.deep_view() =~= before + assistant_message(
            item.deep_view(),
            timestamp.deep_view(),
            usage,
        ));
    }

    /// Adds the messages that one entry of a session file holds.
    pub fn add_entry(&mut self, entry: &Json)
        ensures
            final(self).deep_view() == old(self).deep_view() + messages_in(entry.deep_view()),
    {
        let ghost before = self.deep_view();
        let ghost e = entry.deep_view();
        let timestamp = text_at(Some(entry), "timestamp");
        let kind = text_at(Some(entry), "type");
        let content = member_at(entry.get("message"), "content");
        if is_text(&kind, "user") {
            let is_plain: bool = match content {
                Some(c) => c.as_str().is_some(),
                None => false,
            };
            if is_plain {
                self.add_user_text(content, &timestamp);
            } else {
                match content {
                    Some(c) => match c.as_array() {
                        Some(items) => {
                            let mut i: usize = 0;
                            assert(before + Seq::<MessageView>::empty() =~= before);
                            while i < items.len()
                                invariant
                                    i <= items@.len(),
                                    self.deep_view() == before + user_messages(
                                        items.deep_view(),
                                        i as nat,
                                        timestamp.deep_view(),
                                    ),
                                decreases items@.len() - i,
                            {
                                let ghost here = self.deep_view();
                                let ghost add = user_message(
                                    at(items@[i as int].deep_view(), "content"@),
                                    timestamp.deep_view(),
                                );
                                self.add_user_text(items[i].get("content"), &timestamp);
                                assert(self.deep_view() =~= here + add);
                                assert(here + add =~= before + user_messages(
                                    items.deep_view(),
                                    (i + 1) as nat,
                                    timestamp.deep_view(),
                                ));
                                i = i + 1;
                            }
                        },
                        None => {},
                    },
                    None => {},
                }
            }
        } else if is_text(&kind, "assistant") {
            let usage = usage_of(entry);
            match content {
                Some(c) => match c.as_array() {
                    Some(items) => {
                        let mut i: usize = 0;
                        assert(before + Seq::<MessageView>::empty() =~= before);
                        while i < items.len()
                            invariant
                                i <= items@.len(),
                                self.deep_view() == before + assistant_messages(
                                    items.deep_view(),
                                    i as nat,
                                    timestamp.deep_view(),
                                    usage,
                                ),
                            decreases items@.len() - i,
                        {
                            let ghost here = self.deep_view();
                            let ghost add = assistant_message(
                                items@[i as int].deep_view(),
                                timestamp.deep_view(),
                                usage,
                            );
                            self.add_assistant_item(&items[i], &timestamp, usage);
                            assert(here + add =~= before + assistant_messages(
                                items.deep_view(),
                                (i + 1) as nat,
                                timestamp.deep_view(),
                                usage,
                            ));
                            i = i + 1;
                        }
                    },
                    None => {},
                },
                None => {},
            }
        }
        assert(before + Seq::<MessageView>::empty() =~= before);
    }

    /// Parse the JSONL file of a session into a transcript and extract model info
    pub fn from_claude_code_jsonl_with_model(jsonl_content: &str) -> (r: Result<
        (Self, Option<String>),
        serde_json::Error,
    >)
        ensures
            match r {
                Ok((transcript, model)) => session_in(lines_of(jsonl_content@)) == Some(
                    (transcript.deep_view(), model.deep_view()),
                ),
                Err(_) => session_in(lines_of(jsonl_content@)) is None,
            },
    {
        let file = lines(jsonl_content);
        let ghost all = lines_of(jsonl_content@);
        let mut transcript = AiTranscript::new();
        let mut model: Option<String> = None;
        let mut i: usize = 0;
        assert(transcript.deep_view() =~= Seq::<MessageView>::empty());
        assert(all.take(0) =~= Seq::empty());
        while i < file.len()
            invariant
                i <= file@.len(),
                file.deep_view() == all,
                all == lines_of(jsonl_content@),
                session_in(all.take(i as int)) == Some((transcript.deep_view(), model.deep_view())),
            decreases file@.len() - i,
        {
            assert(all.take(i + 1).drop_last() =~= all.take(i as int));
            assert(all[i as int] == file@[i as int]@);
            if !is_blank(file[i].as_str()) {
                match parse(file[i].as_str()) {
                    Ok(entry) => {
                        if model.is_none() {
                            model = entry_model(&entry);
                        }
                        transcript.add_entry(&entry);
                    },
                    Err(e) => {
                        proof {
                            lemma_session_prefix(all, i + 1);
                        }
                        return Err(e);
                    },
                }
            }
            i = i + 1;
        }
        assert(all.take(all.len() as int) =~= all);
        Ok((transcript, model))
    }
}

} // verus!
