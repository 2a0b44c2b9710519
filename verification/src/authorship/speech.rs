//! What is read of the record of an AI session.
use crate::authorship::transcript::{
    assistant_message, assistant_messages, messages_in, model_in, session_in, spoken, token_count,
    usage_in, user_message, user_messages, MessageUsage, MessageView,
};
use crate::json::{at, json_of, member, member_place, text_in, JsonView};
use crate::text::trimmed;
use vstd::prelude::*;

verus! {

broadcast use vstd::seq::group_seq_axioms;

proof fn lemma_member_place(members: Seq<(Seq<char>, JsonView)>, key: Seq<char>, k: int)
    requires
        0 <= k <= members.len(),
        forall|j: int| 0 <= j < k ==> (#[trigger] members[j]).0 != key,
        k < members.len() ==> members[k].0 == key,
    ensures
        member_place(members, key) == k,
    decreases k,
{
    if k > 0 {
        assert(members[0].0 != key);
        lemma_member_place(members.drop_first(), key, k - 1);
    }
}

/// A member of an object is the value beside its name, the first where there are several; an object
/// has no member of another name, and nothing but an object has any.
pub proof fn law_members(members: Seq<(Seq<char>, JsonView)>, key: Seq<char>, k: int)
    requires
        0 <= k <= members.len(),
        forall|j: int| 0 <= j < k ==> (#[trigger] members[j]).0 != key,
        k < members.len() ==> members[k].0 == key,
    ensures
        member(JsonView::Object(members), key) == (if k < members.len() {
            Some(members[k].1)
        } else {
            None::<JsonView>
        }),
{
    lemma_member_place(members, key, k);
}

/// The text that a person wrote is a message of theirs, with the time of its entry; a text of white
/// space is none.
pub proof fn law_what_a_user_said(entry: JsonView, text: Seq<char>)
    requires
        at(entry, "type"@) == JsonView::Text("user"@),
        at(at(entry, "message"@), "content"@) == JsonView::Text(text),
    ensures
        trimmed(text).len() > 0 ==> messages_in(entry) == seq![
            MessageView::User { text, timestamp: text_in(at(entry, "timestamp"@)) },
        ],
        trimmed(text).len() == 0 ==> messages_in(entry).len() == 0,
{
}

proof fn lemma_user_items(
    one: Seq<JsonView>,
    other: Seq<JsonView>,
    n: nat,
    timestamp: Option<Seq<char>>,
)
    requires
        n <= other.len(),
    ensures
        user_messages(one + other, one.len() + n, timestamp) == user_messages(
            one,
            one.len(),
            timestamp,
        ) + user_messages(other, n, timestamp),
    decreases n,
{
    if n == 0 {
        lemma_user_prefix(one, other, one.len(), timestamp);
        assert(user_messages(one, one.len(), timestamp) + user_messages(other, 0, timestamp)
            =~= user_messages(one, one.len(), timestamp));
    } else {
        lemma_user_items(one, other, (n - 1) as nat, timestamp);
        assert((one + other)[one.len() + n - 1] == other[n - 1]);
        assert(user_messages(one + other, one.len() + n, timestamp) =~= user_messages(
            one,
            one.len(),
            timestamp,
        ) + user_messages(other, n, timestamp));
    }
}

proof fn lemma_user_prefix(
    one: Seq<JsonView>,
    other: Seq<JsonView>,
    n: nat,
    timestamp: Option<Seq<char>>,
)
    requires
        n <= one.len(),
    ensures
        user_messages(one + other, n, timestamp) == user_messages(one, n, timestamp),
    decreases n,
{
    if n > 0 {
        lemma_user_prefix(one, other, (n - 1) as nat, timestamp);
        assert((one + other)[n - 1] == one[n - 1]);
    }
}

proof fn lemma_assistant_items(
    one: Seq<JsonView>,
    other: Seq<JsonView>,
    n: nat,
    timestamp: Option<Seq<char>>,
    usage: Option<MessageUsage>,
)
    requires
        n <= other.len(),
    ensures
        assistant_messages(one + other, one.len() + n, timestamp, usage) == assistant_messages(
            one,
            one.len(),
            timestamp,
            usage,
        ) + assistant_messages(other, n, timestamp, usage),
    decreases n,
{
    if n == 0 {
        lemma_assistant_prefix(one, other, one.len(), timestamp, usage);
        assert(assistant_messages(one, one.len(), timestamp, usage) + assistant_messages(
            other,
            0,
            timestamp,
            usage,
        ) =~= assistant_messages(one, one.len(), timestamp, usage));
    } else {
        lemma_assistant_items(one, other, (n - 1) as nat, timestamp, usage);
        assert((one + other)[one.len() + n - 1] == other[n - 1]);
        assert(assistant_messages(one + other, one.len() + n, timestamp, usage)
            =~= assistant_messages(one, one.len(), timestamp, usage) + assistant_messages(
            other,
            n,
            timestamp,
            usage,
        ));
    }
}

proof fn lemma_assistant_prefix(
    one: Seq<JsonView>,
    other: Seq<JsonView>,
    n: nat,
    timestamp: Option<Seq<char>>,
    usage: Option<MessageUsage>,
)
    requires
        n <= one.len(),
    ensures
        assistant_messages(one + other, n, timestamp, usage) == assistant_messages(
            one,
            n,
            timestamp,
            usage,
        ),
    decreases n,
{
    if n > 0 {
        lemma_assistant_prefix(one, other, (n - 1) as nat, timestamp, usage);
        assert((one + other)[n - 1] == one[n - 1]);
    }
}

/// The items of an entry are read one after the other: what is read of some and what is read of
/// others is what is read of all of them.
pub proof fn law_items_are_read_in_order(
    one: Seq<JsonView>,
    other: Seq<JsonView>,
    timestamp: Option<Seq<char>>,
    usage: Option<MessageUsage>,
)
    ensures
        user_messages(one + other, (one + other).len(), timestamp) == user_messages(
            one,
            one.len(),
            timestamp,
        ) + user_messages(other, other.len(), timestamp),
        assistant_messages(one + other, (one + other).len(), timestamp, usage)
            == assistant_messages(one, one.len(), timestamp, usage) + assistant_messages(
            other,
            other.len(),
            timestamp,
            usage,
        ),
{
    lemma_user_items(one, other, other.len(), timestamp);
    lemma_assistant_items(one, other, other.len(), timestamp, usage);
}

/// An item of what an AI said is its text, with the time and the tokens of its entry; the use of a
/// tool is the tool's name with what it was given, and the time.
pub proof fn law_what_an_assistant_said(entry: JsonView, item: JsonView, text: Seq<char>)
    requires
        at(entry, "type"@) == JsonView::Text("assistant"@),
        at(at(entry, "message"@), "content"@) == JsonView::Array(seq![item]),
    ensures
        at(item, "type"@) == JsonView::Text("text"@) && at(item, "text"@) == JsonView::Text(text)
            && trimmed(text).len() > 0 ==> messages_in(entry) == seq![
            MessageView::Assistant {
                text,
                timestamp: text_in(at(entry, "timestamp"@)),
                usage: usage_in(entry),
            },
        ],
        at(item, "type"@) == JsonView::Text("tool_use"@) && at(item, "name"@) == JsonView::Text(
            text,
        ) && at(item, "input"@) is Object ==> messages_in(entry) == seq![
            MessageView::ToolUse {
                name: text,
                input: at(item, "input"@),
                timestamp: text_in(at(entry, "timestamp"@)),
            },
        ],
{
    reveal_strlit("user");
    reveal_strlit("assistant");
    reveal_strlit("text");
    reveal_strlit("tool_use");
    assert("user"@.len() != "assistant"@.len());
    assert("text"@.len() != "tool_use"@.len());
    let items = seq![item];
    let timestamp = text_in(at(entry, "timestamp"@));
    assert(items[0] == item);
    assert(assistant_messages(items, 0, timestamp, usage_in(entry)) =~= Seq::<
        MessageView,
    >::empty());
    assert(assistant_messages(items, 1, timestamp, usage_in(entry)) =~= assistant_message(
        item,
        timestamp,
        usage_in(entry),
    ));
}

/// An item that a person gave, such as what a tool answered, is a message of theirs where it holds
/// text.
pub proof fn law_what_a_user_gave(entry: JsonView, item: JsonView, text: Seq<char>)
    requires
        at(entry, "type"@) == JsonView::Text("user"@),
        at(at(entry, "message"@), "content"@) == JsonView::Array(seq![item]),
        at(item, "content"@) == JsonView::Text(text),
        trimmed(text).len() > 0,
    ensures
        messages_in(entry) == seq![
            MessageView::User { text, timestamp: text_in(at(entry, "timestamp"@)) },
        ],
{
    let items = seq![item];
    let timestamp = text_in(at(entry, "timestamp"@));
    assert(items[0] == item);
    assert(user_messages(items, 0, timestamp) =~= Seq::<MessageView>::empty());
    assert(user_messages(items, 1, timestamp) =~= user_message(
        JsonView::Text(text),
        timestamp,
    ));
}

/// The tokens of an entry are those that its usage names, each under its own name.
pub proof fn law_tokens_are_read(entry: JsonView, key: Seq<char>, digits: Seq<char>, n: u64)
    requires
        member(entry, "message"@) is Some,
        member(at(entry, "message"@), "usage"@) is Some,
        at(at(entry, "message"@), "usage"@) is Object,
        member(at(at(entry, "message"@), "usage"@), key) == Some(
            JsonView::Number(digits, Some(n)),
        ),
        n <= u32::MAX,
    ensures
        usage_in(entry) is Some,
        key == "input_tokens"@ ==> usage_in(entry)->Some_0.input_tokens == Some(n as u32),
        key == "output_tokens"@ ==> usage_in(entry)->Some_0.output_tokens == Some(n as u32),
        key == "cache_creation_input_tokens"@
            ==> usage_in(entry)->Some_0.cache_creation_input_tokens == Some(n as u32),
        key == "cache_read_input_tokens"@ ==> usage_in(entry)->Some_0.cache_read_input_tokens
            == Some(n as u32),
{
    assert(n % 0x1_0000_0000 == n);
}

/// A record is read line by line: a blank line says nothing, and every other line adds what its
/// entry says; the model is the first that an AI's entry names; a line that cannot be read makes the
/// whole record unreadable.
pub proof fn law_lines_of_a_session(file: Seq<Seq<char>>, line: Seq<char>)
    ensures
        session_in(Seq::empty()) == Some((Seq::<MessageView>::empty(), None::<Seq<char>>)),
        match session_in(file) {
            None => session_in(file.push(line)) is None,
            Some((messages, model)) => {
                &&& trimmed(line).len() == 0 ==> session_in(file.push(line)) == session_in(file)
                &&& trimmed(line).len() > 0 ==> match json_of(line) {
                    None => session_in(file.push(line)) is None,
                    Some(entry) => session_in(file.push(line)) matches Some((more, named)) && more
                        == messages + messages_in(entry) && (model is Some ==> named == model) && (
                    model is None && at(entry, "type"@) == JsonView::Text("assistant"@) ==> named
                        == text_in(at(at(entry, "message"@), "model"@))) && (model is None && at(
                        entry,
                        "type"@,
                    ) == JsonView::Text("user"@) ==> named is None),
                }
            },
        },
{
    reveal_strlit("user");
    reveal_strlit("assistant");
    assert("user"@.len() != "assistant"@.len());
    assert(file.push(line).drop_last() =~= file);
}

/// Uses of tools are left out one by one, and everything else stays in its order.
pub proof fn law_speech_is_told_from_tool_use(one: Seq<MessageView>, other: Seq<MessageView>)
    ensures
        spoken(one + other) == spoken(one) + spoken(other),
        forall|m: MessageView| #[trigger]
            spoken(seq![m]) == (if m is ToolUse {
                Seq::empty()
            } else {
                seq![m]
            }),
{
    lemma_spoken_join(one, other);
    assert forall|m: MessageView| #[trigger]
        spoken(seq![m]) == (if m is ToolUse {
            Seq::empty()
        } else {
            seq![m]
        }) by {
        assert(seq![m].drop_last() =~= Seq::<MessageView>::empty());
        assert(spoken(seq![m].drop_last()) =~= Seq::<MessageView>::empty());
        assert(seq![m].last() == m);
        if !(m is ToolUse) {
            assert(spoken(seq![m]) =~= seq![m]);
        }
    }
}

proof fn lemma_spoken_join(one: Seq<MessageView>, other: Seq<MessageView>)
    ensures
        spoken(one + other) == spoken(one) + spoken(other),
    decreases other.len(),
{
    if other.len() == 0 {
        assert(one + other =~= one);
        assert(spoken(one) + spoken(other) =~= spoken(one));
    } else {
        assert((one + other).drop_last() =~= one + other.drop_last());
        lemma_spoken_join(one, other.drop_last());
        assert(spoken(one + other) =~= spoken(one) + spoken(other));
    }
}

/// What says nothing: an item of white space, the use of a tool without a name or without what it was
/// given, an item of another kind, and an entry that is neither a person's nor an AI's.
pub proof fn law_what_says_nothing(
    entry: JsonView,
    item: JsonView,
    text: Seq<char>,
    timestamp: Option<Seq<char>>,
    usage: Option<MessageUsage>,
)
    ensures
        at(item, "type"@) == JsonView::Text("text"@) && at(item, "text"@) == JsonView::Text(text)
            && trimmed(text).len() == 0 ==> assistant_message(item, timestamp, usage).len() == 0,
        at(item, "type"@) == JsonView::Text("text"@) && !(at(item, "text"@) is Text)
            ==> assistant_message(item, timestamp, usage).len() == 0,
        at(item, "type"@) == JsonView::Text("tool_use"@) && !(at(item, "name"@) is Text && at(
            item,
            "input"@,
        ) is Object) ==> assistant_message(item, timestamp, usage).len() == 0,
        at(item, "type"@) != JsonView::Text("text"@) && at(item, "type"@) != JsonView::Text(
            "tool_use"@,
        ) ==> assistant_message(item, timestamp, usage).len() == 0,
        at(item, "content"@) == JsonView::Text(text) && trimmed(text).len() == 0 || !(at(
            item,
            "content"@,
        ) is Text) ==> user_message(at(item, "content"@), timestamp).len() == 0,
        at(entry, "type"@) != JsonView::Text("user"@) && at(entry, "type"@) != JsonView::Text(
            "assistant"@,
        ) ==> messages_in(entry).len() == 0 && model_in(entry) is None,
{
    reveal_strlit("text");
    reveal_strlit("tool_use");
    assert("text"@.len() != "tool_use"@.len());
}

/// Tokens are counted from their lowest 32 bits; an entry without a usage that is an object has no
/// tokens, and a kind of tokens that the usage does not name, or not as a number, is not said.
pub proof fn law_other_tokens(entry: JsonView, usage: JsonView, key: Seq<char>)
    ensures
        token_count(usage, key) matches Some(n) ==> (member(usage, key) matches Some(
            JsonView::Number(_, Some(m)),
        ) && n == m % 0x1_0000_0000),
        (member(usage, key) matches Some(JsonView::Number(_, Some(_)))) ==> token_count(usage, key)
            is Some,
        !(at(at(entry, "message"@), "usage"@) is Object) ==> usage_in(entry) is None,
{
}

} // verus!
