//! The conversation sent to the chat-completion API: role-tagged messages,
//! tool declarations and the request that carries them.

use vstd::prelude::*;

use crate::text::{join4, remove_matches, removed_matches, trim_text, trimmed};

verus! {

/// Who wrote a message.
#[derive(Clone, Copy, Debug, PartialEq, Eq, Structural)]
pub enum Role {
    User,
    Assistant,
}

/// One block of a reply's content as the API sent it: its kind, its text when
/// it has one, and the block's JSON source, which is sent back unchanged when
/// the conversation continues.
#[derive(Clone, Debug, PartialEq, Eq)]
pub struct ContentBlock {
    pub kind: String,
    pub text: Option<String>,
    pub raw: String,
}

/// What a message holds: plain text, or the content blocks of an earlier reply.
#[derive(Clone, Debug, PartialEq, Eq)]
pub enum MessageContent {
    Text(String),
    Blocks(Vec<ContentBlock>),
}

/// One message of a conversation.
#[derive(Clone, Debug, PartialEq, Eq)]
pub struct RequestMessage {
    pub role: Role,
    pub content: MessageContent,
}

/// A capability that the API runs on its own side while it answers.
#[derive(Clone, Debug, PartialEq, Eq)]
pub struct ToolDeclaration {
    pub kind: String,
    pub name: String,
    pub max_uses: u32,
}

/// Everything one request to the API carries.
#[derive(Clone, Debug, PartialEq, Eq)]
pub struct ChatRequest {
    pub model: String,
    pub max_tokens: u32,
    pub messages: Vec<RequestMessage>,
    pub system: Option<String>,
    pub tools: Vec<ToolDeclaration>,
}

/// How many web searches one answer may make.
pub const WEB_SEARCH_MAX_USES: u32 = 5;

/// The most tokens one reply may hold.
pub const MAX_TOKENS: u32 = 4096;

impl RequestMessage {
    /// A text message with the given role.
    pub fn text(role: Role, content: String) -> (r: RequestMessage)
        ensures
            r == (RequestMessage { role, content: MessageContent::Text(content) }),
    {
        RequestMessage { role, content: MessageContent::Text(content) }
    }
}

impl ToolDeclaration {
    /// The API's web search, allowed at most `max_uses` searches per reply.
    pub fn web_search(max_uses: u32) -> (r: ToolDeclaration)
        ensures
            r.kind@ == "web_search_20250305"@,
            r.name@ == "web_search"@,
            r.max_uses == max_uses,
    {
        ToolDeclaration {
            kind: String::from_str("web_search_20250305"),
            name: String::from_str("web_search"),
            max_uses,
        }
    }
}

impl ChatRequest {
    /// A request to `model` for the conversation `messages`, with optional
    /// system instructions and tools, allowing `MAX_TOKENS` in the reply.
    pub fn new(
        model: String,
        messages: Vec<RequestMessage>,
        system: Option<String>,
        tools: Vec<ToolDeclaration>,
    ) -> (r: ChatRequest)
        ensures
            r.model == model,
            r.max_tokens == MAX_TOKENS,
            r.messages == messages,
            r.system == system,
            r.tools == tools,
    {
        ChatRequest { model, max_tokens: MAX_TOKENS, messages, system, tools }
    }
}

/// A message read from the chat channel.
#[derive(Clone, Debug, PartialEq, Eq)]
pub struct ChannelMessage {
    pub author: String,
    pub content: String,
    pub from_bot: bool,
}

/// Mention markup of the chat platform (`<@` digits `>`), removed from messages
/// before they are sent to the API.
pub const MENTION_PATTERN: &'static str = r"<@(\d+)>";

/// What stands in for a conversation that holds no usable message.
pub const GREETING: &'static str = "こんにちは";

/// A message's content without mention markup and surrounding white space.
pub open spec fn cleaned(content: Seq<char>) -> Seq<char> {
    trimmed(
        match removed_matches(MENTION_PATTERN@, content) {
            Some(s) => s,
            None => content,
        },
    )
}

/// Messages of the bot are the assistant's turns; all others are the user's.
pub open spec fn role_of(m: ChannelMessage) -> Role {
    if m.from_bot {
        Role::Assistant
    } else {
        Role::User
    }
}

/// A message as its role and its text (empty for block content).
pub open spec fn message_view(m: RequestMessage) -> (Role, Seq<char>) {
    (
        m.role,
        match m.content {
            MessageContent::Text(s) => s@,
            MessageContent::Blocks(_) => Seq::empty(),
        },
    )
}

/// The conversation held in `history`, which lists the newest message first:
/// oldest first, each message cleaned, and those left empty dropped.
pub open spec fn conversation_of(history: Seq<ChannelMessage>) -> Seq<(Role, Seq<char>)>
    decreases history.len(),
{
    if history.len() == 0 {
        Seq::empty()
    } else {
        let rest = conversation_of(history.drop_first());
        let c = cleaned(history[0].content@);
        if c.len() == 0 {
            rest
        } else {
            rest.push((role_of(history[0]), c))
        }
    }
}

/// The text that introduces a forum thread to the model.
pub open spec fn forum_intro(title: Seq<char>, description: Seq<char>) -> Seq<char> {
    "フォーラムタイトル: "@ + title + "\nディスクリプション: "@ + description
}

/// The conversation sent for a channel's `history`: the thread's title and
/// description first when both are known, and a greeting when nothing else is left.
pub open spec fn prepared_conversation(
    history: Seq<ChannelMessage>,
    title: Option<String>,
    description: Option<String>,
) -> Seq<(Role, Seq<char>)> {
    let base = conversation_of(history);
    let with_intro = match (title, description) {
        (Some(t), Some(d)) => seq![(Role::User, forum_intro(t@, d@))] + base,
        _ => base,
    };
    if with_intro.len() == 0 {
        seq![(Role::User, GREETING@)]
    } else {
        with_intro
    }
}

/// All messages hold plain text.
pub open spec fn all_text(messages: Seq<RequestMessage>) -> bool {
    forall|i: int| 0 <= i < messages.len() ==> (#[trigger] messages[i]).content is Text
}

/// Turns a channel's history, newest message first, into a conversation,
/// oldest message first: mention markup and surrounding white space are
/// removed, messages left empty are dropped, and the bot's own messages
/// become the assistant's turns.
pub fn build_conversation(history: &Vec<ChannelMessage>) -> (r: Vec<RequestMessage>)
    ensures
        r@.map_values(|m: RequestMessage| message_view(m)) == conversation_of(history@),
        all_text(r@),
{
    let mut r: Vec<RequestMessage> = Vec::new();
    let mut i: usize = history.len();
    while i > 0
        invariant
            i <= history@.len(),
            r@.map_values(|m: RequestMessage| message_view(m)) == conversation_of(
                history@.subrange(i as int, history@.len() as int),
            ),
            all_text(r@),
        decreases i,
    {
        i = i - 1;
        let m = &history[i];
        let stripped = match remove_matches(MENTION_PATTERN, m.content.as_str()) {
            Some(s) => s,
            None => m.content.clone(),
        };
        let c = trim_text(stripped.as_str());
        let ghost tail = history@.subrange(i + 1, history@.len() as int);
        proof {
            assert(history@.subrange(i as int, history@.len() as int).drop_first() =~= tail);
            assert(history@.subrange(i as int, history@.len() as int)[0] == history@[i as int]);
        }
        if !c.as_str().is_empty() {
            let role = if m.from_bot {
                Role::Assistant
            } else {
                Role::User
            };
            let ghost before = r@;
            r.push(RequestMessage::text(role, c));
            proof {
                assert(r@.map_values(|m: RequestMessage| message_view(m)) =~= before.map_values(
                    |m: RequestMessage| message_view(m),
                ).push((role, c@)));
            }
        }
    }
    proof {
        assert(history@.subrange(0, history@.len() as int) =~= history@);
    }
    r
}

/// The conversation sent for a channel's `history` (newest message first):
/// built as `build_conversation` does, preceded by the thread's title and
/// description when both are given, and a greeting when it would be empty.
pub fn prepare_conversation(
    history: &Vec<ChannelMessage>,
    title: Option<String>,
    description: Option<String>,
) -> (r: Vec<RequestMessage>)
    ensures
        r@.map_values(|m: RequestMessage| message_view(m)) == prepared_conversation(
            history@,
            title,
            description,
        ),
        all_text(r@),
        r@.len() > 0,
{
    let ghost t0 = title;
    let ghost d0 = description;
    let mut r = build_conversation(history);
    let ghost base = r@;
    match (title, description) {
        (Some(t), Some(d)) => {
            let intro = join4("フォーラムタイトル: ", t.as_str(), "\nディスクリプション: ", d.as_str());
            r.insert(0, RequestMessage::text(Role::User, intro));
            proof {
                assert(r@.map_values(|m: RequestMessage| message_view(m)) =~= seq![
                    (Role::User, forum_intro(t@, d@)),
                ] + base.map_values(|m: RequestMessage| message_view(m)));
            }
        },
        _ => {},
    }
    if r.len() == 0 {
        r.push(RequestMessage::text(Role::User, String::from_str(GREETING)));
        proof {
            assert(r@.map_values(|m: RequestMessage| message_view(m)) =~= seq![
                (Role::User, GREETING@),
            ]);
        }
    }
    r
}

} // verus!
