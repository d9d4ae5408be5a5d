//! The response loop: the decisions taken between the requests that one
//! answer of the API needs.
//!
//! The loop is a state machine. It is handed events (a reply came, the reply
//! was decoded, the transport failed) and answers each with the next action:
//! send the request, decode the reply, finish with a text, or fail. Whoever
//! runs it performs the actions and reports what came of them.

use vstd::prelude::*;

use crate::conversation::{ChatRequest, ContentBlock, MessageContent, RequestMessage, Role};
use crate::text::{join2, join4, same_text};

verus! {

/// The error object that a reply may carry instead of an answer.
#[derive(Clone, Debug, PartialEq, Eq)]
pub struct ApiErrorDetail {
    pub kind: String,
    pub message: String,
}

/// One decoded reply of the API.
#[derive(Clone, Debug, PartialEq, Eq)]
pub struct ResponseEnvelope {
    pub stop_reason: Option<String>,
    pub content: Vec<ContentBlock>,
    pub error: Option<ApiErrorDetail>,
}

/// Why the API ended a reply.
#[derive(Clone, Copy, Debug, PartialEq, Eq, Structural)]
pub enum StopCondition {
    /// The answer is complete.
    Complete,
    /// The API paused mid-turn (a tool on its side still runs) and expects the
    /// conversation to be sent again.
    Paused,
    /// The API asks the caller to run a tool.
    ToolRequested,
    /// Any other or missing reason.
    Other,
}

/// The stop condition that a reply's `stop_reason` names; unknown or missing
/// reasons are `Other`.
pub open spec fn stop_condition_of(reason: Option<String>) -> StopCondition {
    match reason {
        Some(r) => if r@ == "end_turn"@ {
            StopCondition::Complete
        } else if r@ == "pause_turn"@ {
            StopCondition::Paused
        } else if r@ == "tool_use"@ {
            StopCondition::ToolRequested
        } else {
            StopCondition::Other
        },
        None => StopCondition::Other,
    }
}

impl StopCondition {
    /// Reads the stop condition from a reply's `stop_reason`.
    pub fn of_reason(reason: &Option<String>) -> (r: StopCondition)
        ensures
            r == stop_condition_of(*reason),
    {
        match reason {
            Some(r) => {
                if same_text(r, "end_turn") {
                    StopCondition::Complete
                } else if same_text(r, "pause_turn") {
                    StopCondition::Paused
                } else if same_text(r, "tool_use") {
                    StopCondition::ToolRequested
                } else {
                    StopCondition::Other
                }
            },
            None => StopCondition::Other,
        }
    }
}

/// The text that one content block contributes to the answer: its text when
/// it is a `text` block, nothing otherwise.
pub open spec fn block_text(b: ContentBlock) -> Seq<char> {
    if b.kind@ == "text"@ {
        match b.text {
            Some(t) => t@,
            None => Seq::empty(),
        }
    } else {
        Seq::empty()
    }
}

/// The texts of all `text` blocks, in order, with no separator.
pub open spec fn joined_text(blocks: Seq<ContentBlock>) -> Seq<char>
    decreases blocks.len(),
{
    if blocks.len() == 0 {
        Seq::empty()
    } else {
        joined_text(blocks.drop_last()) + block_text(blocks.last())
    }
}

/// Joins the texts of all `text` blocks, in order, with no separator.
pub fn collect_text(blocks: &Vec<ContentBlock>) -> (r: String)
    ensures
        r@ == joined_text(blocks@),
{
    let mut out = String::new();
    let mut i: usize = 0;
    while i < blocks.len()
        invariant
            i <= blocks@.len(),
            out@ == joined_text(blocks@.subrange(0, i as int)),
        decreases blocks@.len() - i,
    {
        let b = &blocks[i];
        if same_text(&b.kind, "text") {
            match &b.text {
                Some(t) => out.append(t.as_str()),
                None => {},
            }
        }
        proof {
            assert(blocks@.subrange(0, i + 1).drop_last() =~= blocks@.subrange(0, i as int));
        }
        i = i + 1;
    }
    proof {
        assert(blocks@.subrange(0, blocks@.len() as int) =~= blocks@);
    }
    out
}

/// The three kinds of failure.
#[derive(Clone, Copy, Debug, PartialEq, Eq, Structural)]
pub enum ErrorKind {
    Http,
    Api,
    Parse,
}

/// Why no answer could be had.
#[derive(Clone, Debug, PartialEq, Eq)]
pub enum ClaudeError {
    /// The transport failed (connection, timeout).
    HttpError(String),
    /// The API refused the request, reported an error, asked for a tool, or the
    /// loop ran out of iterations.
    ApiError(String),
    /// A reply could not be decoded.
    ParseError(String),
}

impl ClaudeError {
    pub open spec fn kind(&self) -> ErrorKind {
        match self {
            ClaudeError::HttpError(_) => ErrorKind::Http,
            ClaudeError::ApiError(_) => ErrorKind::Api,
            ClaudeError::ParseError(_) => ErrorKind::Parse,
        }
    }

    pub open spec fn detail(&self) -> Seq<char> {
        match self {
            ClaudeError::HttpError(m) => m@,
            ClaudeError::ApiError(m) => m@,
            ClaudeError::ParseError(m) => m@,
        }
    }

    /// A one-line description for people: the kind of failure, then its detail.
    pub fn describe(&self) -> (r: String)
        ensures
            r@ == match self.kind() {
                ErrorKind::Http => "HTTP error: "@,
                ErrorKind::Api => "API error: "@,
                ErrorKind::Parse => "Parse error: "@,
            } + self.detail(),
    {
        match self {
            ClaudeError::HttpError(m) => join2("HTTP error: ", m.as_str()),
            ClaudeError::ApiError(m) => join2("API error: ", m.as_str()),
            ClaudeError::ParseError(m) => join2("Parse error: ", m.as_str()),
        }
    }
}

/// How many requests one answer may take unless the caller says otherwise.
pub const DEFAULT_MAX_ITERATIONS: u32 = 10;

/// The failure text when the loop has used all its iterations.
pub const LIMIT_MESSAGE: &'static str = "iteration limit exceeded";

/// The failure text when a reply asks the caller to run a tool.
pub const TOOL_USE_MESSAGE: &'static str = "the reply asks for a tool run, but all declared tools run on the API's side";

/// The failure text for an event that does not fit where the loop stands.
pub const UNEXPECTED_EVENT_MESSAGE: &'static str = "event does not fit the state of the response loop";

/// The failure text for a refused request.
pub open spec fn status_error_text(status_line: Seq<char>, body: Seq<char>) -> Seq<char> {
    "status "@ + status_line + " - "@ + body
}

/// The failure text for an error object in a reply.
pub open spec fn reported_error_text(message: Seq<char>) -> Seq<char> {
    "reported by the API: "@ + message
}

/// The failure text for a reply that could not be decoded; it keeps the raw body.
pub open spec fn parse_error_text(error: Seq<char>, body: Seq<char>) -> Seq<char> {
    "JSON parse error: "@ + error + " - Response: "@ + body
}

/// The assistant message that carries a paused reply's blocks back to the API.
pub open spec fn continuation(blocks: Vec<ContentBlock>) -> RequestMessage {
    RequestMessage { role: Role::Assistant, content: MessageContent::Blocks(blocks) }
}

/// Where the loop stands.
#[derive(Clone, Copy, Debug, PartialEq, Eq, Structural)]
pub enum Phase {
    /// Nothing sent yet.
    Ready,
    /// A request is out.
    AwaitingReply,
    /// A successful reply came and waits to be decoded.
    AwaitingDecode,
    /// An answer or a failure was given.
    Finished,
}

/// What happened since the last action.
pub enum Event {
    /// Begin.
    Start,
    /// The transport brought a reply: its status code, its status line as
    /// shown to people, and its body.
    Replied { status: u16, status_line: String, body: String },
    /// The transport failed.
    TransportFailed(String),
    /// The reply's body was decoded.
    Decoded(ResponseEnvelope),
    /// The reply's body could not be decoded, for the reason given.
    Undecodable(String),
}

/// What to do next.
#[derive(Debug)]
pub enum Action {
    /// Send the loop's current request.
    Send,
    /// Decode the body of the reply just received.
    Decode,
    /// The answer is ready.
    Finish(String),
    /// The loop failed.
    Fail(ClaudeError),
}

/// An action with its texts as character sequences.
pub enum Outcome {
    Send,
    Decode,
    Finish(Seq<char>),
    Fail(ErrorKind, Seq<char>),
}

impl View for Action {
    type V = Outcome;

    open spec fn view(&self) -> Outcome {
        match self {
            Action::Send => Outcome::Send,
            Action::Decode => Outcome::Decode,
            Action::Finish(s) => Outcome::Finish(s@),
            Action::Fail(e) => Outcome::Fail(e.kind(), e.detail()),
        }
    }
}

/// The loop's state as a mathematical value.
pub struct LoopModel {
    pub conversation: Seq<RequestMessage>,
    pub max_iterations: nat,
    pub sent: nat,
    pub phase: Phase,
    pub body: Seq<char>,
}

impl LoopModel {
    /// The state of a new loop over `conversation`, allowed `max_iterations` requests.
    pub open spec fn initial(conversation: Seq<RequestMessage>, max_iterations: nat) -> LoopModel {
        LoopModel { conversation, max_iterations, sent: 0, phase: Phase::Ready, body: Seq::empty() }
    }

    pub open spec fn finished(self) -> LoopModel {
        LoopModel { phase: Phase::Finished, ..self }
    }

    pub open spec fn fail(self, kind: ErrorKind, text: Seq<char>) -> (LoopModel, Outcome) {
        (self.finished(), Outcome::Fail(kind, text))
    }

    /// The decision on a decoded reply.
    pub open spec fn after_reply(self, env: ResponseEnvelope) -> (LoopModel, Outcome) {
        match env.error {
            Some(d) => self.fail(ErrorKind::Api, reported_error_text(d.message@)),
            None => match stop_condition_of(env.stop_reason) {
                StopCondition::Paused => if self.sent < self.max_iterations {
                    (
                        LoopModel {
                            conversation: self.conversation.push(continuation(env.content)),
                            sent: self.sent + 1,
                            phase: Phase::AwaitingReply,
                            ..self
                        },
                        Outcome::Send,
                    )
                } else {
                    self.fail(ErrorKind::Api, LIMIT_MESSAGE@)
                },
                StopCondition::ToolRequested => self.fail(ErrorKind::Api, TOOL_USE_MESSAGE@),
                _ => (self.finished(), Outcome::Finish(joined_text(env.content@))),
            },
        }
    }

    /// The next state and action for an event.
    pub open spec fn next(self, event: Event) -> (LoopModel, Outcome) {
        match event {
            Event::Start => if self.phase == Phase::Ready {
                if self.max_iterations == 0 {
                    self.fail(ErrorKind::Api, LIMIT_MESSAGE@)
                } else {
                    (LoopModel { sent: 1, phase: Phase::AwaitingReply, ..self }, Outcome::Send)
                }
            } else {
                self.fail(ErrorKind::Api, UNEXPECTED_EVENT_MESSAGE@)
            },
            Event::Replied { status, status_line, body } => if self.phase == Phase::AwaitingReply {
                if 200 <= status <= 299 {
                    (LoopModel { phase: Phase::AwaitingDecode, body: body@, ..self }, Outcome::Decode)
                } else {
                    self.fail(ErrorKind::Api, status_error_text(status_line@, body@))
                }
            } else {
                self.fail(ErrorKind::Api, UNEXPECTED_EVENT_MESSAGE@)
            },
            Event::TransportFailed(m) => if self.phase == Phase::AwaitingReply {
                self.fail(ErrorKind::Http, m@)
            } else {
                self.fail(ErrorKind::Api, UNEXPECTED_EVENT_MESSAGE@)
            },
            Event::Decoded(env) => if self.phase == Phase::AwaitingDecode {
                self.after_reply(env)
            } else {
                self.fail(ErrorKind::Api, UNEXPECTED_EVENT_MESSAGE@)
            },
            Event::Undecodable(e) => if self.phase == Phase::AwaitingDecode {
                self.fail(ErrorKind::Parse, parse_error_text(e@, self.body))
            } else {
                self.fail(ErrorKind::Api, UNEXPECTED_EVENT_MESSAGE@)
            },
        }
    }

    /// The state after a run of events, and the actions taken on the way.
    pub open spec fn run(self, events: Seq<Event>) -> (LoopModel, Seq<Outcome>)
        decreases events.len(),
    {
        if events.len() == 0 {
            (self, Seq::empty())
        } else {
            let (m, o) = self.next(events[0]);
            let (last, rest) = m.run(events.drop_first());
            (last, seq![o] + rest)
        }
    }
}

/// The response loop for one answer.
pub struct ResponseLoop {
    pub request: ChatRequest,
    pub max_iterations: u32,
    pub sent: u32,
    pub phase: Phase,
    pub body: String,
}

impl View for ResponseLoop {
    type V = LoopModel;

    open spec fn view(&self) -> LoopModel {
        LoopModel {
            conversation: self.request.messages@,
            max_iterations: self.max_iterations as nat,
            sent: self.sent as nat,
            phase: self.phase,
            body: self.body@,
        }
    }
}

impl ResponseLoop {
    /// A loop that will send `request`, at most `max_iterations` times in all.
    pub fn new(request: ChatRequest, max_iterations: u32) -> (r: ResponseLoop)
        requires
            request.messages@.len() > 0,
        ensures
            r.request == request,
            r@ == LoopModel::initial(request.messages@, max_iterations as nat),
    {
        ResponseLoop { request, max_iterations, sent: 0, phase: Phase::Ready, body: String::new() }
    }

    fn fail(&mut self, error: ClaudeError) -> (a: Action)
        ensures
            final(self)@ == old(self)@.finished(),
            final(self).request == old(self).request,
            a@ == Outcome::Fail(error.kind(), error.detail()),
    {
        self.phase = Phase::Finished;
        Action::Fail(error)
    }

    fn take_reply(&mut self, env: ResponseEnvelope) -> (a: Action)
        requires
            old(self).phase == Phase::AwaitingDecode,
        ensures
            (final(self)@, a@) == old(self)@.after_reply(env),
            final(self).request.model == old(self).request.model,
            final(self).request.max_tokens == old(self).request.max_tokens,
            final(self).request.system == old(self).request.system,
            final(self).request.tools == old(self).request.tools,
    {
        let ghost env0 = env;
        let ResponseEnvelope { stop_reason, content, error } = env;
        match error {
            Some(d) => {
                return self.fail(ClaudeError::ApiError(join2("reported by the API: ", d.message.as_str())));
            },
            None => {},
        }
        let stop = StopCondition::of_reason(&stop_reason);
        match stop {
            StopCondition::Paused => {
                if self.sent < self.max_iterations {
                    let ghost content0 = content;
                    self.request.messages.push(
                        RequestMessage { role: Role::Assistant, content: MessageContent::Blocks(content) },
                    );
                    self.sent = self.sent + 1;
                    self.phase = Phase::AwaitingReply;
                    proof {
                        assert(continuation(env0.content) == RequestMessage {
                            role: Role::Assistant,
                            content: MessageContent::Blocks(content0),
                        });
                    }
                    Action::Send
                } else {
                    self.fail(ClaudeError::ApiError(String::from_str(LIMIT_MESSAGE)))
                }
            },
            StopCondition::ToolRequested => {
                self.fail(ClaudeError::ApiError(String::from_str(TOOL_USE_MESSAGE)))
            },
            _ => {
                let text = collect_text(&content);
                self.phase = Phase::Finished;
                Action::Finish(text)
            },
        }
    }

    /// Takes an event and gives the next action.
    pub fn step(&mut self, event: Event) -> (a: Action)
        ensures
            (final(self)@, a@) == old(self)@.next(event),
            final(self).request.model == old(self).request.model,
            final(self).request.max_tokens == old(self).request.max_tokens,
            final(self).request.system == old(self).request.system,
            final(self).request.tools == old(self).request.tools,
    {
        let unexpected = String::from_str(UNEXPECTED_EVENT_MESSAGE);
        match event {
            Event::Start => {
                if self.phase != Phase::Ready {
                    self.fail(ClaudeError::ApiError(unexpected))
                } else if self.max_iterations == 0 {
                    self.fail(ClaudeError::ApiError(String::from_str(LIMIT_MESSAGE)))
                } else {
                    self.sent = 1;
                    self.phase = Phase::AwaitingReply;
                    Action::Send
                }
            },
            Event::Replied { status, status_line, body } => {
                if self.phase != Phase::AwaitingReply {
                    self.fail(ClaudeError::ApiError(unexpected))
                } else if 200 <= status && status <= 299 {
                    self.phase = Phase::AwaitingDecode;
                    self.body = body;
                    Action::Decode
                } else {
                    let text = join4("status ", status_line.as_str(), " - ", body.as_str());
                    self.fail(ClaudeError::ApiError(text))
                }
            },
            Event::TransportFailed(m) => {
                if self.phase != Phase::AwaitingReply {
                    self.fail(ClaudeError::ApiError(unexpected))
                } else {
                    self.fail(ClaudeError::HttpError(m))
                }
            },
            Event::Decoded(env) => {
                if self.phase != Phase::AwaitingDecode {
                    self.fail(ClaudeError::ApiError(unexpected))
                } else {
                    self.take_reply(env)
                }
            },
            Event::Undecodable(e) => {
                if self.phase != Phase::AwaitingDecode {
                    self.fail(ClaudeError::ApiError(unexpected))
                } else {
                    let text = join4("JSON parse error: ", e.as_str(), " - Response: ", self.body.as_str());
                    self.fail(ClaudeError::ParseError(text))
                }
            },
        }
    }
}

/// The number of `Send` actions among `outcomes`.
pub open spec fn count_sends(outcomes: Seq<Outcome>) -> nat
    decreases outcomes.len(),
{
    if outcomes.len() == 0 {
        0
    } else {
        (if outcomes[0] is Send {
            1nat
        } else {
            0nat
        }) + count_sends(outcomes.drop_first())
    }
}

/// A successful reply from the transport.
pub open spec fn is_success_reply(e: Event) -> bool {
    match e {
        Event::Replied { status, .. } => 200 <= status <= 299,
        _ => false,
    }
}

/// A decoded reply without error object whose stop condition is `Paused`.
pub open spec fn is_paused_reply(e: Event) -> bool {
    match e {
        Event::Decoded(env) => env.error is None && stop_condition_of(env.stop_reason)
            == StopCondition::Paused,
        _ => false,
    }
}

/// `events` are `n` exchanges, each a successful reply followed by its
/// decoding as a paused reply.
pub open spec fn paused_exchanges(events: Seq<Event>, n: nat) -> bool {
    &&& events.len() == 2 * n
    &&& forall|i: int|
        0 <= i < n ==> is_success_reply(#[trigger] events[2 * i]) && is_paused_reply(
            events[2 * i + 1],
        )
}

proof fn lemma_count_sends_cons(o: Outcome, rest: Seq<Outcome>)
    ensures
        count_sends(seq![o] + rest) == (if o is Send {
            1nat
        } else {
            0nat
        }) + count_sends(rest),
{
    let s = seq![o] + rest;
    assert(s[0] == o);
    assert(s.drop_first() =~= rest);
}

proof fn lemma_paused_run(m: LoopModel, events: Seq<Event>, k: nat)
    requires
        m.phase == Phase::AwaitingReply,
        1 <= m.sent <= m.max_iterations,
        k == m.max_iterations - m.sent + 1,
        paused_exchanges(events, k),
    ensures
        m.run(events).1.len() == 2 * k,
        count_sends(m.run(events).1) == k - 1,
        m.run(events).1.last() == Outcome::Fail(ErrorKind::Api, LIMIT_MESSAGE@),
        m.run(events).0.phase == Phase::Finished,
    decreases k,
{
    assert(is_success_reply(events[2 * (0 as int)]) && is_paused_reply(events[2 * (0 as int) + 1]));
    let (m1, o1) = m.next(events[0]);
    assert(o1 == Outcome::Decode);
    let ev1 = events.drop_first();
    assert(ev1[0] == events[1]);
    let (m2, o2) = m1.next(ev1[0]);
    let ev2 = ev1.drop_first();
    let (last, rest) = m2.run(ev2);
    assert(m1.run(ev1) == (last, seq![o2] + rest));
    assert(m.run(events) == (last, seq![o1] + (seq![o2] + rest)));
    lemma_count_sends_cons(o1, seq![o2] + rest);
    lemma_count_sends_cons(o2, rest);
    if m.sent < m.max_iterations {
        assert(o2 == Outcome::Send);
        assert(paused_exchanges(ev2, (k - 1) as nat)) by {
            assert forall|i: int| 0 <= i < k - 1 implies is_success_reply(
                #[trigger] ev2[2 * i],
            ) && is_paused_reply(ev2[2 * i + 1]) by {
                assert(ev2[2 * i] == events[2 * (i + 1)]);
                assert(ev2[2 * i + 1] == events[2 * (i + 1) + 1]);
            }
        }
        lemma_paused_run(m2, ev2, (k - 1) as nat);
        assert((seq![o1] + (seq![o2] + rest)).last() == rest.last());
    } else {
        assert(o2 == Outcome::Fail(ErrorKind::Api, LIMIT_MESSAGE@));
        assert(ev2.len() == 0);
        assert(rest.len() == 0);
        assert(count_sends(rest) == 0);
        assert((seq![o1] + (seq![o2] + rest)).last() == o2);
    }
}

/// When every reply is a pause, a loop allowed `n` requests sends exactly `n`
/// requests and then fails with an API error: the iteration limit.
pub proof fn lemma_paused_replies_exhaust_bound(
    conversation: Seq<RequestMessage>,
    n: nat,
    exchanges: Seq<Event>,
)
    requires
        paused_exchanges(exchanges, n),
    ensures
        ({
            let (last, outcomes) = LoopModel::initial(conversation, n).run(
                seq![Event::Start] + exchanges,
            );
            &&& count_sends(outcomes) == n
            &&& outcomes.len() == 2 * n + 1
            &&& outcomes.last() == Outcome::Fail(ErrorKind::Api, LIMIT_MESSAGE@)
            &&& last.phase == Phase::Finished
        }),
{
    let m = LoopModel::initial(conversation, n);
    let events = seq![Event::Start] + exchanges;
    assert(events[0] == Event::Start);
    assert(events.drop_first() =~= exchanges);
    let (m1, o1) = m.next(Event::Start);
    let (last, rest) = m1.run(exchanges);
    assert(m.run(events) == (last, seq![o1] + rest));
    lemma_count_sends_cons(o1, rest);
    if n == 0 {
        assert(exchanges.len() == 0);
        assert(rest.len() == 0);
        assert(count_sends(rest) == 0);
        assert((seq![o1] + rest).last() == o1);
    } else {
        lemma_paused_run(m1, exchanges, n);
        assert((seq![o1] + rest).last() == rest.last());
    }
}

/// A paused reply followed by a complete one: the loop sends exactly two
/// requests, the second carrying the paused reply's blocks as an appended
/// assistant message, and answers with the complete reply's text.
pub proof fn lemma_pause_then_complete(
    conversation: Seq<RequestMessage>,
    n: nat,
    first: Event,
    paused: ResponseEnvelope,
    second: Event,
    complete: ResponseEnvelope,
)
    requires
        n >= 2,
        is_success_reply(first),
        is_success_reply(second),
        paused.error is None,
        stop_condition_of(paused.stop_reason) == StopCondition::Paused,
        complete.error is None,
        stop_condition_of(complete.stop_reason) == StopCondition::Complete,
    ensures
        ({
            let m0 = LoopModel::initial(conversation, n);
            let (m2, _) = m0.run(seq![Event::Start, first, Event::Decoded(paused)]);
            let (last, outcomes) = m0.run(
                seq![Event::Start, first, Event::Decoded(paused), second, Event::Decoded(complete)],
            );
            &&& outcomes == seq![
                Outcome::Send,
                Outcome::Decode,
                Outcome::Send,
                Outcome::Decode,
                Outcome::Finish(joined_text(complete.content@)),
            ]
            &&& count_sends(outcomes) == 2
            &&& m2.conversation == conversation.push(continuation(paused.content))
            &&& last.phase == Phase::Finished
        }),
{
    let m0 = LoopModel::initial(conversation, n);
    let d1 = Event::Decoded(paused);
    let d2 = Event::Decoded(complete);
    let (m1, o1) = m0.next(Event::Start);
    let (m2, o2) = m1.next(first);
    let (m3, o3) = m2.next(d1);
    let (m4, o4) = m3.next(second);
    let (m5, o5) = m4.next(d2);
    assert(o1 == Outcome::Send && m1.phase == Phase::AwaitingReply && m1.sent == 1);
    assert(o2 == Outcome::Decode && m2.phase == Phase::AwaitingDecode && m2.sent == 1);
    assert(o3 == Outcome::Send && m3.phase == Phase::AwaitingReply && m3.sent == 2);
    assert(m3.conversation == conversation.push(continuation(paused.content)));
    assert(o4 == Outcome::Decode && m4.phase == Phase::AwaitingDecode);
    assert(o5 == Outcome::Finish(joined_text(complete.content@)) && m5.phase == Phase::Finished);
    let empty = Seq::<Event>::empty();
    assert(m3.run(empty) == (m3, Seq::<Outcome>::empty()));
    assert(m5.run(empty) == (m5, Seq::<Outcome>::empty()));
    assert(seq![d1].drop_first() =~= empty);
    assert(m2.run(seq![d1]) == (m3, seq![o3] + Seq::<Outcome>::empty()));
    assert(seq![first, d1].drop_first() =~= seq![d1]);
    assert(m1.run(seq![first, d1]).0 == m3);
    assert(seq![Event::Start, first, d1].drop_first() =~= seq![first, d1]);
    assert(m0.run(seq![Event::Start, first, d1]).0 == m3);
    assert(seq![d2].drop_first() =~= empty);
    let t5 = seq![o5] + Seq::<Outcome>::empty();
    assert(m4.run(seq![d2]) == (m5, t5));
    assert(seq![second, d2].drop_first() =~= seq![d2]);
    let t4 = seq![o4] + t5;
    assert(m3.run(seq![second, d2]) == (m5, t4));
    assert(seq![d1, second, d2].drop_first() =~= seq![second, d2]);
    let t3 = seq![o3] + t4;
    assert(m2.run(seq![d1, second, d2]) == (m5, t3));
    assert(seq![first, d1, second, d2].drop_first() =~= seq![d1, second, d2]);
    let t2 = seq![o2] + t3;
    assert(m1.run(seq![first, d1, second, d2]) == (m5, t2));
    assert(seq![Event::Start, first, d1, second, d2].drop_first() =~= seq![first, d1, second, d2]);
    let t1 = seq![o1] + t2;
    assert(m0.run(seq![Event::Start, first, d1, second, d2]) == (m5, t1));
    assert(t1 =~= seq![o1, o2, o3, o4, o5]);
    lemma_count_sends_cons(o5, Seq::empty());
    lemma_count_sends_cons(o4, t5);
    lemma_count_sends_cons(o3, t4);
    lemma_count_sends_cons(o2, t3);
    lemma_count_sends_cons(o1, t2);
}

/// A reply with a status outside 2xx ends the loop with an API error that
/// carries the status line and the body; the loop never asks for it to be
/// decoded, and refuses to decode anything afterwards.
pub proof fn lemma_error_status_fails(
    m: LoopModel,
    status: u16,
    status_line: String,
    body: String,
    later: ResponseEnvelope,
)
    requires
        m.phase == Phase::AwaitingReply,
        !(200 <= status <= 299),
    ensures
        ({
            let (after, outcome) = m.next(Event::Replied { status, status_line, body });
            &&& outcome == Outcome::Fail(ErrorKind::Api, status_error_text(status_line@, body@))
            &&& after.phase == Phase::Finished
            &&& after.conversation == m.conversation
            &&& after.next(Event::Decoded(later)).1 == Outcome::Fail(
                ErrorKind::Api,
                UNEXPECTED_EVENT_MESSAGE@,
            )
        }),
{
}

} // verus!
