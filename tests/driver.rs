use idealx::conversation::{
    ChatRequest, ContentBlock, MessageContent, RequestMessage, Role, ToolDeclaration,
    MAX_TOKENS,
};
use idealx::driver::{
    collect_text, Action, ApiErrorDetail, ClaudeError, Event, Phase, ResponseEnvelope,
    ResponseLoop, StopCondition, LIMIT_MESSAGE,
};

fn block(kind: &str, text: Option<&str>) -> ContentBlock {
    ContentBlock {
        kind: kind.to_string(),
        text: text.map(|t| t.to_string()),
        raw: format!("{{\"type\":\"{}\"}}", kind),
    }
}

fn envelope(stop: Option<&str>, content: Vec<ContentBlock>) -> ResponseEnvelope {
    ResponseEnvelope { stop_reason: stop.map(|s| s.to_string()), content, error: None }
}

fn request() -> ChatRequest {
    ChatRequest::new(
        "test-model".to_string(),
        vec![RequestMessage::text(Role::User, "hi".to_string())],
        Some("be brief".to_string()),
        vec![ToolDeclaration::web_search(5)],
    )
}

fn ok_reply(body: &str) -> Event {
    Event::Replied { status: 200, status_line: "200 OK".to_string(), body: body.to_string() }
}

/// Runs the loop against canned replies; returns the final action and how many requests were sent.
fn drive(driver: &mut ResponseLoop, replies: Vec<ResponseEnvelope>) -> (Action, usize) {
    let mut replies = replies.into_iter();
    let mut sends = 0;
    let mut action = driver.step(Event::Start);
    loop {
        match action {
            Action::Send => {
                sends += 1;
                action = driver.step(ok_reply("{}"));
            }
            Action::Decode => {
                let env = replies.next().expect("a reply for every request");
                action = driver.step(Event::Decoded(env));
            }
            other => return (other, sends),
        }
    }
}

#[test]
fn complete_reply_joins_text_blocks() {
    let mut driver = ResponseLoop::new(request(), 10);
    let env = envelope(
        Some("end_turn"),
        vec![block("text", Some("Hello")), block("server_tool_use", None), block("text", Some(" world"))],
    );
    let (action, sends) = drive(&mut driver, vec![env]);
    match action {
        Action::Finish(text) => assert_eq!(text, "Hello world"),
        other => panic!("unexpected {:?}", other),
    }
    assert_eq!(sends, 1);
    assert_eq!(driver.phase, Phase::Finished);
}

#[test]
fn paused_reply_is_continued_once() {
    let mut driver = ResponseLoop::new(request(), 10);
    let first_blocks = vec![block("server_tool_use", None), block("text", Some("searching"))];
    let paused = envelope(Some("pause_turn"), first_blocks.clone());
    let done = envelope(Some("end_turn"), vec![block("text", Some("answer"))]);

    assert!(matches!(driver.step(Event::Start), Action::Send));
    assert!(matches!(driver.step(ok_reply("{}")), Action::Decode));
    assert!(matches!(driver.step(Event::Decoded(paused)), Action::Send));
    // the second request carries the paused reply as an assistant message
    assert_eq!(driver.request.messages.len(), 2);
    assert_eq!(driver.request.messages[1].role, Role::Assistant);
    assert_eq!(driver.request.messages[1].content, MessageContent::Blocks(first_blocks));
    assert!(matches!(driver.step(ok_reply("{}")), Action::Decode));
    match driver.step(Event::Decoded(done)) {
        Action::Finish(text) => assert_eq!(text, "answer"),
        other => panic!("unexpected {:?}", other),
    }
    assert_eq!(driver.sent, 2);
}

#[test]
fn pauses_exhaust_iteration_bound() {
    for n in 1..5u32 {
        let mut driver = ResponseLoop::new(request(), n);
        let replies = (0..n).map(|_| envelope(Some("pause_turn"), vec![])).collect();
        let (action, sends) = drive(&mut driver, replies);
        assert_eq!(sends, n as usize);
        assert_eq!(action_error(action), ClaudeError::ApiError(LIMIT_MESSAGE.to_string()));
    }
}

#[test]
fn zero_bound_sends_nothing() {
    let mut driver = ResponseLoop::new(request(), 0);
    let (action, sends) = drive(&mut driver, vec![]);
    assert_eq!(sends, 0);
    assert_eq!(action_error(action), ClaudeError::ApiError(LIMIT_MESSAGE.to_string()));
}

fn action_error(action: Action) -> ClaudeError {
    match action {
        Action::Fail(e) => e,
        other => panic!("expected a failure, got {:?}", other),
    }
}

#[test]
fn error_status_fails_without_decoding() {
    let mut driver = ResponseLoop::new(request(), 10);
    assert!(matches!(driver.step(Event::Start), Action::Send));
    let action = driver.step(Event::Replied {
        status: 529,
        status_line: "529 <unknown status code>".to_string(),
        body: "overloaded".to_string(),
    });
    assert_eq!(
        action_error(action),
        ClaudeError::ApiError("status 529 <unknown status code> - overloaded".to_string())
    );
    assert_eq!(driver.phase, Phase::Finished);
    // a decoded reply is no longer taken
    let late = driver.step(Event::Decoded(envelope(Some("end_turn"), vec![block("text", Some("x"))])));
    assert!(matches!(late, Action::Fail(ClaudeError::ApiError(_))));
}

#[test]
fn transport_failure_is_http_error() {
    let mut driver = ResponseLoop::new(request(), 10);
    driver.step(Event::Start);
    let action = driver.step(Event::TransportFailed("connection reset".to_string()));
    assert_eq!(action_error(action), ClaudeError::HttpError("connection reset".to_string()));
}

#[test]
fn undecodable_reply_is_parse_error_with_body() {
    let mut driver = ResponseLoop::new(request(), 10);
    driver.step(Event::Start);
    assert!(matches!(driver.step(ok_reply("not json")), Action::Decode));
    let action = driver.step(Event::Undecodable("expected value at line 1".to_string()));
    assert_eq!(
        action_error(action),
        ClaudeError::ParseError("JSON parse error: expected value at line 1 - Response: not json".to_string())
    );
}

#[test]
fn error_object_is_api_error() {
    let mut driver = ResponseLoop::new(request(), 10);
    driver.step(Event::Start);
    driver.step(ok_reply("{}"));
    let mut env = envelope(Some("end_turn"), vec![block("text", Some("ignored"))]);
    env.error = Some(ApiErrorDetail { kind: "overloaded_error".to_string(), message: "Overloaded".to_string() });
    let action = driver.step(Event::Decoded(env));
    assert_eq!(action_error(action), ClaudeError::ApiError("reported by the API: Overloaded".to_string()));
}

#[test]
fn tool_request_is_api_error() {
    let mut driver = ResponseLoop::new(request(), 10);
    let (action, _) = drive(&mut driver, vec![envelope(Some("tool_use"), vec![block("tool_use", None)])]);
    assert!(matches!(action, Action::Fail(ClaudeError::ApiError(_))));
}

#[test]
fn unknown_stop_reason_returns_text() {
    let mut driver = ResponseLoop::new(request(), 10);
    let (action, _) = drive(&mut driver, vec![envelope(Some("max_tokens"), vec![block("text", Some("partial"))])]);
    match action {
        Action::Finish(text) => assert_eq!(text, "partial"),
        other => panic!("unexpected {:?}", other),
    }
    let mut driver = ResponseLoop::new(request(), 10);
    let (action, _) = drive(&mut driver, vec![envelope(None, vec![])]);
    match action {
        Action::Finish(text) => assert_eq!(text, ""),
        other => panic!("unexpected {:?}", other),
    }
}

#[test]
fn event_out_of_turn_fails() {
    let mut driver = ResponseLoop::new(request(), 10);
    let action = driver.step(ok_reply("{}"));
    assert!(matches!(action, Action::Fail(ClaudeError::ApiError(_))));
}

#[test]
fn stop_conditions_are_read() {
    let of = |s: &str| StopCondition::of_reason(&Some(s.to_string()));
    assert_eq!(of("end_turn"), StopCondition::Complete);
    assert_eq!(of("pause_turn"), StopCondition::Paused);
    assert_eq!(of("tool_use"), StopCondition::ToolRequested);
    assert_eq!(of("refusal"), StopCondition::Other);
    assert_eq!(StopCondition::of_reason(&None), StopCondition::Other);
}

#[test]
fn text_blocks_are_joined_in_order() {
    let blocks = vec![block("text", Some("a")), block("text", None), block("image", Some("b")), block("text", Some("c"))];
    assert_eq!(collect_text(&blocks), "ac");
    assert_eq!(collect_text(&vec![]), "");
}

#[test]
fn errors_describe_themselves() {
    assert_eq!(ClaudeError::HttpError("x".to_string()).describe(), "HTTP error: x");
    assert_eq!(ClaudeError::ApiError("y".to_string()).describe(), "API error: y");
    assert_eq!(ClaudeError::ParseError("z".to_string()).describe(), "Parse error: z");
}

#[test]
fn request_carries_model_and_limits() {
    let r = request();
    assert_eq!(r.model, "test-model");
    assert_eq!(r.max_tokens, MAX_TOKENS);
    assert_eq!(r.system.as_deref(), Some("be brief"));
    assert_eq!(r.tools[0].kind, "web_search_20250305");
    assert_eq!(r.tools[0].name, "web_search");
    assert_eq!(r.tools[0].max_uses, 5);
}
