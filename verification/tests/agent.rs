//! The agent loop, and the assembly of streamed replies.
use mo_worker::agent::{
    concurrency, held_calls_to_resume, plan_calls, result_event, scratch_dir, start_events,
    tool_context, tool_messages, AgentConfig, AgentLoop, Step, NO_RESULT,
};
use mo_worker::chat::{
    journal_message_from, restore_message, system_message, text_message, tool_message, ChatMessage,
    ToolCall,
};
use mo_worker::config::DEFAULT_THRESHOLD_BITS;
use mo_worker::driver::{AgentRun, Order, Phase, RunEvent};
use mo_worker::history::{history_from_journal, History};
use mo_worker::journal::{
    JournalEvent, JournalEventKind, PermissionDecision, PermissionRequestItem,
};
use mo_worker::prompt::{handoff_instruction, HANDOFF_USER_PREFIX};
use mo_worker::reply::{retry_delay, CallDelta, Reply, ReplyDelta, EMPTY_RESPONSE};
use mo_worker::session::{Mode, Session, SessionStatus};
use mo_worker::tools::permission::Preflight;
use mo_worker::tools::ToolContext;

fn session(parent_id: Option<&str>) -> Session {
    Session {
        id: "s1".into(),
        parent_id: parent_id.map(|p| p.into()),
        workdir: "/w".into(),
        prompt: "p".into(),
        model: "m".into(),
        status: SessionStatus::Running,
        mode: Mode::Build,
        tools: vec![],
        skills: vec![],
        pid: None,
        journal_path: "/d/sessions/s1/journal.jsonl".into(),
        created_at: "now".into(),
        updated_at: "now".into(),
        heartbeat_at: None,
        error: None,
    }
}

fn config(parent_id: Option<&str>) -> AgentConfig {
    AgentConfig {
        session: session(parent_id),
        workdir: "/w".into(),
        data_dir: "/d".into(),
        agents_dir: "/a".into(),
        model_base_url: "http://m".into(),
        model_name: "m".into(),
        auth_token: Some("t".into()),
        context_window: Some(100),
        subagent_depth: 0,
        max_tool_concurrency: 4,
        context_compression_threshold: DEFAULT_THRESHOLD_BITS,
    }
}

fn ctx(parent_id: Option<&str>) -> ToolContext {
    tool_context(config(parent_id), "/d/sessions/s1/tmp".into())
}

fn call(id: &str, name: &str) -> ToolCall {
    ToolCall {
        id: id.into(),
        kind: "function".into(),
        name: name.into(),
        arguments: "{}".into(),
    }
}

fn with_calls(calls: Vec<ToolCall>) -> ChatMessage {
    ChatMessage {
        role: "assistant".into(),
        content: "".into(),
        reasoning_content: None,
        tool_call_id: None,
        tool_calls: Some(calls),
    }
}

fn journal(kinds: Vec<JournalEventKind>) -> Vec<JournalEvent> {
    let mut events: Vec<JournalEvent> = Vec::new();
    let mut seq: u64 = 0;
    for kind in kinds {
        seq += 1;
        events.push(JournalEvent { seq, ts: "now".into(), kind });
    }
    events
}

fn item(id: &str) -> PermissionRequestItem {
    PermissionRequestItem {
        call_id: id.into(),
        tool: "read_file".into(),
        operation: "read".into(),
        path: "/etc/a".into(),
        arguments: "{}".into(),
    }
}

fn delta() -> ReplyDelta {
    ReplyDelta { role: None, content: None, reasoning_content: None, tool_calls: None }
}

fn pair(id: &str, output: &str) -> (String, String) {
    (id.into(), output.into())
}

#[test]
fn contexts_carry_the_configuration() {
    let ctx = ctx(None);
    assert_eq!(ctx.scratch, scratch_dir("/d", "s1"));
    assert_eq!(ctx.workdir, "/w");
    assert_eq!(ctx.data_dir, "/d");
    assert_eq!(ctx.agents_dir, "/a");
    assert_eq!(ctx.session, session(None));
    assert_eq!(ctx.auth_token.as_deref(), Some("t"));
    assert_eq!(ctx.context_window, Some(100));
    assert_eq!(concurrency(0), 1);
    assert_eq!(concurrency(1), 1);
    assert_eq!(concurrency(8), 8);
}

#[test]
fn a_fresh_session_journals_its_prompt() {
    let fresh = History { system_prompt: None, messages: vec![], last_prompt_tokens: None };
    let (opened, event) = AgentLoop::start(fresh, "built".into(), Mode::Plan, "m");
    assert_eq!(opened.messages, [system_message("built".into())]);
    assert_eq!(
        event,
        Some(JournalEventKind::SystemPrompt {
            content: "built".into(),
            mode: Mode::Plan,
            model: "m".into(),
        })
    );
    let known = History {
        system_prompt: Some("kept".into()),
        messages: vec![text_message("user", "hi".into())],
        last_prompt_tokens: Some(9),
    };
    let (opened, event) = AgentLoop::start(known, "built".into(), Mode::Plan, "m");
    assert_eq!(opened.messages[0].content, "kept");
    assert_eq!(opened.messages[1].content, "hi");
    assert_eq!(opened.last_usage, Some(9));
    assert_eq!(event, None);
}

#[test]
fn compression_waits_for_the_threshold() {
    let history = History {
        system_prompt: Some("s".into()),
        messages: vec![],
        last_prompt_tokens: Some(80),
    };
    let (mut at, _) = AgentLoop::start(history, "".into(), Mode::Build, "m");
    assert_eq!(at.next_step(Some(100), true), Step::Compress);
    assert_eq!(at.next_step(Some(100), false), Step::Generate);
    assert_eq!(at.next_step(None, true), Step::Generate);
    assert_eq!(at.next_step(Some(0), true), Step::Generate);
    let request = at.handoff_request();
    assert_eq!(request.len(), 2);
    assert_eq!(request[1], text_message("user", handoff_instruction()));
    // One failure, and it is not tried again.
    at.handoff_failed();
    assert_eq!(at.next_step(Some(100), true), Step::Generate);
}

#[test]
fn compression_replaces_the_context() {
    let reply = text_message("assistant", "  HANDOFF \n".into());
    let (handoff, prompt) =
        AgentLoop::handoff_events(&reply, "fresh".into(), Mode::Build, "m");
    assert_eq!(
        handoff,
        JournalEventKind::Handoff { content: "HANDOFF".into(), mode: Mode::Build }
    );
    let events = journal(vec![
        JournalEventKind::Message(journal_message_from(&text_message("user", "old".into()))),
        handoff,
        prompt,
    ]);
    let old = History {
        system_prompt: Some("s".into()),
        messages: vec![text_message("user", "old".into())],
        last_prompt_tokens: Some(80),
    };
    let (mut at, _) = AgentLoop::start(old, "".into(), Mode::Build, "m");
    let history = history_from_journal(&events);
    assert_eq!(history.system_prompt.as_deref(), Some("fresh"));
    at.resume_compressed(history);
    assert_eq!(
        at.messages,
        [
            system_message("fresh".into()),
            text_message("user", format!("{HANDOFF_USER_PREFIX}HANDOFF")),
        ]
    );
    assert_eq!(at.last_usage, None);
    assert!(!at.compression_attempted);
}

#[test]
fn replies_are_journaled_with_their_usage() {
    let history = History {
        system_prompt: Some("s".into()),
        messages: vec![],
        last_prompt_tokens: Some(5),
    };
    let (mut at, _) = AgentLoop::start(history, "".into(), Mode::Build, "m");
    let reply = with_calls(vec![call("a", "bash")]);
    let events = at.note_reply(&reply, None, Some(100));
    assert_eq!(events, [JournalEventKind::Message(journal_message_from(&reply))]);
    assert_eq!(at.last_usage, Some(5));
    let events = at.note_reply(&reply, Some(42), Some(100));
    assert_eq!(
        events,
        [
            JournalEventKind::ContextUsage { tokens: 42, context_window: Some(100) },
            JournalEventKind::Message(journal_message_from(&reply)),
        ]
    );
    assert_eq!(at.last_usage, Some(42));
}

#[test]
fn results_answer_in_call_order() {
    let calls = vec![call("a", "bash"), call("b", "bash"), call("c", "bash")];
    let results = vec![pair("b", "2"), pair("a", "1")];
    let expected = vec![
        tool_message("a".into(), "1".into()),
        tool_message("b".into(), "2".into()),
        tool_message("c".into(), NO_RESULT.into()),
    ];
    assert_eq!(tool_messages(&calls, &results), expected);
    let (mut at, _) = AgentLoop::start(
        History { system_prompt: Some("s".into()), messages: vec![], last_prompt_tokens: None },
        "".into(),
        Mode::Build,
        "m",
    );
    at.finish_round(with_calls(calls.clone()), &results);
    assert_eq!(at.messages.len(), 5);
    assert_eq!(at.messages[2..], expected[..]);
    assert_eq!(
        start_events(&calls)[1],
        JournalEventKind::ToolCallStart {
            id: "b".into(),
            name: "bash".into(),
            arguments: "{}".into(),
        }
    );
}

#[test]
fn a_resumed_session_sees_what_the_running_one_saw() {
    let asked = JournalEventKind::Message(journal_message_from(&text_message("user", "go".into())));
    let prompt = JournalEventKind::SystemPrompt {
        content: "s".into(),
        mode: Mode::Build,
        model: "m".into(),
    };
    let mut kinds = vec![asked, prompt];
    let (mut at, _) =
        AgentLoop::start(history_from_journal(&journal(kinds.clone())), "".into(), Mode::Build, "m");
    let reply = with_calls(vec![call("a", "bash"), call("b", "bash")]);
    kinds.extend(at.note_reply(&reply, Some(7), None));
    kinds.extend(start_events(reply.tool_calls.as_ref().unwrap()));
    let mut results: Vec<(String, String)> = Vec::new();
    for (id, outcome) in [("b", Err("failed".to_string())), ("a", Ok("fine".to_string()))] {
        kinds.push(result_event(id, "bash", &outcome));
        results.push(pair(id, outcome.as_ref().unwrap_or_else(|e| e)));
    }
    at.finish_round(reply, &results);
    let resumed = history_from_journal(&journal(kinds));
    assert_eq!(resumed.messages[..], at.messages[1..]);
    assert_eq!(resumed.last_prompt_tokens, at.last_usage);
}

#[test]
fn held_calls_go_out_as_one_request() {
    let calls = vec![call("a", "read_file"), call("b", "bash"), call("c", "read_file")];
    let preflights = vec![
        Preflight::Permission(item("a")),
        Preflight::Run,
        Preflight::Permission(item("c")),
    ];
    let none = Ok(Vec::new());
    let plan = plan_calls(&ctx(None), &calls, &preflights, &none);
    assert!(plan.hold);
    assert_eq!(plan.to_run, [call("b", "bash")]);
    match plan.request {
        Some(JournalEventKind::PermissionRequest { items, .. }) => {
            assert_eq!(items, [item("a"), item("c")]);
        }
        other => panic!("expected a request, got: {other:?}"),
    }
    // Where the user cannot be asked, all calls run.
    let plan = plan_calls(&ctx(Some("root")), &calls, &preflights, &none);
    assert!(!plan.hold && plan.request.is_none());
    assert_eq!(plan.to_run, calls);
    let free = vec![Preflight::Run, Preflight::Run, Preflight::Run];
    let plan = plan_calls(&ctx(None), &calls, &free, &none);
    assert!(!plan.hold && plan.request.is_none());
    assert_eq!(plan.to_run, calls);
}

fn request(items: Vec<PermissionRequestItem>) -> JournalEventKind {
    JournalEventKind::PermissionRequest {
        request_id: "p1".into(),
        tool: None,
        operation: None,
        path: None,
        items,
    }
}

fn answer(ids: &[&str]) -> JournalEventKind {
    JournalEventKind::PermissionAnswered {
        request_id: "p1".into(),
        tool: None,
        operation: None,
        path: None,
        allowed: None,
        decisions: ids
            .iter()
            .map(|id| PermissionDecision {
                call_id: id.to_string(),
                tool: "read_file".into(),
                operation: "read".into(),
                path: "/etc/a".into(),
                allowed: true,
            })
            .collect(),
    }
}

#[test]
fn answered_calls_are_resumed_once() {
    let mut kinds = vec![request(vec![item("a"), item("b")])];
    assert!(held_calls_to_resume(&journal(kinds.clone())).is_empty());
    kinds.push(answer(&["a", "b"]));
    assert_eq!(held_calls_to_resume(&journal(kinds.clone())), [item("a"), item("b")]);
    kinds.push(result_event("a", "read_file", &Ok("x".into())));
    assert_eq!(held_calls_to_resume(&journal(kinds.clone())), [item("b")]);
    kinds.push(result_event("b", "read_file", &Err("denied".into())));
    assert!(held_calls_to_resume(&journal(kinds)).is_empty());
}

#[test]
fn the_latest_request_is_the_one_resumed() {
    let kinds = vec![
        request(vec![item("old")]),
        answer(&["old"]),
        result_event("old", "read_file", &Ok("x".into())),
        request(vec![item("new")]),
        answer(&["new"]),
    ];
    assert_eq!(held_calls_to_resume(&journal(kinds)), [item("new")]);
}

#[test]
fn deltas_assemble_the_reply() {
    let mut reply = Reply::new();
    let mut first = delta();
    first.role = Some("assistant".into());
    first.reasoning_content = Some("think".into());
    assert_eq!(
        reply.on_delta(first, true),
        Some(JournalEventKind::MessageDelta {
            content: "".into(),
            reasoning_content: Some("think".into()),
        })
    );
    let mut text = delta();
    text.content = Some("hel".into());
    reply.on_delta(text.clone(), true);
    text.content = Some("lo".into());
    assert_eq!(
        reply.on_delta(text, true),
        Some(JournalEventKind::MessageDelta { content: "lo".into(), reasoning_content: None })
    );
    assert_eq!(reply.on_delta(delta(), true), None);
    reply.on_usage(Some(12));
    let (message, tokens) = reply.finish().unwrap();
    assert_eq!(message.role, "assistant");
    assert_eq!(message.content, "hello");
    assert_eq!(message.reasoning_content.as_deref(), Some("think"));
    assert_eq!(message.tool_calls, None);
    assert_eq!(tokens, Some(12));
}

#[test]
fn call_deltas_assemble_the_calls() {
    let mut reply = Reply::new();
    let mut first = delta();
    first.tool_calls = Some(vec![
        CallDelta {
            index: 0,
            id: Some("a".into()),
            kind: Some("function".into()),
            name: Some("bash".into()),
            arguments: Some("{\"com".into()),
        },
        CallDelta {
            index: 1,
            id: Some("b".into()),
            kind: Some("function".into()),
            name: Some("read_file".into()),
            arguments: Some("{}".into()),
        },
    ]);
    assert_eq!(reply.on_delta(first, true), None);
    let mut rest = delta();
    rest.tool_calls = Some(vec![CallDelta {
        index: 0,
        id: None,
        kind: None,
        name: None,
        arguments: Some("mand\":1}".into()),
    }]);
    reply.on_delta(rest, false);
    let (message, tokens) = reply.finish().unwrap();
    // No role was streamed: a reply is the assistant's.
    assert_eq!(message.role, "assistant");
    assert_eq!(tokens, None);
    let calls = message.tool_calls.unwrap();
    assert_eq!(calls.len(), 2);
    assert_eq!(calls[0].id, "a");
    assert_eq!(calls[0].kind, "function");
    assert_eq!(calls[0].name, "bash");
    assert_eq!(calls[0].arguments, "{\"command\":1}");
    assert_eq!(calls[1].name, "read_file");
}

#[test]
fn empty_replies_are_refused() {
    let mut reply = Reply::new();
    let mut thought = delta();
    thought.reasoning_content = Some("hm".into());
    assert_eq!(reply.on_delta(thought, false), None);
    assert_eq!(reply.finish().unwrap_err(), EMPTY_RESPONSE);
    assert_eq!(Reply::new().finish().unwrap_err(), "model returned an empty response");
}

#[test]
fn three_attempts_with_growing_delays() {
    assert_eq!(retry_delay(0), Some(5));
    assert_eq!(retry_delay(1), Some(15));
    assert_eq!(retry_delay(2), None);
    assert_eq!(retry_delay(7), None);
}

#[test]
fn journaled_messages_come_back() {
    let mut message = with_calls(vec![call("a", "bash")]);
    message.content = "text".into();
    message.reasoning_content = Some("why".into());
    assert_eq!(restore_message(&journal_message_from(&message)), message);
}

/// A session driven by canned replies: the journal grows as the machine says,
/// and tools answer with their call id.
struct Driven {
    ctx: ToolContext,
    kinds: Vec<JournalEventKind>,
    run: AgentRun,
    order: Order,
}

impl Driven {
    fn open(parent_id: Option<&str>, first: &str) -> Driven {
        let ctx = ctx(parent_id);
        let mut kinds = vec![said("user", first)];
        let history = history_from_journal(&journal(kinds.clone()));
        let (run, turn) = AgentRun::open(&ctx, history, "built".into(), false);
        kinds.extend(turn.journal);
        Driven { ctx, kinds, run, order: turn.order }
    }

    fn step(&mut self, event: RunEvent) {
        let turn = self.run.step(&self.ctx, event);
        self.kinds.extend(turn.journal);
        self.order = turn.order;
    }

    fn reply(&mut self, message: ChatMessage, prompt_tokens: Option<u64>) {
        self.step(RunEvent::Replied { message, prompt_tokens });
    }

    fn preflight(&mut self, preflights: Vec<Preflight>) {
        let events = Ok(journal(self.kinds.clone()));
        self.step(RunEvent::Preflighted { preflights, events });
    }

    /// Runs the ordered calls; the last one finishes first.
    fn tools(&mut self, over_threshold: bool) {
        let calls = match &self.order {
            Order::Run(calls) => calls.clone(),
            other => panic!("expected calls to run, got: {other:?}"),
        };
        let mut results: Vec<(String, String)> = Vec::new();
        for c in calls.iter().rev() {
            let output = format!("output of {}", c.id);
            self.kinds.push(result_event(&c.id, &c.name, &Ok(output.clone())));
            results.push((c.id.clone(), output));
        }
        self.step(RunEvent::Ran { results, over_threshold });
    }
}

fn said(role: &str, content: &str) -> JournalEventKind {
    JournalEventKind::Message(journal_message_from(&text_message(role, content.into())))
}

#[test]
fn a_run_goes_from_calls_to_the_answer() {
    let mut s = Driven::open(None, "read and run");
    assert!(matches!(&s.order, Order::Generate(m) if m.len() == 2 && m[0].content == "built"));
    s.reply(with_calls(vec![call("call_1", "read_file"), call("call_2", "bash")]), Some(10));
    assert!(matches!(&s.order, Order::Preflight(calls) if calls.len() == 2));
    s.preflight(vec![Preflight::Run, Preflight::Run]);
    s.tools(false);
    match &s.order {
        Order::Generate(messages) => {
            let ids: Vec<Option<&str>> =
                messages.iter().map(|m| m.tool_call_id.as_deref()).collect();
            assert_eq!(ids, [None, None, None, Some("call_1"), Some("call_2")]);
            assert_eq!(messages[3].content, "output of call_1");
        }
        other => panic!("expected a model call, got: {other:?}"),
    }
    s.reply(text_message("assistant", "done".into()), None);
    assert_eq!(s.order, Order::Stop);
    assert_eq!(s.run.phase, Phase::Done);
    // The journal holds the whole run, the results in completion order.
    let mut names: Vec<&str> = Vec::new();
    for kind in &s.kinds {
        names.push(match kind {
            JournalEventKind::Message(_) => "message",
            JournalEventKind::SystemPrompt { .. } => "system_prompt",
            JournalEventKind::ContextUsage { .. } => "context_usage",
            JournalEventKind::ToolCallStart { .. } => "tool_call_start",
            JournalEventKind::ToolResult { id, .. } => id,
            _ => "other",
        });
    }
    assert_eq!(
        names,
        [
            "message",
            "system_prompt",
            "context_usage",
            "message",
            "tool_call_start",
            "tool_call_start",
            "call_2",
            "call_1",
            "message",
        ]
    );
    // And gives the context back.
    let resumed = history_from_journal(&journal(s.kinds.clone()));
    assert_eq!(resumed.messages[..4], s.run.at.messages[1..]);
    assert_eq!(resumed.messages[4].content, "done");
}

#[test]
fn a_full_context_is_compressed_before_the_next_reply() {
    let mut s = Driven::open(None, "long task");
    s.reply(with_calls(vec![call("a", "bash")]), Some(90));
    s.preflight(vec![Preflight::Run]);
    s.tools(true);
    match &s.order {
        Order::WriteHandoff(messages) => {
            assert_eq!(messages.last().unwrap().content, handoff_instruction());
        }
        other => panic!("expected a handoff, got: {other:?}"),
    }
    s.step(RunEvent::HandoffWritten {
        reply: text_message("assistant", " SUMMARY ".into()),
        new_system: "fresh".into(),
    });
    assert_eq!(s.order, Order::Rebuild);
    let history = history_from_journal(&journal(s.kinds.clone()));
    s.step(RunEvent::Rebuilt { history });
    let expected = vec![
        system_message("fresh".into()),
        text_message("user", format!("{HANDOFF_USER_PREFIX}SUMMARY")),
    ];
    assert_eq!(s.order, Order::Generate(expected));
    s.reply(text_message("assistant", "done".into()), Some(5));
    assert_eq!(s.order, Order::Stop);
}

#[test]
fn a_failed_compression_is_not_tried_again() {
    let mut s = Driven::open(None, "long task");
    s.reply(with_calls(vec![call("a", "bash")]), Some(90));
    s.preflight(vec![Preflight::Run]);
    s.tools(true);
    s.step(RunEvent::HandoffFailed);
    assert!(matches!(&s.order, Order::Generate(m) if m.len() == 4));
    s.reply(with_calls(vec![call("b", "bash")]), Some(95));
    s.preflight(vec![Preflight::Run]);
    s.tools(true);
    assert!(matches!(&s.order, Order::Generate(m) if m.len() == 6));
}

#[test]
fn a_held_run_ends_and_resumes() {
    let mut s = Driven::open(None, "read outside");
    s.reply(with_calls(vec![call("a", "read_file"), call("b", "bash")]), None);
    s.preflight(vec![Preflight::Permission(item("a")), Preflight::Run]);
    assert_eq!(s.order, Order::Run(vec![call("b", "bash")]));
    s.tools(false);
    assert_eq!(s.order, Order::Stop);
    assert!(matches!(s.kinds[s.kinds.len() - 2], JournalEventKind::PermissionRequest { .. }));
    // The user decides, the held call runs, and the context is whole again.
    s.kinds.push(answer(&["a"]));
    let held = held_calls_to_resume(&journal(s.kinds.clone()));
    assert_eq!(held, [item("a")]);
    s.kinds.push(result_event("a", "read_file", &Ok("text".into())));
    let resumed = history_from_journal(&journal(s.kinds.clone()));
    let ids: Vec<Option<&str>> =
        resumed.messages.iter().map(|m| m.tool_call_id.as_deref()).collect();
    assert_eq!(ids, [None, None, Some("a"), Some("b")]);
}

#[test]
fn a_run_fails_with_its_model() {
    let mut s = Driven::open(None, "task");
    s.step(RunEvent::ReplyFailed { error: "no endpoint".into() });
    assert_eq!(
        s.order,
        Order::Fail("LLM generation failed after retries: no endpoint".into())
    );
    assert_eq!(s.run.phase, Phase::Done);
}

#[test]
fn a_subagent_runs_what_it_cannot_ask_for() {
    let mut s = Driven::open(Some("root"), "task");
    s.reply(with_calls(vec![call("a", "read_file")]), None);
    s.preflight(vec![Preflight::Permission(item("a"))]);
    assert_eq!(s.order, Order::Run(vec![call("a", "read_file")]));
    s.tools(false);
    assert!(matches!(s.order, Order::Generate(_)));
}
