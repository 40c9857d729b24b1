//! The context rebuilt from a journal.
use std::collections::BTreeMap;

use mo_worker::chat::{ChatMessage, ToolCall};
use mo_worker::history::{
    answers_message, clean_context, decision_message, history_from_journal, tool_calls_answered,
    History,
};
use mo_worker::journal::{
    JournalEvent, JournalEventKind, JournalMessage, PermissionDecision, ToolCallInfo,
};
use mo_worker::prompt::{ASK_USER_ANSWER_PREFIX, HANDOFF_USER_PREFIX};
use mo_worker::session::Mode;

fn journal(kinds: Vec<JournalEventKind>) -> Vec<JournalEvent> {
    let mut events: Vec<JournalEvent> = Vec::new();
    let mut seq: u64 = 0;
    for kind in kinds {
        seq += 1;
        events.push(JournalEvent { seq, ts: "now".to_string(), kind });
    }
    events
}

fn rebuild(kinds: Vec<JournalEventKind>) -> History {
    history_from_journal(&journal(kinds))
}

fn message(role: &str, content: &str, calls: Option<Vec<ToolCallInfo>>) -> JournalEventKind {
    JournalEventKind::Message(JournalMessage {
        role: role.to_string(),
        content: content.to_string(),
        reasoning_content: None,
        tool_call_id: None,
        tool_calls: calls,
    })
}

fn user_msg(content: &str) -> JournalEventKind {
    message("user", content, None)
}

fn assistant_msg(content: &str) -> JournalEventKind {
    message("assistant", content, None)
}

fn call(id: &str, name: &str, arguments: &str) -> ToolCallInfo {
    ToolCallInfo {
        id: id.to_string(),
        name: name.to_string(),
        arguments: arguments.to_string(),
    }
}

fn result(id: &str, name: &str, output: &str) -> JournalEventKind {
    JournalEventKind::ToolResult {
        id: id.to_string(),
        name: name.to_string(),
        ok: true,
        output: output.to_string(),
    }
}

fn start(id: &str, name: &str, arguments: &str) -> JournalEventKind {
    JournalEventKind::ToolCallStart {
        id: id.to_string(),
        name: name.to_string(),
        arguments: arguments.to_string(),
    }
}

fn system(content: &str, mode: Mode) -> JournalEventKind {
    JournalEventKind::SystemPrompt {
        content: content.to_string(),
        mode,
        model: "m".to_string(),
    }
}

fn handoff(content: &str, mode: Mode) -> JournalEventKind {
    JournalEventKind::Handoff { content: content.to_string(), mode }
}

fn usage(tokens: u64, window: u64) -> JournalEventKind {
    JournalEventKind::ContextUsage { tokens, context_window: Some(window) }
}

fn carries_calls(m: &ChatMessage) -> bool {
    m.role == "assistant" && m.tool_calls.as_ref().is_some_and(|c| !c.is_empty())
}

#[test]
fn history_drops_dangling_tool_calls() {
    let args = r#"{"command":"./gradlew assembleDebug"}"#;
    let h = rebuild(vec![
        user_msg("first message"),
        message("assistant", "", Some(vec![call("call_1", "bash", args)])),
        start("call_1", "bash", args),
        user_msg("Continue"),
    ]);
    assert!(h.system_prompt.is_none(), "no system prompt journaled here");
    assert_eq!(h.messages.len(), 2);
    assert_eq!(h.messages[0].role, "user");
    assert_eq!(h.messages[0].content, "first message");
    assert_eq!(h.messages[1].role, "user");
    assert_eq!(h.messages[1].content, "Continue");
    for m in &h.messages {
        assert!(!carries_calls(m), "dangling tool call survived");
    }
}

#[test]
fn history_keeps_answered_tool_calls() {
    let h = rebuild(vec![
        user_msg("do it"),
        message(
            "assistant",
            "",
            Some(vec![call("call_1", "read_file", r#"{"path":"notes.txt"}"#)]),
        ),
        result("call_1", "read_file", "file contents"),
        assistant_msg("done"),
    ]);
    assert!(h.system_prompt.is_none(), "no system prompt journaled here");
    assert_eq!(h.messages.len(), 4);
    assert_eq!(h.messages[1].role, "assistant");
    assert!(h.messages[1].tool_calls.as_ref().is_some_and(|c| c.len() == 1));
    assert_eq!(
        h.messages[1].tool_calls,
        Some(vec![ToolCall {
            id: "call_1".to_string(),
            kind: "function".to_string(),
            name: "read_file".to_string(),
            arguments: r#"{"path":"notes.txt"}"#.to_string(),
        }])
    );
    assert_eq!(h.messages[2].role, "tool");
    assert_eq!(h.messages[2].tool_call_id.as_deref(), Some("call_1"));
    assert_eq!(h.messages[2].content, "file contents");
    assert_eq!(h.messages[3].role, "assistant");
    assert_eq!(h.messages[3].content, "done");
}

#[test]
fn history_reorders_tool_messages_to_match_call_order() {
    let h = rebuild(vec![
        user_msg("read both files"),
        message(
            "assistant",
            "",
            Some(vec![
                call("call_a", "read_file", r#"{"path":"a.txt"}"#),
                call("call_b", "read_file", r#"{"path":"b.txt"}"#),
            ]),
        ),
        result("call_b", "read_file", "content of b"),
        result("call_a", "read_file", "content of a"),
        assistant_msg("done"),
    ]);
    assert!(h.system_prompt.is_none(), "no system prompt journaled here");
    assert_eq!(h.messages.len(), 5);
    assert_eq!(h.messages[1].role, "assistant");
    assert_eq!(h.messages[2].role, "tool");
    assert_eq!(h.messages[2].tool_call_id.as_deref(), Some("call_a"));
    assert_eq!(h.messages[2].content, "content of a");
    assert_eq!(h.messages[3].tool_call_id.as_deref(), Some("call_b"));
    assert_eq!(h.messages[3].content, "content of b");
    assert_eq!(h.messages[4].role, "assistant");
    assert_eq!(h.messages[4].content, "done");
}

#[test]
fn history_reuses_journaled_system_prompt() {
    let prompt = "You are in Build mode. [stale copy that must survive]";
    let h = rebuild(vec![user_msg("hi"), system(prompt, Mode::Build), assistant_msg("done")]);
    assert_eq!(h.system_prompt.as_deref(), Some(prompt));
    assert_eq!(h.messages.len(), 2);
    assert_eq!(h.messages[0].role, "user");
    assert_eq!(h.messages[1].role, "assistant");
    assert!(!h.messages.iter().any(|m| m.role == "system"));
}

#[test]
fn history_places_mode_change_before_followup_user_message() {
    let notice = "[Session mode changed to plan]\n\nYou are now in Plan mode.";
    let h = rebuild(vec![
        user_msg("first message"),
        system("You are in Build mode.", Mode::Build),
        assistant_msg("done"),
        JournalEventKind::ModeChange { mode: Mode::Plan, content: notice.to_string() },
        user_msg("followup"),
    ]);
    assert_eq!(h.system_prompt.as_deref(), Some("You are in Build mode."));
    assert_eq!(h.messages.len(), 4);
    assert_eq!(h.messages[0].role, "user");
    assert_eq!(h.messages[0].content, "first message");
    assert_eq!(h.messages[1].role, "assistant");
    assert_eq!(h.messages[1].content, "done");
    assert_eq!(h.messages[2].role, "user");
    assert_eq!(h.messages[2].content, notice);
    assert_eq!(h.messages[3].role, "user");
    assert_eq!(h.messages[3].content, "followup");
    assert!(!h.messages.iter().any(|m| m.role == "system"));
}

#[test]
fn history_drops_pre_handoff_events_and_injects_handoff_message() {
    let h = rebuild(vec![
        user_msg("original task"),
        system("old system", Mode::Build),
        assistant_msg("earlier work"),
        handoff("HANDOFF TEXT", Mode::Build),
        system("fresh system", Mode::Build),
        user_msg("followup"),
    ]);
    assert_eq!(h.system_prompt.as_deref(), Some("fresh system"));
    assert_eq!(h.messages.len(), 2);
    assert_eq!(h.messages[0].role, "user");
    assert!(h.messages[0].content.contains("[Context compressed"));
    assert!(h.messages[0].content.contains("HANDOFF TEXT"));
    assert_eq!(h.messages[0].content, format!("{HANDOFF_USER_PREFIX}HANDOFF TEXT"));
    assert_eq!(h.messages[1].role, "user");
    assert_eq!(h.messages[1].content, "followup");
}

#[test]
fn history_uses_last_handoff_when_multiple() {
    let h = rebuild(vec![
        user_msg("original task"),
        system("old system", Mode::Build),
        handoff("HANDOFF ONE", Mode::Build),
        system("sys after one", Mode::Build),
        user_msg("mid work"),
        handoff("HANDOFF TWO", Mode::Plan),
        system("sys after two", Mode::Plan),
        user_msg("followup"),
    ]);
    assert_eq!(h.system_prompt.as_deref(), Some("sys after two"));
    assert_eq!(h.messages.len(), 2);
    assert!(h.messages[0].content.contains("HANDOFF TWO"));
    assert!(!h.messages[0].content.contains("HANDOFF ONE"));
    assert_eq!(h.messages[1].content, "followup");
}

#[test]
fn history_with_handoff_and_no_followup() {
    let h = rebuild(vec![
        user_msg("original task"),
        system("old system", Mode::Build),
        assistant_msg("earlier work"),
        handoff("HANDOFF TEXT", Mode::Build),
        system("fresh system", Mode::Build),
    ]);
    assert_eq!(h.system_prompt.as_deref(), Some("fresh system"));
    assert_eq!(h.messages.len(), 1);
    assert!(h.messages[0].content.contains("HANDOFF TEXT"));
    assert_eq!(h.last_prompt_tokens, None);
}

#[test]
fn history_keeps_post_handoff_tool_order() {
    let h = rebuild(vec![
        user_msg("original task"),
        system("old system", Mode::Build),
        handoff("HANDOFF TEXT", Mode::Build),
        system("fresh system", Mode::Build),
        user_msg("read files"),
        message(
            "assistant",
            "",
            Some(vec![
                call("call_a", "read_file", r#"{"path":"a.txt"}"#),
                call("call_b", "read_file", r#"{"path":"b.txt"}"#),
            ]),
        ),
        result("call_b", "read_file", "content of b"),
        result("call_a", "read_file", "content of a"),
        assistant_msg("done"),
    ]);
    assert_eq!(h.system_prompt.as_deref(), Some("fresh system"));
    assert_eq!(h.messages.len(), 6);
    assert!(h.messages[0].content.contains("HANDOFF TEXT"));
    assert_eq!(h.messages[1].content, "read files");
    assert_eq!(h.messages[2].role, "assistant");
    assert_eq!(h.messages[3].tool_call_id.as_deref(), Some("call_a"));
    assert_eq!(h.messages[4].tool_call_id.as_deref(), Some("call_b"));
    assert_eq!(h.messages[5].content, "done");
}

#[test]
fn history_drops_dangling_tool_calls_after_handoff() {
    let args = r#"{"command":"make"}"#;
    let h = rebuild(vec![
        user_msg("original task"),
        system("old system", Mode::Build),
        handoff("HANDOFF TEXT", Mode::Build),
        system("fresh system", Mode::Build),
        user_msg("continue"),
        message("assistant", "", Some(vec![call("call_1", "bash", args)])),
        start("call_1", "bash", args),
    ]);
    assert_eq!(h.system_prompt.as_deref(), Some("fresh system"));
    assert_eq!(h.messages.len(), 2);
    assert!(h.messages[0].content.contains("HANDOFF TEXT"));
    assert_eq!(h.messages[1].content, "continue");
    for m in &h.messages {
        assert!(!carries_calls(m), "dangling tool call survived");
    }
}

#[test]
fn history_tracks_last_context_usage() {
    let h = rebuild(vec![
        user_msg("hi"),
        usage(100, 200),
        assistant_msg("ok"),
        usage(120, 200),
    ]);
    assert_eq!(h.last_prompt_tokens, Some(120));

    let h = rebuild(vec![
        user_msg("hi"),
        system("old system", Mode::Build),
        usage(900, 1000),
        handoff("HANDOFF TEXT", Mode::Build),
        system("fresh system", Mode::Build),
        usage(30, 1000),
    ]);
    assert_eq!(h.last_prompt_tokens, Some(30));
}

#[test]
fn empty_role_becomes_the_assistant() {
    let h = rebuild(vec![user_msg("hi"), message("", "answer", None)]);
    assert_eq!(h.messages[1].role, "assistant");
    assert_eq!(h.messages[1].content, "answer");
}

#[test]
fn partial_results_of_a_dangling_call_go_with_it() {
    let h = rebuild(vec![
        user_msg("go"),
        message(
            "assistant",
            "",
            Some(vec![call("a", "bash", "{}"), call("b", "bash", "{}")]),
        ),
        result("a", "bash", "half"),
        user_msg("next"),
    ]);
    assert_eq!(h.messages.len(), 2);
    assert_eq!(h.messages[1].content, "next");
}

#[test]
fn duplicate_call_ids_need_a_result_each() {
    let calls = Some(vec![call("x", "bash", "{}"), call("x", "bash", "{}")]);
    let h = rebuild(vec![
        message("assistant", "", calls.clone()),
        result("x", "bash", "one"),
    ]);
    assert_eq!(h.messages.len(), 0);
    let h = rebuild(vec![
        message("assistant", "", calls),
        result("x", "bash", "one"),
        result("x", "bash", "two"),
    ]);
    assert_eq!(h.messages.len(), 3);
    assert_eq!(h.messages[1].content, "one");
    assert_eq!(h.messages[2].content, "two");
}

#[test]
fn stray_results_sink_behind_the_answers() {
    let h = rebuild(vec![
        message("assistant", "", Some(vec![call("a", "bash", "{}")])),
        result("stray", "bash", "s"),
        result("a", "bash", "r"),
    ]);
    assert_eq!(h.messages.len(), 3);
    assert_eq!(h.messages[1].content, "r");
    assert_eq!(h.messages[2].content, "s");
}

#[test]
fn completion_order_does_not_show() {
    let calls = Some(vec![
        call("a", "bash", "{}"),
        call("b", "bash", "{}"),
        call("c", "bash", "{}"),
    ]);
    let orders = [["a", "b", "c"], ["c", "a", "b"], ["b", "c", "a"]];
    let mut seen: Vec<Vec<ChatMessage>> = Vec::new();
    for order in orders {
        let mut kinds = vec![message("assistant", "", calls.clone())];
        for id in order {
            kinds.push(result(id, "bash", &format!("out {id}")));
        }
        seen.push(rebuild(kinds).messages);
    }
    assert_eq!(seen[0], seen[1]);
    assert_eq!(seen[0], seen[2]);
    assert_eq!(seen[0][3].content, "out c");
}

#[test]
fn cleaning_twice_changes_nothing() {
    let h = rebuild(vec![
        message("assistant", "", Some(vec![call("a", "bash", "{}"), call("b", "bash", "{}")])),
        result("b", "bash", "2"),
        result("a", "bash", "1"),
        message("assistant", "", Some(vec![call("c", "bash", "{}")])),
        user_msg("next"),
    ]);
    assert_eq!(clean_context(&h.messages), h.messages);
    assert!(tool_calls_answered(&h.messages, 0));
}

#[test]
fn answers_become_a_user_message_in_json() {
    let mut answers = BTreeMap::new();
    answers.insert("q1".to_string(), "say \"yes\"".to_string());
    let h = rebuild(vec![JournalEventKind::AskUserAnswered { answers }]);
    assert_eq!(h.messages.len(), 1);
    assert_eq!(h.messages[0].role, "user");
    assert_eq!(
        h.messages[0].content,
        format!("{ASK_USER_ANSWER_PREFIX}{{\n  \"q1\": \"say \\\"yes\\\"\"\n}}")
    );
    assert_eq!(answers_message(None).content, ASK_USER_ANSWER_PREFIX);
    assert_eq!(
        answers_message(Some("{}".to_string())).content,
        format!("{ASK_USER_ANSWER_PREFIX}{{}}")
    );
}

fn answered(tool: Option<&str>, allowed: Option<bool>, batch: bool) -> JournalEventKind {
    JournalEventKind::PermissionAnswered {
        request_id: "p1".to_string(),
        tool: tool.map(|t| t.to_string()),
        operation: tool.map(|_| "read".to_string()),
        path: tool.map(|_| "/etc/a".to_string()),
        allowed,
        decisions: if batch {
            vec![PermissionDecision {
                call_id: "c".to_string(),
                tool: "read_file".to_string(),
                operation: "read".to_string(),
                path: "/etc/a".to_string(),
                allowed: true,
            }]
        } else {
            Vec::new()
        },
    }
}

#[test]
fn single_decisions_become_user_messages() {
    let h = rebuild(vec![answered(Some("read_file"), Some(true), false)]);
    assert_eq!(
        h.messages[0].content,
        "[The user decided a file-access permission request:]\n\nallowed the request read_file \
         (read) on \"/etc/a\". Retry the tool call with the same arguments."
    );
    let h = rebuild(vec![answered(Some("read_file"), Some(false), false)]);
    assert_eq!(
        h.messages[0].content,
        "[The user decided a file-access permission request:]\n\ndenied the request read_file \
         (read) on \"/etc/a\". Do not retry this exact request; find another way or explain why \
         you cannot proceed."
    );
    assert_eq!(h.messages[0], decision_message("read_file", "read", "/etc/a", false));
    // A batched decision is delivered by its results, not by a message.
    let h = rebuild(vec![answered(None, None, true)]);
    assert!(h.messages.is_empty());
}

#[test]
fn what_came_before_the_handoff_does_not_matter() {
    let tail = || {
        vec![
            handoff("H", Mode::Build),
            system("fresh", Mode::Build),
            user_msg("more"),
        ]
    };
    let mut long = vec![
        user_msg("old"),
        message("assistant", "", Some(vec![call("a", "bash", "{}")])),
        usage(77, 100),
    ];
    long.extend(tail());
    let a = rebuild(long);
    let b = rebuild(tail());
    assert_eq!(a, b);
}

#[test]
fn metadata_adds_no_message() {
    let base = vec![user_msg("hi"), assistant_msg("ok")];
    let mut more = base.clone();
    more.push(system("s", Mode::Build));
    more.push(start("c", "bash", "{}"));
    more.push(JournalEventKind::MessageDelta {
        content: "x".to_string(),
        reasoning_content: None,
    });
    more.push(JournalEventKind::ModeChangeRequestDeclined { mode: Mode::Build });
    assert_eq!(rebuild(base).messages, rebuild(more).messages);
}
