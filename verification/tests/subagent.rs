//! Subagents, background commands and the tool registry.
use mo_worker::config::{DEFAULT_MAX_TOOL_CONCURRENCY, DEFAULT_THRESHOLD_BITS};
use mo_worker::journal::{JournalEvent, JournalEventKind, JournalMessage};
use mo_worker::session::{Mode, Session, SessionStatus};
use mo_worker::tools::bash_in_background::{
    describe_exit, execute, BackgroundRequest, Exit, Jobs, Poll,
};
use mo_worker::tools::definitions::{
    is_known_tool, tool_definitions, tool_enabled, ParamKind, ToolDefinition,
};
use mo_worker::tools::subagent::{
    check_spawn, child_depth, child_env, child_report, child_session, create_child_session,
    last_assistant_message, look_at_child, session_dir, ChildSession,
};
use mo_worker::tools::{
    ToolContext, TOOL_ASK_USER, TOOL_BASH, TOOL_BASH_IN_BACKGROUND, TOOL_CREATE_FILE,
    TOOL_EDIT_FILE, TOOL_LOAD_SKILL, TOOL_READ_FILE, TOOL_REMOVE_FILE, TOOL_REQUEST_MODE_CHANGE,
    TOOL_SPAWN_SUBAGENT,
};

fn test_ctx(parent_id: Option<String>) -> ToolContext {
    ToolContext {
        workdir: "/tmp".into(),
        data_dir: "/base/data".into(),
        agents_dir: "/base/agents".into(),
        session: Session {
            id: "parent".into(),
            parent_id,
            workdir: "/tmp".into(),
            prompt: "parent title".into(),
            model: "m".into(),
            status: SessionStatus::Running,
            mode: Mode::Build,
            tools: vec![],
            skills: vec![],
            pid: None,
            journal_path: "/tmp/j.jsonl".into(),
            created_at: "now".into(),
            updated_at: "now".into(),
            heartbeat_at: None,
            error: None,
        },
        scratch: "/base/data/sessions/parent/tmp".into(),
        subagent_depth: 0,
        max_tool_concurrency: DEFAULT_MAX_TOOL_CONCURRENCY,
        model_base_url: "http://localhost:1".into(),
        model_name: "m".into(),
        auth_token: None,
        context_window: Some(4096),
        context_compression_threshold: DEFAULT_THRESHOLD_BITS,
    }
}

fn cannot_spawn_further() {
    let ctx = test_ctx(Some("root".to_string()));
    let err = check_spawn(&ctx, "do it").unwrap_err();
    assert!(err.contains("subagents cannot spawn further subagents"), "got: {err}");
    assert!(err.contains("hard limit 1"), "got: {err}");
}

fn titles_and_seeds_journal() {
    let ctx = test_ctx(None);
    let child = create_child_session(&ctx, "subagent task text", Mode::Explore, "call_x");
    let row = &child.session;
    assert_eq!(row.parent_id.as_deref(), Some("parent"));
    assert_eq!(row.prompt, "Subagent for parent title");
    assert_eq!(row.mode, Mode::Explore);
    assert_eq!(row.status, SessionStatus::Pending);
    assert_eq!(row.journal_path, format!("/base/data/sessions/{}/journal.jsonl", row.id));
    match &child.task {
        JournalEventKind::Message(m) => {
            assert_eq!(m.role, "user");
            assert_eq!(m.content, "subagent task text");
        }
        other => panic!("expected user message, got: {other:?}"),
    }
    match &child.started {
        JournalEventKind::SubagentStarted { child_id, tool_call_id, mode } => {
            assert_eq!(child_id, &row.id);
            assert_eq!(tool_call_id, "call_x");
            assert_eq!(*mode, Mode::Explore);
        }
        other => panic!("expected subagent_started, got: {other:?}"),
    }
}

fn falls_back_to_bare_title() {
    let mut ctx = test_ctx(None);
    ctx.session.prompt = "   ".to_string();
    let child = create_child_session(&ctx, "task", Mode::Build, "c1");
    assert_eq!(child.session.prompt, "Subagent");
}

#[test]
fn subagent_tests_subagent_cannot_spawn_further() {
    cannot_spawn_further();
}

#[test]
fn subagent_tests_create_child_session_titles_and_seeds_journal() {
    titles_and_seeds_journal();
}

#[test]
fn subagent_tests_create_child_session_falls_back_to_bare_subagent_title() {
    falls_back_to_bare_title();
}

#[test]
fn subagent_subagent_cannot_spawn_further() {
    cannot_spawn_further();
}

#[test]
fn subagent_create_child_session_titles_and_seeds_journal() {
    titles_and_seeds_journal();
}

#[test]
fn subagent_create_child_session_falls_back_to_bare_subagent_title() {
    falls_back_to_bare_title();
}

#[test]
fn spawning_needs_a_root_and_a_prompt() {
    let ctx = test_ctx(None);
    assert_eq!(check_spawn(&ctx, "do it"), Ok(()));
    assert_eq!(check_spawn(&ctx, " \n").unwrap_err(), "prompt must not be empty");
    // A subagent is refused before its prompt is looked at.
    let child = test_ctx(Some("root".to_string()));
    assert_eq!(check_spawn(&child, ""), check_spawn(&child, "do it"));
}

#[test]
fn ids_and_times_are_fresh() {
    let ctx = test_ctx(None);
    let a = create_child_session(&ctx, "t", Mode::Build, "c");
    let b = create_child_session(&ctx, "t", Mode::Build, "c");
    assert_ne!(a.session.id, b.session.id);
    let id: Vec<char> = a.session.id.chars().collect();
    assert_eq!(id.len(), 36);
    for (i, c) in id.iter().enumerate() {
        if i == 8 || i == 13 || i == 18 || i == 23 {
            assert_eq!(*c, '-');
        } else {
            assert!(c.is_ascii_hexdigit() && !c.is_ascii_uppercase());
        }
    }
    assert_eq!(id[14], '4');
    assert!(a.session.created_at.contains('T'), "{}", a.session.created_at);
    assert_eq!(a.session.created_at, a.session.updated_at);
}

#[test]
fn children_are_made_from_their_parent() {
    let ctx = test_ctx(None);
    let made: ChildSession =
        child_session(&ctx, "task", Mode::Plan, "c9", "child".into(), "today".into());
    assert_eq!(
        made.session,
        Session {
            id: "child".into(),
            parent_id: Some("parent".into()),
            workdir: "/tmp".into(),
            prompt: "Subagent for parent title".into(),
            model: "m".into(),
            status: SessionStatus::Pending,
            mode: Mode::Plan,
            tools: vec![],
            skills: vec![],
            pid: None,
            journal_path: "/base/data/sessions/child/journal.jsonl".into(),
            created_at: "today".into(),
            updated_at: "today".into(),
            heartbeat_at: None,
            error: None,
        }
    );
    assert_eq!(session_dir("/base/data", "child"), "/base/data/sessions/child");
    assert_eq!(child_depth(0), 1);
    assert_eq!(child_depth(1), 1);
}

#[test]
fn children_inherit_the_model() {
    let env = child_env(&test_ctx(None), "0.75");
    let get = |key: &str| env.iter().find(|(k, _)| k == key).map(|(_, v)| v.clone());
    assert_eq!(get("MO_DATA_DIR").as_deref(), Some("/base/data"));
    assert_eq!(get("MO_SUBAGENT_DEPTH").as_deref(), Some("1"));
    assert_eq!(get("MO_MODEL_NAME").as_deref(), Some("m"));
    assert_eq!(get("MO_CONTEXT_WINDOW").as_deref(), Some("4096"));
    assert_eq!(get("MO_CONTEXT_COMPRESSION_THRESHOLD").as_deref(), Some("0.75"));
    assert_eq!(get("MO_AUTH_TOKEN"), None);
}

fn said(role: &str, content: &str) -> JournalEventKind {
    JournalEventKind::Message(JournalMessage {
        role: role.into(),
        content: content.into(),
        reasoning_content: None,
        tool_call_id: None,
        tool_calls: None,
    })
}

fn events(kinds: Vec<JournalEventKind>) -> Vec<JournalEvent> {
    let mut out: Vec<JournalEvent> = Vec::new();
    for kind in kinds {
        out.push(JournalEvent { seq: 0, ts: "now".into(), kind });
    }
    out
}

#[test]
fn the_parent_reads_the_last_answer() {
    let journal = events(vec![
        said("user", "task"),
        said("assistant", "first"),
        said("assistant", "final"),
        said("user", "more"),
    ]);
    assert_eq!(last_assistant_message(&journal).as_deref(), Some("final"));
    assert_eq!(last_assistant_message(&Vec::new()), None);
    let mut row = test_ctx(None).session;
    assert_eq!(look_at_child(false, &Ok(Some(row.clone())), &None), None);
    row.status = SessionStatus::Completed;
    let done = look_at_child(false, &Ok(Some(row.clone())), &Some(journal)).unwrap().unwrap();
    assert!(done.contains("final"), "got: {done}");
    assert_eq!(done, child_report(SessionStatus::Completed, &Some("final".into()), &None));
    assert_eq!(done, "[subagent completed] final");
    assert_eq!(
        child_report(SessionStatus::Failed, &Some("  ".into()), &Some("boom".into())),
        "[subagent failed — no final message]\n[subagent error] boom"
    );
    assert_eq!(
        look_at_child(false, &Ok(None), &None).unwrap().unwrap_err(),
        "subagent session row disappeared"
    );
    let late = look_at_child(true, &Ok(Some(row)), &None).unwrap().unwrap_err();
    assert_eq!(late, "subagent did not finish within 20 minutes");
}

// ---------------------------------------------------------------------------
// Background commands
// ---------------------------------------------------------------------------

#[test]
fn run_returns_process_id_and_status_reports_lifecycle() {
    let mut jobs = Jobs::new();
    let reply = jobs.run("sleep 30.987", &Ok(Some(77))).unwrap();
    assert!(reply.starts_with("bg-"), "got: {reply}");
    let id = jobs.jobs[0].id.clone();
    assert_eq!(reply, id);
    let running = jobs.status(&id, &Poll::Running).unwrap();
    assert!(running.contains("still running"), "got: {running}");
    let ack = jobs.kill(&id, &Poll::Running).unwrap();
    assert_eq!(ack.signal, Some(77));
    assert!(ack.reply.contains("SIGKILL"), "got: {}", ack.reply);
    let gone = jobs.status(&id, &Poll::Exited(Exit::Signal("signal: 9 (SIGKILL)".into()))).unwrap();
    assert!(gone.contains("not running"), "got: {gone}");
    // The end is remembered, whatever a later poll says, and nothing is
    // signalled any more.
    assert!(!jobs.needs_poll(&id));
    assert_eq!(jobs.status(&id, &Poll::Running).unwrap(), gone);
    assert_eq!(jobs.kill(&id, &Poll::Running).unwrap().signal, None);
}

#[test]
fn status_reports_exit_code_after_command_finishes() {
    let mut jobs = Jobs::new();
    jobs.run("exit 7", &Ok(Some(5))).unwrap();
    let id = jobs.jobs[0].id.clone();
    let s = jobs.status(&id, &Poll::Exited(Exit::Code(7))).unwrap();
    assert!(s.contains("not running"), "got: {s}");
    assert!(s.contains("7"), "got: {s}");
    assert!(describe_exit(&Exit::Code(-1)).contains("-1"));
}

#[test]
fn unknown_process_id_errors() {
    let mut jobs = Jobs::new();
    let err = jobs.status("bg-nope", &Poll::Running).unwrap_err();
    assert!(err.contains("unknown background process"), "got: {err}");
    let err = jobs.kill("bg-nope", &Poll::Running).unwrap_err();
    assert!(err.contains("unknown background process"), "got: {err}");
}

#[test]
fn run_rejects_empty_command() {
    let mut jobs = Jobs::new();
    let err = jobs.run("   ", &Ok(Some(1))).unwrap_err();
    assert!(err.contains("command must not be empty"), "got: {err}");
    assert!(jobs.jobs.is_empty());
    assert!(jobs.run("ls", &Err("no sh".into())).unwrap_err().contains("no sh"));
    assert!(jobs.run("ls", &Ok(None)).is_err());
}

#[test]
fn execute_validates_action_arguments() {
    let err = execute("nope", &None, &None).unwrap_err();
    assert!(err.contains("unknown action"), "got: {err}");
    let err = execute("run", &None, &None).unwrap_err();
    assert!(err.contains("requires `command`"), "got: {err}");
    let err = execute("status", &None, &None).unwrap_err();
    assert!(err.contains("requires `process_id`"), "got: {err}");
    let err = execute("kill", &None, &None).unwrap_err();
    assert!(err.contains("requires `process_id`"), "got: {err}");
    assert_eq!(
        execute("status", &None, &Some("bg-1".into())).unwrap(),
        BackgroundRequest::Status("bg-1".into())
    );
}

#[test]
fn a_known_end_stays_over_later_calls() {
    let mut jobs = Jobs::new();
    let id = jobs.run("a", &Ok(Some(1))).unwrap();
    let gone = jobs.status(&id, &Poll::Exited(Exit::Code(3))).unwrap();
    assert_eq!(gone, format!("process {id} is not running (exited with code 3)"));
    let other = jobs.run("b", &Ok(Some(2))).unwrap();
    jobs.kill(&other, &Poll::Running).unwrap();
    jobs.kill(&id, &Poll::Exited(Exit::Code(9))).unwrap();
    assert_eq!(jobs.kill_all(&vec![Poll::Exited(Exit::Code(9)), Poll::Running]), [2]);
    assert_eq!(jobs.status(&id, &Poll::Failed("gone".into())).unwrap(), gone);
    // What was never handed out stays unknown.
    assert_eq!(
        jobs.status("bg-nope", &Poll::Running).unwrap_err(),
        "unknown background process: bg-nope"
    );
}

#[test]
fn every_live_job_is_killed_at_the_end() {
    let mut jobs = Jobs::new();
    jobs.run("a", &Ok(Some(1))).unwrap();
    jobs.run("b", &Ok(Some(2))).unwrap();
    jobs.run("c", &Ok(Some(3))).unwrap();
    assert_ne!(jobs.jobs[0].id, jobs.jobs[1].id);
    let killed = jobs.kill_all(&vec![Poll::Running, Poll::Exited(Exit::Code(0)), Poll::Running]);
    assert_eq!(killed, [1, 3]);
    // The ended one is known to have ended, and the others stay tracked.
    assert_eq!(jobs.jobs.len(), 3);
    assert_eq!(jobs.jobs[1].finished, Some(Exit::Code(0)));
    let ended = Poll::Exited(Exit::Signal("signal: 9 (SIGKILL)".into()));
    let polls = vec![ended.clone(), Poll::Running, ended];
    assert!(jobs.kill_all(&polls).is_empty());
}

// ---------------------------------------------------------------------------
// The registry
// ---------------------------------------------------------------------------

fn find<'a>(defs: &'a [ToolDefinition], name: &str) -> &'a ToolDefinition {
    defs.iter().find(|d| d.name == name).unwrap()
}

fn required(def: &ToolDefinition) -> Vec<&str> {
    def.params.iter().filter(|p| p.required).map(|p| p.name).collect()
}

fn kind<'a>(def: &'a ToolDefinition, param: &str) -> &'a ParamKind {
    &def.params.iter().find(|p| p.name == param).unwrap().kind
}

#[test]
fn definitions_cover_all_tools() {
    let defs = tool_definitions(&Vec::new());
    assert_eq!(defs.len(), 10);
    let names: Vec<&str> = defs.iter().map(|d| d.name).collect();
    assert!(names.contains(&TOOL_READ_FILE));
    assert!(names.contains(&TOOL_EDIT_FILE));
    assert!(names.contains(&TOOL_CREATE_FILE));
    assert!(names.contains(&TOOL_REMOVE_FILE));
    assert!(names.contains(&TOOL_BASH));
    assert!(names.contains(&TOOL_BASH_IN_BACKGROUND));
    assert!(names.contains(&TOOL_SPAWN_SUBAGENT));
    assert!(names.contains(&TOOL_LOAD_SKILL));
    assert!(names.contains(&TOOL_REQUEST_MODE_CHANGE));
    assert!(names.contains(&TOOL_ASK_USER));

    let def = find(&defs, TOOL_REQUEST_MODE_CHANGE);
    assert!(matches!(kind(def, "mode"), ParamKind::Choice(c) if *c == ["build", "plan", "explore"]));
    assert!(required(def).len() == 2);
    assert!(def.description.contains("user's language"));
    assert!(def.description.contains("plan is ready"), "got: {}", def.description);
    assert!(def.description.contains("must-answer questions"), "got: {}", def.description);

    let def = find(&defs, TOOL_ASK_USER);
    assert!(matches!(kind(def, "question_title"), ParamKind::Text));
    assert!(matches!(kind(def, "question_text"), ParamKind::Text));
    match kind(def, "options") {
        ParamKind::Objects(fields) => {
            let fields: Vec<&str> = fields.iter().map(|(name, _)| *name).collect();
            assert!(fields.contains(&"option_title"));
            assert!(fields.contains(&"option_text"));
        }
        other => panic!("expected objects, got: {other:?}"),
    }
    assert_eq!(required(def), ["question_title", "question_text", "options"]);
    assert!(def.description.contains("one question per call"), "got: {}", def.description);
    assert!(def.description.contains("question_id"), "got: {}", def.description);

    let def = find(&defs, TOOL_BASH_IN_BACKGROUND);
    assert!(matches!(kind(def, "action"), ParamKind::Choice(c) if *c == ["run", "kill", "status"]));
    assert_eq!(required(def), ["action"]);
    assert!(def.description.contains("process id"), "got: {}", def.description);
    assert!(def.description.contains("discarded"), "got: {}", def.description);
}

#[test]
fn definitions_filter_out_disabled_tools() {
    let enabled: Vec<String> = [
        TOOL_READ_FILE,
        TOOL_EDIT_FILE,
        TOOL_CREATE_FILE,
        TOOL_REMOVE_FILE,
        TOOL_BASH,
        TOOL_BASH_IN_BACKGROUND,
        TOOL_LOAD_SKILL,
        TOOL_REQUEST_MODE_CHANGE,
    ]
    .iter()
    .map(|t| t.to_string())
    .collect();
    let defs = tool_definitions(&enabled);
    let names: Vec<&str> = defs.iter().map(|d| d.name).collect();
    assert!(!names.contains(&TOOL_ASK_USER), "got: {names:?}");
    assert!(!names.contains(&TOOL_SPAWN_SUBAGENT), "got: {names:?}");
    for name in &enabled {
        assert!(names.contains(&name.as_str()), "{name} must stay: {names:?}");
    }
    assert_eq!(defs.len(), 8, "got: {names:?}");
}

#[test]
fn advertised_tools_are_known_and_enabled() {
    let enabled = vec![TOOL_BASH.to_string()];
    for def in tool_definitions(&enabled) {
        assert!(is_known_tool(def.name));
        assert!(tool_enabled(&enabled, def.name));
    }
    assert!(!tool_enabled(&enabled, TOOL_ASK_USER));
    assert!(!is_known_tool("rm"));
}
