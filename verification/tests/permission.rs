//! The file-access policy and the dispatch of tool calls, against a small
//! directory tree held in memory.
use std::collections::BTreeMap;

use mo_worker::config::{DEFAULT_MAX_TOOL_CONCURRENCY, DEFAULT_THRESHOLD_BITS};
use mo_worker::journal::{
    AskUserQuestion, JournalEvent, JournalEventKind, PermissionDecision, PermissionRequestItem,
};
use mo_worker::session::{Mode, Session, SessionStatus};
use mo_worker::skills::{discover_skills, Skill, SkillEntry};
use mo_worker::tools::ask_user::{ask_user, validate, AskUserArgs, AskUserOptionArgs};
use mo_worker::tools::bash_in_background::BackgroundRequest;
use mo_worker::tools::execute::{
    decide_file, execute_tool, preflight_call, read_roots, FileDecision, ToolArgs, ToolTask,
};
use mo_worker::tools::file_run::{look_for, run_file, FileFacts, FileLook, FileStep};
use mo_worker::tools::fs::{
    file_to_resolve, finish_action, parent_to_resolve, FileAction, FileKind, PathLookup,
};
use mo_worker::tools::permission::{
    ask_permission_batch, preflight, read_policy, remembered_decision, write_policy, PathPolicy,
    Preflight,
};
use mo_worker::tools::request_mode_change::{request_mode_change, RequestModeChangeArgs};
use mo_worker::tools::skill::load_skill;
use mo_worker::tools::{
    ToolContext, TOOL_ASK_USER, TOOL_BASH, TOOL_BASH_IN_BACKGROUND, TOOL_CREATE_FILE,
    TOOL_EDIT_FILE, TOOL_LOAD_SKILL, TOOL_READ_FILE, TOOL_REMOVE_FILE, TOOL_REQUEST_MODE_CHANGE,
    TOOL_SPAWN_SUBAGENT,
};

const SCRATCH: &str = "/base/data/sessions/s/tmp";
const GONE: &str = "No such file or directory (os error 2)";

#[derive(Clone)]
enum Node {
    File(String),
    Dir,
    Link(String),
}

struct Tree {
    nodes: Vec<(String, Node)>,
}

impl Tree {
    fn find(&self, path: &str) -> Option<&Node> {
        self.nodes.iter().find(|(p, _)| p == path).map(|(_, n)| n)
    }

    fn put(&mut self, path: &str, node: Node) {
        self.nodes.retain(|(p, _)| p != path);
        self.nodes.push((path.to_string(), node));
    }

    fn write(&mut self, path: &str, text: &str) {
        self.put(path, Node::File(text.to_string()));
    }

    fn canonicalize(&self, path: &str) -> Result<String, String> {
        let mut at = String::new();
        for part in path.split('/') {
            if part.is_empty() || part == "." {
                continue;
            }
            if part == ".." {
                let cut = at.rfind('/').unwrap_or(0);
                at.truncate(cut);
                continue;
            }
            let next = format!("{at}/{part}");
            match self.find(&next) {
                Some(Node::Link(target)) => at = self.canonicalize(target)?,
                Some(_) => at = next,
                None => return Err(GONE.to_string()),
            }
        }
        Ok(if at.is_empty() { "/".to_string() } else { at })
    }

    fn read(&self, path: &str) -> Result<String, String> {
        match self.find(path) {
            Some(Node::File(text)) => Ok(text.clone()),
            _ => Err("Is a directory (os error 21)".to_string()),
        }
    }

    fn lookup(&self, workdir: &str, raw: &str) -> PathLookup {
        let root = self.canonicalize(workdir);
        let nothing: Result<String, String> = Err("not asked".to_string());
        let parent = match &root {
            Ok(w) => match parent_to_resolve(w, raw) {
                Some(p) => self.canonicalize(&p),
                None => nothing.clone(),
            },
            Err(_) => nothing.clone(),
        };
        let file = match (&root, &parent) {
            (Ok(w), Ok(p)) => match file_to_resolve(w, p, raw) {
                Some(f) => self.canonicalize(&f),
                None => nothing,
            },
            _ => nothing,
        };
        PathLookup { workdir: root, parent, file }
    }

    fn apply(&mut self, action: &FileAction) -> Result<(), String> {
        match action {
            FileAction::Write { path, content } => self.write(path, content),
            FileAction::Remove { path } => self.nodes.retain(|(p, _)| p != path),
        }
        Ok(())
    }
}

type Journal = Result<Vec<JournalEvent>, String>;

fn setup() -> Tree {
    let mut tree = Tree { nodes: Vec::new() };
    for dir in [
        "/tmp",
        "/base",
        "/base/work",
        "/base/data",
        "/base/data/sessions",
        "/base/data/sessions/s",
        SCRATCH,
    ] {
        tree.put(dir, Node::Dir);
    }
    tree.write("/base/work/notes.txt", "codebase\n");
    tree
}

fn make_ctx(mode: Mode, parent_id: Option<String>) -> ToolContext {
    ToolContext {
        workdir: "/base/work".into(),
        data_dir: "/base/data".into(),
        agents_dir: "/base/agents".into(),
        session: Session {
            id: "s".into(),
            parent_id,
            workdir: "/base/work".into(),
            prompt: "p".into(),
            model: "m".into(),
            status: SessionStatus::Running,
            mode,
            tools: vec![],
            skills: vec![],
            pid: None,
            journal_path: "/base/data/sessions/s/journal.jsonl".into(),
            created_at: "now".into(),
            updated_at: "now".into(),
            heartbeat_at: None,
            error: None,
        },
        scratch: SCRATCH.into(),
        subagent_depth: 0,
        max_tool_concurrency: DEFAULT_MAX_TOOL_CONCURRENCY,
        model_base_url: "http://localhost:1".into(),
        model_name: "m".into(),
        auth_token: None,
        context_window: None,
        context_compression_threshold: DEFAULT_THRESHOLD_BITS,
    }
}

fn journal(kinds: Vec<JournalEventKind>) -> Journal {
    let mut events: Vec<JournalEvent> = Vec::new();
    let mut seq: u64 = 0;
    for kind in kinds {
        seq += 1;
        events.push(JournalEvent { seq, ts: "now".into(), kind });
    }
    Ok(events)
}

/// The extra read roots: the session scratch dir, without skills.
fn roots(ctx: &ToolContext) -> Vec<String> {
    read_roots(&Vec::new(), &ctx.scratch)
}

fn policy_of_read(
    tree: &Tree,
    ctx: &ToolContext,
    raw: &str,
    events: &Journal,
) -> Result<PathPolicy, String> {
    read_policy(ctx, raw, &roots(ctx), &tree.lookup(&ctx.workdir, raw), events)
}

fn policy_of_write(tree: &Tree, ctx: &ToolContext, raw: &str) -> Result<PathPolicy, String> {
    write_policy(
        ctx,
        TOOL_CREATE_FILE,
        raw,
        &tree.lookup(&ctx.workdir, raw),
        &tree.lookup(&ctx.scratch, raw),
        &journal(vec![]),
    )
}

fn preflight_of(
    tree: &Tree,
    ctx: &ToolContext,
    tool: &str,
    operation: &'static str,
    raw: &str,
    arguments: &str,
    id: &str,
) -> Preflight {
    preflight(
        ctx,
        tool,
        operation,
        raw,
        arguments,
        id,
        &roots(ctx),
        &tree.lookup(&ctx.workdir, raw),
        &tree.lookup(&ctx.scratch, raw),
        &journal(vec![]),
    )
}

/// Runs a file tool the way a caller with a file system does: decide, act on
/// the tree, report. Events that the call journals go to `sink`.
fn run_file_tool(
    tree: &mut Tree,
    ctx: &ToolContext,
    name: &str,
    args: ToolArgs,
    events: &Journal,
    sink: &mut Vec<JournalEventKind>,
) -> Result<String, String> {
    let (operation, raw) = match execute_tool(ctx, name, &Ok(args.clone()))? {
        ToolTask::File { operation, path } => (operation, path),
        other => panic!("no file task: {other:?}"),
    };
    let lookup = tree.lookup(&ctx.workdir, &raw);
    let scratch_lookup = tree.lookup(&ctx.scratch, &raw);
    let approved = match decide_file(
        ctx,
        name,
        operation,
        &raw,
        &roots(ctx),
        &lookup,
        &scratch_lookup,
        events,
    )? {
        FileDecision::Run { approved } => approved,
        FileDecision::Asked { event, reply } => {
            sink.push(event);
            return Ok(reply);
        }
    };
    let look = look_for(ctx, &args, &approved, &roots(ctx), &lookup, &scratch_lookup);
    let mut facts =
        FileFacts { content: Err("not asked".into()), found: Err("not asked".into()) };
    match look {
        Some(FileLook::Content(path)) => facts.content = tree.read(&path),
        Some(FileLook::Kind(path)) => {
            facts.found = match tree.find(&path) {
                Some(Node::File(_)) => Ok(FileKind::Regular),
                Some(Node::Link(_)) => Ok(FileKind::Symlink),
                Some(Node::Dir) => Ok(FileKind::Other),
                None => Err(GONE.to_string()),
            };
        }
        None => {}
    }
    let action = match run_file(
        ctx,
        &args,
        &approved,
        &roots(ctx),
        &lookup,
        &scratch_lookup,
        &facts,
    )? {
        FileStep::Output(text) => return Ok(text),
        FileStep::Act(action) => action,
    };
    let done = tree.apply(&action);
    finish_action(&action, &raw, &done)
}

fn create(path: &str, content: &str) -> ToolArgs {
    ToolArgs::CreateFile { path: path.into(), content: content.into() }
}

fn read(path: &str) -> ToolArgs {
    ToolArgs::ReadFile { path: path.into() }
}

fn edit(path: &str, old: &str, new: &str) -> ToolArgs {
    ToolArgs::EditFile {
        path: path.into(),
        old_string: old.into(),
        new_string: new.into(),
        replace_all: false,
    }
}

fn item(call_id: &str, tool: &str, operation: &str, path: &str) -> PermissionRequestItem {
    PermissionRequestItem {
        call_id: call_id.into(),
        tool: tool.into(),
        operation: operation.into(),
        path: path.into(),
        arguments: format!(r#"{{"path":"{path}"}}"#),
    }
}

fn batch_request(items: Vec<PermissionRequestItem>) -> JournalEventKind {
    JournalEventKind::PermissionRequest {
        request_id: "p1".into(),
        tool: None,
        operation: None,
        path: None,
        items,
    }
}

fn batch_answer(path: &str, allowed: bool) -> JournalEventKind {
    JournalEventKind::PermissionAnswered {
        request_id: "p1".into(),
        tool: None,
        operation: None,
        path: None,
        allowed: None,
        decisions: vec![PermissionDecision {
            call_id: "call_1".into(),
            tool: TOOL_READ_FILE.into(),
            operation: "read".into(),
            path: path.into(),
            allowed,
        }],
    }
}

fn single_answer(path: &str, allowed: bool) -> JournalEventKind {
    JournalEventKind::PermissionAnswered {
        request_id: "p1".into(),
        tool: Some(TOOL_READ_FILE.into()),
        operation: Some("read".into()),
        path: Some(path.into()),
        allowed: Some(allowed),
        decisions: Vec::new(),
    }
}

fn question_request(title: &str) -> JournalEventKind {
    JournalEventKind::AskUserRequest {
        question: AskUserQuestion {
            question_id: "q1".into(),
            question_title: title.into(),
            question_text: "text".into(),
            options: vec![],
        },
    }
}

// ---------------------------------------------------------------------------
// Policies
// ---------------------------------------------------------------------------

#[test]
fn read_policy_allowed_roots_and_ask_outside() {
    for mode in [Mode::Build, Mode::Plan, Mode::Explore] {
        let mut tree = setup();
        let ctx = make_ctx(mode, None);
        tree.write("/base/secret.txt", "secret\n");
        let scratch_file = format!("{SCRATCH}/note.md");
        tree.write(&scratch_file, "scratch\n");
        let none = journal(vec![]);
        assert!(matches!(
            policy_of_read(&tree, &ctx, "notes.txt", &none).unwrap(),
            PathPolicy::Run(_)
        ));
        assert!(matches!(
            policy_of_read(&tree, &ctx, &scratch_file, &none).unwrap(),
            PathPolicy::Run(_)
        ));
        assert!(matches!(
            policy_of_read(&tree, &ctx, "/base/secret.txt", &none).unwrap(),
            PathPolicy::Ask { operation: "read" }
        ));
        assert!(policy_of_read(&tree, &ctx, "no-such-file.txt", &none).is_err());
    }
}

#[test]
fn write_policy_build_allows_roots_and_asks_outside() {
    let tree = setup();
    let ctx = make_ctx(Mode::Build, None);
    assert!(matches!(policy_of_write(&tree, &ctx, "new.txt").unwrap(), PathPolicy::Run(_)));
    assert!(matches!(
        policy_of_write(&tree, &ctx, &format!("{SCRATCH}/draft.md")).unwrap(),
        PathPolicy::Run(_)
    ));
    assert!(matches!(
        policy_of_write(&tree, &ctx, "/tmp/outside.txt").unwrap(),
        PathPolicy::Ask { operation: "write" }
    ));
}

#[test]
fn write_policy_plan_denies_without_asking() {
    for mode in [Mode::Plan, Mode::Explore] {
        let tree = setup();
        let ctx = make_ctx(mode, None);
        let err = policy_of_write(&tree, &ctx, "new.txt").unwrap_err();
        assert!(err.contains("read-only"), "got: {err}");
        assert!(err.contains(SCRATCH), "got: {err}");
        assert_eq!(
            err,
            format!(
                "{} mode: the codebase is read-only; create/edit/remove is only allowed under \
                 {SCRATCH} (use an absolute path)",
                mode.as_str()
            )
        );
        assert!(matches!(
            policy_of_write(&tree, &ctx, &format!("{SCRATCH}/draft.md")).unwrap(),
            PathPolicy::Run(_)
        ));
        let err = policy_of_write(&tree, &ctx, "/tmp/outside.txt").unwrap_err();
        assert!(err.contains("denied"), "got: {err}");
        assert!(err.contains(SCRATCH), "got: {err}");
    }
}

#[test]
fn ask_permission_batch_journals_one_request_with_all_items() {
    let ctx = make_ctx(Mode::Build, None);
    let items = vec![
        item("call_1", TOOL_READ_FILE, "read", "/etc/a"),
        item("call_2", TOOL_CREATE_FILE, "write", "/tmp/b"),
    ];
    match ask_permission_batch(&ctx, &items, &journal(vec![])).unwrap() {
        JournalEventKind::PermissionRequest { request_id, items, .. } => {
            assert_eq!(request_id, "p1");
            assert_eq!(items.len(), 2, "items: {items:#?}");
            assert_eq!(items[0].call_id, "call_1");
            assert_eq!(items[0].tool, TOOL_READ_FILE);
            assert_eq!(items[0].operation, "read");
            assert_eq!(items[0].path, "/etc/a");
            assert_eq!(items[1].call_id, "call_2");
            assert_eq!(items[1].tool, TOOL_CREATE_FILE);
        }
        other => panic!("expected permission_request, got: {other:?}"),
    }
}

#[test]
fn preflight_holds_outside_paths_only() {
    let mut tree = setup();
    let ctx = make_ctx(Mode::Build, None);
    tree.write("/base/secret.txt", "secret\n");
    let outside = "/base/secret.txt";
    assert!(matches!(
        preflight_of(
            &tree,
            &ctx,
            TOOL_READ_FILE,
            "read",
            "notes.txt",
            r#"{"path":"notes.txt"}"#,
            "c1"
        ),
        Preflight::Run
    ));
    let arguments = format!(r#"{{"path":"{outside}"}}"#);
    match preflight_of(&tree, &ctx, TOOL_READ_FILE, "read", outside, &arguments, "call_9") {
        Preflight::Permission(item) => {
            assert_eq!(item.call_id, "call_9");
            assert_eq!(item.tool, TOOL_READ_FILE);
            assert_eq!(item.operation, "read");
            assert_eq!(item.path, outside);
            assert!(item.arguments.contains(outside), "got: {}", item.arguments);
        }
        other => panic!("expected Permission, got: {other:?}"),
    }
    assert!(matches!(
        preflight_of(
            &tree,
            &ctx,
            TOOL_READ_FILE,
            "read",
            "no-such.txt",
            r#"{"path":"no-such.txt"}"#,
            "c3"
        ),
        Preflight::Run
    ));
    assert!(matches!(
        preflight_of(&tree, &ctx, TOOL_BASH, "read", "", r#"{"command":"pwd"}"#, "c4"),
        Preflight::Run
    ));
    // Not even where the path alone would be asked about.
    assert!(matches!(
        preflight_of(&tree, &ctx, TOOL_BASH, "read", outside, "{}", "c5"),
        Preflight::Run
    ));
}

#[test]
fn preflight_plan_write_runs_and_build_write_holds() {
    let tree = setup();
    let arguments = r#"{"path":"/tmp/outside.txt","content":"x"}"#;
    let ctx_plan = make_ctx(Mode::Plan, None);
    assert!(matches!(
        preflight_of(
            &tree,
            &ctx_plan,
            TOOL_CREATE_FILE,
            "write",
            "/tmp/outside.txt",
            arguments,
            "c1"
        ),
        Preflight::Run
    ));
    let ctx_build = make_ctx(Mode::Build, None);
    assert!(matches!(
        preflight_of(
            &tree,
            &ctx_build,
            TOOL_CREATE_FILE,
            "write",
            "/tmp/outside.txt",
            arguments,
            "c1"
        ),
        Preflight::Permission(_)
    ));
}

#[test]
fn ask_permission_batch_rejects_subagent() {
    let ctx = make_ctx(Mode::Build, Some("parent-1".to_string()));
    let items = vec![item("call_1", TOOL_READ_FILE, "read", "/etc/hostname")];
    let err = ask_permission_batch(&ctx, &items, &journal(vec![])).unwrap_err();
    assert!(err.contains("subagents cannot ask the user"), "got: {err}");
}

#[test]
fn ask_permission_batch_rejects_when_pending() {
    let ctx = make_ctx(Mode::Build, None);
    let items = vec![item("call_1", TOOL_READ_FILE, "read", "/etc/b")];
    let mut kinds = vec![batch_request(vec![item("call_0", TOOL_READ_FILE, "read", "/etc/a")])];
    let err = ask_permission_batch(&ctx, &items, &journal(kinds.clone())).unwrap_err();
    assert!(err.contains("already pending"), "got: {err}");
    kinds.push(question_request("t"));
    let err = ask_permission_batch(&ctx, &items, &journal(kinds)).unwrap_err();
    assert!(err.contains("already pending"), "got: {err}");
    let unread: Journal = Err("gone".to_string());
    let err = ask_permission_batch(&ctx, &items, &unread).unwrap_err();
    assert_eq!(err, "failed to read session journal: gone");
}

#[test]
fn allowed_decision_is_remembered() {
    let mut tree = setup();
    let ctx = make_ctx(Mode::Build, None);
    tree.write("/base/secret.txt", "secret\n");
    let events = journal(vec![batch_answer("/base/secret.txt", true)]);
    match policy_of_read(&tree, &ctx, "/base/secret.txt", &events).unwrap() {
        PathPolicy::Run(resolved) => assert_eq!(resolved, "/base/secret.txt"),
        other => panic!("expected Run, got: {other:?}"),
    }
    // An unasked sibling path still asks.
    tree.write("/base/other.txt", "x\n");
    assert!(matches!(
        policy_of_read(&tree, &ctx, "/base/other.txt", &events).unwrap(),
        PathPolicy::Ask { .. }
    ));
    // Single answers are remembered too.
    tree.write("/base/legacy.txt", "x\n");
    let events = journal(vec![single_answer("/base/legacy.txt", true)]);
    assert!(matches!(
        policy_of_read(&tree, &ctx, "/base/legacy.txt", &events).unwrap(),
        PathPolicy::Run(_)
    ));
}

#[test]
fn denied_decision_is_remembered() {
    let mut tree = setup();
    let ctx = make_ctx(Mode::Build, None);
    tree.write("/base/secret.txt", "secret\n");
    let events = journal(vec![batch_answer("/base/secret.txt", false)]);
    let err = policy_of_read(&tree, &ctx, "/base/secret.txt", &events).unwrap_err();
    assert!(err.contains("denied permission"), "got: {err}");
    assert!(err.contains("/base/secret.txt"), "got: {err}");
}

#[test]
fn the_last_decision_counts() {
    let events = journal(vec![
        batch_answer("/a", true),
        single_answer("/a", false),
        batch_answer("/b", true),
        question_request("t"),
    ]);
    assert_eq!(remembered_decision(&events, TOOL_READ_FILE, "/a"), Some(false));
    assert_eq!(remembered_decision(&events, TOOL_READ_FILE, "/b"), Some(true));
    assert_eq!(remembered_decision(&events, TOOL_EDIT_FILE, "/b"), None);
    assert_eq!(remembered_decision(&Err("gone".into()), TOOL_READ_FILE, "/b"), None);
}

// ---------------------------------------------------------------------------
// Dispatch
// ---------------------------------------------------------------------------

#[test]
fn unknown_tool_errors() {
    let ctx = make_ctx(Mode::Build, None);
    let err = execute_tool(&ctx, "nope", &Err("no parser".into())).unwrap_err();
    assert!(err.contains("unknown tool"));
    assert_eq!(err, "unknown tool: nope");
}

#[test]
fn bash_in_background_dispatches_and_validates() {
    let ctx = make_ctx(Mode::Build, None);
    let call = |action: &str, command: Option<&str>, id: Option<&str>| {
        let args = ToolArgs::BashInBackground {
            action: action.into(),
            command: command.map(|c| c.into()),
            process_id: id.map(|i| i.into()),
        };
        execute_tool(&ctx, TOOL_BASH_IN_BACKGROUND, &Ok(args))
    };
    let err = call("run", None, None).unwrap_err();
    assert!(err.contains("requires `command`"), "got: {err}");
    let err = call("status", None, None).unwrap_err();
    assert!(err.contains("requires `process_id`"), "got: {err}");
    let err = call("kill", None, None).unwrap_err();
    assert!(err.contains("requires `process_id`"), "got: {err}");
    let err = call("explode", None, None).unwrap_err();
    assert!(err.contains("unknown action"), "got: {err}");
    assert_eq!(
        call("run", Some("ls"), None).unwrap(),
        ToolTask::Background(BackgroundRequest::Run("ls".into()))
    );
    assert_eq!(
        call("kill", None, Some("bg-1")).unwrap(),
        ToolTask::Background(BackgroundRequest::Kill("bg-1".into()))
    );
}

fn greeter() -> Vec<Skill> {
    let entry = SkillEntry {
        dir_name: "greeter".into(),
        path: "/base/agents/greeter".into(),
        canonical: Some("/base/agents/greeter".into()),
        content: Some(GREETER.into()),
    };
    discover_skills(&Vec::new(), &vec![entry])
}

const GREETER: &str =
    "---\nname: greeter\ndescription: Greets people.\n---\n# Greeter\nSay hello.\n";

#[test]
fn load_skill_returns_path_and_skill_md() {
    let ctx = make_ctx(Mode::Build, None);
    let task = execute_tool(
        &ctx,
        TOOL_LOAD_SKILL,
        &Ok(ToolArgs::LoadSkill { name: "greeter".into() }),
    )
    .unwrap();
    assert_eq!(task, ToolTask::LoadSkill { name: "greeter".into() });
    let out = load_skill(&greeter(), "greeter", &Ok(GREETER.into())).unwrap();
    assert!(out.starts_with("Path: /base/agents/greeter"), "got: {out}");
    assert!(out.contains("# Greeter"));
    assert!(out.contains("Say hello."));
    let err = load_skill(&greeter(), "nope", &Err("not asked".into())).unwrap_err();
    assert!(err.contains("skill not found"), "got: {err}");
}

#[test]
fn returns_path_line_then_skill_md_content() {
    assert_eq!(
        load_skill(&greeter(), "greeter", &Ok(GREETER.into())).unwrap(),
        format!("Path: /base/agents/greeter\n\n{GREETER}")
    );
}

#[test]
fn errors_for_missing_or_empty_name() {
    let none: Vec<Skill> = Vec::new();
    let body = Err("not asked".to_string());
    assert!(load_skill(&none, "nope", &body).unwrap_err().contains("skill not found"));
    assert!(load_skill(&none, "", &body).unwrap_err().contains("must not be empty"));
    assert!(load_skill(&none, "  ", &body).unwrap_err().contains("must not be empty"));
    let err = load_skill(&greeter(), "greeter", &Err("gone".into())).unwrap_err();
    assert!(err.contains("gone"), "got: {err}");
}

#[test]
fn plan_mode_denies_codebase_writes_and_allows_scratch() {
    for mode in [Mode::Plan, Mode::Explore] {
        let mut tree = setup();
        let ctx = make_ctx(mode, None);
        let none = journal(vec![]);
        let mut sink: Vec<JournalEventKind> = Vec::new();
        for path in ["new.txt", "/base/work/new.txt"] {
            let err = run_file_tool(
                &mut tree,
                &ctx,
                TOOL_CREATE_FILE,
                create(path, "x"),
                &none,
                &mut sink,
            )
            .unwrap_err();
            assert!(err.contains("read-only"), "got: {err}");
            assert!(err.contains(SCRATCH), "got: {err}");
        }
        let err = run_file_tool(
            &mut tree,
            &ctx,
            TOOL_EDIT_FILE,
            edit("notes.txt", "codebase", "hacked"),
            &none,
            &mut sink,
        )
        .unwrap_err();
        assert!(err.contains("read-only"), "got: {err}");
        let err = run_file_tool(
            &mut tree,
            &ctx,
            TOOL_REMOVE_FILE,
            ToolArgs::RemoveFile { path: "notes.txt".into() },
            &none,
            &mut sink,
        )
        .unwrap_err();
        assert!(err.contains("read-only"), "got: {err}");

        // Absolute paths under the scratch dir work.
        let file = format!("{SCRATCH}/draft.md");
        run_file_tool(
            &mut tree,
            &ctx,
            TOOL_CREATE_FILE,
            create(&file, "draft"),
            &none,
            &mut sink,
        )
        .unwrap();
        let out = run_file_tool(&mut tree, &ctx, TOOL_READ_FILE, read(&file), &none, &mut sink)
            .unwrap();
        assert!(out.contains("draft"), "got: {out}");
        run_file_tool(
            &mut tree,
            &ctx,
            TOOL_EDIT_FILE,
            edit(&file, "draft", "plan"),
            &none,
            &mut sink,
        )
        .unwrap();
        run_file_tool(
            &mut tree,
            &ctx,
            TOOL_REMOVE_FILE,
            ToolArgs::RemoveFile { path: file.clone() },
            &none,
            &mut sink,
        )
        .unwrap();
        assert!(tree.find(&file).is_none());
        assert_eq!(tree.read("/base/work/notes.txt").unwrap(), "codebase\n");
        assert!(sink.is_empty());
    }
}

#[test]
fn build_mode_writes_to_workdir() {
    let mut tree = setup();
    let ctx = make_ctx(Mode::Build, None);
    let mut sink: Vec<JournalEventKind> = Vec::new();
    run_file_tool(
        &mut tree,
        &ctx,
        TOOL_CREATE_FILE,
        create("new.txt", "built"),
        &journal(vec![]),
        &mut sink,
    )
    .unwrap();
    assert_eq!(tree.read("/base/work/new.txt").unwrap(), "built");
}

#[test]
fn spawn_subagent_rejects_unknown_mode() {
    let ctx = make_ctx(Mode::Build, None);
    let call = |mode: Option<&str>| {
        let args = ToolArgs::SpawnSubagent {
            prompt: "do it".into(),
            mode: mode.map(|m| m.into()),
        };
        execute_tool(&ctx, TOOL_SPAWN_SUBAGENT, &Ok(args))
    };
    let err = call(Some("nope")).unwrap_err();
    assert!(err.contains("invalid arguments"), "got: {err}");
    assert_eq!(
        call(Some("plan")).unwrap(),
        ToolTask::Subagent { prompt: "do it".into(), mode: Mode::Plan }
    );
    assert_eq!(
        call(None).unwrap(),
        ToolTask::Subagent { prompt: "do it".into(), mode: Mode::Build }
    );
}

#[test]
fn execute_tool_refuses_disabled_tools() {
    let mut ctx = make_ctx(Mode::Build, None);
    ctx.session.tools = [
        TOOL_READ_FILE,
        TOOL_EDIT_FILE,
        TOOL_CREATE_FILE,
        TOOL_REMOVE_FILE,
        TOOL_BASH,
        TOOL_BASH_IN_BACKGROUND,
        TOOL_SPAWN_SUBAGENT,
        TOOL_LOAD_SKILL,
        TOOL_REQUEST_MODE_CHANGE,
    ]
    .iter()
    .map(|t| t.to_string())
    .collect();
    let args = ToolArgs::AskUser(AskUserArgs {
        question_title: "t".into(),
        question_text: "q".into(),
        options: vec![],
    });
    let err = execute_tool(&ctx, TOOL_ASK_USER, &Ok(args.clone())).unwrap_err();
    assert!(err.contains("disabled in this session"), "got: {err}");
    let task =
        execute_tool(&ctx, TOOL_BASH, &Ok(ToolArgs::Bash { command: "echo hi".into() })).unwrap();
    assert_eq!(task, ToolTask::Bash { command: "echo hi".into() });
    // An empty list restricts nothing.
    ctx.session.tools = vec![];
    assert_eq!(execute_tool(&ctx, TOOL_ASK_USER, &Ok(args)).unwrap(), ToolTask::AskUser);
}

#[test]
fn read_outside_journals_permission_request_and_returns_guidance() {
    for mode in [Mode::Build, Mode::Plan] {
        let mut tree = setup();
        let ctx = make_ctx(mode, None);
        tree.write("/base/secret.txt", "secret\n");
        let mut sink: Vec<JournalEventKind> = Vec::new();
        let out = run_file_tool(
            &mut tree,
            &ctx,
            TOOL_READ_FILE,
            read("/base/secret.txt"),
            &journal(vec![]),
            &mut sink,
        )
        .unwrap();
        assert!(out.contains("permission request was sent"), "got: {out}");
        assert!(out.contains("Stop working now"), "got: {out}");
        assert!(out.contains("to read \"/base/secret.txt\" via the read_file tool"), "got: {out}");
        assert_eq!(sink.len(), 1, "events: {sink:#?}");
        match &sink[0] {
            JournalEventKind::PermissionRequest {
                request_id,
                tool: Some(tool),
                operation: Some(operation),
                path: Some(path),
                items,
            } => {
                assert_eq!(request_id, "p1");
                assert_eq!(tool, TOOL_READ_FILE);
                assert_eq!(operation, "read");
                assert_eq!(path, "/base/secret.txt");
                assert!(items.is_empty(), "items: {items:#?}");
            }
            other => panic!("expected permission_request, got: {other:?}"),
        }
    }
}

#[test]
fn write_outside_asks_in_build_but_is_denied_in_plan() {
    let mut tree = setup();
    let mut sink: Vec<JournalEventKind> = Vec::new();
    let ctx = make_ctx(Mode::Build, None);
    let out = run_file_tool(
        &mut tree,
        &ctx,
        TOOL_CREATE_FILE,
        create("/tmp/outside.txt", "x"),
        &journal(vec![]),
        &mut sink,
    )
    .unwrap();
    assert!(out.contains("permission request was sent"), "got: {out}");
    assert_eq!(sink.len(), 1, "events: {sink:#?}");
    assert!(matches!(
        &sink[0],
        JournalEventKind::PermissionRequest { operation: Some(op), .. } if op == "write"
    ));

    let mut sink: Vec<JournalEventKind> = Vec::new();
    let ctx = make_ctx(Mode::Plan, None);
    let err = run_file_tool(
        &mut tree,
        &ctx,
        TOOL_CREATE_FILE,
        create("/tmp/outside.txt", "x"),
        &journal(vec![]),
        &mut sink,
    )
    .unwrap_err();
    assert!(err.contains("denied"), "got: {err}");
    assert!(err.contains(SCRATCH), "got: {err}");
    assert!(sink.is_empty(), "plan-mode outside write must not journal anything");
}

#[test]
fn subagent_read_outside_is_rejected_not_asked() {
    let mut tree = setup();
    let ctx = make_ctx(Mode::Build, Some("parent-1".to_string()));
    tree.write("/base/secret.txt", "x\n");
    let mut sink: Vec<JournalEventKind> = Vec::new();
    let err = run_file_tool(
        &mut tree,
        &ctx,
        TOOL_READ_FILE,
        read("/base/secret.txt"),
        &journal(vec![]),
        &mut sink,
    )
    .unwrap_err();
    assert!(err.contains("subagents cannot ask the user"), "got: {err}");
}

#[test]
fn allowed_retry_reads_file_without_asking_again() {
    let mut tree = setup();
    let ctx = make_ctx(Mode::Build, None);
    tree.write("/base/secret.txt", "secret content\n");
    let mut sink: Vec<JournalEventKind> = Vec::new();
    let out = run_file_tool(
        &mut tree,
        &ctx,
        TOOL_READ_FILE,
        read("/base/secret.txt"),
        &journal(vec![single_answer("/base/secret.txt", true)]),
        &mut sink,
    )
    .unwrap();
    assert!(out.contains("secret content"), "got: {out}");
    assert!(sink.is_empty(), "an allowed retry must not journal a new permission request");
}

#[test]
fn denied_retry_is_refused_without_asking_again() {
    let mut tree = setup();
    let ctx = make_ctx(Mode::Build, None);
    tree.write("/base/secret.txt", "x\n");
    let mut sink: Vec<JournalEventKind> = Vec::new();
    let err = run_file_tool(
        &mut tree,
        &ctx,
        TOOL_READ_FILE,
        read("/base/secret.txt"),
        &journal(vec![single_answer("/base/secret.txt", false)]),
        &mut sink,
    )
    .unwrap_err();
    assert!(err.contains("denied permission"), "got: {err}");
}

#[test]
fn pending_requests_block_new_permission_requests() {
    let mut tree = setup();
    let ctx = make_ctx(Mode::Build, None);
    tree.write("/base/secret.txt", "x\n");
    let mut sink: Vec<JournalEventKind> = Vec::new();
    let err = run_file_tool(
        &mut tree,
        &ctx,
        TOOL_READ_FILE,
        read("/base/secret.txt"),
        &journal(vec![question_request("t")]),
        &mut sink,
    )
    .unwrap_err();
    assert!(err.contains("clarification question is already pending"), "got: {err}");
    tree.write("/base/other.txt", "x\n");
    let open = batch_request(vec![item("call_0", TOOL_READ_FILE, "read", "/etc/a")]);
    let err = run_file_tool(
        &mut tree,
        &ctx,
        TOOL_READ_FILE,
        read("/base/other.txt"),
        &journal(vec![open]),
        &mut sink,
    )
    .unwrap_err();
    assert!(err.contains("file-access permission request is already pending"), "got: {err}");
}

#[test]
fn unparsed_calls_are_not_held() {
    let mut tree = setup();
    tree.write("/base/secret.txt", "x\n");
    let ctx = make_ctx(Mode::Build, None);
    let raw = "/base/secret.txt";
    let call = |args: Result<ToolArgs, String>| {
        preflight_call(
            &ctx,
            TOOL_READ_FILE,
            "{..}",
            &args,
            "c1",
            &roots(&ctx),
            &tree.lookup(&ctx.workdir, raw),
            &tree.lookup(&ctx.scratch, raw),
            &journal(vec![]),
        )
    };
    assert_eq!(call(Err("bad json".into())), Preflight::Run);
    assert_eq!(
        call(Ok(read(raw))),
        Preflight::Permission(PermissionRequestItem {
            call_id: "c1".into(),
            tool: TOOL_READ_FILE.into(),
            operation: "read".into(),
            path: raw.into(),
            arguments: "{..}".into(),
        })
    );
}

#[test]
fn skill_folders_are_readable_roots() {
    assert_eq!(read_roots(&greeter(), SCRATCH), ["/base/agents/greeter", SCRATCH]);
}

// ---------------------------------------------------------------------------
// Requests to the user
// ---------------------------------------------------------------------------

fn change(mode: &str, message: &str) -> RequestModeChangeArgs {
    RequestModeChangeArgs { mode: mode.into(), message: message.into() }
}

#[test]
fn request_mode_change_journals_event_and_returns_guidance() {
    let ctx = make_ctx(Mode::Plan, None);
    let args = change("build", "may I switch to build mode to implement the plan?");
    let task = execute_tool(
        &ctx,
        TOOL_REQUEST_MODE_CHANGE,
        &Ok(ToolArgs::RequestModeChange(args.clone())),
    )
    .unwrap();
    assert_eq!(task, ToolTask::RequestModeChange);
    let (event, out) = request_mode_change(&ctx, &args, &journal(vec![])).unwrap();
    assert!(out.contains("Mode change request sent"), "got: {out}");
    assert!(out.contains("build"), "got: {out}");
    assert!(out.contains("Stop working now"), "got: {out}");
    match &event {
        JournalEventKind::ModeChangeRequest { mode, message } => {
            assert_eq!(*mode, Mode::Build);
            assert_eq!(message, "may I switch to build mode to implement the plan?");
        }
        other => panic!("expected mode_change_request, got: {other:?}"),
    }
}

#[test]
fn request_mode_change_rejects_same_mode() {
    let ctx = make_ctx(Mode::Plan, None);
    let args = change("plan", "let me stay in plan mode");
    let err = request_mode_change(&ctx, &args, &journal(vec![])).unwrap_err();
    assert!(err.contains("already in plan mode"), "got: {err}");
}

#[test]
fn request_mode_change_rejects_subagent() {
    let ctx = make_ctx(Mode::Plan, Some("parent-1".to_string()));
    let err =
        request_mode_change(&ctx, &change("build", "may I switch?"), &journal(vec![])).unwrap_err();
    assert!(err.contains("subagents cannot request"), "got: {err}");
}

#[test]
fn request_mode_change_rejects_when_pending() {
    let ctx = make_ctx(Mode::Plan, None);
    let events = journal(vec![JournalEventKind::ModeChangeRequest {
        mode: Mode::Build,
        message: "first request".to_string(),
    }]);
    let err = request_mode_change(&ctx, &change("build", "second request"), &events).unwrap_err();
    assert!(err.contains("already pending"), "got: {err}");
}

#[test]
fn request_mode_change_allowed_after_resolution() {
    let ctx = make_ctx(Mode::Plan, None);
    let events = journal(vec![
        JournalEventKind::ModeChangeRequest {
            mode: Mode::Build,
            message: "first request".to_string(),
        },
        JournalEventKind::ModeChangeRequestDeclined { mode: Mode::Build },
    ]);
    let (_, out) = request_mode_change(&ctx, &change("build", "second request"), &events).unwrap();
    assert!(out.contains("Mode change request sent"), "got: {out}");
}

#[test]
fn request_mode_change_rejects_invalid_mode() {
    let ctx = make_ctx(Mode::Plan, None);
    let err = request_mode_change(&ctx, &change("nope", "hi"), &journal(vec![])).unwrap_err();
    assert!(err.contains("invalid arguments"), "got: {err}");
}

#[test]
fn request_mode_change_rejects_empty_message() {
    let ctx = make_ctx(Mode::Plan, None);
    let err = request_mode_change(&ctx, &change("build", "  "), &journal(vec![])).unwrap_err();
    assert!(err.contains("message must not be empty"), "got: {err}");
}

fn language_question() -> AskUserArgs {
    AskUserArgs {
        question_title: "Select a programming language".into(),
        question_text: "Choose a language for implementing the project.".into(),
        options: vec![
            AskUserOptionArgs {
                option_title: "C++".into(),
                option_text: "High performance system language.".into(),
            },
            AskUserOptionArgs {
                option_title: "Python".into(),
                option_text: "Easy to write but could be slow.".into(),
            },
        ],
    }
}

#[test]
fn ask_user_journals_event_and_returns_guidance() {
    let ctx = make_ctx(Mode::Build, None);
    let (event, out) = ask_user(&ctx, &language_question(), &journal(vec![])).unwrap();
    assert!(out.contains("Clarification question sent"), "got: {out}");
    assert!(out.contains("Stop working now"), "got: {out}");
    assert!(out.contains("question_id"), "got: {out}");
    match &event {
        JournalEventKind::AskUserRequest { question } => {
            assert_eq!(question.question_id, "q1");
            assert_eq!(question.question_title, "Select a programming language");
            assert_eq!(
                question.question_text,
                "Choose a language for implementing the project."
            );
            assert_eq!(question.options.len(), 2);
            assert_eq!(question.options[0].option_title, "C++");
            assert_eq!(question.options[0].option_text, "High performance system language.");
            assert_eq!(question.options[1].option_title, "Python");
        }
        other => panic!("expected ask_user_request, got: {other:?}"),
    }
}

#[test]
fn ask_user_allows_empty_options() {
    let ctx = make_ctx(Mode::Build, None);
    let args = AskUserArgs {
        question_title: "What is your budget?".into(),
        question_text: "In USD.".into(),
        options: vec![],
    };
    let (event, out) = ask_user(&ctx, &args, &journal(vec![])).unwrap();
    assert!(out.contains("Clarification question sent"), "got: {out}");
    match &event {
        JournalEventKind::AskUserRequest { question } => {
            assert_eq!(question.question_id, "q1");
            assert!(question.options.is_empty());
        }
        other => panic!("expected ask_user_request, got: {other:?}"),
    }
}

#[test]
fn ask_user_validates_arguments() {
    let ctx = make_ctx(Mode::Build, None);
    for missing in ["missing field `question_title`", "missing field `question_text`"] {
        let err = execute_tool(&ctx, TOOL_ASK_USER, &Err(missing.into())).unwrap_err();
        assert!(err.contains("invalid arguments for ask_user"), "got: {err}");
    }
    let option = AskUserOptionArgs { option_title: "  ".into(), option_text: "y".into() };
    for (title, text, options) in [
        ("   ", "x", vec![]),
        ("t", "  ", vec![]),
        ("t", "x", vec![option]),
    ] {
        let args = AskUserArgs {
            question_title: title.into(),
            question_text: text.into(),
            options,
        };
        let err = ask_user(&ctx, &args, &journal(vec![])).unwrap_err();
        assert!(err.contains("invalid arguments for ask_user"), "got: {err}");
        assert!(validate(&args).is_err());
    }
}

#[test]
fn ask_user_rejects_subagent() {
    let ctx = make_ctx(Mode::Build, Some("parent-1".to_string()));
    let err = ask_user(&ctx, &language_question(), &journal(vec![])).unwrap_err();
    assert!(err.contains("subagents cannot ask the user"), "got: {err}");
}

#[test]
fn ask_user_rejects_when_pending() {
    let ctx = make_ctx(Mode::Build, None);
    let events = journal(vec![question_request("first question")]);
    let err = ask_user(&ctx, &language_question(), &events).unwrap_err();
    assert!(err.contains("already pending"), "got: {err}");
    let open = batch_request(vec![item("call_0", TOOL_READ_FILE, "read", "/etc/a")]);
    let err = ask_user(&ctx, &language_question(), &journal(vec![open])).unwrap_err();
    assert!(err.contains("file-access permission request is already pending"), "got: {err}");
}

#[test]
fn ask_user_allowed_after_answer() {
    let ctx = make_ctx(Mode::Build, None);
    let mut answers = BTreeMap::new();
    answers.insert("q1".to_string(), "the answer".to_string());
    let events = journal(vec![
        question_request("first question"),
        JournalEventKind::AskUserAnswered { answers },
    ]);
    let (_, out) = ask_user(&ctx, &language_question(), &events).unwrap();
    assert!(out.contains("Clarification question sent"), "got: {out}");
}

#[test]
fn questions_are_trimmed() {
    let args = AskUserArgs {
        question_title: "  t\n".into(),
        question_text: "\tq ".into(),
        options: vec![AskUserOptionArgs {
            option_title: " a ".into(),
            option_text: " b ".into(),
        }],
    };
    let question = validate(&args).unwrap();
    assert_eq!(question.question_title, "t");
    assert_eq!(question.question_text, "q");
    assert_eq!(question.options[0].option_title, "a");
}

#[test]
fn edits_through_scratch_links_leave_the_codebase() {
    for mode in [Mode::Plan, Mode::Explore] {
        let mut tree = setup();
        let ctx = make_ctx(mode, None);
        let link = format!("{SCRATCH}/link");
        tree.put(&link, Node::Link("/base/work/notes.txt".into()));
        let err = run_file_tool(
            &mut tree,
            &ctx,
            TOOL_EDIT_FILE,
            edit(&link, "codebase", "changed"),
            &journal(vec![]),
            &mut Vec::new(),
        )
        .unwrap_err();
        assert_eq!(err, format!("path escapes the working directory: {link}"));
        assert_eq!(tree.read("/base/work/notes.txt").unwrap(), "codebase\n");
    }
    // In build mode the codebase may change.
    let mut tree = setup();
    let ctx = make_ctx(Mode::Build, None);
    let link = format!("{SCRATCH}/link");
    tree.put(&link, Node::Link("/base/work/notes.txt".into()));
    run_file_tool(
        &mut tree,
        &ctx,
        TOOL_EDIT_FILE,
        edit(&link, "codebase", "changed"),
        &journal(vec![]),
        &mut Vec::new(),
    )
    .unwrap();
    assert_eq!(tree.read("/base/work/notes.txt").unwrap(), "changed\n");
}

#[test]
fn a_dangling_link_is_not_written_through() {
    let mut tree = setup();
    let ctx = make_ctx(Mode::Build, None);
    tree.put("/base/work/link", Node::Link("/base/nowhere.txt".into()));
    let err = run_file_tool(
        &mut tree,
        &ctx,
        TOOL_CREATE_FILE,
        create("link", "x"),
        &journal(vec![]),
        &mut Vec::new(),
    )
    .unwrap_err();
    assert_eq!(err, "file already exists: link");
}

#[test]
fn arguments_of_another_tool_are_refused() {
    let mut ctx = make_ctx(Mode::Build, None);
    ctx.session.tools = vec![TOOL_ASK_USER.into()];
    let args = Ok(ToolArgs::SpawnSubagent { prompt: "p".into(), mode: None });
    assert_eq!(
        execute_tool(&ctx, TOOL_ASK_USER, &args).unwrap_err(),
        "invalid arguments for ask_user: they belong to spawn_subagent"
    );
    assert!(execute_tool(&ctx, TOOL_SPAWN_SUBAGENT, &args).is_err());
    // Nor is such a call held.
    let tree = setup();
    let raw = "/tmp/outside.txt";
    assert_eq!(
        preflight_call(
            &ctx,
            TOOL_READ_FILE,
            "{}",
            &Ok(create(raw, "x")),
            "c1",
            &roots(&ctx),
            &tree.lookup(&ctx.workdir, raw),
            &tree.lookup(&ctx.scratch, raw),
            &journal(vec![]),
        ),
        Preflight::Run
    );
}
