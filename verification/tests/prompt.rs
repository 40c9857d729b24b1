//! Skills and the system prompt.
use mo_worker::prompt::{
    build_system_prompt, handoff_instruction, ForcedSkill, HANDOFF_USER_PREFIX,
};
use mo_worker::session::Mode;
use mo_worker::skills::{
    discover_skills, find_skill, parse_skill_md, skill_file, Skill, SkillEntry,
};

const DIR: &str = "/base/work";
const AGENTS: &str = "/base/agents";
const SCRATCH: &str = "/base/work/data/sessions/s1/tmp";

fn entry(rel_dir: &str, content: &str) -> SkillEntry {
    let path = format!("{AGENTS}/{rel_dir}");
    SkillEntry {
        dir_name: rel_dir.rsplit('/').next().unwrap().to_string(),
        canonical: Some(path.clone()),
        path,
        content: Some(content.to_string()),
    }
}

fn skill_md(name: &str, description: &str, body: &str) -> String {
    format!("---\nname: {name}\ndescription: {description}\n---\n{body}\n")
}

fn prompt_for(mode: Mode) -> String {
    build_system_prompt(
        DIR,
        AGENTS,
        0,
        mode,
        SCRATCH,
        &Vec::new(),
        &Vec::new(),
        &None,
        &None,
    )
}

fn prompt_at(depth: u32) -> String {
    build_system_prompt(
        DIR,
        AGENTS,
        depth,
        Mode::Build,
        SCRATCH,
        &Vec::new(),
        &Vec::new(),
        &None,
        &None,
    )
}

fn prompt_with(skills: &Vec<Skill>, forced: Vec<ForcedSkill>) -> String {
    build_system_prompt(DIR, AGENTS, 0, Mode::Build, SCRATCH, skills, &forced, &None, &None)
}

fn forced(name: &str, content: Option<&str>) -> ForcedSkill {
    ForcedSkill { name: name.to_string(), content: content.map(|c| c.to_string()) }
}

#[test]
fn discovers_both_layouts_sorted_with_paths() {
    let top = vec![entry("top-skill", &skill_md("top-skill", "A top-level skill.", "# Top body"))];
    let nested = vec![entry(
        "skills/nested-skill",
        &skill_md("nested-skill", "A nested skill.", "# Nested body"),
    )];
    let skills = discover_skills(&nested, &top);
    let names: Vec<&str> = skills.iter().map(|s| s.name.as_str()).collect();
    assert_eq!(names, ["nested-skill", "top-skill"]);
    assert_eq!(skills[0].description, "A nested skill.");
    assert_eq!(skills[1].description, "A top-level skill.");
    assert!(skills[0].path.ends_with("skills/nested-skill"));
    assert!(skills[1].path.ends_with("top-skill"));
}

#[test]
fn dedupes_by_name_preferring_skills_layout() {
    let top = vec![entry("dup", &skill_md("dup", "top layout", "# one"))];
    let nested = vec![entry("skills/dup", &skill_md("dup", "skills layout", "# two"))];
    let skills = discover_skills(&nested, &top);
    assert_eq!(skills.len(), 1);
    assert_eq!(skills[0].description, "skills layout");
}

#[test]
fn find_skill_by_name() {
    let top = vec![
        entry("alpha", &skill_md("alpha", "Does alpha.", "# Alpha")),
        entry("beta", &skill_md("beta", "Does beta.", "# Beta")),
    ];
    let skills = discover_skills(&Vec::new(), &top);
    let alpha = find_skill(&skills, "alpha").unwrap();
    assert_eq!(alpha.description, "Does alpha.");
    assert!(find_skill(&skills, "beta").is_some());
    assert!(find_skill(&skills, "gamma").is_none());
    assert!(find_skill(&skills, "").is_none());
    assert!(find_skill(&skills, "ALPHA").is_none());
}

#[test]
fn missing_or_empty_skills_are_ignored() {
    assert!(discover_skills(&Vec::new(), &Vec::new()).is_empty());
    let mut empty = entry("empty", "");
    empty.content = None;
    assert!(discover_skills(&Vec::new(), &vec![empty]).is_empty());
    assert!(discover_skills(&Vec::new(), &vec![entry("empty", "  \n")]).is_empty());
}

#[test]
fn parse_skill_md_extracts_frontmatter() {
    let (name, desc) = parse_skill_md(
        "fallback",
        "---\nname: real-name\ndescription: Does things.\nlicense: MIT\n---\n\nBody here.\n",
    );
    assert_eq!(name, "real-name");
    assert_eq!(desc, "Does things.");

    // Missing frontmatter: dir name fallback, no description.
    let (name, desc) = parse_skill_md("fallback", "# Just markdown\n");
    assert_eq!(name, "fallback");
    assert_eq!(desc, "");

    // Quoted values are unquoted.
    let (_, desc) = parse_skill_md("x", "---\ndescription: 'quoted value'\n---\nbody");
    assert_eq!(desc, "quoted value");
}

#[test]
fn headers_end_and_repeat_as_written() {
    // The last line of a key counts, and lines after the fence do not.
    let (name, desc) = parse_skill_md("d", "---\nname: a\nname: b\n...\nname: c\n---\n");
    assert_eq!(name, "b");
    assert_eq!(desc, "");
    // Only the first colon splits; blanks around key and value go.
    let (name, desc) = parse_skill_md("d", "\n ---\r\n name : \"x\"\r\ndescription: a: b\r\n---\r\n");
    assert_eq!(name, "x");
    assert_eq!(desc, "a: b");
    // The opening is a line of its own.
    for content in ["---name: x\n---\n", "----\nname: x\n---\n", "--- name: x\nname: y\n---\n"] {
        let (name, desc) = parse_skill_md("d", content);
        assert_eq!((name.as_str(), desc.as_str()), ("d", ""));
    }
    let (name, _) = parse_skill_md("d", "---  \nname: x\n---\n");
    assert_eq!(name, "x");
    // A header that is never closed runs to the end.
    let (name, _) = parse_skill_md("d", "---\nno colon here\nname: open");
    assert_eq!(name, "open");
}

#[test]
fn directories_are_visited_by_name() {
    let top = vec![
        entry("b", &skill_md("same", "from b", "")),
        entry("a", &skill_md("same", "from a", "")),
    ];
    let skills = discover_skills(&Vec::new(), &top);
    assert_eq!(skills.len(), 1);
    assert_eq!(skills[0].description, "from a");
    let mut plain = entry("zeta", "# body");
    plain.canonical = None;
    let skills = discover_skills(&Vec::new(), &vec![plain, entry("Alpha", "# body")]);
    let names: Vec<&str> = skills.iter().map(|s| s.name.as_str()).collect();
    assert_eq!(names, ["Alpha", "zeta"]);
    assert_eq!(skills[1].path, "/base/agents/zeta");
    assert_eq!(skill_file(&skills[1].path), "/base/agents/zeta/SKILL.md");
}

#[test]
fn includes_workdir_and_agents_md() {
    let agents_md = Some("Use uv for Python.\n".to_string());
    let prompt = build_system_prompt(
        DIR,
        AGENTS,
        0,
        Mode::Build,
        SCRATCH,
        &Vec::new(),
        &Vec::new(),
        &None,
        &agents_md,
    );
    assert!(prompt.contains(DIR));
    assert!(prompt.contains("Use uv for Python."));
    assert!(prompt.contains("Files inside the working directory"));
    assert!(prompt.contains("requires the user's approval"));
}

#[test]
fn all_modes_mention_permission_requests() {
    for mode in [Mode::Build, Mode::Plan, Mode::Explore] {
        let prompt = prompt_for(mode);
        assert!(prompt.contains("permission request"), "mode {mode:?}: {prompt}");
        assert!(
            prompt.contains("holds the call until the user decides")
                || prompt.contains("the call is held until the user decides"),
            "mode {mode:?}: {prompt}"
        );
    }
    let prompt = prompt_for(Mode::Build);
    assert!(prompt.contains("holds the call until the user decides"));
    let prompt = prompt_for(Mode::Plan);
    assert!(prompt.contains("denied outright"));
    assert!(prompt.contains("never"));
    assert!(prompt.contains("asked about"));
}

#[test]
fn no_agents_md_is_fine() {
    let prompt = prompt_at(2);
    assert!(prompt.contains("subagent (nesting depth 2)"));
}

#[test]
fn depth_zero_is_not_framed_as_subagent() {
    let prompt = prompt_at(0);
    assert!(
        !prompt.contains("spawned by another agent"),
        "a root session must not be framed as a subagent: {prompt}"
    );
    assert!(!prompt.contains("nesting depth"), "got: {prompt}");
    assert!(!prompt.contains("return a concise summary"), "got: {prompt}");
}

#[test]
fn a_subagent_is_told_one_paragraph_more() {
    for mode in [Mode::Build, Mode::Plan, Mode::Explore] {
        let at = |depth: u32| {
            build_system_prompt(
                "/w", "/a", depth, mode, "/s", &Vec::new(), &Vec::new(), &None, &None,
            )
        };
        let root = at(0);
        for words in ["nesting depth", "spawned by another agent", "return a concise summary"] {
            assert!(!root.contains(words), "{words}: {root}");
            assert!(at(2).contains(words), "{words}");
        }
        let more = at(2);
        let paragraph = more.strip_prefix(root.as_str()).unwrap();
        assert!(paragraph
            .starts_with("You are a subagent (nesting depth 2) spawned by another agent.\n"));
    }
}

#[test]
fn only_shown_directories_show_in_a_root_prompt() {
    let at = |mode: Mode| {
        let none = Vec::new();
        build_system_prompt(
            "/w", "/a", 0, mode, "/nesting depth", &none, &Vec::new(), &None, &None,
        )
    };
    assert!(!at(Mode::Build).contains("nesting depth"));
    assert!(at(Mode::Plan).contains("nesting depth"));
}

#[test]
fn depth_one_is_framed_as_subagent() {
    let prompt = prompt_at(1);
    assert!(
        prompt.contains("You are a subagent (nesting depth 1) spawned by another agent."),
        "got: {prompt}"
    );
    assert!(prompt.contains("return a concise summary"), "got: {prompt}");
}

#[test]
fn includes_global_agents_md() {
    let global = Some("Never commit to main.\n".to_string());
    let project = Some("Use uv.\n".to_string());
    let build = |project: &Option<String>| {
        build_system_prompt(
            DIR,
            AGENTS,
            0,
            Mode::Build,
            SCRATCH,
            &Vec::new(),
            &Vec::new(),
            &global,
            project,
        )
    };
    let prompt = build(&None);
    assert!(prompt.contains("Global instructions from"));
    assert!(prompt.contains("Never commit to main."));
    assert!(
        prompt.find("Global instructions from").unwrap()
            < prompt.find("Project instructions from").unwrap_or(usize::MAX)
    );
    let prompt = build(&project);
    assert!(
        prompt.find("Global instructions from").unwrap()
            < prompt.find("Project instructions from").unwrap()
    );
}

#[test]
fn includes_skills_from_both_layouts() {
    let top = vec![entry(
        "top-skill",
        "---\nname: top-skill\ndescription: A top-level skill.\n---\n# Top skill body\n",
    )];
    let nested = vec![entry(
        "skills/nested-skill",
        "---\nname: nested-skill\ndescription: \"A nested skill.\"\n---\n# Nested skill body\n",
    )];
    let prompt = prompt_with(&discover_skills(&nested, &top), Vec::new());
    assert!(prompt.contains("Global skills available from"));
    assert!(prompt.contains("### top-skill"));
    assert!(prompt.contains("Description: A top-level skill."));
    assert!(prompt.contains("### nested-skill"));
    assert!(prompt.contains("Description: A nested skill."));
    assert!(!prompt.contains("# Top skill body"));
    assert!(!prompt.contains("# Nested skill body"));
    assert!(prompt.contains("load_skill"));
    assert!(prompt.contains("read_file may read reference"));
}

#[test]
fn skill_without_frontmatter_falls_back_to_dir_name() {
    let top = vec![entry("plain-skill", "# Just instructions\n")];
    let prompt = prompt_with(&discover_skills(&Vec::new(), &top), Vec::new());
    assert!(prompt.contains("### plain-skill"));
    assert!(prompt.contains("Description: (no description)"));
    assert!(!prompt.contains("# Just instructions"));
}

#[test]
fn forced_skills_inline_full_body_and_leave_on_demand_list() {
    let forced_md = skill_md("forced-skill", "A forced skill.", "# Forced body text");
    let on_demand_md = skill_md("on-demand-skill", "An on-demand skill.", "# On-demand body text");
    let top = vec![entry("forced-skill", &forced_md), entry("on-demand-skill", &on_demand_md)];
    let skills = discover_skills(&Vec::new(), &top);
    let prompt = prompt_with(&skills, vec![forced("forced-skill", Some(&forced_md))]);
    assert!(prompt.contains("Forced skills"));
    assert!(prompt.contains("# Forced body text"));
    assert!(prompt.contains("Description: A forced skill."));
    let on_demand = prompt.split("Global skills available from").nth(1).unwrap_or("");
    assert!(!on_demand.contains("forced-skill"));
    assert!(on_demand.contains("### on-demand-skill"));
    assert!(on_demand.contains("Description: An on-demand skill."));
    assert!(!on_demand.contains("# On-demand body text"));
    assert!(
        prompt.find("Forced skills").unwrap()
            < prompt.find("Global skills available from").unwrap_or(usize::MAX)
    );
}

#[test]
fn forced_skill_that_disappeared_is_skipped() {
    let real_md = skill_md("real-skill", "Real.", "# Real body");
    let skills = discover_skills(&Vec::new(), &vec![entry("real-skill", &real_md)]);
    let prompt = prompt_with(
        &skills,
        vec![forced("real-skill", Some(&real_md)), forced("ghost-skill", None)],
    );
    assert!(prompt.contains("Forced skills"));
    assert!(prompt.contains("# Real body"));
    assert!(!prompt.contains("ghost-skill"));
    let on_demand = prompt.split("Global skills available from").nth(1).unwrap_or("");
    assert!(!on_demand.contains("real-skill"));
}

#[test]
fn all_skills_forced_omits_on_demand_section() {
    let only_md = skill_md("only-skill", "Only.", "# Only body");
    let skills = discover_skills(&Vec::new(), &vec![entry("only-skill", &only_md)]);
    let prompt = prompt_with(&skills, vec![forced("only-skill", Some(&only_md))]);
    assert!(prompt.contains("Forced skills"));
    assert!(prompt.contains("# Only body"));
    assert!(!prompt.contains("Global skills available from"));
    assert!(!prompt.contains("Load a skill on demand by calling the load_skill tool"));
}

#[test]
fn build_mode_mentions_full_access() {
    let prompt = prompt_for(Mode::Build);
    assert!(prompt.contains("Build mode"));
    assert!(prompt.contains("modify existing files"));
    assert!(prompt.contains("edit_file"));
}

#[test]
fn plan_mode_frames_plan_only_and_readonly_codebase() {
    let prompt = prompt_for(Mode::Plan);
    assert!(prompt.contains("Plan mode"));
    assert!(prompt.contains("implementation plan"));
    assert!(prompt.contains("READ-ONLY"));
    assert!(prompt.contains(SCRATCH));
    assert!(prompt.contains("absolute paths"));
    assert!(!prompt.contains("modify existing files with edit_file"));
    assert!(prompt.contains("request_mode_change"));
    assert!(prompt.contains("Finish with the plan as your final answer"));
    assert!(
        prompt.contains("work around the sandbox or use subagent to bypass"),
        "got: {prompt}"
    );
    assert!(prompt.contains("exactly one of two exits"));
    assert!(prompt.contains("must-answer"));
    assert!(prompt.contains("open"));
    assert!(prompt.contains("mode \"build\""));
    assert!(prompt.contains("do NOT call"));
    assert!(prompt.contains("shall I proceed?"));
    assert!(prompt.contains("wait for the user's answers"));
}

#[test]
fn explore_mode_frames_investigation_and_readonly_codebase() {
    let prompt = prompt_for(Mode::Explore);
    assert!(prompt.contains("Explore mode"));
    assert!(prompt.contains("READ-ONLY"));
    assert!(prompt.contains("Prefer read_file"));
    assert!(prompt.contains(SCRATCH));
    assert!(prompt.contains("request_mode_change"));
}

#[test]
fn all_modes_mention_context_compression() {
    for mode in [Mode::Build, Mode::Plan, Mode::Explore] {
        let prompt = prompt_for(mode);
        assert!(prompt.contains("handoff prompt"), "mode {mode:?}: {prompt}");
        assert!(
            prompt.contains("Treat it as your memory of the task and continue"),
            "mode {mode:?}: {prompt}"
        );
    }
}

#[test]
fn all_modes_tell_the_model_to_ask_clarification() {
    for mode in [Mode::Build, Mode::Plan, Mode::Explore] {
        let prompt = prompt_for(mode);
        assert!(prompt.contains("`ask_user`"), "mode {mode:?}: {prompt}");
        assert!(
            prompt.contains("If you need more input from the user to continue"),
            "mode {mode:?}: {prompt}"
        );
        assert!(
            prompt.contains("preset options and a free-text input box"),
            "mode {mode:?}: {prompt}"
        );
        assert!(
            prompt.contains("the user's answer arrives as a user message"),
            "mode {mode:?}: {prompt}"
        );
    }
}

#[test]
fn handoff_instruction_covers_all_sections() {
    let instruction = handoff_instruction();
    assert!(instruction.contains("original user input"));
    assert!(instruction.contains("environment"));
    assert!(instruction.contains("build/test commands"));
    assert!(instruction.contains("Key decisions"));
    assert!(instruction.contains("Current progress"));
    assert!(instruction.contains("todo list"));
    assert!(instruction.contains("next step"));
    assert!(instruction.contains("ONLY the handoff prompt"));
    assert!(HANDOFF_USER_PREFIX.starts_with("[Context compressed:"));
    assert!(HANDOFF_USER_PREFIX.contains("continue from its next step"));
}
