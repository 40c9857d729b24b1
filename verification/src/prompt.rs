//! The texts around the conversation: the system prompt and the markers of
//! synthesized user messages.
use vstd::prelude::*;
use vstd::string::*;

use crate::session::Mode;
use crate::skills::{find_skill, named, skills_view, Skill, SkillView};
use crate::text::{blank, decimal, decimal_text, is_blank, same_text, trim, trimmed};

verus! {

/// Opens the user message that carries a handoff prompt.
pub const HANDOFF_USER_PREFIX: &'static str = "[Context compressed: the messages before this point were \
     summarized into the following handoff prompt and are no longer sent to the model (they \
     remain in the session journal for you to check). Treat the handoff prompt as your \
     authoritative memory of the task so far and continue from its next step.]\n\n";

/// Opens the user message that carries the answers to a clarification
/// question.
pub const ASK_USER_ANSWER_PREFIX: &'static str = "[The user answered your clarification question:]\n\n";

/// Opens the user message that carries a decision on a file-access request.
pub const PERMISSION_ANSWER_PREFIX: &'static str =
    "[The user decided a file-access permission request:]\n\n";

/// The request for a handoff prompt.
pub const HANDOFF_INSTRUCTION: &'static str = "Context compression: the conversation history has reached the context-window \
     threshold, and the next turns will run from a compressed context that replaces all \
     earlier messages.\n\n\
     Write a handoff prompt that captures everything a fresh session needs to continue this \
     task without the earlier history. It must include:\n\
     1. The original user input (the task as the user gave it).\n\
     2. Facts about the environment you have learned: build/test commands, protocols, \
     ports, file layouts, tools, gotchas.\n\
     3. Key decisions made so far and the reasons behind them.\n\
     4. Current progress: what has been done and what is still in the todo list.\n\
     5. The next step to take.\n\n\
     Reply with ONLY the handoff prompt as plain text — no preamble, no code fences.";

/// The user message that asks the model for a handoff prompt.
pub fn handoff_instruction() -> (r: String)
    ensures
        r@ == HANDOFF_INSTRUCTION@,
{
    HANDOFF_INSTRUCTION.to_owned()
}

/// How every system prompt opens.
pub const INTRO: &'static str = "You are an autonomous coding agent running inside the mo harness. \
    You complete tasks by reasoning and by calling the provided tools.\n\n";

/// What the agent may reach.
pub const ACCESS: &'static str = "Files inside the working directory are freely accessible. read_file may also \
    read the session scratch directory and global skill folders (see \"Global \
    skills\" below). Any other path requires the user's approval: the harness \
    shows a permission request in the UI, holds the call until the user decides, \
    and then returns the call's outcome (the file content, or a denial error) like \
    any other result. Never attempt to access files or run commands that escape \
    the working directory without approval.\n\n";

/// What a handoff prompt is.
pub const COMPRESSION: &'static str = "The harness may compress the context mid-task when it nears the model's context \
    window: you will then receive a handoff prompt as a user message summarizing the \
    earlier conversation. Treat it as your memory of the task and continue.\n\n";

/// Opens the framing of a subagent.
pub const SUBAGENT_HEAD: &'static str = "You are a subagent (nesting depth ";

/// Closes the framing of a subagent, behind its depth.
pub const SUBAGENT_TAIL: &'static str = ") spawned by another agent.\n\
    Work within your working directory, do not spawn further subagents unless\n\
    truly necessary, and return a concise summary of what you did and found.\n\n";

/// Opens the section of forced skills.
pub const FORCED_HEAD: &'static str = "Forced skills (the user loaded these for this session — their full \
    instructions are part of this system prompt, so follow them and do not \
    call load_skill for them):\n";

/// Closes the section of skills to load on demand.
pub const LOAD_ON_DEMAND: &'static str = "\nLoad a skill on demand by calling the load_skill tool with the \
    skill name: it returns the full SKILL.md instructions and the \
    absolute path of the skill's folder. read_file may read reference \
    files, scripts, and other resources inside skill folders.\n\n";

/// The framing of build mode.
pub const BUILD_FRAMING: &'static str = "You are in Build mode: you can modify the codebase (create/edit/remove \
    files), run commands, and use subagents and skills to get the job done.\n\
    If you need more input from the user to continue — a choice between approaches, \
    a preference, or a detail only they can decide — ask for it via the `ask_user` \
    tool: the question appears in the UI with the preset options and a free-text \
    input box, and the user's answer arrives as a user message.\n\n";

/// The framing of plan mode up to the working directory.
pub const PLAN_HEAD: &'static str = "You are in Plan mode. Your job is to produce a clear, actionable \
    implementation plan — do not implement anything yet.\n\
    The codebase (";

/// The framing of plan mode up to the scratch directory.
pub const PLAN_BODY: &'static str = ") is READ-ONLY: create/edit/remove are denied there.\n\
    You may create, edit and remove temporary files under the session scratch \
    directory ";

/// The rest of the framing of plan mode.
pub const PLAN_TAIL: &'static str = " (use absolute paths).\n\
    bash and bash_in_background are available but treat them as read-only (a soft \
    restriction): use them to gather facts (builds, tests, greps), not to change \
    anything.\n\
    If you need more input from the user to continue — a choice between \
    approaches, a preference, or a detail only they can decide — ask for it via \
    the `ask_user` tool: the question appears in the UI with the preset options \
    and a free-text input box, and the user's answer arrives as a user message.\n\
    Finish with the plan as your final answer, then take exactly one of two exits:\n\
    - No must-answer open questions: if the plan is complete and has no open \
    questions the user MUST answer before implementation (no ambiguous \
    requirements, no missing decisions, no choices only the user can make), call \
    the `request_mode_change` tool with mode \"build\" — message: a short summary \
    of the plan and what you will do once approved — and then stop. Do not ask \
    \"shall I proceed?\" in plain text: the mode-change request IS that question. \
    The user reviews the plan and approves or rejects in the UI; on approval the \
    session continues in build mode.\n\
    - Must-answer open questions: if the plan depends on answers only the user \
    can give, finish with the plan plus the questions listed, and do NOT call \
    `request_mode_change` — wait for the user's answers.\n\
    Decide details you can reasonably assume yourself and state the assumptions \
    in the plan; only genuinely blocking questions count as must-answer.\n\
    Do not try to work around the sandbox or use subagent to bypass.\n\n";

/// The framing of explore mode up to the working directory.
pub const EXPLORE_HEAD: &'static str = "You are in Explore mode. Investigate the codebase to answer the user's \
    question or gather facts for a parent agent.\n\
    The codebase (";

/// The framing of explore mode up to the scratch directory.
pub const EXPLORE_BODY: &'static str = ") is READ-ONLY: create/edit/remove are denied there.\n\
    You may create, edit and remove temporary files under the session scratch \
    directory ";

/// The rest of the framing of explore mode.
pub const EXPLORE_TAIL: &'static str = " (use absolute paths).\n\
    Prefer read_file; run read-only bash or bash_in_background commands when \
    helpful.\n\
    If you need more input from the user to continue — a choice between \
    approaches, a preference, or a detail only they can decide — ask for it via \
    the `ask_user` tool: the question appears in the UI with the preset options \
    and a free-text input box, and the user's answer arrives as a user message.\n\
    If the task turns into modifying the codebase, call the `request_mode_change` \
    tool to ask the user to switch this session to build mode.\n\
    Report concise findings as your final answer.\n\n";

/// The tool rules of build mode.
pub const BUILD_RULES: &'static str = "Tool usage rules:\n\
    - When you need information, read files first.\n\
    - Create new files with create_file (the parent directory must already\n\
    exist and the file must not exist); modify existing files with\n\
    edit_file.\n\
    - Make precise edits: provide a unique old_string that appears exactly once\n\
    (use replace_all only when every occurrence should change).\n\
    - A path outside the working directory (and outside the session scratch\n\
    dir) requires the user's approval: the harness shows a permission request\n\
    in the UI, holds the call until the user decides, and then returns the\n\
    call's outcome (the result, or a denial error) like any other result.\n\
    - Use bash for anything outside the file tools: builds, tests, git, etc.\n\
    - Use bash_in_background for commands that run longer than ~2 minutes:\n\
    it returns a process id immediately; check it with action=status and\n\
    stop it with action=kill. Redirect its output to a file (background\n\
    stdout/stderr are discarded).\n\
    - After making changes, verify them with read_file or bash before finishing.\n\
    - Tool calls in one message run concurrently (up to max_tool_concurrency);\n\
    completion order is not guaranteed, so never put dependent calls in the\n\
    same message — wait for a result, then make the next call.\n\
    - Report your final answer as a plain text message when no more tool calls\n\
    are needed.\n\n";

/// The tool rules of the other modes up to the scratch directory.
pub const OTHER_RULES_HEAD: &'static str = "Tool usage rules:\n\
    - When you need information, read files first.\n\
    - create_file / edit_file / remove_file are allowed ONLY under the session\n\
    scratch directory ";

/// The rest of the tool rules of the other modes.
pub const OTHER_RULES_TAIL: &'static str = " (absolute paths); the codebase is read-only and\n\
    modifications there are denied.\n\
    - Reading a path outside the working directory and the scratch dir shows\n\
    a permission request to the user in the UI (the call is held until the\n\
    user decides, then returns its outcome); writing outside the scratch dir\n\
    is denied outright — never asked about.\n\
    - Use bash or bash_in_background for anything outside the file tools\n\
    (builds, tests, git, ...), keeping them read-only.\n\
    - Tool calls in one message run concurrently (up to max_tool_concurrency);\n\
    completion order is not guaranteed, so never put dependent calls in the\n\
    same message — wait for a result, then make the next call.\n\
    - Report your final answer as a plain text message when no more tool calls\n\
    are needed.\n\n";

/// What stands for a missing description.
pub const NO_DESCRIPTION: &'static str = "(no description)";

/// A skill that the user loaded for the whole session: its name, and the text
/// of its `SKILL.md` where it can be read.
#[derive(Debug, Clone, PartialEq, Eq)]
pub struct ForcedSkill {
    pub name: String,
    pub content: Option<String>,
}

/// The framing of a mode.
pub open spec fn framing(mode: Mode, workdir: Seq<char>, scratch: Seq<char>) -> Seq<char> {
    match mode {
        Mode::Build => BUILD_FRAMING@,
        Mode::Plan => PLAN_HEAD@ + workdir + PLAN_BODY@ + scratch + PLAN_TAIL@,
        Mode::Explore => EXPLORE_HEAD@ + workdir + EXPLORE_BODY@ + scratch + EXPLORE_TAIL@,
    }
}

/// The tool rules of a mode.
pub open spec fn usage_rules(mode: Mode, scratch: Seq<char>) -> Seq<char> {
    match mode {
        Mode::Build => BUILD_RULES@,
        _ => OTHER_RULES_HEAD@ + scratch + OTHER_RULES_TAIL@,
    }
}

/// The framing of a subagent; a root session has none.
pub open spec fn depth_framing(depth: u32) -> Seq<char> {
    if depth > 0 {
        SUBAGENT_HEAD@ + decimal(depth as nat) + SUBAGENT_TAIL@
    } else {
        Seq::empty()
    }
}

/// The instructions of an `AGENTS.md`; a missing or blank one gives none.
pub open spec fn instructions(head: Seq<char>, dir: Seq<char>, text: Option<String>) -> Seq<char> {
    match text {
        Some(content) => if blank(content@) {
            Seq::empty()
        } else {
            head + dir + "/AGENTS.md:\n"@ + trimmed(content@) + "\n\n"@
        },
        None => Seq::empty(),
    }
}

/// A description, or what stands for a missing one.
pub open spec fn shown_description(description: Seq<char>) -> Seq<char> {
    if description.len() == 0 {
        NO_DESCRIPTION@
    } else {
        description
    }
}

/// The full text of a forced skill; one that is gone or cannot be read gives
/// none.
pub open spec fn forced_section(skills: Seq<SkillView>, forced: ForcedSkill) -> Option<Seq<char>> {
    match (named(skills, forced.name@), forced.content) {
        (Some(skill), Some(content)) => Some(
            "### "@ + skill.name + "\nDescription: "@ + shown_description(skill.description)
                + "\n"@ + trimmed(content@),
        ),
        _ => None,
    }
}

/// The sections of the forced skills.
pub open spec fn forced_sections(skills: Seq<SkillView>, forced: Seq<ForcedSkill>) -> Seq<char>
    decreases forced.len(),
{
    if forced.len() == 0 {
        Seq::empty()
    } else {
        let before = forced_sections(skills, forced.drop_last());
        match forced_section(skills, forced.last()) {
            Some(section) => before + section + "\n\n"@,
            None => before,
        }
    }
}

/// One of the forced skills gives a section.
pub open spec fn any_forced(skills: Seq<SkillView>, forced: Seq<ForcedSkill>) -> bool {
    exists|i: int| 0 <= i < forced.len() && forced_section(skills, #[trigger] forced[i]) is Some
}

/// The forced skills, in full.
pub open spec fn forced_text(skills: Seq<SkillView>, forced: Seq<ForcedSkill>) -> Seq<char> {
    if any_forced(skills, forced) {
        FORCED_HEAD@ + forced_sections(skills, forced)
    } else {
        Seq::empty()
    }
}

/// The user forced a skill of this name.
pub open spec fn is_forced(forced: Seq<ForcedSkill>, name: Seq<char>) -> bool {
    exists|i: int| 0 <= i < forced.len() && (#[trigger] forced[i]).name@ == name
}

/// The listing of the skills that were not forced.
pub open spec fn listed(skills: Seq<SkillView>, forced: Seq<ForcedSkill>) -> Seq<char>
    decreases skills.len(),
{
    if skills.len() == 0 {
        Seq::empty()
    } else {
        let before = listed(skills.drop_last(), forced);
        let s = skills.last();
        if is_forced(forced, s.name) {
            before
        } else {
            before + "### "@ + s.name + "\n"@ + "Description: "@ + shown_description(s.description)
                + "\n"@
        }
    }
}

/// One of the skills was not forced.
pub open spec fn any_listed(skills: Seq<SkillView>, forced: Seq<ForcedSkill>) -> bool {
    exists|i: int| 0 <= i < skills.len() && !is_forced(forced, (#[trigger] skills[i]).name)
}

/// The skills to load on demand, by name and description.
pub open spec fn on_demand_text(
    agents_dir: Seq<char>,
    skills: Seq<SkillView>,
    forced: Seq<ForcedSkill>,
) -> Seq<char> {
    if any_listed(skills, forced) {
        "Global skills available from "@ + agents_dir + " (load on demand):\n"@ + listed(
            skills,
            forced,
        ) + LOAD_ON_DEMAND@
    } else {
        Seq::empty()
    }
}

/// The system prompt of a session.
pub open spec fn system_prompt(
    workdir: Seq<char>,
    agents_dir: Seq<char>,
    depth: u32,
    mode: Mode,
    scratch: Seq<char>,
    skills: Seq<SkillView>,
    forced: Seq<ForcedSkill>,
    global_agents_md: Option<String>,
    agents_md: Option<String>,
) -> Seq<char> {
    INTRO@ + framing(mode, workdir, scratch) + ("Working directory: "@ + workdir + "\n"@) + ACCESS@
        + COMPRESSION@ + usage_rules(mode, scratch) + depth_framing(depth) + instructions(
        "Global instructions from "@,
        agents_dir,
        global_agents_md,
    ) + forced_text(skills, forced) + on_demand_text(agents_dir, skills, forced) + instructions(
        "Project instructions from "@,
        workdir,
        agents_md,
    )
}

fn mode_framing(mode: Mode, workdir: &str, scratch: &str) -> (r: String)
    ensures
        r@ == framing(mode, workdir@, scratch@),
{
    match mode {
        Mode::Build => BUILD_FRAMING.to_owned(),
        Mode::Plan => crate::text::cat5(PLAN_HEAD, workdir, PLAN_BODY, scratch, PLAN_TAIL),
        Mode::Explore => crate::text::cat5(
            EXPLORE_HEAD,
            workdir,
            EXPLORE_BODY,
            scratch,
            EXPLORE_TAIL,
        ),
    }
}

fn tool_usage_rules(mode: Mode, scratch: &str) -> (r: String)
    ensures
        r@ == usage_rules(mode, scratch@),
{
    match mode {
        Mode::Build => BUILD_RULES.to_owned(),
        _ => crate::text::cat3(OTHER_RULES_HEAD, scratch, OTHER_RULES_TAIL),
    }
}

fn depth_paragraph(depth: u32) -> (r: String)
    ensures
        r@ == depth_framing(depth),
{
    if depth > 0 {
        crate::text::cat3(SUBAGENT_HEAD, decimal_text(depth as u64).as_str(), SUBAGENT_TAIL)
    } else {
        let none = String::new();
        assert(none@ =~= Seq::<char>::empty());
        none
    }
}

fn instruction_paragraph(head: &str, dir: &str, text: &Option<String>) -> (r: String)
    ensures
        r@ == instructions(head@, dir@, *text),
{
    if let Some(content) = text {
        if !is_blank(content.as_str()) {
            return crate::text::cat5(
                head,
                dir,
                "/AGENTS.md:\n",
                trim(content.as_str()),
                "\n\n",
            );
        }
    }
    let none = String::new();
    assert(none@ =~= Seq::<char>::empty());
    none
}

fn describe(description: &String) -> (r: &str)
    ensures
        r@ == shown_description(description@),
{
    if description.as_str().is_empty() {
        NO_DESCRIPTION
    } else {
        description.as_str()
    }
}

fn section_of(skills: &Vec<Skill>, forced: &ForcedSkill) -> (r: Option<String>)
    ensures
        match r {
            Some(t) => forced_section(skills_view(skills@), *forced) == Some(t@),
            None => forced_section(skills_view(skills@), *forced) is None,
        },
{
    match (find_skill(skills, forced.name.as_str()), &forced.content) {
        (Some(skill), Some(content)) => {
            let mut t = crate::text::cat5(
                "### ",
                skill.name.as_str(),
                "\nDescription: ",
                describe(&skill.description),
                "\n",
            );
            t.append(trim(content.as_str()));
            Some(t)
        },
        _ => None,
    }
}

fn forced_paragraph(skills: &Vec<Skill>, forced: &Vec<ForcedSkill>) -> (r: String)
    ensures
        r@ == forced_text(skills_view(skills@), forced@),
{
    let ghost all = skills_view(skills@);
    let mut any = false;
    let mut sections = String::new();
    let mut i: usize = 0;
    assert(forced@.take(0).len() == 0);
    assert(sections@ =~= Seq::<char>::empty());
    while i < forced.len()
        invariant
            i <= forced.len(),
            all == skills_view(skills@),
            sections@ == forced_sections(all, forced@.take(i as int)),
            any == any_forced(all, forced@.take(i as int)),
        decreases forced.len() - i,
    {
        let ghost next = forced@.take(i + 1);
        assert(next.drop_last() =~= forced@.take(i as int));
        assert(next.last() == forced@[i as int]);
        let ghost had = any;
        match section_of(skills, &forced[i]) {
            Some(section) => {
                any = true;
                assert(forced_section(all, next[i as int]) is Some);
                sections.append(section.as_str());
                sections.append("\n\n");
            },
            None => {
                proof {
                    if had {
                        let k = choose|k: int|
                            0 <= k < i && forced_section(all, #[trigger] forced@.take(
                                i as int,
                            )[k]) is Some;
                        assert(next[k] == forced@.take(i as int)[k]);
                    }
                    if any_forced(all, next) {
                        let k = choose|k: int|
                            0 <= k < next.len() && forced_section(all, #[trigger] next[k]) is Some;
                        assert(next[k] == forced@.take(i as int)[k]);
                    }
                }
            },
        }
        i = i + 1;
    }
    assert(forced@.take(i as int) =~= forced@);
    if any {
        crate::text::cat2(FORCED_HEAD, sections.as_str())
    } else {
        let none = String::new();
        assert(none@ =~= Seq::<char>::empty());
        none
    }
}

fn forces(forced: &Vec<ForcedSkill>, name: &str) -> (r: bool)
    ensures
        r == is_forced(forced@, name@),
{
    let mut i: usize = 0;
    while i < forced.len()
        invariant
            i <= forced.len(),
            forall|k: int| 0 <= k < i ==> (#[trigger] forced@[k]).name@ != name@,
        decreases forced.len() - i,
    {
        if same_text(forced[i].name.as_str(), name) {
            return true;
        }
        i = i + 1;
    }
    false
}

fn on_demand_paragraph(agents_dir: &str, skills: &Vec<Skill>, forced: &Vec<ForcedSkill>) -> (r:
    String)
    ensures
        r@ == on_demand_text(agents_dir@, skills_view(skills@), forced@),
{
    let ghost all = skills_view(skills@);
    let mut any = false;
    let mut listing = String::new();
    let mut i: usize = 0;
    assert(all.take(0).len() == 0);
    assert(listing@ =~= Seq::<char>::empty());
    while i < skills.len()
        invariant
            i <= skills.len(),
            all == skills_view(skills@),
            listing@ == listed(all.take(i as int), forced@),
            any == any_listed(all.take(i as int), forced@),
        decreases skills.len() - i,
    {
        let ghost next = all.take(i + 1);
        assert(next.drop_last() =~= all.take(i as int));
        assert(next.last() == skills@[i as int]@);
        let ghost had = any;
        let s = &skills[i];
        if !forces(forced, s.name.as_str()) {
            any = true;
            assert(!is_forced(forced@, next[i as int].name));
            listing.append("### ");
            listing.append(s.name.as_str());
            listing.append("\n");
            listing.append("Description: ");
            listing.append(describe(&s.description));
            listing.append("\n");
        } else {
            proof {
                if had {
                    let k = choose|k: int|
                        0 <= k < i && !is_forced(forced@, (#[trigger] all.take(i as int)[k]).name);
                    assert(next[k] == all.take(i as int)[k]);
                }
                if any_listed(next, forced@) {
                    let k = choose|k: int|
                        0 <= k < next.len() && !is_forced(forced@, (#[trigger] next[k]).name);
                    assert(next[k] == all.take(i as int)[k]);
                }
            }
        }
        i = i + 1;
    }
    assert(all.take(i as int) =~= all);
    if any {
        crate::text::cat5(
            "Global skills available from ",
            agents_dir,
            " (load on demand):\n",
            listing.as_str(),
            LOAD_ON_DEMAND,
        )
    } else {
        let none = String::new();
        assert(none@ =~= Seq::<char>::empty());
        none
    }
}

/// The system prompt for a session's first run. `skills` are the discovered
/// skills, `forced` those that the user loaded for the session, and the two
/// `AGENTS.md` texts are given where they can be read.
pub fn build_system_prompt(
    workdir: &str,
    agents_dir: &str,
    subagent_depth: u32,
    mode: Mode,
    scratch: &str,
    skills: &Vec<Skill>,
    forced: &Vec<ForcedSkill>,
    global_agents_md: &Option<String>,
    agents_md: &Option<String>,
) -> (r: String)
    ensures
        r@ == system_prompt(
            workdir@,
            agents_dir@,
            subagent_depth,
            mode,
            scratch@,
            skills_view(skills@),
            forced@,
            *global_agents_md,
            *agents_md,
        ),
{
    let mut prompt = INTRO.to_owned();
    prompt.append(mode_framing(mode, workdir, scratch).as_str());
    prompt.append(crate::text::cat3("Working directory: ", workdir, "\n").as_str());
    prompt.append(ACCESS);
    prompt.append(COMPRESSION);
    prompt.append(tool_usage_rules(mode, scratch).as_str());
    prompt.append(depth_paragraph(subagent_depth).as_str());
    prompt.append(
        instruction_paragraph("Global instructions from ", agents_dir, global_agents_md).as_str(),
    );
    prompt.append(forced_paragraph(skills, forced).as_str());
    prompt.append(on_demand_paragraph(agents_dir, skills, forced).as_str());
    prompt.append(instruction_paragraph("Project instructions from ", workdir, agents_md).as_str());
    prompt
}

// ---------------------------------------------------------------------------
// Laws
// ---------------------------------------------------------------------------

/// Without forced skills, the prompt has no section for them.
pub proof fn law_no_forced_section_without_forced_skills(skills: Seq<SkillView>)
    ensures
        forced_text(skills, Seq::empty()) == Seq::<char>::empty(),
{
}

/// When every skill is forced, nothing is left to load on demand, and the
/// section is left out.
pub proof fn law_all_forced_leaves_nothing_on_demand(
    agents_dir: Seq<char>,
    skills: Seq<SkillView>,
    forced: Seq<ForcedSkill>,
)
    requires
        forall|i: int| 0 <= i < skills.len() ==> is_forced(forced, (#[trigger] skills[i]).name),
    ensures
        on_demand_text(agents_dir, skills, forced) == Seq::<char>::empty(),
{
}

/// Project instructions come last, behind the global ones: they only add to
/// the prompt that the session has without them.
pub proof fn law_project_instructions_come_last(
    workdir: Seq<char>,
    agents_dir: Seq<char>,
    depth: u32,
    mode: Mode,
    scratch: Seq<char>,
    skills: Seq<SkillView>,
    forced: Seq<ForcedSkill>,
    global_agents_md: Option<String>,
    agents_md: Option<String>,
)
    ensures
        system_prompt(
            workdir,
            agents_dir,
            depth,
            mode,
            scratch,
            skills,
            forced,
            global_agents_md,
            agents_md,
        ) == system_prompt(
            workdir,
            agents_dir,
            depth,
            mode,
            scratch,
            skills,
            forced,
            global_agents_md,
            None,
        ) + instructions("Project instructions from "@, workdir, agents_md),
{
    let bare = system_prompt(
        workdir,
        agents_dir,
        depth,
        mode,
        scratch,
        skills,
        forced,
        global_agents_md,
        None,
    );
    assert(bare + Seq::<char>::empty() =~= bare);
}

/// A forced skill that is gone changes nothing in the forced sections.
pub proof fn law_missing_forced_skill_is_skipped(
    skills: Seq<SkillView>,
    forced: Seq<ForcedSkill>,
    gone: ForcedSkill,
)
    requires
        named(skills, gone.name@) is None,
    ensures
        forced_text(skills, forced.push(gone)) == forced_text(skills, forced),
{
    let all = forced.push(gone);
    assert(all.drop_last() =~= forced);
    assert(any_forced(skills, all) == any_forced(skills, forced)) by {
        if any_forced(skills, all) {
            let i = choose|i: int|
                0 <= i < all.len() && forced_section(skills, #[trigger] all[i]) is Some;
            assert(forced[i] == all[i]);
        }
        if any_forced(skills, forced) {
            let i = choose|i: int|
                0 <= i < forced.len() && forced_section(skills, #[trigger] forced[i]) is Some;
            assert(all[i] == forced[i]);
        }
    }
}

} // verus!
