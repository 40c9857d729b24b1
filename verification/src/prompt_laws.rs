//! What holds of the framing of a session by its depth.
//!
//! Verus knows the characters of a literal only where it is spelled out, so the
//! texts of the prompt stand here once more.
use vstd::prelude::*;
use vstd::string::*;

use crate::prompt::{
    depth_framing, framing, system_prompt, usage_rules, ACCESS, BUILD_FRAMING, BUILD_RULES,
    COMPRESSION, EXPLORE_BODY, EXPLORE_HEAD, EXPLORE_TAIL, INTRO, OTHER_RULES_HEAD,
    OTHER_RULES_TAIL, PLAN_BODY, PLAN_HEAD, PLAN_TAIL,
};
use crate::session::Mode;

verus! {

/// The text holds the words.
pub open spec fn holds_words(text: Seq<char>, words: Seq<char>) -> bool {
    exists|i: int|
        0 <= i && i + words.len() <= text.len() && #[trigger] text.subrange(i, i + words.len())
            == words
}

/// The words that only a subagent is told.
pub open spec fn subagent_words(words: Seq<char>) -> bool {
    words == "nesting depth"@ || words == "spawned by another agent"@ || words
        == "return a concise summary"@
}

// ---------------------------------------------------------------------------
// Scanning a text
// ---------------------------------------------------------------------------

/// None of those words passes through `i`: they have `pth`, `wn` and `rn ` in
/// them.
spec fn clean_at(s: Seq<char>, i: int) -> bool {
    &&& i + 1 < s.len() ==> !(s[i] == 'w' && s[i + 1] == 'n')
    &&& i + 2 < s.len() ==> !(s[i] == 'p' && s[i + 1] == 't' && s[i + 2] == 'h')
    &&& i + 2 < s.len() ==> !(s[i] == 'r' && s[i + 1] == 'n' && s[i + 2] == ' ')
}

spec fn clean_row(s: Seq<char>, i: int) -> bool {
    clean_at(s, i) && clean_at(s, i + 1) && clean_at(s, i + 2) && clean_at(s, i + 3) && clean_at(
        s,
        i + 4,
    )
}

/// None of those words passes through `i` or any place behind it.
spec fn clean_from(s: Seq<char>, i: int) -> bool
    decreases
            (if i < s.len() {
                s.len() - i
            } else {
                0
            }),
{
    i < s.len() ==> clean_row(s, i) && clean_row(s, i + 5) && clean_row(s, i + 10) && clean_row(
        s,
        i + 15,
    ) && clean_row(s, i + 20) && clean_from(s, i + 25)
}

proof fn lemma_clean_at(s: Seq<char>, from: int, i: int)
    requires
        clean_from(s, from),
        from <= i < s.len(),
    ensures
        clean_at(s, i),
    decreases s.len() - from,
{
    if i < from + 25 {
        let row = from + (i - from) / 5 * 5;
        assert(clean_row(s, row));
    } else {
        lemma_clean_at(s, from + 25, i);
    }
}

proof fn lemma_words()
    ensures
        "nesting depth"@ == seq!['n', 'e', 's', 't', 'i', 'n', 'g', ' ', 'd', 'e', 'p', 't', 'h'],
        "spawned by another agent"@ == seq![
            's', 'p', 'a', 'w', 'n', 'e', 'd', ' ', 'b', 'y', ' ', 'a', 'n', 'o', 't', 'h', 'e',
            'r', ' ', 'a', 'g', 'e', 'n', 't',
        ],
        "return a concise summary"@ == seq![
            'r', 'e', 't', 'u', 'r', 'n', ' ', 'a', ' ', 'c', 'o', 'n', 'c', 'i', 's', 'e', ' ',
            's', 'u', 'm', 'm', 'a', 'r', 'y',
        ],
{
    reveal_strlit("nesting depth");
    reveal_strlit("spawned by another agent");
    assert("nesting depth"@ =~= seq![
        'n', 'e', 's', 't', 'i', 'n', 'g', ' ', 'd', 'e', 'p', 't', 'h',
    ]);
    assert("spawned by another agent"@ =~= seq![
        's', 'p', 'a', 'w', 'n', 'e', 'd', ' ', 'b', 'y', ' ', 'a', 'n', 'o', 't', 'h', 'e', 'r',
        ' ', 'a', 'g', 'e', 'n', 't',
    ]);
    reveal_strlit("return a concise summary");
    assert("return a concise summary"@ =~= seq![
        'r', 'e', 't', 'u', 'r', 'n', ' ', 'a', ' ', 'c', 'o', 'n', 'c', 'i', 's', 'e', ' ', 's',
        'u', 'm', 'm', 'a', 'r', 'y',
    ]);
}

proof fn lemma_clean_text(s: Seq<char>, words: Seq<char>)
    requires
        clean_from(s, 0),
        subagent_words(words),
    ensures
        !holds_words(s, words),
{
    lemma_words();
    if holds_words(s, words) {
        let n = words.len() as int;
        let i = choose|i: int|
            0 <= i && i + n <= s.len() && #[trigger] s.subrange(i, i + n) == words;
        let found = s.subrange(i, i + n);
        if words == "nesting depth"@ {
            lemma_clean_at(s, 0, i + 10);
            assert(found[10] == 'p' && found[11] == 't' && found[12] == 'h');
        } else if words == "spawned by another agent"@ {
            lemma_clean_at(s, 0, i + 3);
            assert(found[3] == 'w' && found[4] == 'n');
        } else {
            lemma_clean_at(s, 0, i + 4);
            assert(found[4] == 'r' && found[5] == 'n' && found[6] == ' ');
        }
    }
}

// ---------------------------------------------------------------------------
// Joining texts
// ---------------------------------------------------------------------------

/// None of those words goes on behind this text.
spec fn closed_end(a: Seq<char>) -> bool {
    let n = a.len() as int;
    &&& n > 0
    &&& a[n - 1] == '\n' || a[n - 1] == '(' || (n > 2 && a[n - 1] == ' ' && (a[n - 2] == ':' || (a[n
        - 2] == 'y' && a[n - 3] == 'r')))
}

/// None of those words began before this text.
spec fn closed_start(b: Seq<char>) -> bool {
    &&& b.len() > 0
    &&& b[0] == '\n' || b[0] == ')' || (b.len() > 1 && b[0] == ' ' && b[1] == '(')
}

proof fn lemma_join(a: Seq<char>, b: Seq<char>, words: Seq<char>)
    requires
        subagent_words(words),
        !holds_words(a, words),
        !holds_words(b, words),
        closed_end(a) || closed_start(b),
    ensures
        !holds_words(a + b, words),
{
    lemma_words();
    let s = a + b;
    if holds_words(s, words) {
        let n = words.len() as int;
        let i = choose|i: int|
            0 <= i && i + n <= s.len() && #[trigger] s.subrange(i, i + n) == words;
        let m = a.len() as int;
        let found = s.subrange(i, i + n);
        if i + n <= m {
            assert(a.subrange(i, i + n) =~= found);
        } else if i >= m {
            assert(b.subrange(i - m, i - m + n) =~= found);
        } else {
            let k = m - i;
            assert(a[m - 1] == found[k - 1]);
            assert(b[0] == found[k]);
            if k > 1 {
                assert(a[m - 2] == found[k - 2]);
            }
            if k > 2 {
                assert(a[m - 3] == found[k - 3]);
            }
            if k + 1 < n {
                assert(b[1] == found[k + 1]);
            }
            assert(false);
        }
    }
}

// ---------------------------------------------------------------------------
// The texts of a root prompt
// ---------------------------------------------------------------------------

proof fn lemma_intro()
    ensures
        clean_from(INTRO@, 0),
        closed_end(INTRO@),
        INTRO@.last() == '\n',
{
    reveal_strlit(
        "You are an autonomous coding agent running inside the mo harness. \
    You complete tasks by reasoning and by calling the provided tools.\n\n",
    );
    assert(INTRO@.len() == 134);
    reveal_with_fuel(clean_from, 7);
}

proof fn lemma_access()
    ensures
        clean_from(ACCESS@, 0),
        closed_end(ACCESS@),
        ACCESS@.last() == '\n',
{
    reveal_strlit(
        "Files inside the working directory are freely accessible. read_file may also \
    read the session scratch directory and global skill folders (see \"Global \
    skills\" below). Any other path requires the user's approval: the harness \
    shows a permission request in the UI, holds the call until the user decides, \
    and then returns the call's outcome (the file content, or a denial error) like \
    any other result. Never attempt to access files or run commands that escape \
    the working directory without approval.\n\n",
    );
    assert(ACCESS@.len() == 496);
    reveal_with_fuel(clean_from, 21);
}

proof fn lemma_compression()
    ensures
        clean_from(COMPRESSION@, 0),
        closed_end(COMPRESSION@),
        COMPRESSION@.last() == '\n',
{
    reveal_strlit(
        "The harness may compress the context mid-task when it nears the model's context \
    window: you will then receive a handoff prompt as a user message summarizing the \
    earlier conversation. Treat it as your memory of the task and continue.\n\n",
    );
    assert(COMPRESSION@.len() == 234);
    reveal_with_fuel(clean_from, 11);
}

proof fn lemma_build_framing()
    ensures
        clean_from(BUILD_FRAMING@, 0),
        closed_end(BUILD_FRAMING@),
        BUILD_FRAMING@.last() == '\n',
{
    reveal_strlit(
        "You are in Build mode: you can modify the codebase (create/edit/remove \
    files), run commands, and use subagents and skills to get the job done.\n\
    If you need more input from the user to continue — a choice between approaches, \
    a preference, or a detail only they can decide — ask for it via the `ask_user` \
    tool: the question appears in the UI with the preset options and a free-text \
    input box, and the user's answer arrives as a user message.\n\n",
    );
    assert(BUILD_FRAMING@.len() == 440);
    reveal_with_fuel(clean_from, 19);
}

proof fn lemma_plan_head()
    ensures
        clean_from(PLAN_HEAD@, 0),
        closed_end(PLAN_HEAD@),
{
    reveal_strlit(
        "You are in Plan mode. Your job is to produce a clear, actionable \
    implementation plan — do not implement anything yet.\n\
    The codebase (",
    );
    assert(PLAN_HEAD@.len() == 132);
    reveal_with_fuel(clean_from, 7);
}

proof fn lemma_plan_body()
    ensures
        clean_from(PLAN_BODY@, 0),
        closed_end(PLAN_BODY@),
        closed_start(PLAN_BODY@),
        PLAN_BODY@.len() > 2,
{
    reveal_strlit(
        ") is READ-ONLY: create/edit/remove are denied there.\n\
    You may create, edit and remove temporary files under the session scratch \
    directory ",
    );
    assert(PLAN_BODY@.len() == 137);
    reveal_with_fuel(clean_from, 7);
}

proof fn lemma_plan_tail()
    ensures
        clean_from(PLAN_TAIL@, 0),
        closed_end(PLAN_TAIL@),
        closed_start(PLAN_TAIL@),
        PLAN_TAIL@.last() == '\n',
{
    reveal_strlit(
        " (use absolute paths).\n\
    bash and bash_in_background are available but treat them as read-only (a soft \
    restriction): use them to gather facts (builds, tests, greps), not to change \
    anything.\n\
    If you need more input from the user to continue — a choice between \
    approaches, a preference, or a detail only they can decide — ask for it via \
    the `ask_user` tool: the question appears in the UI with the preset options \
    and a free-text input box, and the user's answer arrives as a user message.\n\
    Finish with the plan as your final answer, then take exactly one of two exits:\n\
    - No must-answer open questions: if the plan is complete and has no open \
    questions the user MUST answer before implementation (no ambiguous \
    requirements, no missing decisions, no choices only the user can make), call \
    the `request_mode_change` tool with mode \"build\" — message: a short summary \
    of the plan and what you will do once approved — and then stop. Do not ask \
    \"shall I proceed?\" in plain text: the mode-change request IS that question. \
    The user reviews the plan and approves or rejects in the UI; on approval the \
    session continues in build mode.\n\
    - Must-answer open questions: if the plan depends on answers only the user \
    can give, finish with the plan plus the questions listed, and do NOT call \
    `request_mode_change` — wait for the user's answers.\n\
    Decide details you can reasonably assume yourself and state the assumptions \
    in the plan; only genuinely blocking questions count as must-answer.\n\
    Do not try to work around the sandbox or use subagent to bypass.\n\n",
    );
    assert(PLAN_TAIL@.len() == 1530);
    reveal_with_fuel(clean_from, 63);
}

proof fn lemma_explore_head()
    ensures
        clean_from(EXPLORE_HEAD@, 0),
        closed_end(EXPLORE_HEAD@),
{
    reveal_strlit(
        "You are in Explore mode. Investigate the codebase to answer the user's \
    question or gather facts for a parent agent.\n\
    The codebase (",
    );
    assert(EXPLORE_HEAD@.len() == 130);
    reveal_with_fuel(clean_from, 7);
}

proof fn lemma_explore_body()
    ensures
        clean_from(EXPLORE_BODY@, 0),
        closed_end(EXPLORE_BODY@),
        closed_start(EXPLORE_BODY@),
        EXPLORE_BODY@.len() > 2,
{
    reveal_strlit(
        ") is READ-ONLY: create/edit/remove are denied there.\n\
    You may create, edit and remove temporary files under the session scratch \
    directory ",
    );
    assert(EXPLORE_BODY@.len() == 137);
    reveal_with_fuel(clean_from, 7);
}

proof fn lemma_explore_tail()
    ensures
        clean_from(EXPLORE_TAIL@, 0),
        closed_end(EXPLORE_TAIL@),
        closed_start(EXPLORE_TAIL@),
        EXPLORE_TAIL@.last() == '\n',
{
    reveal_strlit(
        " (use absolute paths).\n\
    Prefer read_file; run read-only bash or bash_in_background commands when \
    helpful.\n\
    If you need more input from the user to continue — a choice between \
    approaches, a preference, or a detail only they can decide — ask for it via \
    the `ask_user` tool: the question appears in the UI with the preset options \
    and a free-text input box, and the user's answer arrives as a user message.\n\
    If the task turns into modifying the codebase, call the `request_mode_change` \
    tool to ask the user to switch this session to build mode.\n\
    Report concise findings as your final answer.\n\n",
    );
    assert(EXPLORE_TAIL@.len() == 585);
    reveal_with_fuel(clean_from, 25);
}

proof fn lemma_build_rules()
    ensures
        clean_from(BUILD_RULES@, 0),
        closed_end(BUILD_RULES@),
        BUILD_RULES@.last() == '\n',
{
    reveal_strlit(
        "Tool usage rules:\n\
    - When you need information, read files first.\n\
    - Create new files with create_file (the parent directory must already\n\
    exist and the file must not exist); modify existing files with\n\
    edit_file.\n\
    - Make precise edits: provide a unique old_string that appears exactly once\n\
    (use replace_all only when every occurrence should change).\n\
    - A path outside the working directory (and outside the session scratch\n\
    dir) requires the user's approval: the harness shows a permission request\n\
    in the UI, holds the call until the user decides, and then returns the\n\
    call's outcome (the result, or a denial error) like any other result.\n\
    - Use bash for anything outside the file tools: builds, tests, git, etc.\n\
    - Use bash_in_background for commands that run longer than ~2 minutes:\n\
    it returns a process id immediately; check it with action=status and\n\
    stop it with action=kill. Redirect its output to a file (background\n\
    stdout/stderr are discarded).\n\
    - After making changes, verify them with read_file or bash before finishing.\n\
    - Tool calls in one message run concurrently (up to max_tool_concurrency);\n\
    completion order is not guaranteed, so never put dependent calls in the\n\
    same message — wait for a result, then make the next call.\n\
    - Report your final answer as a plain text message when no more tool calls\n\
    are needed.\n\n",
    );
    assert(BUILD_RULES@.len() == 1315);
    reveal_with_fuel(clean_from, 54);
}

proof fn lemma_other_rules_head()
    ensures
        clean_from(OTHER_RULES_HEAD@, 0),
        closed_end(OTHER_RULES_HEAD@),
{
    reveal_strlit(
        "Tool usage rules:\n\
    - When you need information, read files first.\n\
    - create_file / edit_file / remove_file are allowed ONLY under the session\n\
    scratch directory ",
    );
    assert(OTHER_RULES_HEAD@.len() == 158);
    reveal_with_fuel(clean_from, 8);
}

proof fn lemma_other_rules_tail()
    ensures
        clean_from(OTHER_RULES_TAIL@, 0),
        closed_end(OTHER_RULES_TAIL@),
        closed_start(OTHER_RULES_TAIL@),
        OTHER_RULES_TAIL@.last() == '\n',
{
    reveal_strlit(
        " (absolute paths); the codebase is read-only and\n\
    modifications there are denied.\n\
    - Reading a path outside the working directory and the scratch dir shows\n\
    a permission request to the user in the UI (the call is held until the\n\
    user decides, then returns its outcome); writing outside the scratch dir\n\
    is denied outright — never asked about.\n\
    - Use bash or bash_in_background for anything outside the file tools\n\
    (builds, tests, git, ...), keeping them read-only.\n\
    - Tool calls in one message run concurrently (up to max_tool_concurrency);\n\
    completion order is not guaranteed, so never put dependent calls in the\n\
    same message — wait for a result, then make the next call.\n\
    - Report your final answer as a plain text message when no more tool calls\n\
    are needed.\n\n",
    );
    assert(OTHER_RULES_TAIL@.len() == 752);
    reveal_with_fuel(clean_from, 32);
}

proof fn lemma_framing(mode: Mode, workdir: Seq<char>, scratch: Seq<char>, words: Seq<char>)
    requires
        subagent_words(words),
        !holds_words(workdir, words),
        mode == Mode::Build || !holds_words(scratch, words),
    ensures
        !holds_words(framing(mode, workdir, scratch), words),
        framing(mode, workdir, scratch).len() > 0,
        framing(mode, workdir, scratch).last() == '\n',
{
    match mode {
        Mode::Build => {
            lemma_build_framing();
            lemma_clean_text(BUILD_FRAMING@, words);
        },
        Mode::Plan => {
            lemma_plan_head();
            lemma_plan_body();
            lemma_plan_tail();
            lemma_filled_in(PLAN_HEAD@, workdir, PLAN_BODY@, scratch, PLAN_TAIL@, words);
        },
        Mode::Explore => {
            lemma_explore_head();
            lemma_explore_body();
            lemma_explore_tail();
            lemma_filled_in(EXPLORE_HEAD@, workdir, EXPLORE_BODY@, scratch, EXPLORE_TAIL@, words);
        },
    }
}

proof fn lemma_filled_in(
    head: Seq<char>,
    workdir: Seq<char>,
    body: Seq<char>,
    scratch: Seq<char>,
    tail: Seq<char>,
    words: Seq<char>,
)
    requires
        subagent_words(words),
        !holds_words(workdir, words),
        !holds_words(scratch, words),
        clean_from(head, 0),
        clean_from(body, 0),
        clean_from(tail, 0),
        closed_end(head),
        closed_start(body),
        closed_end(body),
        body.len() > 2,
        closed_start(tail),
    ensures
        !holds_words(head + workdir + body + scratch + tail, words),
{
    lemma_clean_text(head, words);
    lemma_clean_text(body, words);
    lemma_clean_text(tail, words);
    lemma_join(head, workdir, words);
    lemma_join(head + workdir, body, words);
    let s = head + workdir + body;
    let n = s.len() as int;
    let m = body.len() as int;
    assert(s[n - 1] == body[m - 1] && s[n - 2] == body[m - 2] && s[n - 3] == body[m - 3]);
    lemma_join(s, scratch, words);
    lemma_join(s + scratch, tail, words);
}

proof fn lemma_rules(mode: Mode, scratch: Seq<char>, words: Seq<char>)
    requires
        subagent_words(words),
        mode == Mode::Build || !holds_words(scratch, words),
    ensures
        !holds_words(usage_rules(mode, scratch), words),
{
    if mode == Mode::Build {
        lemma_build_rules();
        lemma_clean_text(BUILD_RULES@, words);
    } else {
        lemma_other_rules_head();
        lemma_other_rules_tail();
        lemma_clean_text(OTHER_RULES_HEAD@, words);
        lemma_clean_text(OTHER_RULES_TAIL@, words);
        lemma_join(OTHER_RULES_HEAD@, scratch, words);
        lemma_join(OTHER_RULES_HEAD@ + scratch, OTHER_RULES_TAIL@, words);
    }
}

proof fn lemma_place(workdir: Seq<char>, words: Seq<char>)
    requires
        subagent_words(words),
        !holds_words(workdir, words),
    ensures
        !holds_words("Working directory: "@ + workdir + "\n"@, words),
        ("Working directory: "@ + workdir + "\n"@).last() == '\n',
{
    reveal_strlit("Working directory: ");
    reveal_strlit("\n");
    let head = "Working directory: "@;
    assert(head.len() == 19 && "\n"@.len() == 1);
    reveal_with_fuel(clean_from, 2);
    lemma_clean_text(head, words);
    lemma_clean_text("\n"@, words);
    lemma_join(head, workdir, words);
    lemma_join(head + workdir, "\n"@, words);
}

// ---------------------------------------------------------------------------
// Laws
// ---------------------------------------------------------------------------

/// A root session is never framed as a subagent: in every mode its prompt
/// speaks neither of a nesting depth nor of being spawned by another agent, and
/// asks for no concise summary, unless the name of a directory that it shows does:
/// the working directory, and outside build mode the scratch directory.
pub proof fn law_root_prompt_is_not_that_of_a_subagent(
    workdir: Seq<char>,
    agents_dir: Seq<char>,
    mode: Mode,
    scratch: Seq<char>,
    words: Seq<char>,
)
    requires
        subagent_words(words),
        !holds_words(workdir, words),
        mode == Mode::Build || !holds_words(scratch, words),
    ensures
        !holds_words(
            system_prompt(
                workdir,
                agents_dir,
                0,
                mode,
                scratch,
                Seq::empty(),
                Seq::empty(),
                None,
                None,
            ),
            words,
        ),
{
    lemma_intro();
    lemma_access();
    lemma_compression();
    lemma_clean_text(INTRO@, words);
    lemma_clean_text(ACCESS@, words);
    lemma_clean_text(COMPRESSION@, words);
    lemma_framing(mode, workdir, scratch, words);
    lemma_place(workdir, words);
    lemma_rules(mode, scratch, words);
    let place = "Working directory: "@ + workdir + "\n"@;
    let a = INTRO@ + framing(mode, workdir, scratch);
    lemma_join(INTRO@, framing(mode, workdir, scratch), words);
    lemma_join(a, place, words);
    lemma_join(a + place, ACCESS@, words);
    lemma_join(a + place + ACCESS@, COMPRESSION@, words);
    lemma_join(a + place + ACCESS@ + COMPRESSION@, usage_rules(mode, scratch), words);
    let whole = a + place + ACCESS@ + COMPRESSION@ + usage_rules(mode, scratch);
    assert(system_prompt(
        workdir,
        agents_dir,
        0,
        mode,
        scratch,
        Seq::empty(),
        Seq::empty(),
        None,
        None,
    ) =~= whole);
}

/// A subagent is told one paragraph more than a root session, and that paragraph
/// names its depth.
pub proof fn law_subagent_prompt_adds_one_paragraph(
    workdir: Seq<char>,
    agents_dir: Seq<char>,
    depth: u32,
    mode: Mode,
    scratch: Seq<char>,
)
    ensures
        system_prompt(
            workdir,
            agents_dir,
            depth,
            mode,
            scratch,
            Seq::empty(),
            Seq::empty(),
            None,
            None,
        ) == system_prompt(
            workdir,
            agents_dir,
            0,
            mode,
            scratch,
            Seq::empty(),
            Seq::empty(),
            None,
            None,
        ) + depth_framing(depth),
{
    let root = system_prompt(
        workdir,
        agents_dir,
        0,
        mode,
        scratch,
        Seq::empty(),
        Seq::empty(),
        None,
        None,
    );
    assert(system_prompt(
        workdir,
        agents_dir,
        depth,
        mode,
        scratch,
        Seq::empty(),
        Seq::empty(),
        None,
        None,
    ) =~= root + depth_framing(depth));
}

} // verus!
