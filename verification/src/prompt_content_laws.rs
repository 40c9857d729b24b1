//! What a system prompt holds: every part that the session calls for, in full.
use vstd::prelude::*;
use vstd::string::*;

use crate::prompt::{
    any_forced, any_listed, depth_framing, forced_section, forced_sections, forced_text, framing, instructions,
    is_forced, listed, on_demand_text, system_prompt, usage_rules, ForcedSkill, ACCESS,
    BUILD_FRAMING, BUILD_RULES, COMPRESSION, EXPLORE_BODY, EXPLORE_HEAD, EXPLORE_TAIL, FORCED_HEAD,
    INTRO, LOAD_ON_DEMAND, OTHER_RULES_HEAD, OTHER_RULES_TAIL, PLAN_BODY, PLAN_HEAD, PLAN_TAIL,
    SUBAGENT_HEAD, SUBAGENT_TAIL,
};
use crate::prompt_laws::holds_words;
use crate::session::Mode;
use crate::skills::{named, SkillView};
use crate::text::{blank, decimal, trimmed};

verus! {

proof fn lemma_holds_in_sum(a: Seq<char>, b: Seq<char>, words: Seq<char>)
    ensures
        holds_words(a, words) ==> holds_words(a + b, words),
        holds_words(b, words) ==> holds_words(a + b, words),
{
    let all = a + b;
    if holds_words(a, words) {
        let i = choose|i: int|
            0 <= i && i + words.len() <= a.len() && #[trigger] a.subrange(i, i + words.len())
                == words;
        assert(all.subrange(i, i + words.len()) =~= words);
    }
    if holds_words(b, words) {
        let i = choose|i: int|
            0 <= i && i + words.len() <= b.len() && #[trigger] b.subrange(i, i + words.len())
                == words;
        let j = a.len() + i;
        assert(all.subrange(j, j + words.len()) =~= words);
    }
}

proof fn lemma_holds_itself(words: Seq<char>)
    ensures
        holds_words(words, words),
{
    assert(words.subrange(0, 0int + words.len()) =~= words);
}

/// What every prompt is made of, before the parts that depend on files and
/// skills.
proof fn lemma_parts(
    workdir: Seq<char>,
    agents_dir: Seq<char>,
    depth: u32,
    mode: Mode,
    scratch: Seq<char>,
    skills: Seq<SkillView>,
    forced: Seq<ForcedSkill>,
    global: Option<String>,
    project: Option<String>,
    words: Seq<char>,
)
    requires
        holds_words(framing(mode, workdir, scratch), words) || holds_words(
            "Working directory: "@ + workdir + "\n"@,
            words,
        ) || holds_words(usage_rules(mode, scratch), words) || holds_words(
            depth_framing(depth),
            words,
        ) || holds_words(instructions("Global instructions from "@, agents_dir, global), words)
            || holds_words(forced_text(skills, forced), words) || holds_words(
            on_demand_text(agents_dir, skills, forced),
            words,
        ) || holds_words(instructions("Project instructions from "@, workdir, project), words),
    ensures
        holds_words(
            system_prompt(
                workdir,
                agents_dir,
                depth,
                mode,
                scratch,
                skills,
                forced,
                global,
                project,
            ),
            words,
        ),
{
    let p1 = INTRO@ + framing(mode, workdir, scratch);
    let p2 = p1 + ("Working directory: "@ + workdir + "\n"@);
    let p3 = p2 + ACCESS@;
    let p4 = p3 + COMPRESSION@;
    let p5 = p4 + usage_rules(mode, scratch);
    let p6 = p5 + depth_framing(depth);
    let p7 = p6 + instructions("Global instructions from "@, agents_dir, global);
    let p8 = p7 + forced_text(skills, forced);
    let p9 = p8 + on_demand_text(agents_dir, skills, forced);
    lemma_holds_in_sum(INTRO@, framing(mode, workdir, scratch), words);
    lemma_holds_in_sum(p1, "Working directory: "@ + workdir + "\n"@, words);
    lemma_holds_in_sum(p2, ACCESS@, words);
    lemma_holds_in_sum(p3, COMPRESSION@, words);
    lemma_holds_in_sum(p4, usage_rules(mode, scratch), words);
    lemma_holds_in_sum(p5, depth_framing(depth), words);
    lemma_holds_in_sum(
        p6,
        instructions("Global instructions from "@, agents_dir, global),
        words,
    );
    lemma_holds_in_sum(p7, forced_text(skills, forced), words);
    lemma_holds_in_sum(p8, on_demand_text(agents_dir, skills, forced), words);
    lemma_holds_in_sum(p9, instructions("Project instructions from "@, workdir, project), words);
}

/// Every prompt names the working directory, says what the mode of the session
/// allows, and where outside build mode the scratch directory is; and that of a
/// subagent says how deep it is nested.
pub proof fn law_a_prompt_says_where_and_how_to_work(
    workdir: Seq<char>,
    agents_dir: Seq<char>,
    depth: u32,
    mode: Mode,
    scratch: Seq<char>,
    skills: Seq<SkillView>,
    forced: Seq<ForcedSkill>,
    global: Option<String>,
    project: Option<String>,
)
    ensures
        ({
            let prompt = system_prompt(
                workdir,
                agents_dir,
                depth,
                mode,
                scratch,
                skills,
                forced,
                global,
                project,
            );
            &&& holds_words(prompt, "Working directory: "@ + workdir + "\n"@)
            &&& mode == Mode::Build ==> holds_words(prompt, BUILD_FRAMING@) && holds_words(
                prompt,
                BUILD_RULES@,
            )
            &&& mode == Mode::Plan ==> holds_words(
                prompt,
                PLAN_HEAD@ + workdir + PLAN_BODY@ + scratch + PLAN_TAIL@,
            )
            &&& mode == Mode::Explore ==> holds_words(
                prompt,
                EXPLORE_HEAD@ + workdir + EXPLORE_BODY@ + scratch + EXPLORE_TAIL@,
            )
            &&& mode != Mode::Build ==> holds_words(
                prompt,
                OTHER_RULES_HEAD@ + scratch + OTHER_RULES_TAIL@,
            )
            &&& depth > 0 ==> holds_words(
                prompt,
                SUBAGENT_HEAD@ + decimal(depth as nat) + SUBAGENT_TAIL@,
            )
        }),
{
    let place = "Working directory: "@ + workdir + "\n"@;
    lemma_holds_itself(place);
    lemma_parts(workdir, agents_dir, depth, mode, scratch, skills, forced, global, project, place);
    let f = framing(mode, workdir, scratch);
    lemma_holds_itself(f);
    lemma_parts(workdir, agents_dir, depth, mode, scratch, skills, forced, global, project, f);
    let u = usage_rules(mode, scratch);
    lemma_holds_itself(u);
    lemma_parts(workdir, agents_dir, depth, mode, scratch, skills, forced, global, project, u);
    let d = depth_framing(depth);
    lemma_holds_itself(d);
    lemma_parts(workdir, agents_dir, depth, mode, scratch, skills, forced, global, project, d);
}

/// Instructions that say anything are in the prompt, the global ones and those
/// of the project, in full and under the path of their file.
pub proof fn law_a_prompt_holds_the_instructions(
    workdir: Seq<char>,
    agents_dir: Seq<char>,
    depth: u32,
    mode: Mode,
    scratch: Seq<char>,
    skills: Seq<SkillView>,
    forced: Seq<ForcedSkill>,
    global: Option<String>,
    project: Option<String>,
)
    ensures
        ({
            let prompt = system_prompt(
                workdir,
                agents_dir,
                depth,
                mode,
                scratch,
                skills,
                forced,
                global,
                project,
            );
            &&& global matches Some(text) ==> (!blank(text@) ==> holds_words(
                prompt,
                "Global instructions from "@ + agents_dir + "/AGENTS.md:\n"@ + trimmed(text@)
                    + "\n\n"@,
            ))
            &&& project matches Some(text) ==> (!blank(text@) ==> holds_words(
                prompt,
                "Project instructions from "@ + workdir + "/AGENTS.md:\n"@ + trimmed(text@)
                    + "\n\n"@,
            ))
        }),
{
    let g = instructions("Global instructions from "@, agents_dir, global);
    lemma_holds_itself(g);
    lemma_parts(workdir, agents_dir, depth, mode, scratch, skills, forced, global, project, g);
    let p = instructions("Project instructions from "@, workdir, project);
    lemma_holds_itself(p);
    lemma_parts(workdir, agents_dir, depth, mode, scratch, skills, forced, global, project, p);
}

/// Instructions that are missing or blank add nothing.
pub proof fn law_blank_instructions_add_nothing(
    head: Seq<char>,
    dir: Seq<char>,
    text: Option<String>,
)
    requires
        text is None || blank(text->0@),
    ensures
        instructions(head, dir, text) == Seq::<char>::empty(),
{
}

/// What a prompt says of a skill without a description.
pub open spec fn description_or_none(skill: SkillView) -> Seq<char> {
    if skill.description.len() > 0 {
        skill.description
    } else {
        "(no description)"@
    }
}

proof fn lemma_sum_of_three(a: Seq<char>, b: Seq<char>, c: Seq<char>)
    ensures
        a + b + c == a + (b + c),
{
    assert(a + b + c =~= a + (b + c));
}

proof fn lemma_sum_of_seven(
    a: Seq<char>,
    b: Seq<char>,
    c: Seq<char>,
    d: Seq<char>,
    e: Seq<char>,
    f: Seq<char>,
    g: Seq<char>,
)
    ensures
        a + b + c + d + e + f + g == a + (b + c + d + e + f + g),
{
    lemma_sum_of_three(a, b, c);
    lemma_sum_of_three(a, b + c, d);
    lemma_sum_of_three(a, b + c + d, e);
    lemma_sum_of_three(a, b + c + d + e, f);
    lemma_sum_of_three(a, b + c + d + e + f, g);
}

proof fn lemma_section_is_held(skills: Seq<SkillView>, forced: Seq<ForcedSkill>, i: int)
    requires
        0 <= i < forced.len(),
        forced_section(skills, forced[i]) is Some,
    ensures
        holds_words(
            forced_sections(skills, forced),
            forced_section(skills, forced[i])->0 + "\n\n"@,
        ),
    decreases forced.len(),
{
    let rest = forced.drop_last();
    let before = forced_sections(skills, rest);
    let words = forced_section(skills, forced[i])->0 + "\n\n"@;
    if i == forced.len() - 1 {
        lemma_holds_itself(words);
        lemma_holds_in_sum(before, words, words);
        lemma_sum_of_three(before, forced_section(skills, forced[i])->0, "\n\n"@);
    } else {
        assert(rest[i] == forced[i]);
        lemma_section_is_held(skills, rest, i);
        if let Some(last) = forced_section(skills, forced.last()) {
            lemma_holds_in_sum(before, last + "\n\n"@, words);
            lemma_sum_of_three(before, last, "\n\n"@);
        }
    }
}

/// Every skill that the user loaded, and that is there to be read, stands in the
/// prompt in full, whichever place it has among them.
pub proof fn law_a_prompt_holds_every_loaded_skill(
    workdir: Seq<char>,
    agents_dir: Seq<char>,
    depth: u32,
    mode: Mode,
    scratch: Seq<char>,
    skills: Seq<SkillView>,
    forced: Seq<ForcedSkill>,
    global: Option<String>,
    project: Option<String>,
    i: int,
)
    requires
        0 <= i < forced.len(),
        forced[i].content is Some,
        named(skills, forced[i].name@) is Some,
    ensures
        ({
            let skill = named(skills, forced[i].name@)->0;
            holds_words(
                system_prompt(
                    workdir,
                    agents_dir,
                    depth,
                    mode,
                    scratch,
                    skills,
                    forced,
                    global,
                    project,
                ),
                "### "@ + skill.name + "\nDescription: "@ + description_or_none(skill) + "\n"@
                    + trimmed(forced[i].content->0@) + "\n\n"@,
            )
        }),
{
    let skill = named(skills, forced[i].name@)->0;
    let words = "### "@ + skill.name + "\nDescription: "@ + description_or_none(skill) + "\n"@
        + trimmed(forced[i].content->0@) + "\n\n"@;
    lemma_section_is_held(skills, forced, i);
    assert(forced_section(skills, forced[i])->0 + "\n\n"@ =~= words);
    lemma_holds_in_sum(FORCED_HEAD@, forced_sections(skills, forced), words);
    lemma_parts(workdir, agents_dir, depth, mode, scratch, skills, forced, global, project, words);
}

proof fn lemma_listing_is_held(skills: Seq<SkillView>, forced: Seq<ForcedSkill>, i: int)
    requires
        0 <= i < skills.len(),
        !is_forced(forced, skills[i].name),
    ensures
        holds_words(
            listed(skills, forced),
            "### "@ + skills[i].name + "\n"@ + "Description: "@ + description_or_none(skills[i])
                + "\n"@,
        ),
    decreases skills.len(),
{
    let rest = skills.drop_last();
    let before = listed(rest, forced);
    let words = "### "@ + skills[i].name + "\n"@ + "Description: "@ + description_or_none(skills[i])
        + "\n"@;
    if i == skills.len() - 1 {
        lemma_holds_itself(words);
        lemma_holds_in_sum(before, words, words);
        lemma_sum_of_seven(
            before,
            "### "@,
            skills[i].name,
            "\n"@,
            "Description: "@,
            description_or_none(skills[i]),
            "\n"@,
        );
    } else {
        assert(rest[i] == skills[i]);
        lemma_listing_is_held(rest, forced, i);
        let s = skills.last();
        let last = "### "@ + s.name + "\n"@ + "Description: "@ + description_or_none(s) + "\n"@;
        if !is_forced(forced, s.name) {
            lemma_holds_in_sum(before, last, words);
            lemma_sum_of_seven(
                before,
                "### "@,
                s.name,
                "\n"@,
                "Description: "@,
                description_or_none(s),
                "\n"@,
            );
        }
    }
}

/// Every other skill is listed by its name and description, and how to load it
/// is said.
pub proof fn law_a_prompt_lists_every_other_skill(
    workdir: Seq<char>,
    agents_dir: Seq<char>,
    depth: u32,
    mode: Mode,
    scratch: Seq<char>,
    skills: Seq<SkillView>,
    forced: Seq<ForcedSkill>,
    global: Option<String>,
    project: Option<String>,
    i: int,
)
    requires
        0 <= i < skills.len(),
        forall|k: int| 0 <= k < forced.len() ==> (#[trigger] forced[k]).name@ != skills[i].name,
    ensures
        ({
            let prompt = system_prompt(
                workdir,
                agents_dir,
                depth,
                mode,
                scratch,
                skills,
                forced,
                global,
                project,
            );
            &&& holds_words(
                prompt,
                "### "@ + skills[i].name + "\n"@ + "Description: "@ + description_or_none(skills[i])
                    + "\n"@,
            )
            &&& holds_words(
                prompt,
                "Global skills available from "@ + agents_dir + " (load on demand):\n"@,
            )
            &&& holds_words(prompt, LOAD_ON_DEMAND@)
        }),
{
    let head = "Global skills available from "@ + agents_dir + " (load on demand):\n"@;
    let words = "### "@ + skills[i].name + "\n"@ + "Description: "@ + description_or_none(skills[i])
        + "\n"@;
    let body = listed(skills, forced);
    assert(!is_forced(forced, skills[i].name));
    assert(any_listed(skills, forced));
    lemma_listing_is_held(skills, forced, i);
    lemma_holds_in_sum(head, body, words);
    lemma_holds_in_sum(head + body, LOAD_ON_DEMAND@, words);
    lemma_parts(workdir, agents_dir, depth, mode, scratch, skills, forced, global, project, words);
    lemma_holds_itself(head);
    lemma_holds_in_sum(head, body, head);
    lemma_holds_in_sum(head + body, LOAD_ON_DEMAND@, head);
    lemma_parts(workdir, agents_dir, depth, mode, scratch, skills, forced, global, project, head);
    let how = LOAD_ON_DEMAND@;
    lemma_holds_itself(how);
    lemma_holds_in_sum(head + body, how, how);
    lemma_parts(workdir, agents_dir, depth, mode, scratch, skills, forced, global, project, how);
}

/// A skill that the user loaded is not listed once more: the listing is the same
/// without it.
pub proof fn law_loaded_skills_are_not_listed(
    skills: Seq<SkillView>,
    forced: Seq<ForcedSkill>,
    skill: SkillView,
)
    requires
        exists|k: int| 0 <= k < forced.len() && (#[trigger] forced[k]).name@ == skill.name,
    ensures
        listed(skills.push(skill), forced) == listed(skills, forced),
{
    assert(skills.push(skill).drop_last() =~= skills);
}

/// Without files and skills a prompt is the plain one of its mode.
pub proof fn law_the_plain_prompt_of_a_mode(
    workdir: Seq<char>,
    agents_dir: Seq<char>,
    mode: Mode,
    scratch: Seq<char>,
)
    ensures
        ({
            let how = if mode == Mode::Build {
                BUILD_FRAMING@
            } else if mode == Mode::Plan {
                PLAN_HEAD@ + workdir + PLAN_BODY@ + scratch + PLAN_TAIL@
            } else {
                EXPLORE_HEAD@ + workdir + EXPLORE_BODY@ + scratch + EXPLORE_TAIL@
            };
            let rules = if mode == Mode::Build {
                BUILD_RULES@
            } else {
                OTHER_RULES_HEAD@ + scratch + OTHER_RULES_TAIL@
            };
            system_prompt(
                workdir,
                agents_dir,
                0,
                mode,
                scratch,
                Seq::empty(),
                Seq::empty(),
                None,
                None,
            ) == INTRO@ + how + ("Working directory: "@ + workdir + "\n"@) + ACCESS@ + COMPRESSION@
                + rules
        }),
{
    let how = framing(mode, workdir, scratch);
    let rules = usage_rules(mode, scratch);
    assert(system_prompt(
        workdir,
        agents_dir,
        0,
        mode,
        scratch,
        Seq::empty(),
        Seq::empty(),
        None,
        None,
    ) =~= INTRO@ + how + ("Working directory: "@ + workdir + "\n"@) + ACCESS@ + COMPRESSION@
        + rules);
}

/// The parts of a prompt follow each other in this order: the plain prompt of
/// the mode, the nesting of a subagent, the global instructions, the loaded
/// skills, the other skills, and the instructions of the project last.
pub proof fn law_the_parts_follow_in_order(
    workdir: Seq<char>,
    agents_dir: Seq<char>,
    depth: u32,
    mode: Mode,
    scratch: Seq<char>,
    skills: Seq<SkillView>,
    forced: Seq<ForcedSkill>,
    global: Option<String>,
    project: Option<String>,
)
    ensures
        ({
            let plain = system_prompt(
                workdir,
                agents_dir,
                0,
                mode,
                scratch,
                Seq::empty(),
                Seq::empty(),
                None,
                None,
            );
            let nested = if depth > 0 {
                SUBAGENT_HEAD@ + decimal(depth as nat) + SUBAGENT_TAIL@
            } else {
                Seq::empty()
            };
            let loaded = if any_forced(skills, forced) {
                FORCED_HEAD@ + forced_sections(skills, forced)
            } else {
                Seq::empty()
            };
            let others = if any_listed(skills, forced) {
                "Global skills available from "@ + agents_dir + " (load on demand):\n"@ + listed(
                    skills,
                    forced,
                ) + LOAD_ON_DEMAND@
            } else {
                Seq::empty()
            };
            system_prompt(
                workdir,
                agents_dir,
                depth,
                mode,
                scratch,
                skills,
                forced,
                global,
                project,
            ) == plain + nested + instructions("Global instructions from "@, agents_dir, global)
                + loaded + others + instructions("Project instructions from "@, workdir, project)
        }),
{
    law_the_plain_prompt_of_a_mode(workdir, agents_dir, mode, scratch);
}

/// The loaded skills stand one behind the other, in the order in which they were
/// loaded, and so do the listed ones.
pub proof fn law_skills_stand_in_their_order(
    skills: Seq<SkillView>,
    forced: Seq<ForcedSkill>,
    more: ForcedSkill,
    skill: SkillView,
)
    ensures
        more.content is Some && named(skills, more.name@) is Some ==> forced_sections(
            skills,
            forced.push(more),
        ) == forced_sections(skills, forced) + ("### "@ + named(skills, more.name@)->0.name
            + "\nDescription: "@ + description_or_none(named(skills, more.name@)->0) + "\n"@
            + trimmed(more.content->0@)) + "\n\n"@,
        more.content is None || named(skills, more.name@) is None ==> forced_sections(
            skills,
            forced.push(more),
        ) == forced_sections(skills, forced),
        (forall|k: int| 0 <= k < forced.len() ==> (#[trigger] forced[k]).name@ != skill.name)
            ==> listed(skills.push(skill), forced) == listed(skills, forced) + "### "@ + skill.name
            + "\n"@ + "Description: "@ + description_or_none(skill) + "\n"@,
        forced_sections(skills, Seq::empty()).len() == 0,
        listed(Seq::empty(), forced).len() == 0,
{
    assert(forced.push(more).drop_last() =~= forced);
    assert(skills.push(skill).drop_last() =~= skills);
}

} // verus!
