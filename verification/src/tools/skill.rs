//! `load_skill`: the full instructions of a skill, and the path of its folder.
use vstd::prelude::*;
use vstd::string::*;

use crate::skills::{find_skill, named, skills_view, Skill, SkillView};
use crate::text::{blank, cat2, cat4, is_blank};
use crate::tools::fs::result_text;

verus! {

/// What `load_skill` returns, given what reading the file of the skill gave.
pub open spec fn load_outcome(
    skills: Seq<SkillView>,
    name: Seq<char>,
    body: Result<Seq<char>, Seq<char>>,
) -> Result<Seq<char>, Seq<char>> {
    if blank(name) {
        Err("skill name must not be empty"@)
    } else {
        match named(skills, name) {
            None => Err("skill not found: "@ + name),
            Some(skill) => match body {
                Err(e) => Err("failed to read skill "@ + name + ": "@ + e),
                Ok(text) => Ok("Path: "@ + skill.path + "\n\n"@ + text),
            },
        }
    }
}

/// Loads a skill by name: the path of its folder, a blank line, and the text
/// of its `SKILL.md`, which `body` holds.
pub fn load_skill(skills: &Vec<Skill>, name: &str, body: &Result<String, String>) -> (r: Result<
    String,
    String,
>)
    ensures
        result_text(r) == load_outcome(skills_view(skills@), name@, result_text(*body)),
{
    if is_blank(name) {
        return Err("skill name must not be empty".to_owned());
    }
    match find_skill(skills, name) {
        Some(skill) => match body {
            Ok(text) => Ok(cat4("Path: ", skill.path.as_str(), "\n\n", text.as_str())),
            Err(e) => Err(cat4("failed to read skill ", name, ": ", e.as_str())),
        },
        None => Err(cat2("skill not found: ", name)),
    }
}

} // verus!
