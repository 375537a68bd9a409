//! The `skills` subcommands: which step each one takes, which directory an audit looks at,
//! when a removal is refused, and the detail lines of the installed-skills listing.
use vstd::prelude::*;
use crate::hooks::audit::{join, push_joined};
use crate::multimodal::views;
use crate::paths::{path_join, path_strip_prefix, spec_path_join, spec_path_strip_prefix};
use crate::skills::sources::{git_source, is_git_source};
use crate::skills::Skill;
use crate::text::{chars_of, push_str};
use crate::tools::hook_write::{has_traversal, traversal};

verus! {

/// The `skills` subcommands.
pub enum SkillCommands {
    List,
    Audit { source: String },
    Install { source: String },
    Remove { name: String },
}

/// What a subcommand does next.
pub enum SkillsCliPlan {
    /// Print the installed skills.
    List,
    /// Audit the skill source or installed skill `source`.
    Audit { source: String },
    /// Clone the git repository `source` into the skills directory.
    InstallGit { source: String },
    /// Copy the local directory `source` into the skills directory.
    InstallLocal { source: String },
    /// Remove the installed skill `name`.
    Remove { name: String },
    /// The command is refused with this message.
    Refused(String),
}

/// Chooses the step of a `skills` subcommand: an install goes by git when the source looks
/// like a git remote; a removal of a name with `..`, `/` or `\` is refused.
pub fn handle_skills_command(command: SkillCommands) -> (r: SkillsCliPlan)
    ensures
        match command {
            SkillCommands::List => r is List,
            SkillCommands::Audit { source } => r matches SkillsCliPlan::Audit { source: s } && s@
                == source@,
            SkillCommands::Install { source } => if git_source(source@) {
                r matches SkillsCliPlan::InstallGit { source: s } && s@ == source@
            } else {
                r matches SkillsCliPlan::InstallLocal { source: s } && s@ == source@
            },
            SkillCommands::Remove { name } => if has_traversal(name@) {
                r matches SkillsCliPlan::Refused(m) && m@ == "Invalid skill name: "@ + name@
            } else {
                r matches SkillsCliPlan::Remove { name: n } && n@ == name@
            },
        },
{
    match command {
        SkillCommands::List => SkillsCliPlan::List,
        SkillCommands::Audit { source } => SkillsCliPlan::Audit { source },
        SkillCommands::Install { source } => if is_git_source(source.as_str()) {
            SkillsCliPlan::InstallGit { source }
        } else {
            SkillsCliPlan::InstallLocal { source }
        },
        SkillCommands::Remove { name } => {
            let v = chars_of(name.as_str());
            if traversal(&v) {
                let mut m = String::new();
                push_str(&mut m, "Invalid skill name: ");
                push_str(&mut m, name.as_str());
                SkillsCliPlan::Refused(m)
            } else {
                SkillsCliPlan::Remove { name }
            }
        },
    }
}

/// The directory an audit looks at: the source itself where it exists, else the installed
/// skill of that name in `skills_dir`.
pub fn skill_audit_target(source: &str, source_exists: bool, skills_dir: &str) -> (r: String)
    ensures
        r@ == if source_exists {
            source@
        } else {
            spec_path_join(skills_dir@, source@)
        },
{
    if source_exists {
        source.to_string()
    } else {
        path_join(skills_dir, source)
    }
}

/// Refuses to remove a skill whose resolved path (`canonical_skill`, where it resolves) lies
/// outside the resolved skills directory.
pub fn skill_remove_escape(canonical_skill: Option<&str>, canonical_skills: &str, name: &str) -> (r:
    Option<String>)
    ensures
        match canonical_skill {
            Some(c) => if spec_path_strip_prefix(c@, canonical_skills@) is Some {
                r is None
            } else {
                r matches Some(m) && m@ == "Skill path escapes skills directory: "@ + name@
            },
            None => r is None,
        },
{
    match canonical_skill {
        Some(c) => match path_strip_prefix(c, canonical_skills) {
            Some(_) => None,
            None => {
                let mut m = String::new();
                push_str(&mut m, "Skill path escapes skills directory: ");
                push_str(&mut m, name);
                Some(m)
            },
        },
        None => None,
    }
}

/// The names of a skill's tools.
pub open spec fn tool_names(s: Skill) -> Seq<Seq<char>> {
    s.tools@.map_values(|t: crate::skills::SkillTool| t.name@)
}

/// The lines under a skill in the listing: its tools, where it has some, then its tags,
/// where it has some.
pub fn skill_detail_lines(skill: &Skill) -> (r: Vec<String>)
    ensures
        views(r@) == (if skill.tools@.len() > 0 {
            seq!["    Tools: "@ + join(tool_names(*skill), ", "@)]
        } else {
            Seq::empty()
        }) + (if skill.tags@.len() > 0 {
            seq!["    Tags:  "@ + join(views(skill.tags@), ", "@)]
        } else {
            Seq::empty()
        }),
{
    let mut out: Vec<String> = Vec::new();
    if skill.tools.len() > 0 {
        let mut names: Vec<String> = Vec::new();
        let mut i: usize = 0;
        while i < skill.tools.len()
            invariant
                i <= skill.tools.len(),
                views(names@) == tool_names(*skill).take(i as int),
            decreases skill.tools.len() - i,
        {
            let ghost before = views(names@);
            names.push(skill.tools[i].name.clone());
            assert(views(names@) =~= before.push(tool_names(*skill)[i as int]));
            assert(tool_names(*skill).take(i + 1) =~= tool_names(*skill).take(i as int).push(
                tool_names(*skill)[i as int],
            ));
            i = i + 1;
        }
        assert(tool_names(*skill).take(skill.tools@.len() as int) =~= tool_names(*skill));
        let mut line = String::new();
        push_str(&mut line, "    Tools: ");
        push_joined(&mut line, &names, ", ");
        out.push(line);
    }
    if skill.tags.len() > 0 {
        let mut line = String::new();
        push_str(&mut line, "    Tags:  ");
        push_joined(&mut line, &skill.tags, ", ");
        let ghost before = views(out@);
        out.push(line);
        assert(views(out@) =~= before.push("    Tags:  "@ + join(views(skill.tags@), ", "@)));
    }
    assert(views(out@) =~= (if skill.tools@.len() > 0 {
        seq!["    Tools: "@ + join(tool_names(*skill), ", "@)]
    } else {
        Seq::empty()
    }) + (if skill.tags@.len() > 0 {
        seq!["    Tags:  "@ + join(views(skill.tags@), ", "@)]
    } else {
        Seq::empty()
    }));
    out
}

} // verus!
