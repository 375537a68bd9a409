//! Skills: user-defined capabilities read from `SKILL.toml` or `SKILL.md`, and the prompt
//! section that presents them to the model.
pub mod cli;
pub mod sources;

use std::collections::HashMap;
use vstd::prelude::*;
use crate::paths::{path_join, path_strip_prefix, spec_path_join, spec_path_strip_prefix};
use crate::text::{push_char, push_str};

verus! {

/// A skill: a named capability with its instructions and tools.
#[derive(Clone, Debug)]
pub struct Skill {
    pub name: String,
    pub description: String,
    pub version: String,
    pub author: Option<String>,
    pub tags: Vec<String>,
    pub tools: Vec<SkillTool>,
    pub prompts: Vec<String>,
    /// The file the skill was read from.
    pub location: Option<String>,
}

/// A tool a skill defines (a shell command, an HTTP call, a script).
#[derive(Clone, Debug)]
pub struct SkillTool {
    pub name: String,
    pub description: String,
    /// `shell`, `http` or `script`.
    pub kind: String,
    /// The command, URL or script to run.
    pub command: String,
    pub args: HashMap<String, String>,
}

/// The skills currently loaded, and whether they changed since the prompt was last built.
#[derive(Clone, Debug)]
pub struct SkillsState {
    pub skills: Vec<Skill>,
    pub dirty: bool,
}

impl SkillsState {
    /// No skills, and nothing changed.
    pub fn new() -> (s: Self)
        ensures
            s.skills@.len() == 0,
            !s.dirty,
    {
        SkillsState { skills: Vec::new(), dirty: false }
    }
}

impl Default for SkillsState {
    fn default() -> (s: Self)
        ensures
            s.skills@.len() == 0,
            !s.dirty,
    {
        SkillsState::new()
    }
}

/// Replaces the loaded skills with a fresh load and clears the changed flag.
pub fn reload_skills(state: &mut SkillsState, loaded: Vec<Skill>)
    ensures
        final(state).skills@ == loaded@,
        !final(state).dirty,
{
    state.skills = loaded;
    state.dirty = false;
}

/// How much of each skill the prompt carries.
#[derive(PartialEq, Eq, Structural, Clone, Copy, Debug)]
pub enum SkillsPromptInjectionMode {
    /// Instructions and tools are included.
    Full,
    /// Only name, description and location; the model reads the file when it needs it.
    Compact,
}

/// The XML escape of one character.
pub open spec fn xml_escape(c: char) -> Seq<char> {
    if c == '&' {
        "&amp;"@
    } else if c == '<' {
        "&lt;"@
    } else if c == '>' {
        "&gt;"@
    } else if c == '"' {
        "&quot;"@
    } else if c == '\'' {
        "&apos;"@
    } else {
        seq![c]
    }
}

/// The XML escape of a string.
pub open spec fn xml_escape_all(s: Seq<char>) -> Seq<char>
    decreases s.len(),
{
    if s.len() == 0 {
        Seq::empty()
    } else {
        xml_escape_all(s.drop_last()) + xml_escape(s.last())
    }
}

/// Appends `text` with `&`, `<`, `>`, `"` and `'` escaped as XML entities.
pub fn append_xml_escaped(out: &mut String, text: &str)
    ensures
        final(out)@ == old(out)@ + xml_escape_all(text@),
{
    let v = crate::text::chars_of(text);
    let mut i: usize = 0;
    while i < v.len()
        invariant
            i <= v.len(),
            out@ == old(out)@ + xml_escape_all(v@.take(i as int)),
        decreases v.len() - i,
    {
        let ghost before = out@;
        let c = v[i];
        if c == '&' {
            push_str(out, "&amp;");
        } else if c == '<' {
            push_str(out, "&lt;");
        } else if c == '>' {
            push_str(out, "&gt;");
        } else if c == '"' {
            push_str(out, "&quot;");
        } else if c == '\'' {
            push_str(out, "&apos;");
        } else {
            push_char(out, c);
        }
        proof {
            assert(v@.take(i + 1).drop_last() =~= v@.take(i as int));
            assert(v@.take(i + 1).last() == c);
            assert(out@ =~= before + xml_escape(c));
        }
        i = i + 1;
    }
    assert(v@.take(v@.len() as int) =~= v@);
}

/// `n` spaces.
pub open spec fn spaces(n: nat) -> Seq<char> {
    Seq::new(n, |k: int| ' ')
}

/// One indented XML element holding escaped text, ending in a newline.
pub open spec fn xml_element(indent: nat, tag: Seq<char>, value: Seq<char>) -> Seq<char> {
    spaces(indent) + "<"@ + tag + ">"@ + xml_escape_all(value) + "</"@ + tag + ">\n"@
}

/// Appends `<tag>value</tag>` on a line of its own, indented by `indent` spaces.
pub fn write_xml_text_element(out: &mut String, indent: usize, tag: &str, value: &str)
    ensures
        final(out)@ == old(out)@ + xml_element(indent as nat, tag@, value@),
{
    let mut k: usize = 0;
    while k < indent
        invariant
            k <= indent,
            out@ == old(out)@ + spaces(k as nat),
        decreases indent - k,
    {
        push_char(out, ' ');
        assert(spaces((k + 1) as nat) =~= spaces(k as nat).push(' '));
        k = k + 1;
    }
    let ghost start = out@;
    push_char(out, '<');
    push_str(out, tag);
    push_char(out, '>');
    append_xml_escaped(out, value);
    push_str(out, "</");
    push_str(out, tag);
    push_str(out, ">\n");
    proof {
        reveal_strlit("<");
        reveal_strlit(">");
        assert(out@ =~= old(out)@ + xml_element(indent as nat, tag@, value@));
    }
}

/// The file a skill is presented at: where it was read from, else
/// `<workspace>/skills/<name>/SKILL.md`.
pub open spec fn skill_location(skill: Skill, workspace_dir: Seq<char>) -> Seq<char> {
    match skill.location {
        Some(l) => l@,
        None => spec_path_join(
            spec_path_join(spec_path_join(workspace_dir, "skills"@), skill.name@),
            "SKILL.md"@,
        ),
    }
}

/// The location as the prompt shows it: relative to the workspace when asked for and possible.
pub open spec fn rendered_location(skill: Skill, workspace_dir: Seq<char>, prefer_relative: bool) -> Seq<
    char,
> {
    let loc = skill_location(skill, workspace_dir);
    if prefer_relative {
        match spec_path_strip_prefix(loc, workspace_dir) {
            Some(rel) => rel,
            None => loc,
        }
    } else {
        loc
    }
}

/// The file a skill is presented at.
pub fn resolve_skill_location(skill: &Skill, workspace_dir: &str) -> (r: String)
    ensures
        r@ == skill_location(*skill, workspace_dir@),
{
    match &skill.location {
        Some(l) => l.clone(),
        None => {
            let a = path_join(workspace_dir, "skills");
            let b = path_join(a.as_str(), skill.name.as_str());
            path_join(b.as_str(), "SKILL.md")
        },
    }
}

/// The location of a skill as the prompt shows it.
pub fn render_skill_location(skill: &Skill, workspace_dir: &str, prefer_relative: bool) -> (r:
    String)
    ensures
        r@ == rendered_location(*skill, workspace_dir@, prefer_relative),
{
    let location = resolve_skill_location(skill, workspace_dir);
    if prefer_relative {
        if let Some(relative) = path_strip_prefix(location.as_str(), workspace_dir) {
            return relative;
        }
    }
    location
}

/// The opening of the skills section for a mode.
pub open spec fn prompt_header(mode: SkillsPromptInjectionMode) -> Seq<char> {
    match mode {
        SkillsPromptInjectionMode::Full => "## Available Skills\n\nSkill instructions and tool metadata are preloaded below.\nFollow these instructions directly; do not read skill files at runtime unless the user asks.\n\n<available_skills>\n"@,
        SkillsPromptInjectionMode::Compact => "## Available Skills\n\nSkill summaries are preloaded below to keep context compact.\nSkill instructions are loaded on demand: read the skill file in `location` only when needed.\n\n<available_skills>\n"@,
    }
}

/// The `<instruction>` elements of a skill's prompts.
pub open spec fn instruction_elements(ps: Seq<String>) -> Seq<char>
    decreases ps.len(),
{
    if ps.len() == 0 {
        Seq::empty()
    } else {
        instruction_elements(ps.drop_last()) + xml_element(6, "instruction"@, ps.last()@)
    }
}

/// One `<tool>` element.
pub open spec fn tool_element(t: SkillTool) -> Seq<char> {
    "      <tool>\n"@ + xml_element(8, "name"@, t.name@) + xml_element(
        8,
        "description"@,
        t.description@,
    ) + xml_element(8, "kind"@, t.kind@) + "      </tool>\n"@
}

/// The `<tool>` elements of a skill's tools.
pub open spec fn tool_elements(ts: Seq<SkillTool>) -> Seq<char>
    decreases ts.len(),
{
    if ts.len() == 0 {
        Seq::empty()
    } else {
        tool_elements(ts.drop_last()) + tool_element(ts.last())
    }
}

/// The instructions and tools of a skill, as the full mode shows them.
pub open spec fn skill_details(skill: Skill) -> Seq<char> {
    (if skill.prompts@.len() == 0 {
        Seq::empty()
    } else {
        "    <instructions>\n"@ + instruction_elements(skill.prompts@) + "    </instructions>\n"@
    }) + (if skill.tools@.len() == 0 {
        Seq::empty()
    } else {
        "    <tools>\n"@ + tool_elements(skill.tools@) + "    </tools>\n"@
    })
}

/// The `<skill>` element of one skill.
pub open spec fn skill_element(
    skill: Skill,
    workspace_dir: Seq<char>,
    mode: SkillsPromptInjectionMode,
) -> Seq<char> {
    "  <skill>\n"@ + xml_element(4, "name"@, skill.name@) + xml_element(
        4,
        "description"@,
        skill.description@,
    ) + xml_element(
        4,
        "location"@,
        rendered_location(skill, workspace_dir, mode == SkillsPromptInjectionMode::Compact),
    ) + (if mode == SkillsPromptInjectionMode::Full {
        skill_details(skill)
    } else {
        Seq::empty()
    }) + "  </skill>\n"@
}

/// The `<skill>` elements of all skills, in order.
pub open spec fn skill_elements(
    skills: Seq<Skill>,
    workspace_dir: Seq<char>,
    mode: SkillsPromptInjectionMode,
) -> Seq<char>
    decreases skills.len(),
{
    if skills.len() == 0 {
        Seq::empty()
    } else {
        skill_elements(skills.drop_last(), workspace_dir, mode) + skill_element(
            skills.last(),
            workspace_dir,
            mode,
        )
    }
}

/// The skills section of the system prompt: empty without skills.
pub open spec fn skills_prompt(
    skills: Seq<Skill>,
    workspace_dir: Seq<char>,
    mode: SkillsPromptInjectionMode,
) -> Seq<char> {
    if skills.len() == 0 {
        Seq::empty()
    } else {
        prompt_header(mode) + skill_elements(skills, workspace_dir, mode) + "</available_skills>"@
    }
}

/// Whether `p` occurs in `s` as a contiguous piece.
pub open spec fn has_infix(s: Seq<char>, p: Seq<char>) -> bool {
    exists|i: int| 0 <= i && i + p.len() <= s.len() && #[trigger] s.subrange(i, i + p.len()) == p
}

/// A piece occurs in any text that has it between two others.
pub proof fn lemma_infix_concat(a: Seq<char>, p: Seq<char>, b: Seq<char>)
    ensures
        has_infix(a + p + b, p),
{
    let s = a + p + b;
    assert(s.subrange(a.len() as int, (a.len() + p.len()) as int) =~= p);
}

/// A piece of a piece of `s` is a piece of `s`.
pub proof fn lemma_infix_trans(s: Seq<char>, q: Seq<char>, p: Seq<char>)
    requires
        has_infix(s, q),
        has_infix(q, p),
    ensures
        has_infix(s, p),
{
    let i = choose|i: int| 0 <= i && i + q.len() <= s.len() && #[trigger] s.subrange(i, i + q.len()) == q;
    let j = choose|j: int| 0 <= j && j + p.len() <= q.len() && #[trigger] q.subrange(j, j + p.len()) == p;
    assert(s.subrange(i + j, i + j + p.len()) =~= q.subrange(j, j + p.len()));
}

proof fn lemma_tool_in_elements(ts: Seq<SkillTool>, j: int)
    requires
        0 <= j < ts.len(),
    ensures
        has_infix(tool_elements(ts), tool_element(ts[j])),
    decreases ts.len(),
{
    let front = tool_elements(ts.drop_last());
    assert(tool_elements(ts) == front + tool_element(ts.last()));
    if j == ts.len() - 1 {
        lemma_infix_concat(front, tool_element(ts.last()), Seq::empty());
        assert(front + tool_element(ts.last()) + Seq::<char>::empty() =~= tool_elements(ts));
    } else {
        lemma_tool_in_elements(ts.drop_last(), j);
        assert(ts.drop_last()[j] == ts[j]);
        lemma_infix_concat(Seq::empty(), front, tool_element(ts.last()));
        assert(Seq::<char>::empty() + front + tool_element(ts.last()) =~= tool_elements(ts));
        lemma_infix_trans(tool_elements(ts), front, tool_element(ts[j]));
    }
}

proof fn lemma_skill_in_elements(
    skills: Seq<Skill>,
    workspace_dir: Seq<char>,
    mode: SkillsPromptInjectionMode,
    i: int,
)
    requires
        0 <= i < skills.len(),
    ensures
        has_infix(
            skill_elements(skills, workspace_dir, mode),
            skill_element(skills[i], workspace_dir, mode),
        ),
    decreases skills.len(),
{
    let front = skill_elements(skills.drop_last(), workspace_dir, mode);
    let last = skill_element(skills.last(), workspace_dir, mode);
    assert(skill_elements(skills, workspace_dir, mode) == front + last);
    if i == skills.len() - 1 {
        lemma_infix_concat(front, last, Seq::empty());
        assert(front + last + Seq::<char>::empty() =~= front + last);
    } else {
        lemma_skill_in_elements(skills.drop_last(), workspace_dir, mode, i);
        assert(skills.drop_last()[i] == skills[i]);
        lemma_infix_concat(Seq::empty(), front, last);
        assert(Seq::<char>::empty() + front + last =~= front + last);
        lemma_infix_trans(front + last, front, skill_element(skills[i], workspace_dir, mode));
    }
}

/// In the full prompt, every skill that defines tools carries a `<tools>` element holding
/// its tools' `<tool>` elements, each with the tool's name, description and kind, whether or
/// not the skill also has instructions.
pub proof fn law_full_prompt_lists_every_tool(
    skills: Seq<Skill>,
    workspace_dir: Seq<char>,
    i: int,
    j: int,
)
    requires
        0 <= i < skills.len(),
        0 <= j < skills[i].tools@.len(),
    ensures
        has_infix(
            skills_prompt(skills, workspace_dir, SkillsPromptInjectionMode::Full),
            "    <tools>\n"@ + tool_elements(skills[i].tools@) + "    </tools>\n"@,
        ),
        has_infix(
            skills_prompt(skills, workspace_dir, SkillsPromptInjectionMode::Full),
            "      <tool>\n"@ + xml_element(8, "name"@, skills[i].tools@[j].name@) + xml_element(
                8,
                "description"@,
                skills[i].tools@[j].description@,
            ) + xml_element(8, "kind"@, skills[i].tools@[j].kind@) + "      </tool>\n"@,
        ),
{
    let mode = SkillsPromptInjectionMode::Full;
    let skill = skills[i];
    let prompt = skills_prompt(skills, workspace_dir, mode);
    let elements = skill_elements(skills, workspace_dir, mode);
    let element = skill_element(skill, workspace_dir, mode);
    let details = skill_details(skill);
    let te = tool_elements(skill.tools@);
    let block = "    <tools>\n"@ + te + "    </tools>\n"@;
    // the prompt holds the skill elements
    lemma_infix_concat(prompt_header(mode), elements, "</available_skills>"@);
    // the skill elements hold this skill's element
    lemma_skill_in_elements(skills, workspace_dir, mode, i);
    lemma_infix_trans(prompt, elements, element);
    // the skill's element holds its details
    let head = "  <skill>\n"@ + xml_element(4, "name"@, skill.name@) + xml_element(
        4,
        "description"@,
        skill.description@,
    ) + xml_element(
        4,
        "location"@,
        rendered_location(skill, workspace_dir, mode == SkillsPromptInjectionMode::Compact),
    );
    assert(element == head + details + "  </skill>\n"@);
    lemma_infix_concat(head, details, "  </skill>\n"@);
    lemma_infix_trans(prompt, element, details);
    // the details hold the tools block
    let instr = if skill.prompts@.len() == 0 {
        Seq::<char>::empty()
    } else {
        "    <instructions>\n"@ + instruction_elements(skill.prompts@) + "    </instructions>\n"@
    };
    assert(details == instr + block);
    lemma_infix_concat(instr, block, Seq::empty());
    assert(instr + block + Seq::<char>::empty() =~= instr + block);
    lemma_infix_trans(prompt, details, block);
    // the block holds each tool's element
    lemma_infix_concat("    <tools>\n"@, te, "    </tools>\n"@);
    lemma_tool_in_elements(skill.tools@, j);
    lemma_infix_trans(block, te, tool_element(skill.tools@[j]));
    lemma_infix_trans(prompt, block, tool_element(skill.tools@[j]));
}

/// Appends the `<instructions>` and `<tools>` parts of a skill.
fn push_skill_details(out: &mut String, skill: &Skill)
    ensures
        final(out)@ == old(out)@ + skill_details(*skill),
{
    let ghost start = out@;
    if skill.prompts.len() > 0 {
        push_str(out, "    <instructions>\n");
        let ghost mid = out@;
        let mut i: usize = 0;
        assert(skill.prompts@.take(0) =~= Seq::<String>::empty());
        while i < skill.prompts.len()
            invariant
                i <= skill.prompts.len(),
                out@ == mid + instruction_elements(skill.prompts@.take(i as int)),
            decreases skill.prompts.len() - i,
        {
            write_xml_text_element(out, 6, "instruction", skill.prompts[i].as_str());
            assert(skill.prompts@.take(i + 1).drop_last() =~= skill.prompts@.take(i as int));
            i = i + 1;
        }
        assert(skill.prompts@.take(skill.prompts@.len() as int) =~= skill.prompts@);
        push_str(out, "    </instructions>\n");
    }
    let ghost after_prompts = out@;
    assert(after_prompts == start + (if skill.prompts@.len() == 0 {
        Seq::<char>::empty()
    } else {
        "    <instructions>\n"@ + instruction_elements(skill.prompts@) + "    </instructions>\n"@
    }));
    if skill.tools.len() > 0 {
        push_str(out, "    <tools>\n");
        let ghost mid = out@;
        let mut i: usize = 0;
        assert(skill.tools@.take(0) =~= Seq::<SkillTool>::empty());
        while i < skill.tools.len()
            invariant
                i <= skill.tools.len(),
                out@ == mid + tool_elements(skill.tools@.take(i as int)),
            decreases skill.tools.len() - i,
        {
            let t = &skill.tools[i];
            let ghost before = out@;
            push_str(out, "      <tool>\n");
            write_xml_text_element(out, 8, "name", t.name.as_str());
            write_xml_text_element(out, 8, "description", t.description.as_str());
            write_xml_text_element(out, 8, "kind", t.kind.as_str());
            push_str(out, "      </tool>\n");
            assert(out@ =~= before + tool_element(*t));
            assert(skill.tools@.take(i + 1).drop_last() =~= skill.tools@.take(i as int));
            i = i + 1;
        }
        assert(skill.tools@.take(skill.tools@.len() as int) =~= skill.tools@);
        push_str(out, "    </tools>\n");
    }
    assert(out@ =~= start + skill_details(*skill));
}

/// Appends the `<skill>` element of one skill.
fn push_skill_element(
    out: &mut String,
    skill: &Skill,
    workspace_dir: &str,
    mode: SkillsPromptInjectionMode,
)
    ensures
        final(out)@ == old(out)@ + skill_element(*skill, workspace_dir@, mode),
{
    push_str(out, "  <skill>\n");
    write_xml_text_element(out, 4, "name", skill.name.as_str());
    write_xml_text_element(out, 4, "description", skill.description.as_str());
    let compact = match mode {
        SkillsPromptInjectionMode::Compact => true,
        SkillsPromptInjectionMode::Full => false,
    };
    let location = render_skill_location(skill, workspace_dir, compact);
    write_xml_text_element(out, 4, "location", location.as_str());
    let ghost mid = out@;
    match mode {
        SkillsPromptInjectionMode::Full => push_skill_details(out, skill),
        SkillsPromptInjectionMode::Compact => {},
    }
    push_str(out, "  </skill>\n");
    assert(out@ =~= old(out)@ + skill_element(*skill, workspace_dir@, mode));
}

/// The skills section of the system prompt with instructions and tools.
pub fn skills_to_prompt(skills: &[Skill], workspace_dir: &str) -> (r: String)
    ensures
        r@ == skills_prompt(skills@, workspace_dir@, SkillsPromptInjectionMode::Full),
{
    skills_to_prompt_with_mode(skills, workspace_dir, SkillsPromptInjectionMode::Full)
}

/// The skills section of the system prompt in the given mode: a header, one `<skill>`
/// element per skill in order, and the closing tag; empty when there are no skills.
pub fn skills_to_prompt_with_mode(
    skills: &[Skill],
    workspace_dir: &str,
    mode: SkillsPromptInjectionMode,
) -> (r: String)
    ensures
        r@ == skills_prompt(skills@, workspace_dir@, mode),
{
    if skills.len() == 0 {
        return String::new();
    }
    let mut prompt = String::new();
    match mode {
        SkillsPromptInjectionMode::Full => push_str(
            &mut prompt,
            "## Available Skills\n\nSkill instructions and tool metadata are preloaded below.\nFollow these instructions directly; do not read skill files at runtime unless the user asks.\n\n<available_skills>\n",
        ),
        SkillsPromptInjectionMode::Compact => push_str(
            &mut prompt,
            "## Available Skills\n\nSkill summaries are preloaded below to keep context compact.\nSkill instructions are loaded on demand: read the skill file in `location` only when needed.\n\n<available_skills>\n",
        ),
    }
    let ghost head = prompt@;
    assert(head == prompt_header(mode));
    let mut i: usize = 0;
    assert(skills@.take(0) =~= Seq::<Skill>::empty());
    while i < skills.len()
        invariant
            i <= skills@.len(),
            prompt@ == head + skill_elements(skills@.take(i as int), workspace_dir@, mode),
        decreases skills.len() - i,
    {
        push_skill_element(&mut prompt, &skills[i], workspace_dir, mode);
        assert(skills@.take(i + 1).drop_last() =~= skills@.take(i as int));
        i = i + 1;
    }
    assert(skills@.take(skills@.len() as int) =~= skills@);
    push_str(&mut prompt, "</available_skills>");
    prompt
}

/// The directory that holds the workspace's skills.
pub fn skills_dir(workspace_dir: &str) -> (r: String)
    ensures
        r@ == spec_path_join(workspace_dir@, "skills"@),
{
    path_join(workspace_dir, "skills")
}

} // verus!
