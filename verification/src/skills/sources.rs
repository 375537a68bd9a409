//! Where skills come from: their manifests and markdown files, the community repository's
//! settings, and install sources.
use vstd::prelude::*;
use crate::docs_sync::{split_lines, vslice, vviews};
use crate::paths::{path_join, spec_path_join};
use crate::skills::{Skill, SkillTool};
use crate::text::{
    chars_of, contains_sub, find_char, find_char_from, find_sub_from, lemma_find_char_bounds,
    lines, lower_all, lower_range, range_eq, starts_with, string_of_range, trim, trim_range,
};

verus! {

/// The version a manifest gets when it names none.
pub fn default_version() -> (r: String)
    ensures
        r@ == "0.1.0"@,
{
    "0.1.0".to_owned()
}

/// The `[skill]` table of a `SKILL.toml`.
pub struct SkillMeta {
    pub name: String,
    pub description: String,
    pub version: String,
    pub author: Option<String>,
    pub tags: Vec<String>,
}

/// A parsed `SKILL.toml`.
pub struct SkillManifest {
    pub skill: SkillMeta,
    pub tools: Vec<SkillTool>,
    pub prompts: Vec<String>,
}

/// The skill a `SKILL.toml` at `location` describes.
pub fn skill_from_manifest(manifest: SkillManifest, location: String) -> (r: Skill)
    ensures
        r.name == manifest.skill.name,
        r.description == manifest.skill.description,
        r.version == manifest.skill.version,
        r.author == manifest.skill.author,
        r.tags == manifest.skill.tags,
        r.tools == manifest.tools,
        r.prompts == manifest.prompts,
        r.location == Some(location),
{
    Skill {
        name: manifest.skill.name,
        description: manifest.skill.description,
        version: manifest.skill.version,
        author: manifest.skill.author,
        tags: manifest.skill.tags,
        tools: manifest.tools,
        prompts: manifest.prompts,
        location: Some(location),
    }
}

/// The first line that is neither a heading (`#`) nor blank.
pub open spec fn first_text_line(ls: Seq<Seq<char>>) -> Option<Seq<char>>
    decreases ls.len(),
{
    if ls.len() == 0 {
        None
    } else if !starts_with(ls[0], "#"@) && trim(ls[0]).len() != 0 {
        Some(ls[0])
    } else {
        first_text_line(ls.drop_first())
    }
}

/// The description of a markdown skill: its first non-heading, non-blank line, trimmed.
pub open spec fn description_of(content: Seq<char>) -> Seq<char> {
    match first_text_line(lines(content)) {
        Some(l) => trim(l),
        None => "No description"@,
    }
}

/// The description of a markdown skill: its first line that is neither a heading nor
/// blank, trimmed, or `No description`.
pub fn extract_description(content: &str) -> (r: String)
    ensures
        r@ == description_of(content@),
{
    let v = chars_of(content);
    let ls = split_lines(&v);
    let mut i: usize = 0;
    assert(vviews(ls@).skip(0) =~= vviews(ls@));
    while i < ls.len()
        invariant
            i <= ls.len(),
            vviews(ls@) == lines(content@),
            first_text_line(lines(content@)) == first_text_line(vviews(ls@).skip(i as int)),
        decreases ls.len() - i,
    {
        let line = &ls[i];
        let heading = line.len() > 0 && line[0] == '#';
        let (a, b) = trim_range(line, 0, line.len());
        assert(line@.subrange(0, line@.len() as int) =~= line@);
        assert(vviews(ls@).skip(i as int)[0] == line@);
        proof {
            reveal_strlit("#");
            assert("#"@ =~= seq!['#']);
            if line@.len() > 0 {
                if line@[0] == '#' {
                    assert(line@.subrange(0, 1) =~= "#"@);
                } else {
                    assert(line@.subrange(0, 1)[0] != "#"@[0]);
                }
            }
            assert(starts_with(line@, "#"@) == heading);
            assert(trim(line@).len() == b - a);
            assert(vviews(ls@).skip(i as int).len() > 0);
        }
        if !heading && a < b {
            return string_of_range(line, a, b);
        }
        assert(vviews(ls@).skip(i as int).drop_first() =~= vviews(ls@).skip(i + 1));
        i = i + 1;
    }
    "No description".to_owned()
}

/// A `SKILL.md` skill: named after its directory (`unknown` when the name is not UTF-8),
/// described by its first text line, with the whole file as its one prompt.
pub fn skill_from_markdown(content: String, dir_name: Option<&str>, location: String) -> (r: Skill)
    ensures
        r.name@ == (match dir_name {
            Some(n) => n@,
            None => "unknown"@,
        }),
        r.description@ == description_of(content@),
        r.version@ == "0.1.0"@,
        r.author is None,
        r.tags@.len() == 0,
        r.tools@.len() == 0,
        r.prompts@.len() == 1 && r.prompts@[0]@ == content@,
        r.location == Some(location),
{
    let name = match dir_name {
        Some(n) => n.to_owned(),
        None => "unknown".to_owned(),
    };
    let description = extract_description(content.as_str());
    Skill {
        name,
        description,
        version: "0.1.0".to_owned(),
        author: None,
        tags: Vec::new(),
        tools: Vec::new(),
        prompts: vec![content],
        location: Some(location),
    }
}

/// The position of the last `c` in `s`.
pub open spec fn rfind_char(s: Seq<char>, c: char) -> Option<int>
    decreases s.len(),
{
    if s.len() == 0 {
        None
    } else if s.last() == c {
        Some(s.len() - 1)
    } else {
        rfind_char(s.drop_last(), c)
    }
}

/// The extension of a file name, as `Path::extension` gives it: the text after the last
/// dot, unless there is none, the dot is the first character, or the name is `..`.
pub open spec fn file_extension(name: Seq<char>) -> Option<Seq<char>> {
    if name == ".."@ {
        None
    } else {
        match rfind_char(name, '.') {
            None => None,
            Some(i) => if i == 0 {
                None
            } else {
                Some(name.skip(i + 1))
            },
        }
    }
}

/// The stem of a file name, as `Path::file_stem` gives it: the text before the last dot,
/// or the whole name where there is no extension.
pub open spec fn file_stem(name: Seq<char>) -> Seq<char> {
    if name == ".."@ {
        name
    } else {
        match rfind_char(name, '.') {
            None => name,
            Some(i) => if i == 0 {
                name
            } else {
                name.take(i)
            },
        }
    }
}

/// Finds the last `c` in `v`.
fn rfind_char_exec(v: &Vec<char>, c: char) -> (r: Option<usize>)
    ensures
        match r {
            Some(i) => rfind_char(v@, c) == Some(i as int) && i < v@.len(),
            None => rfind_char(v@, c) is None,
        },
{
    let mut i: usize = v.len();
    assert(v@.take(i as int) =~= v@);
    while i > 0
        invariant
            i <= v.len(),
            rfind_char(v@, c) == rfind_char(v@.take(i as int), c),
        decreases i,
    {
        if v[i - 1] == c {
            return Some(i - 1);
        }
        assert(v@.take(i as int).drop_last() =~= v@.take(i - 1));
        i = i - 1;
    }
    None
}

/// Whether a file of the community repository is loaded as a skill: a markdown file (any
/// case of `md`) other than `README.md` (any case).
pub open spec fn open_skill_candidate(file_name: Seq<char>) -> bool {
    &&& (match file_extension(file_name) {
        Some(e) => lower_all(e) == "md"@,
        None => false,
    })
    &&& lower_all(file_name) != "readme.md"@
}

/// Whether a file of the community repository is loaded as a skill.
pub fn is_open_skill_markdown(file_name: &str) -> (r: bool)
    ensures
        r == open_skill_candidate(file_name@),
{
    let v = chars_of(file_name);
    assert(v@.subrange(0, v@.len() as int) =~= v@);
    if range_eq(&v, 0, v.len(), "..") {
        return false;
    }
    let ext_md = match rfind_char_exec(&v, '.') {
        None => false,
        Some(i) => if i == 0 {
            false
        } else {
            let low = lower_range(&v, i + 1, v.len());
            assert(low@.subrange(0, low@.len() as int) =~= low@);
            assert(v@.subrange(i + 1, v@.len() as int) =~= v@.skip(i + 1));
            range_eq(&low, 0, low.len(), "md")
        },
    };
    if !ext_md {
        return false;
    }
    let low = lower_range(&v, 0, v.len());
    assert(low@.subrange(0, low@.len() as int) =~= low@);
    !range_eq(&low, 0, low.len(), "readme.md")
}

/// A community skill read from a markdown file: named after the file's stem
/// (`open-skill` when the name is not UTF-8), attributed to the community repository.
pub fn open_skill_from_markdown(content: String, file_name: Option<&str>, location: String) -> (r:
    Skill)
    ensures
        r.name@ == (match file_name {
            Some(n) => file_stem(n@),
            None => "open-skill"@,
        }),
        r.description@ == description_of(content@),
        r.version@ == "open-skills"@,
        r.author matches Some(a) && a@ == "besoeasy/open-skills"@,
        r.tags@.len() == 1 && r.tags@[0]@ == "open-skills"@,
        r.tools@.len() == 0,
        r.prompts@.len() == 1 && r.prompts@[0]@ == content@,
        r.location == Some(location),
{
    let name = match file_name {
        Some(n) => {
            let v = chars_of(n);
            assert(v@.subrange(0, v@.len() as int) =~= v@);
            if range_eq(&v, 0, v.len(), "..") {
                n.to_owned()
            } else {
                match rfind_char_exec(&v, '.') {
                    None => n.to_owned(),
                    Some(i) => if i == 0 {
                        n.to_owned()
                    } else {
                        assert(v@.subrange(0, i as int) =~= v@.take(i as int));
                        string_of_range(&v, 0, i)
                    },
                }
            }
        },
        None => "open-skill".to_owned(),
    };
    let description = extract_description(content.as_str());
    Skill {
        name,
        description,
        version: "open-skills".to_owned(),
        author: Some("besoeasy/open-skills".to_owned()),
        tags: vec!["open-skills".to_owned()],
        tools: Vec::new(),
        prompts: vec![content],
        location: Some(location),
    }
}

/// Which file of a skill directory is read.
#[derive(PartialEq, Eq, Structural, Clone, Copy, Debug)]
pub enum SkillFile {
    Toml,
    Markdown,
}

/// `SKILL.toml` is preferred over `SKILL.md`; a directory with neither is no skill.
pub fn skill_file_choice(has_toml: bool, has_md: bool) -> (r: Option<SkillFile>)
    ensures
        r == (if has_toml {
            Some(SkillFile::Toml)
        } else if has_md {
            Some(SkillFile::Markdown)
        } else {
            None
        }),
{
    if has_toml {
        Some(SkillFile::Toml)
    } else if has_md {
        Some(SkillFile::Markdown)
    } else {
        None
    }
}

/// Whether a skill passes the security gate: the audit is skipped, or it ran and came back
/// clean (`audit_clean` is `None` when the audit could not run).
pub fn audit_admits(skip_audit: bool, audit_clean: Option<bool>) -> (r: bool)
    ensures
        r == (skip_audit || audit_clean == Some(true)),
{
    skip_audit || match audit_clean {
        Some(c) => c,
        None => false,
    }
}

/// The setting text as `true`, `false`, or not a setting.
pub open spec fn open_skills_setting(raw: Seq<char>) -> Option<bool> {
    let s = lower_all(trim(raw));
    if s == "1"@ || s == "true"@ || s == "yes"@ || s == "on"@ {
        Some(true)
    } else if s == "0"@ || s == "false"@ || s == "no"@ || s == "off"@ {
        Some(false)
    } else {
        None
    }
}

/// Reads an on/off setting: `1`, `true`, `yes`, `on` and `0`, `false`, `no`, `off`, in any
/// ASCII case and with surrounding whitespace.
pub fn parse_open_skills_enabled(raw: &str) -> (r: Option<bool>)
    ensures
        r == open_skills_setting(raw@),
{
    let v = chars_of(raw);
    let (a, b) = trim_range(&v, 0, v.len());
    assert(v@.subrange(0, v@.len() as int) =~= v@);
    let low = lower_range(&v, a, b);
    let n = low.len();
    assert(low@.subrange(0, n as int) =~= low@);
    if range_eq(&low, 0, n, "1") || range_eq(&low, 0, n, "true") || range_eq(&low, 0, n, "yes")
        || range_eq(&low, 0, n, "on") {
        Some(true)
    } else if range_eq(&low, 0, n, "0") || range_eq(&low, 0, n, "false") || range_eq(
        &low,
        0,
        n,
        "no",
    ) || range_eq(&low, 0, n, "off") {
        Some(false)
    } else {
        None
    }
}

/// Whether the community skills are enabled: a valid override wins, else the configured
/// value, else off.
pub open spec fn open_skills_on(config: Option<bool>, env_override: Option<Seq<char>>) -> bool {
    let fallback = match config {
        Some(b) => b,
        None => false,
    };
    match env_override {
        Some(raw) => match open_skills_setting(raw) {
            Some(b) => b,
            None => fallback,
        },
        None => fallback,
    }
}

/// Whether the community skills are enabled, from the configured value and the
/// environment's override.
pub fn open_skills_enabled_from_sources(
    config_open_skills_enabled: Option<bool>,
    env_override: Option<&str>,
) -> (r: bool)
    ensures
        r == open_skills_on(
            config_open_skills_enabled,
            match env_override {
                Some(s) => Some(s@),
                None => None,
            },
        ),
{
    if let Some(raw) = env_override {
        if let Some(enabled) = parse_open_skills_enabled(raw) {
            return enabled;
        }
    }
    match config_open_skills_enabled {
        Some(b) => b,
        None => false,
    }
}

/// A directory setting, trimmed; blank means unset.
pub open spec fn dir_setting(raw: Option<Seq<char>>) -> Option<Seq<char>> {
    match raw {
        Some(r) => if trim(r).len() == 0 {
            None
        } else {
            Some(trim(r))
        },
        None => None,
    }
}

/// The community repository's directory: the environment's, else the configured one, else
/// `open-skills` in the home directory.
pub open spec fn open_skills_dir_of(
    env_dir: Option<Seq<char>>,
    config_dir: Option<Seq<char>>,
    home_dir: Option<Seq<char>>,
) -> Option<Seq<char>> {
    match dir_setting(env_dir) {
        Some(d) => Some(d),
        None => match dir_setting(config_dir) {
            Some(d) => Some(d),
            None => match home_dir {
                Some(h) => Some(spec_path_join(h, "open-skills"@)),
                None => None,
            },
        },
    }
}

/// A directory setting, trimmed, or `None` when blank.
fn parse_dir(raw: Option<&str>) -> (r: Option<String>)
    ensures
        match r {
            Some(s) => dir_setting(
                match raw {
                    Some(x) => Some(x@),
                    None => None,
                },
            ) == Some(s@),
            None => dir_setting(
                match raw {
                    Some(x) => Some(x@),
                    None => None,
                },
            ) is None,
        },
{
    match raw {
        Some(x) => {
            let v = chars_of(x);
            let (a, b) = trim_range(&v, 0, v.len());
            assert(v@.subrange(0, v@.len() as int) =~= v@);
            if a < b {
                Some(string_of_range(&v, a, b))
            } else {
                None
            }
        },
        None => None,
    }
}

/// The community repository's directory from the environment, the configuration and the
/// home directory, in that order of preference.
pub fn resolve_open_skills_dir_from_sources(
    env_dir: Option<&str>,
    config_dir: Option<&str>,
    home_dir: Option<&str>,
) -> (r: Option<String>)
    ensures
        match r {
            Some(s) => open_skills_dir_of(
                match env_dir {
                    Some(x) => Some(x@),
                    None => None,
                },
                match config_dir {
                    Some(x) => Some(x@),
                    None => None,
                },
                match home_dir {
                    Some(x) => Some(x@),
                    None => None,
                },
            ) == Some(s@),
            None => open_skills_dir_of(
                match env_dir {
                    Some(x) => Some(x@),
                    None => None,
                },
                match config_dir {
                    Some(x) => Some(x@),
                    None => None,
                },
                match home_dir {
                    Some(x) => Some(x@),
                    None => None,
                },
            ) is None,
        },
{
    if let Some(d) = parse_dir(env_dir) {
        return Some(d);
    }
    if let Some(d) = parse_dir(config_dir) {
        return Some(d);
    }
    match home_dir {
        Some(h) => Some(path_join(h, "open-skills")),
        None => None,
    }
}

/// Seconds between updates of the community repository: one week.
pub const OPEN_SKILLS_SYNC_INTERVAL_SECS: u64 = 604800;

/// What the sync marker of the community repository says.
#[derive(PartialEq, Eq, Structural, Clone, Copy, Debug)]
pub enum MarkerAge {
    /// There is no marker, or its modification time cannot be read.
    Missing,
    /// The marker is dated in the future: the clock went back.
    Future,
    /// The marker was written this many whole seconds ago.
    Elapsed(u64),
}

/// Whether the community repository is due for an update: no readable marker, or one at
/// least a week old; never while the clock has gone back.
pub fn open_skills_sync_due(marker: MarkerAge) -> (r: bool)
    ensures
        r == match marker {
            MarkerAge::Missing => true,
            MarkerAge::Future => false,
            MarkerAge::Elapsed(s) => s >= OPEN_SKILLS_SYNC_INTERVAL_SECS,
        },
{
    match marker {
        MarkerAge::Missing => true,
        MarkerAge::Future => false,
        MarkerAge::Elapsed(s) => s >= OPEN_SKILLS_SYNC_INTERVAL_SECS,
    }
}

/// Whether a URL character ends the host.
pub open spec fn is_url_sep(c: char) -> bool {
    c == '/' || c == '?' || c == '#'
}

/// Whether `source` is `scheme` followed by a non-empty host (the text before the first
/// `/`, `?` or `#`).
pub open spec fn git_scheme_source(source: Seq<char>, scheme: Seq<char>) -> bool {
    &&& starts_with(source, scheme)
    &&& source.len() > scheme.len()
    &&& !is_url_sep(source[scheme.len() as int])
}

/// Whether `source` has git's `user@host:path` form: a non-empty path after the first `:`,
/// no `://`, and a non-empty user and host around the first `@` before it, neither holding
/// `/` or `\`.
pub open spec fn git_scp_source(source: Seq<char>) -> bool {
    match find_char(source, 0, ':') {
        None => false,
        Some(i) => {
            let user_host = source.take(i);
            let path = source.skip(i + 1);
            &&& path.len() > 0
            &&& !contains_sub(source, "://"@)
            &&& match find_char(user_host, 0, '@') {
                None => false,
                Some(j) => {
                    let user = user_host.take(j);
                    let host = user_host.skip(j + 1);
                    &&& user.len() > 0
                    &&& host.len() > 0
                    &&& find_char(user, 0, '/') is None
                    &&& find_char(user, 0, '\\') is None
                    &&& find_char(host, 0, '/') is None
                    &&& find_char(host, 0, '\\') is None
                },
            }
        },
    }
}

/// Whether an install source names a git remote rather than a local path.
pub open spec fn git_source(source: Seq<char>) -> bool {
    ||| git_scheme_source(source, "https://"@)
    ||| git_scheme_source(source, "http://"@)
    ||| git_scheme_source(source, "ssh://"@)
    ||| git_scheme_source(source, "git://"@)
    ||| git_scp_source(source)
}

/// Whether `source` is `scheme` followed by a non-empty host.
pub fn is_git_scheme_source(source: &str, scheme: &str) -> (r: bool)
    ensures
        r == git_scheme_source(source@, scheme@),
{
    let v = chars_of(source);
    let p = chars_of(scheme);
    if p.len() > v.len() || !range_eq(&v, 0, p.len(), scheme) {
        return false;
    }
    if v.len() == p.len() {
        return false;
    }
    let c = v[p.len()];
    !(c == '/' || c == '?' || c == '#')
}

/// Whether `v` holds neither `/` nor `\`.
fn no_slashes(v: &Vec<char>) -> (r: bool)
    ensures
        r == (find_char(v@, 0, '/') is None && find_char(v@, 0, '\\') is None),
{
    find_char_from(v, 0, '/').is_none() && find_char_from(v, 0, '\\').is_none()
}

/// Whether `source` has git's `user@host:path` form.
pub fn is_git_scp_source(source: &str) -> (r: bool)
    ensures
        r == git_scp_source(source@),
{
    let v = chars_of(source);
    let i = match find_char_from(&v, 0, ':') {
        None => return false,
        Some(i) => i,
    };
    proof {
        lemma_find_char_bounds(v@, 0, ':');
    }
    if v.len() - i <= 1 {
        assert(v@.skip(i + 1).len() == 0);
        return false;
    }
    let sep = chars_of("://");
    if find_sub_from(&v, 0, &sep).is_some() {
        return false;
    }
    let user_host = vslice(&v, 0, i);
    assert(user_host@ =~= v@.take(i as int));
    let j = match find_char_from(&user_host, 0, '@') {
        None => return false,
        Some(j) => j,
    };
    proof {
        lemma_find_char_bounds(user_host@, 0, '@');
    }
    let user = vslice(&user_host, 0, j);
    let host = vslice(&user_host, j + 1, user_host.len());
    assert(user@ =~= user_host@.take(j as int));
    assert(host@ =~= user_host@.skip(j + 1));
    user.len() > 0 && host.len() > 0 && no_slashes(&user) && no_slashes(&host)
}

/// Whether an install source names a git remote: an `https`, `http`, `ssh` or `git` URL
/// with a host, or git's `user@host:path` form.
pub fn is_git_source(source: &str) -> (r: bool)
    ensures
        r == git_source(source@),
{
    is_git_scheme_source(source, "https://") || is_git_scheme_source(source, "http://")
        || is_git_scheme_source(source, "ssh://") || is_git_scheme_source(source, "git://")
        || is_git_scp_source(source)
}

/// The directory a clone created: exactly one new directory, else the error that says why
/// it cannot be told.
pub fn pick_installed_directory(created: Vec<String>) -> (r: Result<String, String>)
    ensures
        created@.len() == 1 ==> (r matches Ok(d) && d == created@[0]),
        created@.len() == 0 ==> (r matches Err(e) && e@
            == "Unable to determine installed skill directory after clone (no new directory found)"@),
        created@.len() > 1 ==> (r matches Err(e) && e@
            == "Unable to determine installed skill directory after clone (multiple new directories found)"@),
{
    let mut created = created;
    if created.len() == 1 {
        Ok(created.remove(0))
    } else if created.len() == 0 {
        Err(
            "Unable to determine installed skill directory after clone (no new directory found)".to_owned(),
        )
    } else {
        Err(
            "Unable to determine installed skill directory after clone (multiple new directories found)".to_owned(),
        )
    }
}

} // verus!
