//! External providers: definitions read from `*.toml` files, their validation, the
//! credential each one uses, and the registry that reloads them.
use vstd::prelude::*;
use crate::docs_sync::{lemma_seq_lt_irreflexive, lemma_seq_lt_total, lemma_seq_lt_transitive, seq_lt, vec_lt};
use crate::paths::{path_file_name, spec_path_file_name};
use crate::skills::sources::file_extension;
use crate::text::{
    chars_of, find_char, find_char_from, lower_all, lower_range, push_str, range_eq, starts_with,
    str_eq,
};

verus! {

/// The wire protocol an external provider speaks.
#[derive(PartialEq, Eq, Structural, Clone, Copy, Debug)]
pub enum ProviderProtocol {
    OpenaiCompatible,
    AnthropicCompatible,
    GeminiCompatible,
}

/// How the API key is sent.
#[derive(PartialEq, Eq, Structural, Clone, Copy, Debug)]
pub enum ExternalAuthStyle {
    Bearer,
    XApiKey,
}

impl Default for ExternalAuthStyle {
    fn default() -> (r: Self)
        ensures
            r == ExternalAuthStyle::Bearer,
    {
        ExternalAuthStyle::Bearer
    }
}

/// A value of the `extra` table, as far as providers read it.
#[derive(Clone, Debug)]
pub enum ExtraValue {
    Bool(bool),
    Str(String),
    /// Any other TOML value.
    Other,
}

/// One external provider definition.
#[derive(Clone, Debug)]
pub struct ExternalProviderConfig {
    pub name: String,
    pub protocol: ProviderProtocol,
    pub base_url: String,
    pub api_key: Option<String>,
    /// The environment variable that holds the key; it takes precedence over `api_key`.
    pub api_key_env: Option<String>,
    pub auth_style: ExternalAuthStyle,
    pub vision: bool,
    /// Protocol-specific settings, in file order.
    pub extra: Vec<(String, ExtraValue)>,
}

/// What is wrong with a definition, if anything.
pub open spec fn config_problem(name: Seq<char>, base_url: Seq<char>) -> Option<Seq<char>> {
    let lower = lower_all(base_url);
    if name.len() == 0 {
        Some("'name' must not be empty"@)
    } else if find_char(name, 0, ':') is Some || find_char(name, 0, ' ') is Some {
        Some("'name' must not contain ':' or spaces: '"@ + name + "'"@)
    } else if base_url.len() == 0 {
        Some("'base_url' must not be empty for provider '"@ + name + "'"@)
    } else if !starts_with(lower, "http://"@) && !starts_with(lower, "https://"@) {
        Some(
            "'base_url' must start with http:// or https:// for provider '"@ + name + "': '"@
                + base_url + "'"@,
        )
    } else {
        None
    }
}

/// The value of the first `extra` entry named `key`.
pub open spec fn extra_entry(extra: Seq<(String, ExtraValue)>, key: Seq<char>) -> Option<ExtraValue>
    decreases extra.len(),
{
    if extra.len() == 0 {
        None
    } else if extra[0].0@ == key {
        Some(extra[0].1)
    } else {
        extra_entry(extra.drop_first(), key)
    }
}

fn find_extra<'a>(extra: &'a Vec<(String, ExtraValue)>, key: &str) -> (r: Option<&'a ExtraValue>)
    ensures
        match r {
            Some(v) => extra_entry(extra@, key@) == Some(*v),
            None => extra_entry(extra@, key@) is None,
        },
{
    let mut i: usize = 0;
    assert(extra@.skip(0) =~= extra@);
    while i < extra.len()
        invariant
            i <= extra.len(),
            extra_entry(extra@, key@) == extra_entry(extra@.skip(i as int), key@),
        decreases extra.len() - i,
    {
        assert(extra@.skip(i as int)[0] == extra@[i as int]);
        if str_eq(extra[i].0.as_str(), key) {
            return Some(&extra[i].1);
        }
        assert(extra@.skip(i as int).drop_first() =~= extra@.skip(i + 1));
        i = i + 1;
    }
    None
}

/// A boolean setting of `extra`, or `default` when absent or not a boolean.
pub fn extra_bool(extra: &Vec<(String, ExtraValue)>, key: &str, default: bool) -> (r: bool)
    ensures
        r == match extra_entry(extra@, key@) {
            Some(ExtraValue::Bool(b)) => b,
            _ => default,
        },
{
    match find_extra(extra, key) {
        Some(ExtraValue::Bool(b)) => *b,
        _ => default,
    }
}

/// A string setting of `extra`, where it is one.
pub fn extra_str(extra: &Vec<(String, ExtraValue)>, key: &str) -> (r: Option<String>)
    ensures
        match r {
            Some(s) => extra_entry(extra@, key@) matches Some(ExtraValue::Str(t)) && s@ == t@,
            None => !(extra_entry(extra@, key@) matches Some(ExtraValue::Str(_))),
        },
{
    match find_extra(extra, key) {
        Some(ExtraValue::Str(s)) => Some(s.clone()),
        _ => None,
    }
}

/// The text of an optional string slice.
pub open spec fn ostr(o: Option<&str>) -> Option<Seq<char>> {
    match o {
        Some(s) => Some(s@),
        None => None,
    }
}

/// The key a provider uses: the non-empty value of its environment variable, else its inline
/// key, else the caller's.
pub open spec fn credential_of(
    api_key_env: Option<String>,
    env_value: Option<Seq<char>>,
    api_key: Option<String>,
    fallback: Option<Seq<char>>,
) -> Option<Seq<char>> {
    let from_env = match env_value {
        Some(v) => api_key_env is Some && v.len() > 0,
        None => false,
    };
    if from_env {
        env_value
    } else {
        match api_key {
            Some(k) => Some(k@),
            None => fallback,
        }
    }
}

impl ExternalProviderConfig {
    /// Checks a definition: a name without `:` or spaces, and an `http://` or `https://`
    /// base URL (in any case).
    pub fn validate(&self) -> (r: Result<(), String>)
        ensures
            match config_problem(self.name@, self.base_url@) {
                None => r is Ok,
                Some(m) => r matches Err(e) && e@ == m,
            },
    {
        let name = self.name.as_str();
        let url = self.base_url.as_str();
        if name.is_empty() {
            return Err("'name' must not be empty".to_owned());
        }
        let nv = chars_of(name);
        if find_char_from(&nv, 0, ':').is_some() || find_char_from(&nv, 0, ' ').is_some() {
            let mut m = String::new();
            push_str(&mut m, "'name' must not contain ':' or spaces: '");
            push_str(&mut m, name);
            push_str(&mut m, "'");
            return Err(m);
        }
        if url.is_empty() {
            let mut m = String::new();
            push_str(&mut m, "'base_url' must not be empty for provider '");
            push_str(&mut m, name);
            push_str(&mut m, "'");
            return Err(m);
        }
        let uv = chars_of(url);
        let low = lower_range(&uv, 0, uv.len());
        assert(uv@.subrange(0, uv@.len() as int) =~= uv@);
        let http = low.len() >= 7 && range_eq(&low, 0, 7, "http://");
        let https = low.len() >= 8 && range_eq(&low, 0, 8, "https://");
        proof {
            reveal_strlit("http://");
            reveal_strlit("https://");
        }
        if !http && !https {
            let mut m = String::new();
            push_str(&mut m, "'base_url' must start with http:// or https:// for provider '");
            push_str(&mut m, name);
            push_str(&mut m, "': '");
            push_str(&mut m, url);
            push_str(&mut m, "'");
            return Err(m);
        }
        Ok(())
    }

    /// The key this provider uses. `env_value` is the value of its `api_key_env` variable,
    /// where that is set.
    pub fn resolve_credential(&self, env_value: Option<&str>, fallback: Option<&str>) -> (r:
        Option<String>)
        ensures
            match r {
                Some(k) => credential_of(
                    self.api_key_env,
                    ostr(env_value),
                    self.api_key,
                    ostr(fallback),
                ) == Some(k@),
                None => credential_of(
                    self.api_key_env,
                    ostr(env_value),
                    self.api_key,
                    ostr(fallback),
                ) is None,
            },
    {
        if self.api_key_env.is_some() {
            if let Some(v) = env_value {
                if !v.is_empty() {
                    return Some(v.to_owned());
                }
            }
        }
        match &self.api_key {
            Some(k) => Some(k.clone()),
            None => match fallback {
                Some(f) => Some(f.to_owned()),
                None => None,
            },
        }
    }
}

/// The client a definition turns into, with its settings.
pub enum ProviderSetup {
    OpenaiCompatible {
        name: String,
        base_url: String,
        key: Option<String>,
        auth: ExternalAuthStyle,
        vision: bool,
        responses_fallback: bool,
        user_agent: Option<String>,
        merge_system: bool,
    },
    AnthropicCompatible { key: Option<String>, base_url: String },
    GeminiCompatible { key: Option<String>, base_url: String },
}

/// The client settings of a definition: its protocol decides the client; OpenAI-compatible
/// clients read `merge_system_into_user` (default off), `supports_responses_fallback`
/// (default on) and `user_agent` from `extra`.
pub fn external_provider_setup(
    config: &ExternalProviderConfig,
    env_value: Option<&str>,
    caller_credential: Option<&str>,
) -> (r: ProviderSetup)
    ensures
        match r {
            ProviderSetup::OpenaiCompatible {
                name,
                base_url,
                key,
                auth,
                vision,
                responses_fallback,
                user_agent,
                merge_system,
            } => {
                &&& config.protocol == ProviderProtocol::OpenaiCompatible
                &&& name@ == config.name@
                &&& base_url@ == config.base_url@
                &&& auth == config.auth_style
                &&& vision == config.vision
                &&& responses_fallback == match extra_entry(
                    config.extra@,
                    "supports_responses_fallback"@,
                ) {
                    Some(ExtraValue::Bool(b)) => b,
                    _ => true,
                }
                &&& merge_system == match extra_entry(config.extra@, "merge_system_into_user"@) {
                    Some(ExtraValue::Bool(b)) => b,
                    _ => false,
                }
                &&& match user_agent {
                    Some(u) => extra_entry(config.extra@, "user_agent"@) matches Some(
                        ExtraValue::Str(t),
                    ) && u@ == t@,
                    None => !(extra_entry(config.extra@, "user_agent"@) matches Some(
                        ExtraValue::Str(_),
                    )),
                }
                &&& match key {
                    Some(k) => credential_of(
                        config.api_key_env,
                        ostr(env_value),
                        config.api_key,
                        ostr(caller_credential),
                    ) == Some(k@),
                    None => credential_of(
                        config.api_key_env,
                        ostr(env_value),
                        config.api_key,
                        ostr(caller_credential),
                    ) is None,
                }
            },
            ProviderSetup::AnthropicCompatible { key, base_url } => {
                &&& config.protocol == ProviderProtocol::AnthropicCompatible
                &&& base_url@ == config.base_url@
                &&& match key {
                    Some(k) => credential_of(
                        config.api_key_env,
                        ostr(env_value),
                        config.api_key,
                        ostr(caller_credential),
                    ) == Some(k@),
                    None => credential_of(
                        config.api_key_env,
                        ostr(env_value),
                        config.api_key,
                        ostr(caller_credential),
                    ) is None,
                }
            },
            ProviderSetup::GeminiCompatible { key, base_url } => {
                &&& config.protocol == ProviderProtocol::GeminiCompatible
                &&& base_url@ == config.base_url@
                &&& match key {
                    Some(k) => credential_of(
                        config.api_key_env,
                        ostr(env_value),
                        config.api_key,
                        ostr(caller_credential),
                    ) == Some(k@),
                    None => credential_of(
                        config.api_key_env,
                        ostr(env_value),
                        config.api_key,
                        ostr(caller_credential),
                    ) is None,
                }
            },
        },
{
    let key = config.resolve_credential(env_value, caller_credential);
    match config.protocol {
        ProviderProtocol::OpenaiCompatible => ProviderSetup::OpenaiCompatible {
            name: config.name.clone(),
            base_url: config.base_url.clone(),
            key,
            auth: config.auth_style,
            vision: config.vision,
            responses_fallback: extra_bool(&config.extra, "supports_responses_fallback", true),
            user_agent: extra_str(&config.extra, "user_agent"),
            merge_system: extra_bool(&config.extra, "merge_system_into_user", false),
        },
        ProviderProtocol::AnthropicCompatible => ProviderSetup::AnthropicCompatible {
            key,
            base_url: config.base_url.clone(),
        },
        ProviderProtocol::GeminiCompatible => ProviderSetup::GeminiCompatible {
            key,
            base_url: config.base_url.clone(),
        },
    }
}

/// The names of the built-in providers, which external definitions cannot take.
pub open spec fn builtin_names() -> Seq<Seq<char>> {
    seq![
        "openrouter"@, "anthropic"@, "openai"@, "ollama"@, "gemini"@, "google"@,
        "google-gemini"@, "telnyx"@, "venice"@, "vercel"@, "vercel-ai"@, "cloudflare"@,
        "cloudflare-ai"@, "moonshot"@, "moonshot-cn"@, "kimi-code"@, "kimi_coding"@,
        "kimi_for_coding"@, "synthetic"@, "opencode"@, "opencode-zen"@, "bedrock"@,
        "aws-bedrock"@, "groq"@, "mistral"@, "xai"@, "grok"@, "deepseek"@, "together"@,
        "together-ai"@, "fireworks"@, "fireworks-ai"@, "novita"@, "perplexity"@, "cohere"@,
        "copilot"@, "github-copilot"@, "lmstudio"@, "lm-studio"@, "llamacpp"@, "llama.cpp"@,
        "sglang"@, "vllm"@, "osaurus"@, "nvidia"@, "nvidia-nim"@, "build.nvidia.com"@,
        "astrai"@, "ovhcloud"@, "ovh"@, "openai-codex"@, "openai_codex"@, "codex"@,
    ]
}

/// The names of the built-in providers.
pub fn builtin_provider_names() -> (r: Vec<&'static str>)
    ensures
        r@.len() == builtin_names().len(),
        forall|k: int| 0 <= k < r@.len() ==> #[trigger] r@[k]@ == builtin_names()[k],
{
    let r: Vec<&'static str> = vec![
        "openrouter", "anthropic", "openai", "ollama", "gemini", "google", "google-gemini",
        "telnyx", "venice", "vercel", "vercel-ai", "cloudflare", "cloudflare-ai", "moonshot",
        "moonshot-cn", "kimi-code", "kimi_coding", "kimi_for_coding", "synthetic", "opencode",
        "opencode-zen", "bedrock", "aws-bedrock", "groq", "mistral", "xai", "grok", "deepseek",
        "together", "together-ai", "fireworks", "fireworks-ai", "novita", "perplexity", "cohere",
        "copilot", "github-copilot", "lmstudio", "lm-studio", "llamacpp", "llama.cpp", "sglang",
        "vllm", "osaurus", "nvidia", "nvidia-nim", "build.nvidia.com", "astrai", "ovhcloud",
        "ovh", "openai-codex", "openai_codex", "codex",
    ];
    r
}

/// Whether an external definition may not use `name`: a built-in name, or a name in the
/// `custom:` or `anthropic-custom:` families.
pub open spec fn reserved_name(name: Seq<char>) -> bool {
    builtin_names().contains(name) || starts_with(name, "custom:"@) || starts_with(
        name,
        "anthropic-custom:"@,
    )
}

/// Whether an external definition may not use `name`.
pub fn is_reserved(name: &str) -> (r: bool)
    ensures
        r == reserved_name(name@),
{
    let names = builtin_provider_names();
    let mut i: usize = 0;
    let mut found = false;
    while i < names.len()
        invariant
            i <= names.len(),
            names@.len() == builtin_names().len(),
            forall|k: int| 0 <= k < names@.len() ==> #[trigger] names@[k]@ == builtin_names()[k],
            found == exists|k: int| 0 <= k < i && builtin_names()[k] == name@,
        decreases names.len() - i,
    {
        if str_eq(names[i], name) {
            found = true;
        }
        i = i + 1;
    }
    let v = chars_of(name);
    proof {
        reveal_strlit("custom:");
        reveal_strlit("anthropic-custom:");
    }
    let custom = v.len() >= 7 && range_eq(&v, 0, 7, "custom:");
    let anthropic = v.len() >= 17 && range_eq(&v, 0, 17, "anthropic-custom:");
    found || custom || anthropic
}

/// Whether a file of the providers directory is a definition: its extension is `toml`.
pub open spec fn provider_file(path: Seq<char>) -> bool {
    match spec_path_file_name(path) {
        Some(n) => file_extension(n) == Some("toml"@),
        None => false,
    }
}

/// Whether a file of the providers directory is a definition.
pub fn is_provider_file(path: &str) -> (r: bool)
    ensures
        r == provider_file(path@),
{
    match path_file_name(path) {
        Some(n) => {
            let v = chars_of(n.as_str());
            assert(v@.subrange(0, v@.len() as int) =~= v@);
            if range_eq(&v, 0, v.len(), "..") {
                return false;
            }
            let mut i: usize = v.len();
            while i > 0 && v[i - 1] != '.'
                invariant
                    i <= v.len(),
                    crate::skills::sources::rfind_char(v@, '.') == crate::skills::sources::rfind_char(
                        v@.take(i as int),
                        '.',
                    ),
                decreases i,
            {
                assert(v@.take(i as int).drop_last() =~= v@.take(i - 1));
                i = i - 1;
            }
            if i <= 1 {
                proof {
                    if i == 0 {
                        assert(v@.take(0) =~= Seq::<char>::empty());
                    }
                }
                return false;
            }
            assert(v@.subrange(i as int, v@.len() as int) =~= v@.skip(i as int));
            range_eq(&v, i, v.len(), "toml")
        },
        None => false,
    }
}

/// Whether the names in `v` appear in strictly ascending order.
pub open spec fn strictly_sorted(v: Seq<String>) -> bool {
    forall|a: int, b: int| 0 <= a < b < v.len() ==> seq_lt(v[a]@, v[b]@)
}

/// Whether `name` is one of the names in `v`.
pub open spec fn has_name(v: Seq<String>, name: Seq<char>) -> bool {
    exists|k: int| 0 <= k < v.len() && #[trigger] v[k]@ == name
}

/// Sorts distinct names into ascending order.
fn sort_names(v: Vec<String>) -> (r: Vec<String>)
    requires
        forall|a: int, b: int| 0 <= a < b < v@.len() ==> v@[a]@ != v@[b]@,
    ensures
        strictly_sorted(r@),
        forall|x: Seq<char>| has_name(r@, x) <==> has_name(v@, x),
        r@.len() == v@.len(),
{
    let ghost orig = v@;
    let mut rest = v;
    let mut out: Vec<String> = Vec::new();
    let n = rest.len();
    let mut i: usize = 0;
    while i < n
        invariant
            n == orig.len(),
            i <= n,
            rest@ == orig.skip(i as int),
            out@.len() == i,
            forall|a: int, b: int| 0 <= a < b < orig.len() ==> orig[a]@ != orig[b]@,
            strictly_sorted(out@),
            forall|x: Seq<char>| has_name(out@, x) <==> has_name(orig.take(i as int), x),
        decreases n - i,
    {
        let s = rest.remove(0);
        assert(s == orig[i as int]);
        assert(rest@ =~= orig.skip(i + 1));
        let sv = chars_of(s.as_str());
        let mut pos: usize = 0;
        while pos < out.len() && vec_lt(&chars_of(out[pos].as_str()), &sv)
            invariant
                pos <= out@.len(),
                sv@ == s@,
                forall|k: int| 0 <= k < pos ==> seq_lt(#[trigger] out@[k]@, s@),
            decreases out.len() - pos,
        {
            pos = pos + 1;
        }
        let ghost old_out = out@;
        proof {
            assert forall|k: int| pos <= k < old_out.len() implies seq_lt(s@, #[trigger] old_out[k]@) by {
                assert(!has_name(orig.take(i as int), s@)) by {
                    if has_name(orig.take(i as int), s@) {
                        let j = choose|j: int| 0 <= j < i && #[trigger] orig.take(i as int)[j]@ == s@;
                        assert(orig[j]@ == orig[i as int]@);
                    }
                }
                assert(!has_name(old_out, s@));
                assert(old_out[k]@ != s@) by {
                    if old_out[k]@ == s@ {
                        assert(has_name(old_out, s@));
                    }
                }
                lemma_seq_lt_total(s@, old_out[pos as int]@);
                assert(!seq_lt(old_out[pos as int]@, s@));
                assert(old_out[pos as int]@ != s@) by {
                    if old_out[pos as int]@ == s@ {
                        assert(has_name(old_out, s@));
                    }
                }
                if k > pos {
                    lemma_seq_lt_transitive(s@, old_out[pos as int]@, old_out[k]@);
                }
            }
        }
        out.insert(pos, s);
        proof {
            assert(forall|k: int| 0 <= k < pos ==> out@[k] == old_out[k]);
            assert(forall|k: int| pos <= k < old_out.len() ==> out@[k + 1] == old_out[k]);
            assert forall|a: int, b: int| 0 <= a < b < out@.len() implies seq_lt(out@[a]@, out@[b]@) by {
                if a < pos && b < pos {
                    assert(out@[a] == old_out[a] && out@[b] == old_out[b]);
                } else if a < pos && b == pos {
                    assert(out@[a] == old_out[a]);
                } else if a < pos && b > pos {
                    assert(out@[a] == old_out[a] && out@[b] == old_out[b - 1]);
                    lemma_seq_lt_transitive(out@[a]@, s@, out@[b]@);
                } else if a == pos {
                    assert(out@[b] == old_out[b - 1]);
                } else {
                    assert(out@[a] == old_out[a - 1] && out@[b] == old_out[b - 1]);
                }
            }
            assert forall|x: Seq<char>| has_name(out@, x) <==> has_name(orig.take(i + 1), x) by {
                if has_name(out@, x) {
                    let k = choose|k: int| 0 <= k < out@.len() && #[trigger] out@[k]@ == x;
                    if k == pos {
                        assert(orig.take(i + 1)[i as int] == s);
                    } else {
                        let kk = if k < pos {
                            k
                        } else {
                            k - 1
                        };
                        assert(out@[k] == old_out[kk]);
                        assert(has_name(old_out, x));
                        let j = choose|j: int| 0 <= j < i && #[trigger] orig.take(i as int)[j]@ == x;
                        assert(orig.take(i + 1)[j] == orig.take(i as int)[j]);
                    }
                }
                if has_name(orig.take(i + 1), x) {
                    let j = choose|j: int| 0 <= j < i + 1 && #[trigger] orig.take(i + 1)[j]@ == x;
                    if j == i {
                        assert(out@[pos as int] == s);
                    } else {
                        assert(orig.take(i as int)[j] == orig.take(i + 1)[j]);
                        assert(has_name(orig.take(i as int), x));
                        assert(has_name(old_out, x));
                        let k = choose|k: int| 0 <= k < old_out.len() && #[trigger] old_out[k]@ == x;
                        if k < pos {
                            assert(out@[k] == old_out[k]);
                        } else {
                            assert(out@[k + 1] == old_out[k]);
                        }
                    }
                }
            }
        }
        i = i + 1;
    }
    assert(orig.take(n as int) =~= orig);
    out
}

/// The outcome of a reload: the providers that appeared and disappeared (each sorted by
/// name), and the problems met.
#[derive(Clone, Debug)]
pub struct ReloadResult {
    pub added: Vec<String>,
    pub removed: Vec<String>,
    pub errors: Vec<String>,
}

/// A definition file that was found, and what reading it gave.
pub struct ScannedFile {
    pub path: String,
    pub outcome: Result<ExternalProviderConfig, String>,
}

/// What scanning the providers directory gave.
pub enum ProviderScan {
    /// The directory does not exist.
    Missing,
    /// The directory could not be read; the reason.
    Unreadable(String),
    /// The definition files, in directory order.
    Files(Vec<ScannedFile>),
}

/// The definitions kept from the files (with the file each came from) and the problems met:
/// a file that could not be read, and a name defined a second time.
pub open spec fn collect_spec(files: Seq<ScannedFile>) -> (
    Seq<(Seq<char>, ExternalProviderConfig)>,
    Seq<Seq<char>>,
)
    decreases files.len(),
{
    if files.len() == 0 {
        (Seq::empty(), Seq::empty())
    } else {
        let (kept, errs) = collect_spec(files.drop_last());
        let f = files.last();
        match f.outcome {
            Err(e) => (kept, errs.push("Failed to parse '"@ + f.path@ + "': "@ + e@)),
            Ok(c) => match first_with_name(kept, c.name@) {
                Some(first) => (
                    kept,
                    errs.push(
                        "Duplicate provider name '"@ + c.name@ + "': first defined in '"@ + first
                            + "', redefined in '"@ + f.path@ + "'"@,
                    ),
                ),
                None => (kept.push((f.path@, c)), errs),
            },
        }
    }
}

/// The file of the first kept definition named `name`.
pub open spec fn first_with_name(kept: Seq<(Seq<char>, ExternalProviderConfig)>, name: Seq<char>) -> Option<
    Seq<char>,
>
    decreases kept.len(),
{
    if kept.len() == 0 {
        None
    } else if kept[0].1.name@ == name {
        Some(kept[0].0)
    } else {
        first_with_name(kept.drop_first(), name)
    }
}

/// The messages for definitions that take a reserved name, in order.
pub open spec fn conflict_errors(cs: Seq<ExternalProviderConfig>) -> Seq<Seq<char>>
    decreases cs.len(),
{
    if cs.len() == 0 {
        Seq::empty()
    } else {
        conflict_errors(cs.drop_last()) + if reserved_name(cs.last().name@) {
            seq!["Provider '"@ + cs.last().name@ + "' conflicts with built-in provider name"@]
        } else {
            Seq::<Seq<char>>::empty()
        }
    }
}

/// The definitions whose names are not reserved, in order.
pub open spec fn unreserved(cs: Seq<ExternalProviderConfig>) -> Seq<ExternalProviderConfig>
    decreases cs.len(),
{
    if cs.len() == 0 {
        Seq::empty()
    } else {
        unreserved(cs.drop_last()) + if reserved_name(cs.last().name@) {
            Seq::<ExternalProviderConfig>::empty()
        } else {
            seq![cs.last()]
        }
    }
}

/// The configurations of kept entries.
pub open spec fn kept_configs(kept: Seq<(Seq<char>, ExternalProviderConfig)>) -> Seq<ExternalProviderConfig> {
    kept.map_values(|e: (Seq<char>, ExternalProviderConfig)| e.1)
}

/// The definitions and the problems a scan of `dir` yields.
pub open spec fn scan_spec(dir: Seq<char>, scan: ProviderScan) -> (
    Seq<ExternalProviderConfig>,
    Seq<Seq<char>>,
) {
    match scan {
        ProviderScan::Missing => (Seq::empty(), Seq::empty()),
        ProviderScan::Unreadable(e) => (
            Seq::empty(),
            seq!["Failed to read providers directory '"@ + dir + "': "@ + e@],
        ),
        ProviderScan::Files(fs) => (kept_configs(collect_spec(fs@).0), collect_spec(fs@).1),
    }
}

/// Whether `name` is the name of one of the definitions.
pub open spec fn defines(cs: Seq<ExternalProviderConfig>, name: Seq<char>) -> bool {
    exists|k: int| 0 <= k < cs.len() && #[trigger] cs[k].name@ == name
}

/// Whether no two definitions share a name.
pub open spec fn distinct_names(cs: Seq<ExternalProviderConfig>) -> bool {
    forall|a: int, b: int| 0 <= a < b < cs.len() ==> #[trigger] cs[a].name@ != #[trigger] cs[b].name@
}

proof fn lemma_first_with_name(kept: Seq<(Seq<char>, ExternalProviderConfig)>, name: Seq<char>)
    ensures
        first_with_name(kept, name) is None <==> !defines(kept_configs(kept), name),
    decreases kept.len(),
{
    if kept.len() > 0 {
        lemma_first_with_name(kept.drop_first(), name);
        if defines(kept_configs(kept.drop_first()), name) {
            let k = choose|k: int|
                0 <= k < kept_configs(kept.drop_first()).len() && #[trigger] kept_configs(
                    kept.drop_first(),
                )[k].name@ == name;
            assert(kept_configs(kept)[k + 1].name@ == name);
        }
        if defines(kept_configs(kept), name) {
            let k = choose|k: int|
                0 <= k < kept_configs(kept).len() && #[trigger] kept_configs(kept)[k].name@ == name;
            if k > 0 {
                assert(kept_configs(kept.drop_first())[k - 1].name@ == name);
            }
        }
        if kept[0].1.name@ == name {
            assert(kept_configs(kept)[0].name@ == name);
        }
    }
}

proof fn lemma_collect_distinct(files: Seq<ScannedFile>)
    ensures
        distinct_names(kept_configs(collect_spec(files).0)),
    decreases files.len(),
{
    if files.len() > 0 {
        lemma_collect_distinct(files.drop_last());
        let (kept, errs) = collect_spec(files.drop_last());
        let f = files.last();
        match f.outcome {
            Err(e) => {},
            Ok(c) => {
                lemma_first_with_name(kept, c.name@);
                if first_with_name(kept, c.name@) is None {
                    let nk = kept.push((f.path@, c));
                    assert forall|a: int, b: int|
                        0 <= a < b < kept_configs(nk).len() implies #[trigger] kept_configs(nk)[a].name@
                        != #[trigger] kept_configs(nk)[b].name@ by {
                        if b == kept.len() {
                            assert(kept_configs(nk)[a] == kept_configs(kept)[a]);
                            if kept_configs(kept)[a].name@ == c.name@ {
                                assert(defines(kept_configs(kept), c.name@));
                            }
                        } else {
                            assert(kept_configs(nk)[a] == kept_configs(kept)[a]);
                            assert(kept_configs(nk)[b] == kept_configs(kept)[b]);
                        }
                    }
                }
            },
        }
    }
}

/// The file of the first kept definition named `name`.
fn find_first_path(kept: &Vec<(String, ExternalProviderConfig)>, name: &str) -> (r: Option<String>)
    ensures
        match r {
            Some(p) => first_with_name(kept@.map_values(|e: (String, ExternalProviderConfig)| (e.0@, e.1)), name@)
                == Some(p@),
            None => first_with_name(kept@.map_values(|e: (String, ExternalProviderConfig)| (e.0@, e.1)), name@)
                is None,
        },
{
    let ghost kv = kept@.map_values(|e: (String, ExternalProviderConfig)| (e.0@, e.1));
    let mut i: usize = 0;
    assert(kv.skip(0) =~= kv);
    while i < kept.len()
        invariant
            i <= kept.len(),
            kv == kept@.map_values(|e: (String, ExternalProviderConfig)| (e.0@, e.1)),
            first_with_name(kv, name@) == first_with_name(kv.skip(i as int), name@),
        decreases kept.len() - i,
    {
        assert(kv.skip(i as int)[0] == kv[i as int]);
        if str_eq(kept[i].1.name.as_str(), name) {
            return Some(kept[i].0.clone());
        }
        assert(kv.skip(i as int).drop_first() =~= kv.skip(i + 1));
        i = i + 1;
    }
    None
}

/// Keeps the first definition of each name and reports the rest and the unreadable files.
fn collect_files(files: Vec<ScannedFile>) -> (r: (Vec<ExternalProviderConfig>, Vec<String>))
    ensures
        r.0@ == kept_configs(collect_spec(files@).0),
        r.1@.map_values(|e: String| e@) == collect_spec(files@).1,
{
    let ghost orig = files@;
    let mut rest = files;
    let mut kept: Vec<(String, ExternalProviderConfig)> = Vec::new();
    let mut errors: Vec<String> = Vec::new();
    let n = rest.len();
    let mut i: usize = 0;
    while i < n
        invariant
            n == orig.len(),
            i <= n,
            rest@ == orig.skip(i as int),
            kept@.map_values(|e: (String, ExternalProviderConfig)| (e.0@, e.1)) == collect_spec(
                orig.take(i as int),
            ).0,
            errors@.map_values(|e: String| e@) == collect_spec(orig.take(i as int)).1,
        decreases n - i,
    {
        let f = rest.remove(0);
        assert(f == orig[i as int]);
        assert(rest@ =~= orig.skip(i + 1));
        assert(orig.take(i + 1).drop_last() =~= orig.take(i as int));
        let ghost kv0 = kept@.map_values(|e: (String, ExternalProviderConfig)| (e.0@, e.1));
        let ghost ev0 = errors@.map_values(|e: String| e@);
        let ScannedFile { path, outcome } = f;
        match outcome {
            Err(e) => {
                let mut m = String::new();
                push_str(&mut m, "Failed to parse '");
                push_str(&mut m, path.as_str());
                push_str(&mut m, "': ");
                push_str(&mut m, e.as_str());
                errors.push(m);
                assert(errors@.map_values(|e: String| e@) =~= ev0.push(m@));
            },
            Ok(c) => match find_first_path(&kept, c.name.as_str()) {
                Some(first) => {
                    let mut m = String::new();
                    push_str(&mut m, "Duplicate provider name '");
                    push_str(&mut m, c.name.as_str());
                    push_str(&mut m, "': first defined in '");
                    push_str(&mut m, first.as_str());
                    push_str(&mut m, "', redefined in '");
                    push_str(&mut m, path.as_str());
                    push_str(&mut m, "'");
                    errors.push(m);
                    assert(errors@.map_values(|e: String| e@) =~= ev0.push(m@));
                },
                None => {
                    let ghost pv = path@;
                    let ghost cc = c;
                    kept.push((path, c));
                    assert(kept@.map_values(|e: (String, ExternalProviderConfig)| (e.0@, e.1))
                        =~= kv0.push((pv, cc)));
                },
            },
        }
        i = i + 1;
    }
    assert(orig.take(n as int) =~= orig);
    let ghost kv = kept@.map_values(|e: (String, ExternalProviderConfig)| (e.0@, e.1));
    let mut configs: Vec<ExternalProviderConfig> = Vec::new();
    let m = kept.len();
    let mut j: usize = 0;
    let ghost kept_all = kept@;
    while j < m
        invariant
            m == kept_all.len(),
            j <= m,
            kept@ == kept_all.skip(j as int),
            kv == kept_all.map_values(|e: (String, ExternalProviderConfig)| (e.0@, e.1)),
            configs@ == kept_configs(kv).take(j as int),
        decreases m - j,
    {
        let (_p, c) = kept.remove(0);
        assert(kept_all[j as int].1 == c);
        assert(kept@ =~= kept_all.skip(j + 1));
        configs.push(c);
        assert(configs@ =~= kept_configs(kv).take(j + 1));
        j = j + 1;
    }
    assert(kept_configs(kv).take(m as int) =~= kept_configs(kv));
    (configs, errors)
}

/// Whether one of the definitions is named `name`.
fn defines_exec(cs: &Vec<ExternalProviderConfig>, name: &str) -> (r: bool)
    ensures
        r == defines(cs@, name@),
{
    let mut i: usize = 0;
    while i < cs.len()
        invariant
            i <= cs.len(),
            forall|k: int| 0 <= k < i ==> #[trigger] cs@[k].name@ != name@,
        decreases cs.len() - i,
    {
        if str_eq(cs[i].name.as_str(), name) {
            return true;
        }
        i = i + 1;
    }
    false
}

/// The names of the definitions of `source` that `other` does not define, each once.
fn names_not_in(source: &Vec<ExternalProviderConfig>, other: &Vec<ExternalProviderConfig>) -> (r:
    Vec<String>)
    requires
        distinct_names(source@),
    ensures
        forall|a: int, b: int| 0 <= a < b < r@.len() ==> r@[a]@ != r@[b]@,
        forall|x: Seq<char>| has_name(r@, x) <==> (defines(source@, x) && !defines(other@, x)),
{
    let mut out: Vec<String> = Vec::new();
    let mut k: usize = 0;
    while k < source.len()
        invariant
            k <= source.len(),
            distinct_names(source@),
            forall|a: int|
                0 <= a < out@.len() ==> exists|j: int|
                    0 <= j < k && #[trigger] source@[j].name@ == (#[trigger] out@[a])@,
            forall|a: int, b: int| 0 <= a < b < out@.len() ==> out@[a]@ != out@[b]@,
            forall|x: Seq<char>|
                has_name(out@, x) <==> (exists|j: int| 0 <= j < k && #[trigger] source@[j].name@ == x)
                    && !defines(other@, x),
        decreases source.len() - k,
    {
        let name = source[k].name.clone();
        let ghost before = out@;
        if !defines_exec(other, name.as_str()) {
            out.push(name);
            proof {
                assert forall|a: int, b: int| 0 <= a < b < out@.len() implies out@[a]@ != out@[b]@ by {
                    if b == before.len() {
                        assert(out@[a] == before[a]);
                        let j = choose|j: int| 0 <= j < k && #[trigger] source@[j].name@ == (
                        #[trigger] before[a])@;
                        assert(source@[j].name@ != source@[k as int].name@);
                    } else {
                        assert(out@[a] == before[a] && out@[b] == before[b]);
                    }
                }
                assert forall|a: int| 0 <= a < out@.len() implies exists|j: int|
                    0 <= j < k + 1 && #[trigger] source@[j].name@ == (#[trigger] out@[a])@ by {
                    if a == before.len() {
                        assert(source@[k as int].name@ == out@[a]@);
                    } else {
                        assert(out@[a] == before[a]);
                        let j = choose|j: int| 0 <= j < k && #[trigger] source@[j].name@ == (
                        #[trigger] before[a])@;
                        assert(source@[j].name@ == out@[a]@);
                    }
                }
            }
        }
        proof {
            assert forall|x: Seq<char>|
                has_name(out@, x) <==> (exists|j: int| 0 <= j < k + 1 && #[trigger] source@[j].name@ == x)
                    && !defines(other@, x) by {
                if has_name(out@, x) {
                    let a = choose|a: int| 0 <= a < out@.len() && #[trigger] out@[a]@ == x;
                    if a < before.len() {
                        assert(out@[a] == before[a]);
                        assert(has_name(before, x));
                    } else {
                        assert(source@[k as int].name@ == x);
                    }
                }
                if (exists|j: int| 0 <= j < k + 1 && #[trigger] source@[j].name@ == x) && !defines(
                    other@,
                    x,
                ) {
                    let j = choose|j: int| 0 <= j < k + 1 && #[trigger] source@[j].name@ == x;
                    if j < k {
                        assert(has_name(before, x));
                        let a = choose|a: int| 0 <= a < before.len() && #[trigger] before[a]@ == x;
                        assert(out@[a] == before[a]);
                    } else {
                        assert(out@[before.len() as int]@ == x);
                    }
                }
            }
        }
        k = k + 1;
    }
    out
}

proof fn lemma_unreserved(cs: Seq<ExternalProviderConfig>)
    requires
        distinct_names(cs),
    ensures
        distinct_names(unreserved(cs)),
        forall|x: Seq<char>|
            #![trigger defines(unreserved(cs), x)]
            #![trigger defines(cs, x)]
            (defines(unreserved(cs), x) <==> (defines(cs, x) && !reserved_name(x))),
    decreases cs.len(),
{
    if cs.len() == 0 {
        assert(unreserved(cs) =~= Seq::<ExternalProviderConfig>::empty());
        assert forall|x: Seq<char>| #[trigger] defines(unreserved(cs), x) <==> defines(cs, x) && !reserved_name(x) by {
            assert(!defines(cs, x));
            assert(!defines(unreserved(cs), x));
        }
    } else {
        let p = cs.drop_last();
        assert(distinct_names(p)) by {
            assert forall|a: int, b: int| 0 <= a < b < p.len() implies #[trigger] p[a].name@
                != #[trigger] p[b].name@ by {
                assert(p[a] == cs[a] && p[b] == cs[b]);
            }
        }
        lemma_unreserved(p);
        let u = unreserved(p);
        let l = cs.last();
        if !reserved_name(l.name@) {
            let nu = u.push(l);
            assert(unreserved(cs) == nu);
            assert(!defines(u, l.name@)) by {
                if defines(u, l.name@) {
                    assert(defines(p, l.name@));
                    let k = choose|k: int| 0 <= k < p.len() && #[trigger] p[k].name@ == l.name@;
                    assert(cs[k].name@ == cs[cs.len() - 1].name@);
                }
            }
            assert forall|a: int, b: int| 0 <= a < b < nu.len() implies #[trigger] nu[a].name@
                != #[trigger] nu[b].name@ by {
                if b == u.len() {
                    assert(nu[a] == u[a]);
                    if u[a].name@ == l.name@ {
                        assert(defines(u, l.name@));
                    }
                } else {
                    assert(nu[a] == u[a] && nu[b] == u[b]);
                }
            }
            assert forall|x: Seq<char>| #[trigger] defines(unreserved(cs), x) <==> defines(cs, x) && !reserved_name(x) by {
                if defines(unreserved(cs), x) {
                    let k = choose|k: int| 0 <= k < nu.len() && #[trigger] nu[k].name@ == x;
                    if k < u.len() {
                        assert(nu[k] == u[k]);
                        assert(defines(u, x));
                        assert(defines(p, x));
                        let j = choose|j: int| 0 <= j < p.len() && #[trigger] p[j].name@ == x;
                        assert(cs[j] == p[j]);
                    } else {
                        assert(cs[cs.len() - 1].name@ == x);
                    }
                }
                if defines(cs, x) && !reserved_name(x) {
                    let k = choose|k: int| 0 <= k < cs.len() && #[trigger] cs[k].name@ == x;
                    if k < p.len() {
                        assert(p[k] == cs[k]);
                        assert(defines(p, x));
                        assert(defines(u, x));
                        let j = choose|j: int| 0 <= j < u.len() && #[trigger] u[j].name@ == x;
                        assert(nu[j] == u[j]);
                        assert(unreserved(cs)[j].name@ == x);
                    } else {
                        assert(nu[u.len() as int] == l);
                        assert(unreserved(cs)[u.len() as int].name@ == x);
                    }
                }
            }
        } else {
            assert(unreserved(cs) =~= u);
            assert forall|x: Seq<char>| #[trigger] defines(u, x) <==> defines(cs, x) && !reserved_name(x) by {
                if defines(cs, x) && !reserved_name(x) {
                    let k = choose|k: int| 0 <= k < cs.len() && #[trigger] cs[k].name@ == x;
                    if k < p.len() {
                        assert(p[k] == cs[k]);
                        assert(defines(p, x));
                    }
                }
                if defines(p, x) {
                    let j = choose|j: int| 0 <= j < p.len() && #[trigger] p[j].name@ == x;
                    assert(cs[j] == p[j]);
                }
            }
            assert forall|x: Seq<char>| #[trigger] defines(unreserved(cs), x) <==> defines(cs, x) && !reserved_name(x) by {
                assert(defines(u, x) <==> defines(cs, x) && !reserved_name(x));
            }
        }
    }
}

/// The registry of external providers.
pub struct ProviderRegistry {
    external: Vec<ExternalProviderConfig>,
    providers_dir: String,
}

impl ProviderRegistry {
    #[verifier::type_invariant]
    spec fn inv(self) -> bool {
        distinct_names(self.external@)
    }

    /// The definitions in force; no two share a name.
    pub closed spec fn definitions(self) -> Seq<ExternalProviderConfig> {
        self.external@
    }

    /// The directory the definitions are read from.
    pub closed spec fn dir(self) -> Seq<char> {
        self.providers_dir@
    }

    /// An empty registry reading from `providers_dir`.
    pub fn new(providers_dir: String) -> (r: Self)
        ensures
            r.definitions().len() == 0,
            r.dir() == providers_dir@,
    {
        ProviderRegistry { external: Vec::new(), providers_dir }
    }

    /// The directory the definitions are read from.
    pub fn providers_dir(&self) -> (r: &str)
        ensures
            r@ == self.dir(),
    {
        self.providers_dir.as_str()
    }

    /// The definition named `name`.
    pub fn lookup(&self, name: &str) -> (r: Option<&ExternalProviderConfig>)
        ensures
            match r {
                Some(c) => c.name@ == name@ && exists|k: int|
                    0 <= k < self.definitions().len() && self.definitions()[k] == *c,
                None => !defines(self.definitions(), name@),
            },
    {
        let mut i: usize = 0;
        while i < self.external.len()
            invariant
                i <= self.external.len(),
                forall|k: int| 0 <= k < i ==> #[trigger] self.external@[k].name@ != name@,
            decreases self.external.len() - i,
        {
            if str_eq(self.external[i].name.as_str(), name) {
                assert(self.definitions()[i as int] == self.external@[i as int]);
                return Some(&self.external[i]);
            }
            i = i + 1;
        }
        None
    }

    /// Replaces the definitions by those a fresh scan finds, dropping reserved names. Reports
    /// the names added and removed (each sorted) and the problems met: the scan's, then one
    /// per reserved name.
    pub fn reload(&mut self, scan: ProviderScan) -> (r: ReloadResult)
        ensures
            final(self).dir() == old(self).dir(),
            final(self).definitions() == unreserved(scan_spec(old(self).dir(), scan).0),
            r.errors@.map_values(|e: String| e@) == scan_spec(old(self).dir(), scan).1
                + conflict_errors(scan_spec(old(self).dir(), scan).0),
            strictly_sorted(r.added@),
            strictly_sorted(r.removed@),
            forall|x: Seq<char>|
                has_name(r.added@, x) <==> defines(final(self).definitions(), x) && !defines(
                    old(self).definitions(),
                    x,
                ),
            forall|x: Seq<char>|
                has_name(r.removed@, x) <==> defines(old(self).definitions(), x) && !defines(
                    final(self).definitions(),
                    x,
                ),
    {
        proof {
            use_type_invariant(&*self);
        }
        let ghost sc = scan_spec(self.providers_dir@, scan);
        let (configs, mut errors) = match scan {
            ProviderScan::Missing => (Vec::new(), Vec::new()),
            ProviderScan::Unreadable(e) => {
                let mut m = String::new();
                push_str(&mut m, "Failed to read providers directory '");
                push_str(&mut m, self.providers_dir.as_str());
                push_str(&mut m, "': ");
                push_str(&mut m, e.as_str());
                let v = vec![m];
                assert(v@.map_values(|e: String| e@) =~= sc.1);
                (Vec::new(), v)
            },
            ProviderScan::Files(fs) => {
                proof {
                    lemma_collect_distinct(fs@);
                }
                collect_files(fs)
            },
        };
        assert(configs@ =~= sc.0);
        assert(errors@.map_values(|e: String| e@) =~= sc.1);
        assert(distinct_names(sc.0));
        let ghost cs = configs@;
        let ghost base = errors@.map_values(|e: String| e@);
        let mut rest = configs;
        let mut valid: Vec<ExternalProviderConfig> = Vec::new();
        let n = rest.len();
        let mut i: usize = 0;
        assert(cs.take(0) =~= Seq::<ExternalProviderConfig>::empty());
        assert(base + conflict_errors(cs.take(0)) =~= base);
        while i < n
            invariant
                n == cs.len(),
                i <= n,
                rest@ == cs.skip(i as int),
                valid@ == unreserved(cs.take(i as int)),
                errors@.map_values(|e: String| e@) == base + conflict_errors(cs.take(i as int)),
            decreases n - i,
        {
            let c = rest.remove(0);
            assert(c == cs[i as int]);
            assert(rest@ =~= cs.skip(i + 1));
            assert(cs.take(i + 1).drop_last() =~= cs.take(i as int));
            let ghost ev0 = errors@.map_values(|e: String| e@);
            if is_reserved(c.name.as_str()) {
                let mut m = String::new();
                push_str(&mut m, "Provider '");
                push_str(&mut m, c.name.as_str());
                push_str(&mut m, "' conflicts with built-in provider name");
                errors.push(m);
                assert(errors@.map_values(|e: String| e@) =~= ev0.push(m@));
                assert(unreserved(cs.take(i + 1)) =~= unreserved(cs.take(i as int)));
                assert(base + conflict_errors(cs.take(i + 1)) =~= ev0.push(m@));
            } else {
                valid.push(c);
                assert(base + conflict_errors(cs.take(i + 1)) =~= ev0);
            }
            i = i + 1;
        }
        assert(cs.take(n as int) =~= cs);
        proof {
            lemma_unreserved(cs);
        }
        let added = sort_names(names_not_in(&valid, &self.external));
        let removed = sort_names(names_not_in(&self.external, &valid));
        self.external = valid;
        ReloadResult { added, removed, errors }
    }
}

} // verus!
