//! Configuration: the sections of `config.toml` and the rules that read them.
//!
//! Layers merge in increasing priority: built-in defaults, the user file, the
//! project override, then the file `$SEEKCLI_CONFIG` names. Reading files and
//! the environment happens outside; what is decided from their contents is
//! decided here. The two sections that hold fractional numbers (token prices
//! and the compaction ratio) stay with the caller.

use vstd::prelude::*;
use crate::text::{lit, path_join, path_join_spec, push_str, str_eq, starts_with, chars_of, string_of};
use crate::record::{debug_list, debug_strings};
use crate::text::strings_view;

verus! {

/// Env var pointing at an extra, highest-priority config file.
pub const CONFIG_ENV: &'static str = "SEEKCLI_CONFIG";
/// Project-level override, relative to the current working directory.
pub const PROJECT_CONFIG_FILE: &'static str = ".seekcli.toml";
/// Pre-0.2 config location, relative to the current working directory.
pub const LEGACY_CONFIG_FILE: &'static str = "config.toml";

/// Which models to use and which endpoint to reach them at.
pub struct BrainConfig {
    pub flash_model: String,
    pub pro_model: String,
    /// Either the `name` of a `[[provider]]` entry, or the bare wire name
    /// "openai" / "anthropic" of a built-in endpoint.
    pub provider: String,
}

/// One named endpoint.
pub struct ProviderConfig {
    pub name: String,
    /// Wire protocol: "openai" or "anthropic".
    pub wire: String,
    pub base_url: String,
    /// Where the key lives: `env:VAR` or `file:PATH`, never the key itself.
    pub api_key: String,
}

/// One MCP server to launch as a child process.
pub struct McpServerConfig {
    pub name: String,
    pub command: String,
    pub args: Vec<String>,
    /// Extra environment, ordered by variable name. Values take the same
    /// `env:VAR` / `file:PATH` / literal forms as `api_key`.
    pub env: Vec<(String, String)>,
    pub enabled: bool,
    /// Ceiling on the handshake.
    pub startup_timeout_secs: u64,
}

/// Retry and timeout tuning.
pub struct ResilienceConfig {
    pub max_attempts: u32,
    pub base_delay_ms: u64,
    pub max_delay_secs: u64,
    pub request_timeout_secs: u64,
    pub stream_idle_timeout_secs: u64,
}

impl Default for ResilienceConfig {
    fn default() -> (r: ResilienceConfig)
        ensures
            r.max_attempts == 4,
            r.base_delay_ms == 500,
            r.max_delay_secs == 30,
            r.request_timeout_secs == 120,
            r.stream_idle_timeout_secs == 60,
    {
        ResilienceConfig {
            max_attempts: 4,
            base_delay_ms: 500,
            max_delay_secs: 30,
            request_timeout_secs: 120,
            stream_idle_timeout_secs: 60,
        }
    }
}

/// User allow / deny patterns for the shell-command policy.
pub struct SecurityConfig {
    pub allow: Vec<String>,
    pub deny: Vec<String>,
}

impl Default for SecurityConfig {
    fn default() -> (r: SecurityConfig)
        ensures
            r.allow@.len() == 0,
            r.deny@.len() == 0,
    {
        SecurityConfig { allow: Vec::new(), deny: Vec::new() }
    }
}

/// Where scheduled tasks keep their state; `None` means the default place.
pub struct TasksConfig {
    pub dir: Option<String>,
}

impl Default for TasksConfig {
    fn default() -> (r: TasksConfig)
        ensures
            r.dir is None,
    {
        TasksConfig { dir: None }
    }
}

/// What one run may spend before it is stopped.
pub struct LimitsConfig {
    /// Total model calls one run may make, sub-agents included.
    pub max_llm_calls_per_run: u64,
}

impl Default for LimitsConfig {
    fn default() -> (r: LimitsConfig)
        ensures
            r.max_llm_calls_per_run == 150,
    {
        LimitsConfig { max_llm_calls_per_run: 150 }
    }
}

/// Decision-path tracing.
pub struct TraceConfig {
    pub enabled: bool,
    /// How many traces to keep; 0 keeps everything.
    pub keep: usize,
}

impl Default for TraceConfig {
    fn default() -> (r: TraceConfig)
        ensures
            r.enabled,
            r.keep == 200,
    {
        TraceConfig { enabled: true, keep: 200 }
    }
}

/// When the tools-free deliberation pass runs.
pub struct PlanningConfig {
    /// Deliberate once at the start of every chat turn.
    pub on_open: bool,
}

impl Default for PlanningConfig {
    fn default() -> (r: PlanningConfig)
        ensures
            !r.on_open,
    {
        PlanningConfig { on_open: false }
    }
}

/// The backend behind `web_search` / `web_fetch`.
pub struct ResearchConfig {
    /// `"tavily"` or `"none"`.
    pub provider: String,
    /// `env:VAR` or `file:PATH`, never a literal key.
    pub api_key: String,
    pub max_results: usize,
}

impl Default for ResearchConfig {
    fn default() -> (r: ResearchConfig)
        ensures
            r.provider@ == "none"@,
            r.api_key@.len() == 0,
            r.max_results == 5,
    {
        ResearchConfig { provider: lit("none"), api_key: String::new(), max_results: 5 }
    }
}

/// Where a secret or an environment value comes from.
pub enum ValueSource {
    /// `env:VAR`: the named environment variable.
    Env(String),
    /// `file:PATH`: the trimmed contents of the file.
    File(String),
    /// Anything else: the text itself.
    Literal(String),
}

/// How a value spec reads: the prefix decides, the rest is the name or path.
pub open spec fn value_source_spec(spec: Seq<char>) -> (Seq<char>, Seq<char>) {
    if spec.len() >= 4 && spec.take(4) == "env:"@ {
        ("env"@, spec.skip(4))
    } else if spec.len() >= 5 && spec.take(5) == "file:"@ {
        ("file"@, spec.skip(5))
    } else {
        ("literal"@, spec)
    }
}

/// Which source a `ValueSource` names, and its argument.
pub open spec fn source_view(s: ValueSource) -> (Seq<char>, Seq<char>) {
    match s {
        ValueSource::Env(v) => ("env"@, v@),
        ValueSource::File(p) => ("file"@, p@),
        ValueSource::Literal(t) => ("literal"@, t@),
    }
}

/// Read a value spec: `env:VAR`, `file:PATH`, or a literal.
pub fn value_source(spec: &str) -> (r: ValueSource)
    ensures
        source_view(r) == value_source_spec(spec@),
{
    let cs = chars_of(spec);
    let env = chars_of("env:");
    let file = chars_of("file:");
    proof {
        reveal_strlit("env:");
        reveal_strlit("file:");
    }
    if starts_with(cs.as_slice(), env.as_slice()) {
        assert(cs@.take(4) =~= "env:"@);
        let rest = crate::text::slice_chars(cs.as_slice(), 4, cs.len());
        assert(rest@ =~= spec@.skip(4));
        ValueSource::Env(string_of(rest.as_slice()))
    } else if starts_with(cs.as_slice(), file.as_slice()) {
        assert(cs@.take(5) =~= "file:"@);
        proof {
            if cs@.len() >= 4 {
                assert(cs@.take(4)[0] == 'f');
                assert(cs@.take(4) != "env:"@);
            }
        }
        let rest = crate::text::slice_chars(cs.as_slice(), 5, cs.len());
        assert(rest@ =~= spec@.skip(5));
        ValueSource::File(string_of(rest.as_slice()))
    } else {
        proof {
            if cs@.len() >= 4 && cs@.take(4) == "env:"@ {
                assert(cs@.subrange(0, 4) =~= env@);
            }
            if cs@.len() >= 5 && cs@.take(5) == "file:"@ {
                assert(cs@.subrange(0, 5) =~= file@);
            }
        }
        ValueSource::Literal(lit(spec))
    }
}

/// `~/rest` under the home directory, when there is one; anything else as is.
pub open spec fn expand_home_spec(path: Seq<char>, home: Option<Seq<char>>) -> Seq<char> {
    if path.len() >= 2 && path.take(2) == "~/"@ && home is Some {
        path_join_spec(home->0, path.skip(2))
    } else {
        path
    }
}

/// Minimal `~` expansion so `file:~/.config/key` works.
pub fn expand_home(path: &str, home: Option<&str>) -> (r: String)
    ensures
        r@ == expand_home_spec(path@, match home { Some(h) => Some(h@), None => None }),
{
    let cs = chars_of(path);
    let tilde = chars_of("~/");
    proof {
        reveal_strlit("~/");
    }
    match home {
        Some(h) => {
            if starts_with(cs.as_slice(), tilde.as_slice()) {
                assert(cs@.take(2) =~= "~/"@);
                let rest = crate::text::slice_chars(cs.as_slice(), 2, cs.len());
                assert(rest@ =~= path@.skip(2));
                let rest = string_of(rest.as_slice());
                path_join(h, rest.as_str())
            } else {
                proof {
                    if cs@.len() >= 2 && cs@.take(2) == "~/"@ {
                        assert(cs@.subrange(0, 2) =~= tilde@);
                    }
                }
                lit(path)
            }
        },
        None => lit(path),
    }
}

impl ProviderConfig {
    /// Where this provider's key lives. A literal key is refused: a key in a
    /// config file gets committed by accident.
    pub fn key_source(&self) -> (r: Result<ValueSource, String>)
        ensures
            value_source_spec(self.api_key@).0 != "literal"@ ==> (r matches Ok(s) && source_view(s)
                == value_source_spec(self.api_key@)),
            value_source_spec(self.api_key@).0 == "literal"@ ==> (r matches Err(e) && e@
                == "provider `"@ + self.name@
                + "`: api_key must be `env:VAR` or `file:PATH`, not a literal key (a key in a config file gets committed by accident)"@),
    {
        let s = value_source(self.api_key.as_str());
        proof {
            reveal_strlit("env");
            reveal_strlit("file");
            reveal_strlit("literal");
            assert("env"@.len() == 3 && "file"@.len() == 4 && "literal"@.len() == 7);
        }
        match s {
            ValueSource::Literal(_) => {
                let mut e = lit("provider `");
                push_str(&mut e, self.name.as_str());
                push_str(
                    &mut e,
                    "`: api_key must be `env:VAR` or `file:PATH`, not a literal key (a key in a config file gets committed by accident)",
                );
                Err(e)
            },
            _ => Ok(s),
        }
    }

    /// The error for a key variable that is not set.
    pub fn unset_message(&self, var: &str) -> (r: String)
        ensures
            r@ == "provider `"@ + self.name@ + "`: $"@ + var@ + " is not set"@,
    {
        let mut e = lit("provider `");
        push_str(&mut e, self.name.as_str());
        push_str(&mut e, "`: $");
        push_str(&mut e, var);
        push_str(&mut e, " is not set");
        e
    }

    /// The error for a key file that cannot be read.
    pub fn unreadable_message(&self, path: &str) -> (r: String)
        ensures
            r@ == "provider `"@ + self.name@ + "`: cannot read "@ + path@,
    {
        let mut e = lit("provider `");
        push_str(&mut e, self.name.as_str());
        push_str(&mut e, "`: cannot read ");
        push_str(&mut e, path);
        e
    }
}

impl ResearchConfig {
    /// Whether the research tools should be offered this run.
    pub fn is_enabled(&self) -> (b: bool)
        ensures
            b == (self.provider@ != "none"@ && self.provider@.len() > 0),
    {
        !str_eq(self.provider.as_str(), "none") && !self.provider.as_str().is_empty()
    }

    /// Where the research key lives; a literal key is refused.
    pub fn key_source(&self) -> (r: Result<ValueSource, String>)
        ensures
            value_source_spec(self.api_key@).0 != "literal"@ ==> (r matches Ok(s) && source_view(s)
                == value_source_spec(self.api_key@)),
            value_source_spec(self.api_key@).0 == "literal"@ ==> (r matches Err(e) && e@
                == "research.api_key must be `env:VAR` or `file:PATH`, not a literal key (a key in a config file gets committed by accident)"@),
    {
        let s = value_source(self.api_key.as_str());
        proof {
            reveal_strlit("env");
            reveal_strlit("file");
            reveal_strlit("literal");
            assert("env"@.len() == 3 && "file"@.len() == 4 && "literal"@.len() == 7);
        }
        match s {
            ValueSource::Literal(_) => {
                let e = lit(
                    "research.api_key must be `env:VAR` or `file:PATH`, not a literal key (a key in a config file gets committed by accident)",
                );
                Err(e)
            },
            _ => Ok(s),
        }
    }
}

/// The built-in endpoint for a bare wire name, with its base URL taken from
/// `base_override` when the environment supplies one.
pub open spec fn builtin_spec(wire: Seq<char>, base_override: Option<Seq<char>>) -> Option<(Seq<char>, Seq<char>, Seq<char>, Seq<char>)> {
    if wire == "openai"@ {
        Some((wire, wire, match base_override { Some(b) => b, None => "https://api.deepseek.com/v1"@ }, "env:DEEPSEEK_API_KEY"@))
    } else if wire == "anthropic"@ {
        Some((wire, wire, match base_override { Some(b) => b, None => "https://api.deepseek.com/anthropic"@ }, "env:DEEPSEEK_API_KEY"@))
    } else {
        None
    }
}

/// A provider's fields as a tuple: name, wire, base URL, key spec.
pub open spec fn provider_view(p: ProviderConfig) -> (Seq<char>, Seq<char>, Seq<char>, Seq<char>) {
    (p.name@, p.wire@, p.base_url@, p.api_key@)
}

fn opt_view(o: &Option<String>) -> (r: Option<String>)
    ensures
        match r { Some(s) => o matches Some(t) && s@ == t@, None => o is None },
{
    match o {
        Some(s) => Some(s.clone()),
        None => None,
    }
}

/// The built-in endpoint for `wire`, if it is one.
pub fn builtin_provider(wire: &str, openai_base: &Option<String>, anthropic_base: &Option<String>) -> (r: Option<ProviderConfig>)
    ensures
        match r {
            Some(p) => builtin_spec(wire@, if wire@ == "openai"@ { opt_seq(*openai_base) } else { opt_seq(*anthropic_base) }) == Some(provider_view(p)),
            None => builtin_spec(wire@, None) is None,
        },
{
    if str_eq(wire, "openai") {
        let base = match openai_base {
            Some(b) => b.clone(),
            None => lit("https://api.deepseek.com/v1"),
        };
        Some(ProviderConfig { name: lit(wire), wire: lit(wire), base_url: base, api_key: lit("env:DEEPSEEK_API_KEY") })
    } else if str_eq(wire, "anthropic") {
        let base = match anthropic_base {
            Some(b) => b.clone(),
            None => lit("https://api.deepseek.com/anthropic"),
        };
        Some(ProviderConfig { name: lit(wire), wire: lit(wire), base_url: base, api_key: lit("env:DEEPSEEK_API_KEY") })
    } else {
        None
    }
}

/// The view of an optional string.
pub open spec fn opt_seq(o: Option<String>) -> Option<Seq<char>> {
    match o {
        Some(s) => Some(s@),
        None => None,
    }
}

/// The first provider named `name`, if any.
pub open spec fn first_named(ps: Seq<ProviderConfig>, name: Seq<char>) -> Option<int> {
    if exists|i: int| 0 <= i < ps.len() && (#[trigger] ps[i]).name@ == name {
        Some(choose|i: int| 0 <= i < ps.len() && (#[trigger] ps[i]).name@ == name && forall|j: int|
            0 <= j < i ==> (#[trigger] ps[j]).name@ != name)
    } else {
        None
    }
}

/// The names of `ps`, in order.
pub open spec fn provider_names(ps: Seq<ProviderConfig>) -> Seq<Seq<char>> {
    ps.map_values(|p: ProviderConfig| p.name@)
}

/// What `brain.provider` resolves to: the first `[[provider]]` entry of that
/// name (refused when its wire is unknown), else the built-in endpoint of that
/// wire name, else an error that lists the names that were available.
pub open spec fn resolve_spec(
    brain: Seq<char>,
    ps: Seq<ProviderConfig>,
    openai_base: Option<Seq<char>>,
    anthropic_base: Option<Seq<char>>,
    r: Result<ProviderConfig, String>,
) -> bool {
    match first_named(ps, brain) {
        Some(i) => if builtin_spec(ps[i].wire@, None) is Some {
            r matches Ok(p) && provider_view(p) == provider_view(ps[i])
        } else {
            r matches Err(e) && e@ == "provider `"@ + ps[i].name@ + "` has unknown wire `"@ + ps[i].wire@
                + "`; expected \"openai\" or \"anthropic\""@
        },
        None => match builtin_spec(brain, if brain == "openai"@ { openai_base } else { anthropic_base }) {
            Some(v) => r matches Ok(p) && provider_view(p) == v,
            None => r matches Err(e) && e@ == "brain.provider = `"@ + brain + "` matches no [[provider]] entry "@
                + debug_strings(provider_names(ps))
                + " and is not a built-in wire name (\"openai\" / \"anthropic\")"@,
        },
    }
}

fn clone_provider(p: &ProviderConfig) -> (r: ProviderConfig)
    ensures
        provider_view(r) == provider_view(*p),
{
    ProviderConfig {
        name: p.name.clone(),
        wire: p.wire.clone(),
        base_url: p.base_url.clone(),
        api_key: p.api_key.clone(),
    }
}

/// Resolve `brain.provider` to a concrete endpoint. The two bases are the
/// overrides the environment gives for the built-in endpoints, if any.
pub fn resolve_provider(
    brain: &BrainConfig,
    providers: &Vec<ProviderConfig>,
    openai_base: &Option<String>,
    anthropic_base: &Option<String>,
) -> (r: Result<ProviderConfig, String>)
    ensures
        resolve_spec(brain.provider@, providers@, opt_seq(*openai_base), opt_seq(*anthropic_base), r),
{
    let mut i: usize = 0;
    while i < providers.len()
        invariant
            i <= providers@.len(),
            forall|j: int| 0 <= j < i ==> (#[trigger] providers@[j]).name@ != brain.provider@,
        decreases providers.len() - i,
    {
        if str_eq(providers[i].name.as_str(), brain.provider.as_str()) {
            let ghost ps = providers@;
            let ghost name = brain.provider@;
            assert(first_named(ps, name) == Some(i as int)) by {
                assert(ps[i as int].name@ == name);
                let k = choose|k: int| 0 <= k < ps.len() && (#[trigger] ps[k]).name@ == name && forall|j: int|
                    0 <= j < k ==> (#[trigger] ps[j]).name@ != name;
                assert(forall|j: int| 0 <= j < i ==> (#[trigger] ps[j]).name@ != name);
                if k < i {
                    assert(ps[k].name@ != name);
                }
                if k > i {
                    assert(ps[i as int].name@ != name);
                }
            }
            let p = &providers[i];
            let none: Option<String> = None;
            if builtin_provider(p.wire.as_str(), &none, &none).is_none() {
                let mut e = lit("provider `");
                push_str(&mut e, p.name.as_str());
                push_str(&mut e, "` has unknown wire `");
                push_str(&mut e, p.wire.as_str());
                push_str(&mut e, "`; expected \"openai\" or \"anthropic\"");
                return Err(e);
            }
            return Ok(clone_provider(p));
        }
        i += 1;
    }
    assert(first_named(providers@, brain.provider@) is None);
    match builtin_provider(brain.provider.as_str(), openai_base, anthropic_base) {
        Some(p) => Ok(p),
        None => {
            let mut names: Vec<String> = Vec::new();
            let mut k: usize = 0;
            while k < providers.len()
                invariant
                    k <= providers@.len(),
                    names@.len() == k,
                    strings_view(names@) == provider_names(providers@).take(k as int),
                decreases providers.len() - k,
            {
                names.push(providers[k].name.clone());
                assert(provider_names(providers@)[k as int] == providers@[k as int].name@);
                assert(strings_view(names@)[k as int] == providers@[k as int].name@);
                assert(strings_view(names@) =~= provider_names(providers@).take(k + 1));
                k += 1;
            }
            assert(provider_names(providers@).take(k as int) =~= provider_names(providers@));
            let mut e = lit("brain.provider = `");
            push_str(&mut e, brain.provider.as_str());
            push_str(&mut e, "` matches no [[provider]] entry ");
            push_str(&mut e, debug_list(&names).as_str());
            push_str(&mut e, " and is not a built-in wire name (\"openai\" / \"anthropic\")");
            Err(e)
        },
    }
}

/// Where each layer lives.
pub struct Layout {
    pub user: String,
    pub project: String,
    pub legacy: String,
    pub explicit: Option<String>,
}

impl Layout {
    /// The standard places: the user file under `home`, the project override
    /// and the legacy file in `cwd`, and the explicit file if one is named.
    pub fn standard(home: &str, cwd: &str, explicit: Option<String>) -> (r: Layout)
        ensures
            r.user@ == path_join_spec(path_join_spec(home@, ".seekcli"@), "config.toml"@),
            r.project@ == path_join_spec(cwd@, PROJECT_CONFIG_FILE@),
            r.legacy@ == path_join_spec(cwd@, LEGACY_CONFIG_FILE@),
            r.explicit == explicit,
    {
        let dir = path_join(home, ".seekcli");
        Layout {
            user: path_join(dir.as_str(), "config.toml"),
            project: path_join(cwd, PROJECT_CONFIG_FILE),
            legacy: path_join(cwd, LEGACY_CONFIG_FILE),
            explicit,
        }
    }

    /// Layer paths in increasing priority.
    pub fn layers(&self) -> (r: Vec<String>)
        ensures
            strings_view(r@) == (match self.explicit {
                Some(e) => seq![self.user@, self.project@, e@],
                None => seq![self.user@, self.project@],
            }),
    {
        let mut out: Vec<String> = Vec::new();
        out.push(self.user.clone());
        out.push(self.project.clone());
        match &self.explicit {
            Some(e) => {
                out.push(e.clone());
                assert(strings_view(out@) =~= seq![self.user@, self.project@, e@]);
            },
            None => {
                assert(strings_view(out@) =~= seq![self.user@, self.project@]);
            },
        }
        out
    }

    /// The notice about a pre-0.2 `./config.toml`, which is no longer read:
    /// given only while no user config exists yet and the legacy file does.
    pub fn legacy_notice(&self, user_existed: bool, legacy_exists: bool) -> (r: Option<String>)
        ensures
            (user_existed || !legacy_exists) ==> r is None,
            (!user_existed && legacy_exists) ==> (r matches Some(n) && n@ == legacy_notice_spec(self.user@, self.legacy@)),
    {
        if user_existed || !legacy_exists {
            return None;
        }
        let mut s = lit("[Config] found a legacy ");
        push_str(&mut s, LEGACY_CONFIG_FILE);
        push_str(&mut s, " in this directory; it is no longer read.\n          SeekCLI now loads ");
        push_str(&mut s, self.user.as_str());
        push_str(&mut s, " (plus an optional ./");
        push_str(&mut s, PROJECT_CONFIG_FILE);
        push_str(&mut s, " override).\n          To carry those settings over (overwrites the generated default):\n            cp ");
        push_str(&mut s, self.legacy.as_str());
        push_str(&mut s, " ");
        push_str(&mut s, self.user.as_str());
        Some(s)
    }
}

/// The migration notice for a leftover legacy file.
pub open spec fn legacy_notice_spec(user: Seq<char>, legacy: Seq<char>) -> Seq<char> {
    "[Config] found a legacy "@ + LEGACY_CONFIG_FILE@ + " in this directory; it is no longer read.\n          SeekCLI now loads "@
        + user + " (plus an optional ./"@ + PROJECT_CONFIG_FILE@
        + " override).\n          To carry those settings over (overwrites the generated default):\n            cp "@
        + legacy + " "@ + user
}

/// The notice after the default user config was written.
pub fn generated_notice(path: &str) -> (r: String)
    ensures
        r@ == "[Config] generated default config at "@ + path@,
{
    let mut s = lit("[Config] generated default config at ");
    push_str(&mut s, path);
    s
}

/// The notice when the default user config could not be written; startup
/// goes on with the built-in defaults.
pub fn not_created_notice(path: &str, err: &str) -> (r: String)
    ensures
        r@ == "[Config] could not create "@ + path@ + " ("@ + err@ + "); continuing with built-in defaults"@,
{
    let mut s = lit("[Config] could not create ");
    push_str(&mut s, path);
    push_str(&mut s, " (");
    push_str(&mut s, err);
    push_str(&mut s, "); continuing with built-in defaults");
    s
}

/// The error when the explicitly named config file does not exist: the user
/// asked for a specific config and did not get it.
pub fn missing_explicit_message(path: &str) -> (r: String)
    ensures
        r@ == CONFIG_ENV@ + " points at "@ + path@ + ", which does not exist"@,
{
    let mut s = lit(CONFIG_ENV);
    push_str(&mut s, " points at ");
    push_str(&mut s, path);
    push_str(&mut s, ", which does not exist");
    s
}

} // verus!
