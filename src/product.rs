//! The product configuration: planner providers, the kernel's address, and
//! the small parsers of the command line.

use vstd::prelude::*;
use crate::brain::{decimal, decimal_string, strs};
use crate::proxy::{lower, trim_slashes, trim_end_slashes};
use crate::extract::{find_from};
use crate::text::{has_prefix, starts_with, after_prefix, trim, trim_string, str_eq, chars_of, string_of};

verus! {

#[derive(Debug, Clone)]
pub struct RmvmSettings {
    pub mode: String,
    pub endpoint: Option<String>,
    pub host: String,
    pub port: u16,
    pub sidecar_path: Option<String>,
}

#[derive(Debug, Clone)]
pub struct ProviderProfile {
    pub name: String,
    pub planner_mode: String,
    pub planner_base_url: String,
    pub planner_model: String,
    pub planner_api_key_ref: Option<String>,
}

/// The product's configuration; `providers` holds each key once, sorted.
#[derive(Debug, Clone)]
pub struct ProductConfig {
    pub version: u32,
    pub tenant: String,
    pub active_brain: Option<String>,
    pub active_provider: String,
    pub proxy_addr: String,
    pub proxy_api_key: Option<String>,
    pub brain_secret_env: String,
    pub brain_secret_ref: String,
    pub rmvm: RmvmSettings,
    pub providers: Vec<(String, ProviderProfile)>,
}

#[derive(Debug, Clone, Default)]
pub struct RuntimeState {
    pub proxy_pid: Option<u32>,
    pub rmvm_pid: Option<u32>,
    pub rmvm_mode: String,
    pub rmvm_endpoint: String,
    pub proxy_addr: String,
    pub last_started_at: Option<String>,
}

#[derive(Debug, Clone)]
pub struct SetupResult {
    pub brain_id: String,
    pub provider: String,
    pub model: String,
    pub proxy_addr: String,
    pub rmvm_mode: String,
    pub rmvm_endpoint: String,
}

#[derive(Debug, Clone)]
pub struct SetupRequest {
    pub non_interactive: bool,
    pub provider: Option<String>,
    pub model: Option<String>,
    pub planner_base_url: Option<String>,
    pub planner_api_key: Option<String>,
    pub planner_api_key_env: Option<String>,
    pub brain: Option<String>,
    pub tenant: String,
    pub api_key: Option<String>,
    pub rmvm_endpoint: Option<String>,
    pub proxy_addr: Option<String>,
    pub rmvm_port: Option<u16>,
    pub force: bool,
}

#[derive(Debug, Clone)]
pub struct UpRequest {
    pub detached: bool,
    pub proxy_addr: Option<String>,
    pub rmvm_endpoint: Option<String>,
    pub rmvm_port: Option<u16>,
    pub brain: Option<String>,
    pub provider: Option<String>,
    pub reuse_external_rmvm: bool,
}

#[derive(Debug, Clone)]
pub struct StopRequest {
    pub all: bool,
    pub proxy_only: bool,
    pub rmvm_only: bool,
    pub force: bool,
}

#[derive(Debug, Clone)]
pub struct StatusRequest {
    pub json: bool,
    pub verbose: bool,
    pub copy: bool,
}

#[derive(Debug, Clone)]
pub struct LogsRequest {
    pub service: String,
    pub tail: usize,
    pub follow: bool,
}

#[derive(Debug, Clone, Copy, PartialEq, Eq, Structural)]
pub enum RestartPolicy {
    Auto,
    Never,
}

/// Where the product keeps its configuration and its runtime state.
#[derive(Debug, Clone)]
pub struct Paths {
    pub config_dir: String,
    pub state_dir: String,
}

impl Paths {
    pub fn config_file(&self) -> (r: String)
        ensures
            r@ == self.config_dir@ + "/config.json"@,
    {
        self.config_dir.clone().concat("/config.json")
    }

    pub fn runtime_file(&self) -> (r: String)
        ensures
            r@ == self.state_dir@ + "/runtime.json"@,
    {
        self.state_dir.clone().concat("/runtime.json")
    }

    pub fn logs_dir(&self) -> (r: String)
        ensures
            r@ == self.state_dir@ + "/logs"@,
    {
        self.state_dir.clone().concat("/logs")
    }

    pub fn proxy_log_file(&self) -> (r: String)
        ensures
            r@ == self.state_dir@ + "/logs"@ + "/proxy.log"@,
    {
        self.logs_dir().concat("/proxy.log")
    }

    pub fn rmvm_log_file(&self) -> (r: String)
        ensures
            r@ == self.state_dir@ + "/logs"@ + "/rmvm.log"@,
    {
        self.logs_dir().concat("/rmvm.log")
    }

    pub fn fallback_secrets_file(&self) -> (r: String)
        ensures
            r@ == self.state_dir@ + "/secrets.enc.json"@,
    {
        self.state_dir.clone().concat("/secrets.enc.json")
    }

    pub fn fallback_key_file(&self) -> (r: String)
        ensures
            r@ == self.state_dir@ + "/secrets.key"@,
    {
        self.state_dir.clone().concat("/secrets.key")
    }
}

/// The name of the kernel's sidecar program on this platform.
pub fn sidecar_binary_name(windows: bool) -> (r: &'static str)
    ensures
        r@ == if windows {
            "rmvm-grpc-server.exe"@
        } else {
            "rmvm-grpc-server"@
        },
{
    if windows {
        "rmvm-grpc-server.exe"
    } else {
        "rmvm-grpc-server"
    }
}

/// A kernel address as a `grpc://` URL.
pub open spec fn grpc_url(s: Seq<char>) -> Seq<char> {
    if has_prefix(s, "grpc://"@) {
        s
    } else if has_prefix(s, "http://"@) {
        "grpc://"@ + s.subrange(7, s.len() as int)
    } else if has_prefix(s, "https://"@) {
        "grpc://"@ + s.subrange(8, s.len() as int)
    } else {
        "grpc://"@ + s
    }
}

pub fn normalize_grpc_endpoint(input: &str) -> (r: String)
    ensures
        r@ == grpc_url(input@),
{
    proof {
        reveal_strlit("http://");
        reveal_strlit("https://");
    }
    if starts_with(input, "grpc://") {
        String::from_str(input)
    } else if starts_with(input, "http://") {
        String::from_str("grpc://").concat(after_prefix(input, "http://").as_str())
    } else if starts_with(input, "https://") {
        String::from_str("grpc://").concat(after_prefix(input, "https://").as_str())
    } else {
        String::from_str("grpc://").concat(input)
    }
}

fn profile(name: &str, mode: &str, base_url: &str, model: &str, key_ref: Option<&str>) -> (r: (
    String,
    ProviderProfile,
))
    ensures
        r.0@ == name@,
        r.1.name@ == name@,
        r.1.planner_mode@ == mode@,
        r.1.planner_base_url@ == base_url@,
        r.1.planner_model@ == model@,
        match r.1.planner_api_key_ref {
            Some(k) => key_ref matches Some(x) && k@ == x@,
            None => key_ref.is_none(),
        },
{
    (
        String::from_str(name),
        ProviderProfile {
            name: String::from_str(name),
            planner_mode: String::from_str(mode),
            planner_base_url: String::from_str(base_url),
            planner_model: String::from_str(model),
            planner_api_key_ref: match key_ref {
                Some(k) => Some(String::from_str(k)),
                None => None,
            },
        },
    )
}

/// The profile stored under `key` with these fields.
pub open spec fn is_profile(
    e: (String, ProviderProfile),
    key: Seq<char>,
    mode: Seq<char>,
    base_url: Seq<char>,
    model: Seq<char>,
    key_ref: Option<Seq<char>>,
) -> bool {
    &&& e.0@ == key
    &&& e.1.name@ == key
    &&& e.1.planner_mode@ == mode
    &&& e.1.planner_base_url@ == base_url
    &&& e.1.planner_model@ == model
    &&& match e.1.planner_api_key_ref {
        Some(k) => key_ref == Some(k@),
        None => key_ref.is_none(),
    }
}

/// The built-in planner providers, sorted by key.
pub fn default_providers() -> (r: Vec<(String, ProviderProfile)>)
    ensures
        r@.len() == 4,
        is_profile(r@[0], "byo"@, "byo"@, "http://unused"@, "byo-plan"@, None),
        is_profile(
            r@[1],
            "gemini"@,
            "openai"@,
            "https://generativelanguage.googleapis.com/v1beta/openai/"@,
            "gemini-3-flash-preview"@,
            Some("provider.gemini.api_key"@),
        ),
        is_profile(r@[2], "ollama"@, "openai"@, "http://127.0.0.1:11434/v1"@, "llama3.1"@, None),
        is_profile(
            r@[3],
            "openai"@,
            "openai"@,
            "https://api.openai.com/v1"@,
            "gpt-4o-mini"@,
            Some("provider.openai.api_key"@),
        ),
{
    vec![
        profile("byo", "byo", "http://unused", "byo-plan", None),
        profile(
            "gemini",
            "openai",
            "https://generativelanguage.googleapis.com/v1beta/openai/",
            "gemini-3-flash-preview",
            Some("provider.gemini.api_key"),
        ),
        profile("ollama", "openai", "http://127.0.0.1:11434/v1", "llama3.1", None),
        profile("openai", "openai", "https://api.openai.com/v1", "gpt-4o-mini", Some("provider.openai.api_key")),
    ]
}

/// The configuration written on first start.
pub fn default_config() -> (r: ProductConfig)
    ensures
        r.version == 1,
        r.tenant@ == "local"@,
        r.active_brain.is_none(),
        r.active_provider@ == "openai"@,
        r.proxy_addr@ == "127.0.0.1:8080"@,
        r.brain_secret_env@ == "CORTEX_BRAIN_SECRET"@,
        r.rmvm.mode@ == "managed"@,
        r.rmvm.host@ == "127.0.0.1"@,
        r.rmvm.port == 50051,
        r.providers@.len() == 4,
{
    ProductConfig {
        version: 1,
        tenant: String::from_str("local"),
        active_brain: None,
        active_provider: String::from_str("openai"),
        proxy_addr: String::from_str("127.0.0.1:8080"),
        proxy_api_key: None,
        brain_secret_env: String::from_str("CORTEX_BRAIN_SECRET"),
        brain_secret_ref: String::from_str("brain.default.secret"),
        rmvm: RmvmSettings {
            mode: String::from_str("managed"),
            endpoint: None,
            host: String::from_str("127.0.0.1"),
            port: 50051,
            sidecar_path: None,
        },
        providers: default_providers(),
    }
}

/// The provider named `name`, or else the active one.
pub fn resolve_provider<'a>(cfg: &'a ProductConfig, name: Option<&str>) -> (r: Option<&'a ProviderProfile>)
    ensures
        ({
            let wanted = match name {
                Some(n) => n@,
                None => cfg.active_provider@,
            };
            match r {
                Some(p) => exists|i: int|
                    0 <= i < cfg.providers@.len() && cfg.providers@[i].0@ == wanted && cfg.providers@[i].1
                        == *p,
                None => forall|i: int| 0 <= i < cfg.providers@.len() ==> (#[trigger] cfg.providers@[i]).0@ != wanted,
            }
        }),
{
    let wanted = match name {
        Some(n) => String::from_str(n),
        None => cfg.active_provider.clone(),
    };
    let mut i: usize = 0;
    while i < cfg.providers.len()
        invariant
            i <= cfg.providers@.len(),
            wanted@ == match name {
                Some(n) => n@,
                None => cfg.active_provider@,
            },
            forall|k: int| 0 <= k < i ==> (#[trigger] cfg.providers@[k]).0@ != wanted@,
        decreases cfg.providers.len() - i,
    {
        if cfg.providers[i].0 == wanted {
            return Some(&cfg.providers[i].1);
        }
        i += 1;
    }
    None
}

/// The kernel's address: the configured endpoint in external mode, else
/// `grpc://host:port`.
pub fn rmvm_endpoint(cfg: &ProductConfig) -> (r: String)
    ensures
        ({
            let local = "grpc://"@ + cfg.rmvm.host@ + ":"@ + decimal(cfg.rmvm.port as nat);
            r@ == if cfg.rmvm.mode@ == "external"@ {
                match cfg.rmvm.endpoint {
                    Some(e) => e@,
                    None => local,
                }
            } else {
                local
            }
        }),
{
    let local = String::from_str("grpc://").concat(cfg.rmvm.host.as_str()).concat(":").concat(
        decimal_string(cfg.rmvm.port as usize).as_str(),
    );
    if str_eq(cfg.rmvm.mode.as_str(), "external") {
        match &cfg.rmvm.endpoint {
            Some(e) => e.clone(),
            None => local,
        }
    } else {
        local
    }
}

/// The display name of a provider key (any case); unknown keys lowered.
pub fn provider_display_name(name: &str) -> (r: String)
    ensures
        r@ == if lower(name@) == "openai"@ {
            "OpenAI"@
        } else if lower(name@) == "gemini"@ {
            "Gemini"@
        } else if lower(name@) == "ollama"@ {
            "Ollama"@
        } else if lower(name@) == "byo"@ {
            "BYO"@
        } else {
            lower(name@)
        },
{
    let l = crate::proxy::lower_str(name);
    let s = l.as_str();
    if str_eq(s, "openai") {
        String::from_str("OpenAI")
    } else if str_eq(s, "gemini") {
        String::from_str("Gemini")
    } else if str_eq(s, "ollama") {
        String::from_str("Ollama")
    } else if str_eq(s, "byo") {
        String::from_str("BYO")
    } else {
        l
    }
}

pub fn dashboard_url(cfg: &ProductConfig) -> (r: String)
    ensures
        r@ == "http://"@ + cfg.proxy_addr@ + "/dashboard"@,
{
    String::from_str("http://").concat(cfg.proxy_addr.as_str()).concat("/dashboard")
}

/// `p` occurs somewhere in `s`.
pub open spec fn contains(s: Seq<char>, p: Seq<char>) -> bool {
    find_from(s, p, 0).is_some()
}

fn contains_str(s: &str, p: &str) -> (r: bool)
    ensures
        r == contains(s@, p@),
{
    crate::extract::find_in(s, p).is_some()
}

/// A planner base URL needs an API key unless it points at this machine or
/// at Ollama.
pub open spec fn url_needs_key(url: Seq<char>) -> bool {
    let u = lower(url);
    !(contains(u, "127.0.0.1"@) || contains(u, "localhost"@) || contains(u, "ollama"@))
}

pub fn planner_base_url_requires_api_key(base_url: &str) -> (r: bool)
    ensures
        r == url_needs_key(base_url@),
{
    let u = crate::proxy::lower_str(base_url);
    !(contains_str(u.as_str(), "127.0.0.1") || contains_str(u.as_str(), "localhost") || contains_str(
        u.as_str(),
        "ollama",
    ))
}

pub fn provider_requires_planner_key(provider: &ProviderProfile) -> (r: bool)
    ensures
        r == (provider.planner_mode@ == "openai"@ && url_needs_key(provider.planner_base_url@)),
{
    if !str_eq(provider.planner_mode.as_str(), "openai") {
        return false;
    }
    planner_base_url_requires_api_key(provider.planner_base_url.as_str())
}

/// The health URL of a proxy base URL, with a trailing `/v1` dropped.
pub open spec fn healthz_url(base: Seq<char>) -> Seq<char> {
    let b = trim_slashes(base);
    let c = if b.len() >= 3 && b.subrange(b.len() - 3, b.len() as int) == "/v1"@ {
        b.subrange(0, b.len() - 3)
    } else {
        b
    };
    trim_slashes(c) + "/healthz"@
}

pub fn derive_healthz_url(proxy_base_url: &str) -> (r: String)
    ensures
        r@ == healthz_url(proxy_base_url@),
{
    proof {
        reveal_strlit("/v1");
    }
    let b = trim_end_slashes(proxy_base_url);
    let cs = chars_of(b.as_str());
    let n = cs.len();
    let ends_v1 = n >= 3 && cs[n - 3] == '/' && cs[n - 2] == 'v' && cs[n - 1] == '1';
    proof {
        if n >= 3 {
            if ends_v1 {
                assert(b@.subrange(n - 3, n as int) =~= "/v1"@);
            } else {
                assert(b@.subrange(n - 3, n as int) != "/v1"@ ) by {
                    if b@.subrange(n - 3, n as int) == "/v1"@ {
                        assert(b@.subrange(n - 3, n as int)[0] == '/');
                        assert(b@.subrange(n - 3, n as int)[1] == 'v');
                        assert(b@.subrange(n - 3, n as int)[2] == '1');
                    }
                }
            }
        }
    }
    let c = if ends_v1 {
        string_of(cs.as_slice(), 0, n - 3)
    } else {
        assert(cs@.subrange(0, n as int) =~= cs@);
        string_of(cs.as_slice(), 0, n)
    };
    trim_end_slashes(c.as_str()).concat("/healthz")
}

/// The restart policy was neither `auto` nor `never`.
#[derive(Debug, Clone)]
pub struct InvalidChoice {
    pub given: String,
}

pub fn parse_restart_policy(value: &str) -> (r: Result<RestartPolicy, InvalidChoice>)
    ensures
        ({
            let v = lower(trim(value@));
            if v == "auto"@ {
                r == Ok::<RestartPolicy, InvalidChoice>(RestartPolicy::Auto)
            } else if v == "never"@ {
                r == Ok::<RestartPolicy, InvalidChoice>(RestartPolicy::Never)
            } else {
                r matches Err(e) && e.given@ == v
            }
        }),
{
    let v = crate::proxy::lower_str(trim_string(value).as_str());
    if str_eq(v.as_str(), "auto") {
        Ok(RestartPolicy::Auto)
    } else if str_eq(v.as_str(), "never") {
        Ok(RestartPolicy::Never)
    } else {
        Err(InvalidChoice { given: v })
    }
}

pub open spec fn truthy(v: Seq<char>) -> bool {
    v == "1"@ || v == "true"@ || v == "yes"@ || v == "y"@ || v == "on"@
}

pub open spec fn falsy(v: Seq<char>) -> bool {
    v == "0"@ || v == "false"@ || v == "no"@ || v == "n"@ || v == "off"@
}

/// Reads a boolean flag value (1/true/yes/y/on or 0/false/no/n/off, any case).
pub fn parse_bool_flag(name: &str, value: &str) -> (r: Result<bool, InvalidChoice>)
    ensures
        ({
            let v = lower(trim(value@));
            if truthy(v) {
                r == Ok::<bool, InvalidChoice>(true)
            } else if falsy(v) {
                r == Ok::<bool, InvalidChoice>(false)
            } else {
                r matches Err(e) && e.given@ == v
            }
        }),
{
    let v = crate::proxy::lower_str(trim_string(value).as_str());
    let s = v.as_str();
    if str_eq(s, "1") || str_eq(s, "true") || str_eq(s, "yes") || str_eq(s, "y") || str_eq(s, "on") {
        Ok(true)
    } else if str_eq(s, "0") || str_eq(s, "false") || str_eq(s, "no") || str_eq(s, "n") || str_eq(
        s,
        "off",
    ) {
        Ok(false)
    } else {
        Err(InvalidChoice { given: v })
    }
}

/// The comma-separated items of `s`, trimmed, without empty ones.
pub open spec fn csv_items(s: Seq<char>) -> Seq<Seq<char>>
    decreases s.len(),
{
    csv_from(s, 0, 0)
}

/// Items from position `i`, the current item having started at `start`.
pub open spec fn csv_from(s: Seq<char>, start: int, i: int) -> Seq<Seq<char>>
    decreases s.len() - i,
{
    if i < start || start < 0 || i > s.len() {
        seq![]
    } else if i == s.len() || s[i] == ',' {
        let item = trim(s.subrange(start, i));
        let rest = if i == s.len() {
            seq![]
        } else {
            csv_from(s, i + 1, i + 1)
        };
        if item.len() == 0 {
            rest
        } else {
            seq![item] + rest
        }
    } else {
        csv_from(s, start, i + 1)
    }
}

pub fn split_csv(s: &str) -> (r: Vec<String>)
    ensures
        strs(r@) == csv_items(s@),
{
    let cs = chars_of(s);
    let mut out: Vec<String> = Vec::new();
    let mut start: usize = 0;
    let mut i: usize = 0;
    while i < cs.len()
        invariant
            cs@ == s@,
            start <= i <= cs@.len(),
            csv_items(s@) == strs(out@) + csv_from(s@, start as int, i as int),
        decreases cs.len() - i,
    {
        if cs[i] == ',' {
            let item = trim_string(string_of(cs.as_slice(), start, i).as_str());
            let ghost o0 = out@;
            let ghost rest = csv_from(s@, i + 1, i + 1);
            if item.unicode_len() > 0 {
                out.push(item);
                assert(strs(out@) =~= strs(o0).push(item@));
                assert(strs(o0) + (seq![item@] + rest) =~= strs(out@) + rest);
            }
            start = i + 1;
        }
        i += 1;
    }
    let item = trim_string(string_of(cs.as_slice(), start, i).as_str());
    let ghost o0 = out@;
    if item.unicode_len() > 0 {
        out.push(item);
        assert(strs(out@) =~= strs(o0).push(item@));
        assert(strs(o0) + seq![item@] =~= strs(out@));
    } else {
        assert(strs(o0) + seq![] =~= strs(out@));
    }
    out
}

} // verus!
