//! Configuration: its parts, their defaults, and references to environment
//! variables.
use crate::error::{GatewayError, GatewayResult};
use crate::text::{
    concat2, concat3, find_from, is_first_occurrence, occurs_at, same, slice_chars, to_chars,
};
use vstd::prelude::*;

verus! {

// ---------------------------------------------------------------- top level
/// The whole configuration. Named sections are lists of names and sections.
#[derive(Debug)]
pub struct Config {
    pub server: ServerConfig,
    pub routing: RoutingConfig,
    pub fallback: Vec<String>,
    pub agents: Vec<(String, AgentConfig)>,
    pub models: Vec<(String, ModelAlias)>,
    pub providers: Vec<(String, ProviderConfig)>,
    pub watcher: WatcherConfig,
    pub state: StateConfig,
    pub cors: CorsConfig,
    pub adaptive_routing: AdaptiveRoutingConfig,
}

// ---------------------------------------------------------------- server
#[derive(Debug)]
pub struct ServerConfig {
    pub host: String,
    pub port: u16,
    pub log_level: String,
    pub request_timeout: u64,
    pub sse_keepalive: u64,
}

pub fn default_host() -> (r: String)
    ensures
        r@ == "127.0.0.1"@,
{
    "127.0.0.1".to_owned()
}

pub fn default_port() -> (r: u16)
    ensures
        r == 9000,
{
    9000
}

pub fn default_log_level() -> (r: String)
    ensures
        r@ == "info"@,
{
    "info".to_owned()
}

pub fn default_timeout() -> (r: u64)
    ensures
        r == 120,
{
    120
}

pub fn default_sse_keepalive() -> (r: u64)
    ensures
        r == 15,
{
    15
}

// ---------------------------------------------------------------- routing
/// How a key is chosen among those that can serve.
#[derive(Debug, Clone, Copy, PartialEq, Eq, Structural)]
pub enum RoutingStrategy {
    RoundRobin,
    Random,
    LeastFailed,
    LeastRate,
    Priority,
}

/// The strategy of a name.
pub open spec fn strategy_named(name: Seq<char>) -> Option<RoutingStrategy> {
    if name == "round_robin"@ {
        Some(RoutingStrategy::RoundRobin)
    } else if name == "random"@ {
        Some(RoutingStrategy::Random)
    } else if name == "least_failed"@ {
        Some(RoutingStrategy::LeastFailed)
    } else if name == "least_rate"@ {
        Some(RoutingStrategy::LeastRate)
    } else if name == "priority"@ {
        Some(RoutingStrategy::Priority)
    } else {
        None
    }
}

impl RoutingStrategy {
    /// The strategy of a name; an unknown name is a configuration error.
    pub fn parse(s: &str) -> (r: GatewayResult<RoutingStrategy>)
        ensures
            match strategy_named(s@) {
                Some(strategy) => r == Ok::<RoutingStrategy, GatewayError>(strategy),
                None => r matches Err(GatewayError::Config(m)) && m@
                    == "Unknown routing strategy: "@ + s@,
            },
    {
        if same(s, "round_robin") {
            Ok(RoutingStrategy::RoundRobin)
        } else if same(s, "random") {
            Ok(RoutingStrategy::Random)
        } else if same(s, "least_failed") {
            Ok(RoutingStrategy::LeastFailed)
        } else if same(s, "least_rate") {
            Ok(RoutingStrategy::LeastRate)
        } else if same(s, "priority") {
            Ok(RoutingStrategy::Priority)
        } else {
            Err(GatewayError::Config(concat2("Unknown routing strategy: ", s)))
        }
    }
}

impl std::str::FromStr for RoutingStrategy {
    type Err = GatewayError;

    fn from_str(s: &str) -> GatewayResult<RoutingStrategy> {
        RoutingStrategy::parse(s)
    }
}

#[derive(Debug, Clone, Copy, PartialEq, Eq, Structural)]
pub struct RoutingConfig {
    pub strategy: RoutingStrategy,
    pub fail_threshold: u32,
    pub cooldown_seconds: u64,
    pub auto_discover: bool,
}

pub fn default_routing_strategy() -> (r: RoutingStrategy)
    ensures
        r == RoutingStrategy::LeastFailed,
{
    RoutingStrategy::LeastFailed
}

pub fn default_fail_threshold() -> (r: u32)
    ensures
        r == 3,
{
    3
}

pub fn default_cooldown() -> (r: u64)
    ensures
        r == 600,
{
    600
}

pub fn default_auto_discover() -> (r: bool)
    ensures
        r,
{
    true
}

// ---------------------------------------------------------------- agents and models
#[derive(Debug)]
pub struct AgentConfig {
    pub default_model: String,
}

#[derive(Debug)]
pub struct ModelAlias {
    pub provider: String,
    pub model: String,
}

// ---------------------------------------------------------------- providers
#[derive(Debug, Clone, Copy, PartialEq, Eq, Structural)]
pub enum ProviderType {
    GithubModels,
    Nvidia,
    OpenaiCompatible,
    Ollama,
    Gemini,
    HuggingFace,
    Cloudflare,
}

/// The name of a provider type.
pub open spec fn provider_type_name(t: ProviderType) -> Seq<char> {
    match t {
        ProviderType::GithubModels => "github_models"@,
        ProviderType::Nvidia => "nvidia"@,
        ProviderType::OpenaiCompatible => "openai_compatible"@,
        ProviderType::Ollama => "ollama"@,
        ProviderType::Gemini => "gemini"@,
        ProviderType::HuggingFace => "hugging_face"@,
        ProviderType::Cloudflare => "cloudflare"@,
    }
}

impl ProviderType {
    /// The name of the provider type.
    pub fn to_string(&self) -> (r: String)
        ensures
            r@ == provider_type_name(*self),
    {
        match self {
            ProviderType::GithubModels => "github_models".to_owned(),
            ProviderType::Nvidia => "nvidia".to_owned(),
            ProviderType::OpenaiCompatible => "openai_compatible".to_owned(),
            ProviderType::Ollama => "ollama".to_owned(),
            ProviderType::Gemini => "gemini".to_owned(),
            ProviderType::HuggingFace => "hugging_face".to_owned(),
            ProviderType::Cloudflare => "cloudflare".to_owned(),
        }
    }
}

#[derive(Debug, Clone, Copy, PartialEq, Eq, Structural)]
pub enum KeyTier {
    Free,
    Paid,
    Unknown,
}

impl Default for KeyTier {
    fn default() -> (r: KeyTier)
        ensures
            r == KeyTier::Unknown,
    {
        KeyTier::Unknown
    }
}

/// The name of a tier.
pub open spec fn tier_name(t: KeyTier) -> Seq<char> {
    match t {
        KeyTier::Free => "free"@,
        KeyTier::Paid => "paid"@,
        KeyTier::Unknown => "unknown"@,
    }
}

impl KeyTier {
    /// The name of the tier.
    pub fn to_string(&self) -> (r: String)
        ensures
            r@ == tier_name(*self),
    {
        match self {
            KeyTier::Free => "free".to_owned(),
            KeyTier::Paid => "paid".to_owned(),
            KeyTier::Unknown => "unknown".to_owned(),
        }
    }
}

/// A configured key: its value alone, or with a tier and limits.
#[derive(Debug)]
pub enum KeyConfig {
    Legacy(String),
    Detailed {
        value: String,
        tier: KeyTier,
        /// Max requests per minute (None = unlimited).
        rpm_limit: Option<u32>,
        /// Max requests per day (None = unlimited).
        rpd_limit: Option<u32>,
        /// Max prompt tokens per minute (None = unlimited).
        tpm_limit: Option<u32>,
        /// Max tokens per day (None = unlimited).
        tpd_limit: Option<u32>,
    },
}

/// What a configured key says.
pub struct KeyConfigView {
    pub value: Seq<char>,
    pub tier: KeyTier,
    pub rpm_limit: Option<u32>,
    pub rpd_limit: Option<u32>,
    pub tpm_limit: Option<u32>,
    pub tpd_limit: Option<u32>,
}

impl View for KeyConfig {
    type V = KeyConfigView;

    open spec fn view(&self) -> KeyConfigView {
        match self {
            KeyConfig::Legacy(value) => KeyConfigView {
                value: value@,
                tier: KeyTier::Unknown,
                rpm_limit: None,
                rpd_limit: None,
                tpm_limit: None,
                tpd_limit: None,
            },
            KeyConfig::Detailed { value, tier, rpm_limit, rpd_limit, tpm_limit, tpd_limit } =>
                KeyConfigView {
                value: value@,
                tier: *tier,
                rpm_limit: *rpm_limit,
                rpd_limit: *rpd_limit,
                tpm_limit: *tpm_limit,
                tpd_limit: *tpd_limit,
            },
        }
    }
}

impl KeyConfig {
    pub fn value(&self) -> (r: &str)
        ensures
            r@ == self@.value,
    {
        match self {
            KeyConfig::Legacy(value) => value.as_str(),
            KeyConfig::Detailed { value, .. } => value.as_str(),
        }
    }

    pub fn tier(&self) -> (r: KeyTier)
        ensures
            r == self@.tier,
    {
        match self {
            KeyConfig::Legacy(_) => KeyTier::Unknown,
            KeyConfig::Detailed { tier, .. } => *tier,
        }
    }

    pub fn rpm_limit(&self) -> (r: Option<u32>)
        ensures
            r == self@.rpm_limit,
    {
        match self {
            KeyConfig::Legacy(_) => None,
            KeyConfig::Detailed { rpm_limit, .. } => *rpm_limit,
        }
    }

    pub fn rpd_limit(&self) -> (r: Option<u32>)
        ensures
            r == self@.rpd_limit,
    {
        match self {
            KeyConfig::Legacy(_) => None,
            KeyConfig::Detailed { rpd_limit, .. } => *rpd_limit,
        }
    }

    pub fn tpm_limit(&self) -> (r: Option<u32>)
        ensures
            r == self@.tpm_limit,
    {
        match self {
            KeyConfig::Legacy(_) => None,
            KeyConfig::Detailed { tpm_limit, .. } => *tpm_limit,
        }
    }

    pub fn tpd_limit(&self) -> (r: Option<u32>)
        ensures
            r == self@.tpd_limit,
    {
        match self {
            KeyConfig::Legacy(_) => None,
            KeyConfig::Detailed { tpd_limit, .. } => *tpd_limit,
        }
    }

    /// Create a Detailed key config with all rate limits unset.
    pub fn detailed(value: &str, tier: KeyTier) -> (r: KeyConfig)
        ensures
            r is Detailed,
            r@ == (KeyConfigView {
                value: value@,
                tier,
                rpm_limit: None,
                rpd_limit: None,
                tpm_limit: None,
                tpd_limit: None,
            }),
    {
        KeyConfig::Detailed {
            value: value.to_owned(),
            tier,
            rpm_limit: None,
            rpd_limit: None,
            tpm_limit: None,
            tpd_limit: None,
        }
    }

    /// A copy of the key.
    pub fn copy(&self) -> (r: KeyConfig)
        ensures
            r == *self,
    {
        match self {
            KeyConfig::Legacy(value) => KeyConfig::Legacy(value.clone()),
            KeyConfig::Detailed { value, tier, rpm_limit, rpd_limit, tpm_limit, tpd_limit } =>
                KeyConfig::Detailed {
                value: value.clone(),
                tier: *tier,
                rpm_limit: *rpm_limit,
                rpd_limit: *rpd_limit,
                tpm_limit: *tpm_limit,
                tpd_limit: *tpd_limit,
            },
        }
    }

    /// A key of which only the value is known.
    pub fn legacy(value: &str) -> (r: KeyConfig)
        ensures
            r matches KeyConfig::Legacy(v) && v@ == value@,
    {
        KeyConfig::Legacy(value.to_owned())
    }
}

impl From<String> for KeyConfig {
    fn from(value: String) -> (r: KeyConfig) {
        KeyConfig::Legacy(value)
    }
}

impl vstd::std_specs::convert::FromSpecImpl<String> for KeyConfig {
    open spec fn obeys_from_spec() -> bool {
        true
    }

    open spec fn from_spec(value: String) -> KeyConfig {
        KeyConfig::Legacy(value)
    }
}

#[derive(Debug)]
pub struct ProviderConfig {
    pub provider_type: ProviderType,
    pub enabled: bool,
    pub base_url: String,
    pub keys: Vec<KeyConfig>,
    pub health_check_model: String,
    pub timeout_seconds: u64,
    pub priority: u32,
    pub proxy_url: Option<String>,
}

pub fn default_true() -> (r: bool)
    ensures
        r,
{
    true
}

pub fn default_provider_timeout() -> (r: u64)
    ensures
        r == 30,
{
    30
}

// ---------------------------------------------------------------- watcher
#[derive(Debug, Clone, Copy, PartialEq, Eq, Structural)]
pub struct WatcherConfig {
    pub enabled: bool,
    pub interval_seconds: u64,
    pub check_timeout_seconds: u64,
}

impl Default for WatcherConfig {
    fn default() -> (r: WatcherConfig)
        ensures
            r == (WatcherConfig { enabled: false, interval_seconds: 0, check_timeout_seconds: 0 }),
    {
        WatcherConfig { enabled: false, interval_seconds: 0, check_timeout_seconds: 0 }
    }
}

pub fn default_watcher_interval() -> (r: u64)
    ensures
        r == 60,
{
    60
}

pub fn default_watcher_timeout() -> (r: u64)
    ensures
        r == 10,
{
    10
}

// ---------------------------------------------------------------- state
#[derive(Debug)]
pub struct StateConfig {
    pub save_interval_seconds: u64,
    pub state_file: String,
    pub models_cache_file: String,
}

impl Default for StateConfig {
    fn default() -> (r: StateConfig)
        ensures
            r.save_interval_seconds == 0,
            r.state_file@ == Seq::<char>::empty(),
            r.models_cache_file@ == Seq::<char>::empty(),
    {
        StateConfig {
            save_interval_seconds: 0,
            state_file: String::new(),
            models_cache_file: String::new(),
        }
    }
}

pub fn default_save_interval() -> (r: u64)
    ensures
        r == 30,
{
    30
}

pub fn default_state_file() -> (r: String)
    ensures
        r@ == "state.json"@,
{
    "state.json".to_owned()
}

pub fn default_models_cache_file() -> (r: String)
    ensures
        r@ == "models.cache"@,
{
    "models.cache".to_owned()
}

// ---------------------------------------------------------------- cross-origin requests
#[derive(Debug)]
pub struct CorsConfig {
    pub allowed_origins: Vec<String>,
    pub allowed_methods: Vec<String>,
    pub allowed_headers: Vec<String>,
}

impl Default for CorsConfig {
    fn default() -> (r: CorsConfig)
        ensures
            r.allowed_origins@.len() == 0,
            r.allowed_methods@.len() == 0,
            r.allowed_headers@.len() == 0,
    {
        CorsConfig {
            allowed_origins: Vec::new(),
            allowed_methods: Vec::new(),
            allowed_headers: Vec::new(),
        }
    }
}

pub fn default_cors_origins() -> (r: Vec<String>)
    ensures
        r@.len() == 1,
        r@[0]@ == "*"@,
{
    vec!["*".to_owned()]
}

pub fn default_cors_methods() -> (r: Vec<String>)
    ensures
        r@.len() == 3,
        r@[0]@ == "GET"@,
        r@[1]@ == "POST"@,
        r@[2]@ == "OPTIONS"@,
{
    vec!["GET".to_owned(), "POST".to_owned(), "OPTIONS".to_owned()]
}

pub fn default_cors_headers() -> (r: Vec<String>)
    ensures
        r@.len() == 4,
        r@[0]@ == "Authorization"@,
        r@[1]@ == "Content-Type"@,
        r@[2]@ == "X-Request-Id"@,
        r@[3]@ == "X-Agent-Name"@,
{
    vec![
        "Authorization".to_owned(),
        "Content-Type".to_owned(),
        "X-Request-Id".to_owned(),
        "X-Agent-Name".to_owned(),
    ]
}

// ---------------------------------------------------------------- adaptive routing
/// An automatic model: the kind of task that it stands for.
#[derive(Debug)]
pub struct AutoModelConfig {
    pub task: String,
}

/// What an agent may use and what it asks for by default.
#[derive(Debug)]
pub struct AgentProfileConfig {
    pub provider_groups: Vec<String>,
    pub default_auto_model: String,
}

/// A named group of providers.
#[derive(Debug)]
pub struct RoutingGroupConfig {
    pub providers: Vec<String>,
}

#[derive(Debug)]
pub struct AdaptiveRoutingConfig {
    pub enabled: bool,
    pub allow_paid: bool,
    pub candidate_limit: usize,
    pub learning_window_days: i64,
    pub auto_models: Vec<(String, AutoModelConfig)>,
    pub agent_profiles: Vec<(String, AgentProfileConfig)>,
    pub routing_groups: Vec<(String, RoutingGroupConfig)>,
}

// ---------------------------------------------------------------- environment references
/// A reference `${NAME}` in a text: what stands before it, the name, and what
/// stands after it.
#[derive(Debug)]
pub struct Reference {
    pub before: String,
    pub name: String,
    pub after: String,
}

/// The text reads `before ${name} after`, and this is the reference to expand
/// next: the first that opens, up to the first brace that closes.
pub open spec fn next_reference_in(text: Seq<char>, r: Reference) -> bool {
    &&& text == r.before@ + "${"@ + r.name@ + "}"@ + r.after@
    &&& is_first_occurrence(text, "${"@, 0, r.before@.len() as int)
    &&& forall|i: int| 0 <= i < r.name@.len() ==> r.name@[i] != '}'
}

/// Whether a text holds a reference: an opening, and a closing brace after the
/// first of them.
pub open spec fn has_reference(text: Seq<char>) -> bool {
    exists|start: int, end: int| #[trigger]
        is_first_occurrence(text, "${"@, 0, start) && start <= end < text.len() && #[trigger] text[end]
            == '}'
}

/// The reference to expand next, where the text holds one.
pub fn next_reference(text: &str) -> (r: Option<Reference>)
    ensures
        match r {
            Some(found) => next_reference_in(text@, found),
            None => !has_reference(text@),
        },
{
    proof {
        reveal_strlit("${");
        reveal_strlit("}");
    }
    let chars = to_chars(text);
    let open = to_chars("${");
    match find_from(&chars, &open, 0) {
        None => {
            assert forall|start: int|
                !is_first_occurrence(text@, "${"@, 0, start) by {};
            None
        },
        Some(start) => {
            assert(chars@.subrange(start as int, start + 2) == "${"@);
            assert(chars@[start as int] == chars@.subrange(start as int, start + 2)[0]);
            assert(chars@[start + 1] == chars@.subrange(start as int, start + 2)[1]);
            assert(start + 2 <= chars.len());
            let mut end: usize = start + 2;
            while end < chars.len() && chars[end] != '}'
                invariant
                    start + 2 <= end <= chars@.len(),
                    forall|i: int| start <= i < end ==> chars@[i] != '}',
                decreases chars@.len() - end,
            {
                end += 1;
            }
            if end == chars.len() {
                assert forall|s: int, e: int|
                    #[trigger] is_first_occurrence(text@, "${"@, 0, s) && s <= e < text@.len() implies #[trigger] text@[e]
                        != '}' by {
                    if s != start {
                        if s < start {
                            assert(!occurs_at(text@, "${"@, s));
                        } else {
                            assert(!occurs_at(text@, "${"@, start as int));
                        }
                    }
                }
                return None;
            }
            let found = Reference {
                before: slice_chars(&chars, 0, start),
                name: slice_chars(&chars, start + 2, end),
                after: slice_chars(&chars, end + 1, chars.len()),
            };
            assert(text@ =~= found.before@ + "${"@ + found.name@ + "}"@ + found.after@);
            Some(found)
        },
    }
}

/// The text with the value of the variable in place of the reference.
pub fn expand_reference(reference: &Reference, value: &str) -> (r: String)
    ensures
        r@ == reference.before@ + value@ + reference.after@,
{
    concat3(reference.before.as_str(), value, reference.after.as_str())
}

} // verus!
